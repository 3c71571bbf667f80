//! Client connection lifecycle and the client side of the message bridge.
//! The lifecycle is an explicit state machine over the single outbound
//! connection: at most one live attempt exists per process, and a connect
//! request issued while one is live is ignored.

use vstd::multiset::Multiset;
use vstd::prelude::*;

use crate::channel::{built_from, ChannelSet, NetworkConfigs, MAX_CHANNELS};
use crate::errors::ConfigError;
use crate::registry::{has_binding, BindingRegistry, Direction, MessageBinding};
use crate::transport::{
    client_channel_ids, client_closed, client_disconnect, client_inbound, client_outbound,
    client_receive, client_reliable_ids, client_send, new_renet_client,
};
use crate::KEY_BYTES;

verus! {

/// Length in bytes of the opaque user data a connect token can carry.
pub const USER_DATA_BYTES: usize = 256;

/// Server port used when a request does not name one.
pub const DEFAULT_SERVER_PORT: u16 = 5000;

/// Protocol id used when a request does not name one.
pub const DEFAULT_PROTOCOL_ID: u64 = 1;

/// Lifetime of a connect token when the request does not bound it: one day.
pub const DEFAULT_EXPIRE_SECONDS: u64 = 86_400;

/// Sentinel handed to the transport for "no handshake timeout".
pub const NO_TIMEOUT: i32 = -1;

/// Request to open the single outbound connection.
#[derive(Clone, Debug)]
pub struct ConnectToServer {
    pub server_ip: String,
    pub server_port: u16,
    pub protocol_id: u64,
    pub available_bytes_per_tick: u64,
    /// Client id; when absent the current wall-clock millisecond count is
    /// used, which is not guaranteed unique across processes started in the
    /// same millisecond.
    pub client_id: Option<u64>,
    pub user_data: Option<[u8; USER_DATA_BYTES]>,
    pub expire_seconds: Option<u64>,
    pub timeout_seconds: Option<i32>,
    /// Shared secret; present means token-authenticated, absent means
    /// plaintext client-id authentication.
    pub private_key: Option<[u8; KEY_BYTES]>,
}

impl Default for ConnectToServer {
    /// Connect to 127.0.0.1:5000 with protocol id 1, the default byte budget
    /// and plaintext authentication.
    fn default() -> (r: Self)
        ensures
            r.server_ip@ == "127.0.0.1"@,
            r.server_port == DEFAULT_SERVER_PORT,
            r.protocol_id == DEFAULT_PROTOCOL_ID,
            r.available_bytes_per_tick == crate::channel::DEFAULT_AVAILABLE_BYTES_PER_TICK,
            r.client_id is None,
            r.user_data is None,
            r.expire_seconds is None,
            r.timeout_seconds is None,
            r.private_key is None,
    {
        ConnectToServer {
            server_ip: "127.0.0.1".to_owned(),
            server_port: DEFAULT_SERVER_PORT,
            protocol_id: DEFAULT_PROTOCOL_ID,
            available_bytes_per_tick: crate::channel::DEFAULT_AVAILABLE_BYTES_PER_TICK,
            client_id: None,
            user_data: None,
            expire_seconds: None,
            timeout_seconds: None,
            private_key: None,
        }
    }
}

/// Request to close the outbound connection.
#[derive(Clone, Copy, Debug)]
pub struct DisconnectFromServer;

/// A message delivered from the server: an encoded payload for a registered
/// codec.
#[derive(Clone, Debug)]
pub struct ReceiveFromServer {
    pub content: Vec<u8>,
}

/// A message to send to the server: an encoded payload for a registered
/// codec.
#[derive(Clone, Debug)]
pub struct SendToServer {
    pub content: Vec<u8>,
}

/// Client connection lifecycle state.
#[derive(Clone, Copy, PartialEq, Eq, Structural, Debug)]
pub enum ClientState {
    Idle,
    Connecting { client_id: u64 },
    Connected { client_id: u64 },
}

/// The single client session of the process: the lifecycle state of the one
/// outbound connection.  Only the transitions below construct or release the
/// connection resources.
#[derive(Clone, Copy, Debug)]
pub struct ClientSession {
    pub state: ClientState,
}

impl ClientSession {
    pub fn new() -> (s: Self)
        ensures
            s.state is Idle,
    {
        ClientSession { state: ClientState::Idle }
    }
}

/// How the transport edge should authenticate the connection attempt.
#[derive(Clone, Copy, Debug)]
pub enum AuthenticationMode {
    /// A time-bounded, single-use connect token scoped to the target address
    /// and built from the shared secret.
    Secure { private_key: [u8; KEY_BYTES], expire_seconds: u64, timeout_seconds: i32 },
    /// Plaintext client-id authentication.
    Unsecure,
}

/// The client id a connect request resolves to: the explicit one, or the
/// wall-clock millisecond count at the time of the request.
pub open spec fn effective_client_id(requested: Option<u64>, now_ms: u64) -> u64 {
    match requested {
        Some(id) => id,
        None => now_ms,
    }
}

/// The authentication mode a connect request selects: token authentication
/// exactly when a shared secret is present, with the default token lifetime
/// and no handshake timeout unless the request names them.
pub open spec fn selected_auth_mode(request: ConnectToServer) -> AuthenticationMode {
    match request.private_key {
        Some(k) => AuthenticationMode::Secure {
            private_key: k,
            expire_seconds: match request.expire_seconds {
                Some(e) => e,
                None => DEFAULT_EXPIRE_SECONDS,
            },
            timeout_seconds: match request.timeout_seconds {
                Some(t) => t,
                None => NO_TIMEOUT,
            },
        },
        None => AuthenticationMode::Unsecure,
    }
}

/// Everything the transport edge needs to finish opening the connection: the
/// fresh endpoint, the validated channel table, the resolved identity and the
/// selected authentication mode.  The edge binds a local ephemeral socket and
/// runs the handshake; the state machine is told the outcome.
pub struct ClientBootstrap {
    pub link: renet::RenetClient,
    pub channels: ChannelSet,
    pub server_ip: String,
    pub server_port: u16,
    pub protocol_id: u64,
    pub client_id: u64,
    pub user_data: Option<[u8; USER_DATA_BYTES]>,
    pub auth: AuthenticationMode,
}

/// Client transition `Idle --ConnectRequest--> Connecting`: builds the
/// channel table, resolves the effective client id, selects the
/// authentication mode and creates the single connection endpoint.  A request
/// while already connecting or connected is ignored: the state is unchanged
/// and no endpoint is created.  A request with more than `MAX_CHANNELS`
/// channels is rejected and the state is unchanged.
pub fn client_initiates_connection_to_server(
    session: &mut ClientSession,
    request: &ConnectToServer,
    configs: &NetworkConfigs,
    now_ms: u64,
) -> (r: Result<Option<ClientBootstrap>, ConfigError>)
    ensures
        old(session).state !is Idle ==> *final(session) == *old(session) && (r matches Ok(b)
            && b is None),
        old(session).state is Idle && configs.0@.len() > MAX_CHANNELS
            ==> *final(session) == *old(session) && r == Err::<Option<ClientBootstrap>, ConfigError>(
            ConfigError::TooManyChannels { supplied: configs.0@.len() as usize },
        ),
        old(session).state is Idle && configs.0@.len() <= MAX_CHANNELS ==> {
            &&& r matches Ok(b)
            &&& b matches Some(boot)
            &&& boot.client_id == effective_client_id(request.client_id, now_ms)
            &&& final(session).state == (ClientState::Connecting { client_id: boot.client_id })
            &&& built_from(boot.channels, *configs, request.available_bytes_per_tick)
            &&& client_channel_ids(boot.link) == boot.channels.id_set()
            &&& client_reliable_ids(boot.link) == boot.channels.reliable_id_set()
            &&& !client_closed(boot.link)
            &&& forall|ch: u8| #[trigger] client_inbound(boot.link, ch) == Multiset::<
                Seq<u8>,
            >::empty()
            &&& forall|ch: u8| #[trigger] client_outbound(boot.link, ch) == Seq::<
                Seq<u8>,
            >::empty()
            &&& boot.server_ip@ == request.server_ip@
            &&& boot.server_port == request.server_port
            &&& boot.protocol_id == request.protocol_id
            &&& boot.user_data == request.user_data
            &&& boot.auth == selected_auth_mode(*request)
        },
{
    match session.state {
        ClientState::Idle => {},
        _ => {
            return Ok(None);
        },
    }
    let channels = match configs.build(request.available_bytes_per_tick) {
        Ok(cs) => cs,
        Err(e) => {
            return Err(e);
        },
    };
    let link = new_renet_client(&channels);
    let client_id = match request.client_id {
        Some(id) => id,
        None => now_ms,
    };
    let auth = match request.private_key {
        Some(k) => AuthenticationMode::Secure {
            private_key: k,
            expire_seconds: match request.expire_seconds {
                Some(e) => e,
                None => DEFAULT_EXPIRE_SECONDS,
            },
            timeout_seconds: match request.timeout_seconds {
                Some(t) => t,
                None => NO_TIMEOUT,
            },
        },
        None => AuthenticationMode::Unsecure,
    };
    session.state = ClientState::Connecting { client_id };
    Ok(
        Some(
            ClientBootstrap {
                link,
                channels,
                server_ip: request.server_ip.clone(),
                server_port: request.server_port,
                protocol_id: request.protocol_id,
                client_id,
                user_data: request.user_data,
                auth,
            },
        ),
    )
}

/// Client transition `Connecting --handshake accepted--> Connected`: called
/// by the transport edge when the handshake is accepted.  In any other state
/// the notification is ignored.
pub fn client_connection_established(session: &mut ClientSession)
    ensures
        old(session).state matches ClientState::Connecting { client_id }
            ==> final(session).state == (ClientState::Connected { client_id }),
        old(session).state !is Connecting ==> *final(session) == *old(session),
{
    match session.state {
        ClientState::Connecting { client_id } => {
            session.state = ClientState::Connected { client_id };
        },
        _ => {},
    }
}

/// Client transition `Connecting --fatal failure--> Idle`: called by the
/// transport edge when the address is malformed or the socket cannot be
/// bound; the edge surfaces the `ConnectError` and the attempt is not retried
/// here.  In any other state the notification is ignored.
pub fn client_connection_failed(session: &mut ClientSession)
    ensures
        old(session).state is Connecting ==> final(session).state is Idle,
        old(session).state !is Connecting ==> *final(session) == *old(session),
{
    match session.state {
        ClientState::Connecting { .. } => {
            session.state = ClientState::Idle;
        },
        _ => {},
    }
}

/// Client transition to `Idle`: sends the disconnect notification through the
/// endpoint — the connection is closed afterwards — and releases the session
/// within the same tick; afterwards no partial state is observable.
pub fn client_disconnects_from_server(session: &mut ClientSession, link: &mut renet::RenetClient)
    requires
        old(session).state !is Idle,
    ensures
        final(session).state is Idle,
        client_closed(*final(link)),
        client_channel_ids(*final(link)) == client_channel_ids(*old(link)),
        forall|ch: u8| #[trigger] client_outbound(*final(link), ch) == client_outbound(
            *old(link),
            ch,
        ),
        forall|ch: u8| #[trigger] client_inbound(*final(link), ch).len() == 0,
{
    client_disconnect(link);
    session.state = ClientState::Idle;
}

/// The payload bytes of queued client→server messages, in queue order.
pub open spec fn payloads_of_sends(entries: Seq<SendToServer>) -> Seq<Seq<u8>>
    decreases entries.len(),
{
    if entries.len() == 0 {
        Seq::empty()
    } else {
        payloads_of_sends(entries.drop_last()).push(entries.last().content@)
    }
}

/// Send phase for the client→server direction of one channel: every queued
/// payload is handed to the transport in queue order and the queue is left
/// empty.  On a reliable channel, if the connection is still open afterwards,
/// the transport accepted exactly the queued payloads, in order; the only
/// other outcomes renet allows are a close on budget exhaustion (reliable) or
/// a silent drop (unreliable, a lossy channel by contract).
pub fn client_sends_messages_to_server(
    link: &mut renet::RenetClient,
    outbox: &mut Vec<SendToServer>,
    channel_id: u8,
)
    requires
        client_channel_ids(*old(link)).contains(channel_id),
    ensures
        final(outbox)@.len() == 0,
        client_channel_ids(*final(link)) == client_channel_ids(*old(link)),
        client_reliable_ids(*final(link)) == client_reliable_ids(*old(link)),
        client_closed(*old(link)) ==> client_closed(*final(link)),
        forall|ch: u8|
            ch != channel_id ==> #[trigger] client_outbound(*final(link), ch) == client_outbound(
                *old(link),
                ch,
            ),
        !client_closed(*final(link)) && client_reliable_ids(*old(link)).contains(channel_id)
            ==> client_outbound(*final(link), channel_id) == client_outbound(
            *old(link),
            channel_id,
        ) + payloads_of_sends(old(outbox)@),
        client_closed(*old(link)) || !client_closed(*final(link)) ==> forall|ch: u8| #[trigger]
            client_inbound(*final(link), ch) == client_inbound(*old(link), ch),
        !client_closed(*old(link)) && client_closed(*final(link)) ==> forall|ch: u8| #[trigger]
            client_inbound(*final(link), ch).len() == 0,
{
    let ghost entry_link = *link;
    let ghost entry_outbox = outbox@;
    while outbox.len() > 0
        invariant
            client_channel_ids(*link) == client_channel_ids(entry_link),
            client_channel_ids(*link).contains(channel_id),
            client_reliable_ids(*link) == client_reliable_ids(entry_link),
            client_closed(entry_link) ==> client_closed(*link),
            outbox@.len() <= entry_outbox.len(),
            outbox@ == entry_outbox.skip(entry_outbox.len() - outbox@.len()),
            forall|ch: u8|
                ch != channel_id ==> #[trigger] client_outbound(*link, ch) == client_outbound(
                    entry_link,
                    ch,
                ),
            !client_closed(*link) && client_reliable_ids(entry_link).contains(channel_id)
                ==> client_outbound(*link, channel_id) == client_outbound(entry_link, channel_id)
                + payloads_of_sends(entry_outbox.take(entry_outbox.len() - outbox@.len())),
            client_closed(entry_link) || !client_closed(*link) ==> forall|ch: u8| #[trigger]
                client_inbound(*link, ch) == client_inbound(entry_link, ch),
            !client_closed(entry_link) && client_closed(*link) ==> forall|ch: u8| #[trigger]
                client_inbound(*link, ch).len() == 0,
        decreases outbox@.len(),
    {
        let ghost offset = entry_outbox.len() - outbox@.len();
        let ghost pre_link = *link;
        proof {
            assert(outbox@[0] == entry_outbox[offset as int]);
            assert(outbox@.drop_first() =~= entry_outbox.skip(offset + 1));
            assert(entry_outbox.take(offset + 1).drop_last() =~= entry_outbox.take(offset as int));
            assert(entry_outbox.take(offset + 1).last() == entry_outbox[offset as int]);
        }
        let message = outbox.remove(0);
        client_send(link, channel_id, message.content);
        proof {
            if !client_closed(*link) && client_reliable_ids(entry_link).contains(channel_id) {
                assert(!client_closed(pre_link));
                assert(client_outbound(*link, channel_id) == client_outbound(
                    pre_link,
                    channel_id,
                ).push(entry_outbox[offset as int].content@));
                assert(client_outbound(entry_link, channel_id) + payloads_of_sends(
                    entry_outbox.take(offset + 1),
                ) =~= (client_outbound(entry_link, channel_id) + payloads_of_sends(
                    entry_outbox.take(offset as int),
                )).push(entry_outbox[offset as int].content@));
            }
        }
    }
    proof {
        assert(entry_outbox.take(entry_outbox.len() as int) =~= entry_outbox);
    }
}

/// Receive phase for the server→client direction of one channel: everything
/// the transport is ready to deliver is moved to the inbox, so nothing is
/// left ready afterwards.  Earlier inbox entries are never touched, every
/// appended entry was ready when the phase began, and nothing is lost or
/// invented: exactly what was ready was appended.
pub fn client_receives_messages_from_server(
    link: &mut renet::RenetClient,
    channel_id: u8,
    inbox: &mut Vec<ReceiveFromServer>,
)
    requires
        client_channel_ids(*old(link)).contains(channel_id),
    ensures
        client_channel_ids(*final(link)) == client_channel_ids(*old(link)),
        client_reliable_ids(*final(link)) == client_reliable_ids(*old(link)),
        client_closed(*final(link)) == client_closed(*old(link)),
        forall|ch: u8| #[trigger] client_outbound(*final(link), ch) == client_outbound(
            *old(link),
            ch,
        ),
        forall|ch: u8|
            ch != channel_id ==> #[trigger] client_inbound(*final(link), ch) == client_inbound(
                *old(link),
                ch,
            ),
        client_inbound(*final(link), channel_id).len() == 0,
        old(inbox)@.is_prefix_of(final(inbox)@),
        final(inbox)@.len() == client_inbound(*old(link), channel_id).len() + old(inbox)@.len(),
        forall|i: int|
            old(inbox)@.len() <= i < final(inbox)@.len() ==> client_inbound(
                *old(link),
                channel_id,
            ).contains((#[trigger] final(inbox)@[i]).content@),
{
    let ghost entry_link = *link;
    let ghost entry_inbox = inbox@;
    loop
        invariant
            client_channel_ids(*link) == client_channel_ids(entry_link),
            client_channel_ids(*link).contains(channel_id),
            client_reliable_ids(*link) == client_reliable_ids(entry_link),
            client_closed(*link) == client_closed(entry_link),
            forall|ch: u8| #[trigger] client_outbound(*link, ch) == client_outbound(entry_link, ch),
            forall|ch: u8|
                ch != channel_id ==> #[trigger] client_inbound(*link, ch) == client_inbound(
                    entry_link,
                    ch,
                ),
            entry_inbox.is_prefix_of(inbox@),
            client_inbound(*link, channel_id).subset_of(client_inbound(entry_link, channel_id)),
            client_inbound(*link, channel_id).len() + inbox@.len() == client_inbound(
                entry_link,
                channel_id,
            ).len() + entry_inbox.len(),
            forall|i: int|
                entry_inbox.len() <= i < inbox@.len() ==> client_inbound(
                    entry_link,
                    channel_id,
                ).contains((#[trigger] inbox@[i]).content@),
        ensures
            client_channel_ids(*link) == client_channel_ids(entry_link),
            client_reliable_ids(*link) == client_reliable_ids(entry_link),
            client_closed(*link) == client_closed(entry_link),
            forall|ch: u8| #[trigger] client_outbound(*link, ch) == client_outbound(entry_link, ch),
            forall|ch: u8|
                ch != channel_id ==> #[trigger] client_inbound(*link, ch) == client_inbound(
                    entry_link,
                    ch,
                ),
            entry_inbox.is_prefix_of(inbox@),
            client_inbound(*link, channel_id).len() == 0,
            inbox@.len() == client_inbound(entry_link, channel_id).len() + entry_inbox.len(),
            forall|i: int|
                entry_inbox.len() <= i < inbox@.len() ==> client_inbound(
                    entry_link,
                    channel_id,
                ).contains((#[trigger] inbox@[i]).content@),
        decreases client_inbound(*link, channel_id).len(),
    {
        let received = client_receive(link, channel_id);
        match received {
            Some(content) => {
                inbox.push(ReceiveFromServer { content });
            },
            None => {
                break ;
            },
        }
    }
}

/// Send phase for one bound message kind: resolves the kind's channel in the
/// registry and drains the queue there.  Returns the channel used, or `None`,
/// with everything untouched, when the kind has no client→server binding.
/// Every channel the registry names must belong to the endpoint; the host
/// guarantees that by refusing bindings outside the built channel table.
pub fn client_sends_bound_messages(
    registry: &BindingRegistry,
    kind: u64,
    link: &mut renet::RenetClient,
    outbox: &mut Vec<SendToServer>,
) -> (r: Option<u8>)
    requires
        forall|i: int|
            0 <= i < registry.bindings@.len() ==> client_channel_ids(*old(link)).contains(
                (#[trigger] registry.bindings@[i]).channel_id,
            ),
    ensures
        r is Some <==> has_binding(registry.bindings@, kind, Direction::ClientToServer),
        r is None ==> *final(link) == *old(link) && final(outbox)@ == old(outbox)@,
        r matches Some(ch) ==> {
            &&& (exists|i: int|
                0 <= i < registry.bindings@.len() && (#[trigger] registry.bindings@[i])
                    == (MessageBinding {
                    kind,
                    direction: Direction::ClientToServer,
                    channel_id: ch,
                }))
            &&& final(outbox)@.len() == 0
            &&& client_channel_ids(*final(link)) == client_channel_ids(*old(link))
            &&& client_reliable_ids(*final(link)) == client_reliable_ids(*old(link))
            &&& forall|other: u8|
                other != ch ==> #[trigger] client_outbound(*final(link), other) == client_outbound(
                    *old(link),
                    other,
                )
            &&& (!client_closed(*final(link)) && client_reliable_ids(*old(link)).contains(ch)
                ==> client_outbound(*final(link), ch) == client_outbound(*old(link), ch)
                + payloads_of_sends(old(outbox)@))
        },
{
    match registry.channel_for(kind, Direction::ClientToServer) {
        None => None,
        Some(ch) => {
            proof {
                let i = choose|i: int|
                    0 <= i < registry.bindings@.len() && (#[trigger] registry.bindings@[i])
                        == (MessageBinding {
                        kind,
                        direction: Direction::ClientToServer,
                        channel_id: ch,
                    });
                assert(client_channel_ids(*link).contains(registry.bindings@[i].channel_id));
            }
            client_sends_messages_to_server(link, outbox, ch);
            Some(ch)
        },
    }
}

} // verus!