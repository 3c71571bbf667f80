//! Server connection lifecycle and the server side of the message bridge.
//! The lifecycle is an explicit state machine over the single listening
//! endpoint; shutdown is two-phase: the transport resource of a stopped
//! server is released only on the tick after the stop request, never in the
//! same tick, because the transport needs one more tick to finish in-flight
//! teardown.

use vstd::multiset::Multiset;
use vstd::prelude::*;

use crate::channel::{built_from, ChannelSet, NetworkConfigs, MAX_CHANNELS};
use crate::errors::{ConfigError, DisconnectReason};
use crate::registry::{has_binding, BindingRegistry, Direction, MessageBinding};
use crate::transport::{
    new_renet_server, server_broadcast, server_channel_ids, server_client_ids,
    server_disconnect_all, server_events, server_inbound, server_outbound, server_poll_event,
    server_receive, server_reliable_ids, server_send, EndpointEvent,
};
use crate::KEY_BYTES;

verus! {

/// Clients a server accepts when a request does not name a limit.
pub const DEFAULT_MAX_CLIENTS: usize = 64;

/// Request to start the single listening endpoint.
#[derive(Clone, Debug)]
pub struct StartServer {
    pub ip: String,
    pub port: u16,
    pub max_clients: usize,
    pub protocol_id: u64,
    pub available_bytes_per_tick: u64,
    /// Shared secret; present means token-authenticated clients only, absent
    /// means plaintext authentication.
    pub private_key: Option<[u8; KEY_BYTES]>,
}

impl Default for StartServer {
    /// Listen on 127.0.0.1:5000 for at most 64 clients with protocol id 1,
    /// the default byte budget and plaintext authentication.
    fn default() -> (r: Self)
        ensures
            r.ip@ == "127.0.0.1"@,
            r.port == crate::client::DEFAULT_SERVER_PORT,
            r.max_clients == DEFAULT_MAX_CLIENTS,
            r.protocol_id == crate::client::DEFAULT_PROTOCOL_ID,
            r.available_bytes_per_tick == crate::channel::DEFAULT_AVAILABLE_BYTES_PER_TICK,
            r.private_key is None,
    {
        StartServer {
            ip: "127.0.0.1".to_owned(),
            port: crate::client::DEFAULT_SERVER_PORT,
            max_clients: DEFAULT_MAX_CLIENTS,
            protocol_id: crate::client::DEFAULT_PROTOCOL_ID,
            available_bytes_per_tick: crate::channel::DEFAULT_AVAILABLE_BYTES_PER_TICK,
            private_key: None,
        }
    }
}

/// Request to stop the listening endpoint.
#[derive(Clone, Copy, Debug)]
pub struct StopServer;

/// Domain event: a client finished the handshake and joined.
#[derive(Clone, Copy, PartialEq, Eq, Structural, Debug)]
pub struct ClientConnected {
    pub client_id: u64,
}

/// Domain event: a client left, with the reason.
#[derive(Clone, Debug)]
pub struct ClientDisconnected {
    pub client_id: u64,
    pub reason: DisconnectReason,
}

/// A message delivered from a client: an encoded payload tagged with the
/// sender.
#[derive(Clone, Debug)]
pub struct ReceiveFromClient {
    pub client_id: u64,
    pub content: Vec<u8>,
}

/// A message to send to one client: an encoded payload with its target.
#[derive(Clone, Debug)]
pub struct SendToClient {
    pub client_id: u64,
    pub content: Vec<u8>,
}

/// A message to broadcast to every connected client.
#[derive(Clone, Debug)]
pub struct SendToClients {
    pub content: Vec<u8>,
}

/// A connected client as tracked by the server lifecycle.
#[derive(Clone, Copy, PartialEq, Eq, Structural, Debug)]
pub struct ClientRecord {
    /// Unique among the records while connected.
    pub client_id: u64,
    /// Wall-clock milliseconds at the accept notification.
    pub connected_at: u64,
}

/// Whether the single listening endpoint exists.
#[derive(Clone, Copy, PartialEq, Eq, Structural, Debug)]
pub enum ServerState {
    Stopped,
    Running,
}

/// The lifecycle phase, with the two-phase shutdown explicit: a server that
/// was just stopped holds its transport resource one more tick.
#[derive(Clone, Copy, PartialEq, Eq, Structural, Debug)]
pub enum ServerPhase {
    Stopped,
    StoppingPendingRelease,
    Running,
}

/// The single server session of the process: the lifecycle state of the one
/// listening endpoint and the set of connected clients.  The record set is
/// owned by the lifecycle; the message bridge only reads it.
#[derive(Clone, Debug)]
pub struct ServerSession {
    pub state: ServerState,
    /// Clients currently connected, one record each.
    pub clients: Vec<ClientRecord>,
    /// True while a stopped endpoint's transport resource still has to be
    /// released on the next tick.
    pub release_due: bool,
}

/// No two records carry the same client id.
pub open spec fn unique_records(records: Seq<ClientRecord>) -> bool {
    forall|i: int, j: int|
        0 <= i < j < records.len() ==> (#[trigger] records[i]).client_id != (
        #[trigger] records[j]).client_id
}

/// Whether some record carries the given client id.
pub open spec fn has_record(records: Seq<ClientRecord>, client_id: u64) -> bool {
    exists|i: int| 0 <= i < records.len() && (#[trigger] records[i]).client_id == client_id
}

/// The record sequence with every record of the given client id taken out,
/// order of the rest kept.
pub open spec fn remove_record(records: Seq<ClientRecord>, client_id: u64) -> Seq<ClientRecord>
    decreases records.len(),
{
    if records.len() == 0 {
        Seq::empty()
    } else {
        let rest = remove_record(records.drop_last(), client_id);
        if records.last().client_id == client_id {
            rest
        } else {
            rest.push(records.last())
        }
    }
}

/// What one transport notification does to the record set: an accept adds a
/// record stamped with the current time unless the id is already tracked; a
/// drop removes the id's record.
pub open spec fn apply_event(
    records: Seq<ClientRecord>,
    ev: EndpointEvent,
    now_ms: u64,
) -> Seq<ClientRecord> {
    match ev {
        EndpointEvent::Connected { client_id } => if has_record(records, client_id) {
            records
        } else {
            records.push(ClientRecord { client_id, connected_at: now_ms })
        },
        EndpointEvent::Disconnected { client_id, reason: _ } => remove_record(records, client_id),
    }
}

/// The record set after a queue of transport notifications, applied oldest
/// first.
pub open spec fn records_after(
    records: Seq<ClientRecord>,
    events: Seq<EndpointEvent>,
    now_ms: u64,
) -> Seq<ClientRecord>
    decreases events.len(),
{
    if events.len() == 0 {
        records
    } else {
        records_after(apply_event(records, events[0], now_ms), events.drop_first(), now_ms)
    }
}

/// The connect domain events a queue of transport notifications republishes,
/// oldest first.
pub open spec fn connected_events_of(events: Seq<EndpointEvent>) -> Seq<ClientConnected>
    decreases events.len(),
{
    if events.len() == 0 {
        Seq::empty()
    } else {
        let rest = connected_events_of(events.drop_first());
        match events[0] {
            EndpointEvent::Connected { client_id } => seq![ClientConnected { client_id }] + rest,
            EndpointEvent::Disconnected { .. } => rest,
        }
    }
}

/// The disconnect domain events a queue of transport notifications
/// republishes, oldest first, each with its reason.
pub open spec fn disconnected_events_of(events: Seq<EndpointEvent>) -> Seq<ClientDisconnected>
    decreases events.len(),
{
    if events.len() == 0 {
        Seq::empty()
    } else {
        let rest = disconnected_events_of(events.drop_first());
        match events[0] {
            EndpointEvent::Connected { .. } => rest,
            EndpointEvent::Disconnected { client_id, reason } => seq![
                ClientDisconnected { client_id, reason },
            ] + rest,
        }
    }
}

/// Whatever has a record in the result had one before, never for the removed
/// id; and removal keeps the records unique.
pub proof fn lemma_remove_record(records: Seq<ClientRecord>, client_id: u64)
    ensures
        forall|x: u64| #[trigger]
            has_record(remove_record(records, client_id), x) ==> has_record(records, x) && x
                != client_id,
        unique_records(records) ==> unique_records(remove_record(records, client_id)),
    decreases records.len(),
{
    if records.len() == 0 {
    } else {
        let head = records.drop_last();
        let rest = remove_record(head, client_id);
        lemma_remove_record(head, client_id);
        assert forall|x: u64| #[trigger] has_record(head, x) implies has_record(records, x) by {
            let i = choose|i: int| 0 <= i < head.len() && (#[trigger] head[i]).client_id == x;
            assert(records[i].client_id == x);
        }
        if records.last().client_id == client_id {
        } else {
            let out = rest.push(records.last());
            assert forall|x: u64| #[trigger] has_record(out, x) implies has_record(records, x) && x
                != client_id by {
                let i = choose|i: int|
                    0 <= i < out.len() && (#[trigger] out[i]).client_id == x;
                if i < rest.len() {
                    assert(has_record(rest, x));
                } else {
                    assert(out[i] == records.last());
                    assert(records[records.len() - 1].client_id == x);
                }
            }
            if unique_records(records) {
                assert(unique_records(head));
                assert forall|i: int, j: int| 0 <= i < j < out.len() implies (
                #[trigger] out[i]).client_id != (#[trigger] out[j]).client_id by {
                    if j == out.len() - 1 {
                        if out[i].client_id == records.last().client_id {
                            assert(has_record(rest, out[i].client_id)) by {
                                assert(rest[i] == out[i]);
                            }
                            assert(has_record(head, out[i].client_id));
                            let k = choose|k: int|
                                0 <= k < head.len() && (#[trigger] head[k]).client_id
                                    == out[i].client_id;
                            assert(records[k].client_id == records[records.len() - 1].client_id);
                        }
                    }
                }
            }
        }
    }
}

impl ServerSession {
    /// A stopped server tracks no clients, and client ids are unique.
    pub open spec fn wf(self) -> bool {
        &&& (self.state is Stopped ==> self.clients@.len() == 0)
        &&& unique_records(self.clients@)
    }

    /// The lifecycle phase, two-phase shutdown made visible.
    pub open spec fn phase(self) -> ServerPhase {
        if self.state is Running {
            ServerPhase::Running
        } else if self.release_due {
            ServerPhase::StoppingPendingRelease
        } else {
            ServerPhase::Stopped
        }
    }

    pub fn new() -> (s: Self)
        ensures
            s.wf(),
            s.phase() is Stopped,
            s.state is Stopped,
            !s.release_due,
            s.clients@.len() == 0,
    {
        ServerSession { state: ServerState::Stopped, clients: Vec::new(), release_due: false }
    }

    /// The current lifecycle phase.
    pub fn current_phase(&self) -> (r: ServerPhase)
        ensures
            r == self.phase(),
    {
        match self.state {
            ServerState::Running => ServerPhase::Running,
            ServerState::Stopped => if self.release_due {
                ServerPhase::StoppingPendingRelease
            } else {
                ServerPhase::Stopped
            },
        }
    }

    /// Whether a client id is currently tracked.
    pub fn has_client(&self, client_id: u64) -> (r: bool)
        ensures
            r == has_record(self.clients@, client_id),
    {
        let mut i: usize = 0;
        while i < self.clients.len()
            invariant
                0 <= i <= self.clients@.len(),
                forall|j: int| 0 <= j < i ==> (#[trigger] self.clients@[j]).client_id != client_id,
            decreases self.clients@.len() - i,
        {
            if self.clients[i].client_id == client_id {
                return true;
            }
            i = i + 1;
        }
        false
    }

    /// Drops the record of one client id, keeping the others in order.
    fn remove_client(&mut self, client_id: u64)
        ensures
            final(self).clients@ == remove_record(old(self).clients@, client_id),
            final(self).state == old(self).state,
            final(self).release_due == old(self).release_due,
    {
        let ghost all = self.clients@;
        let mut kept: Vec<ClientRecord> = Vec::new();
        let mut i: usize = 0;
        while i < self.clients.len()
            invariant
                0 <= i <= self.clients@.len(),
                self.clients@ == all,
                kept@ == remove_record(all.take(i as int), client_id),
            decreases self.clients@.len() - i,
        {
            let rec = self.clients[i];
            proof {
                assert(all.take(i + 1).drop_last() =~= all.take(i as int));
                assert(all.take(i + 1).last() == all[i as int]);
            }
            if rec.client_id != client_id {
                kept.push(rec);
            }
            i = i + 1;
        }
        proof {
            assert(all.take(all.len() as int) =~= all);
        }
        self.clients = kept;
    }
}

/// Everything the transport edge needs to finish starting the server: the
/// fresh endpoint, the validated channel table, the bind address and the
/// authentication choice.  The edge binds the public socket; the state
/// machine is told if that fails.
pub struct ServerBootstrap {
    pub endpoint: renet::RenetServer,
    pub channels: ChannelSet,
    pub ip: String,
    pub port: u16,
    pub max_clients: usize,
    pub protocol_id: u64,
    /// Token authentication exactly when a shared secret is present.
    pub private_key: Option<[u8; KEY_BYTES]>,
}

/// Server transition `Stopped --StartRequest--> Running`: builds the channel
/// table and creates the single listening endpoint with a fresh, empty client
/// set.  A request while already running is ignored: the state is unchanged
/// and no endpoint is created.  A request with more than `MAX_CHANNELS`
/// channels is rejected and the state is unchanged.  A pending transport
/// release from a stop earlier in the same tick stays owed.
pub fn server_starts(
    session: &mut ServerSession,
    request: &StartServer,
    configs: &NetworkConfigs,
) -> (r: Result<Option<ServerBootstrap>, ConfigError>)
    requires
        old(session).wf(),
    ensures
        final(session).wf(),
        old(session).state is Running ==> *final(session) == *old(session) && (r matches Ok(b)
            && b is None),
        old(session).state is Stopped && configs.0@.len() > MAX_CHANNELS
            ==> *final(session) == *old(session) && r == Err::<Option<ServerBootstrap>, ConfigError>(
            ConfigError::TooManyChannels { supplied: configs.0@.len() as usize },
        ),
        old(session).state is Stopped && configs.0@.len() <= MAX_CHANNELS ==> {
            &&& r matches Ok(b)
            &&& b matches Some(boot)
            &&& final(session).state is Running
            &&& final(session).clients@.len() == 0
            &&& final(session).release_due == old(session).release_due
            &&& built_from(boot.channels, *configs, request.available_bytes_per_tick)
            &&& server_channel_ids(boot.endpoint) == boot.channels.id_set()
            &&& server_reliable_ids(boot.endpoint) == boot.channels.reliable_id_set()
            &&& server_client_ids(boot.endpoint) == Set::<u64>::empty()
            &&& server_events(boot.endpoint) == Seq::<EndpointEvent>::empty()
            &&& forall|c: u64, ch: u8| #[trigger] server_inbound(boot.endpoint, c, ch)
                == Multiset::<Seq<u8>>::empty()
            &&& forall|c: u64, ch: u8| #[trigger] server_outbound(boot.endpoint, c, ch) == Seq::<
                Seq<u8>,
            >::empty()
            &&& boot.ip@ == request.ip@
            &&& boot.port == request.port
            &&& boot.max_clients == request.max_clients
            &&& boot.protocol_id == request.protocol_id
            &&& boot.private_key == request.private_key
        },
{
    match session.state {
        ServerState::Running => {
            return Ok(None);
        },
        ServerState::Stopped => {},
    }
    let channels = match configs.build(request.available_bytes_per_tick) {
        Ok(cs) => cs,
        Err(e) => {
            return Err(e);
        },
    };
    let endpoint = new_renet_server(&channels);
    session.state = ServerState::Running;
    session.clients = Vec::new();
    Ok(
        Some(
            ServerBootstrap {
                endpoint,
                channels,
                ip: request.ip.clone(),
                port: request.port,
                max_clients: request.max_clients,
                protocol_id: request.protocol_id,
                private_key: request.private_key,
            },
        ),
    )
}

/// Server transition `Running --fatal failure--> Stopped`: called by the
/// transport edge when the bind address is malformed or the public socket
/// cannot be bound; the edge surfaces the `StartError` and the request is not
/// retried here.  In any other state the notification is ignored.
pub fn server_start_failed(session: &mut ServerSession)
    requires
        old(session).wf(),
    ensures
        final(session).wf(),
        old(session).state is Running ==> final(session).state is Stopped
            && final(session).clients@.len() == 0
            && final(session).release_due == old(session).release_due,
        old(session).state !is Running ==> *final(session) == *old(session),
{
    match session.state {
        ServerState::Running => {
            session.state = ServerState::Stopped;
            session.clients = Vec::new();
        },
        ServerState::Stopped => {},
    }
}

/// Server transition `Running --StopRequest--> Stopped`: disconnects every
/// connected client through the endpoint and clears the record set in the
/// same tick, but leaves the transport resource owed for one more tick: the
/// phase becomes `StoppingPendingRelease`, and `cleanup_transport` on the
/// next tick orders the actual release.  Releasing earlier would pull the
/// resource from under the transport's in-flight teardown.
pub fn server_stops(session: &mut ServerSession, endpoint: &mut renet::RenetServer)
    requires
        old(session).wf(),
        old(session).state is Running,
    ensures
        final(session).wf(),
        final(session).state is Stopped,
        final(session).clients@.len() == 0,
        final(session).release_due,
        final(session).phase() is StoppingPendingRelease,
        server_client_ids(*final(endpoint)) == Set::<u64>::empty(),
        server_channel_ids(*final(endpoint)) == server_channel_ids(*old(endpoint)),
        server_reliable_ids(*final(endpoint)) == server_reliable_ids(*old(endpoint)),
        server_events(*final(endpoint)) == server_events(*old(endpoint)),
        forall|c: u64, ch: u8| #[trigger] server_inbound(*final(endpoint), c, ch).len() == 0,
        forall|c: u64, ch: u8| #[trigger] server_outbound(*final(endpoint), c, ch)
            == server_outbound(*old(endpoint), c, ch),
{
    server_disconnect_all(endpoint);
    session.state = ServerState::Stopped;
    session.clients = Vec::new();
    session.release_due = true;
}

/// Start-of-tick step of the two-phase shutdown: reports whether the
/// transport resource of a server stopped last tick must be released now,
/// and marks the debt paid.  Nothing else changes.
pub fn cleanup_transport(session: &mut ServerSession) -> (release: bool)
    ensures
        release == old(session).release_due,
        !final(session).release_due,
        final(session).state == old(session).state,
        final(session).clients@ == old(session).clients@,
{
    let release = session.release_due;
    session.release_due = false;
    release
}

/// Connection event translator: drains the transport's connect/disconnect
/// notifications once per tick, keeps the client record set in step (a record
/// per accept, stamped with the current time; removal per drop), and
/// republishes every notification as a domain event, in order, after
/// whatever the queues already held.  It runs before the message bridge, so
/// a client that disconnected mid-tick is not addressed later in the tick.
pub fn server_tracks_connected_and_disconnected_clients(
    session: &mut ServerSession,
    endpoint: &mut renet::RenetServer,
    now_ms: u64,
    connected_out: &mut Vec<ClientConnected>,
    disconnected_out: &mut Vec<ClientDisconnected>,
)
    requires
        old(session).wf(),
        old(session).state is Running,
    ensures
        final(session).wf(),
        final(session).state == old(session).state,
        final(session).release_due == old(session).release_due,
        final(session).clients@ == records_after(
            old(session).clients@,
            server_events(*old(endpoint)),
            now_ms,
        ),
        final(connected_out)@ == old(connected_out)@ + connected_events_of(
            server_events(*old(endpoint)),
        ),
        final(disconnected_out)@ == old(disconnected_out)@ + disconnected_events_of(
            server_events(*old(endpoint)),
        ),
        server_events(*final(endpoint)).len() == 0,
        server_channel_ids(*final(endpoint)) == server_channel_ids(*old(endpoint)),
        server_reliable_ids(*final(endpoint)) == server_reliable_ids(*old(endpoint)),
        server_client_ids(*final(endpoint)) == server_client_ids(*old(endpoint)),
        forall|c: u64, ch: u8| #[trigger] server_inbound(*final(endpoint), c, ch) == server_inbound(
            *old(endpoint),
            c,
            ch,
        ),
        forall|c: u64, ch: u8| #[trigger] server_outbound(*final(endpoint), c, ch)
            == server_outbound(*old(endpoint), c, ch),
{
    let ghost entry_endpoint = *endpoint;
    let ghost entry_records = session.clients@;
    let ghost entry_conn = connected_out@;
    let ghost entry_disc = disconnected_out@;
    let ghost entry_state = session.state;
    let ghost entry_release = session.release_due;
    loop
        invariant
            session.wf(),
            session.state == entry_state,
            session.state is Running,
            session.release_due == entry_release,
            records_after(entry_records, server_events(entry_endpoint), now_ms) == records_after(
                session.clients@,
                server_events(*endpoint),
                now_ms,
            ),
            entry_conn + connected_events_of(server_events(entry_endpoint)) == connected_out@
                + connected_events_of(server_events(*endpoint)),
            entry_disc + disconnected_events_of(server_events(entry_endpoint)) == disconnected_out@
                + disconnected_events_of(server_events(*endpoint)),
            server_channel_ids(*endpoint) == server_channel_ids(entry_endpoint),
            server_reliable_ids(*endpoint) == server_reliable_ids(entry_endpoint),
            server_client_ids(*endpoint) == server_client_ids(entry_endpoint),
            forall|c: u64, ch: u8| #[trigger] server_inbound(*endpoint, c, ch) == server_inbound(
                entry_endpoint,
                c,
                ch,
            ),
            forall|c: u64, ch: u8| #[trigger] server_outbound(*endpoint, c, ch) == server_outbound(
                entry_endpoint,
                c,
                ch,
            ),
        ensures
            session.wf(),
            session.state == entry_state,
            session.release_due == entry_release,
            session.clients@ == records_after(
                entry_records,
                server_events(entry_endpoint),
                now_ms,
            ),
            connected_out@ == entry_conn + connected_events_of(server_events(entry_endpoint)),
            disconnected_out@ == entry_disc + disconnected_events_of(
                server_events(entry_endpoint),
            ),
            server_events(*endpoint).len() == 0,
            server_channel_ids(*endpoint) == server_channel_ids(entry_endpoint),
            server_reliable_ids(*endpoint) == server_reliable_ids(entry_endpoint),
            server_client_ids(*endpoint) == server_client_ids(entry_endpoint),
            forall|c: u64, ch: u8| #[trigger] server_inbound(*endpoint, c, ch) == server_inbound(
                entry_endpoint,
                c,
                ch,
            ),
            forall|c: u64, ch: u8| #[trigger] server_outbound(*endpoint, c, ch) == server_outbound(
                entry_endpoint,
                c,
                ch,
            ),
        decreases server_events(*endpoint).len(),
    {
        let ghost pre_events = server_events(*endpoint);
        let ghost pre_records = session.clients@;
        let ghost pre_conn = connected_out@;
        let ghost pre_disc = disconnected_out@;
        let polled = server_poll_event(endpoint);
        match polled {
            None => {
                proof {
                    assert(connected_events_of(pre_events) =~= Seq::<ClientConnected>::empty());
                    assert(disconnected_events_of(pre_events) =~= Seq::<
                        ClientDisconnected,
                    >::empty());
                    assert(pre_conn + connected_events_of(pre_events) =~= pre_conn);
                    assert(pre_disc + disconnected_events_of(pre_events) =~= pre_disc);
                    assert(records_after(pre_records, pre_events, now_ms) == pre_records);
                }
                break ;
            },
            Some(ev) => {
                proof {
                    assert(pre_events.len() > 0);
                    assert(ev == pre_events[0]);
                    assert(records_after(pre_records, pre_events, now_ms) == records_after(
                        apply_event(pre_records, pre_events[0], now_ms),
                        pre_events.drop_first(),
                        now_ms,
                    ));
                }
                match ev {
                    EndpointEvent::Connected { client_id } => {
                        if !session.has_client(client_id) {
                            session.clients.push(
                                ClientRecord { client_id, connected_at: now_ms },
                            );
                            proof {
                                assert forall|i: int, j: int|
                                    0 <= i < j < session.clients@.len() implies (
                                #[trigger] session.clients@[i]).client_id != (
                                #[trigger] session.clients@[j]).client_id by {
                                    if j == session.clients@.len() - 1 {
                                        assert(!has_record(pre_records, client_id));
                                        assert(pre_records[i] == session.clients@[i]);
                                    }
                                }
                            }
                        }
                        connected_out.push(ClientConnected { client_id });
                        proof {
                            assert(session.clients@ == apply_event(
                                pre_records,
                                pre_events[0],
                                now_ms,
                            ));
                            assert(connected_events_of(pre_events) == seq![
                                ClientConnected { client_id },
                            ] + connected_events_of(pre_events.drop_first()));
                            assert(connected_out@ =~= pre_conn + seq![
                                ClientConnected { client_id },
                            ]);
                            assert(pre_conn + connected_events_of(pre_events) =~= connected_out@
                                + connected_events_of(pre_events.drop_first()));
                            assert(disconnected_events_of(pre_events) == disconnected_events_of(
                                pre_events.drop_first(),
                            ));
                        }
                    },
                    EndpointEvent::Disconnected { client_id, reason } => {
                        session.remove_client(client_id);
                        proof {
                            lemma_remove_record(pre_records, client_id);
                        }
                        disconnected_out.push(ClientDisconnected { client_id, reason });
                        proof {
                            assert(session.clients@ == apply_event(
                                pre_records,
                                pre_events[0],
                                now_ms,
                            ));
                            assert(disconnected_events_of(pre_events) == seq![
                                ClientDisconnected { client_id, reason },
                            ] + disconnected_events_of(pre_events.drop_first()));
                            assert(disconnected_out@ =~= pre_disc + seq![
                                ClientDisconnected { client_id, reason },
                            ]);
                            assert(pre_disc + disconnected_events_of(pre_events)
                                =~= disconnected_out@ + disconnected_events_of(
                                pre_events.drop_first(),
                            ));
                            assert(connected_events_of(pre_events) == connected_events_of(
                                pre_events.drop_first(),
                            ));
                        }
                    },
                }
            },
        }
    }
}


/// The payload bytes of queued unicast messages addressed to one client, in
/// queue order.
pub open spec fn unicast_payloads_for(entries: Seq<SendToClient>, client_id: u64) -> Seq<Seq<u8>>
    decreases entries.len(),
{
    if entries.len() == 0 {
        Seq::empty()
    } else {
        let rest = unicast_payloads_for(entries.drop_last(), client_id);
        if entries.last().client_id == client_id {
            rest.push(entries.last().content@)
        } else {
            rest
        }
    }
}

/// The payload bytes of queued broadcast messages, in queue order.
pub open spec fn payloads_of_broadcasts(entries: Seq<SendToClients>) -> Seq<Seq<u8>>
    decreases entries.len(),
{
    if entries.len() == 0 {
        Seq::empty()
    } else {
        payloads_of_broadcasts(entries.drop_last()).push(entries.last().content@)
    }
}

/// How many delivered messages carry the given sender tag.
pub open spec fn tagged_count(entries: Seq<ReceiveFromClient>, client_id: u64) -> nat
    decreases entries.len(),
{
    if entries.len() == 0 {
        0
    } else {
        tagged_count(entries.drop_last(), client_id) + (if entries.last().client_id == client_id {
            1nat
        } else {
            0nat
        })
    }
}

/// Appending entries that all carry one tag raises that tag's count by their
/// number and no other count.
proof fn lemma_tagged_count_extend(pre: Seq<ReceiveFromClient>, post: Seq<ReceiveFromClient>, tag: u64)
    requires
        pre.is_prefix_of(post),
        forall|i: int| pre.len() <= i < post.len() ==> (#[trigger] post[i]).client_id == tag,
    ensures
        forall|c: u64| #[trigger] tagged_count(post, c) == tagged_count(pre, c) + (if c == tag {
            post.len() - pre.len()
        } else {
            0int
        }),
    decreases post.len(),
{
    if post.len() == pre.len() {
        assert(post =~= pre);
    } else {
        let shorter = post.drop_last();
        assert(pre.is_prefix_of(shorter)) by {
            assert(pre =~= shorter.take(pre.len() as int));
        }
        lemma_tagged_count_extend(pre, shorter, tag);
        assert(post[post.len() - 1].client_id == tag);
        assert forall|c: u64| #[trigger] tagged_count(post, c) == tagged_count(pre, c) + (if c
            == tag {
            post.len() - pre.len()
        } else {
            0int
        }) by {
            assert(post.drop_last() == shorter);
            assert(tagged_count(post, c) == tagged_count(shorter, c) + (if post.last().client_id
                == c {
                1nat
            } else {
                0nat
            }));
        }
    }
}

/// Drains everything one client's channel is ready to deliver into the
/// inbox, in delivery order, leaving nothing ready.
fn drain_client_channel(
    endpoint: &mut renet::RenetServer,
    client_id: u64,
    channel_id: u8,
    inbox: &mut Vec<ReceiveFromClient>,
)
    requires
        server_channel_ids(*old(endpoint)).contains(channel_id),
    ensures
        server_channel_ids(*final(endpoint)) == server_channel_ids(*old(endpoint)),
        server_reliable_ids(*final(endpoint)) == server_reliable_ids(*old(endpoint)),
        server_client_ids(*final(endpoint)) == server_client_ids(*old(endpoint)),
        server_events(*final(endpoint)) == server_events(*old(endpoint)),
        forall|c: u64, ch: u8| #[trigger] server_outbound(*final(endpoint), c, ch)
            == server_outbound(*old(endpoint), c, ch),
        forall|c: u64, ch: u8|
            c != client_id || ch != channel_id ==> #[trigger] server_inbound(
                *final(endpoint),
                c,
                ch,
            ) == server_inbound(*old(endpoint), c, ch),
        server_inbound(*final(endpoint), client_id, channel_id).len() == 0,
        old(inbox)@.is_prefix_of(final(inbox)@),
        final(inbox)@.len() == server_inbound(*old(endpoint), client_id, channel_id).len() + old(
            inbox,
        )@.len(),
        forall|i: int|
            old(inbox)@.len() <= i < final(inbox)@.len()
                ==> (#[trigger] final(inbox)@[i]).client_id == client_id && server_inbound(
                *old(endpoint),
                client_id,
                channel_id,
            ).contains(final(inbox)@[i].content@),
{
    let ghost entry_endpoint = *endpoint;
    let ghost entry_inbox = inbox@;
    loop
        invariant
            server_channel_ids(*endpoint) == server_channel_ids(entry_endpoint),
            server_channel_ids(*endpoint).contains(channel_id),
            server_reliable_ids(*endpoint) == server_reliable_ids(entry_endpoint),
            server_client_ids(*endpoint) == server_client_ids(entry_endpoint),
            server_events(*endpoint) == server_events(entry_endpoint),
            forall|c: u64, ch: u8| #[trigger] server_outbound(*endpoint, c, ch) == server_outbound(
                entry_endpoint,
                c,
                ch,
            ),
            forall|c: u64, ch: u8|
                c != client_id || ch != channel_id ==> #[trigger] server_inbound(*endpoint, c, ch)
                    == server_inbound(entry_endpoint, c, ch),
            server_inbound(*endpoint, client_id, channel_id).subset_of(
                server_inbound(entry_endpoint, client_id, channel_id),
            ),
            server_inbound(*endpoint, client_id, channel_id).len() + inbox@.len()
                == server_inbound(entry_endpoint, client_id, channel_id).len() + entry_inbox.len(),
            entry_inbox.is_prefix_of(inbox@),
            forall|i: int|
                entry_inbox.len() <= i < inbox@.len() ==> (#[trigger] inbox@[i]).client_id
                    == client_id && server_inbound(
                    entry_endpoint,
                    client_id,
                    channel_id,
                ).contains(inbox@[i].content@),
        ensures
            server_channel_ids(*endpoint) == server_channel_ids(entry_endpoint),
            server_reliable_ids(*endpoint) == server_reliable_ids(entry_endpoint),
            server_client_ids(*endpoint) == server_client_ids(entry_endpoint),
            server_events(*endpoint) == server_events(entry_endpoint),
            forall|c: u64, ch: u8| #[trigger] server_outbound(*endpoint, c, ch) == server_outbound(
                entry_endpoint,
                c,
                ch,
            ),
            forall|c: u64, ch: u8|
                c != client_id || ch != channel_id ==> #[trigger] server_inbound(*endpoint, c, ch)
                    == server_inbound(entry_endpoint, c, ch),
            server_inbound(*endpoint, client_id, channel_id).len() == 0,
            inbox@.len() == server_inbound(entry_endpoint, client_id, channel_id).len()
                + entry_inbox.len(),
            entry_inbox.is_prefix_of(inbox@),
            forall|i: int|
                entry_inbox.len() <= i < inbox@.len() ==> (#[trigger] inbox@[i]).client_id
                    == client_id && server_inbound(
                    entry_endpoint,
                    client_id,
                    channel_id,
                ).contains(inbox@[i].content@),
        decreases server_inbound(*endpoint, client_id, channel_id).len(),
    {
        let received = server_receive(endpoint, client_id, channel_id);
        match received {
            Some(content) => {
                inbox.push(ReceiveFromClient { client_id, content });
            },
            None => {
                break ;
            },
        }
    }
}

/// Receive phase for the client→server direction of one channel: for every
/// currently tracked client, everything the transport is ready to deliver is
/// moved to the inbox tagged with the sender, in delivery order per client,
/// and nothing is left ready from a tracked client.  Earlier inbox entries
/// are never touched, every appended entry names a tracked client and was
/// ready from that client when the phase began, nothing is lost or invented
/// (per sender, what was appended is exactly what was ready), and untracked
/// clients are never polled.
pub fn server_receives_messages_from_clients(
    endpoint: &mut renet::RenetServer,
    clients: &Vec<ClientRecord>,
    channel_id: u8,
    inbox: &mut Vec<ReceiveFromClient>,
)
    requires
        server_channel_ids(*old(endpoint)).contains(channel_id),
    ensures
        server_channel_ids(*final(endpoint)) == server_channel_ids(*old(endpoint)),
        server_reliable_ids(*final(endpoint)) == server_reliable_ids(*old(endpoint)),
        server_client_ids(*final(endpoint)) == server_client_ids(*old(endpoint)),
        server_events(*final(endpoint)) == server_events(*old(endpoint)),
        forall|c: u64, ch: u8| #[trigger] server_outbound(*final(endpoint), c, ch)
            == server_outbound(*old(endpoint), c, ch),
        forall|c: u64, ch: u8|
            ch != channel_id ==> #[trigger] server_inbound(*final(endpoint), c, ch)
                == server_inbound(*old(endpoint), c, ch),
        forall|c: u64|
            has_record(clients@, c) ==> #[trigger] server_inbound(
                *final(endpoint),
                c,
                channel_id,
            ).len() == 0,
        forall|c: u64|
            !has_record(clients@, c) ==> #[trigger] server_inbound(*final(endpoint), c, channel_id)
                == server_inbound(*old(endpoint), c, channel_id),
        forall|c: u64| #[trigger]
            tagged_count(final(inbox)@, c) + server_inbound(*final(endpoint), c, channel_id).len()
                == tagged_count(old(inbox)@, c) + server_inbound(
                *old(endpoint),
                c,
                channel_id,
            ).len(),
        old(inbox)@.is_prefix_of(final(inbox)@),
        forall|i: int|
            old(inbox)@.len() <= i < final(inbox)@.len() ==> has_record(
                clients@,
                (#[trigger] final(inbox)@[i]).client_id,
            ) && server_inbound(
                *old(endpoint),
                final(inbox)@[i].client_id,
                channel_id,
            ).contains(final(inbox)@[i].content@),
{
    let ghost entry_endpoint = *endpoint;
    let ghost entry_inbox = inbox@;
    let mut idx: usize = 0;
    while idx < clients.len()
        invariant
            0 <= idx <= clients@.len(),
            server_channel_ids(*endpoint) == server_channel_ids(entry_endpoint),
            server_channel_ids(*endpoint).contains(channel_id),
            server_reliable_ids(*endpoint) == server_reliable_ids(entry_endpoint),
            server_client_ids(*endpoint) == server_client_ids(entry_endpoint),
            server_events(*endpoint) == server_events(entry_endpoint),
            forall|c: u64, ch: u8| #[trigger] server_outbound(*endpoint, c, ch) == server_outbound(
                entry_endpoint,
                c,
                ch,
            ),
            forall|c: u64, ch: u8|
                ch != channel_id ==> #[trigger] server_inbound(*endpoint, c, ch) == server_inbound(
                    entry_endpoint,
                    c,
                    ch,
                ),
            forall|c: u64|
                has_record(clients@.take(idx as int), c) ==> #[trigger] server_inbound(
                    *endpoint,
                    c,
                    channel_id,
                ).len() == 0,
            forall|c: u64|
                !has_record(clients@.take(idx as int), c) ==> #[trigger] server_inbound(
                    *endpoint,
                    c,
                    channel_id,
                ) == server_inbound(entry_endpoint, c, channel_id),
            forall|c: u64| #[trigger]
                tagged_count(inbox@, c) + server_inbound(*endpoint, c, channel_id).len()
                    == tagged_count(entry_inbox, c) + server_inbound(
                    entry_endpoint,
                    c,
                    channel_id,
                ).len(),
            entry_inbox.is_prefix_of(inbox@),
            forall|i: int|
                entry_inbox.len() <= i < inbox@.len() ==> has_record(
                    clients@,
                    (#[trigger] inbox@[i]).client_id,
                ) && server_inbound(
                    entry_endpoint,
                    inbox@[i].client_id,
                    channel_id,
                ).contains(inbox@[i].content@),
        decreases clients@.len() - idx,
    {
        let client_id = clients[idx].client_id;
        proof {
            assert(has_record(clients@, client_id)) by {
                assert(clients@[idx as int].client_id == client_id);
            }
        }
        let ghost pre_endpoint = *endpoint;
        let ghost pre_inbox = inbox@;
        drain_client_channel(endpoint, client_id, channel_id, inbox);
        proof {
            lemma_tagged_count_extend(pre_inbox, inbox@, client_id);
            assert(clients@.take(idx + 1).drop_last() =~= clients@.take(idx as int));
            assert(clients@.take(idx + 1).last() == clients@[idx as int]);
            assert forall|c: u64|
                has_record(clients@.take(idx + 1), c) implies #[trigger] server_inbound(
                *endpoint,
                c,
                channel_id,
            ).len() == 0 by {
                if c != client_id {
                    let k = choose|k: int|
                        0 <= k < clients@.take(idx + 1).len() && (#[trigger] clients@.take(
                            idx + 1,
                        )[k]).client_id == c;
                    assert(clients@.take(idx as int)[k].client_id == c);
                    assert(has_record(clients@.take(idx as int), c));
                }
            }
            assert forall|i: int|
                entry_inbox.len() <= i < inbox@.len() implies has_record(
                clients@,
                (#[trigger] inbox@[i]).client_id,
            ) && server_inbound(
                entry_endpoint,
                inbox@[i].client_id,
                channel_id,
            ).contains(inbox@[i].content@) by {
                if i >= pre_inbox.len() {
                    assert(inbox@[i].client_id == client_id);
                    assert(server_inbound(pre_endpoint, client_id, channel_id).contains(
                        inbox@[i].content@,
                    ));
                    if !has_record(clients@.take(idx as int), client_id) {
                        assert(server_inbound(pre_endpoint, client_id, channel_id)
                            == server_inbound(entry_endpoint, client_id, channel_id));
                    } else {
                        assert(server_inbound(pre_endpoint, client_id, channel_id).len() == 0);
                    }
                } else {
                    assert(inbox@[i] == pre_inbox[i]);
                }
            }
        }
        idx = idx + 1;
    }
    proof {
        assert(clients@.take(clients@.len() as int) =~= clients@);
    }
}

/// The clients an outbox addresses.
pub open spec fn send_targets(entries: Seq<SendToClient>) -> Set<u64> {
    Set::new(
        |c: u64|
            exists|i: int| 0 <= i < entries.len() && (#[trigger] entries[i]).client_id == c,
    )
}

/// Send phase for the server→one-client direction of one channel: every
/// queued payload is handed to the transport for its target in queue order
/// and the queue is left empty.  On a reliable channel, every target still
/// connected afterwards had exactly its queued payloads accepted, in order;
/// the only other outcomes renet allows are a drop of the overflowing target
/// (reliable) or a silent payload drop (unreliable, a lossy channel by
/// contract).  Clients the outbox does not address stay connected and are
/// untouched.
pub fn server_sends_messages_to_clients(
    endpoint: &mut renet::RenetServer,
    outbox: &mut Vec<SendToClient>,
    channel_id: u8,
)
    requires
        server_channel_ids(*old(endpoint)).contains(channel_id),
    ensures
        final(outbox)@.len() == 0,
        server_channel_ids(*final(endpoint)) == server_channel_ids(*old(endpoint)),
        server_reliable_ids(*final(endpoint)) == server_reliable_ids(*old(endpoint)),
        server_events(*final(endpoint)) == server_events(*old(endpoint)),
        server_client_ids(*final(endpoint)).subset_of(server_client_ids(*old(endpoint))),
        forall|c: u64|
            server_client_ids(*old(endpoint)).contains(c) && !send_targets(
                old(outbox)@,
            ).contains(c) ==> #[trigger] server_client_ids(*final(endpoint)).contains(c),
        forall|c: u64, ch: u8|
            ch != channel_id ==> #[trigger] server_outbound(*final(endpoint), c, ch)
                == server_outbound(*old(endpoint), c, ch),
        server_reliable_ids(*old(endpoint)).contains(channel_id) ==> forall|c: u64|
            server_client_ids(*final(endpoint)).contains(c) ==> #[trigger] server_outbound(
                *final(endpoint),
                c,
                channel_id,
            ) == server_outbound(*old(endpoint), c, channel_id) + unicast_payloads_for(
                old(outbox)@,
                c,
            ),
        forall|c: u64, ch: u8|
            !server_client_ids(*old(endpoint)).contains(c) ==> #[trigger] server_inbound(
                *final(endpoint),
                c,
                ch,
            ) == server_inbound(*old(endpoint), c, ch),
        forall|c: u64, ch: u8|
            server_client_ids(*final(endpoint)).contains(c) ==> #[trigger] server_inbound(
                *final(endpoint),
                c,
                ch,
            ) == server_inbound(*old(endpoint), c, ch),
        forall|c: u64, ch: u8|
            server_client_ids(*old(endpoint)).contains(c) && !server_client_ids(
                *final(endpoint),
            ).contains(c) ==> #[trigger] server_inbound(*final(endpoint), c, ch).len() == 0,
{
    let ghost entry_endpoint = *endpoint;
    let ghost entry_outbox = outbox@;
    while outbox.len() > 0
        invariant
            server_channel_ids(*endpoint) == server_channel_ids(entry_endpoint),
            server_channel_ids(*endpoint).contains(channel_id),
            server_reliable_ids(*endpoint) == server_reliable_ids(entry_endpoint),
            server_events(*endpoint) == server_events(entry_endpoint),
            server_client_ids(*endpoint).subset_of(server_client_ids(entry_endpoint)),
            outbox@.len() <= entry_outbox.len(),
            outbox@ == entry_outbox.skip(entry_outbox.len() - outbox@.len()),
            forall|c: u64|
                server_client_ids(entry_endpoint).contains(c) && !send_targets(
                    entry_outbox,
                ).contains(c) ==> #[trigger] server_client_ids(*endpoint).contains(c),
            forall|c: u64, ch: u8|
                ch != channel_id ==> #[trigger] server_outbound(*endpoint, c, ch)
                    == server_outbound(entry_endpoint, c, ch),
            server_reliable_ids(entry_endpoint).contains(channel_id) ==> forall|c: u64|
                server_client_ids(*endpoint).contains(c) ==> #[trigger] server_outbound(
                    *endpoint,
                    c,
                    channel_id,
                ) == server_outbound(entry_endpoint, c, channel_id) + unicast_payloads_for(
                    entry_outbox.take(entry_outbox.len() - outbox@.len()),
                    c,
                ),
            forall|c: u64, ch: u8|
                !server_client_ids(entry_endpoint).contains(c) ==> #[trigger] server_inbound(
                    *endpoint,
                    c,
                    ch,
                ) == server_inbound(entry_endpoint, c, ch),
            forall|c: u64, ch: u8|
                server_client_ids(*endpoint).contains(c) ==> #[trigger] server_inbound(
                    *endpoint,
                    c,
                    ch,
                ) == server_inbound(entry_endpoint, c, ch),
            forall|c: u64, ch: u8|
                server_client_ids(entry_endpoint).contains(c) && !server_client_ids(
                    *endpoint,
                ).contains(c) ==> #[trigger] server_inbound(*endpoint, c, ch).len() == 0,
        decreases outbox@.len(),
    {
        let ghost offset = entry_outbox.len() - outbox@.len();
        let ghost pre_endpoint = *endpoint;
        proof {
            assert(outbox@[0] == entry_outbox[offset as int]);
            assert(outbox@.drop_first() =~= entry_outbox.skip(offset + 1));
            assert(send_targets(entry_outbox).contains(entry_outbox[offset as int].client_id));
            assert(entry_outbox.take(offset + 1).drop_last() =~= entry_outbox.take(offset as int));
            assert(entry_outbox.take(offset + 1).last() == entry_outbox[offset as int]);
        }
        let message = outbox.remove(0);
        server_send(endpoint, message.client_id, channel_id, message.content);
        proof {
            let ghost target = entry_outbox[offset as int].client_id;
            if server_reliable_ids(entry_endpoint).contains(channel_id) {
                assert forall|c: u64|
                    server_client_ids(*endpoint).contains(c) implies #[trigger] server_outbound(
                    *endpoint,
                    c,
                    channel_id,
                ) == server_outbound(entry_endpoint, c, channel_id) + unicast_payloads_for(
                    entry_outbox.take(offset + 1),
                    c,
                ) by {
                    assert(server_client_ids(pre_endpoint).contains(c));
                    if c == target {
                        assert(server_outbound(*endpoint, c, channel_id) == server_outbound(
                            pre_endpoint,
                            c,
                            channel_id,
                        ).push(entry_outbox[offset as int].content@));
                        assert(server_outbound(entry_endpoint, c, channel_id)
                            + unicast_payloads_for(entry_outbox.take(offset + 1), c)
                            =~= (server_outbound(entry_endpoint, c, channel_id)
                            + unicast_payloads_for(entry_outbox.take(offset as int), c)).push(
                            entry_outbox[offset as int].content@,
                        ));
                    } else {
                        assert(unicast_payloads_for(entry_outbox.take(offset + 1), c)
                            == unicast_payloads_for(entry_outbox.take(offset as int), c));
                    }
                }
            }
        }
    }
    proof {
        assert(entry_outbox.take(entry_outbox.len() as int) =~= entry_outbox);
    }
}

/// Send phase for the server→all-clients direction of one channel: every
/// queued broadcast is handed to the transport, one copy per currently
/// connected client, in queue order, and the queue is left empty.  On a
/// reliable channel, every client still connected afterwards had exactly the
/// queued broadcasts accepted, in order; the only other outcomes renet
/// allows are a drop of an overflowing client (reliable) or a silent payload
/// drop (unreliable).  Clients that were not connected when the phase began
/// are never addressed.
pub fn server_broadcasts_messages_to_clients(
    endpoint: &mut renet::RenetServer,
    outbox: &mut Vec<SendToClients>,
    channel_id: u8,
)
    requires
        server_channel_ids(*old(endpoint)).contains(channel_id),
    ensures
        final(outbox)@.len() == 0,
        server_channel_ids(*final(endpoint)) == server_channel_ids(*old(endpoint)),
        server_reliable_ids(*final(endpoint)) == server_reliable_ids(*old(endpoint)),
        server_events(*final(endpoint)) == server_events(*old(endpoint)),
        server_client_ids(*final(endpoint)).subset_of(server_client_ids(*old(endpoint))),
        forall|c: u64, ch: u8|
            ch != channel_id ==> #[trigger] server_outbound(*final(endpoint), c, ch)
                == server_outbound(*old(endpoint), c, ch),
        forall|c: u64|
            !server_client_ids(*old(endpoint)).contains(c) ==> #[trigger] server_outbound(
                *final(endpoint),
                c,
                channel_id,
            ) == server_outbound(*old(endpoint), c, channel_id),
        server_reliable_ids(*old(endpoint)).contains(channel_id) ==> forall|c: u64|
            server_client_ids(*final(endpoint)).contains(c) ==> #[trigger] server_outbound(
                *final(endpoint),
                c,
                channel_id,
            ) == server_outbound(*old(endpoint), c, channel_id) + payloads_of_broadcasts(
                old(outbox)@,
            ),
        forall|c: u64, ch: u8|
            !server_client_ids(*old(endpoint)).contains(c) ==> #[trigger] server_inbound(
                *final(endpoint),
                c,
                ch,
            ) == server_inbound(*old(endpoint), c, ch),
        forall|c: u64, ch: u8|
            server_client_ids(*final(endpoint)).contains(c) ==> #[trigger] server_inbound(
                *final(endpoint),
                c,
                ch,
            ) == server_inbound(*old(endpoint), c, ch),
        forall|c: u64, ch: u8|
            server_client_ids(*old(endpoint)).contains(c) && !server_client_ids(
                *final(endpoint),
            ).contains(c) ==> #[trigger] server_inbound(*final(endpoint), c, ch).len() == 0,
{
    let ghost entry_endpoint = *endpoint;
    let ghost entry_outbox = outbox@;
    while outbox.len() > 0
        invariant
            server_channel_ids(*endpoint) == server_channel_ids(entry_endpoint),
            server_channel_ids(*endpoint).contains(channel_id),
            server_reliable_ids(*endpoint) == server_reliable_ids(entry_endpoint),
            server_events(*endpoint) == server_events(entry_endpoint),
            server_client_ids(*endpoint).subset_of(server_client_ids(entry_endpoint)),
            outbox@.len() <= entry_outbox.len(),
            outbox@ == entry_outbox.skip(entry_outbox.len() - outbox@.len()),
            forall|c: u64, ch: u8|
                ch != channel_id ==> #[trigger] server_outbound(*endpoint, c, ch)
                    == server_outbound(entry_endpoint, c, ch),
            forall|c: u64|
                !server_client_ids(entry_endpoint).contains(c) ==> #[trigger] server_outbound(
                    *endpoint,
                    c,
                    channel_id,
                ) == server_outbound(entry_endpoint, c, channel_id),
            server_reliable_ids(entry_endpoint).contains(channel_id) ==> forall|c: u64|
                server_client_ids(*endpoint).contains(c) ==> #[trigger] server_outbound(
                    *endpoint,
                    c,
                    channel_id,
                ) == server_outbound(entry_endpoint, c, channel_id) + payloads_of_broadcasts(
                    entry_outbox.take(entry_outbox.len() - outbox@.len()),
                ),
            forall|c: u64, ch: u8|
                !server_client_ids(entry_endpoint).contains(c) ==> #[trigger] server_inbound(
                    *endpoint,
                    c,
                    ch,
                ) == server_inbound(entry_endpoint, c, ch),
            forall|c: u64, ch: u8|
                server_client_ids(*endpoint).contains(c) ==> #[trigger] server_inbound(
                    *endpoint,
                    c,
                    ch,
                ) == server_inbound(entry_endpoint, c, ch),
            forall|c: u64, ch: u8|
                server_client_ids(entry_endpoint).contains(c) && !server_client_ids(
                    *endpoint,
                ).contains(c) ==> #[trigger] server_inbound(*endpoint, c, ch).len() == 0,
        decreases outbox@.len(),
    {
        let ghost offset = entry_outbox.len() - outbox@.len();
        let ghost pre_endpoint = *endpoint;
        proof {
            assert(outbox@[0] == entry_outbox[offset as int]);
            assert(outbox@.drop_first() =~= entry_outbox.skip(offset + 1));
            assert(entry_outbox.take(offset + 1).drop_last() =~= entry_outbox.take(offset as int));
            assert(entry_outbox.take(offset + 1).last() == entry_outbox[offset as int]);
        }
        let message = outbox.remove(0);
        server_broadcast(endpoint, channel_id, message.content);
        proof {
            if server_reliable_ids(entry_endpoint).contains(channel_id) {
                assert forall|c: u64|
                    server_client_ids(*endpoint).contains(c) implies #[trigger] server_outbound(
                    *endpoint,
                    c,
                    channel_id,
                ) == server_outbound(entry_endpoint, c, channel_id) + payloads_of_broadcasts(
                    entry_outbox.take(offset + 1),
                ) by {
                    assert(server_client_ids(pre_endpoint).contains(c));
                    assert(server_outbound(*endpoint, c, channel_id) == server_outbound(
                        pre_endpoint,
                        c,
                        channel_id,
                    ).push(entry_outbox[offset as int].content@));
                    assert(server_outbound(entry_endpoint, c, channel_id) + payloads_of_broadcasts(
                        entry_outbox.take(offset + 1),
                    ) =~= (server_outbound(entry_endpoint, c, channel_id) + payloads_of_broadcasts(
                        entry_outbox.take(offset as int),
                    )).push(entry_outbox[offset as int].content@));
                }
            }
        }
    }
    proof {
        assert(entry_outbox.take(entry_outbox.len() as int) =~= entry_outbox);
    }
}

/// Send phase for one bound message kind: resolves the kind's channel in the
/// registry and drains the unicast queue there.  Returns the channel used,
/// or `None`, with everything untouched, when the kind has no
/// server→one-client binding.  Every channel the registry names must belong
/// to the endpoint; the host guarantees that by refusing bindings outside
/// the built channel table.
pub fn server_sends_bound_messages(
    registry: &BindingRegistry,
    kind: u64,
    endpoint: &mut renet::RenetServer,
    outbox: &mut Vec<SendToClient>,
) -> (r: Option<u8>)
    requires
        forall|i: int|
            0 <= i < registry.bindings@.len() ==> server_channel_ids(*old(endpoint)).contains(
                (#[trigger] registry.bindings@[i]).channel_id,
            ),
    ensures
        r is Some <==> has_binding(registry.bindings@, kind, Direction::ServerToOneClient),
        r is None ==> *final(endpoint) == *old(endpoint) && final(outbox)@ == old(outbox)@,
        r matches Some(ch) ==> {
            &&& (exists|i: int|
                0 <= i < registry.bindings@.len() && (#[trigger] registry.bindings@[i])
                    == (MessageBinding {
                    kind,
                    direction: Direction::ServerToOneClient,
                    channel_id: ch,
                }))
            &&& final(outbox)@.len() == 0
            &&& server_channel_ids(*final(endpoint)) == server_channel_ids(*old(endpoint))
            &&& server_client_ids(*final(endpoint)).subset_of(server_client_ids(*old(endpoint)))
            &&& (server_reliable_ids(*old(endpoint)).contains(ch) ==> forall|c: u64|
                server_client_ids(*final(endpoint)).contains(c) ==> #[trigger] server_outbound(
                    *final(endpoint),
                    c,
                    ch,
                ) == server_outbound(*old(endpoint), c, ch) + unicast_payloads_for(
                    old(outbox)@,
                    c,
                ))
        },
{
    match registry.channel_for(kind, Direction::ServerToOneClient) {
        None => None,
        Some(ch) => {
            proof {
                let i = choose|i: int|
                    0 <= i < registry.bindings@.len() && (#[trigger] registry.bindings@[i])
                        == (MessageBinding {
                        kind,
                        direction: Direction::ServerToOneClient,
                        channel_id: ch,
                    });
                assert(server_channel_ids(*endpoint).contains(registry.bindings@[i].channel_id));
            }
            server_sends_messages_to_clients(endpoint, outbox, ch);
            Some(ch)
        },
    }
}

/// Broadcast phase for one bound message kind: resolves the kind's channel in
/// the registry and drains the broadcast queue there.  Returns the channel
/// used, or `None`, with everything untouched, when the kind has no
/// server→all-clients binding.
pub fn server_broadcasts_bound_messages(
    registry: &BindingRegistry,
    kind: u64,
    endpoint: &mut renet::RenetServer,
    outbox: &mut Vec<SendToClients>,
) -> (r: Option<u8>)
    requires
        forall|i: int|
            0 <= i < registry.bindings@.len() ==> server_channel_ids(*old(endpoint)).contains(
                (#[trigger] registry.bindings@[i]).channel_id,
            ),
    ensures
        r is Some <==> has_binding(registry.bindings@, kind, Direction::ServerToAllClients),
        r is None ==> *final(endpoint) == *old(endpoint) && final(outbox)@ == old(outbox)@,
        r matches Some(ch) ==> {
            &&& (exists|i: int|
                0 <= i < registry.bindings@.len() && (#[trigger] registry.bindings@[i])
                    == (MessageBinding {
                    kind,
                    direction: Direction::ServerToAllClients,
                    channel_id: ch,
                }))
            &&& final(outbox)@.len() == 0
            &&& server_channel_ids(*final(endpoint)) == server_channel_ids(*old(endpoint))
            &&& server_client_ids(*final(endpoint)).subset_of(server_client_ids(*old(endpoint)))
            &&& (server_reliable_ids(*old(endpoint)).contains(ch) ==> forall|c: u64|
                server_client_ids(*final(endpoint)).contains(c) ==> #[trigger] server_outbound(
                    *final(endpoint),
                    c,
                    ch,
                ) == server_outbound(*old(endpoint), c, ch) + payloads_of_broadcasts(old(outbox)@))
        },
{
    match registry.channel_for(kind, Direction::ServerToAllClients) {
        None => None,
        Some(ch) => {
            proof {
                let i = choose|i: int|
                    0 <= i < registry.bindings@.len() && (#[trigger] registry.bindings@[i])
                        == (MessageBinding {
                        kind,
                        direction: Direction::ServerToAllClients,
                        channel_id: ch,
                    });
                assert(server_channel_ids(*endpoint).contains(registry.bindings@[i].channel_id));
            }
            server_broadcasts_messages_to_clients(endpoint, outbox, ch);
            Some(ch)
        },
    }
}

/// Law of the two-phase shutdown: a stop request followed by a start request
/// in the same tick leaves the server running with a fresh client record set
/// of size zero and a fresh endpoint, while the stopped endpoint keeps no
/// connected client and is still owed its deferred release, so its transport
/// resource is released only by `cleanup_transport` on the following tick
/// and never in the stopping tick itself.
pub fn stop_then_start_same_tick(
    session: &mut ServerSession,
    endpoint: &mut renet::RenetServer,
    request: &StartServer,
    configs: &NetworkConfigs,
) -> (r: Result<Option<ServerBootstrap>, ConfigError>)
    requires
        old(session).wf(),
        old(session).state is Running,
        configs.0@.len() <= MAX_CHANNELS,
    ensures
        final(session).wf(),
        final(session).state is Running,
        final(session).clients@.len() == 0,
        final(session).release_due,
        server_client_ids(*final(endpoint)) == Set::<u64>::empty(),
        forall|c: u64, ch: u8| #[trigger] server_inbound(*final(endpoint), c, ch).len() == 0,
        r matches Ok(b) && b matches Some(boot) && {
            &&& built_from(boot.channels, *configs, request.available_bytes_per_tick)
            &&& server_channel_ids(boot.endpoint) == boot.channels.id_set()
            &&& server_reliable_ids(boot.endpoint) == boot.channels.reliable_id_set()
            &&& server_client_ids(boot.endpoint) == Set::<u64>::empty()
            &&& server_events(boot.endpoint) == Seq::<EndpointEvent>::empty()
        },
{
    let result = {
        server_stops(session, endpoint);
        server_starts(session, request, configs)
    };
    result
}

} // verus!
