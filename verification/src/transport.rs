//! Trusted boundary to the transport's connection objects.  The server and
//! client endpoint types are opaque; what the contracts need of them is named
//! here (their channel tables, their connected-client set, the payloads they
//! are ready to deliver, the payloads they have accepted for sending, and
//! their pending notifications) and every method the library calls is wrapped
//! with a contract that states what the transport's source shows.

use vstd::multiset::Multiset;
use vstd::prelude::*;

use crate::channel::{ChannelDelivery, ChannelSet};
use crate::errors::DisconnectReason;

verus! {

#[verifier::external_type_specification]
#[verifier::external_body]
pub struct ExRenetServer(renet::RenetServer);

#[verifier::external_type_specification]
#[verifier::external_body]
pub struct ExRenetClient(renet::RenetClient);

#[verifier::external_type_specification]
#[verifier::external_body]
pub struct ExConnectionConfig(renet::ConnectionConfig);

/// A transport-level connection notification, as drained from the server
/// endpoint.
#[derive(Clone, Debug)]
pub enum EndpointEvent {
    Connected { client_id: u64 },
    Disconnected { client_id: u64, reason: DisconnectReason },
}

/// The channel ids a server endpoint was built with.
pub uninterp spec fn server_channel_ids(s: renet::RenetServer) -> Set<u8>;

/// The ids of the server endpoint's channels with a reliable delivery mode.
pub uninterp spec fn server_reliable_ids(s: renet::RenetServer) -> Set<u8>;

/// The ids of the clients a server endpoint currently considers connected.
pub uninterp spec fn server_client_ids(s: renet::RenetServer) -> Set<u64>;

/// The payloads from a client that the channel is ready to deliver now: what
/// repeated receive calls would yield before the first None.  Empty for an
/// unknown or closed connection, and while an ordered channel waits for a
/// missing earlier message.
pub uninterp spec fn server_inbound(s: renet::RenetServer, client_id: u64, channel_id: u8) -> Multiset<
    Seq<u8>,
>;

/// The payloads the endpoint has accepted for sending to a client on a
/// channel, oldest first.  A reliable channel accepts a payload or closes the
/// connection when its memory budget is exhausted; an unreliable channel may
/// silently drop instead of accept.
pub uninterp spec fn server_outbound(s: renet::RenetServer, client_id: u64, channel_id: u8) -> Seq<
    Seq<u8>,
>;

/// The connection notifications queued in a server endpoint, oldest first.
pub uninterp spec fn server_events(s: renet::RenetServer) -> Seq<EndpointEvent>;

/// The channel ids a client endpoint was built with.
pub uninterp spec fn client_channel_ids(c: renet::RenetClient) -> Set<u8>;

/// The ids of the client endpoint's channels with a reliable delivery mode.
pub uninterp spec fn client_reliable_ids(c: renet::RenetClient) -> Set<u8>;

/// Whether the connection is marked disconnected.  Once closed, an endpoint
/// stays closed; it delivers nothing and accepts nothing.
pub uninterp spec fn client_closed(c: renet::RenetClient) -> bool;

/// The payloads from the server that the channel is ready to deliver now:
/// what repeated receive calls would yield before the first None.  Empty for
/// a closed connection, and while an ordered channel waits for a missing
/// earlier message.
pub uninterp spec fn client_inbound(c: renet::RenetClient, channel_id: u8) -> Multiset<Seq<u8>>;

/// The payloads the endpoint has accepted for sending to the server on a
/// channel, oldest first.  A reliable channel accepts a payload or closes the
/// connection when its memory budget is exhausted; an unreliable channel may
/// silently drop instead of accept.
pub uninterp spec fn client_outbound(c: renet::RenetClient, channel_id: u8) -> Seq<Seq<u8>>;

/// Relies on renet::ConnectionConfig: converts the validated channel table to
/// the transport's connection configuration, entry for entry, with the same
/// table for both directions.
#[verifier::external_body]
fn to_connection_config(channels: &ChannelSet) -> (r: renet::ConnectionConfig) {
    let ms = core::time::Duration::from_millis;
    let list: Vec<renet::ChannelConfig> = channels.channels.iter().map(|c| renet::ChannelConfig {
        channel_id: c.channel_id,
        max_memory_usage_bytes: c.max_memory_usage_bytes,
        send_type: match c.delivery {
            ChannelDelivery::Unreliable => renet::SendType::Unreliable,
            ChannelDelivery::ReliableUnordered { resend_ms } => renet::SendType::ReliableUnordered { resend_time: ms(resend_ms) },
            ChannelDelivery::ReliableOrdered { resend_ms } => renet::SendType::ReliableOrdered { resend_time: ms(resend_ms) },
        },
    }).collect();
    let available_bytes_per_tick = channels.available_bytes_per_tick;
    renet::ConnectionConfig { available_bytes_per_tick, server_channels_config: list.clone(), client_channels_config: list }
}

/// Relies on renet::RenetServer::new: a fresh endpoint has the configured
/// channels, no connections, no queued notifications, nothing ready to
/// deliver and nothing accepted for sending.
#[verifier::external_body]
pub(crate) fn new_renet_server(channels: &ChannelSet) -> (s: renet::RenetServer)
    requires
        channels.wf(),
    ensures
        server_channel_ids(s) == channels.id_set(),
        server_reliable_ids(s) == channels.reliable_id_set(),
        server_client_ids(s) == Set::<u64>::empty(),
        server_events(s) == Seq::<EndpointEvent>::empty(),
        forall|c: u64, ch: u8| #[trigger] server_inbound(s, c, ch) == Multiset::<Seq<u8>>::empty(),
        forall|c: u64, ch: u8| #[trigger] server_outbound(s, c, ch) == Seq::<Seq<u8>>::empty(),
{
    renet::RenetServer::new(to_connection_config(channels))
}

/// Relies on renet::RenetClient::new: a fresh endpoint has the configured
/// channels, is not closed, has nothing ready to deliver and nothing
/// accepted for sending.  The channel table must be valid: the transport
/// refuses duplicate channel ids.
#[verifier::external_body]
pub(crate) fn new_renet_client(channels: &ChannelSet) -> (c: renet::RenetClient)
    requires
        channels.wf(),
    ensures
        client_channel_ids(c) == channels.id_set(),
        client_reliable_ids(c) == channels.reliable_id_set(),
        !client_closed(c),
        forall|ch: u8| #[trigger] client_inbound(c, ch) == Multiset::<Seq<u8>>::empty(),
        forall|ch: u8| #[trigger] client_outbound(c, ch) == Seq::<Seq<u8>>::empty(),
{
    renet::RenetClient::new(to_connection_config(channels))
}

/// Relies on renet::RenetServer::send_message: for a connected target the
/// payload is accepted for sending, except that a channel whose memory budget
/// is exhausted either closes the connection (reliable) or drops the payload
/// (unreliable); for an unknown or closed target nothing happens.
#[verifier::external_body]
pub(crate) fn server_send(
    s: &mut renet::RenetServer,
    client_id: u64,
    channel_id: u8,
    payload: Vec<u8>,
)
    requires
        server_channel_ids(*old(s)).contains(channel_id),
    ensures
        server_channel_ids(*final(s)) == server_channel_ids(*old(s)),
        server_reliable_ids(*final(s)) == server_reliable_ids(*old(s)),
        server_events(*final(s)) == server_events(*old(s)),
        server_client_ids(*final(s)).subset_of(server_client_ids(*old(s))),
        server_client_ids(*old(s)).remove(client_id).subset_of(server_client_ids(*final(s))),
        !server_client_ids(*old(s)).contains(client_id) ==> {
            &&& server_client_ids(*final(s)) == server_client_ids(*old(s))
            &&& forall|c: u64, ch: u8| #[trigger] server_outbound(*final(s), c, ch)
                == server_outbound(*old(s), c, ch)
            &&& forall|c: u64, ch: u8| #[trigger] server_inbound(*final(s), c, ch)
                == server_inbound(*old(s), c, ch)
        },
        server_client_ids(*old(s)).contains(client_id) ==> {
            &&& forall|c: u64, ch: u8|
                c != client_id || ch != channel_id ==> #[trigger] server_outbound(*final(s), c, ch)
                    == server_outbound(*old(s), c, ch)
            &&& (server_outbound(*final(s), client_id, channel_id) == server_outbound(
                *old(s),
                client_id,
                channel_id,
            ).push(payload@) || server_outbound(*final(s), client_id, channel_id)
                == server_outbound(*old(s), client_id, channel_id))
            &&& (server_reliable_ids(*old(s)).contains(channel_id) && server_client_ids(
                *final(s),
            ).contains(client_id) ==> server_outbound(*final(s), client_id, channel_id)
                == server_outbound(*old(s), client_id, channel_id).push(payload@))
        },
        forall|c: u64, ch: u8|
            c != client_id ==> #[trigger] server_inbound(*final(s), c, ch) == server_inbound(
                *old(s),
                c,
                ch,
            ),
        server_client_ids(*final(s)).contains(client_id) ==> forall|ch: u8| #[trigger]
            server_inbound(*final(s), client_id, ch) == server_inbound(*old(s), client_id, ch),
        server_client_ids(*old(s)).contains(client_id) && !server_client_ids(*final(s)).contains(
            client_id,
        ) ==> forall|ch: u8| #[trigger] server_inbound(*final(s), client_id, ch).len() == 0,
{
    s.send_message(client_id, channel_id, payload);
}

/// Relies on renet::RenetServer::broadcast_message: every connected client is
/// offered the payload on the channel; each one either accepts it for
/// sending, or (budget exhausted) is closed on a reliable channel or drops it
/// on an unreliable one.  Unknown and closed connections are untouched.
#[verifier::external_body]
pub(crate) fn server_broadcast(s: &mut renet::RenetServer, channel_id: u8, payload: Vec<u8>)
    requires
        server_channel_ids(*old(s)).contains(channel_id),
    ensures
        server_channel_ids(*final(s)) == server_channel_ids(*old(s)),
        server_reliable_ids(*final(s)) == server_reliable_ids(*old(s)),
        server_events(*final(s)) == server_events(*old(s)),
        server_client_ids(*final(s)).subset_of(server_client_ids(*old(s))),
        forall|c: u64, ch: u8|
            ch != channel_id ==> #[trigger] server_outbound(*final(s), c, ch) == server_outbound(
                *old(s),
                c,
                ch,
            ),
        forall|c: u64|
            !server_client_ids(*old(s)).contains(c) ==> #[trigger] server_outbound(
                *final(s),
                c,
                channel_id,
            ) == server_outbound(*old(s), c, channel_id),
        forall|c: u64|
            server_client_ids(*old(s)).contains(c) ==> (#[trigger] server_outbound(
                *final(s),
                c,
                channel_id,
            ) == server_outbound(*old(s), c, channel_id).push(payload@) || server_outbound(
                *final(s),
                c,
                channel_id,
            ) == server_outbound(*old(s), c, channel_id)),
        server_reliable_ids(*old(s)).contains(channel_id) ==> forall|c: u64|
            server_client_ids(*old(s)).contains(c) && #[trigger] server_client_ids(
                *final(s),
            ).contains(c) ==> server_outbound(*final(s), c, channel_id) == server_outbound(
                *old(s),
                c,
                channel_id,
            ).push(payload@),
        forall|c: u64, ch: u8|
            !server_client_ids(*old(s)).contains(c) ==> #[trigger] server_inbound(*final(s), c, ch)
                == server_inbound(*old(s), c, ch),
        forall|c: u64, ch: u8|
            server_client_ids(*final(s)).contains(c) ==> #[trigger] server_inbound(*final(s), c, ch)
                == server_inbound(*old(s), c, ch),
        forall|c: u64, ch: u8|
            server_client_ids(*old(s)).contains(c) && !server_client_ids(*final(s)).contains(c)
                ==> #[trigger] server_inbound(*final(s), c, ch).len() == 0,
{
    s.broadcast_message(channel_id, payload);
}

/// Relies on renet::RenetServer::receive_message: pops one payload the
/// channel is ready to deliver from the given client, or returns None exactly
/// when nothing is ready.  Which of several ready payloads comes out first is
/// the transport's choice.
#[verifier::external_body]
pub(crate) fn server_receive(s: &mut renet::RenetServer, client_id: u64, channel_id: u8) -> (r:
    Option<Vec<u8>>)
    requires
        server_channel_ids(*old(s)).contains(channel_id),
    ensures
        server_channel_ids(*final(s)) == server_channel_ids(*old(s)),
        server_reliable_ids(*final(s)) == server_reliable_ids(*old(s)),
        server_client_ids(*final(s)) == server_client_ids(*old(s)),
        server_events(*final(s)) == server_events(*old(s)),
        forall|c: u64, ch: u8| #[trigger] server_outbound(*final(s), c, ch) == server_outbound(
            *old(s),
            c,
            ch,
        ),
        r is Some ==> server_inbound(*old(s), client_id, channel_id).contains(r->0@)
            && server_inbound(*final(s), client_id, channel_id) == server_inbound(
            *old(s),
            client_id,
            channel_id,
        ).remove(r->0@),
        r is None ==> server_inbound(*old(s), client_id, channel_id).len() == 0
            && server_inbound(*final(s), client_id, channel_id) == server_inbound(
            *old(s),
            client_id,
            channel_id,
        ),
        forall|c: u64, ch: u8|
            c != client_id || ch != channel_id ==> #[trigger] server_inbound(*final(s), c, ch)
                == server_inbound(*old(s), c, ch),
{
    s.receive_message(client_id, channel_id).map(|b| b.to_vec())
}

/// Relies on renet::RenetServer::get_event: pops the oldest queued
/// connect/disconnect notification, translated to the library's taxonomy.
#[verifier::external_body]
pub(crate) fn server_poll_event(s: &mut renet::RenetServer) -> (r: Option<EndpointEvent>)
    ensures
        server_channel_ids(*final(s)) == server_channel_ids(*old(s)),
        server_reliable_ids(*final(s)) == server_reliable_ids(*old(s)),
        server_client_ids(*final(s)) == server_client_ids(*old(s)),
        forall|c: u64, ch: u8| #[trigger] server_inbound(*final(s), c, ch) == server_inbound(
            *old(s),
            c,
            ch,
        ),
        forall|c: u64, ch: u8| #[trigger] server_outbound(*final(s), c, ch) == server_outbound(
            *old(s),
            c,
            ch,
        ),
        server_events(*old(s)).len() == 0 ==> r is None && server_events(*final(s))
            == server_events(*old(s)),
        server_events(*old(s)).len() > 0 ==> r == Some(server_events(*old(s))[0]) && server_events(
            *final(s),
        ) == server_events(*old(s)).drop_first(),
{
    match s.get_event() {
        None => None,
        Some(renet::ServerEvent::ClientConnected { client_id }) => Some(
            EndpointEvent::Connected { client_id },
        ),
        Some(renet::ServerEvent::ClientDisconnected { client_id, reason }) => {
            let mapped = match reason {
                renet::DisconnectReason::DisconnectedByClient => DisconnectReason::ClientRequested,
                renet::DisconnectReason::DisconnectedByServer => DisconnectReason::ServerRequested,
                other => DisconnectReason::TransportError { detail: format!("{other}") },
            };
            Some(EndpointEvent::Disconnected { client_id, reason: mapped })
        },
    }
}

/// Relies on renet::RenetServer::disconnect_all: marks every connection
/// disconnected-by-server, so nothing is ready to deliver any more; what was
/// accepted for sending and the queued notifications stay until the transport
/// layer finishes the teardown.
#[verifier::external_body]
pub(crate) fn server_disconnect_all(s: &mut renet::RenetServer)
    ensures
        server_channel_ids(*final(s)) == server_channel_ids(*old(s)),
        server_reliable_ids(*final(s)) == server_reliable_ids(*old(s)),
        server_events(*final(s)) == server_events(*old(s)),
        forall|c: u64, ch: u8| #[trigger] server_outbound(*final(s), c, ch) == server_outbound(
            *old(s),
            c,
            ch,
        ),
        server_client_ids(*final(s)) == Set::<u64>::empty(),
        forall|c: u64, ch: u8| #[trigger] server_inbound(*final(s), c, ch).len() == 0,
{
    s.disconnect_all();
}

/// Relies on renet::RenetClient::send_message: on an open connection the
/// payload is accepted for sending, except that a channel whose memory budget
/// is exhausted either closes the connection (reliable) or drops the payload
/// (unreliable); a closed connection ignores the call.
#[verifier::external_body]
pub(crate) fn client_send(c: &mut renet::RenetClient, channel_id: u8, payload: Vec<u8>)
    requires
        client_channel_ids(*old(c)).contains(channel_id),
    ensures
        client_channel_ids(*final(c)) == client_channel_ids(*old(c)),
        client_reliable_ids(*final(c)) == client_reliable_ids(*old(c)),
        client_closed(*old(c)) ==> client_closed(*final(c)),
        client_closed(*old(c)) ==> {
            &&& forall|ch: u8| #[trigger] client_outbound(*final(c), ch) == client_outbound(
                *old(c),
                ch,
            )
            &&& forall|ch: u8| #[trigger] client_inbound(*final(c), ch) == client_inbound(
                *old(c),
                ch,
            )
        },
        !client_closed(*old(c)) ==> {
            &&& forall|ch: u8|
                ch != channel_id ==> #[trigger] client_outbound(*final(c), ch) == client_outbound(
                    *old(c),
                    ch,
                )
            &&& (client_outbound(*final(c), channel_id) == client_outbound(
                *old(c),
                channel_id,
            ).push(payload@) || client_outbound(*final(c), channel_id) == client_outbound(
                *old(c),
                channel_id,
            ))
            &&& (client_reliable_ids(*old(c)).contains(channel_id) && !client_closed(*final(c))
                ==> client_outbound(*final(c), channel_id) == client_outbound(
                *old(c),
                channel_id,
            ).push(payload@))
        },
        !client_closed(*final(c)) ==> forall|ch: u8| #[trigger] client_inbound(*final(c), ch)
            == client_inbound(*old(c), ch),
        client_closed(*final(c)) ==> forall|ch: u8| #[trigger] client_inbound(*final(c), ch).len()
            == 0,
{
    c.send_message(channel_id, payload);
}

/// Relies on renet::RenetClient::receive_message: pops one payload the
/// channel is ready to deliver, or returns None exactly when nothing is
/// ready.  Which of several ready payloads comes out first is the
/// transport's choice.
#[verifier::external_body]
pub(crate) fn client_receive(c: &mut renet::RenetClient, channel_id: u8) -> (r: Option<Vec<u8>>)
    requires
        client_channel_ids(*old(c)).contains(channel_id),
    ensures
        client_channel_ids(*final(c)) == client_channel_ids(*old(c)),
        client_reliable_ids(*final(c)) == client_reliable_ids(*old(c)),
        client_closed(*final(c)) == client_closed(*old(c)),
        forall|ch: u8| #[trigger] client_outbound(*final(c), ch) == client_outbound(*old(c), ch),
        r is Some ==> client_inbound(*old(c), channel_id).contains(r->0@) && client_inbound(
            *final(c),
            channel_id,
        ) == client_inbound(*old(c), channel_id).remove(r->0@),
        r is None ==> client_inbound(*old(c), channel_id).len() == 0 && client_inbound(
            *final(c),
            channel_id,
        ) == client_inbound(*old(c), channel_id),
        forall|ch: u8|
            ch != channel_id ==> #[trigger] client_inbound(*final(c), ch) == client_inbound(
                *old(c),
                ch,
            ),
{
    c.receive_message(channel_id).map(|b| b.to_vec())
}

/// Relies on renet::RenetClient::disconnect: marks the connection
/// disconnected-by-client, so nothing is ready to deliver any more; the
/// channel table and what was already accepted for sending are left in
/// place.
#[verifier::external_body]
pub(crate) fn client_disconnect(c: &mut renet::RenetClient)
    ensures
        client_channel_ids(*final(c)) == client_channel_ids(*old(c)),
        client_reliable_ids(*final(c)) == client_reliable_ids(*old(c)),
        client_closed(*final(c)),
        forall|ch: u8| #[trigger] client_outbound(*final(c), ch) == client_outbound(*old(c), ch),
        forall|ch: u8| #[trigger] client_inbound(*final(c), ch).len() == 0,
{
    c.disconnect();
}

} // verus!
