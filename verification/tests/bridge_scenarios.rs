use client_server_events::channel::NetworkConfigs;
use client_server_events::client::{
    client_receives_messages_from_server, client_sends_messages_to_server, ReceiveFromServer,
    SendToServer,
};
use client_server_events::codec::{
    decode_text_message, decode_u64_message, encode_text_message, encode_u64_message,
};
use client_server_events::client::client_sends_bound_messages;
use client_server_events::errors::DisconnectReason;
use client_server_events::registry::{BindingRegistry, Direction};
use client_server_events::server::server_broadcasts_bound_messages;
use client_server_events::server::{
    server_broadcasts_messages_to_clients, server_receives_messages_from_clients,
    server_sends_messages_to_clients, server_starts,
    server_tracks_connected_and_disconnected_clients, ClientConnected, ClientDisconnected,
    ReceiveFromClient, SendToClient, SendToClients, ServerSession, StartServer,
};

/// Starts a server with the default single reliable-ordered channel (id 0)
/// bound to 127.0.0.1:5000 for at most 64 clients.
fn started_server() -> (ServerSession, renet::RenetServer) {
    let mut session = ServerSession::new();
    let request = StartServer::default();
    let configs = NetworkConfigs::default();
    let boot = server_starts(&mut session, &request, &configs)
        .unwrap()
        .unwrap();
    assert_eq!(boot.ip, "127.0.0.1");
    assert_eq!(boot.port, 5000);
    assert_eq!(boot.max_clients, 64);
    assert_eq!(boot.channels.channels.len(), 1);
    assert_eq!(boot.channels.channels[0].channel_id, 0);
    (session, boot.endpoint)
}

fn run_translator(
    session: &mut ServerSession,
    endpoint: &mut renet::RenetServer,
    now_ms: u64,
) -> (Vec<ClientConnected>, Vec<ClientDisconnected>) {
    let mut connected: Vec<ClientConnected> = Vec::new();
    let mut disconnected: Vec<ClientDisconnected> = Vec::new();
    server_tracks_connected_and_disconnected_clients(
        session,
        endpoint,
        now_ms,
        &mut connected,
        &mut disconnected,
    );
    (connected, disconnected)
}

#[test]
fn client_connected_seen_before_first_message() {
    let (mut session, mut endpoint) = started_server();

    // The transport accepts a client; its first message is already in flight.
    let client_id = 42;
    let mut link = endpoint.new_local_client(client_id);
    let mut outbox = vec![SendToServer {
        content: encode_text_message("hello"),
    }];
    client_sends_messages_to_server(&mut link, &mut outbox, 0);
    assert!(outbox.is_empty());
    endpoint.process_local_client(client_id, &mut link).unwrap();

    // Server tick: the event translator runs before the bridge, so the
    // connect event is observed before any message from that client.
    let (connected, disconnected) = run_translator(&mut session, &mut endpoint, 1000);
    assert_eq!(connected, vec![ClientConnected { client_id }]);
    assert!(disconnected.is_empty());
    assert!(session.has_client(client_id));
    assert_eq!(session.clients[0].connected_at, 1000);

    let mut inbox: Vec<ReceiveFromClient> = Vec::new();
    server_receives_messages_from_clients(&mut endpoint, &session.clients, 0, &mut inbox);
    assert_eq!(inbox.len(), 1);
    assert_eq!(inbox[0].client_id, client_id);
    assert_eq!(
        decode_text_message(&inbox[0].content).as_deref(),
        Some("hello")
    );
}

#[test]
fn broadcast_reaches_both_clients_but_not_the_departed() {
    let (mut session, mut endpoint) = started_server();
    let mut link1 = endpoint.new_local_client(1);
    let mut link2 = endpoint.new_local_client(2);
    let mut link3 = endpoint.new_local_client(3);

    // Client 3 disconnects before the broadcast tick.
    endpoint.disconnect_local_client(3, &mut link3);

    // Broadcast tick: translator first, so the departed client is no longer
    // in the client set the bridge works with.
    let (connected, disconnected) = run_translator(&mut session, &mut endpoint, 5);
    assert_eq!(connected.len(), 3);
    assert_eq!(disconnected.len(), 1);
    assert_eq!(disconnected[0].client_id, 3);
    assert!(matches!(
        disconnected[0].reason,
        DisconnectReason::ClientRequested
    ));
    assert_eq!(session.clients.len(), 2);
    assert!(session.has_client(1) && session.has_client(2) && !session.has_client(3));

    let mut outbox = vec![SendToClients {
        content: encode_text_message("news"),
    }];
    server_broadcasts_messages_to_clients(&mut endpoint, &mut outbox, 0);
    assert!(outbox.is_empty());

    endpoint.process_local_client(1, &mut link1).unwrap();
    endpoint.process_local_client(2, &mut link2).unwrap();
    assert!(endpoint.process_local_client(3, &mut link3).is_err());

    let mut inbox1: Vec<ReceiveFromServer> = Vec::new();
    client_receives_messages_from_server(&mut link1, 0, &mut inbox1);
    assert_eq!(inbox1.len(), 1);
    assert_eq!(
        decode_text_message(&inbox1[0].content).as_deref(),
        Some("news")
    );

    let mut inbox2: Vec<ReceiveFromServer> = Vec::new();
    client_receives_messages_from_server(&mut link2, 0, &mut inbox2);
    assert_eq!(inbox2.len(), 1);
    assert_eq!(
        decode_text_message(&inbox2[0].content).as_deref(),
        Some("news")
    );

    let mut inbox3: Vec<ReceiveFromServer> = Vec::new();
    client_receives_messages_from_server(&mut link3, 0, &mut inbox3);
    assert!(inbox3.is_empty());
}

#[test]
fn reactive_reply_goes_out_in_the_same_tick() {
    let (mut session, mut endpoint) = started_server();
    let client_id = 9;
    let mut link = endpoint.new_local_client(client_id);

    let mut outbox = vec![SendToServer {
        content: encode_u64_message(7),
    }];
    client_sends_messages_to_server(&mut link, &mut outbox, 0);
    endpoint.process_local_client(client_id, &mut link).unwrap();

    // One server tick: receives complete before sends are issued, so a
    // reply the host produces in reaction to a received message is picked up
    // by the same tick's send phase, not deferred.
    let (_connected, _disconnected) = run_translator(&mut session, &mut endpoint, 1);
    let mut inbox: Vec<ReceiveFromClient> = Vec::new();
    server_receives_messages_from_clients(&mut endpoint, &session.clients, 0, &mut inbox);
    assert_eq!(inbox.len(), 1);
    let received = decode_u64_message(&inbox[0].content).unwrap();
    assert_eq!(received, 7);

    let mut replies = vec![SendToClient {
        client_id: inbox[0].client_id,
        content: encode_u64_message(received + 1),
    }];
    server_sends_messages_to_clients(&mut endpoint, &mut replies, 0);
    assert!(replies.is_empty(), "the reply left in the same tick");

    endpoint.process_local_client(client_id, &mut link).unwrap();
    let mut inbox: Vec<ReceiveFromServer> = Vec::new();
    client_receives_messages_from_server(&mut link, 0, &mut inbox);
    assert_eq!(inbox.len(), 1);
    assert_eq!(decode_u64_message(&inbox[0].content), Some(8));
}

#[test]
fn unicast_reaches_only_its_target() {
    let (mut session, mut endpoint) = started_server();
    let mut link1 = endpoint.new_local_client(1);
    let mut link2 = endpoint.new_local_client(2);
    let (_c, _d) = run_translator(&mut session, &mut endpoint, 0);

    let mut outbox = vec![SendToClient {
        client_id: 2,
        content: encode_u64_message(5),
    }];
    server_sends_messages_to_clients(&mut endpoint, &mut outbox, 0);

    endpoint.process_local_client(1, &mut link1).unwrap();
    endpoint.process_local_client(2, &mut link2).unwrap();

    let mut inbox1: Vec<ReceiveFromServer> = Vec::new();
    client_receives_messages_from_server(&mut link1, 0, &mut inbox1);
    assert!(inbox1.is_empty());

    let mut inbox2: Vec<ReceiveFromServer> = Vec::new();
    client_receives_messages_from_server(&mut link2, 0, &mut inbox2);
    assert_eq!(inbox2.len(), 1);
    assert_eq!(decode_u64_message(&inbox2[0].content), Some(5));
}

#[test]
fn messages_arrive_in_send_order_on_an_ordered_channel() {
    let (mut session, mut endpoint) = started_server();
    let client_id = 4;
    let mut link = endpoint.new_local_client(client_id);

    let mut outbox = vec![
        SendToServer {
            content: encode_u64_message(10),
        },
        SendToServer {
            content: encode_u64_message(20),
        },
        SendToServer {
            content: encode_u64_message(30),
        },
    ];
    client_sends_messages_to_server(&mut link, &mut outbox, 0);
    endpoint.process_local_client(client_id, &mut link).unwrap();

    let (_c, _d) = run_translator(&mut session, &mut endpoint, 0);
    let mut inbox: Vec<ReceiveFromClient> = Vec::new();
    server_receives_messages_from_clients(&mut endpoint, &session.clients, 0, &mut inbox);
    let values: Vec<u64> = inbox
        .iter()
        .map(|m| decode_u64_message(&m.content).unwrap())
        .collect();
    assert_eq!(values, vec![10, 20, 30]);
}

#[test]
fn translator_appends_after_existing_events() {
    let (mut session, mut endpoint) = started_server();
    let _link = endpoint.new_local_client(5);

    // Whatever the queues already held stays in place, in order.
    let mut connected = vec![ClientConnected { client_id: 99 }];
    let mut disconnected: Vec<ClientDisconnected> = Vec::new();
    server_tracks_connected_and_disconnected_clients(
        &mut session,
        &mut endpoint,
        7,
        &mut connected,
        &mut disconnected,
    );
    assert_eq!(
        connected,
        vec![
            ClientConnected { client_id: 99 },
            ClientConnected { client_id: 5 }
        ]
    );
    assert!(disconnected.is_empty());
}

#[test]
fn bound_kind_routes_messages_through_its_registered_channel() {
    let (mut session, mut endpoint) = started_server();
    let client_id = 6;
    let mut link = endpoint.new_local_client(client_id);
    let (_c, _d) = run_translator(&mut session, &mut endpoint, 0);

    let mut registry = BindingRegistry::new();
    registry.bind(7, Direction::ClientToServer, 0).unwrap();
    registry.bind(7, Direction::ServerToAllClients, 0).unwrap();

    // Client→server through the binding of kind 7.
    let mut outbox = vec![SendToServer {
        content: encode_u64_message(123),
    }];
    let used = client_sends_bound_messages(&registry, 7, &mut link, &mut outbox);
    assert_eq!(used, Some(0));
    assert!(outbox.is_empty());
    endpoint.process_local_client(client_id, &mut link).unwrap();

    let mut inbox: Vec<ReceiveFromClient> = Vec::new();
    server_receives_messages_from_clients(&mut endpoint, &session.clients, 0, &mut inbox);
    assert_eq!(inbox.len(), 1);
    assert_eq!(decode_u64_message(&inbox[0].content), Some(123));

    // Server→all-clients through the same kind's broadcast binding.
    let mut broadcasts = vec![SendToClients {
        content: encode_u64_message(321),
    }];
    let used = server_broadcasts_bound_messages(&registry, 7, &mut endpoint, &mut broadcasts);
    assert_eq!(used, Some(0));
    assert!(broadcasts.is_empty());
    endpoint.process_local_client(client_id, &mut link).unwrap();

    let mut down: Vec<ReceiveFromServer> = Vec::new();
    client_receives_messages_from_server(&mut link, 0, &mut down);
    assert_eq!(down.len(), 1);
    assert_eq!(decode_u64_message(&down[0].content), Some(321));
}

#[test]
fn unbound_kind_leaves_the_queue_untouched() {
    let (mut _session, mut endpoint) = started_server();
    let mut link = endpoint.new_local_client(8);

    let registry = BindingRegistry::new();
    let mut outbox = vec![SendToServer {
        content: encode_u64_message(9),
    }];
    let used = client_sends_bound_messages(&registry, 1, &mut link, &mut outbox);
    assert_eq!(used, None);
    assert_eq!(outbox.len(), 1);
}
