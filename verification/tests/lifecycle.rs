use client_server_events::channel::{NetworkConfig, NetworkConfigs, SendType};
use client_server_events::client::{
    client_connection_established, client_connection_failed, client_disconnects_from_server,
    client_initiates_connection_to_server, AuthenticationMode, ClientSession, ClientState,
    ConnectToServer, DEFAULT_EXPIRE_SECONDS, NO_TIMEOUT,
};
use client_server_events::errors::ConfigError;
use client_server_events::server::{
    cleanup_transport, server_starts, server_stops, stop_then_start_same_tick, ServerPhase,
    ServerSession, ServerState, StartServer,
};

fn many_configs(n: usize) -> NetworkConfigs {
    NetworkConfigs(vec![
        NetworkConfig {
            send_type: SendType::Unreliable,
            max_memory_usage_bytes: 64,
        };
        n
    ])
}

#[test]
fn connect_request_while_connecting_is_ignored() {
    let mut session = ClientSession::new();
    let request = ConnectToServer::default();
    let configs = NetworkConfigs::default();

    let first = client_initiates_connection_to_server(&mut session, &request, &configs, 1111);
    assert!(first.unwrap().is_some());
    assert_eq!(session.state, ClientState::Connecting { client_id: 1111 });

    // Second request while connecting: no new endpoint, state unchanged.
    let second = client_initiates_connection_to_server(&mut session, &request, &configs, 2222);
    assert!(second.unwrap().is_none());
    assert_eq!(session.state, ClientState::Connecting { client_id: 1111 });
}

#[test]
fn connect_request_while_connected_is_ignored() {
    let mut session = ClientSession::new();
    let request = ConnectToServer::default();
    let configs = NetworkConfigs::default();

    client_initiates_connection_to_server(&mut session, &request, &configs, 5)
        .unwrap()
        .unwrap();
    client_connection_established(&mut session);
    assert_eq!(session.state, ClientState::Connected { client_id: 5 });

    let again = client_initiates_connection_to_server(&mut session, &request, &configs, 6);
    assert!(again.unwrap().is_none());
    assert_eq!(session.state, ClientState::Connected { client_id: 5 });
}

#[test]
fn connect_resolves_client_id_and_auth_defaults() {
    let mut session = ClientSession::new();
    let configs = NetworkConfigs::default();

    // No explicit id: the wall-clock millisecond count is used.
    let request = ConnectToServer::default();
    let boot = client_initiates_connection_to_server(&mut session, &request, &configs, 987_654)
        .unwrap()
        .unwrap();
    assert_eq!(boot.client_id, 987_654);
    assert!(matches!(boot.auth, AuthenticationMode::Unsecure));

    // Explicit id and shared secret: token authentication with the default
    // expiry and no timeout.
    let mut session = ClientSession::new();
    let request = ConnectToServer {
        client_id: Some(77),
        private_key: Some(client_server_events::string_to_key("key")),
        ..ConnectToServer::default()
    };
    let boot = client_initiates_connection_to_server(&mut session, &request, &configs, 1)
        .unwrap()
        .unwrap();
    assert_eq!(boot.client_id, 77);
    match boot.auth {
        AuthenticationMode::Secure {
            private_key,
            expire_seconds,
            timeout_seconds,
        } => {
            assert_eq!(private_key, client_server_events::string_to_key("key"));
            assert_eq!(expire_seconds, DEFAULT_EXPIRE_SECONDS);
            assert_eq!(timeout_seconds, NO_TIMEOUT);
        }
        AuthenticationMode::Unsecure => panic!("expected token authentication"),
    }
}

#[test]
fn connect_rejects_oversized_channel_table() {
    let mut session = ClientSession::new();
    let request = ConnectToServer::default();
    let result =
        client_initiates_connection_to_server(&mut session, &request, &many_configs(257), 1);
    match result {
        Err(e) => assert_eq!(e, ConfigError::TooManyChannels { supplied: 257 }),
        Ok(_) => panic!("oversized channel table accepted"),
    }
    assert_eq!(session.state, ClientState::Idle);
}

#[test]
fn failed_connect_returns_to_idle() {
    let mut session = ClientSession::new();
    let request = ConnectToServer::default();
    let configs = NetworkConfigs::default();
    client_initiates_connection_to_server(&mut session, &request, &configs, 1)
        .unwrap()
        .unwrap();
    client_connection_failed(&mut session);
    assert_eq!(session.state, ClientState::Idle);
}

#[test]
fn disconnect_releases_connection_in_same_tick() {
    let mut session = ClientSession::new();
    let request = ConnectToServer::default();
    let configs = NetworkConfigs::default();
    let mut boot = client_initiates_connection_to_server(&mut session, &request, &configs, 1)
        .unwrap()
        .unwrap();
    client_connection_established(&mut session);

    client_disconnects_from_server(&mut session, &mut boot.link);
    assert_eq!(session.state, ClientState::Idle);
    // The endpoint itself was told: the connection is marked closed.
    assert!(boot.link.is_disconnected());
}

#[test]
fn server_start_while_running_is_ignored() {
    let mut session = ServerSession::new();
    let request = StartServer::default();
    let configs = NetworkConfigs::default();

    let first = server_starts(&mut session, &request, &configs);
    assert!(first.unwrap().is_some());
    assert_eq!(session.state, ServerState::Running);

    let second = server_starts(&mut session, &request, &configs);
    assert!(second.unwrap().is_none());
    assert_eq!(session.state, ServerState::Running);
}

#[test]
fn server_start_rejects_oversized_channel_table() {
    let mut session = ServerSession::new();
    let request = StartServer::default();
    let result = server_starts(&mut session, &request, &many_configs(300));
    match result {
        Err(e) => assert_eq!(e, ConfigError::TooManyChannels { supplied: 300 }),
        Ok(_) => panic!("oversized channel table accepted"),
    }
    assert_eq!(session.state, ServerState::Stopped);
}

#[test]
fn stop_defers_transport_release_to_next_tick() {
    let mut session = ServerSession::new();
    let request = StartServer::default();
    let configs = NetworkConfigs::default();
    let mut boot = server_starts(&mut session, &request, &configs)
        .unwrap()
        .unwrap();

    // A connected client is told to go when the server stops.
    let _link = boot.endpoint.new_local_client(11);

    server_stops(&mut session, &mut boot.endpoint);
    // Stopping tick: the transport resource is still held.
    assert_eq!(session.current_phase(), ServerPhase::StoppingPendingRelease);
    assert_eq!(session.clients.len(), 0);
    assert_eq!(boot.endpoint.connected_clients(), 0);

    // Next tick: the release is ordered exactly once.
    assert!(cleanup_transport(&mut session));
    assert_eq!(session.current_phase(), ServerPhase::Stopped);
    assert!(!cleanup_transport(&mut session));
}

#[test]
fn stop_then_start_same_tick_leaves_server_running_fresh() {
    let mut session = ServerSession::new();
    let request = StartServer::default();
    let configs = NetworkConfigs::default();
    let mut boot = server_starts(&mut session, &request, &configs)
        .unwrap()
        .unwrap();

    let restarted = stop_then_start_same_tick(&mut session, &mut boot.endpoint, &request, &configs);
    assert!(restarted.unwrap().is_some());
    assert_eq!(session.state, ServerState::Running);
    assert_eq!(session.clients.len(), 0);
    // The stopped endpoint's transport resource is released only next tick.
    assert!(session.release_due);
    assert!(cleanup_transport(&mut session));
    assert_eq!(session.state, ServerState::Running);
}

#[test]
fn default_requests_match_documented_values() {
    let c = ConnectToServer::default();
    assert_eq!(c.server_ip, "127.0.0.1");
    assert_eq!(c.server_port, 5000);
    assert_eq!(c.protocol_id, 1);
    assert_eq!(c.available_bytes_per_tick, 60_000);
    assert!(c.client_id.is_none() && c.private_key.is_none());

    let s = StartServer::default();
    assert_eq!(s.ip, "127.0.0.1");
    assert_eq!(s.port, 5000);
    assert_eq!(s.max_clients, 64);
    assert_eq!(s.protocol_id, 1);
    assert!(s.private_key.is_none());
}
