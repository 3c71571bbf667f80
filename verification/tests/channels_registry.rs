use client_server_events::channel::{
    ChannelDelivery, NetworkConfig, NetworkConfigs, SendType, DEFAULT_MAX_MEMORY_USAGE_BYTES,
    DEFAULT_RESEND_MS, MAX_CHANNELS,
};
use client_server_events::errors::ConfigError;
use client_server_events::registry::{BindingRegistry, Direction, DuplicateBinding};

fn config(send_type: SendType, bytes: usize) -> NetworkConfig {
    NetworkConfig {
        send_type,
        max_memory_usage_bytes: bytes,
    }
}

#[test]
fn build_assigns_indices_in_input_order() {
    let configs = NetworkConfigs(vec![
        config(SendType::Unreliable, 1000),
        config(SendType::ReliableOrdered { resend_ms: 120 }, 2000),
        config(SendType::ReliableUnordered, 3000),
    ]);
    let set = configs.build(60_000).unwrap();
    assert_eq!(set.available_bytes_per_tick, 60_000);
    assert_eq!(set.channels.len(), 3);
    for (i, entry) in set.channels.iter().enumerate() {
        assert_eq!(entry.channel_id, i as u8);
    }
    assert_eq!(set.channels[0].max_memory_usage_bytes, 1000);
    assert_eq!(set.channels[0].delivery, ChannelDelivery::Unreliable);
    assert_eq!(
        set.channels[1].delivery,
        ChannelDelivery::ReliableOrdered { resend_ms: 120 }
    );
    assert_eq!(
        set.channels[2].delivery,
        ChannelDelivery::ReliableUnordered {
            resend_ms: DEFAULT_RESEND_MS
        }
    );
}

#[test]
fn build_accepts_exactly_the_limit() {
    let entries = vec![config(SendType::Unreliable, 64); MAX_CHANNELS];
    let set = NetworkConfigs(entries).build(1).unwrap();
    assert_eq!(set.channels.len(), MAX_CHANNELS);
    assert_eq!(set.channels[MAX_CHANNELS - 1].channel_id, 255);
}

#[test]
fn build_rejects_more_than_the_limit() {
    let entries = vec![config(SendType::Unreliable, 64); MAX_CHANNELS + 1];
    let result = NetworkConfigs(entries).build(1);
    assert_eq!(
        result.unwrap_err(),
        ConfigError::TooManyChannels {
            supplied: MAX_CHANNELS + 1
        }
    );
}

#[test]
fn default_network_config_is_reliable_ordered() {
    let c = NetworkConfig::default();
    assert_eq!(c.max_memory_usage_bytes, DEFAULT_MAX_MEMORY_USAGE_BYTES);
    assert!(matches!(
        c.send_type,
        SendType::ReliableOrdered { resend_ms } if resend_ms == DEFAULT_RESEND_MS
    ));
    let cs = NetworkConfigs::default();
    assert_eq!(cs.0.len(), 1);
}

#[test]
fn binding_registry_rejects_duplicate_kind_and_direction() {
    let mut registry = BindingRegistry::new();
    registry.bind(7, Direction::ClientToServer, 0).unwrap();
    let err = registry.bind(7, Direction::ClientToServer, 3).unwrap_err();
    assert_eq!(err, DuplicateBinding { kind: 7 });
    assert_eq!(registry.bindings.len(), 1);
}

#[test]
fn binding_registry_allows_same_kind_in_other_direction() {
    let mut registry = BindingRegistry::new();
    registry.bind(7, Direction::ClientToServer, 0).unwrap();
    registry.bind(7, Direction::ServerToAllClients, 1).unwrap();
    registry.bind(8, Direction::ClientToServer, 2).unwrap();
    assert_eq!(registry.channel_for(7, Direction::ClientToServer), Some(0));
    assert_eq!(
        registry.channel_for(7, Direction::ServerToAllClients),
        Some(1)
    );
    assert_eq!(registry.channel_for(8, Direction::ClientToServer), Some(2));
    assert_eq!(registry.channel_for(8, Direction::ServerToOneClient), None);
}
