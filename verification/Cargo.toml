[package]
name = "client_server_events"
version = "0.1.0"
edition = "2021"
publish = false

[dependencies]
renet = "=2.0.0"
renet_netcode = "=2.0.0"
bincode = "=2.0.1"
