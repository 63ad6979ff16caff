//! A layer 2 relay that carries raw Ethernet frames between WebSocket clients and a TAP device.
pub mod cli;
pub mod clock;
pub mod frame;
pub mod mac;
pub mod metrics;
pub mod network;
pub mod peer;
pub mod queue;
pub mod relay;
pub mod session;
pub mod table;
pub mod text;
pub mod traffic;
