//! How the host's network is set up around the TAP device.
pub mod bridge;
pub mod error;
pub mod link;
pub mod mode;
pub mod route;
pub mod translation;
pub mod uplink;
