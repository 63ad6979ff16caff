//! The settings of the relay that decide what it does to the host's network.
use vstd::prelude::*;

use crate::network::mode::NetworkMode;

verus! {

/// The TAP device, where none is named.
pub const DEFAULT_TAP_NAME: &'static str = "tap0";

/// The MTU of the TAP device, where none is given.
pub const DEFAULT_TAP_MTU: u16 = 1500;

/// The bridge, where none is named.
pub const DEFAULT_BRIDGE_NAME: &'static str = "br0";

/// The network of the clients behind address translation, where none is given.
pub const DEFAULT_NAT_NETWORK: &'static str = "10.200.0.0/24";

/// The settings.
#[derive(Debug)]
pub struct Cli {
    pub network_mode: NetworkMode,
    pub uplink_if: Option<String>,
    pub bridge_name: String,
    pub nat_network: String,
    pub tap_name: String,
    pub tap_mtu: u16,
}

impl Default for Cli {
    fn default() -> (r: Cli)
        ensures
            r.network_mode == NetworkMode::Unchanged,
            r.uplink_if is None,
            r.bridge_name@ == "br0"@,
            r.nat_network@ == "10.200.0.0/24"@,
            r.tap_name@ == "tap0"@,
            r.tap_mtu == 1500,
    {
        Cli {
            network_mode: NetworkMode::Unchanged,
            uplink_if: None,
            bridge_name: DEFAULT_BRIDGE_NAME.to_owned(),
            nat_network: DEFAULT_NAT_NETWORK.to_owned(),
            tap_name: DEFAULT_TAP_NAME.to_owned(),
            tap_mtu: DEFAULT_TAP_MTU,
        }
    }
}

} // verus!
