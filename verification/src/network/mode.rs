//! The network modes.
use vstd::prelude::*;

use crate::network::error::NetworkError;

verus! {

/// How the TAP device is connected to the host's network.
#[derive(Clone, Copy, Debug, PartialEq, Eq, Structural)]
pub enum NetworkMode {
    /// The clients reach the uplink through address translation.
    Nat,
    /// The clients share a bridge with the uplink.
    Bridge,
    /// The host's network is left as it is.
    Unchanged,
}

impl NetworkMode {
    /// The name of the mode, as it stands on the command line.
    pub open spec fn name(self) -> Seq<char> {
        match self {
            NetworkMode::Nat => "nat"@,
            NetworkMode::Bridge => "bridge"@,
            NetworkMode::Unchanged => "none"@,
        }
    }

    /// The name of the mode, as it stands on the command line.
    pub fn as_str(self) -> (r: &'static str)
        ensures
            r@ == self.name(),
    {
        match self {
            NetworkMode::Nat => "nat",
            NetworkMode::Bridge => "bridge",
            NetworkMode::Unchanged => "none",
        }
    }
}

/// What is to be set up.
#[derive(Clone, Copy, Debug, PartialEq, Eq, Structural)]
pub enum NetworkSetup {
    /// Nothing: the host's network stays as it is.
    Nothing,
    /// A bridge.
    Bridge,
    /// Address translation.
    Nat,
}

/// What a mode asks for. Outside Linux only the mode that changes nothing is supported.
pub fn configure_network_mode(mode: NetworkMode, on_linux: bool) -> (r: Result<
    NetworkSetup,
    NetworkError,
>)
    ensures
        mode is Unchanged ==> r == Ok::<NetworkSetup, NetworkError>(NetworkSetup::Nothing),
        mode is Bridge && on_linux ==> r == Ok::<NetworkSetup, NetworkError>(NetworkSetup::Bridge),
        mode is Nat && on_linux ==> r == Ok::<NetworkSetup, NetworkError>(NetworkSetup::Nat),
        !(mode is Unchanged) && !on_linux ==> r == Err::<NetworkSetup, NetworkError>(
            NetworkError::UnsupportedMode { mode },
        ),
{
    match mode {
        NetworkMode::Unchanged => Ok(NetworkSetup::Nothing),
        NetworkMode::Bridge => if on_linux {
            Ok(NetworkSetup::Bridge)
        } else {
            Err(NetworkError::UnsupportedMode { mode })
        },
        NetworkMode::Nat => if on_linux {
            Ok(NetworkSetup::Nat)
        } else {
            Err(NetworkError::UnsupportedMode { mode })
        },
    }
}

/// The names by which the modes are chosen.
pub proof fn modes_go_by_their_names()
    ensures
        NetworkMode::Nat.name() == "nat"@,
        NetworkMode::Bridge.name() == "bridge"@,
        NetworkMode::Unchanged.name() == "none"@,
{
}

} // verus!
