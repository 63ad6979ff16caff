//! What can be wrong with the network set-up that was asked for.
use ipnet::AddrParseError;
use vstd::prelude::*;

use crate::network::mode::NetworkMode;
use crate::text::{decimal, enclosed, join, joined, prefixed, push_decimal, string_views};

verus! {

/// Why the network cannot be set up.
#[derive(Debug)]
pub enum NetworkError {
    /// The NAT network cannot be read, for the reason that the parser gave.
    InvalidNatNetwork { network: String, cause: AddrParseError },
    /// The NAT network has bits set beyond its prefix.
    NotANetworkAddress { network: String },
    /// The NAT network is too small.
    NoRoomForGateway { network: String },
    /// No uplink was given, and none was found.
    UplinkUndetermined,
    /// No uplink was given, and there is no way to look for one.
    UplinkNotSet,
    /// The mode needs Linux.
    UnsupportedMode { mode: NetworkMode },
    /// There is no interface of that name.
    InterfaceNotFound { name: String },
    /// There are several interfaces of that name.
    DuplicateInterface { name: String },
    /// There are several interfaces with that index.
    DuplicateIndex { index: u32 },
    /// There are several physical interfaces that could be the uplink.
    SeveralPhysicalInterfaces { names: Vec<String> },
    /// The interface already belongs to another bridge.
    AttachedElsewhere { name: String, controller: u32, bridge: String },
}

impl NetworkError {
    /// The error in words.
    pub open spec fn text(self) -> Seq<char> {
        match self {
            NetworkError::InvalidNatNetwork { network, .. } => "invalid NAT network `"@ + network@
                + "`"@,
            NetworkError::NotANetworkAddress { network } =>
                "NAT network must be a network address, got `"@ + network@ + "`"@,
            NetworkError::NoRoomForGateway { network } => "NAT network `"@ + network@
                + "` must leave room for a gateway address"@,
            NetworkError::UplinkUndetermined =>
                "could not determine uplink interface automatically; pass --uplink-if explicitly"@,
            NetworkError::UplinkNotSet =>
                "uplink interface must be set explicitly on non-Linux platforms"@,
            NetworkError::UnsupportedMode { mode } => "network mode `"@ + mode.name()
                + "` is only supported on Linux"@,
            NetworkError::InterfaceNotFound { name } => "interface not found: "@ + name@,
            NetworkError::DuplicateInterface { name } => "multiple interfaces named "@ + name@,
            NetworkError::DuplicateIndex { index } => "multiple interfaces with index "@ + decimal(
                index as nat,
            ),
            NetworkError::SeveralPhysicalInterfaces { names } =>
                "multiple physical interfaces detected ("@ + joined(string_views(names@), ", "@)
                + ") and no default route was found; pass --uplink-if explicitly"@,
            NetworkError::AttachedElsewhere { name, controller, bridge } => name@
                + " is already attached to controller index "@ + decimal(controller as nat)
                + ", expected bridge "@ + bridge@,
        }
    }

    /// The error in words.
    pub fn message(&self) -> (r: String)
        ensures
            r@ == self.text(),
    {
        match self {
            NetworkError::InvalidNatNetwork { network, .. } => enclosed(
                "invalid NAT network `",
                network.as_str(),
                "`",
            ),
            NetworkError::NotANetworkAddress { network } => enclosed(
                "NAT network must be a network address, got `",
                network.as_str(),
                "`",
            ),
            NetworkError::NoRoomForGateway { network } => enclosed(
                "NAT network `",
                network.as_str(),
                "` must leave room for a gateway address",
            ),
            NetworkError::UplinkUndetermined =>
                "could not determine uplink interface automatically; pass --uplink-if explicitly".to_owned(),
            NetworkError::UplinkNotSet =>
                "uplink interface must be set explicitly on non-Linux platforms".to_owned(),
            NetworkError::UnsupportedMode { mode } => enclosed(
                "network mode `",
                mode.as_str(),
                "` is only supported on Linux",
            ),
            NetworkError::InterfaceNotFound { name } => prefixed(
                "interface not found: ",
                name.as_str(),
            ),
            NetworkError::DuplicateInterface { name } => prefixed(
                "multiple interfaces named ",
                name.as_str(),
            ),
            NetworkError::DuplicateIndex { index } => {
                let mut output = "multiple interfaces with index ".to_owned();
                push_decimal(&mut output, *index as u64);
                output
            },
            NetworkError::SeveralPhysicalInterfaces { names } => enclosed(
                "multiple physical interfaces detected (",
                join(names, ", ").as_str(),
                ") and no default route was found; pass --uplink-if explicitly",
            ),
            NetworkError::AttachedElsewhere { name, controller, bridge } => {
                let mut output = name.clone();
                output.append(" is already attached to controller index ");
                push_decimal(&mut output, *controller as u64);
                output.append(", expected bridge ");
                output.append(bridge.as_str());
                output
            },
        }
    }

    /// What lies behind the error, if something else does.
    pub fn cause(&self) -> (r: Option<&AddrParseError>)
        ensures
            r is Some <==> self is InvalidNatNetwork,
            r matches Some(error) ==> *error == self->cause,
    {
        match self {
            NetworkError::InvalidNatNetwork { cause, .. } => Some(cause),
            _ => None,
        }
    }
}

/// An error in words names everything that it is about.
pub proof fn errors_name_what_they_are_about(
    a: String,
    b: String,
    cause: AddrParseError,
    mode: NetworkMode,
    index: u32,
    names: Vec<String>,
)
    ensures
        (NetworkError::InvalidNatNetwork { network: a, cause }).text() == "invalid NAT network `"@
            + a@ + "`"@,
        (NetworkError::NotANetworkAddress { network: a }).text()
            == "NAT network must be a network address, got `"@ + a@ + "`"@,
        (NetworkError::NoRoomForGateway { network: a }).text() == "NAT network `"@ + a@
            + "` must leave room for a gateway address"@,
        NetworkError::UplinkUndetermined.text()
            == "could not determine uplink interface automatically; pass --uplink-if explicitly"@,
        NetworkError::UplinkNotSet.text()
            == "uplink interface must be set explicitly on non-Linux platforms"@,
        (NetworkError::UnsupportedMode { mode }).text() == "network mode `"@ + mode.name()
            + "` is only supported on Linux"@,
        (NetworkError::InterfaceNotFound { name: a }).text() == "interface not found: "@ + a@,
        (NetworkError::DuplicateInterface { name: a }).text() == "multiple interfaces named "@ + a@,
        (NetworkError::DuplicateIndex { index }).text() == "multiple interfaces with index "@
            + decimal(index as nat),
        (NetworkError::SeveralPhysicalInterfaces { names }).text()
            == "multiple physical interfaces detected ("@ + joined(string_views(names@), ", "@)
            + ") and no default route was found; pass --uplink-if explicitly"@,
        (NetworkError::AttachedElsewhere { name: a, controller: index, bridge: b }).text() == a@
            + " is already attached to controller index "@ + decimal(index as nat)
            + ", expected bridge "@ + b@,
{
}

} // verus!
