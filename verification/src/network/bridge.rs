//! A bridge between the uplink and the TAP device.
use vstd::prelude::*;

use crate::network::error::NetworkError;
use crate::network::link::{bytes_of, current_controller_index, link_mac, Link};
use crate::network::route::{
    default_route_message, rerouted, DefaultRoute, RouteRequest, SavedIpv4Address,
};
use crate::text::{enclosed, prefixed};

verus! {

/// The two interfaces that the relay connects.
#[derive(Clone, Copy, Debug, PartialEq, Eq, Structural)]
pub enum Port {
    Uplink,
    Tap,
}

/// One step of the set-up.
#[derive(Clone, Copy, Debug, PartialEq, Eq, Structural)]
pub enum BridgeStep {
    /// Delete the route that stands at this position among the routes of the host.
    DeleteRoute(usize),
    /// Delete the address that stands at this position among the addresses of the uplink.
    DeleteAddress(usize),
    /// Make the interface part of the bridge.
    Attach { port: Port, index: u32, controller: u32 },
    /// Bring the interface up, which either was just attached or was part of the bridge before.
    BringUp { port: Port, index: u32, just_attached: bool },
    /// Give the bridge an address.
    AddAddress { index: u32, address: u32, prefix_len: u8 },
    /// Add a route through the bridge.
    AddRoute(RouteRequest),
}

/// The steps to make an interface part of the bridge. There are none where it is part of another
/// one.
pub open spec fn attach_steps(port: Port, link: Link, bridge_index: u32) -> Seq<BridgeStep> {
    match link.controller() {
        None => seq![
            BridgeStep::Attach { port, index: link.index, controller: bridge_index },
            BridgeStep::BringUp { port, index: link.index, just_attached: true },
        ],
        Some(controller) => if controller == bridge_index {
            seq![BridgeStep::BringUp { port, index: link.index, just_attached: false }]
        } else {
            Seq::empty()
        },
    }
}

/// The other bridge of which the interface is part.
pub open spec fn conflict_of(link: Link, bridge_index: u32) -> Option<u32> {
    match link.controller() {
        Some(controller) if controller != bridge_index => Some(controller),
        _ => None,
    }
}

/// The steps to make an interface part of the bridge, or the other bridge of which it is part.
pub fn attach_link_to_bridge(port: Port, link: &Link, bridge_index: u32) -> (r: (
    Vec<BridgeStep>,
    Option<u32>,
))
    ensures
        r.0@ == attach_steps(port, *link, bridge_index),
        r.1 == conflict_of(*link, bridge_index),
{
    match current_controller_index(link) {
        None => (
            vec![
                BridgeStep::Attach { port, index: link.index, controller: bridge_index },
                BridgeStep::BringUp { port, index: link.index, just_attached: true },
            ],
            None,
        ),
        Some(controller) => if controller == bridge_index {
            (
                vec![BridgeStep::BringUp { port, index: link.index, just_attached: false }],
                None,
            )
        } else {
            (Vec::new(), Some(controller))
        },
    }
}

/// The step that deletes a route.
pub open spec fn deletion_of_route(route: DefaultRoute) -> BridgeStep {
    BridgeStep::DeleteRoute(route.position)
}

/// The step that deletes an address.
pub open spec fn deletion_of_address(address: SavedIpv4Address) -> BridgeStep {
    BridgeStep::DeleteAddress(address.position)
}

/// The step that gives an address to an interface.
pub open spec fn addition_of_address(address: SavedIpv4Address, index: u32) -> BridgeStep {
    BridgeStep::AddAddress { index, address: address.address, prefix_len: address.prefix_len }
}

/// The step that adds a route through an interface.
pub open spec fn addition_of_route(route: DefaultRoute, index: u32) -> BridgeStep {
    BridgeStep::AddRoute(rerouted(route, index))
}

/// Everything that the set-up looks at.
#[derive(Debug)]
pub struct BridgeSituation {
    pub uplink: Link,
    pub tap: Link,
    pub bridge_index: u32,
    /// The IPv4 addresses of the uplink.
    pub addresses: Vec<SavedIpv4Address>,
    /// The default IPv4 routes through the uplink.
    pub routes: Vec<DefaultRoute>,
}

impl BridgeSituation {
    /// The steps that take the routes and the addresses away from the uplink.
    pub open spec fn deletions(self) -> Seq<BridgeStep> {
        self.routes@.map_values(|route: DefaultRoute| deletion_of_route(route))
            + self.addresses@.map_values(|address: SavedIpv4Address| deletion_of_address(address))
    }

    /// The steps that give the addresses and the routes to the bridge.
    pub open spec fn additions(self) -> Seq<BridgeStep> {
        self.addresses@.map_values(
            |address: SavedIpv4Address| addition_of_address(address, self.bridge_index),
        ) + self.routes@.map_values(
            |route: DefaultRoute| addition_of_route(route, self.bridge_index),
        )
    }

    /// The interface that is part of another bridge, the uplink before the TAP device, and that
    /// bridge.
    pub open spec fn conflict(self) -> Option<(Port, u32)> {
        match conflict_of(self.uplink, self.bridge_index) {
            Some(controller) => Some((Port::Uplink, controller)),
            None => match conflict_of(self.tap, self.bridge_index) {
                Some(controller) => Some((Port::Tap, controller)),
                None => None,
            },
        }
    }

    /// The steps of the set-up. Where an interface is part of another bridge they end there.
    pub open spec fn steps(self) -> Seq<BridgeStep> {
        let uplink = attach_steps(Port::Uplink, self.uplink, self.bridge_index);
        let tap = attach_steps(Port::Tap, self.tap, self.bridge_index);
        match self.conflict() {
            Some((Port::Uplink, _)) => self.deletions(),
            Some((Port::Tap, _)) => self.deletions() + uplink,
            None => self.deletions() + uplink + tap + self.additions(),
        }
    }
}

/// The steps of the set-up, and the conflict in which they end, if they do.
#[derive(Debug)]
pub struct BridgePlan {
    pub steps: Vec<BridgeStep>,
    pub conflict: Option<(Port, u32)>,
}

fn deletion_steps(situation: &BridgeSituation) -> (r: Vec<BridgeStep>)
    ensures
        r@ == situation.deletions(),
{
    let mut steps: Vec<BridgeStep> = Vec::new();
    let mut i: usize = 0;
    while i < situation.routes.len()
        invariant
            i <= situation.routes@.len(),
            steps@ == situation.deletions().take(i as int),
        decreases situation.routes.len() - i,
    {
        steps.push(BridgeStep::DeleteRoute(situation.routes[i].position));
        i = i + 1;
    }
    let mut j: usize = 0;
    while j < situation.addresses.len()
        invariant
            j <= situation.addresses@.len(),
            steps@ == situation.deletions().take(situation.routes@.len() + j),
        decreases situation.addresses.len() - j,
    {
        steps.push(BridgeStep::DeleteAddress(situation.addresses[j].position));
        j = j + 1;
    }
    steps
}

fn addition_steps(situation: &BridgeSituation) -> (r: Vec<BridgeStep>)
    ensures
        r@ == situation.additions(),
{
    let mut steps: Vec<BridgeStep> = Vec::new();
    let mut i: usize = 0;
    while i < situation.addresses.len()
        invariant
            i <= situation.addresses@.len(),
            steps@ == situation.additions().take(i as int),
        decreases situation.addresses.len() - i,
    {
        let address = situation.addresses[i];
        steps.push(
            BridgeStep::AddAddress {
                index: situation.bridge_index,
                address: address.address,
                prefix_len: address.prefix_len,
            },
        );
        i = i + 1;
    }
    let mut j: usize = 0;
    while j < situation.routes.len()
        invariant
            j <= situation.routes@.len(),
            steps@ == situation.additions().take(situation.addresses@.len() + j),
        decreases situation.routes.len() - j,
    {
        let request = default_route_message(&situation.routes[j], situation.bridge_index);
        steps.push(BridgeStep::AddRoute(request));
        j = j + 1;
    }
    steps
}

/// The steps that set up the bridge.
pub fn configure_bridge_mode(situation: &BridgeSituation) -> (r: BridgePlan)
    ensures
        r.steps@ == situation.steps(),
        r.conflict == situation.conflict(),
{
    let mut steps = deletion_steps(situation);
    let (mut uplink_steps, uplink_conflict) = attach_link_to_bridge(
        Port::Uplink,
        &situation.uplink,
        situation.bridge_index,
    );
    if let Some(controller) = uplink_conflict {
        return BridgePlan { steps, conflict: Some((Port::Uplink, controller)) };
    }
    steps.append(&mut uplink_steps);
    let (mut tap_steps, tap_conflict) = attach_link_to_bridge(
        Port::Tap,
        &situation.tap,
        situation.bridge_index,
    );
    if let Some(controller) = tap_conflict {
        return BridgePlan { steps, conflict: Some((Port::Tap, controller)) };
    }
    steps.append(&mut tap_steps);
    let mut additions = addition_steps(situation);
    steps.append(&mut additions);
    BridgePlan { steps, conflict: None }
}

/// The names of the interfaces that take part.
#[derive(Debug)]
pub struct BridgeNames {
    pub uplink: String,
    pub tap: String,
    pub bridge: String,
}

impl BridgeNames {
    /// The name of an interface.
    pub open spec fn port(self, port: Port) -> Seq<char> {
        match port {
            Port::Uplink => self.uplink@,
            Port::Tap => self.tap@,
        }
    }

    /// The name of an interface.
    pub fn port_name(&self, port: Port) -> (r: &str)
        ensures
            r@ == self.port(port),
    {
        match port {
            Port::Uplink => self.uplink.as_str(),
            Port::Tap => self.tap.as_str(),
        }
    }
}

impl BridgePlan {
    /// The error in which the plan ends, if an interface is part of another bridge.
    pub fn conflict_error(&self, names: &BridgeNames) -> (r: Option<NetworkError>)
        ensures
            r is Some <==> self.conflict is Some,
            r matches Some(error) ==> {
                &&& error matches NetworkError::AttachedElsewhere { name, controller, bridge }
                &&& self.conflict matches Some((port, other))
                &&& name@ == names.port(port)
                &&& controller == other
                &&& bridge@ == names.bridge@
            },
    {
        match self.conflict {
            Some((port, controller)) => {
                let name = names.port_name(port).to_owned();
                let bridge = names.bridge.clone();
                Some(NetworkError::AttachedElsewhere { name, controller, bridge })
            },
            None => None,
        }
    }
}

impl BridgeStep {
    /// What to say when the step fails.
    pub open spec fn failure(self, names: BridgeNames) -> Seq<char> {
        match self {
            BridgeStep::DeleteRoute(_) => "failed to delete default route from "@ + names.uplink@,
            BridgeStep::DeleteAddress(_) => "failed to delete IPv4 address from "@ + names.uplink@,
            BridgeStep::Attach { port, .. } => "failed to attach "@ + names.port(port)
                + " to bridge "@ + names.bridge@,
            BridgeStep::BringUp { port, just_attached, .. } => if just_attached {
                "failed to bring "@ + names.port(port) + " up after attaching it to bridge "@
                    + names.bridge@
            } else {
                "failed to bring "@ + names.port(port) + " up"@
            },
            BridgeStep::AddAddress { .. } => "failed to assign IPv4 address to "@ + names.bridge@,
            BridgeStep::AddRoute(_) => "failed to add default route to "@ + names.bridge@,
        }
    }

    /// What to say when the step fails.
    pub fn failure_text(&self, names: &BridgeNames) -> (r: String)
        ensures
            r@ == self.failure(*names),
    {
        match *self {
            BridgeStep::DeleteRoute(_) => prefixed(
                "failed to delete default route from ",
                names.uplink.as_str(),
            ),
            BridgeStep::DeleteAddress(_) => prefixed(
                "failed to delete IPv4 address from ",
                names.uplink.as_str(),
            ),
            BridgeStep::Attach { port, .. } => {
                let mut output = enclosed("failed to attach ", names.port_name(port), " to bridge ");
                output.append(names.bridge.as_str());
                output
            },
            BridgeStep::BringUp { port, just_attached, .. } => if just_attached {
                let mut output = enclosed(
                    "failed to bring ",
                    names.port_name(port),
                    " up after attaching it to bridge ",
                );
                output.append(names.bridge.as_str());
                output
            } else {
                enclosed("failed to bring ", names.port_name(port), " up")
            },
            BridgeStep::AddAddress { .. } => prefixed(
                "failed to assign IPv4 address to ",
                names.bridge.as_str(),
            ),
            BridgeStep::AddRoute(_) => prefixed(
                "failed to add default route to ",
                names.bridge.as_str(),
            ),
        }
    }
}

/// How far the relay has come in seeing to it that there is a bridge.
#[derive(Clone, Copy, Debug, PartialEq, Eq, Structural)]
pub enum EnsureState {
    /// It looks whether there is one.
    Probing,
    /// It makes one.
    Creating,
    /// It looks at the one that there is now.
    Reading,
    /// It gives the bridge the hardware address of the uplink.
    SettingAddress { index: u32 },
    /// It brings the bridge up.
    BringingUp,
    /// It looks at the bridge once more.
    Confirming,
}

/// What the relay does next to see to it that there is a bridge.
#[derive(Clone, Copy, Debug, PartialEq, Eq, Structural)]
pub enum EnsureAction {
    /// Look for an interface with the name of the bridge.
    Find,
    /// Create the bridge.
    Create,
    /// Give the interface the hardware address of the uplink.
    SetAddress { index: u32 },
    /// Bring the interface up.
    BringUp { index: u32 },
}

impl EnsureAction {
    /// What to say when the action fails.
    pub open spec fn failure(self, bridge: Seq<char>) -> Seq<char> {
        match self {
            EnsureAction::Find => "failed to query interface "@ + bridge,
            EnsureAction::Create => "failed to create bridge "@ + bridge,
            EnsureAction::SetAddress { .. } => "failed to set bridge MAC address for "@ + bridge,
            EnsureAction::BringUp { .. } => "failed to bring bridge "@ + bridge + " up"@,
        }
    }

    /// What to say when the action fails.
    pub fn failure_text(&self, bridge: &str) -> (r: String)
        ensures
            r@ == self.failure(bridge@),
    {
        match *self {
            EnsureAction::Find => prefixed("failed to query interface ", bridge),
            EnsureAction::Create => prefixed("failed to create bridge ", bridge),
            EnsureAction::SetAddress { .. } => prefixed(
                "failed to set bridge MAC address for ",
                bridge,
            ),
            EnsureAction::BringUp { .. } => enclosed("failed to bring bridge ", bridge, " up"),
        }
    }
}

/// What came of an action.
pub enum EnsureEvent {
    /// The interface that was looked for, if there is one.
    Found(Option<Link>),
    /// What was to be done is done.
    Done,
}

/// How it goes on.
pub enum EnsureNext {
    /// With another action.
    Perform(EnsureState, EnsureAction),
    /// There is a bridge, and it is up.
    Finished(Link),
    /// There is no bridge where there should be one.
    Missing,
}

impl EnsureState {
    /// Whether the event can come in this state.
    pub open spec fn expects(self, event: EnsureEvent) -> bool {
        match self {
            EnsureState::Probing => event is Found,
            EnsureState::Creating => event is Done,
            EnsureState::Reading => event is Found,
            EnsureState::SettingAddress { .. } => event is Done,
            EnsureState::BringingUp => event is Done,
            EnsureState::Confirming => event is Found,
        }
    }

    /// How it goes on in this state after the event.
    pub open spec fn after(self, event: EnsureEvent, uplink_mac: Option<Seq<u8>>) -> EnsureNext {
        match (self, event) {
            (EnsureState::Probing, EnsureEvent::Found(None)) => EnsureNext::Perform(
                EnsureState::Creating,
                EnsureAction::Create,
            ),
            (EnsureState::Reading, EnsureEvent::Found(Some(link))) => if uplink_mac is Some
                && link.mac() != uplink_mac {
                EnsureNext::Perform(
                    EnsureState::SettingAddress { index: link.index },
                    EnsureAction::SetAddress { index: link.index },
                )
            } else {
                EnsureNext::Perform(
                    EnsureState::BringingUp,
                    EnsureAction::BringUp { index: link.index },
                )
            },
            (EnsureState::SettingAddress { index }, _) => EnsureNext::Perform(
                EnsureState::BringingUp,
                EnsureAction::BringUp { index },
            ),
            (EnsureState::BringingUp, _) => EnsureNext::Perform(
                EnsureState::Confirming,
                EnsureAction::Find,
            ),
            (EnsureState::Confirming, EnsureEvent::Found(Some(link))) => EnsureNext::Finished(link),
            (EnsureState::Reading, _) => EnsureNext::Missing,
            (EnsureState::Confirming, _) => EnsureNext::Missing,
            (EnsureState::Probing, _) => EnsureNext::Perform(
                EnsureState::Reading,
                EnsureAction::Find,
            ),
            (EnsureState::Creating, _) => EnsureNext::Perform(
                EnsureState::Reading,
                EnsureAction::Find,
            ),
        }
    }

    /// How many states lie behind this one at most.
    pub open spec fn rank(self) -> nat {
        match self {
            EnsureState::Probing => 0,
            EnsureState::Creating => 1,
            EnsureState::Reading => 2,
            EnsureState::SettingAddress { .. } => 3,
            EnsureState::BringingUp => 4,
            EnsureState::Confirming => 5,
        }
    }
}

/// How the relay begins to see to it that there is a bridge.
pub fn start_ensuring_bridge() -> (r: (EnsureState, EnsureAction))
    ensures
        r == (EnsureState::Probing, EnsureAction::Find),
{
    (EnsureState::Probing, EnsureAction::Find)
}

/// Whether the bridge has another hardware address than the uplink.
fn address_differs(uplink_mac: &Option<Vec<u8>>, bridge: &Link) -> (r: bool)
    ensures
        r == (uplink_mac is Some && bridge.mac() != bytes_of(*uplink_mac)),
{
    match uplink_mac {
        None => false,
        Some(wanted) => match link_mac(bridge) {
            None => true,
            Some(own) => !same_bytes(wanted, &own),
        },
    }
}

fn same_bytes(a: &Vec<u8>, b: &Vec<u8>) -> (r: bool)
    ensures
        r == (a@ == b@),
{
    if a.len() != b.len() {
        return false;
    }
    let mut i: usize = 0;
    while i < a.len()
        invariant
            i <= a.len(),
            a@.len() == b@.len(),
            forall|j: int| 0 <= j < i ==> a@[j] == b@[j],
        decreases a.len() - i,
    {
        if a[i] != b[i] {
            return false;
        }
        i = i + 1;
    }
    assert(a@ =~= b@);
    true
}

/// What the relay does next to see to it that there is a bridge with the hardware address of the
/// uplink.
pub fn ensure_bridge(state: EnsureState, event: EnsureEvent, uplink_mac: &Option<Vec<u8>>) -> (r:
    EnsureNext)
    requires
        state.expects(event),
    ensures
        r == state.after(event, bytes_of(*uplink_mac)),
{
    match state {
        EnsureState::Probing => match event {
            EnsureEvent::Found(None) => EnsureNext::Perform(
                EnsureState::Creating,
                EnsureAction::Create,
            ),
            _ => EnsureNext::Perform(EnsureState::Reading, EnsureAction::Find),
        },
        EnsureState::Creating => EnsureNext::Perform(EnsureState::Reading, EnsureAction::Find),
        EnsureState::Reading => match event {
            EnsureEvent::Found(Some(link)) => {
                let index: u32 = link.index;
                if address_differs(uplink_mac, &link) {
                    EnsureNext::Perform(
                        EnsureState::SettingAddress { index },
                        EnsureAction::SetAddress { index },
                    )
                } else {
                    EnsureNext::Perform(EnsureState::BringingUp, EnsureAction::BringUp { index })
                }
            },
            _ => EnsureNext::Missing,
        },
        EnsureState::SettingAddress { index } => EnsureNext::Perform(
            EnsureState::BringingUp,
            EnsureAction::BringUp { index },
        ),
        EnsureState::BringingUp => EnsureNext::Perform(EnsureState::Confirming, EnsureAction::Find),
        EnsureState::Confirming => match event {
            EnsureEvent::Found(Some(link)) => EnsureNext::Finished(link),
            _ => EnsureNext::Missing,
        },
    }
}

/// Every action leads further on, so there is an end to it.
pub proof fn ensuring_a_bridge_comes_to_an_end(
    state: EnsureState,
    event: EnsureEvent,
    uplink_mac: Option<Seq<u8>>,
)
    requires
        state.expects(event),
    ensures
        state.after(event, uplink_mac) matches EnsureNext::Perform(next, _) ==> state.rank()
            < next.rank() <= 5,
{
}

/// A bridge is created only where there is none, and it is brought up before the relay is content
/// with it.
pub proof fn a_bridge_is_reused_and_brought_up(
    state: EnsureState,
    event: EnsureEvent,
    uplink_mac: Option<Seq<u8>>,
)
    requires
        state.expects(event),
    ensures
        state.after(event, uplink_mac) matches EnsureNext::Perform(_, EnsureAction::Create) ==> event
            == EnsureEvent::Found(None::<Link>),
        state.after(event, uplink_mac) is Finished ==> state == EnsureState::Confirming,
        state.after(event, uplink_mac) matches EnsureNext::Perform(EnsureState::Confirming, _)
            ==> state == EnsureState::BringingUp,
{
}

/// Where no interface is part of another bridge, each address and each default route is taken from
/// the uplink and given to the bridge, each interface ends up in the bridge, and nothing is given
/// to the bridge before everything was taken.
#[verifier::spinoff_prover]
#[verifier::rlimit(40)]
pub proof fn addresses_and_routes_move_to_the_bridge(situation: BridgeSituation)
    requires
        situation.conflict() is None,
    ensures
        forall|i: int|
            0 <= i < situation.addresses@.len() ==> {
                let address = #[trigger] situation.addresses@[i];
                &&& situation.steps().contains(deletion_of_address(address))
                &&& situation.steps().contains(addition_of_address(address, situation.bridge_index))
            },
        forall|i: int|
            0 <= i < situation.routes@.len() ==> {
                let route = #[trigger] situation.routes@[i];
                &&& situation.steps().contains(deletion_of_route(route))
                &&& situation.steps().contains(addition_of_route(route, situation.bridge_index))
            },
        situation.uplink.controller() == Some(situation.bridge_index) || situation.steps().contains(
            BridgeStep::Attach {
                port: Port::Uplink,
                index: situation.uplink.index,
                controller: situation.bridge_index,
            },
        ),
        situation.tap.controller() == Some(situation.bridge_index) || situation.steps().contains(
            BridgeStep::Attach {
                port: Port::Tap,
                index: situation.tap.index,
                controller: situation.bridge_index,
            },
        ),
        forall|i: int, j: int|
            0 <= i < situation.steps().len() && 0 <= j < situation.steps().len() && is_deletion(
                #[trigger] situation.steps()[i],
            ) && is_addition(#[trigger] situation.steps()[j]) ==> i < j,
{
    let steps = situation.steps();
    let deletions = situation.deletions();
    let uplink = attach_steps(Port::Uplink, situation.uplink, situation.bridge_index);
    let tap = attach_steps(Port::Tap, situation.tap, situation.bridge_index);
    let additions = situation.additions();
    let before = deletions.len() + uplink.len() + tap.len();
    let n = situation.addresses@.len();
    let m = situation.routes@.len();
    assert forall|i: int| 0 <= i < n implies {
        let address = #[trigger] situation.addresses@[i];
        &&& steps.contains(deletion_of_address(address))
        &&& steps.contains(addition_of_address(address, situation.bridge_index))
    } by {
        assert(steps[m + i] == deletion_of_address(situation.addresses@[i]));
        assert(steps[before + i] == additions[i]);
    }
    assert forall|i: int| 0 <= i < m implies {
        let route = #[trigger] situation.routes@[i];
        &&& steps.contains(deletion_of_route(route))
        &&& steps.contains(addition_of_route(route, situation.bridge_index))
    } by {
        assert(steps[i] == deletion_of_route(situation.routes@[i]));
        assert(steps[before + n + i] == additions[n + i]);
    }
    if situation.uplink.controller() is None {
        assert(steps[deletions.len() as int] == uplink[0]);
    }
    if situation.tap.controller() is None {
        assert(steps[(deletions.len() + uplink.len()) as int] == tap[0]);
    }
}

/// Whether the step takes something from the uplink.
pub open spec fn is_deletion(step: BridgeStep) -> bool {
    step is DeleteRoute || step is DeleteAddress
}

/// Whether the step gives something to the bridge.
pub open spec fn is_addition(step: BridgeStep) -> bool {
    step is AddRoute || step is AddAddress
}

/// An interface that belongs to no bridge is attached to this one and brought up; one that belongs
/// to it is only brought up; and for one that belongs to another nothing is done but to say so.
pub proof fn attaching_depends_on_the_bridge_of_the_interface(
    port: Port,
    link: Link,
    bridge_index: u32,
    other: u32,
)
    ensures
        link.controller() is None ==> attach_steps(port, link, bridge_index) == seq![
            BridgeStep::Attach { port, index: link.index, controller: bridge_index },
            BridgeStep::BringUp { port, index: link.index, just_attached: true },
        ] && conflict_of(link, bridge_index) is None,
        link.controller() == Some(bridge_index) ==> attach_steps(port, link, bridge_index) == seq![
            BridgeStep::BringUp { port, index: link.index, just_attached: false },
        ] && conflict_of(link, bridge_index) is None,
        link.controller() == Some(other) && other != bridge_index ==> attach_steps(
            port,
            link,
            bridge_index,
        ).len() == 0 && conflict_of(link, bridge_index) == Some(other),
{
}

/// What the steps begin with, whatever becomes of the rest: every default route and then every
/// address is taken from the uplink, each once and in order. Where the uplink is part of another
/// bridge nothing follows, and where the TAP device is, only the attachment of the uplink.
pub proof fn the_uplink_is_stripped_first(situation: BridgeSituation, i: int)
    ensures
        ({
            let steps = situation.steps();
            let routes = situation.routes@;
            let addresses = situation.addresses@;
            let uplink_elsewhere = situation.uplink.controller() matches Some(c) && c
                != situation.bridge_index;
            let tap_elsewhere = situation.tap.controller() matches Some(c) && c
                != situation.bridge_index;
            let uplink = attach_steps(Port::Uplink, situation.uplink, situation.bridge_index);
            &&& steps.len() >= routes.len() + addresses.len()
            &&& 0 <= i < routes.len() ==> steps[i] == BridgeStep::DeleteRoute(routes[i].position)
            &&& 0 <= i < addresses.len() ==> steps[routes.len() + i] == BridgeStep::DeleteAddress(
                addresses[i].position,
            )
            &&& uplink_elsewhere ==> steps.len() == routes.len() + addresses.len()
            &&& uplink_elsewhere ==> situation.conflict() == Some(
                (Port::Uplink, situation.uplink.controller()->0),
            )
            &&& !uplink_elsewhere && tap_elsewhere ==> steps.skip(
                (routes.len() + addresses.len()) as int,
            ) == uplink
            &&& !uplink_elsewhere && tap_elsewhere ==> situation.conflict() == Some(
                (Port::Tap, situation.tap.controller()->0),
            )
            &&& !uplink_elsewhere && !tap_elsewhere ==> situation.conflict() is None
        }),
{
    let steps = situation.steps();
    let n = (situation.routes@.len() + situation.addresses@.len()) as int;
    let uplink = attach_steps(Port::Uplink, situation.uplink, situation.bridge_index);
    if situation.conflict() matches Some((Port::Tap, _)) {
        assert(steps.skip(n) =~= uplink);
    }
}

/// Where no interface is part of another bridge, the steps go on with the attachment of the uplink
/// and of the TAP device, and end with every address and then every default route, each given to
/// the bridge once and in order, with nothing changed but the interface.
pub proof fn the_bridge_gets_what_the_uplink_had(situation: BridgeSituation, i: int)
    requires
        situation.uplink.controller() is None || situation.uplink.controller() == Some(
            situation.bridge_index,
        ),
        situation.tap.controller() is None || situation.tap.controller() == Some(
            situation.bridge_index,
        ),
    ensures
        ({
            let steps = situation.steps();
            let routes = situation.routes@;
            let addresses = situation.addresses@;
            let uplink = attach_steps(Port::Uplink, situation.uplink, situation.bridge_index);
            let tap = attach_steps(Port::Tap, situation.tap, situation.bridge_index);
            let moved = routes.len() + addresses.len();
            let attached = moved + uplink.len() + tap.len();
            &&& steps.len() == attached + moved
            &&& steps.subrange(moved as int, attached as int) == uplink + tap
            &&& 0 <= i < addresses.len() ==> steps[attached + i] == (BridgeStep::AddAddress {
                index: situation.bridge_index,
                address: addresses[i].address,
                prefix_len: addresses[i].prefix_len,
            })
            &&& 0 <= i < routes.len() ==> steps[attached + addresses.len() + i]
                == BridgeStep::AddRoute(
                RouteRequest {
                    output_interface: situation.bridge_index,
                    table: routes[i].table,
                    protocol: routes[i].protocol,
                    scope: routes[i].scope,
                    kind: routes[i].kind,
                    onlink: routes[i].onlink,
                    gateway: routes[i].gateway,
                    metric: routes[i].metric,
                },
            )
        }),
{
    let steps = situation.steps();
    let uplink = attach_steps(Port::Uplink, situation.uplink, situation.bridge_index);
    let tap = attach_steps(Port::Tap, situation.tap, situation.bridge_index);
    let moved = (situation.routes@.len() + situation.addresses@.len()) as int;
    let attached = moved + uplink.len() + tap.len();
    assert(situation.conflict() is None);
    assert(steps.subrange(moved, attached) =~= uplink + tap);
}

/// Where the uplink has a hardware address, a bridge that was looked at is brought up only if its
/// own address is that of the uplink, byte for byte; otherwise it is given the address first, and
/// then it is brought up. Where the uplink has none, the bridge keeps its own.
pub proof fn the_bridge_takes_the_address_of_the_uplink(
    link: Link,
    wanted: Seq<u8>,
    uplink_mac: Option<Seq<u8>>,
)
    ensures
        ({
            let next = EnsureState::Reading.after(
                EnsureEvent::Found(Some(link)),
                Some(wanted),
            );
            let same = link.mac() matches Some(own) && own.len() == wanted.len() && forall|k: int|
                0 <= k < wanted.len() ==> own[k] == #[trigger] wanted[k];
            &&& !same ==> next == EnsureNext::Perform(
                EnsureState::SettingAddress { index: link.index },
                EnsureAction::SetAddress { index: link.index },
            )
            &&& same ==> next == EnsureNext::Perform(
                EnsureState::BringingUp,
                EnsureAction::BringUp { index: link.index },
            )
        }),
        EnsureState::Reading.after(EnsureEvent::Found(Some(link)), None) == EnsureNext::Perform(
            EnsureState::BringingUp,
            EnsureAction::BringUp { index: link.index },
        ),
        (EnsureState::SettingAddress { index: link.index }).after(EnsureEvent::Done, uplink_mac)
            == EnsureNext::Perform(
            EnsureState::BringingUp,
            EnsureAction::BringUp { index: link.index },
        ),
{
    if let Some(own) = link.mac() {
        if own.len() == wanted.len() && forall|k: int|
            0 <= k < wanted.len() ==> own[k] == #[trigger] wanted[k] {
            assert(own =~= wanted);
        }
    }
}

/// A bridge is created only where a first look found none. After the creation, and where one was
/// found, it is looked at; after it was brought up it is looked at once more, and that look gives
/// the bridge, or says that it is missing.
pub proof fn the_bridge_is_looked_for_created_and_confirmed(
    link: Link,
    uplink_mac: Option<Seq<u8>>,
)
    ensures
        EnsureState::Probing.after(EnsureEvent::Found(None), uplink_mac) == EnsureNext::Perform(
            EnsureState::Creating,
            EnsureAction::Create,
        ),
        EnsureState::Probing.after(EnsureEvent::Found(Some(link)), uplink_mac)
            == EnsureNext::Perform(EnsureState::Reading, EnsureAction::Find),
        EnsureState::Creating.after(EnsureEvent::Done, uplink_mac) == EnsureNext::Perform(
            EnsureState::Reading,
            EnsureAction::Find,
        ),
        EnsureState::Reading.after(EnsureEvent::Found(None), uplink_mac) is Missing,
        EnsureState::BringingUp.after(EnsureEvent::Done, uplink_mac) == EnsureNext::Perform(
            EnsureState::Confirming,
            EnsureAction::Find,
        ),
        EnsureState::Confirming.after(EnsureEvent::Found(Some(link)), uplink_mac)
            == EnsureNext::Finished(link),
        EnsureState::Confirming.after(EnsureEvent::Found(None), uplink_mac) is Missing,
{
}

/// A look is answered by what was found, and any other action by its being done.
pub proof fn every_answer_is_expected(found: Option<Link>, index: u32)
    ensures
        EnsureState::Probing.expects(EnsureEvent::Found(found)),
        EnsureState::Reading.expects(EnsureEvent::Found(found)),
        EnsureState::Confirming.expects(EnsureEvent::Found(found)),
        EnsureState::Creating.expects(EnsureEvent::Done),
        (EnsureState::SettingAddress { index }).expects(EnsureEvent::Done),
        EnsureState::BringingUp.expects(EnsureEvent::Done),
{
}

/// What is said of a step or an action that failed names the interface that it was about.
pub proof fn failures_name_the_interface(
    names: BridgeNames,
    index: u32,
    n: usize,
    address: u32,
    prefix_len: u8,
    request: RouteRequest,
    bridge: Seq<char>,
)
    ensures
        names.port(Port::Uplink) == names.uplink@,
        names.port(Port::Tap) == names.tap@,
        BridgeStep::DeleteRoute(n).failure(names) == "failed to delete default route from "@
            + names.uplink@,
        BridgeStep::DeleteAddress(n).failure(names) == "failed to delete IPv4 address from "@
            + names.uplink@,
        (BridgeStep::Attach { port: Port::Uplink, index, controller: address }).failure(names)
            == "failed to attach "@ + names.uplink@ + " to bridge "@ + names.bridge@,
        (BridgeStep::Attach { port: Port::Tap, index, controller: address }).failure(names)
            == "failed to attach "@ + names.tap@ + " to bridge "@ + names.bridge@,
        (BridgeStep::BringUp { port: Port::Uplink, index, just_attached: true }).failure(names)
            == "failed to bring "@ + names.uplink@ + " up after attaching it to bridge "@
            + names.bridge@,
        (BridgeStep::BringUp { port: Port::Tap, index, just_attached: true }).failure(names)
            == "failed to bring "@ + names.tap@ + " up after attaching it to bridge "@
            + names.bridge@,
        (BridgeStep::BringUp { port: Port::Uplink, index, just_attached: false }).failure(names)
            == "failed to bring "@ + names.uplink@ + " up"@,
        (BridgeStep::BringUp { port: Port::Tap, index, just_attached: false }).failure(names)
            == "failed to bring "@ + names.tap@ + " up"@,
        (BridgeStep::AddAddress { index, address, prefix_len }).failure(names)
            == "failed to assign IPv4 address to "@ + names.bridge@,
        BridgeStep::AddRoute(request).failure(names) == "failed to add default route to "@
            + names.bridge@,
        EnsureAction::Find.failure(bridge) == "failed to query interface "@ + bridge,
        EnsureAction::Create.failure(bridge) == "failed to create bridge "@ + bridge,
        (EnsureAction::SetAddress { index }).failure(bridge)
            == "failed to set bridge MAC address for "@ + bridge,
        (EnsureAction::BringUp { index }).failure(bridge) == "failed to bring bridge "@ + bridge
            + " up"@,
{
}

} // verus!
