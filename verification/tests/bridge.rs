use websockproxy_relay::network::bridge::{
    attach_link_to_bridge, configure_bridge_mode, ensure_bridge, start_ensuring_bridge,
    BridgeNames, BridgeSituation, BridgeStep, EnsureAction, EnsureEvent, EnsureNext, EnsureState,
    Port,
};
use websockproxy_relay::network::link::{Link, LinkAttribute};
use websockproxy_relay::network::route::{DefaultRoute, RouteRequest, SavedIpv4Address};

const MAC: [u8; 6] = [2, 0, 0, 0, 0, 1];

fn link(index: u32, controller: u32) -> Link {
    Link { index, attributes: vec![LinkAttribute::Controller(controller)] }
}

fn with_mac(index: u32, mac: &[u8]) -> Link {
    Link { index, attributes: vec![LinkAttribute::Address(mac.to_vec())] }
}

fn names() -> BridgeNames {
    BridgeNames {
        uplink: "eth0".to_string(),
        tap: "tap0".to_string(),
        bridge: "br0".to_string(),
    }
}

fn situation(uplink: Link, tap: Link) -> BridgeSituation {
    BridgeSituation {
        uplink,
        tap,
        bridge_index: 8,
        addresses: vec![
            SavedIpv4Address { position: 0, address: 0x0a00_0005, prefix_len: 24 },
            SavedIpv4Address { position: 2, address: 0x0a00_0006, prefix_len: 32 },
        ],
        routes: vec![DefaultRoute {
            position: 5,
            table: 254,
            protocol: 3,
            scope: 0,
            kind: 1,
            onlink: true,
            gateway: Some(0x0a00_0001),
            metric: Some(100),
        }],
    }
}

fn perform(next: EnsureNext) -> (EnsureState, EnsureAction) {
    match next {
        EnsureNext::Perform(state, action) => (state, action),
        EnsureNext::Finished(_) => panic!("finished"),
        EnsureNext::Missing => panic!("missing"),
    }
}

#[test]
fn addresses_and_routes_move_to_the_new_bridge() {
    let plan = configure_bridge_mode(&situation(link(2, 0), link(3, 0)));

    assert_eq!(plan.conflict, None);
    assert_eq!(
        plan.steps,
        vec![
            BridgeStep::DeleteRoute(5),
            BridgeStep::DeleteAddress(0),
            BridgeStep::DeleteAddress(2),
            BridgeStep::Attach { port: Port::Uplink, index: 2, controller: 8 },
            BridgeStep::BringUp { port: Port::Uplink, index: 2, just_attached: true },
            BridgeStep::Attach { port: Port::Tap, index: 3, controller: 8 },
            BridgeStep::BringUp { port: Port::Tap, index: 3, just_attached: true },
            BridgeStep::AddAddress { index: 8, address: 0x0a00_0005, prefix_len: 24 },
            BridgeStep::AddAddress { index: 8, address: 0x0a00_0006, prefix_len: 32 },
            BridgeStep::AddRoute(RouteRequest {
                output_interface: 8,
                table: 254,
                protocol: 3,
                scope: 0,
                kind: 1,
                onlink: true,
                gateway: Some(0x0a00_0001),
                metric: Some(100),
            }),
        ]
    );
    assert!(plan.conflict_error(&names()).is_none());
}

#[test]
fn an_attached_interface_is_only_brought_up() {
    let plan = configure_bridge_mode(&situation(link(2, 8), link(3, 8)));

    assert_eq!(
        plan.steps[3..5],
        [
            BridgeStep::BringUp { port: Port::Uplink, index: 2, just_attached: false },
            BridgeStep::BringUp { port: Port::Tap, index: 3, just_attached: false },
        ]
    );
    assert_eq!(plan.steps.len(), 8);
}

#[test]
fn an_interface_of_another_bridge_ends_the_plan() {
    let plan = configure_bridge_mode(&situation(link(2, 7), link(3, 9)));
    assert_eq!(plan.steps.len(), 3);
    assert_eq!(plan.conflict, Some((Port::Uplink, 7)));
    assert_eq!(
        plan.conflict_error(&names()).expect("conflict").message(),
        "eth0 is already attached to controller index 7, expected bridge br0"
    );

    let plan = configure_bridge_mode(&situation(link(2, 0), link(3, 9)));
    assert_eq!(plan.steps.len(), 5);
    assert_eq!(
        plan.conflict_error(&names()).expect("conflict").message(),
        "tap0 is already attached to controller index 9, expected bridge br0"
    );
}

#[test]
fn attaching_reports_the_other_bridge() {
    let (steps, conflict) = attach_link_to_bridge(Port::Tap, &link(3, 4), 8);
    assert!(steps.is_empty());
    assert_eq!(conflict, Some(4));
    assert_eq!(attach_link_to_bridge(Port::Tap, &link(3, 0), 8).0.len(), 2);
}

#[test]
fn a_failed_step_is_put_into_words() {
    let names = names();
    let texts: Vec<String> = configure_bridge_mode(&situation(link(2, 0), link(3, 8)))
        .steps
        .iter()
        .map(|step| step.failure_text(&names))
        .collect();

    assert_eq!(
        texts,
        vec![
            "failed to delete default route from eth0",
            "failed to delete IPv4 address from eth0",
            "failed to delete IPv4 address from eth0",
            "failed to attach eth0 to bridge br0",
            "failed to bring eth0 up after attaching it to bridge br0",
            "failed to bring tap0 up",
            "failed to assign IPv4 address to br0",
            "failed to assign IPv4 address to br0",
            "failed to add default route to br0",
        ]
    );
}

#[test]
fn a_missing_bridge_is_created() {
    let mac = Some(MAC.to_vec());
    let (state, action) = start_ensuring_bridge();
    assert_eq!((state, action), (EnsureState::Probing, EnsureAction::Find));
    let (state, action) = perform(ensure_bridge(state, EnsureEvent::Found(None), &mac));
    assert_eq!(action, EnsureAction::Create);
    let (state, action) = perform(ensure_bridge(state, EnsureEvent::Done, &mac));
    assert_eq!(action, EnsureAction::Find);
    let (state, action) =
        perform(ensure_bridge(state, EnsureEvent::Found(Some(with_mac(8, &[9, 9]))), &mac));
    assert_eq!(action, EnsureAction::SetAddress { index: 8 });
    let (state, action) = perform(ensure_bridge(state, EnsureEvent::Done, &mac));
    assert_eq!(action, EnsureAction::BringUp { index: 8 });
    let (state, action) = perform(ensure_bridge(state, EnsureEvent::Done, &mac));
    assert_eq!(action, EnsureAction::Find);
    match ensure_bridge(state, EnsureEvent::Found(Some(with_mac(8, &MAC))), &mac) {
        EnsureNext::Finished(bridge) => assert_eq!(bridge.index, 8),
        _ => panic!("the bridge is there"),
    }
}

#[test]
fn an_existing_bridge_is_reused() {
    let mac = Some(MAC.to_vec());
    let (state, _) = start_ensuring_bridge();
    let (state, action) =
        perform(ensure_bridge(state, EnsureEvent::Found(Some(with_mac(8, &MAC))), &mac));
    assert_eq!((state, action), (EnsureState::Reading, EnsureAction::Find));
    let (state, action) =
        perform(ensure_bridge(state, EnsureEvent::Found(Some(with_mac(8, &MAC))), &mac));
    assert_eq!((state, action), (EnsureState::BringingUp, EnsureAction::BringUp { index: 8 }));
}

#[test]
fn without_an_uplink_address_the_bridge_keeps_its_own() {
    let next = ensure_bridge(
        EnsureState::Reading,
        EnsureEvent::Found(Some(with_mac(8, &MAC))),
        &None,
    );
    assert_eq!(perform(next).1, EnsureAction::BringUp { index: 8 });

    let next = ensure_bridge(
        EnsureState::Reading,
        EnsureEvent::Found(Some(link(8, 0))),
        &Some(MAC.to_vec()),
    );
    assert_eq!(perform(next).1, EnsureAction::SetAddress { index: 8 });
}

#[test]
fn a_bridge_that_vanished_is_missing() {
    for state in [EnsureState::Reading, EnsureState::Confirming] {
        assert!(matches!(
            ensure_bridge(state, EnsureEvent::Found(None), &None),
            EnsureNext::Missing
        ));
    }
}

#[test]
fn a_failed_action_is_put_into_words() {
    assert_eq!(EnsureAction::Find.failure_text("br0"), "failed to query interface br0");
    assert_eq!(EnsureAction::Create.failure_text("br0"), "failed to create bridge br0");
    assert_eq!(
        EnsureAction::SetAddress { index: 1 }.failure_text("br0"),
        "failed to set bridge MAC address for br0"
    );
    assert_eq!(
        EnsureAction::BringUp { index: 1 }.failure_text("br0"),
        "failed to bring bridge br0 up"
    );
}
