use ipnet::Ipv4Net;
use websockproxy_relay::cli::Cli;
use websockproxy_relay::network::bridge::Port;
use websockproxy_relay::network::error::NetworkError;
use websockproxy_relay::network::mode::{configure_network_mode, NetworkMode, NetworkSetup};
use websockproxy_relay::network::translation::{
    configure_nat_mode, configure_nat_ruleset, nat_gateway, nat_setup, nat_table_exists,
    nat_table_name, replace_ruleset, sanitize_nftables_name_component, usable_subnet, ChainHook,
    ChainKind, Ipv4Subnet, NatChain, NatStep, Policy, RuleMatch, RuleVerdict, RulesetStep,
};
use websockproxy_relay::network::uplink::{
    default_route_uplink_if, default_uplink_if, resolve_uplink_if, single_physical_uplink_if,
    NetDevice, RouteSearch,
};
use websockproxy_relay::network::link::{
    current_controller_index, link_by_index_optional, link_by_name, link_by_name_optional,
    link_has_name, link_mac, link_name, Link, LinkAttribute, LinkSearch,
};
use websockproxy_relay::network::route::{
    default_ipv4_routes_for_link, default_route_message, ipv4_addresses_for_link, route_table_id,
    AddressAttribute, AddressRecord, DefaultRoute, Route, RouteAttribute, RouteRequest,
    SavedIpv4Address,
};

fn nat_cli(network: &str) -> Cli {
    Cli {
        network_mode: NetworkMode::Nat,
        nat_network: network.to_string(),
        ..Cli::default()
    }
}

fn link(index: u32, name: &str) -> Link {
    Link {
        index,
        attributes: vec![LinkAttribute::Other, LinkAttribute::IfName(name.to_string())],
    }
}

fn route(prefix: u8, attributes: Vec<RouteAttribute>) -> Route {
    Route {
        ipv4: true,
        destination_prefix_len: prefix,
        table: 254,
        protocol: 3,
        scope: 0,
        kind: 1,
        onlink: false,
        attributes,
    }
}

fn device(name: &str, physical: bool) -> NetDevice {
    NetDevice { name: name.to_string(), physical }
}

#[test]
fn cli_parses_network_mode_none_by_default() {
    let cli = Cli::default();

    assert_eq!(cli.network_mode, NetworkMode::Unchanged);
    assert_eq!(cli.bridge_name, "br0");
    assert_eq!(cli.nat_network, "10.200.0.0/24");
}

#[test]
fn cli_allows_nat_without_uplink() {
    let cli = Cli { network_mode: NetworkMode::Nat, ..Cli::default() };

    assert!(cli.uplink_if.is_none());
    cli.validate().expect("nat validation");
}

#[test]
fn nat_gateway_uses_first_host_address() {
    let net = "10.200.0.0/24".parse::<Ipv4Net>().expect("nat subnet");
    let subnet = Ipv4Subnet {
        address: u32::from(net.addr()),
        prefix_len: net.prefix_len(),
    };

    let mut gateway = net.addr();
    gateway.clone_from(&"10.200.0.1".parse().expect("gateway ip"));
    assert_eq!(nat_gateway(subnet), u32::from(gateway));
}

#[test]
fn nftables_name_component_is_sanitized() {
    assert_eq!(sanitize_nftables_name_component("Tap-01.eth"), "tap_01_eth");
}

#[test]
fn nat_table_name_uses_tap_name() {
    assert_eq!(nat_table_name("tap0"), "websockproxy_nat_tap0");
}

#[test]
fn the_other_defaults() {
    let cli = Cli::default();

    assert_eq!(cli.tap_name, "tap0");
    assert_eq!(cli.tap_mtu, 1500);
    assert!(cli.uplink_if.is_none());
}

#[test]
fn modes_are_named_as_on_the_command_line() {
    assert_eq!(NetworkMode::Nat.as_str(), "nat");
    assert_eq!(NetworkMode::Bridge.as_str(), "bridge");
    assert_eq!(NetworkMode::Unchanged.as_str(), "none");
}

#[test]
fn only_mode_none_works_outside_linux() {
    assert_eq!(configure_network_mode(NetworkMode::Unchanged, false).ok(), Some(NetworkSetup::Nothing));
    assert_eq!(configure_network_mode(NetworkMode::Unchanged, true).ok(), Some(NetworkSetup::Nothing));
    assert_eq!(configure_network_mode(NetworkMode::Bridge, true).ok(), Some(NetworkSetup::Bridge));
    assert_eq!(configure_network_mode(NetworkMode::Nat, true).ok(), Some(NetworkSetup::Nat));
    let error = configure_network_mode(NetworkMode::Bridge, false).expect_err("unsupported");
    assert_eq!(error.message(), "network mode `bridge` is only supported on Linux");
    let error = configure_network_mode(NetworkMode::Nat, false).expect_err("unsupported");
    assert_eq!(error.message(), "network mode `nat` is only supported on Linux");
}

#[test]
fn the_nat_network_must_be_readable() {
    for text in ["", "10.200.0.0", "10.200.0.0/33", "300.0.0.0/8", "fd00::/64", "tap0"] {
        let error = nat_cli(text).validate().expect_err("invalid network");
        assert_eq!(error.message(), format!("invalid NAT network `{text}`"));
        let cause = error.cause().expect("the parser's error");
        assert_eq!(cause.to_string(), "invalid IP address syntax");
    }
}

#[test]
fn the_nat_network_must_be_a_network_address() {
    let error = nat_cli("10.200.0.1/24").validate().expect_err("host address");
    assert_eq!(
        error.message(),
        "NAT network must be a network address, got `10.200.0.1/24`"
    );
    let error = nat_cli("10.200.0.1/0").validate().expect_err("host address");
    assert!(matches!(error, NetworkError::NotANetworkAddress { .. }));
    assert!(error.cause().is_none());
}

#[test]
fn the_nat_network_must_have_room_for_a_gateway() {
    for text in ["10.200.0.0/31", "10.200.0.7/32"] {
        let error = nat_cli(text).validate().expect_err("no room");
        assert_eq!(
            error.message(),
            format!("NAT network `{text}` must leave room for a gateway address")
        );
    }
    nat_cli("10.200.0.0/30").validate().expect("room for two hosts");
    nat_cli("0.0.0.0/0").validate().expect("every address");
}

#[test]
fn the_nat_network_does_not_matter_in_other_modes() {
    let cli = Cli { nat_network: "nonsense".to_string(), ..Cli::default() };
    assert!(cli.validate().is_ok());
    let cli = Cli { network_mode: NetworkMode::Bridge, ..cli };
    assert!(cli.validate().is_ok());
}

#[test]
fn a_network_that_was_read_is_judged() {
    let cause = "x".parse::<Ipv4Net>().expect_err("no network");
    assert_eq!(
        usable_subnet("x", Ok((0x0ac8_0000, 24))).ok(),
        Some(Ipv4Subnet { address: 0x0ac8_0000, prefix_len: 24 })
    );
    assert!(matches!(usable_subnet("x", Err(cause.clone())), Err(NetworkError::InvalidNatNetwork { network, cause: kept }) if network == "x" && kept == cause));
    assert!(matches!(usable_subnet("x", Ok((0x0ac8_0001, 24))), Err(NetworkError::NotANetworkAddress { network }) if network == "x"));
    assert!(matches!(usable_subnet("x", Ok((0x0ac8_0001, 32))), Err(NetworkError::NoRoomForGateway { network }) if network == "x"));
}

#[test]
fn the_network_of_an_address() {
    assert_eq!(Ipv4Subnet { address: 0xc0a8_01ff, prefix_len: 24 }.network(), 0xc0a8_0100);
    assert_eq!(Ipv4Subnet { address: 0xc0a8_01ff, prefix_len: 32 }.network(), 0xc0a8_01ff);
    assert_eq!(Ipv4Subnet { address: 0xc0a8_01ff, prefix_len: 0 }.network(), 0);
    assert_eq!(Ipv4Subnet { address: 0xc0a8_01ff, prefix_len: 31 }.network(), 0xc0a8_01fe);
    assert_eq!(nat_gateway(Ipv4Subnet { address: u32::MAX, prefix_len: 32 }), u32::MAX);
    assert_eq!(nat_gateway(Ipv4Subnet { address: 0xc0a8_01ff, prefix_len: 24 }), 0xc0a8_0101);
}

#[test]
fn a_sanitized_name_is_never_empty() {
    assert_eq!(sanitize_nftables_name_component(""), "tap");
    assert_eq!(sanitize_nftables_name_component("\u{e9}!"), "__");
    assert_eq!(sanitize_nftables_name_component("Z9_a"), "z9_a");
    assert_eq!(nat_table_name(""), "websockproxy_nat_tap");
}

#[test]
fn sanitizing_again_changes_nothing() {
    let once = sanitize_nftables_name_component("Tap-01.eth");
    assert_eq!(sanitize_nftables_name_component(&once), once);
}

#[test]
fn the_nat_rules_for_a_device() {
    let ruleset = configure_nat_ruleset("Tap0", Ipv4Subnet { address: 0x0ac8_0000, prefix_len: 24 });

    assert_eq!(ruleset.table, "websockproxy_nat_tap0");
    assert_eq!(ruleset.chains, vec![NatChain::Forward, NatChain::Postrouting]);
    assert_eq!(ruleset.rules.len(), 3);
    assert_eq!(ruleset.rules[0].chain, NatChain::Forward);
    assert_eq!(
        ruleset.rules[0].matches,
        vec![RuleMatch::Input(Port::Tap), RuleMatch::Output(Port::Uplink)]
    );
    assert_eq!(ruleset.rules[0].verdict, RuleVerdict::Accept);
    assert_eq!(ruleset.rules[1].chain, NatChain::Forward);
    assert_eq!(
        ruleset.rules[1].matches,
        vec![
            RuleMatch::Input(Port::Uplink),
            RuleMatch::Output(Port::Tap),
            RuleMatch::RelatedOrEstablished,
        ]
    );
    assert_eq!(ruleset.rules[1].verdict, RuleVerdict::Accept);
    assert_eq!(ruleset.rules[2].chain, NatChain::Postrouting);
    assert_eq!(
        ruleset.rules[2].matches,
        vec![
            RuleMatch::Source { network: 0x0ac8_0000, prefix_len: 24 },
            RuleMatch::Output(Port::Uplink),
        ]
    );
    assert_eq!(ruleset.rules[2].verdict, RuleVerdict::Masquerade);
    assert_eq!(NatChain::Forward.hook(), ChainHook::Forward);
    assert_eq!(NatChain::Forward.kind(), ChainKind::Filter);
    assert_eq!(NatChain::Forward.policy(), Policy::Accept);
    assert_eq!(NatChain::Postrouting.hook(), ChainHook::PostRouting);
    assert_eq!(NatChain::Postrouting.kind(), ChainKind::Nat);
    assert_eq!(NatChain::Postrouting.policy(), Policy::Accept);
    assert_eq!((NatChain::Forward.name(), NatChain::Forward.priority()), ("forward", 0));
    assert_eq!((NatChain::Postrouting.name(), NatChain::Postrouting.priority()), ("postrouting", 100));
}

#[test]
fn the_steps_of_address_translation() {
    let setup = nat_setup(&nat_cli("192.168.7.0/28")).expect("usable network");
    assert_eq!(setup.gateway, 0xc0a8_0701);

    let steps = configure_nat_mode(&setup, 9);
    assert_eq!(
        steps,
        vec![
            NatStep::AssignAddress { index: 9, address: 0xc0a8_0701, prefix_len: 28 },
            NatStep::BringUp { index: 9 },
            NatStep::EnableForwarding,
            NatStep::ReplaceRuleset,
        ]
    );
    let texts: Vec<Option<String>> = steps.iter().map(|step| step.failure_text("tap0")).collect();
    assert_eq!(
        texts,
        vec![
            Some("failed to configure NAT gateway on tap0".to_string()),
            Some("failed to bring tap0 up".to_string()),
            Some("failed to enable net.ipv4.ip_forward".to_string()),
            None,
        ]
    );
    assert!(matches!(nat_setup(&nat_cli("x")), Err(NetworkError::InvalidNatNetwork { .. })));
}

#[test]
fn an_existing_table_is_found_by_its_name() {
    let existing = vec![None, Some("filter".to_string()), Some("websockproxy_nat_tap0".to_string())];

    assert!(nat_table_exists(&existing, &"websockproxy_nat_tap0".to_string()));
    assert!(!nat_table_exists(&existing, &"websockproxy_nat_tap1".to_string()));
    assert!(!nat_table_exists(&Vec::new(), &"filter".to_string()));
}

#[test]
fn an_existing_table_is_deleted_first() {
    let table = "websockproxy_nat_tap0".to_string();
    let fresh = replace_ruleset(&vec![Some("filter".to_string())], &table);
    assert_eq!(fresh, vec![RulesetStep::Build, RulesetStep::Send]);

    let steps = replace_ruleset(&vec![None, Some(table.clone())], &table);
    assert_eq!(steps, vec![RulesetStep::DeleteTable, RulesetStep::Build, RulesetStep::Send]);
    let texts: Vec<Option<String>> = steps.iter().map(|step| step.failure_text(&table)).collect();
    assert_eq!(
        texts,
        vec![
            Some("failed to delete existing nftables table `websockproxy_nat_tap0`".to_string()),
            None,
            Some("failed to apply nftables NAT ruleset".to_string()),
        ]
    );
}

#[test]
fn the_attributes_of_a_link_are_read_in_order() {
    let bridged = Link {
        index: 4,
        attributes: vec![
            LinkAttribute::Controller(0),
            LinkAttribute::Address(Vec::new()),
            LinkAttribute::IfName("eth0".to_string()),
            LinkAttribute::Controller(7),
            LinkAttribute::Address(vec![2, 0, 0, 0, 0, 1]),
            LinkAttribute::IfName("other".to_string()),
        ],
    };

    assert_eq!(link_name(&bridged), Some("eth0".to_string()));
    assert_eq!(current_controller_index(&bridged), Some(7));
    assert_eq!(link_mac(&bridged), Some(vec![2, 0, 0, 0, 0, 1]));
    assert!(link_has_name(&bridged, &"eth0".to_string()));
    assert!(link_has_name(&bridged, &"other".to_string()));
    assert!(!link_has_name(&bridged, &"eth1".to_string()));

    let bare = Link { index: 1, attributes: vec![LinkAttribute::Controller(0)] };
    assert_eq!(link_name(&bare), None);
    assert_eq!(current_controller_index(&bare), None);
    assert_eq!(link_mac(&bare), None);
}

#[test]
fn a_link_is_found_by_its_name() {
    let search = LinkSearch::new("tap0");
    let search = search.offer(link(1, "lo")).expect("first");
    let search = search.offer(link(2, "tap0")).expect("second");
    let search = search.offer(link(3, "eth0")).expect("third");

    assert_eq!(link_by_name(search).expect("tap0").index, 2);
    let search = LinkSearch::new("tap0").offer(link(2, "tap0")).expect("only");
    assert_eq!(link_by_name_optional(search).expect("tap0").index, 2);
}

#[test]
fn a_missing_link_is_an_error() {
    let search = LinkSearch::new("tap0").offer(link(1, "lo")).expect("first");
    assert!(link_by_name_optional(search).is_none());

    let error = link_by_name(LinkSearch::new("tap0")).expect_err("missing");
    assert_eq!(error.message(), "interface not found: tap0");
}

#[test]
fn a_second_link_of_the_name_is_an_error() {
    let search = LinkSearch::new("tap0").offer(link(1, "tap0")).expect("first");
    match search.offer(link(2, "tap0")) {
        Err(error) => assert_eq!(error.message(), "multiple interfaces named tap0"),
        Ok(_) => panic!("two interfaces of one name"),
    }
}

#[test]
fn a_link_is_found_by_its_index() {
    let found = link_by_index_optional(Some(link(3, "eth0")), false, 3).expect("one");
    assert_eq!(found.expect("eth0").index, 3);
    assert!(link_by_index_optional(None, false, 3).expect("none").is_none());

    let error = link_by_index_optional(Some(link(3, "eth0")), true, 3).expect_err("two");
    assert_eq!(error.message(), "multiple interfaces with index 3");
}

#[test]
fn the_default_route_with_the_smallest_metric_wins() {
    let search = RouteSearch::new();
    assert_eq!(search.best_interface(), None);
    let search = search.offer(&route(24, vec![RouteAttribute::Oif(1)]));
    let search = search.offer(&route(0, vec![RouteAttribute::Priority(1)]));
    let search = search.offer(&Route { ipv4: false, ..route(0, vec![RouteAttribute::Oif(2)]) });
    assert_eq!(search.best_interface(), None);
    let search = search.offer(&route(0, vec![RouteAttribute::Oif(3), RouteAttribute::Priority(200)]));
    let search = search.offer(&route(0, vec![RouteAttribute::Oif(4), RouteAttribute::Priority(100)]));
    let search = search.offer(&route(0, vec![RouteAttribute::Priority(100), RouteAttribute::Oif(5)]));
    assert_eq!(search.best_interface(), Some(4));
    let search = search.offer(&route(0, vec![RouteAttribute::Oif(6)]));
    assert_eq!(search.best_interface(), Some(6));
}

#[test]
fn the_uplink_of_the_default_route_is_named() {
    assert_eq!(default_route_uplink_if(Some(link(4, "eth0"))), Some("eth0".to_string()));
    assert_eq!(default_route_uplink_if(Some(Link { index: 4, attributes: Vec::new() })), None);
    assert_eq!(default_route_uplink_if(None), None);
}

#[test]
fn the_only_physical_interface_is_the_uplink() {
    let devices = vec![device("lo", true), device("tap0", false), device("eth0", true)];
    assert_eq!(single_physical_uplink_if(&devices).expect("one"), Some("eth0".to_string()));
    assert_eq!(single_physical_uplink_if(&Vec::new()).expect("none"), None);

    let several = vec![device("eth0", true), device("veth", false), device("wlan0", true)];
    let error = single_physical_uplink_if(&several).expect_err("two");
    assert_eq!(
        error.message(),
        "multiple physical interfaces detected (eth0, wlan0) and no default route was found; pass --uplink-if explicitly"
    );
}

#[test]
fn the_default_route_comes_before_physical_interfaces() {
    let several = vec![device("eth0", true), device("wlan0", true)];
    assert_eq!(
        default_uplink_if(Some("ppp0".to_string()), &several).expect("route"),
        Some("ppp0".to_string())
    );
    assert!(default_uplink_if(None, &several).is_err());
    assert_eq!(
        default_uplink_if(None, &vec![device("eth0", true)]).expect("device"),
        Some("eth0".to_string())
    );
}

#[test]
fn a_given_uplink_comes_first() {
    let given = Cli { uplink_if: Some("eth7".to_string()), ..Cli::default() };
    assert_eq!(resolve_uplink_if(&given, true, Some("eth0".to_string())).expect("given"), "eth7");
    assert_eq!(resolve_uplink_if(&given, false, None).expect("given"), "eth7");

    let open = Cli::default();
    assert_eq!(resolve_uplink_if(&open, true, Some("eth0".to_string())).expect("found"), "eth0");
    assert_eq!(
        resolve_uplink_if(&open, true, None).expect_err("undetermined").message(),
        "could not determine uplink interface automatically; pass --uplink-if explicitly"
    );
    assert_eq!(
        resolve_uplink_if(&open, false, Some("eth0".to_string())).expect_err("not set").message(),
        "uplink interface must be set explicitly on non-Linux platforms"
    );
}

#[test]
fn the_default_routes_of_a_link_are_kept() {
    let routes = vec![
        route(24, vec![RouteAttribute::Oif(2)]),
        route(
            0,
            vec![
                RouteAttribute::Oif(9),
                RouteAttribute::Gateway(0x0a00_0001),
                RouteAttribute::Priority(50),
                RouteAttribute::Table(1000),
                RouteAttribute::Table(1001),
                RouteAttribute::Gateway(0x0a00_0002),
                RouteAttribute::Oif(2),
                RouteAttribute::Other,
            ],
        ),
        route(0, vec![RouteAttribute::Oif(3)]),
        Route { onlink: true, ..route(0, vec![RouteAttribute::Oif(2)]) },
    ];

    let kept = default_ipv4_routes_for_link(&routes, 2);
    assert_eq!(
        kept,
        vec![
            DefaultRoute {
                position: 1,
                table: 1000,
                protocol: 3,
                scope: 0,
                kind: 1,
                onlink: false,
                gateway: Some(0x0a00_0002),
                metric: Some(50),
            },
            DefaultRoute {
                position: 3,
                table: 254,
                protocol: 3,
                scope: 0,
                kind: 1,
                onlink: true,
                gateway: None,
                metric: None,
            },
        ]
    );
    assert_eq!(route_table_id(&routes[0]), 254);
    assert_eq!(
        default_route_message(&kept[0], 8),
        RouteRequest {
            output_interface: 8,
            table: 1000,
            protocol: 3,
            scope: 0,
            kind: 1,
            onlink: false,
            gateway: Some(0x0a00_0002),
            metric: Some(50),
        }
    );
}

#[test]
fn the_ipv4_addresses_of_a_link_are_kept() {
    let records = vec![
        AddressRecord { ipv4: false, prefix_len: 64, attributes: vec![AddressAttribute::Address(1)] },
        AddressRecord {
            ipv4: true,
            prefix_len: 24,
            attributes: vec![
                AddressAttribute::Other,
                AddressAttribute::Address(0x0a00_0005),
                AddressAttribute::Local(0x0a00_0006),
            ],
        },
        AddressRecord { ipv4: true, prefix_len: 8, attributes: vec![AddressAttribute::Other] },
        AddressRecord { ipv4: true, prefix_len: 32, attributes: vec![AddressAttribute::Local(7)] },
    ];

    assert_eq!(
        ipv4_addresses_for_link(&records),
        vec![
            SavedIpv4Address { position: 1, address: 0x0a00_0005, prefix_len: 24 },
            SavedIpv4Address { position: 3, address: 7, prefix_len: 32 },
        ]
    );
}
