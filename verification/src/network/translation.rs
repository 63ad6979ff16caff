//! Address translation: the clients' network, its gateway, and the nftables rules.
use ipnet::{AddrParseError, Ipv4Net};
use vstd::arithmetic::power2::pow2;
use vstd::prelude::*;

use crate::cli::Cli;
use crate::network::bridge::Port;
use crate::network::error::NetworkError;
use crate::network::link::text_of;
use crate::network::mode::NetworkMode;
use crate::text::{enclosed, prefixed};

verus! {

/// `ipnet::AddrParseError`, which says that a text is no network.
#[verifier::external_type_specification]
#[verifier::external_body]
pub struct ExAddrParseError(AddrParseError);

/// The address and the prefix length of the IPv4 network that a text spells, or why it spells none.
pub uninterp spec fn ipv4_net_of(text: Seq<char>) -> Result<(u32, u8), AddrParseError>;

/// `<Ipv4Net as FromStr>::from_str` reads an address and a prefix length, which is at most 32.
#[verifier::external_body]
fn parse_ipv4_net(text: &str) -> (r: Result<(u32, u8), AddrParseError>)
    ensures
        r == ipv4_net_of(text@),
        r matches Ok(net) ==> net.1 <= 32,
{
    text.parse::<Ipv4Net>().map(|net| (u32::from(net.addr()), net.prefix_len()))
}

/// The first address of the network to which an address belongs.
pub open spec fn network_of(address: u32, prefix_len: u8) -> int {
    address - address as int % pow2((32 - prefix_len) as nat) as int
}

/// An IPv4 network.
#[derive(Clone, Copy, Debug, PartialEq, Eq, Structural)]
pub struct Ipv4Subnet {
    pub address: u32,
    pub prefix_len: u8,
}

impl Ipv4Subnet {
    /// Whether the prefix is no longer than an address.
    pub open spec fn well_formed(self) -> bool {
        self.prefix_len <= 32
    }

    /// The first address of the network.
    pub fn network(&self) -> (r: u32)
        requires
            self.well_formed(),
        ensures
            r == network_of(self.address, self.prefix_len),
    {
        let host_bits: u64 = 32 - self.prefix_len as u64;
        proof {
            vstd::arithmetic::power2::lemma2_to64();
            vstd::bits::lemma_u64_shl_is_mul(1, host_bits);
            vstd::arithmetic::power2::lemma_pow2_pos(host_bits as nat);
            if host_bits < 32 {
                vstd::arithmetic::power2::lemma_pow2_strictly_increases(host_bits as nat, 32);
            }
        }
        let size: u64 = 1u64 << host_bits;
        let rest: u64 = self.address as u64 % size;
        proof {
            vstd::arithmetic::div_mod::lemma_mod_decreases(self.address as nat, size as nat);
        }
        (self.address as u64 - rest) as u32
    }
}

/// Whether a network can serve the clients: it was given by its first address, and has room for a
/// gateway.
pub open spec fn is_usable(net: Result<(u32, u8), AddrParseError>) -> bool {
    match net {
        Ok((address, prefix_len)) => address == network_of(address, prefix_len) && prefix_len
            <= 30,
        Err(_) => false,
    }
}

/// Whether the error says why the network cannot serve the clients.
pub open spec fn is_refusal(
    text: Seq<char>,
    net: Result<(u32, u8), AddrParseError>,
    error: NetworkError,
) -> bool {
    match net {
        Err(reason) => error matches NetworkError::InvalidNatNetwork { network, cause } && network@
            == text && cause == reason,
        Ok((address, prefix_len)) => if address != network_of(address, prefix_len) {
            error matches NetworkError::NotANetworkAddress { network } && network@ == text
        } else {
            &&& prefix_len > 30
            &&& error matches NetworkError::NoRoomForGateway { network }
            &&& network@ == text
        },
    }
}

/// The network that a text was found to spell, if it can serve the clients.
pub fn usable_subnet(text: &str, net: Result<(u32, u8), AddrParseError>) -> (r: Result<
    Ipv4Subnet,
    NetworkError,
>)
    requires
        net matches Ok((_, prefix_len)) ==> prefix_len <= 32,
    ensures
        r is Ok <==> is_usable(net),
        r matches Ok(subnet) ==> net == Ok::<(u32, u8), AddrParseError>(
            (subnet.address, subnet.prefix_len),
        ),
        r matches Err(error) ==> is_refusal(text@, net, error),
{
    match net {
        Err(cause) => Err(NetworkError::InvalidNatNetwork { network: text.to_owned(), cause }),
        Ok((address, prefix_len)) => {
            let subnet = Ipv4Subnet { address, prefix_len };
            if subnet.network() != address {
                Err(NetworkError::NotANetworkAddress { network: text.to_owned() })
            } else if prefix_len > 30 {
                Err(NetworkError::NoRoomForGateway { network: text.to_owned() })
            } else {
                Ok(subnet)
            }
        },
    }
}

impl Cli {
    /// Checks the settings: for address translation the network of the clients must be usable.
    pub fn validate(&self) -> (r: Result<(), NetworkError>)
        ensures
            r is Ok <==> self.network_mode != NetworkMode::Nat || is_usable(
                ipv4_net_of(self.nat_network@),
            ),
            r matches Err(error) ==> is_refusal(
                self.nat_network@,
                ipv4_net_of(self.nat_network@),
                error,
            ),
    {
        if self.network_mode == NetworkMode::Nat {
            match self.nat_subnet() {
                Ok(_) => Ok(()),
                Err(error) => Err(error),
            }
        } else {
            Ok(())
        }
    }

    /// The network of the clients.
    pub fn nat_subnet(&self) -> (r: Result<Ipv4Subnet, NetworkError>)
        ensures
            r is Ok <==> is_usable(ipv4_net_of(self.nat_network@)),
            r matches Ok(subnet) ==> ipv4_net_of(self.nat_network@) == Ok::<
                (u32, u8),
                AddrParseError,
            >((subnet.address, subnet.prefix_len)) && subnet.well_formed(),
            r matches Err(error) ==> is_refusal(
                self.nat_network@,
                ipv4_net_of(self.nat_network@),
                error,
            ),
    {
        usable_subnet(self.nat_network.as_str(), parse_ipv4_net(self.nat_network.as_str()))
    }
}

/// The address of the gateway: the one after the first address of the network.
pub fn nat_gateway(subnet: Ipv4Subnet) -> (r: u32)
    requires
        subnet.well_formed(),
    ensures
        r == (if network_of(subnet.address, subnet.prefix_len) < u32::MAX {
            network_of(subnet.address, subnet.prefix_len) + 1
        } else {
            u32::MAX as int
        }),
{
    subnet.network().saturating_add(1)
}

/// In a usable network the gateway is neither the first address nor the last one, and it belongs
/// to the network.
pub proof fn the_gateway_is_a_host_of_its_network(subnet: Ipv4Subnet, gateway: u32)
    requires
        is_usable(Ok((subnet.address, subnet.prefix_len))),
        gateway == network_of(subnet.address, subnet.prefix_len) + 1,
    ensures
        subnet.address < gateway < subnet.address + pow2((32 - subnet.prefix_len) as nat) - 1,
        network_of(gateway, subnet.prefix_len) == subnet.address,
{
    let host_bits = (32 - subnet.prefix_len) as nat;
    let size = pow2(host_bits) as int;
    vstd::arithmetic::power2::lemma2_to64();
    if host_bits > 2 {
        vstd::arithmetic::power2::lemma_pow2_strictly_increases(2, host_bits);
    }
    assert(size >= 4);
    let address = subnet.address as int;
    assert(address % size == 0);
    assert((address + 1) % size == 1) by (nonlinear_arith)
        requires
            address % size == 0,
            size >= 4,
    {
        vstd::arithmetic::div_mod::lemma_mod_adds(address, 1, size);
        vstd::arithmetic::div_mod::lemma_small_mod(1, size as nat);
    }
}

/// With what the name of every nftables table of the relay begins.
pub const NAT_TABLE_NAME_PREFIX: &'static str = "websockproxy_nat_";

/// How a character stands in the name of an nftables table.
pub open spec fn sanitized_char(ch: char) -> char {
    if 'a' <= ch <= 'z' || '0' <= ch <= '9' {
        ch
    } else if 'A' <= ch <= 'Z' {
        (ch as u32 + 32) as char
    } else {
        '_'
    }
}

/// How a name stands in the name of an nftables table. An empty name becomes `tap`.
pub open spec fn sanitized(name: Seq<char>) -> Seq<char> {
    if name.len() == 0 {
        "tap"@
    } else {
        name.map_values(|ch: char| sanitized_char(ch))
    }
}

/// The name of the nftables table for a TAP device.
pub open spec fn table_name(tap_name: Seq<char>) -> Seq<char> {
    "websockproxy_nat_"@ + sanitized(tap_name)
}

/// Makes a name fit to be part of the name of an nftables table.
pub fn sanitize_nftables_name_component(name: &str) -> (r: String)
    ensures
        r@ == sanitized(name@),
{
    let mut output = String::new();
    let mut empty = true;
    for ch in iter: name.chars()
        invariant
            iter.seq() == name@,
            output@ == name@.take(iter.index() as int).map_values(|ch: char| sanitized_char(ch)),
            empty == (iter.index() == 0),
    {
        let plain = match ch {
            'a'..='z' => ch,
            '0'..='9' => ch,
            'A'..='Z' => (ch as u8 + 32) as char,
            _ => '_',
        };
        assert(plain == sanitized_char(ch));
        output.push(plain);
        empty = false;
        proof {
            let k = iter.index() as int;
            assert(name@.take(k + 1) =~= name@.take(k).push(ch));
            assert(output@ =~= name@.take(k + 1).map_values(|ch: char| sanitized_char(ch)));
        }
    }
    assert(name@.take(name@.len() as int) =~= name@);
    if empty {
        return "tap".to_owned();
    }
    output
}

/// The name of the nftables table for a TAP device.
pub fn nat_table_name(tap_name: &str) -> (r: String)
    ensures
        r@ == table_name(tap_name@),
{
    let mut output = NAT_TABLE_NAME_PREFIX.to_owned();
    output.append(sanitize_nftables_name_component(tap_name).as_str());
    output
}

/// Whether a character may stand in a sanitized name.
pub open spec fn is_plain(ch: char) -> bool {
    'a' <= ch <= 'z' || '0' <= ch <= '9' || ch == '_'
}

/// A sanitized name is not empty, and holds only lower case letters, digits and underscores.
pub proof fn a_sanitized_name_is_plain(name: Seq<char>)
    ensures
        sanitized(name).len() > 0,
        forall|i: int| 0 <= i < sanitized(name).len() ==> is_plain(#[trigger] sanitized(name)[i]),
{
    reveal_strlit("tap");
}

/// To sanitize a name a second time changes nothing.
pub proof fn sanitizing_twice_is_sanitizing_once(name: Seq<char>)
    ensures
        sanitized(sanitized(name)) == sanitized(name),
{
    a_sanitized_name_is_plain(name);
    assert(sanitized(sanitized(name)) =~= sanitized(name));
}

/// The chains of the table.
#[derive(Clone, Copy, Debug, PartialEq, Eq, Structural)]
pub enum NatChain {
    /// Filters the packets that are forwarded.
    Forward,
    /// Translates the addresses of packets that leave.
    Postrouting,
}

/// Where a chain sees the packets.
#[derive(Clone, Copy, Debug, PartialEq, Eq, Structural)]
pub enum ChainHook {
    /// On their way through the host.
    Forward,
    /// Just before they leave.
    PostRouting,
}

/// What a chain is for.
#[derive(Clone, Copy, Debug, PartialEq, Eq, Structural)]
pub enum ChainKind {
    /// It decides which packets pass.
    Filter,
    /// It translates addresses.
    Nat,
}

/// What happens to a packet to which no rule of a chain applies.
#[derive(Clone, Copy, Debug, PartialEq, Eq, Structural)]
pub enum Policy {
    Accept,
    Discard,
}

impl NatChain {
    /// Where the chain sees the packets.
    pub fn hook(self) -> (r: ChainHook)
        ensures
            r == (match self {
                NatChain::Forward => ChainHook::Forward,
                NatChain::Postrouting => ChainHook::PostRouting,
            }),
    {
        match self {
            NatChain::Forward => ChainHook::Forward,
            NatChain::Postrouting => ChainHook::PostRouting,
        }
    }

    /// What the chain is for.
    pub fn kind(self) -> (r: ChainKind)
        ensures
            r == (match self {
                NatChain::Forward => ChainKind::Filter,
                NatChain::Postrouting => ChainKind::Nat,
            }),
    {
        match self {
            NatChain::Forward => ChainKind::Filter,
            NatChain::Postrouting => ChainKind::Nat,
        }
    }

    /// What happens to a packet to which no rule of the chain applies: every chain accepts it.
    pub fn policy(self) -> (r: Policy)
        ensures
            r == Policy::Accept,
    {
        Policy::Accept
    }

    /// The name of the chain.
    pub fn name(self) -> (r: &'static str)
        ensures
            r@ == match self {
                NatChain::Forward => "forward"@,
                NatChain::Postrouting => "postrouting"@,
            },
    {
        match self {
            NatChain::Forward => "forward",
            NatChain::Postrouting => "postrouting",
        }
    }

    /// The priority of the chain at its hook.
    pub fn priority(self) -> (r: i32)
        ensures
            r == (match self {
                NatChain::Forward => 0i32,
                NatChain::Postrouting => 100i32,
            }),
    {
        match self {
            NatChain::Forward => 0,
            NatChain::Postrouting => 100,
        }
    }
}

/// What a packet must meet for a rule to apply.
#[derive(Clone, Copy, Debug, PartialEq, Eq, Structural)]
pub enum RuleMatch {
    /// It came in through the interface.
    Input(Port),
    /// It leaves through the interface.
    Output(Port),
    /// It comes from the network.
    Source { network: u32, prefix_len: u8 },
    /// It belongs to a known connection, or is related to one.
    RelatedOrEstablished,
}

/// What happens to a packet to which a rule applies.
#[derive(Clone, Copy, Debug, PartialEq, Eq, Structural)]
pub enum RuleVerdict {
    Accept,
    Masquerade,
}

/// A rule.
#[derive(Debug)]
pub struct NatRule {
    pub chain: NatChain,
    pub matches: Vec<RuleMatch>,
    pub verdict: RuleVerdict,
}

impl NatRule {
    /// Whether the rule stands in the chain, asks for these matches and gives this verdict.
    pub open spec fn reads(
        self,
        chain: NatChain,
        wanted: Seq<RuleMatch>,
        verdict: RuleVerdict,
    ) -> bool {
        self.chain == chain && self.matches@ == wanted && self.verdict == verdict
    }
}

/// The table, its chains and its rules, in the order in which they are added.
#[derive(Debug)]
pub struct NatRuleset {
    pub table: String,
    pub chains: Vec<NatChain>,
    pub rules: Vec<NatRule>,
}

impl NatRuleset {
    /// Whether these are the rules for a TAP device and a network: the clients may reach the
    /// uplink, what belongs to their connections may come back, and what they send leaves under
    /// the uplink's address.
    pub open spec fn serves(self, tap_name: Seq<char>, subnet: Ipv4Subnet) -> bool {
        &&& self.table@ == table_name(tap_name)
        &&& self.chains@ == seq![NatChain::Forward, NatChain::Postrouting]
        &&& self.rules@.len() == 3
        &&& self.rules@[0].reads(
            NatChain::Forward,
            seq![RuleMatch::Input(Port::Tap), RuleMatch::Output(Port::Uplink)],
            RuleVerdict::Accept,
        )
        &&& self.rules@[1].reads(
            NatChain::Forward,
            seq![
                RuleMatch::Input(Port::Uplink),
                RuleMatch::Output(Port::Tap),
                RuleMatch::RelatedOrEstablished,
            ],
            RuleVerdict::Accept,
        )
        &&& self.rules@[2].reads(
            NatChain::Postrouting,
            seq![
                RuleMatch::Source {
                    network: network_of(subnet.address, subnet.prefix_len) as u32,
                    prefix_len: subnet.prefix_len,
                },
                RuleMatch::Output(Port::Uplink),
            ],
            RuleVerdict::Masquerade,
        )
    }
}

fn related_or_established_rule() -> (r: NatRule)
    ensures
        r.reads(
            NatChain::Forward,
            seq![
                RuleMatch::Input(Port::Uplink),
                RuleMatch::Output(Port::Tap),
                RuleMatch::RelatedOrEstablished,
            ],
            RuleVerdict::Accept,
        ),
{
    let matches = vec![
        RuleMatch::Input(Port::Uplink),
        RuleMatch::Output(Port::Tap),
        RuleMatch::RelatedOrEstablished,
    ];
    NatRule { chain: NatChain::Forward, matches, verdict: RuleVerdict::Accept }
}

/// The nftables rules for a TAP device and a network.
pub fn configure_nat_ruleset(tap_name: &str, subnet: Ipv4Subnet) -> (r: NatRuleset)
    requires
        subnet.well_formed(),
    ensures
        r.serves(tap_name@, subnet),
{
    let network: u32 = subnet.network();
    let tap_to_uplink = NatRule {
        chain: NatChain::Forward,
        matches: vec![RuleMatch::Input(Port::Tap), RuleMatch::Output(Port::Uplink)],
        verdict: RuleVerdict::Accept,
    };
    let masquerade = NatRule {
        chain: NatChain::Postrouting,
        matches: vec![
            RuleMatch::Source { network, prefix_len: subnet.prefix_len },
            RuleMatch::Output(Port::Uplink),
        ],
        verdict: RuleVerdict::Masquerade,
    };
    NatRuleset {
        table: nat_table_name(tap_name),
        chains: vec![NatChain::Forward, NatChain::Postrouting],
        rules: vec![tap_to_uplink, related_or_established_rule(), masquerade],
    }
}

/// Whether a table of the name exists, given the names of the tables that do. A table need not
/// have a name.
pub fn nat_table_exists(existing: &Vec<Option<String>>, table: &String) -> (r: bool)
    ensures
        r == table_exists(existing@, table@),
{
    let mut i: usize = 0;
    while i < existing.len()
        invariant
            i <= existing.len(),
            forall|j: int| 0 <= j < i ==> !#[trigger] is_named(existing@[j], table@),
        decreases existing.len() - i,
    {
        if let Some(name) = &existing[i] {
            if name.eq(table) {
                assert(is_named(existing@[i as int], table@));
                return true;
            }
        }
        assert(!is_named(existing@[i as int], table@));
        i = i + 1;
    }
    false
}

/// Whether one of the tables has that name.
pub open spec fn table_exists(existing: Seq<Option<String>>, table: Seq<char>) -> bool {
    exists|i: int| 0 <= i < existing.len() && #[trigger] is_named(existing[i], table)
}

/// Whether an optional name is that name.
pub open spec fn is_named(name: Option<String>, wanted: Seq<char>) -> bool {
    name matches Some(own) && own@ == wanted
}

/// What is to be set up for address translation.
#[derive(Clone, Copy, Debug, PartialEq, Eq, Structural)]
pub struct NatSetup {
    pub subnet: Ipv4Subnet,
    pub gateway: u32,
}

impl NatSetup {
    /// Whether the gateway is the one of the network.
    pub open spec fn well_formed(self) -> bool {
        &&& is_usable(Ok((self.subnet.address, self.subnet.prefix_len)))
        &&& self.gateway == self.subnet.address + 1
    }
}

/// One step of the set-up.
#[derive(Clone, Copy, Debug, PartialEq, Eq, Structural)]
pub enum NatStep {
    /// Give the interface the address.
    AssignAddress { index: u32, address: u32, prefix_len: u8 },
    /// Bring the interface up.
    BringUp { index: u32 },
    /// Let the host forward IPv4 packets.
    EnableForwarding,
    /// Replace the nftables rules.
    ReplaceRuleset,
}

impl NatStep {
    /// What to say when the step fails. The steps by which the rules are replaced speak for
    /// themselves.
    pub open spec fn failure(self, tap_name: Seq<char>) -> Option<Seq<char>> {
        match self {
            NatStep::AssignAddress { .. } => Some(
                "failed to configure NAT gateway on "@ + tap_name,
            ),
            NatStep::BringUp { .. } => Some("failed to bring "@ + tap_name + " up"@),
            NatStep::EnableForwarding => Some("failed to enable net.ipv4.ip_forward"@),
            NatStep::ReplaceRuleset => None,
        }
    }

    /// What to say when the step fails.
    pub fn failure_text(&self, tap_name: &str) -> (r: Option<String>)
        ensures
            text_of(r) == self.failure(tap_name@),
    {
        match *self {
            NatStep::AssignAddress { .. } => Some(
                prefixed("failed to configure NAT gateway on ", tap_name),
            ),
            NatStep::BringUp { .. } => Some(enclosed("failed to bring ", tap_name, " up")),
            NatStep::EnableForwarding => Some("failed to enable net.ipv4.ip_forward".to_owned()),
            NatStep::ReplaceRuleset => None,
        }
    }
}

/// One step by which the rules are replaced, after the existing tables were listed.
#[derive(Clone, Copy, Debug, PartialEq, Eq, Structural)]
pub enum RulesetStep {
    /// Delete the table of that name.
    DeleteTable,
    /// Build the rules.
    Build,
    /// Send the table, its chains and its rules.
    Send,
}

impl RulesetStep {
    /// What to say when the step fails. An error in a rule that is built speaks for itself.
    pub open spec fn failure(self, table: Seq<char>) -> Option<Seq<char>> {
        match self {
            RulesetStep::DeleteTable => Some(
                "failed to delete existing nftables table `"@ + table + "`"@,
            ),
            RulesetStep::Build => None,
            RulesetStep::Send => Some("failed to apply nftables NAT ruleset"@),
        }
    }

    /// What to say when the step fails.
    pub fn failure_text(&self, table: &str) -> (r: Option<String>)
        ensures
            text_of(r) == self.failure(table@),
    {
        match *self {
            RulesetStep::DeleteTable => Some(
                enclosed("failed to delete existing nftables table `", table, "`"),
            ),
            RulesetStep::Build => None,
            RulesetStep::Send => Some("failed to apply nftables NAT ruleset".to_owned()),
        }
    }
}

/// The steps by which the rules are replaced, given the names of the existing tables: a table that
/// is already there goes first.
pub fn replace_ruleset(existing: &Vec<Option<String>>, table: &String) -> (r: Vec<RulesetStep>)
    ensures
        r@ == (if table_exists(existing@, table@) {
            seq![RulesetStep::DeleteTable, RulesetStep::Build, RulesetStep::Send]
        } else {
            seq![RulesetStep::Build, RulesetStep::Send]
        }),
{
    if nat_table_exists(existing, table) {
        vec![RulesetStep::DeleteTable, RulesetStep::Build, RulesetStep::Send]
    } else {
        vec![RulesetStep::Build, RulesetStep::Send]
    }
}

/// What the settings ask for.
pub fn nat_setup(cli: &Cli) -> (r: Result<NatSetup, NetworkError>)
    ensures
        r is Ok <==> is_usable(ipv4_net_of(cli.nat_network@)),
        r matches Ok(setup) ==> setup.well_formed() && ipv4_net_of(cli.nat_network@) == Ok::<
            (u32, u8),
            AddrParseError,
        >((setup.subnet.address, setup.subnet.prefix_len)),
        r matches Err(error) ==> is_refusal(
            cli.nat_network@,
            ipv4_net_of(cli.nat_network@),
            error,
        ),
{
    match cli.nat_subnet() {
        Ok(subnet) => {
            let gateway: u32 = nat_gateway(subnet);
            proof {
                usable_network_is_not_the_last(subnet);
            }
            Ok(NatSetup { subnet, gateway })
        },
        Err(error) => Err(error),
    }
}

proof fn usable_network_is_not_the_last(subnet: Ipv4Subnet)
    requires
        is_usable(Ok((subnet.address, subnet.prefix_len))),
    ensures
        subnet.address < u32::MAX,
{
    let host_bits = (32 - subnet.prefix_len) as nat;
    let size = pow2(host_bits) as int;
    let address = subnet.address as int;
    vstd::arithmetic::power2::lemma2_to64();
    vstd::arithmetic::power2::lemma_pow2_adds(2, (host_bits - 2) as nat);
    vstd::arithmetic::power2::lemma_pow2_pos((host_bits - 2) as nat);
    let quarter = pow2((host_bits - 2) as nat) as int;
    assert(address % 4 == 0) by (nonlinear_arith)
        requires
            address % size == 0,
            size == 4 * quarter,
            quarter > 0,
            address >= 0,
    {
        vstd::arithmetic::div_mod::lemma_fundamental_div_mod(address, size);
        let k = address / size;
        assert(address == 4 * (quarter * k));
        vstd::arithmetic::div_mod::lemma_mod_multiples_basic(quarter * k, 4);
    }
}

/// The steps of the set-up, in order.
pub fn configure_nat_mode(setup: &NatSetup, tap_index: u32) -> (r: Vec<NatStep>)
    ensures
        r@ == seq![
            NatStep::AssignAddress {
                index: tap_index,
                address: setup.gateway,
                prefix_len: setup.subnet.prefix_len,
            },
            NatStep::BringUp { index: tap_index },
            NatStep::EnableForwarding,
            NatStep::ReplaceRuleset,
        ],
{
    vec![
        NatStep::AssignAddress {
            index: tap_index,
            address: setup.gateway,
            prefix_len: setup.subnet.prefix_len,
        },
        NatStep::BringUp { index: tap_index },
        NatStep::EnableForwarding,
        NatStep::ReplaceRuleset,
    ]
}

/// The first address of the network of an address: no larger than the address, by less than the
/// size of the network, and a multiple of that size, which is two to the number of bits that the
/// prefix leaves.
pub proof fn the_network_of_an_address_is_its_leading_bits(address: u32, prefix_len: u8)
    requires
        prefix_len <= 32,
    ensures
        0 <= network_of(address, prefix_len) <= address,
        address < network_of(address, prefix_len) + pow2((32 - prefix_len) as nat),
        network_of(address, prefix_len) % (pow2((32 - prefix_len) as nat) as int) == 0,
        network_of(address, prefix_len) / (pow2((32 - prefix_len) as nat) as int) == address as int
            / (pow2((32 - prefix_len) as nat) as int),
{
    let size = pow2((32 - prefix_len) as nat) as int;
    let a = address as int;
    vstd::arithmetic::power2::lemma_pow2_pos((32 - prefix_len) as nat);
    vstd::arithmetic::div_mod::lemma_fundamental_div_mod(a, size);
    vstd::arithmetic::div_mod::lemma_mod_bound(a, size);
    let q = a / size;
    assert(network_of(address, prefix_len) == size * q);
    vstd::arithmetic::div_mod::lemma_mod_multiples_basic(q, size);
    vstd::arithmetic::div_mod::lemma_div_multiples_vanish(q, size);
    assert(size * q == q * size) by (nonlinear_arith);
    vstd::arithmetic::div_mod::lemma_div_nonincreasing(a, size);
    assert(q >= 0) by {
        vstd::arithmetic::div_mod::lemma_div_pos_is_pos(a, size);
    }
    assert(size * q >= 0) by (nonlinear_arith)
        requires
            size > 0,
            q >= 0,
    ;
}

/// A network can serve the clients exactly where its text can be read, its address is a multiple of
/// its size, and at most thirty bits are its prefix. Where it cannot, the error says which of these
/// fails first, and names the text.
pub proof fn a_usable_network_is_aligned_and_has_room(
    text: Seq<char>,
    address: u32,
    prefix_len: u8,
    cause: AddrParseError,
    error: NetworkError,
)
    requires
        prefix_len <= 32,
    ensures
        ({
            let aligned = address as int % (pow2((32 - prefix_len) as nat) as int) == 0;
            let net = Ok::<(u32, u8), AddrParseError>((address, prefix_len));
            &&& is_usable(net) <==> aligned && prefix_len <= 30
            &&& is_refusal(text, net, error) && !aligned ==> (error matches
                NetworkError::NotANetworkAddress { network } && network@ == text)
            &&& is_refusal(text, net, error) && aligned ==> prefix_len > 30 && (error matches
                NetworkError::NoRoomForGateway { network } && network@ == text)
        }),
        !is_usable(Err::<(u32, u8), AddrParseError>(cause)),
        is_refusal(text, Err::<(u32, u8), AddrParseError>(cause), error) ==> (error matches
            NetworkError::InvalidNatNetwork { network, cause: kept } && network@ == text && kept
            == cause),
{
}

/// In a sanitized name, lower case letters and digits stay, an upper case letter becomes lower
/// case, and anything else an underscore; an empty name becomes `tap`. The name of a table is the
/// sanitized name behind a fixed prefix.
pub proof fn sanitizing_goes_character_by_character(name: Seq<char>, i: int)
    requires
        0 <= i < name.len(),
    ensures
        sanitized(name).len() == name.len(),
        ({
            let c = name[i] as int;
            let s = sanitized(name)[i] as int;
            &&& (97 <= c <= 122 || 48 <= c <= 57) ==> s == c
            &&& 65 <= c <= 90 ==> s == c + 32
            &&& !(97 <= c <= 122 || 48 <= c <= 57 || 65 <= c <= 90) ==> s == 95
        }),
        sanitized(Seq::empty()) == "tap"@,
        table_name(name) == "websockproxy_nat_"@ + sanitized(name),
        table_name(Seq::empty()) == "websockproxy_nat_tap"@,
{
    reveal_strlit("tap");
    reveal_strlit("websockproxy_nat_");
    reveal_strlit("websockproxy_nat_tap");
    assert(table_name(Seq::empty()) =~= "websockproxy_nat_tap"@);
}

/// A packet that the host forwards.
pub struct Packet {
    pub input: Port,
    pub output: Port,
    pub source: u32,
    /// Whether it belongs to a known connection, or is related to one.
    pub related_or_established: bool,
}

impl Packet {
    /// Whether the packet comes from the network: its source has the same leading bits.
    pub open spec fn comes_from(self, network: u32, prefix_len: u8) -> bool {
        let size = pow2((32 - prefix_len) as nat) as int;
        self.source as int / size == network as int / size
    }

    /// Whether the packet meets the condition.
    pub open spec fn meets(self, condition: RuleMatch) -> bool {
        match condition {
            RuleMatch::Input(port) => self.input == port,
            RuleMatch::Output(port) => self.output == port,
            RuleMatch::Source { network, prefix_len } => self.comes_from(network, prefix_len),
            RuleMatch::RelatedOrEstablished => self.related_or_established,
        }
    }

    /// Whether some rule of the chain applies to the packet and gives the verdict.
    pub open spec fn gets(self, ruleset: NatRuleset, chain: NatChain, verdict: RuleVerdict) -> bool {
        exists|i: int|
            0 <= i < ruleset.rules@.len() && #[trigger] self.gets_from(
                ruleset.rules@[i],
                chain,
                verdict,
            )
    }

    /// Whether the rule stands in the chain, applies to the packet and gives the verdict.
    pub open spec fn gets_from(self, rule: NatRule, chain: NatChain, verdict: RuleVerdict) -> bool {
        &&& rule.chain == chain
        &&& rule.verdict == verdict
        &&& forall|j: int| 0 <= j < rule.matches@.len() ==> self.meets(#[trigger] rule.matches@[j])
    }
}

/// What the rules do. What the clients send to the uplink is accepted, and so is what comes back
/// to them from the uplink in a known connection or related to one; nothing else is. A packet
/// leaves under the uplink's address exactly where it leaves through the uplink and its source
/// belongs to the clients' network, whatever the length of its prefix. No other verdict is given.
pub proof fn the_rules_let_the_clients_out_and_answers_in(
    ruleset: NatRuleset,
    tap_name: Seq<char>,
    subnet: Ipv4Subnet,
    packet: Packet,
)
    requires
        ruleset.serves(tap_name, subnet),
        subnet.prefix_len <= 32,
    ensures
        packet.gets(ruleset, NatChain::Forward, RuleVerdict::Accept) <==> (packet.input == Port::Tap
            && packet.output == Port::Uplink) || (packet.input == Port::Uplink && packet.output
            == Port::Tap && packet.related_or_established),
        packet.gets(ruleset, NatChain::Postrouting, RuleVerdict::Masquerade) <==> packet.output
            == Port::Uplink && packet.comes_from(subnet.address, subnet.prefix_len),
        !packet.gets(ruleset, NatChain::Forward, RuleVerdict::Masquerade),
        !packet.gets(ruleset, NatChain::Postrouting, RuleVerdict::Accept),
        ruleset.chains@ == seq![NatChain::Forward, NatChain::Postrouting],
        ruleset.table@ == "websockproxy_nat_"@ + sanitized(tap_name),
{
    the_network_of_an_address_is_its_leading_bits(subnet.address, subnet.prefix_len);
    let rules = ruleset.rules@;
    let network = network_of(subnet.address, subnet.prefix_len) as u32;
    let m0 = rules[0].matches@;
    let m1 = rules[1].matches@;
    let m2 = rules[2].matches@;
    assert(m0[0] == RuleMatch::Input(Port::Tap) && m0[1] == RuleMatch::Output(Port::Uplink));
    assert(m1[0] == RuleMatch::Input(Port::Uplink) && m1[1] == RuleMatch::Output(Port::Tap) && m1[2]
        == RuleMatch::RelatedOrEstablished);
    assert(m2[0] == (RuleMatch::Source { network, prefix_len: subnet.prefix_len }) && m2[1]
        == RuleMatch::Output(Port::Uplink));
    let outward = packet.input == Port::Tap && packet.output == Port::Uplink;
    let answer = packet.input == Port::Uplink && packet.output == Port::Tap
        && packet.related_or_established;
    let ours = packet.output == Port::Uplink && packet.comes_from(
        subnet.address,
        subnet.prefix_len,
    );
    assert(packet.gets_from(rules[0], NatChain::Forward, RuleVerdict::Accept) <==> outward) by {
        if outward {
            assert(forall|j: int| 0 <= j < m0.len() ==> packet.meets(#[trigger] m0[j]));
        } else {
            assert(!packet.meets(m0[0]) || !packet.meets(m0[1]));
        }
    }
    assert(packet.gets_from(rules[1], NatChain::Forward, RuleVerdict::Accept) <==> answer) by {
        if answer {
            assert(forall|j: int| 0 <= j < m1.len() ==> packet.meets(#[trigger] m1[j]));
        } else {
            assert(!packet.meets(m1[0]) || !packet.meets(m1[1]) || !packet.meets(m1[2]));
        }
    }
    assert(packet.gets_from(rules[2], NatChain::Postrouting, RuleVerdict::Masquerade) <==> ours) by {
        if ours {
            assert(forall|j: int| 0 <= j < m2.len() ==> packet.meets(#[trigger] m2[j]));
        } else {
            assert(!packet.meets(m2[0]) || !packet.meets(m2[1]));
        }
    }
}

/// The masquerade rule matches a source address exactly where the address belongs to the clients'
/// network: its network under the prefix of the rule is the one of the rule.
pub proof fn exactly_the_clients_network_is_masqueraded(
    ruleset: NatRuleset,
    tap_name: Seq<char>,
    subnet: Ipv4Subnet,
    source: u32,
    network: u32,
    prefix_len: u8,
    i: int,
    j: int,
)
    requires
        ruleset.serves(tap_name, subnet),
        subnet.prefix_len <= 32,
        0 <= i < ruleset.rules@.len(),
        0 <= j < ruleset.rules@[i].matches@.len(),
        ruleset.rules@[i].matches@[j] == (RuleMatch::Source { network, prefix_len }),
    ensures
        ruleset.rules@[i].verdict == RuleVerdict::Masquerade,
        prefix_len == subnet.prefix_len,
        network_of(source, prefix_len) == network <==> network_of(source, subnet.prefix_len)
            == network_of(subnet.address, subnet.prefix_len),
{
    the_network_of_an_address_is_its_leading_bits(subnet.address, subnet.prefix_len);
}

/// The gateway of a usable network is its first host: it is one above the first address, lies in
/// the network, and is neither its first nor its last address.
pub proof fn the_gateway_is_the_first_host(setup: NatSetup)
    requires
        setup.well_formed(),
    ensures
        ({
            let size = pow2((32 - setup.subnet.prefix_len) as nat) as int;
            &&& setup.subnet.prefix_len <= 30
            &&& setup.subnet.address as int % size == 0
            &&& setup.gateway == setup.subnet.address + 1
            &&& setup.gateway as int / size == setup.subnet.address as int / size
            &&& setup.gateway < setup.subnet.address + size - 1
        }),
{
    usable_network_is_not_the_last(setup.subnet);
    the_gateway_is_a_host_of_its_network(setup.subnet, setup.gateway);
    the_network_of_an_address_is_its_leading_bits(setup.gateway, setup.subnet.prefix_len);
    the_network_of_an_address_is_its_leading_bits(setup.subnet.address, setup.subnet.prefix_len);
}

/// A table exists exactly where one of the listed tables has its name, and what is said of a step
/// that failed names the device or the table.
pub proof fn tables_are_known_by_name(
    existing: Seq<Option<String>>,
    table: Seq<char>,
    index: u32,
    address: u32,
    prefix_len: u8,
    tap_name: Seq<char>,
)
    ensures
        table_exists(existing, table) <==> exists|i: int|
            0 <= i < existing.len() && (#[trigger] existing[i] matches Some(own) && own@ == table),
        (NatStep::AssignAddress { index, address, prefix_len }).failure(tap_name) == Some(
            "failed to configure NAT gateway on "@ + tap_name,
        ),
        (NatStep::BringUp { index }).failure(tap_name) == Some(
            "failed to bring "@ + tap_name + " up"@,
        ),
        NatStep::EnableForwarding.failure(tap_name) == Some(
            "failed to enable net.ipv4.ip_forward"@,
        ),
        NatStep::ReplaceRuleset.failure(tap_name) is None,
        RulesetStep::DeleteTable.failure(table) == Some(
            "failed to delete existing nftables table `"@ + table + "`"@,
        ),
        RulesetStep::Build.failure(table) is None,
        RulesetStep::Send.failure(table) == Some("failed to apply nftables NAT ruleset"@),
{
    if exists|i: int|
        0 <= i < existing.len() && (#[trigger] existing[i] matches Some(own) && own@ == table) {
        let i = choose|i: int|
            0 <= i < existing.len() && (#[trigger] existing[i] matches Some(own) && own@ == table);
        assert(is_named(existing[i], table));
    }
    if table_exists(existing, table) {
        let i = choose|i: int| 0 <= i < existing.len() && #[trigger] is_named(existing[i], table);
        assert(existing[i] matches Some(own) && own@ == table);
    }
}

/// Every prefix length that an IPv4 address allows is well formed.
pub proof fn prefixes_up_to_the_whole_address_are_well_formed(subnet: Ipv4Subnet)
    ensures
        subnet.well_formed() <==> subnet.prefix_len <= 32,
{
}

} // verus!
