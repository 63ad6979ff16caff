//! Routes and addresses, as the kernel describes them.
use vstd::prelude::*;

verus! {

/// What the kernel says of a route.
#[derive(Clone, Copy, Debug, PartialEq, Eq, Structural)]
pub enum RouteAttribute {
    /// The index of the interface it leaves through.
    Oif(u32),
    /// The IPv4 address of its gateway.
    Gateway(u32),
    /// Its metric.
    Priority(u32),
    /// The table it stands in.
    Table(u32),
    /// Anything else.
    Other,
}

/// A route.
#[derive(Debug)]
pub struct Route {
    /// Whether it is a route for IPv4.
    pub ipv4: bool,
    pub destination_prefix_len: u8,
    /// The table it stands in, as far as that fits in a byte.
    pub table: u8,
    pub protocol: u8,
    pub scope: u8,
    pub kind: u8,
    /// Whether its gateway is taken to be on the link.
    pub onlink: bool,
    pub attributes: Vec<RouteAttribute>,
}

impl Route {
    /// Whether this is a default route for IPv4.
    pub open spec fn is_default_ipv4(self) -> bool {
        self.ipv4 && self.destination_prefix_len == 0
    }
}

/// The first outgoing interface among the attributes.
pub open spec fn first_output(attributes: Seq<RouteAttribute>) -> Option<u32>
    decreases attributes.len(),
{
    if attributes.len() == 0 {
        None
    } else {
        match attributes[0] {
            RouteAttribute::Oif(index) => Some(index),
            _ => first_output(attributes.drop_first()),
        }
    }
}

/// The first metric among the attributes.
pub open spec fn first_priority(attributes: Seq<RouteAttribute>) -> Option<u32>
    decreases attributes.len(),
{
    if attributes.len() == 0 {
        None
    } else {
        match attributes[0] {
            RouteAttribute::Priority(metric) => Some(metric),
            _ => first_priority(attributes.drop_first()),
        }
    }
}

/// The first table among the attributes.
pub open spec fn first_table(attributes: Seq<RouteAttribute>) -> Option<u32>
    decreases attributes.len(),
{
    if attributes.len() == 0 {
        None
    } else {
        match attributes[0] {
            RouteAttribute::Table(table) => Some(table),
            _ => first_table(attributes.drop_first()),
        }
    }
}

/// The last outgoing interface among the attributes.
pub open spec fn last_output(attributes: Seq<RouteAttribute>) -> Option<u32>
    decreases attributes.len(),
{
    if attributes.len() == 0 {
        None
    } else {
        match attributes.last() {
            RouteAttribute::Oif(index) => Some(index),
            _ => last_output(attributes.drop_last()),
        }
    }
}

/// The last gateway among the attributes.
pub open spec fn last_gateway(attributes: Seq<RouteAttribute>) -> Option<u32>
    decreases attributes.len(),
{
    if attributes.len() == 0 {
        None
    } else {
        match attributes.last() {
            RouteAttribute::Gateway(address) => Some(address),
            _ => last_gateway(attributes.drop_last()),
        }
    }
}

/// The last metric among the attributes.
pub open spec fn last_priority(attributes: Seq<RouteAttribute>) -> Option<u32>
    decreases attributes.len(),
{
    if attributes.len() == 0 {
        None
    } else {
        match attributes.last() {
            RouteAttribute::Priority(metric) => Some(metric),
            _ => last_priority(attributes.drop_last()),
        }
    }
}

/// The table of a route: the one among its attributes, else the one in its header.
pub open spec fn table_of(route: Route) -> u32 {
    match first_table(route.attributes@) {
        Some(table) => table,
        None => route.table as u32,
    }
}

/// The first outgoing interface of a route.
pub fn output_interface(route: &Route) -> (r: Option<u32>)
    ensures
        r == first_output(route.attributes@),
{
    let ghost all = route.attributes@;
    let mut i: usize = 0;
    assert(all.skip(0) =~= all);
    while i < route.attributes.len()
        invariant
            i <= route.attributes.len(),
            all == route.attributes@,
            first_output(all) == first_output(all.skip(i as int)),
        decreases route.attributes.len() - i,
    {
        if let RouteAttribute::Oif(index) = route.attributes[i] {
            return Some(index);
        }
        assert(all.skip(i as int).drop_first() =~= all.skip(i + 1));
        i = i + 1;
    }
    None
}

/// The first metric of a route.
pub fn priority(route: &Route) -> (r: Option<u32>)
    ensures
        r == first_priority(route.attributes@),
{
    let ghost all = route.attributes@;
    let mut i: usize = 0;
    assert(all.skip(0) =~= all);
    while i < route.attributes.len()
        invariant
            i <= route.attributes.len(),
            all == route.attributes@,
            first_priority(all) == first_priority(all.skip(i as int)),
        decreases route.attributes.len() - i,
    {
        if let RouteAttribute::Priority(metric) = route.attributes[i] {
            return Some(metric);
        }
        assert(all.skip(i as int).drop_first() =~= all.skip(i + 1));
        i = i + 1;
    }
    None
}

/// The table of a route.
pub fn route_table_id(route: &Route) -> (r: u32)
    ensures
        r == table_of(*route),
{
    let ghost all = route.attributes@;
    let mut i: usize = 0;
    assert(all.skip(0) =~= all);
    while i < route.attributes.len()
        invariant
            i <= route.attributes.len(),
            all == route.attributes@,
            first_table(all) == first_table(all.skip(i as int)),
        decreases route.attributes.len() - i,
    {
        if let RouteAttribute::Table(table) = route.attributes[i] {
            return table;
        }
        assert(all.skip(i as int).drop_first() =~= all.skip(i + 1));
        i = i + 1;
    }
    route.table as u32
}

/// A default route that is to be moved to the bridge.
#[derive(Clone, Copy, Debug, PartialEq, Eq, Structural)]
pub struct DefaultRoute {
    /// Where it stands among the routes of the host.
    pub position: usize,
    pub table: u32,
    pub protocol: u8,
    pub scope: u8,
    pub kind: u8,
    pub onlink: bool,
    pub gateway: Option<u32>,
    pub metric: Option<u32>,
}

/// Whether this is a default IPv4 route through the interface.
pub open spec fn is_default_through(route: Route, index: u32) -> bool {
    route.is_default_ipv4() && last_output(route.attributes@) == Some(index)
}

/// What is kept of a route that stands at a position.
pub open spec fn saved_route(route: Route, position: usize) -> DefaultRoute {
    DefaultRoute {
        position,
        table: table_of(route),
        protocol: route.protocol,
        scope: route.scope,
        kind: route.kind,
        onlink: route.onlink,
        gateway: last_gateway(route.attributes@),
        metric: last_priority(route.attributes@),
    }
}

/// The default IPv4 routes through an interface, in the order in which they stand.
pub open spec fn saved_routes(routes: Seq<Route>, index: u32) -> Seq<DefaultRoute>
    decreases routes.len(),
{
    if routes.len() == 0 {
        Seq::empty()
    } else {
        let before = saved_routes(routes.drop_last(), index);
        if is_default_through(routes.last(), index) {
            before.push(saved_route(routes.last(), (routes.len() - 1) as usize))
        } else {
            before
        }
    }
}

/// What is kept of a route, if it is a default IPv4 route through the interface.
fn save_route(route: &Route, position: usize, index: u32) -> (r: Option<DefaultRoute>)
    ensures
        is_default_through(*route, index) ==> r == Some(saved_route(*route, position)),
        !is_default_through(*route, index) ==> r is None,
{
    if !route.ipv4 || route.destination_prefix_len != 0 {
        return None;
    }
    let mut output: Option<u32> = None;
    let mut gateway: Option<u32> = None;
    let mut metric: Option<u32> = None;
    let ghost all = route.attributes@;
    let mut i: usize = 0;
    assert(all.take(0) =~= Seq::empty());
    while i < route.attributes.len()
        invariant
            i <= route.attributes.len(),
            all == route.attributes@,
            output == last_output(all.take(i as int)),
            gateway == last_gateway(all.take(i as int)),
            metric == last_priority(all.take(i as int)),
        decreases route.attributes.len() - i,
    {
        assert(all.take(i + 1).drop_last() =~= all.take(i as int));
        match route.attributes[i] {
            RouteAttribute::Oif(route_index) => {
                output = Some(route_index);
            },
            RouteAttribute::Gateway(route_gateway) => {
                gateway = Some(route_gateway);
            },
            RouteAttribute::Priority(route_metric) => {
                metric = Some(route_metric);
            },
            _ => {},
        }
        i = i + 1;
    }
    assert(all.take(i as int) =~= all);
    let matches_link = match output {
        Some(route_index) => route_index == index,
        None => false,
    };
    if !matches_link {
        return None;
    }
    Some(
        DefaultRoute {
            position,
            table: route_table_id(route),
            protocol: route.protocol,
            scope: route.scope,
            kind: route.kind,
            onlink: route.onlink,
            gateway,
            metric,
        },
    )
}

/// The default IPv4 routes through an interface, given all routes of the host.
pub fn default_ipv4_routes_for_link(routes: &Vec<Route>, index: u32) -> (r: Vec<DefaultRoute>)
    ensures
        r@ == saved_routes(routes@, index),
{
    let mut found: Vec<DefaultRoute> = Vec::new();
    let mut i: usize = 0;
    assert(routes@.take(0) =~= Seq::empty());
    while i < routes.len()
        invariant
            i <= routes.len(),
            found@ == saved_routes(routes@.take(i as int), index),
        decreases routes.len() - i,
    {
        assert(routes@.take(i + 1).drop_last() =~= routes@.take(i as int));
        if let Some(route) = save_route(&routes[i], i, index) {
            found.push(route);
        }
        i = i + 1;
    }
    assert(routes@.take(i as int) =~= routes@);
    found
}

/// Every default IPv4 route through the interface is among those that are kept.
pub proof fn every_default_route_is_saved(routes: Seq<Route>, index: u32, i: int)
    requires
        0 <= i < routes.len(),
        is_default_through(routes[i], index),
    ensures
        saved_routes(routes, index).contains(saved_route(routes[i], i as usize)),
    decreases routes.len(),
{
    let before = saved_routes(routes.drop_last(), index);
    let all = saved_routes(routes, index);
    if i == routes.len() - 1 {
        assert(all.last() == saved_route(routes[i], i as usize));
    } else {
        every_default_route_is_saved(routes.drop_last(), index, i);
        let k = before.index_of(saved_route(routes[i], i as usize));
        assert(all[k] == saved_route(routes[i], i as usize));
    }
}

/// A route to be added.
#[derive(Clone, Copy, Debug, PartialEq, Eq, Structural)]
pub struct RouteRequest {
    pub output_interface: u32,
    pub table: u32,
    pub protocol: u8,
    pub scope: u8,
    pub kind: u8,
    pub onlink: bool,
    pub gateway: Option<u32>,
    pub metric: Option<u32>,
}

/// The request for the same route through another interface.
pub open spec fn rerouted(route: DefaultRoute, output_interface: u32) -> RouteRequest {
    RouteRequest {
        output_interface,
        table: route.table,
        protocol: route.protocol,
        scope: route.scope,
        kind: route.kind,
        onlink: route.onlink,
        gateway: route.gateway,
        metric: route.metric,
    }
}

/// The same route through another interface.
pub fn default_route_message(route: &DefaultRoute, output_interface: u32) -> (r: RouteRequest)
    ensures
        r == rerouted(*route, output_interface),
{
    RouteRequest {
        output_interface,
        table: route.table,
        protocol: route.protocol,
        scope: route.scope,
        kind: route.kind,
        onlink: route.onlink,
        gateway: route.gateway,
        metric: route.metric,
    }
}

/// What the kernel says of an address.
#[derive(Clone, Copy, Debug, PartialEq, Eq, Structural)]
pub enum AddressAttribute {
    /// The IPv4 address of the interface itself.
    Local(u32),
    /// The IPv4 address of the interface, or of its peer.
    Address(u32),
    /// Anything else.
    Other,
}

/// An address of an interface.
#[derive(Debug)]
pub struct AddressRecord {
    /// Whether it is an IPv4 address.
    pub ipv4: bool,
    pub prefix_len: u8,
    pub attributes: Vec<AddressAttribute>,
}

/// An IPv4 address that is to be moved to the bridge.
#[derive(Clone, Copy, Debug, PartialEq, Eq, Structural)]
pub struct SavedIpv4Address {
    /// Where it stands among the addresses of the interface.
    pub position: usize,
    pub address: u32,
    pub prefix_len: u8,
}

/// The first IPv4 address among the attributes.
pub open spec fn first_ipv4(attributes: Seq<AddressAttribute>) -> Option<u32>
    decreases attributes.len(),
{
    if attributes.len() == 0 {
        None
    } else {
        match attributes[0] {
            AddressAttribute::Local(address) => Some(address),
            AddressAttribute::Address(address) => Some(address),
            AddressAttribute::Other => first_ipv4(attributes.drop_first()),
        }
    }
}

/// What is kept of an address that stands at a position, if it is an IPv4 address.
pub open spec fn saved_address(record: AddressRecord, position: usize) -> Option<SavedIpv4Address> {
    match first_ipv4(record.attributes@) {
        Some(address) if record.ipv4 => Some(
            SavedIpv4Address { position, address, prefix_len: record.prefix_len },
        ),
        _ => None,
    }
}

/// The IPv4 addresses of an interface, in the order in which they stand.
pub open spec fn saved_addresses(records: Seq<AddressRecord>) -> Seq<SavedIpv4Address>
    decreases records.len(),
{
    if records.len() == 0 {
        Seq::empty()
    } else {
        let before = saved_addresses(records.drop_last());
        match saved_address(records.last(), (records.len() - 1) as usize) {
            Some(saved) => before.push(saved),
            None => before,
        }
    }
}

/// What is kept of an address, if it is an IPv4 address.
fn save_address(record: &AddressRecord, position: usize) -> (r: Option<SavedIpv4Address>)
    ensures
        r == saved_address(*record, position),
{
    if !record.ipv4 {
        return None;
    }
    let ghost all = record.attributes@;
    let mut i: usize = 0;
    assert(all.skip(0) =~= all);
    while i < record.attributes.len()
        invariant
            i <= record.attributes.len(),
            all == record.attributes@,
            first_ipv4(all) == first_ipv4(all.skip(i as int)),
            record.ipv4,
        decreases record.attributes.len() - i,
    {
        match record.attributes[i] {
            AddressAttribute::Local(address) => {
                return Some(SavedIpv4Address { position, address, prefix_len: record.prefix_len });
            },
            AddressAttribute::Address(address) => {
                return Some(SavedIpv4Address { position, address, prefix_len: record.prefix_len });
            },
            AddressAttribute::Other => {},
        }
        assert(all.skip(i as int).drop_first() =~= all.skip(i + 1));
        i = i + 1;
    }
    None
}

/// The IPv4 addresses of an interface, given all its addresses.
pub fn ipv4_addresses_for_link(records: &Vec<AddressRecord>) -> (r: Vec<SavedIpv4Address>)
    ensures
        r@ == saved_addresses(records@),
{
    let mut found: Vec<SavedIpv4Address> = Vec::new();
    let mut i: usize = 0;
    assert(records@.take(0) =~= Seq::empty());
    while i < records.len()
        invariant
            i <= records.len(),
            found@ == saved_addresses(records@.take(i as int)),
        decreases records.len() - i,
    {
        assert(records@.take(i + 1).drop_last() =~= records@.take(i as int));
        if let Some(address) = save_address(&records[i], i) {
            found.push(address);
        }
        i = i + 1;
    }
    assert(records@.take(i as int) =~= records@);
    found
}

/// Every IPv4 address of the interface is among those that are kept.
pub proof fn every_ipv4_address_is_saved(records: Seq<AddressRecord>, i: int)
    requires
        0 <= i < records.len(),
        saved_address(records[i], i as usize) is Some,
    ensures
        saved_addresses(records).contains(saved_address(records[i], i as usize)->0),
    decreases records.len(),
{
    let before = saved_addresses(records.drop_last());
    let all = saved_addresses(records);
    let saved = saved_address(records[i], i as usize)->0;
    if i == records.len() - 1 {
        assert(all.last() == saved);
    } else {
        every_ipv4_address_is_saved(records.drop_last(), i);
        let k = before.index_of(saved);
        assert(all[k] == saved);
    }
}

/// The first outgoing interface among the attributes is that before which no other stands.
pub proof fn first_output_is_the_first(attributes: Seq<RouteAttribute>, i: int, value: u32)
    requires
        0 <= i < attributes.len(),
        attributes[i] == RouteAttribute::Oif(value),
        forall|j: int| 0 <= j < i ==> !(#[trigger] attributes[j] is Oif),
    ensures
        first_output(attributes) == Some(value),
    decreases attributes.len(),
{
    if i > 0 {
        assert(!(attributes[0] is Oif));
        first_output_is_the_first(attributes.drop_first(), i - 1, value);
    }
}

/// Without any outgoing interface there is no first one.
pub proof fn first_output_may_be_missing(attributes: Seq<RouteAttribute>)
    requires
        forall|j: int| 0 <= j < attributes.len() ==> !(#[trigger] attributes[j] is Oif),
    ensures
        first_output(attributes) is None,
    decreases attributes.len(),
{
    if attributes.len() > 0 {
        assert(!(attributes[0] is Oif));
        first_output_may_be_missing(attributes.drop_first());
    }
}

/// The first metric among the attributes is that before which no other stands.
pub proof fn first_priority_is_the_first(attributes: Seq<RouteAttribute>, i: int, value: u32)
    requires
        0 <= i < attributes.len(),
        attributes[i] == RouteAttribute::Priority(value),
        forall|j: int| 0 <= j < i ==> !(#[trigger] attributes[j] is Priority),
    ensures
        first_priority(attributes) == Some(value),
    decreases attributes.len(),
{
    if i > 0 {
        assert(!(attributes[0] is Priority));
        first_priority_is_the_first(attributes.drop_first(), i - 1, value);
    }
}

/// Without any metric there is no first one.
pub proof fn first_priority_may_be_missing(attributes: Seq<RouteAttribute>)
    requires
        forall|j: int| 0 <= j < attributes.len() ==> !(#[trigger] attributes[j] is Priority),
    ensures
        first_priority(attributes) is None,
    decreases attributes.len(),
{
    if attributes.len() > 0 {
        assert(!(attributes[0] is Priority));
        first_priority_may_be_missing(attributes.drop_first());
    }
}

/// The first table among the attributes is that before which no other stands.
pub proof fn first_table_is_the_first(attributes: Seq<RouteAttribute>, i: int, value: u32)
    requires
        0 <= i < attributes.len(),
        attributes[i] == RouteAttribute::Table(value),
        forall|j: int| 0 <= j < i ==> !(#[trigger] attributes[j] is Table),
    ensures
        first_table(attributes) == Some(value),
    decreases attributes.len(),
{
    if i > 0 {
        assert(!(attributes[0] is Table));
        first_table_is_the_first(attributes.drop_first(), i - 1, value);
    }
}

/// Without any table there is no first one.
pub proof fn first_table_may_be_missing(attributes: Seq<RouteAttribute>)
    requires
        forall|j: int| 0 <= j < attributes.len() ==> !(#[trigger] attributes[j] is Table),
    ensures
        first_table(attributes) is None,
    decreases attributes.len(),
{
    if attributes.len() > 0 {
        assert(!(attributes[0] is Table));
        first_table_may_be_missing(attributes.drop_first());
    }
}

/// The last outgoing interface among the attributes is that behind which no other stands.
pub proof fn last_output_is_the_last(attributes: Seq<RouteAttribute>, i: int, value: u32)
    requires
        0 <= i < attributes.len(),
        attributes[i] == RouteAttribute::Oif(value),
        forall|j: int| i < j < attributes.len() ==> !(#[trigger] attributes[j] is Oif),
    ensures
        last_output(attributes) == Some(value),
    decreases attributes.len(),
{
    if i < attributes.len() - 1 {
        assert(!(attributes[attributes.len() - 1] is Oif));
        last_output_is_the_last(attributes.drop_last(), i, value);
    }
}

/// Without any outgoing interface there is no last one.
pub proof fn last_output_may_be_missing(attributes: Seq<RouteAttribute>)
    requires
        forall|j: int| 0 <= j < attributes.len() ==> !(#[trigger] attributes[j] is Oif),
    ensures
        last_output(attributes) is None,
    decreases attributes.len(),
{
    if attributes.len() > 0 {
        assert(!(attributes[attributes.len() - 1] is Oif));
        last_output_may_be_missing(attributes.drop_last());
    }
}

/// The last gateway among the attributes is that behind which no other stands.
pub proof fn last_gateway_is_the_last(attributes: Seq<RouteAttribute>, i: int, value: u32)
    requires
        0 <= i < attributes.len(),
        attributes[i] == RouteAttribute::Gateway(value),
        forall|j: int| i < j < attributes.len() ==> !(#[trigger] attributes[j] is Gateway),
    ensures
        last_gateway(attributes) == Some(value),
    decreases attributes.len(),
{
    if i < attributes.len() - 1 {
        assert(!(attributes[attributes.len() - 1] is Gateway));
        last_gateway_is_the_last(attributes.drop_last(), i, value);
    }
}

/// Without any gateway there is no last one.
pub proof fn last_gateway_may_be_missing(attributes: Seq<RouteAttribute>)
    requires
        forall|j: int| 0 <= j < attributes.len() ==> !(#[trigger] attributes[j] is Gateway),
    ensures
        last_gateway(attributes) is None,
    decreases attributes.len(),
{
    if attributes.len() > 0 {
        assert(!(attributes[attributes.len() - 1] is Gateway));
        last_gateway_may_be_missing(attributes.drop_last());
    }
}

/// The last metric among the attributes is that behind which no other stands.
pub proof fn last_priority_is_the_last(attributes: Seq<RouteAttribute>, i: int, value: u32)
    requires
        0 <= i < attributes.len(),
        attributes[i] == RouteAttribute::Priority(value),
        forall|j: int| i < j < attributes.len() ==> !(#[trigger] attributes[j] is Priority),
    ensures
        last_priority(attributes) == Some(value),
    decreases attributes.len(),
{
    if i < attributes.len() - 1 {
        assert(!(attributes[attributes.len() - 1] is Priority));
        last_priority_is_the_last(attributes.drop_last(), i, value);
    }
}

/// Without any metric there is no last one.
pub proof fn last_priority_may_be_missing(attributes: Seq<RouteAttribute>)
    requires
        forall|j: int| 0 <= j < attributes.len() ==> !(#[trigger] attributes[j] is Priority),
    ensures
        last_priority(attributes) is None,
    decreases attributes.len(),
{
    if attributes.len() > 0 {
        assert(!(attributes[attributes.len() - 1] is Priority));
        last_priority_may_be_missing(attributes.drop_last());
    }
}

/// The IPv4 address of a record is the first one among its attributes, of whichever sort.
pub proof fn the_address_is_the_first_among_the_attributes(
    attributes: Seq<AddressAttribute>,
    i: int,
    address: u32,
)
    requires
        0 <= i < attributes.len(),
        attributes[i] == AddressAttribute::Local(address) || attributes[i]
            == AddressAttribute::Address(address),
        forall|j: int| 0 <= j < i ==> #[trigger] attributes[j] is Other,
    ensures
        first_ipv4(attributes) == Some(address),
    decreases attributes.len(),
{
    if i > 0 {
        assert(attributes[0] is Other);
        the_address_is_the_first_among_the_attributes(attributes.drop_first(), i - 1, address);
    }
}

/// Without any IPv4 address among the attributes there is none.
pub proof fn the_address_may_be_missing(attributes: Seq<AddressAttribute>)
    requires
        forall|j: int| 0 <= j < attributes.len() ==> #[trigger] attributes[j] is Other,
    ensures
        first_ipv4(attributes) is None,
    decreases attributes.len(),
{
    if attributes.len() > 0 {
        assert(attributes[0] is Other);
        the_address_may_be_missing(attributes.drop_first());
    }
}

/// What is kept of a route is the route: its table, which an attribute gives where one does and
/// the header otherwise, and everything else that it takes to make the route anew. The request for
/// it names the new interface and changes nothing.
pub proof fn a_route_keeps_everything_but_its_interface(
    route: Route,
    position: usize,
    output_interface: u32,
    index: u32,
)
    ensures
        ({
            let saved = saved_route(route, position);
            let request = rerouted(saved, output_interface);
            &&& saved.position == position
            &&& first_table(route.attributes@) matches Some(table) ==> request.table == table
            &&& first_table(route.attributes@) is None ==> request.table == route.table
            &&& saved.table == request.table
            &&& request.output_interface == output_interface
            &&& request.protocol == route.protocol && saved.protocol == route.protocol
            &&& request.scope == route.scope && saved.scope == route.scope
            &&& request.kind == route.kind && saved.kind == route.kind
            &&& request.onlink == route.onlink && saved.onlink == route.onlink
            &&& request.gateway == last_gateway(route.attributes@)
            &&& saved.gateway == request.gateway
            &&& request.metric == last_priority(route.attributes@)
            &&& saved.metric == request.metric
        }),
        is_default_through(route, index) <==> route.ipv4 && route.destination_prefix_len == 0
            && last_output(route.attributes@) == Some(index),
        table_of(route) == saved_route(route, position).table,
{
}

/// The routes that are kept are default IPv4 routes through the interface, each with what is kept
/// of the route at its position, in the order of their positions.
pub proof fn only_default_routes_are_saved(routes: Seq<Route>, index: u32, k: int, l: int)
    requires
        routes.len() <= usize::MAX,
        0 <= k <= l < saved_routes(routes, index).len(),
    ensures
        ({
            let saved = saved_routes(routes, index);
            let position = saved[k].position as int;
            &&& 0 <= position < routes.len()
            &&& routes[position].ipv4
            &&& routes[position].destination_prefix_len == 0
            &&& last_output(routes[position].attributes@) == Some(index)
            &&& saved[k] == saved_route(routes[position], saved[k].position)
            &&& k < l ==> saved[k].position < saved[l].position
        }),
    decreases routes.len(),
{
    let earlier = routes.drop_last();
    let before = saved_routes(earlier, index);
    let saved = saved_routes(routes, index);
    if k < before.len() {
        assert(saved[k] == before[k]);
        if l < before.len() {
            only_default_routes_are_saved(earlier, index, k, l);
        } else {
            only_default_routes_are_saved(earlier, index, k, k);
        }
        assert(routes[before[k].position as int] == earlier[before[k].position as int]);
    }
}

/// The addresses that are kept are IPv4 addresses of the interface, each with its prefix length,
/// in the order of their positions.
pub proof fn only_ipv4_addresses_are_saved(records: Seq<AddressRecord>, k: int, l: int)
    requires
        records.len() <= usize::MAX,
        0 <= k <= l < saved_addresses(records).len(),
    ensures
        ({
            let saved = saved_addresses(records);
            let position = saved[k].position as int;
            &&& 0 <= position < records.len()
            &&& records[position].ipv4
            &&& first_ipv4(records[position].attributes@) == Some(saved[k].address)
            &&& saved[k].prefix_len == records[position].prefix_len
            &&& k < l ==> saved[k].position < saved[l].position
        }),
    decreases records.len(),
{
    let earlier = records.drop_last();
    let before = saved_addresses(earlier);
    let saved = saved_addresses(records);
    if k < before.len() {
        assert(saved[k] == before[k]);
        if l < before.len() {
            only_ipv4_addresses_are_saved(earlier, k, l);
        } else {
            only_ipv4_addresses_are_saved(earlier, k, k);
        }
        assert(records[before[k].position as int] == earlier[before[k].position as int]);
    }
}

/// No IPv4 address of the interface and no default IPv4 route through it is passed over.
pub proof fn nothing_that_has_to_move_is_passed_over(
    records: Seq<AddressRecord>,
    i: int,
    address: u32,
    routes: Seq<Route>,
    index: u32,
    j: int,
)
    requires
        records.len() <= usize::MAX,
        routes.len() <= usize::MAX,
        0 <= i < records.len(),
        records[i].ipv4,
        first_ipv4(records[i].attributes@) == Some(address),
        0 <= j < routes.len(),
        routes[j].ipv4,
        routes[j].destination_prefix_len == 0,
        last_output(routes[j].attributes@) == Some(index),
    ensures
        saved_addresses(records).contains(
            (SavedIpv4Address {
                position: i as usize,
                address,
                prefix_len: records[i].prefix_len,
            }),
        ),
        saved_routes(routes, index).contains(saved_route(routes[j], j as usize)),
{
    every_ipv4_address_is_saved(records, i);
    every_default_route_is_saved(routes, index, j);
}

} // verus!
