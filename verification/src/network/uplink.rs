//! Which interface is the uplink.
use vstd::prelude::*;

use crate::cli::Cli;
use crate::network::error::NetworkError;
use crate::network::link::{link_name, text_of, Link};
use crate::network::route::{first_output, first_priority, output_interface, priority, Route};
use crate::text::string_views;

verus! {

/// An interface of the host.
#[derive(Debug)]
pub struct NetDevice {
    pub name: String,
    /// Whether a physical device is behind it.
    pub physical: bool,
}

/// Whether the interface could be the uplink: a physical one that is not the loopback.
pub open spec fn could_be_uplink(device: NetDevice) -> bool {
    device.physical && device.name@ != "lo"@
}

/// The names of the interfaces that could be the uplink.
pub open spec fn physical_names(devices: Seq<NetDevice>) -> Seq<Seq<char>>
    decreases devices.len(),
{
    if devices.len() == 0 {
        Seq::empty()
    } else {
        let before = physical_names(devices.drop_last());
        if could_be_uplink(devices.last()) {
            before.push(devices.last().name@)
        } else {
            before
        }
    }
}

/// Whether the answer is the only interface that could be the uplink, nothing where there is none,
/// and an error that names them all where there are several.
pub open spec fn is_single_physical(
    devices: Seq<NetDevice>,
    answer: Result<Option<String>, NetworkError>,
) -> bool {
    let names = physical_names(devices);
    if names.len() == 0 {
        answer matches Ok(None)
    } else if names.len() == 1 {
        answer matches Ok(Some(name)) && name@ == names[0]
    } else {
        answer matches Err(NetworkError::SeveralPhysicalInterfaces { names: found })
            && string_views(found@) == names
    }
}

/// The only interface that could be the uplink.
pub fn single_physical_uplink_if(devices: &Vec<NetDevice>) -> (r: Result<
    Option<String>,
    NetworkError,
>)
    ensures
        is_single_physical(devices@, r),
{
    let loopback = "lo".to_owned();
    let mut names: Vec<String> = Vec::new();
    let mut i: usize = 0;
    assert(devices@.take(0) =~= Seq::empty());
    assert(string_views(names@) =~= Seq::empty());
    while i < devices.len()
        invariant
            i <= devices.len(),
            loopback@ == "lo"@,
            string_views(names@) == physical_names(devices@.take(i as int)),
        decreases devices.len() - i,
    {
        let device = &devices[i];
        assert(devices@.take(i + 1).drop_last() =~= devices@.take(i as int));
        if device.physical && !device.name.eq(&loopback) {
            let ghost before = names@;
            let name = device.name.clone();
            names.push(name);
            assert(string_views(names@) =~= string_views(before).push(device.name@));
        }
        i = i + 1;
    }
    assert(devices@.take(i as int) =~= devices@);
    if names.len() == 0 {
        return Ok(None);
    }
    if names.len() == 1 {
        assert(string_views(names@)[0] == names@[0]@);
        return Ok(Some(names[0].clone()));
    }
    Err(NetworkError::SeveralPhysicalInterfaces { names })
}

/// The uplink that is used where none is given: the interface of the default route, else the only
/// physical interface.
pub fn default_uplink_if(by_route: Option<String>, devices: &Vec<NetDevice>) -> (r: Result<
    Option<String>,
    NetworkError,
>)
    ensures
        by_route is Some ==> r == Ok::<Option<String>, NetworkError>(by_route),
        by_route is None ==> is_single_physical(devices@, r),
{
    match by_route {
        Some(name) => Ok(Some(name)),
        None => single_physical_uplink_if(devices),
    }
}

/// The uplink: the one that is given, else the one that was found. Outside Linux there is no way
/// to look for one.
pub fn resolve_uplink_if(cli: &Cli, on_linux: bool, found: Option<String>) -> (r: Result<
    String,
    NetworkError,
>)
    ensures
        cli.uplink_if matches Some(given) ==> r matches Ok(name) && name@ == given@,
        cli.uplink_if is None && on_linux && found is Some ==> r == Ok::<String, NetworkError>(
            found->0,
        ),
        cli.uplink_if is None && on_linux && found is None ==> r == Err::<String, NetworkError>(
            NetworkError::UplinkUndetermined,
        ),
        cli.uplink_if is None && !on_linux ==> r == Err::<String, NetworkError>(
            NetworkError::UplinkNotSet,
        ),
{
    match &cli.uplink_if {
        Some(given) => Ok(given.clone()),
        None => if !on_linux {
            Err(NetworkError::UplinkNotSet)
        } else {
            match found {
                Some(name) => Ok(name),
                None => Err(NetworkError::UplinkUndetermined),
            }
        },
    }
}

/// The interface and the metric of a default IPv4 route, where it names an interface. A route
/// without a metric has the metric zero.
pub open spec fn candidate(route: Route) -> Option<(u32, u32)> {
    if !route.is_default_ipv4() {
        None
    } else {
        match first_output(route.attributes@) {
            Some(output) => Some(
                (
                    output,
                    match first_priority(route.attributes@) {
                        Some(metric) => metric,
                        None => 0,
                    },
                ),
            ),
            None => None,
        }
    }
}

/// The metric of a default route, or nothing where the route does not count.
pub open spec fn metric_of(route: Route) -> Option<u32> {
    match candidate(route) {
        Some((_, metric)) => Some(metric),
        None => None,
    }
}

/// Whether route `i` is the best of the default routes: none has a smaller metric, and none
/// before it has the same.
pub open spec fn is_best(routes: Seq<Route>, i: int) -> bool {
    &&& 0 <= i < routes.len()
    &&& metric_of(routes[i]) is Some
    &&& forall|j: int|
        0 <= j < routes.len() && #[trigger] metric_of(routes[j]) is Some ==> metric_of(routes[i])->0
            < metric_of(routes[j])->0 || (metric_of(routes[i])->0 == metric_of(routes[j])->0 && i
            <= j)
}

/// The search for the best default route among routes that come one at a time.
pub struct RouteSearch {
    best: Option<(u32, u32)>,
    seen: Ghost<Seq<Route>>,
}

impl RouteSearch {
    /// The routes that came so far.
    pub closed spec fn seen(self) -> Seq<Route> {
        self.seen@
    }

    /// Whether the search remembers the best of the routes that came so far.
    #[verifier::type_invariant]
    spec fn sound(self) -> bool {
        match self.best {
            Some(best) => exists|i: int| #[trigger]
                is_best(self.seen@, i) && candidate(self.seen@[i]) == Some(best),
            None => forall|i: int|
                0 <= i < self.seen@.len() ==> #[trigger] metric_of(self.seen@[i]) is None,
        }
    }

    /// A search to which no route came.
    pub fn new() -> (r: RouteSearch)
        ensures
            r.seen() == Seq::<Route>::empty(),
    {
        RouteSearch { best: None, seen: Ghost(Seq::empty()) }
    }

    /// Takes one more route into account.
    pub fn offer(self, route: &Route) -> (r: RouteSearch)
        ensures
            r.seen() == self.seen().push(*route),
    {
        proof {
            use_type_invariant(&self);
        }
        let ghost before = self.seen@;
        let ghost now = before.push(*route);
        let mut best: Option<(u32, u32)> = self.best;
        let counts = route.ipv4 && route.destination_prefix_len == 0;
        if counts {
            if let Some(output) = output_interface(route) {
                let metric: u32 = match priority(route) {
                    Some(metric) => metric,
                    None => 0,
                };
                let better = match best {
                    Some((_, best_metric)) => metric < best_metric,
                    None => true,
                };
                assert(candidate(*route) == Some((output, metric)));
                if better {
                    best = Some((output, metric));
                }
            }
        }
        proof {
            let last = before.len() as int;
            assert(now[last] == *route);
            assert forall|j: int| 0 <= j < before.len() implies now[j] == before[j] by {}
            match self.best {
                Some(old_best) => {
                    let i = choose|i: int| #[trigger]
                        is_best(before, i) && candidate(before[i]) == Some(old_best);
                    assert(metric_of(before[i]) == Some(old_best.1));
                    if best == self.best {
                        assert(is_best(now, i)) by {
                            assert forall|j: int|
                                0 <= j < now.len() && #[trigger] metric_of(now[j]) is Some implies
                                metric_of(now[i])->0 < metric_of(now[j])->0 || (metric_of(
                                now[i],
                            )->0 == metric_of(now[j])->0 && i <= j) by {
                                if j < last {
                                    assert(metric_of(before[j]) is Some);
                                }
                            }
                        }
                    } else {
                        assert(is_best(now, last)) by {
                            assert forall|j: int|
                                0 <= j < now.len() && #[trigger] metric_of(now[j]) is Some implies
                                metric_of(now[last])->0 < metric_of(now[j])->0 || (metric_of(
                                now[last],
                            )->0 == metric_of(now[j])->0 && last <= j) by {
                                if j < last {
                                    assert(metric_of(before[j]) is Some);
                                }
                            }
                        }
                    }
                },
                None => {
                    if best is Some {
                        assert(is_best(now, last)) by {
                            assert forall|j: int|
                                0 <= j < now.len() && #[trigger] metric_of(now[j]) is Some implies
                                metric_of(now[last])->0 < metric_of(now[j])->0 || (metric_of(
                                now[last],
                            )->0 == metric_of(now[j])->0 && last <= j) by {
                                if j < last {
                                    assert(metric_of(before[j]) is None);
                                }
                            }
                        }
                    } else {
                        assert forall|j: int| 0 <= j < now.len() implies #[trigger] metric_of(
                            now[j],
                        ) is None by {
                            if j < last {
                                assert(metric_of(before[j]) is None);
                            }
                        }
                    }
                },
            }
        }
        RouteSearch { best, seen: Ghost(now) }
    }

    /// The index of the interface of the best default route: of those with the smallest metric
    /// the one that came first. Nothing where no default route came.
    pub fn best_interface(&self) -> (r: Option<u32>)
        ensures
            r matches Some(index) ==> exists|i: int| #[trigger]
                is_best(self.seen(), i) && first_output(self.seen()[i].attributes@) == Some(index),
            r is None ==> forall|i: int|
                0 <= i < self.seen().len() ==> #[trigger] metric_of(self.seen()[i]) is None,
    {
        proof {
            use_type_invariant(self);
        }
        match self.best {
            Some((output, _)) => Some(output),
            None => None,
        }
    }
}

/// The name of the interface of the best default route, given the interface that has its index.
pub fn default_route_uplink_if(found: Option<Link>) -> (r: Option<String>)
    ensures
        text_of(r) == (match found {
            Some(link) => link.name(),
            None => None,
        }),
{
    match found {
        Some(link) => link_name(&link),
        None => None,
    }
}

/// There is at most one best route.
pub proof fn the_best_route_is_unique(routes: Seq<Route>, i: int, j: int)
    requires
        is_best(routes, i),
        is_best(routes, j),
    ensures
        i == j,
{
    assert(metric_of(routes[i]) is Some && metric_of(routes[j]) is Some);
}

/// Whether the interface is a physical one other than the loopback.
pub open spec fn is_physical(device: NetDevice) -> bool {
    device.physical && device.name@ != "lo"@
}

proof fn physical_names_of_both(a: Seq<NetDevice>, b: Seq<NetDevice>)
    ensures
        physical_names(a + b) == physical_names(a) + physical_names(b),
    decreases b.len(),
{
    if b.len() == 0 {
        assert(a + b =~= a);
        assert(physical_names(a + b) =~= physical_names(a) + physical_names(b));
    } else {
        physical_names_of_both(a, b.drop_last());
        assert((a + b).drop_last() =~= a + b.drop_last());
        assert((a + b).last() == b.last());
        assert(physical_names(a + b) =~= physical_names(a) + physical_names(b));
    }
}

proof fn no_physical_names(devices: Seq<NetDevice>)
    requires
        forall|i: int| 0 <= i < devices.len() ==> !is_physical(#[trigger] devices[i]),
    ensures
        physical_names(devices) == Seq::<Seq<char>>::empty(),
    decreases devices.len(),
{
    if devices.len() > 0 {
        assert(!is_physical(devices[devices.len() - 1]));
        no_physical_names(devices.drop_last());
    }
}

proof fn one_physical_name(device: NetDevice)
    requires
        is_physical(device),
    ensures
        physical_names(seq![device]) == seq![device.name@],
{
    assert(seq![device].drop_last() =~= Seq::empty());
    reveal_with_fuel(physical_names, 2);
    assert(physical_names(seq![device]) =~= seq![device.name@]);
}

/// Without any physical interface no uplink is found.
pub proof fn no_physical_interface_is_no_uplink(
    devices: Seq<NetDevice>,
    answer: Result<Option<String>, NetworkError>,
)
    requires
        is_single_physical(devices, answer),
        forall|i: int| 0 <= i < devices.len() ==> !is_physical(#[trigger] devices[i]),
    ensures
        answer matches Ok(None),
{
    no_physical_names(devices);
}

/// The only physical interface is the uplink.
pub proof fn the_only_physical_interface_is_the_uplink(
    devices: Seq<NetDevice>,
    answer: Result<Option<String>, NetworkError>,
    i: int,
)
    requires
        is_single_physical(devices, answer),
        0 <= i < devices.len(),
        is_physical(devices[i]),
        forall|j: int| 0 <= j < devices.len() && j != i ==> !is_physical(#[trigger] devices[j]),
    ensures
        answer matches Ok(Some(name)) && name@ == devices[i].name@,
{
    let front = devices.take(i);
    let back = devices.skip(i + 1);
    no_physical_names(front);
    no_physical_names(back);
    one_physical_name(devices[i]);
    physical_names_of_both(front, seq![devices[i]]);
    physical_names_of_both(front + seq![devices[i]], back);
    assert(front + seq![devices[i]] + back =~= devices);
    assert(physical_names(devices) =~= seq![devices[i].name@]);
}

/// Of several physical interfaces none is chosen: the error names each of them, in order.
pub proof fn several_physical_interfaces_are_an_error(
    devices: Seq<NetDevice>,
    answer: Result<Option<String>, NetworkError>,
    i: int,
    j: int,
)
    requires
        is_single_physical(devices, answer),
        0 <= i < j < devices.len(),
        is_physical(devices[i]),
        is_physical(devices[j]),
    ensures
        answer matches Err(NetworkError::SeveralPhysicalInterfaces { names }) && exists|k: int, l: int|
            0 <= k < l < names@.len() && #[trigger] names@[k]@ == devices[i].name@
                && #[trigger] names@[l]@ == devices[j].name@,
{
    let a = devices.take(i);
    let b = devices.subrange(i + 1, j);
    let c = devices.skip(j + 1);
    let di = seq![devices[i]];
    let dj = seq![devices[j]];
    one_physical_name(devices[i]);
    one_physical_name(devices[j]);
    physical_names_of_both(a, di);
    physical_names_of_both(a + di, b);
    physical_names_of_both(a + di + b, dj);
    physical_names_of_both(a + di + b + dj, c);
    assert(a + di + b + dj + c =~= devices);
    let all = physical_names(devices);
    let k = physical_names(a).len() as int;
    let l = k + 1 + physical_names(b).len();
    assert(all[k] == devices[i].name@);
    assert(all[l] == devices[j].name@);
    if let Err(NetworkError::SeveralPhysicalInterfaces { names }) = answer {
        assert(string_views(names@)[k] == names@[k]@);
        assert(string_views(names@)[l] == names@[l]@);
        assert(0 <= k < l < names@.len() && names@[k]@ == devices[i].name@ && names@[l]@
            == devices[j].name@);
    }
}

/// The metric of a route: the first that it has, or zero where it has none.
pub open spec fn route_metric(route: Route) -> int {
    match first_priority(route.attributes@) {
        Some(metric) => metric as int,
        None => 0,
    }
}

/// Whether a route counts: a default IPv4 route that names an interface.
pub open spec fn counts_as_default(route: Route) -> bool {
    route.ipv4 && route.destination_prefix_len == 0 && first_output(route.attributes@) is Some
}

/// The best route is a default IPv4 route that names an interface, has the smallest metric of all
/// such routes, and is the first of those with that metric. No other route counts.
pub proof fn the_best_route_has_the_smallest_metric(routes: Seq<Route>, i: int)
    ensures
        is_best(routes, i) <==> {
            &&& 0 <= i < routes.len()
            &&& counts_as_default(routes[i])
            &&& forall|j: int|
                0 <= j < routes.len() && counts_as_default(#[trigger] routes[j]) ==> route_metric(
                    routes[i],
                ) < route_metric(routes[j]) || (route_metric(routes[i]) == route_metric(routes[j])
                    && i <= j)
        },
        0 <= i < routes.len() && counts_as_default(routes[i]) ==> candidate(routes[i]) == Some(
            (first_output(routes[i].attributes@)->0, route_metric(routes[i]) as u32),
        ),
        0 <= i < routes.len() && !counts_as_default(routes[i]) ==> candidate(routes[i]) is None
            && metric_of(routes[i]) is None,
{
    if is_best(routes, i) {
        assert forall|j: int|
            0 <= j < routes.len() && counts_as_default(#[trigger] routes[j]) implies route_metric(
            routes[i],
        ) < route_metric(routes[j]) || (route_metric(routes[i]) == route_metric(routes[j]) && i
            <= j) by {
            assert(metric_of(routes[j]) is Some);
        }
    }
    if {
        &&& 0 <= i < routes.len()
        &&& counts_as_default(routes[i])
        &&& forall|j: int|
            0 <= j < routes.len() && counts_as_default(#[trigger] routes[j]) ==> route_metric(
                routes[i],
            ) < route_metric(routes[j]) || (route_metric(routes[i]) == route_metric(routes[j]) && i
                <= j)
    } {
        assert forall|j: int|
            0 <= j < routes.len() && #[trigger] metric_of(routes[j]) is Some implies metric_of(
            routes[i],
        )->0 < metric_of(routes[j])->0 || (metric_of(routes[i])->0 == metric_of(routes[j])->0 && i
            <= j) by {
            assert(counts_as_default(routes[j]));
        }
    }
}

} // verus!
