//! The switch table: which clients are connected, and which Ethernet address each of them uses.
use std::collections::HashMap;
use tokio::sync::mpsc::Sender;
use vstd::prelude::*;

use crate::frame::Frame;
use crate::mac::{same_number_same_address, MacAddress};

verus! {

broadcast use vstd::std_specs::hash::group_hash_axioms;

/// The number of a client.
pub type ClientId = u64;

/// What the table knows of a client: the queue of frames for it, and the address it was seen to
/// use.
pub struct ClientHandle {
    pub tx: Sender<Frame>,
    pub mac: Option<MacAddress>,
}

/// The contents of a switch table.
#[verifier::ext_equal]
pub struct TableView {
    /// The connected clients.
    pub clients: Map<ClientId, ClientHandle>,
    /// The client to which each known address leads.
    pub owners: Map<MacAddress, ClientId>,
}

impl TableView {
    /// A table without clients.
    pub open spec fn empty() -> TableView {
        TableView { clients: Map::empty(), owners: Map::empty() }
    }

    /// Every address that a client is known to use leads to that client.
    pub open spec fn well_formed(self) -> bool {
        forall|id: ClientId|
            #![trigger self.clients[id]]
            self.clients.contains_key(id) ==> match self.clients[id].mac {
                Some(mac) => self.leads_to(mac, id),
                None => true,
            }
    }

    /// Besides, every known address leads to a connected client that uses it.
    pub open spec fn consistent(self) -> bool {
        &&& self.well_formed()
        &&& forall|mac: MacAddress|
            #![trigger self.owners[mac]]
            self.owners.contains_key(mac) ==> self.uses(self.owners[mac], mac)
    }

    /// Whether the address leads to the client.
    pub open spec fn leads_to(self, mac: MacAddress, id: ClientId) -> bool {
        self.owners.contains_key(mac) && self.owners[mac] == id
    }

    /// Whether the client is connected and known to use the address.
    pub open spec fn uses(self, id: ClientId, mac: MacAddress) -> bool {
        self.clients.contains_key(id) && self.clients[id].mac == Some(mac)
    }

    /// The table after a client was registered, with its queue and no address yet.
    pub open spec fn registered(self, id: ClientId, tx: Sender<Frame>) -> TableView {
        TableView { clients: self.clients.insert(id, ClientHandle { tx, mac: None }), ..self }
    }

    /// The table without a client, and without the address it used if that leads to it.
    pub open spec fn unregistered(self, id: ClientId) -> TableView {
        if !self.clients.contains_key(id) {
            self
        } else {
            TableView { clients: self.clients.remove(id), owners: self.owners_without(id) }
        }
    }

    /// The known addresses without the one that the client uses, if that leads to it.
    pub open spec fn owners_without(self, id: ClientId) -> Map<MacAddress, ClientId> {
        match self.clients[id].mac {
            Some(mac) if self.leads_to(mac, id) => self.owners.remove(mac),
            _ => self.owners,
        }
    }

    /// Whether it is news that the client uses the address.
    pub open spec fn is_news(self, id: ClientId, mac: MacAddress) -> bool {
        self.clients.contains_key(id) && self.clients[id].mac != Some(mac)
    }

    /// The table after the client was seen to use the address. The address it used before is
    /// forgotten, and so is the address of the client to which the new one led until now.
    pub open spec fn learned(self, id: ClientId, mac: MacAddress) -> TableView {
        if !self.is_news(id, mac) {
            self
        } else {
            let remaining = self.owners_without(id);
            let clients = self.clients.insert(
                id,
                ClientHandle { tx: self.clients[id].tx, mac: Some(mac) },
            );
            TableView {
                clients: if remaining.contains_key(mac) && remaining[mac] != id
                    && clients.contains_key(remaining[mac]) {
                    clients.insert(
                        remaining[mac],
                        ClientHandle { tx: clients[remaining[mac]].tx, mac: None },
                    )
                } else {
                    clients
                },
                owners: remaining.insert(mac, id),
            }
        }
    }

    /// Whether frames for the address can be handed to one connected client.
    pub open spec fn is_known(self, mac: MacAddress) -> bool {
        self.owners.contains_key(mac) && self.clients.contains_key(self.owners[mac])
    }

    /// Whether a frame for the address goes to everybody.
    pub open spec fn is_flooded(self, destination: MacAddress) -> bool {
        destination.is_group() || !self.is_known(destination)
    }

    /// The clients that get a frame that came from a client: all others where it is flooded, else
    /// the one to which its destination leads, unless that is where it came from.
    pub open spec fn targets_from_client(
        self,
        id: ClientId,
        destination: MacAddress,
    ) -> Set<ClientId> {
        if self.is_flooded(destination) {
            self.clients.dom().remove(id)
        } else {
            Set::empty().insert(self.owners[destination]).remove(id)
        }
    }

    /// The clients that get a frame that came from the TAP device: all where it is flooded, else
    /// the one to which its destination leads.
    pub open spec fn targets_from_tap(self, destination: MacAddress) -> Set<ClientId> {
        if self.is_flooded(destination) {
            self.clients.dom()
        } else {
            Set::empty().insert(self.owners[destination])
        }
    }
}

/// The connected clients and the addresses that lead to them.
pub struct SwitchTable {
    clients: HashMap<ClientId, ClientHandle>,
    mac_index: HashMap<u64, ClientId>,
}

/// The addresses whose numbers an index holds, with what it holds for them.
spec fn by_address(index: Map<u64, ClientId>) -> Map<MacAddress, ClientId> {
    Map::new(
        |mac: MacAddress| index.contains_key(mac.number() as u64),
        |mac: MacAddress| index[mac.number() as u64],
    )
}

proof fn by_address_insert(index: Map<u64, ClientId>, mac: MacAddress, id: ClientId)
    ensures
        by_address(index.insert(mac.number() as u64, id)) == by_address(index).insert(mac, id),
{
    assert forall|other: MacAddress| other.number() as u64 == mac.number() as u64 implies other
        == mac by {
        same_number_same_address(other, mac);
    }
    assert(by_address(index.insert(mac.number() as u64, id)) =~= by_address(index).insert(mac, id));
}

proof fn by_address_remove(index: Map<u64, ClientId>, mac: MacAddress)
    ensures
        by_address(index.remove(mac.number() as u64)) == by_address(index).remove(mac),
{
    assert forall|other: MacAddress| other.number() as u64 == mac.number() as u64 implies other
        == mac by {
        same_number_same_address(other, mac);
    }
    assert(by_address(index.remove(mac.number() as u64)) =~= by_address(index).remove(mac));
}

impl View for SwitchTable {
    type V = TableView;

    closed spec fn view(&self) -> TableView {
        TableView { clients: self.clients@, owners: by_address(self.mac_index@) }
    }
}

impl SwitchTable {
    /// A table without clients.
    pub fn new() -> (r: SwitchTable)
        ensures
            r@ == TableView::empty(),
            r@.consistent(),
    {
        let r = SwitchTable { clients: HashMap::new(), mac_index: HashMap::new() };
        assert(r@ =~= TableView::empty());
        r
    }

    /// How many clients are connected.
    pub fn client_count(&self) -> (r: usize)
        ensures
            r == self@.clients.len(),
    {
        self.clients.len()
    }

    /// Connects a client. Whatever was known of a client of that number is forgotten.
    pub fn register(&mut self, id: ClientId, tx: Sender<Frame>)
        ensures
            final(self)@ == old(self)@.registered(id, tx),
            old(self)@.well_formed() ==> final(self)@.well_formed(),
    {
        proof {
            if self@.well_formed() {
                registering_keeps_the_table_sound(self@, id, tx);
            }
        }
        self.clients.insert(id, ClientHandle { tx, mac: None });
    }

    /// Drops the address from the index if it leads to the client.
    fn forget(&mut self, id: ClientId, mac: MacAddress)
        ensures
            final(self)@ == (TableView {
                owners: if old(self)@.leads_to(mac, id) {
                    old(self)@.owners.remove(mac)
                } else {
                    old(self)@.owners
                },
                ..old(self)@
            }),
    {
        let number: u64 = mac.to_number();
        let leads_here = match self.mac_index.get(&number) {
            Some(owner) => *owner == id,
            None => false,
        };
        if leads_here {
            proof {
                by_address_remove(self.mac_index@, mac);
            }
            self.mac_index.remove(&number);
        }
    }

    /// Disconnects a client.
    pub fn unregister(&mut self, id: ClientId)
        ensures
            final(self)@ == old(self)@.unregistered(id),
            old(self)@.well_formed() ==> final(self)@.well_formed(),
    {
        proof {
            if self@.well_formed() {
                unregistering_keeps_the_table_sound(self@, id);
            }
        }
        match self.clients.remove(&id) {
            Some(client) => {
                if let Some(mac) = client.mac {
                    self.forget(id, mac);
                }
            },
            None => {
                assert(self@.clients =~= old(self)@.clients);
            },
        }
    }

    /// Notes that a client uses an address. Says whether that was news.
    pub fn learn(&mut self, id: ClientId, mac: MacAddress) -> (r: bool)
        ensures
            r == old(self)@.is_news(id, mac),
            final(self)@ == old(self)@.learned(id, mac),
            old(self)@.well_formed() ==> final(self)@.well_formed(),
    {
        proof {
            if self@.well_formed() {
                learning_keeps_the_table_sound(self@, id, mac);
            }
        }
        let known = match self.clients.get(&id) {
            Some(client) => client.mac == Some(mac),
            None => true,
        };
        if known {
            return false;
        }
        if let Some(client) = self.clients.remove(&id) {
            if let Some(previous) = client.mac {
                self.forget(id, previous);
            }
            self.clients.insert(id, ClientHandle { tx: client.tx, mac: Some(mac) });
        }
        let number: u64 = mac.to_number();
        proof {
            by_address_insert(self.mac_index@, mac, id);
        }
        if let Some(previous_owner) = self.mac_index.insert(number, id) {
            if previous_owner != id {
                if let Some(previous_client) = self.clients.remove(&previous_owner) {
                    self.clients.insert(
                        previous_owner,
                        ClientHandle { tx: previous_client.tx, mac: None },
                    );
                }
            }
        }
        assert(self@ =~= old(self)@.learned(id, mac));
        true
    }

    /// The client to which an address leads, and its queue.
    pub fn sender_for_mac(&self, mac: MacAddress) -> (r: Option<(ClientId, &Sender<Frame>)>)
        ensures
            r is Some <==> self@.is_known(mac),
            r matches Some((id, tx)) ==> id == self@.owners[mac] && *tx == self@.clients[id].tx,
    {
        match self.mac_index.get(&mac.to_number()) {
            Some(id) => match self.clients.get(id) {
                Some(client) => Some((*id, &client.tx)),
                None => None,
            },
            None => None,
        }
    }

    /// The queue of a connected client.
    pub fn sender(&self, id: ClientId) -> (r: Option<&Sender<Frame>>)
        ensures
            r is Some <==> self@.clients.contains_key(id),
            r matches Some(tx) ==> *tx == self@.clients[id].tx,
    {
        match self.clients.get(&id) {
            Some(client) => Some(&client.tx),
            None => None,
        }
    }

    fn all_connected(&self) -> (r: Vec<ClientId>)
        ensures
            r@.no_duplicates(),
            r@.to_set() == self@.clients.dom(),
    {
        let mut found: Vec<ClientId> = Vec::new();
        for id in iter: self.clients.keys()
            invariant
                found@.len() == iter.index(),
                forall|j: int| 0 <= j < found@.len() ==> found@[j] == *iter.seq()[j],
                iter.seq().unref().to_set() == self.clients@.dom(),
                iter.seq().no_duplicates(),
                iter.index() == iter.seq().len() ==> found@ == iter.seq().unref(),
        {
            found.push(*id);
        }
        found
    }

    /// The connected clients, but for one that may be left out, in no particular order.
    pub fn connected(&self, left_out: Option<ClientId>) -> (r: Vec<ClientId>)
        ensures
            r@.no_duplicates(),
            r@.to_set() == match left_out {
                Some(id) => self@.clients.dom().remove(id),
                None => self@.clients.dom(),
            },
    {
        let all = self.all_connected();
        let mut found: Vec<ClientId> = Vec::new();
        let mut i: usize = 0;
        while i < all.len()
            invariant
                i <= all@.len(),
                all@.no_duplicates(),
                found@.no_duplicates(),
                forall|j: int|
                    0 <= j < found@.len() ==> left_out != Some(#[trigger] found@[j])
                        && all@.take(i as int).contains(found@[j]),
                forall|k: int|
                    0 <= k < i && left_out != Some(all@[k]) ==> found@.contains(#[trigger] all@[k]),
            decreases all.len() - i,
        {
            let id: ClientId = all[i];
            let skip = match left_out {
                Some(other) => id == other,
                None => false,
            };
            let ghost before = found@;
            if !skip {
                found.push(id);
            }
            proof {
                let seen = all@.take(i as int);
                let now = all@.take(i + 1);
                assert(now[i as int] == id);
                assert(!seen.contains(id));
                assert forall|x: ClientId| seen.contains(x) implies now.contains(x) by {
                    assert(now[seen.index_of(x)] == x);
                }
                assert forall|x: ClientId| before.contains(x) implies found@.contains(x) by {
                    assert(found@[before.index_of(x)] == x);
                }
                if !skip {
                    assert(found@[before.len() as int] == id);
                }
            }
            i = i + 1;
        }
        proof {
            assert(all@.take(i as int) =~= all@);
            assert forall|x: ClientId| found@.contains(x) <==> all@.contains(x) && left_out != Some(
                x,
            ) by {
                if all@.contains(x) && left_out != Some(x) {
                    assert(found@.contains(all@[all@.index_of(x)]));
                }
            }
            assert(forall|x: ClientId| all@.contains(x) <==> all@.to_set().contains(x));
        }
        found
    }
}

/// Registering a client keeps the table well formed, and consistent where the number is new.
pub proof fn registering_keeps_the_table_sound(t: TableView, id: ClientId, tx: Sender<Frame>)
    requires
        t.well_formed(),
    ensures
        t.registered(id, tx).well_formed(),
        t.consistent() && !t.clients.contains_key(id) ==> t.registered(id, tx).consistent(),
{
    let next = t.registered(id, tx);
    assert forall|other: ClientId|
        #![trigger next.clients[other]]
        next.clients.contains_key(other) implies match next.clients[other].mac {
        Some(mac) => next.leads_to(mac, other),
        None => true,
    } by {
        if other != id {
            assert(next.clients[other] == t.clients[other]);
        }
    }
    if t.consistent() && !t.clients.contains_key(id) {
        assert forall|mac: MacAddress|
            #![trigger next.owners[mac]]
            next.owners.contains_key(mac) implies next.uses(next.owners[mac], mac) by {
            assert(t.uses(t.owners[mac], mac));
        }
    }
}

/// Unregistering a client keeps the table well formed, and consistent.
pub proof fn unregistering_keeps_the_table_sound(t: TableView, id: ClientId)
    requires
        t.well_formed(),
    ensures
        t.unregistered(id).well_formed(),
        t.consistent() ==> t.unregistered(id).consistent(),
{
    let next = t.unregistered(id);
    assert forall|other: ClientId|
        #![trigger next.clients[other]]
        next.clients.contains_key(other) implies match next.clients[other].mac {
        Some(mac) => next.leads_to(mac, other),
        None => true,
    } by {
        assert(next.clients[other] == t.clients[other]);
        if t.clients.contains_key(id) {
            let _ = t.clients[id];
        }
    }
    if t.consistent() {
        assert forall|mac: MacAddress|
            #![trigger next.owners[mac]]
            next.owners.contains_key(mac) implies next.uses(next.owners[mac], mac) by {
            assert(next.owners[mac] == t.owners[mac]);
            assert(t.uses(t.owners[mac], mac));
        }
    }
}

/// The table after a client was seen to use some addresses, one after the other.
pub open spec fn learned_all(t: TableView, id: ClientId, macs: Seq<MacAddress>) -> TableView
    decreases macs.len(),
{
    if macs.len() == 0 {
        t
    } else {
        learned_all(t, id, macs.drop_last()).learned(id, macs.last())
    }
}

/// A client that joins, uses addresses that nobody else was seen to use, and leaves again leaves
/// no trace.
pub proof fn leaving_undoes_joining(
    t: TableView,
    id: ClientId,
    tx: Sender<Frame>,
    macs: Seq<MacAddress>,
)
    requires
        !t.clients.contains_key(id),
        forall|i: int| 0 <= i < macs.len() ==> !t.owners.contains_key(#[trigger] macs[i]),
    ensures
        learned_all(t.registered(id, tx), id, macs).unregistered(id) == t,
{
    learning_touches_only_the_learner(t, id, tx, macs);
    assert(learned_all(t.registered(id, tx), id, macs).unregistered(id) =~= t);
}

proof fn learning_touches_only_the_learner(
    t: TableView,
    id: ClientId,
    tx: Sender<Frame>,
    macs: Seq<MacAddress>,
)
    requires
        !t.clients.contains_key(id),
        forall|i: int| 0 <= i < macs.len() ==> !t.owners.contains_key(#[trigger] macs[i]),
    ensures
        ({
            let now = learned_all(t.registered(id, tx), id, macs);
            let mac = if macs.len() == 0 {
                None
            } else {
                Some(macs.last())
            };
            &&& now.clients == t.clients.insert(id, ClientHandle { tx, mac })
            &&& now.owners == (if macs.len() == 0 {
                t.owners
            } else {
                t.owners.insert(macs.last(), id)
            })
        }),
    decreases macs.len(),
{
    if macs.len() > 0 {
        let earlier = macs.drop_last();
        learning_touches_only_the_learner(t, id, tx, earlier);
        let before = learned_all(t.registered(id, tx), id, earlier);
        let now = before.learned(id, macs.last());
        assert(!t.owners.contains_key(macs[macs.len() - 1]));
        if earlier.len() > 0 {
            assert(!t.owners.contains_key(macs[earlier.len() - 1]));
            assert(earlier.last() == macs[earlier.len() - 1]);
        }
        assert(before.is_news(id, macs.last()) ==> before.owners_without(id) =~= t.owners);
        assert(now.clients =~= t.clients.insert(id, ClientHandle { tx, mac: Some(macs.last()) }));
        assert(now.owners =~= t.owners.insert(macs.last(), id));
    }
}

/// Learning an address keeps the table well formed, and consistent.
pub proof fn learning_keeps_the_table_sound(t: TableView, id: ClientId, mac: MacAddress)
    requires
        t.well_formed(),
    ensures
        t.learned(id, mac).well_formed(),
        t.consistent() ==> t.learned(id, mac).consistent(),
{
    let next = t.learned(id, mac);
    if t.is_news(id, mac) {
        let remaining = t.owners_without(id);
        assert forall|other: ClientId|
            #![trigger next.clients[other]]
            next.clients.contains_key(other) implies match next.clients[other].mac {
            Some(used) => next.leads_to(used, other),
            None => true,
        } by {
            if other != id {
                let _ = t.clients[other];
                let _ = t.clients[id];
                if next.clients[other].mac is Some {
                    let used = next.clients[other].mac->0;
                    assert(t.clients[other].mac == Some(used));
                    assert(t.leads_to(used, other));
                    assert(remaining.contains_key(used) && remaining[used] == other);
                    assert(used != mac);
                }
            }
        }
        if t.consistent() {
            assert forall|used: MacAddress|
                #![trigger next.owners[used]]
                next.owners.contains_key(used) implies next.uses(next.owners[used], used) by {
                if used != mac {
                    assert(next.owners[used] == t.owners[used]);
                    assert(t.uses(t.owners[used], used));
                    let owner = t.owners[used];
                    if owner == id {
                        assert(t.clients[id].mac == Some(used));
                        assert(t.leads_to(used, id));
                        assert(!remaining.contains_key(used));
                    }
                    if remaining.contains_key(mac) {
                        assert(t.uses(t.owners[mac], mac));
                    }
                }
            }
        }
    }
}

/// Once a connected client was seen to use an address, the address leads to it.
pub proof fn a_learned_address_leads_to_its_client(t: TableView, id: ClientId, mac: MacAddress)
    requires
        t.well_formed(),
        t.clients.contains_key(id),
    ensures
        t.learned(id, mac).leads_to(mac, id),
        t.learned(id, mac).uses(id, mac),
        t.learned(id, mac).is_known(mac),
        t.learned(id, mac).clients[id].tx == t.clients[id].tx,
{
    let _ = t.clients[id];
}

/// To learn the same address a second time changes nothing and is no news.
pub proof fn learning_twice_is_learning_once(t: TableView, id: ClientId, mac: MacAddress)
    ensures
        !t.learned(id, mac).is_news(id, mac),
        t.learned(id, mac).learned(id, mac) == t.learned(id, mac),
{
}

/// Neither learning nor forgetting an address connects or disconnects anybody, or changes a queue.
pub proof fn learning_keeps_the_clients(t: TableView, id: ClientId, mac: MacAddress)
    ensures
        t.learned(id, mac).clients.dom() == t.clients.dom(),
        forall|other: ClientId|
            t.clients.contains_key(other) ==> (#[trigger] t.learned(id, mac).clients[other]).tx
                == t.clients[other].tx,
{
    assert(t.learned(id, mac).clients.dom() =~= t.clients.dom());
}

/// No two clients use the same address.
pub proof fn an_address_has_one_user(t: TableView, a: ClientId, b: ClientId, mac: MacAddress)
    requires
        t.well_formed(),
        t.uses(a, mac),
        t.uses(b, mac),
    ensures
        a == b,
{
    let _ = t.clients[a];
    let _ = t.clients[b];
    assert(t.leads_to(mac, a));
    assert(t.leads_to(mac, b));
}

/// A client that left gets no more frames, and no address leads to it.
pub proof fn a_departed_client_gets_nothing(
    t: TableView,
    id: ClientId,
    sender: ClientId,
    destination: MacAddress,
)
    requires
        t.consistent(),
    ensures
        !t.unregistered(id).targets_from_client(sender, destination).contains(id),
        !t.unregistered(id).targets_from_tap(destination).contains(id),
        !t.unregistered(id).leads_to(destination, id),
{
    unregistering_keeps_the_table_sound(t, id);
    let next = t.unregistered(id);
    if next.leads_to(destination, id) {
        assert(next.uses(next.owners[destination], destination));
    }
}

/// A frame never goes back to the client it came from, and only connected clients get it.
pub proof fn a_frame_is_not_echoed(t: TableView, id: ClientId, destination: MacAddress)
    ensures
        !t.targets_from_client(id, destination).contains(id),
        t.targets_from_client(id, destination).subset_of(t.clients.dom()),
        t.targets_from_tap(destination).subset_of(t.clients.dom()),
{
}

/// A broadcast or multicast frame, and one for an address that nobody was seen to use, goes to
/// every other client.
pub proof fn group_and_unknown_frames_are_flooded(
    t: TableView,
    id: ClientId,
    destination: MacAddress,
)
    requires
        destination.is_group() || !t.owners.contains_key(destination),
    ensures
        t.is_flooded(destination),
        t.targets_from_client(id, destination) == t.clients.dom().remove(id),
        t.targets_from_tap(destination) == t.clients.dom(),
{
}

/// Once a client was seen to use an address, a frame for it from another client or from the TAP
/// device goes to that client alone.
pub proof fn a_known_destination_gets_the_frame_alone(
    t: TableView,
    id: ClientId,
    mac: MacAddress,
    sender: ClientId,
)
    requires
        t.well_formed(),
        t.clients.contains_key(id),
        !mac.is_group(),
        sender != id,
    ensures
        t.learned(id, mac).targets_from_client(sender, mac) == Set::empty().insert(id),
        t.learned(id, mac).targets_from_tap(mac) == Set::empty().insert(id),
        !t.learned(id, mac).is_flooded(mac),
{
    a_learned_address_leads_to_its_client(t, id, mac);
    assert(t.learned(id, mac).targets_from_client(sender, mac) =~= Set::empty().insert(id));
}

/// A client that joins is connected with its queue and no address; nobody else and no known
/// address is touched.
pub proof fn joining_adds_one_client(t: TableView, id: ClientId, tx: Sender<Frame>)
    ensures
        t.registered(id, tx).clients.contains_key(id),
        t.registered(id, tx).clients[id].tx == tx,
        t.registered(id, tx).clients[id].mac is None,
        forall|other: ClientId|
            other != id ==> (#[trigger] t.registered(id, tx).clients.contains_key(other)
                <==> t.clients.contains_key(other)),
        forall|other: ClientId|
            other != id && t.clients.contains_key(other) ==> #[trigger] t.registered(
                id,
                tx,
            ).clients[other] == t.clients[other],
        t.registered(id, tx).owners == t.owners,
        TableView::empty().clients.dom() == Set::<ClientId>::empty(),
        TableView::empty().owners.dom() == Set::<MacAddress>::empty(),
{
    assert(TableView::empty().clients.dom() =~= Set::<ClientId>::empty());
    assert(TableView::empty().owners.dom() =~= Set::<MacAddress>::empty());
}

/// A client that leaves is no longer connected, and the address it used no longer leads to it;
/// nobody else and no other address is touched.
pub proof fn leaving_removes_one_client(t: TableView, id: ClientId, mac: MacAddress)
    ensures
        !t.unregistered(id).clients.contains_key(id),
        forall|other: ClientId|
            other != id ==> (#[trigger] t.unregistered(id).clients.contains_key(other)
                <==> t.clients.contains_key(other)),
        forall|other: ClientId|
            other != id && t.clients.contains_key(other) ==> #[trigger] t.unregistered(
                id,
            ).clients[other] == t.clients[other],
        t.unregistered(id).owners.contains_key(mac) <==> t.owners.contains_key(mac) && !(
        t.clients.contains_key(id) && t.clients[id].mac == Some(mac) && t.owners[mac] == id),
        t.unregistered(id).owners.contains_key(mac) ==> t.unregistered(id).owners[mac]
            == t.owners[mac],
{
}

/// When a connected client is seen to use an address, that address leads to it and is its only
/// one. Whoever it led to before is known by no address any more; every other client and every
/// other address stays as it was. A client that is not connected teaches nothing.
pub proof fn learning_moves_one_address(
    t: TableView,
    id: ClientId,
    mac: MacAddress,
    other: ClientId,
    another: MacAddress,
)
    requires
        t.clients.contains_key(id) && t.clients[id].mac == Some(mac) ==> t.owners.contains_key(mac)
            && t.owners[mac] == id,
        other != id,
        another != mac,
    ensures
        t.is_news(id, mac) <==> t.clients.contains_key(id) && t.clients[id].mac != Some(mac),
        !t.clients.contains_key(id) ==> t.learned(id, mac) == t,
        t.clients.contains_key(id) ==> {
            let now = t.learned(id, mac);
            let lost = t.owners.contains_key(mac) && t.owners[mac] == other;
            &&& now.clients[id].mac == Some(mac)
            &&& now.clients[id].tx == t.clients[id].tx
            &&& now.owners.contains_key(mac) && now.owners[mac] == id
            &&& now.clients.contains_key(other) <==> t.clients.contains_key(other)
            &&& t.clients.contains_key(other) && lost ==> now.clients[other].mac is None
            &&& t.clients.contains_key(other) && !lost ==> now.clients[other].mac
                == t.clients[other].mac
            &&& t.clients.contains_key(other) ==> now.clients[other].tx == t.clients[other].tx
            &&& now.owners.contains_key(another) <==> t.owners.contains_key(another) && !(
            t.clients[id].mac == Some(another) && t.owners[another] == id)
            &&& now.owners.contains_key(another) ==> now.owners[another] == t.owners[another]
        },
{
    let _ = t.clients[id];
    let _ = t.clients[other];
}

/// In a consistent table an address leads to a client exactly where that client is connected and
/// is known to use it.
pub proof fn a_consistent_table_reads_the_same_both_ways(
    t: TableView,
    id: ClientId,
    mac: MacAddress,
)
    requires
        t.consistent(),
    ensures
        t.owners.contains_key(mac) && t.owners[mac] == id <==> t.clients.contains_key(id)
            && t.clients[id].mac == Some(mac),
        t.leads_to(mac, id) <==> t.owners.contains_key(mac) && t.owners[mac] == id,
        t.uses(id, mac) <==> t.clients.contains_key(id) && t.clients[id].mac == Some(mac),
{
    let _ = t.clients[id];
    if t.owners.contains_key(mac) {
        assert(t.uses(t.owners[mac], mac));
    }
}

/// In a well formed table an address that a connected client is known to use leads to that client.
pub proof fn a_well_formed_table_leads_to_every_user(t: TableView, id: ClientId, mac: MacAddress)
    requires
        t.well_formed(),
        t.clients.contains_key(id),
        t.clients[id].mac == Some(mac),
    ensures
        t.owners.contains_key(mac),
        t.owners[mac] == id,
{
}

/// Who gets a frame: where its destination has an odd first byte, or leads to no connected client,
/// everybody but its sender, and otherwise only the client to which the destination leads, if that
/// is not the sender. A frame from the TAP device has no sender among the clients.
pub proof fn a_frame_goes_to_its_owner_or_to_all_others(
    t: TableView,
    sender: ClientId,
    destination: MacAddress,
    id: ClientId,
)
    ensures
        ({
            let to_one = destination.0@[0] as int % 2 == 0 && t.owners.contains_key(destination)
                && t.clients.contains_key(t.owners[destination]);
            &&& t.is_known(destination) <==> t.owners.contains_key(destination)
                && t.clients.contains_key(t.owners[destination])
            &&& t.is_flooded(destination) <==> !to_one
            &&& to_one ==> (t.targets_from_client(sender, destination).contains(id) <==> id
                == t.owners[destination] && id != sender)
            &&& to_one ==> (t.targets_from_tap(destination).contains(id) <==> id
                == t.owners[destination])
            &&& !to_one ==> (t.targets_from_client(sender, destination).contains(id)
                <==> t.clients.contains_key(id) && id != sender)
            &&& !to_one ==> (t.targets_from_tap(destination).contains(id)
                <==> t.clients.contains_key(id))
        }),
{
}

} // verus!
