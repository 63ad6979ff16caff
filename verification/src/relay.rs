//! The state of the relay, and what becomes of the frames that reach it.
use tokio::sync::mpsc::{Sender, UnboundedSender};
use vstd::prelude::*;

use crate::clock::Elapsed;
use crate::frame::{frame_bytes, frame_slice, Frame};
use crate::mac::{
    destination_of, ethernet_addrs, has_addresses, same_bytes_same_address, source_of,
    the_addresses_are_the_first_twelve_bytes, MacAddress,
};
use crate::queue::{Attempt, Handed, Outbox, QueueError, TapAttempt};
use crate::table::{
    a_consistent_table_reads_the_same_both_ways, a_learned_address_leads_to_its_client, learning_keeps_the_clients,
    learning_keeps_the_table_sound, registering_keeps_the_table_sound,
    unregistering_keeps_the_table_sound, ClientHandle, ClientId, SwitchTable, TableView,
};
use crate::traffic::{wrapped, TrafficSample, TrafficSnapshot, TrafficStats, TrafficTotals};

verus! {

/// The state of the relay.
pub struct AppState {
    pub next_client_id: ClientId,
    pub outbox: Outbox,
    pub traffic: TrafficStats,
    pub table: SwitchTable,
}

impl AppState {
    /// What was handed to the queues so far, in order.
    pub open spec fn handed(self) -> Seq<Handed> {
        self.outbox.handed()
    }

    /// Whether only the table may have changed since `before`.
    pub open spec fn differs_in_table_only(self, before: AppState) -> bool {
        &&& self.next_client_id == before.next_client_id
        &&& self.outbox == before.outbox
        &&& self.traffic == before.traffic
    }

    /// Whether only the traffic figures may have changed since `before`, and not the time from
    /// which on they are counted.
    pub open spec fn differs_in_traffic_only(self, before: AppState) -> bool {
        &&& self.next_client_id == before.next_client_id
        &&& self.outbox == before.outbox
        &&& self.table == before.table
        &&& self.traffic.started_at == before.traffic.started_at
    }

    /// Whether only what was handed to the queues may have changed since `before`.
    pub open spec fn differs_in_handed_only(self, before: AppState) -> bool {
        &&& self.next_client_id == before.next_client_id
        &&& self.outbox.tap() == before.outbox.tap()
        &&& self.table == before.table
        &&& self.traffic == before.traffic
    }

    /// Whether every connected client got its number from this relay.
    pub open spec fn numbers_are_issued(self) -> bool {
        forall|id: ClientId|
            #[trigger] self.table@.clients.contains_key(id) ==> id < self.next_client_id
    }

    /// Whether the table is consistent, and every connected client got its number from this relay.
    pub open spec fn sound(self) -> bool {
        self.table@.consistent() && self.numbers_are_issued()
    }

    /// A relay without clients.
    pub fn new(tap_tx: UnboundedSender<Frame>) -> (r: AppState)
        ensures
            r.next_client_id == 1,
            r.outbox.tap() == tap_tx,
            r.handed() == Seq::<Handed>::empty(),
            r.traffic.totals() == TrafficTotals::zero(),
            forall|i: int| 0 <= i < 6 ==> r.traffic.samples()[i] == TrafficSample::zero(),
            r.table@ == TableView::empty(),
            r.sound(),
    {
        AppState {
            next_client_id: 1,
            outbox: Outbox::new(tap_tx),
            traffic: TrafficStats::new(),
            table: SwitchTable::new(),
        }
    }

    /// A number for the next client. The numbers start again at zero after the largest one.
    pub fn next_client_id(&mut self) -> (r: ClientId)
        ensures
            r == old(self).next_client_id,
            final(self).next_client_id == wrapped(old(self).next_client_id + 1),
            final(self).outbox == old(self).outbox,
            final(self).traffic == old(self).traffic,
            final(self).table == old(self).table,
    {
        let id: ClientId = self.next_client_id;
        self.next_client_id = id.wrapping_add(1);
        id
    }

    /// How many clients are connected.
    pub fn client_count(&self) -> (r: usize)
        ensures
            r == self.table@.clients.len(),
    {
        self.table.client_count()
    }

    /// Connects a client, which gets its frames through the queue.
    pub fn register_client(&mut self, client_id: ClientId, tx: Sender<Frame>)
        ensures
            final(self).table@ == old(self).table@.registered(client_id, tx),
            old(self).table@.well_formed() ==> final(self).table@.well_formed(),
            old(self).sound() && !old(self).table@.clients.contains_key(client_id) && client_id
                < old(self).next_client_id ==> final(self).sound(),
            final(self).differs_in_table_only(*old(self)),
    {
        proof {
            if self.sound() {
                registering_keeps_the_table_sound(self.table@, client_id, tx);
            }
        }
        self.table.register(client_id, tx);
    }

    /// Counts one frame received from a client.
    pub fn record_websocket_rx(&mut self, bytes: usize)
        ensures
            final(self).traffic.totals() == (TrafficTotals {
                websocket_rx: old(self).traffic.counters.websocket_rx.totals_after(
                    1,
                    bytes as u64,
                ),
                ..old(self).traffic.totals()
            }),
            final(self).traffic.samples() == old(self).traffic.samples(),
            final(self).differs_in_traffic_only(*old(self)),
    {
        self.traffic.record_websocket_rx(bytes);
    }

    /// Counts frames sent to a client.
    pub fn record_websocket_tx_batch(&mut self, frames: u64, bytes: u64)
        ensures
            final(self).traffic.totals() == (TrafficTotals {
                websocket_tx: old(self).traffic.counters.websocket_tx.totals_after(frames, bytes),
                ..old(self).traffic.totals()
            }),
            final(self).traffic.samples() == old(self).traffic.samples(),
            final(self).differs_in_traffic_only(*old(self)),
    {
        self.traffic.record_websocket_tx_batch(frames, bytes);
    }

    /// Counts one frame read from the TAP device.
    pub fn record_tap_rx(&mut self, bytes: usize)
        ensures
            final(self).traffic.totals() == (TrafficTotals {
                tap_rx: old(self).traffic.counters.tap_rx.totals_after(1, bytes as u64),
                ..old(self).traffic.totals()
            }),
            final(self).traffic.samples() == old(self).traffic.samples(),
            final(self).differs_in_traffic_only(*old(self)),
    {
        self.traffic.record_tap_rx(bytes);
    }

    /// Counts one frame written to the TAP device.
    pub fn record_tap_tx(&mut self, bytes: usize)
        ensures
            final(self).traffic.totals() == (TrafficTotals {
                tap_tx: old(self).traffic.counters.tap_tx.totals_after(1, bytes as u64),
                ..old(self).traffic.totals()
            }),
            final(self).traffic.samples() == old(self).traffic.samples(),
            final(self).differs_in_traffic_only(*old(self)),
    {
        self.traffic.record_tap_tx(bytes);
    }

    /// Samples the traffic totals at the present second. Hands out the reading of the clock.
    pub fn traffic_sample(&mut self) -> (r: Elapsed)
        ensures
            r.since() == old(self).traffic.started_at,
            final(self).traffic.totals() == old(self).traffic.totals(),
            final(self).traffic.samples() == old(self).traffic.samples_after(r.seconds()),
            final(self).differs_in_traffic_only(*old(self)),
    {
        self.traffic.sample()
    }

    /// The figures to publish at the present second, and the reading of the clock.
    pub fn traffic_snapshot(&self) -> (r: (TrafficSnapshot, Elapsed))
        ensures
            r.1.since() == self.traffic.started_at,
            r.0 == self.traffic.figures_at(r.1.seconds(), r.0.connected_clients),
            r.0.connected_clients == self.table@.clients.len(),
    {
        self.traffic.snapshot(self.client_count())
    }

    /// Disconnects a client.
    pub fn unregister_client(&mut self, client_id: ClientId)
        ensures
            final(self).table@ == old(self).table@.unregistered(client_id),
            old(self).table@.well_formed() ==> final(self).table@.well_formed(),
            old(self).sound() ==> final(self).sound(),
            final(self).differs_in_table_only(*old(self)),
    {
        proof {
            if self.sound() {
                unregistering_keeps_the_table_sound(self.table@, client_id);
            }
        }
        self.table.unregister(client_id);
    }

    /// Notes that a client uses an address. Says whether that was news.
    pub fn learn_mac(&mut self, client_id: ClientId, mac: MacAddress) -> (r: bool)
        ensures
            r == old(self).table@.is_news(client_id, mac),
            final(self).table@ == old(self).table@.learned(client_id, mac),
            old(self).table@.well_formed() ==> final(self).table@.well_formed(),
            old(self).sound() ==> final(self).sound(),
            final(self).differs_in_table_only(*old(self)),
    {
        proof {
            learning_keeps_the_clients(self.table@, client_id, mac);
            if self.sound() {
                learning_keeps_the_table_sound(self.table@, client_id, mac);
            }
        }
        self.table.learn(client_id, mac)
    }

    /// The client to which an address leads, and its queue.
    pub fn sender_for_mac(&self, mac: MacAddress) -> (r: Option<(ClientId, &Sender<Frame>)>)
        ensures
            r is Some <==> self.table@.is_known(mac),
            r matches Some((id, tx)) ==> id == self.table@.owners[mac] && *tx
                == self.table@.clients[id].tx,
    {
        self.table.sender_for_mac(mac)
    }

    /// Hands a frame to the queue of the TAP device.
    pub fn send_to_tap(&mut self, frame: Frame) -> (r: TapAttempt)
        ensures
            final(self).handed() == old(self).handed().push(Handed::Tap(frame_bytes(frame))),
            final(self).differs_in_handed_only(*old(self)),
            r.queue() == old(self).outbox.tap(),
            r.frame() == frame,
            r.result() matches Err(error) ==> error == QueueError::Closed(frame),
    {
        self.outbox.send(frame)
    }
}

/// What became of a frame.
pub enum FrameReport {
    /// The frame was too short to hold two addresses, and was dropped.
    Short,
    /// The frame was handed on.
    Forwarded {
        /// Whether the source address was news.
        learned: bool,
        /// The clients to whose queues the frame was handed.
        clients: Vec<(ClientId, Attempt)>,
        /// What came of handing the frame to the queue of the TAP device, if it was.
        tap: Option<TapAttempt>,
    },
}

/// The clients of some attempts.
pub open spec fn recipients(attempts: Seq<(ClientId, Attempt)>) -> Seq<ClientId> {
    attempts.map_values(|a: (ClientId, Attempt)| a.0)
}

/// That the frame with these bytes was handed to the queue of each of the clients, in order.
pub open spec fn deliveries(ids: Seq<ClientId>, table: TableView, bytes: Seq<u8>) -> Seq<Handed> {
    ids.map_values(|id: ClientId| Handed::Client(table.clients[id].tx, bytes))
}

/// That the frame with these bytes was handed to the queue of the TAP device, where it should be.
pub open spec fn tap_deliveries(wanted: bool, bytes: Seq<u8>) -> Seq<Handed> {
    if wanted {
        seq![Handed::Tap(bytes)]
    } else {
        Seq::empty()
    }
}

/// Whether a frame with these bytes came back where a queue did not take it.
pub open spec fn came_back(result: Result<(), QueueError>, bytes: Seq<u8>) -> bool {
    result matches Err(error) ==> frame_bytes(error.frame()) == bytes
}

/// Whether the attempts tell of each of the targets once, and of no other, what came of handing the
/// frame with these bytes to its queue.
pub open spec fn tells_of(
    attempts: Seq<(ClientId, Attempt)>,
    table: TableView,
    targets: Set<ClientId>,
    bytes: Seq<u8>,
) -> bool {
    &&& recipients(attempts).no_duplicates()
    &&& recipients(attempts).to_set() == targets
    &&& forall|i: int|
        0 <= i < attempts.len() ==> (#[trigger] attempts[i]).1.queue()
            == table.clients[attempts[i].0].tx && frame_bytes(attempts[i].1.frame()) == bytes
    &&& forall|i: int|
        0 <= i < attempts.len() ==> came_back((#[trigger] attempts[i]).1.result(), bytes)
}

/// Whether the attempt tells what came of handing the frame with these bytes to the queue of the
/// TAP device, where it should be, and is missing otherwise.
pub open spec fn tells_of_tap(
    attempt: Option<TapAttempt>,
    queue: UnboundedSender<Frame>,
    wanted: bool,
    bytes: Seq<u8>,
) -> bool {
    match attempt {
        Some(a) => wanted && a.queue() == queue && frame_bytes(a.frame()) == bytes && came_back(
            a.result(),
            bytes,
        ),
        None => !wanted,
    }
}

/// Hands a frame to the queue of each target.
fn queue_all(
    outbox: &mut Outbox,
    table: &SwitchTable,
    targets: &Vec<ClientId>,
    frame: &Frame,
) -> (r: Vec<(ClientId, Attempt)>)
    requires
        targets@.no_duplicates(),
        targets@.to_set().subset_of(table@.clients.dom()),
    ensures
        tells_of(r@, table@, targets@.to_set(), frame_bytes(*frame)),
        final(outbox).handed() == old(outbox).handed() + deliveries(
            recipients(r@),
            table@,
            frame_bytes(*frame),
        ),
        final(outbox).tap() == old(outbox).tap(),
{
    let mut attempts: Vec<(ClientId, Attempt)> = Vec::new();
    let ghost bytes = frame_bytes(*frame);
    let ghost before = outbox.handed();
    let mut i: usize = 0;
    assert(deliveries(targets@.take(0), table@, bytes) =~= Seq::empty());
    while i < targets.len()
        invariant
            i <= targets.len(),
            targets@.to_set().subset_of(table@.clients.dom()),
            bytes == frame_bytes(*frame),
            attempts@.len() == i,
            outbox.handed() == before + deliveries(targets@.take(i as int), table@, bytes),
            outbox.tap() == old(outbox).tap(),
            forall|j: int|
                0 <= j < i ==> (#[trigger] attempts@[j]).0 == targets@[j] && attempts@[j].1.queue()
                    == table@.clients[targets@[j]].tx && frame_bytes(attempts@[j].1.frame())
                    == bytes && came_back(attempts@[j].1.result(), bytes),
        decreases targets.len() - i,
    {
        let id: ClientId = targets[i];
        assert(targets@.to_set().contains(targets@[i as int]));
        if let Some(tx) = table.sender(id) {
            attempts.push((id, outbox.try_send(tx, frame.clone())));
        }
        assert(deliveries(targets@.take(i + 1), table@, bytes) =~= deliveries(
            targets@.take(i as int),
            table@,
            bytes,
        ).push(Handed::Client(table@.clients[id].tx, bytes)));
        i = i + 1;
    }
    assert(recipients(attempts@) =~= targets@);
    assert(targets@.take(i as int) =~= targets@);
    attempts
}

/// What a frame from a client does. Too short a frame does nothing. Any other teaches the relay
/// the address of its sender. Then it is handed, once each and to nobody else, to the clients for
/// which it is meant, and to the TAP device where it is flooded.
pub open spec fn client_frame_handled(
    before: AppState,
    after: AppState,
    client_id: ClientId,
    bytes: Seq<u8>,
    report: FrameReport,
) -> bool {
    if has_addresses(bytes) {
        let destination = destination_of(bytes);
        let source = source_of(bytes);
        let table = after.table@;
        let flooded = table.is_flooded(destination);
        &&& table == before.table@.learned(client_id, source)
        &&& report matches FrameReport::Forwarded { learned, clients, tap }
        &&& learned == before.table@.is_news(client_id, source)
        &&& tells_of(clients@, table, table.targets_from_client(client_id, destination), bytes)
        &&& tells_of_tap(tap, before.outbox.tap(), flooded, bytes)
        &&& after.handed() == before.handed() + deliveries(recipients(clients@), table, bytes)
            + tap_deliveries(flooded, bytes)
    } else {
        &&& after.table@ == before.table@
        &&& report is Short
        &&& after.handed() == before.handed()
    }
}

/// What a frame from the TAP device does: it is handed, once each and to nobody else, to the
/// clients for which it is meant, unless it is too short.
pub open spec fn tap_frame_handled(
    before: AppState,
    after: AppState,
    bytes: Seq<u8>,
    report: FrameReport,
) -> bool {
    let table = before.table@;
    if has_addresses(bytes) {
        &&& report matches FrameReport::Forwarded { learned, clients, tap }
        &&& !learned
        &&& tells_of(clients@, table, table.targets_from_tap(destination_of(bytes)), bytes)
        &&& tap is None
        &&& after.handed() == before.handed() + deliveries(recipients(clients@), table, bytes)
    } else {
        &&& report is Short
        &&& after.handed() == before.handed()
    }
}

/// The clients to which a frame for one address goes, when it came from `ingress`, and whether it
/// is flooded.
fn route(table: &SwitchTable, ingress: Option<ClientId>, destination: MacAddress) -> (r: (
    Vec<ClientId>,
    bool,
))
    ensures
        r.0@.no_duplicates(),
        r.0@.to_set() == match ingress {
            Some(id) => table@.targets_from_client(id, destination),
            None => table@.targets_from_tap(destination),
        },
        r.1 == table@.is_flooded(destination),
{
    if destination.is_broadcast_or_multicast() {
        return (table.connected(ingress), true);
    }
    match table.sender_for_mac(destination) {
        Some((owner, _)) => {
            let mut targets: Vec<ClientId> = Vec::new();
            let came_from_there = match ingress {
                Some(id) => id == owner,
                None => false,
            };
            if !came_from_there {
                targets.push(owner);
                assert(targets@[0] == owner);
            }
            assert(targets@.to_set() =~= match ingress {
                Some(id) => table@.targets_from_client(id, destination),
                None => table@.targets_from_tap(destination),
            });
            (targets, false)
        },
        None => (table.connected(ingress), true),
    }
}

/// Handles a frame that a client sent.
pub fn handle_client_frame(state: &mut AppState, client_id: ClientId, frame: Frame) -> (r:
    FrameReport)
    ensures
        client_frame_handled(*old(state), *final(state), client_id, frame_bytes(frame), r),
        final(state).next_client_id == old(state).next_client_id,
        final(state).outbox.tap() == old(state).outbox.tap(),
        final(state).traffic == old(state).traffic,
        old(state).table@.well_formed() ==> final(state).table@.well_formed(),
        old(state).sound() ==> final(state).sound(),
{
    let ghost bytes = frame_bytes(frame);
    match ethernet_addrs(frame_slice(&frame)) {
        None => FrameReport::Short,
        Some((destination, source)) => {
            let learned = state.learn_mac(client_id, source);
            let (targets, flooded) = route(&state.table, Some(client_id), destination);
            let clients = queue_all(&mut state.outbox, &state.table, &targets, &frame);
            let tap = if flooded {
                Some(state.send_to_tap(frame))
            } else {
                None
            };
            assert(state.handed() =~= old(state).handed() + deliveries(
                recipients(clients@),
                state.table@,
                bytes,
            ) + tap_deliveries(flooded, bytes));
            FrameReport::Forwarded { learned, clients, tap }
        },
    }
}

/// Handles a frame that was read from the TAP device.
pub fn handle_tap_frame(state: &mut AppState, frame: Frame) -> (r: FrameReport)
    ensures
        tap_frame_handled(*old(state), *final(state), frame_bytes(frame), r),
        final(state).differs_in_handed_only(*old(state)),
{
    match ethernet_addrs(frame_slice(&frame)) {
        None => FrameReport::Short,
        Some((destination, _)) => {
            let (targets, _) = route(&state.table, None, destination);
            let clients = queue_all(&mut state.outbox, &state.table, &targets, &frame);
            FrameReport::Forwarded { learned: false, clients, tap: None }
        },
    }
}

/// A frame is never handed back to the client that sent it: what a frame adds to what was handed
/// over went to the TAP device or to the queue of another client, so it went to the queue of the
/// sender only where another client has that very queue.
pub proof fn no_frame_comes_back(
    before: AppState,
    after: AppState,
    client_id: ClientId,
    bytes: Seq<u8>,
    report: FrameReport,
)
    requires
        client_frame_handled(before, after, client_id, bytes, report),
    ensures
        before.handed().len() <= after.handed().len(),
        after.handed().take(before.handed().len() as int) == before.handed(),
        forall|k: int|
            before.handed().len() <= k < after.handed().len() ==> match #[trigger] after.handed()[k] {
                Handed::Client(tx, _) => is_queue_of_another(after.table@, client_id, tx),
                Handed::Tap(_) => true,
            },
{
    let n = before.handed().len() as int;
    assert(after.handed().take(n) =~= before.handed());
    if let FrameReport::Forwarded { clients, .. } = report {
        let ids = recipients(clients@);
        assert forall|k: int| n <= k < after.handed().len() implies match #[trigger] after.handed()[k] {
            Handed::Client(tx, _) => is_queue_of_another(after.table@, client_id, tx),
            Handed::Tap(_) => true,
        } by {
            if k < n + ids.len() {
                let id = ids[k - n];
                assert(ids.to_set().contains(id));
                assert(after.handed()[k] == Handed::Client(after.table@.clients[id].tx, bytes));
                assert(is_other_with_queue(
                    after.table@,
                    client_id,
                    id,
                    after.table@.clients[id].tx,
                ));
            }
        }
    }
}

/// Whether `id` is another connected client than `client_id`, with this queue.
pub open spec fn is_other_with_queue(
    table: TableView,
    client_id: ClientId,
    id: ClientId,
    tx: Sender<Frame>,
) -> bool {
    id != client_id && table.clients.contains_key(id) && table.clients[id].tx == tx
}

/// Whether this is the queue of another connected client than `client_id`.
pub open spec fn is_queue_of_another(
    table: TableView,
    client_id: ClientId,
    tx: Sender<Frame>,
) -> bool {
    exists|id: ClientId| is_other_with_queue(table, client_id, id, tx)
}

/// A client that has sent a frame is reached under the source address of that frame: the next
/// frame for that address is handed to it alone, once, and not to the TAP device, whether another
/// client sends it or the TAP device does.
pub proof fn a_sender_is_reached_by_its_address(
    before: AppState,
    between: AppState,
    client_id: ClientId,
    first: Seq<u8>,
    first_report: FrameReport,
    other: ClientId,
    second: Seq<u8>,
    after: AppState,
    second_report: FrameReport,
    after_tap: AppState,
    tap_report: FrameReport,
)
    requires
        before.table@.well_formed(),
        before.table@.clients.contains_key(client_id),
        other != client_id,
        has_addresses(first),
        has_addresses(second),
        !source_of(first).is_group(),
        destination_of(second) == source_of(first),
        source_of(second) != source_of(first),
        client_frame_handled(before, between, client_id, first, first_report),
        client_frame_handled(between, after, other, second, second_report),
        tap_frame_handled(between, after_tap, second, tap_report),
    ensures
        after.handed() == between.handed().push(
            Handed::Client(before.table@.clients[client_id].tx, second),
        ),
        after_tap.handed() == between.handed().push(
            Handed::Client(before.table@.clients[client_id].tx, second),
        ),
{
    let mac = source_of(first);
    a_learned_address_leads_to_its_client(before.table@, client_id, mac);
    learning_keeps_the_table_sound(before.table@, client_id, mac);
    learning_keeps_the_clients(between.table@, other, source_of(second));
    let _ = between.table@.clients[other];
    assert(after.table@.leads_to(mac, client_id));
    assert(after.table@.targets_from_client(other, mac) =~= Set::empty().insert(client_id));
    assert(between.table@.targets_from_tap(mac) =~= Set::empty().insert(client_id));
    assert(after.table@.clients[client_id].tx == before.table@.clients[client_id].tx);
    if let FrameReport::Forwarded { clients, .. } = second_report {
        single_recipient(recipients(clients@), client_id);
    }
    if let FrameReport::Forwarded { clients, .. } = tap_report {
        single_recipient(recipients(clients@), client_id);
    }
    assert(after.handed() =~= between.handed().push(
        Handed::Client(before.table@.clients[client_id].tx, second),
    ));
    assert(after_tap.handed() =~= between.handed().push(
        Handed::Client(before.table@.clients[client_id].tx, second),
    ));
}

proof fn single_recipient(ids: Seq<ClientId>, id: ClientId)
    requires
        ids.no_duplicates(),
        ids.to_set() == Set::empty().insert(id),
    ensures
        ids == seq![id],
{
    assert(ids.to_set().contains(id));
    assert(ids.contains(id));
    assert forall|i: int| 0 <= i < ids.len() implies ids[i] == id by {
        assert(ids.to_set().contains(ids[i]));
    }
    if ids.len() > 1 {
        assert(ids[0] == ids[1]);
    }
    assert(ids =~= seq![id]);
}

/// A frame that is flooded is handed exactly once to each other client and to the TAP device.
pub proof fn a_flooded_frame_reaches_each_once(
    before: AppState,
    after: AppState,
    client_id: ClientId,
    bytes: Seq<u8>,
    report: FrameReport,
)
    requires
        client_frame_handled(before, after, client_id, bytes, report),
        has_addresses(bytes),
        after.table@.is_flooded(destination_of(bytes)),
    ensures
        exists|ids: Seq<ClientId>|
            {
                &&& ids.no_duplicates()
                &&& ids.to_set() == before.table@.clients.dom().remove(client_id)
                &&& after.handed() == before.handed() + #[trigger] deliveries(
                    ids,
                    before.table@,
                    bytes,
                ) + seq![Handed::Tap(bytes)]
            },
{
    learning_keeps_the_clients(before.table@, client_id, source_of(bytes));
    if let FrameReport::Forwarded { clients, .. } = report {
        let ids = recipients(clients@);
        assert(deliveries(ids, before.table@, bytes) =~= deliveries(ids, after.table@, bytes)) by {
            assert forall|i: int| 0 <= i < ids.len() implies before.table@.clients.contains_key(
                #[trigger] ids[i],
            ) by {
                assert(ids.to_set().contains(ids[i]));
            }
        }
        assert(ids.to_set() == before.table@.clients.dom().remove(client_id));
    }
}

/// A frame that is addressed to the very station that sent it is handed to nobody.
pub proof fn a_frame_to_its_own_sender_is_dropped(
    before: AppState,
    after: AppState,
    client_id: ClientId,
    bytes: Seq<u8>,
    report: FrameReport,
)
    requires
        before.table@.well_formed(),
        before.table@.clients.contains_key(client_id),
        client_frame_handled(before, after, client_id, bytes, report),
        has_addresses(bytes),
        destination_of(bytes) == source_of(bytes),
        !source_of(bytes).is_group(),
    ensures
        after.handed() == before.handed(),
        after.table@.leads_to(source_of(bytes), client_id),
{
    let mac = source_of(bytes);
    a_learned_address_leads_to_its_client(before.table@, client_id, mac);
    assert(after.table@.targets_from_client(client_id, mac) =~= Set::empty());
    if let FrameReport::Forwarded { clients, .. } = report {
        let ids = recipients(clients@);
        if ids.len() > 0 {
            assert(ids.to_set().contains(ids[0]));
        }
        assert(after.handed() =~= before.handed());
    }
}

/// A frame is reported as short exactly where it has fewer than twelve bytes. Such a frame is
/// handed to nobody and teaches nothing, from wherever it comes.
pub proof fn only_frames_under_twelve_bytes_are_short(
    before: AppState,
    after: AppState,
    client_id: ClientId,
    bytes: Seq<u8>,
    report: FrameReport,
    after_tap: AppState,
    tap_report: FrameReport,
)
    requires
        client_frame_handled(before, after, client_id, bytes, report),
        tap_frame_handled(before, after_tap, bytes, tap_report),
    ensures
        report is Short <==> bytes.len() < 12,
        bytes.len() < 12 ==> after.outbox.handed() == before.outbox.handed(),
        bytes.len() < 12 ==> after.table@ == before.table@,
        tap_report is Short <==> bytes.len() < 12,
        bytes.len() < 12 ==> after_tap.outbox.handed() == before.outbox.handed(),
{
}

/// Whether the log grew by one delivery of these bytes to the queue of each of the clients, in
/// the order of `ids`, and by nothing else.
pub open spec fn grew_by_deliveries(
    before: Seq<Handed>,
    after: Seq<Handed>,
    clients: Map<ClientId, ClientHandle>,
    ids: Seq<ClientId>,
    bytes: Seq<u8>,
    and_tap: bool,
) -> bool {
    &&& after.len() == before.len() + ids.len() + (if and_tap {
        1int
    } else {
        0
    })
    &&& forall|k: int| 0 <= k < before.len() ==> after[k] == #[trigger] before[k]
    &&& forall|i: int|
        0 <= i < ids.len() ==> after[before.len() + i] == Handed::Client(
            clients[#[trigger] ids[i]].tx,
            bytes,
        )
    &&& and_tap ==> after[after.len() - 1] == Handed::Tap(bytes)
}

/// A frame of at least twelve bytes from a client, whose first byte is odd or whose destination
/// leads to no connected client, is handed exactly once to the queue of each other client, and
/// then once to the TAP device.
pub proof fn group_and_unknown_frames_from_a_client_reach_all_others(
    before: AppState,
    after: AppState,
    client_id: ClientId,
    bytes: Seq<u8>,
    report: FrameReport,
    destination: MacAddress,
) -> (ids: Seq<ClientId>)
    requires
        client_frame_handled(before, after, client_id, bytes, report),
        bytes.len() >= 12,
        destination.0@ == bytes.subrange(0, 6),
        bytes[0] as int % 2 == 1 || !(after.table@.owners.contains_key(destination)
            && after.table@.clients.contains_key(after.table@.owners[destination])),
    ensures
        ids.no_duplicates(),
        forall|id: ClientId| #[trigger]
            ids.contains(id) <==> before.table@.clients.contains_key(id) && id != client_id,
        grew_by_deliveries(
            before.outbox.handed(),
            after.outbox.handed(),
            before.table@.clients,
            ids,
            bytes,
            true,
        ),
        report matches FrameReport::Forwarded { tap, .. } && tap is Some,
{
    the_addresses_are_the_first_twelve_bytes(bytes);
    same_bytes_same_address(destination, destination_of(bytes));
    assert(bytes.subrange(0, 6)[0] == bytes[0]);
    learning_keeps_the_clients(before.table@, client_id, source_of(bytes));
    match report {
        FrameReport::Forwarded { clients, .. } => {
            let ids = recipients(clients@);
            in_set_in_sequence(ids);
            ids
        },
        FrameReport::Short => Seq::empty(),
    }
}

proof fn in_set_in_sequence(ids: Seq<ClientId>)
    ensures
        forall|id: ClientId| #[trigger] ids.contains(id) <==> ids.to_set().contains(id),
        forall|i: int| 0 <= i < ids.len() ==> ids.to_set().contains(#[trigger] ids[i]),
{
    assert forall|i: int| 0 <= i < ids.len() implies ids.to_set().contains(#[trigger] ids[i]) by {
        assert(ids.contains(ids[i]));
    }
}

/// A frame of at least twelve bytes from a client, whose first byte is even and whose destination
/// leads to a connected client, is handed once to the queue of that client and to nothing else,
/// or to nothing at all where that client sent it.
pub proof fn a_frame_from_a_client_for_a_known_station_reaches_it_alone(
    before: AppState,
    after: AppState,
    client_id: ClientId,
    bytes: Seq<u8>,
    report: FrameReport,
    destination: MacAddress,
    owner: ClientId,
)
    requires
        client_frame_handled(before, after, client_id, bytes, report),
        bytes.len() >= 12,
        destination.0@ == bytes.subrange(0, 6),
        bytes[0] as int % 2 == 0,
        after.table@.owners.contains_key(destination),
        after.table@.owners[destination] == owner,
        after.table@.clients.contains_key(owner),
    ensures
        owner != client_id ==> after.outbox.handed() == before.outbox.handed().push(
            Handed::Client(before.table@.clients[owner].tx, bytes),
        ),
        owner == client_id ==> after.outbox.handed() == before.outbox.handed(),
        report matches FrameReport::Forwarded { clients, tap, .. } && tap is None && clients@.len()
            == (if owner == client_id {
            0int
        } else {
            1
        }),
{
    the_addresses_are_the_first_twelve_bytes(bytes);
    same_bytes_same_address(destination, destination_of(bytes));
    assert(bytes.subrange(0, 6)[0] == bytes[0]);
    learning_keeps_the_clients(before.table@, client_id, source_of(bytes));
    if let FrameReport::Forwarded { clients, .. } = report {
        let ids = recipients(clients@);
        in_set_in_sequence(ids);
        if owner == client_id {
            if ids.len() > 0 {
                assert(ids.to_set().contains(ids[0]));
            }
            assert(after.outbox.handed() =~= before.outbox.handed());
        } else {
            assert(after.table@.targets_from_client(client_id, destination) =~= Set::empty().insert(
                owner,
            ));
            single_recipient(ids, owner);
            assert(after.outbox.handed() =~= before.outbox.handed().push(
                Handed::Client(before.table@.clients[owner].tx, bytes),
            ));
        }
    }
}

/// A frame of at least twelve bytes from a connected client teaches the relay that the client uses
/// the source address of the frame, and says whether that was news. From a client that is not
/// connected it teaches nothing.
pub proof fn a_frame_teaches_its_source_address(
    before: AppState,
    after: AppState,
    client_id: ClientId,
    bytes: Seq<u8>,
    report: FrameReport,
    source: MacAddress,
)
    requires
        client_frame_handled(before, after, client_id, bytes, report),
        bytes.len() >= 12,
        source.0@ == bytes.subrange(6, 12),
    ensures
        before.table@.clients.contains_key(client_id) ==> {
            &&& after.table@.clients[client_id].mac == Some(source)
            &&& before.table@.clients[client_id].mac != Some(source)
                ==> after.table@.owners.contains_key(source) && after.table@.owners[source]
                == client_id
            &&& report matches FrameReport::Forwarded { learned, .. } && learned == (
            before.table@.clients[client_id].mac != Some(source))
        },
        !before.table@.clients.contains_key(client_id) ==> after.table@ == before.table@ && (
        report matches FrameReport::Forwarded { learned, .. } && !learned),
        after.table@.clients.dom() == before.table@.clients.dom(),
        forall|id: ClientId|
            before.table@.clients.contains_key(id) ==> (#[trigger] after.table@.clients[id]).tx
                == before.table@.clients[id].tx,
{
    the_addresses_are_the_first_twelve_bytes(bytes);
    same_bytes_same_address(source, source_of(bytes));
    learning_keeps_the_clients(before.table@, client_id, source);
}

/// A client that has sent a frame is reached under the six bytes that it gave as its source, where
/// the first of them is even: the next frame for them, from another client that does not give them
/// as its own source or from the TAP device, is handed to its queue once and to nothing else.
pub proof fn the_answer_to_a_frame_reaches_its_sender_alone(
    before: AppState,
    between: AppState,
    client_id: ClientId,
    question: Seq<u8>,
    question_report: FrameReport,
    other: ClientId,
    answer: Seq<u8>,
    after: AppState,
    answer_report: FrameReport,
    after_tap: AppState,
    tap_report: FrameReport,
)
    requires
        before.table@.well_formed(),
        before.table@.clients.contains_key(client_id),
        other != client_id,
        question.len() >= 12,
        answer.len() >= 12,
        question[6] as int % 2 == 0,
        answer.subrange(0, 6) == question.subrange(6, 12),
        answer.subrange(6, 12) != question.subrange(6, 12),
        client_frame_handled(before, between, client_id, question, question_report),
        client_frame_handled(between, after, other, answer, answer_report),
        tap_frame_handled(between, after_tap, answer, tap_report),
    ensures
        after.outbox.handed() == between.outbox.handed().push(
            Handed::Client(before.table@.clients[client_id].tx, answer),
        ),
        after_tap.outbox.handed() == between.outbox.handed().push(
            Handed::Client(before.table@.clients[client_id].tx, answer),
        ),
{
    the_addresses_are_the_first_twelve_bytes(question);
    the_addresses_are_the_first_twelve_bytes(answer);
    same_bytes_same_address(source_of(question), destination_of(answer));
    assert(question.subrange(6, 12)[0] == question[6]);
    assert(!source_of(question).is_group());
    a_sender_is_reached_by_its_address(
        before,
        between,
        client_id,
        question,
        question_report,
        other,
        answer,
        after,
        answer_report,
        after_tap,
        tap_report,
    );
}

/// A frame of at least twelve bytes from the TAP device, whose first byte is odd or whose
/// destination leads to no connected client, is handed exactly once to the queue of each client,
/// and to nothing else.
pub proof fn group_and_unknown_frames_from_the_tap_device_reach_all(
    before: AppState,
    after: AppState,
    bytes: Seq<u8>,
    report: FrameReport,
    destination: MacAddress,
) -> (ids: Seq<ClientId>)
    requires
        tap_frame_handled(before, after, bytes, report),
        bytes.len() >= 12,
        destination.0@ == bytes.subrange(0, 6),
        bytes[0] as int % 2 == 1 || !(before.table@.owners.contains_key(destination)
            && before.table@.clients.contains_key(before.table@.owners[destination])),
    ensures
        ids.no_duplicates(),
        forall|id: ClientId| #[trigger]
            ids.contains(id) <==> before.table@.clients.contains_key(id),
        grew_by_deliveries(
            before.outbox.handed(),
            after.outbox.handed(),
            before.table@.clients,
            ids,
            bytes,
            false,
        ),
        report matches FrameReport::Forwarded { learned, tap, .. } && !learned && tap is None,
{
    the_addresses_are_the_first_twelve_bytes(bytes);
    same_bytes_same_address(destination, destination_of(bytes));
    assert(bytes.subrange(0, 6)[0] == bytes[0]);
    match report {
        FrameReport::Forwarded { clients, .. } => {
            let ids = recipients(clients@);
            in_set_in_sequence(ids);
            ids
        },
        FrameReport::Short => Seq::empty(),
    }
}

/// A frame of at least twelve bytes from the TAP device, whose first byte is even and whose
/// destination leads to a connected client, is handed once to the queue of that client and to
/// nothing else.
pub proof fn a_frame_from_the_tap_device_for_a_known_station_reaches_it_alone(
    before: AppState,
    after: AppState,
    bytes: Seq<u8>,
    report: FrameReport,
    destination: MacAddress,
    owner: ClientId,
)
    requires
        tap_frame_handled(before, after, bytes, report),
        bytes.len() >= 12,
        destination.0@ == bytes.subrange(0, 6),
        bytes[0] as int % 2 == 0,
        before.table@.owners.contains_key(destination),
        before.table@.owners[destination] == owner,
        before.table@.clients.contains_key(owner),
    ensures
        after.outbox.handed() == before.outbox.handed().push(
            Handed::Client(before.table@.clients[owner].tx, bytes),
        ),
        report matches FrameReport::Forwarded { clients, tap, .. } && clients@.len() == 1 && tap is None,
{
    the_addresses_are_the_first_twelve_bytes(bytes);
    same_bytes_same_address(destination, destination_of(bytes));
    assert(bytes.subrange(0, 6)[0] == bytes[0]);
    if let FrameReport::Forwarded { clients, .. } = report {
        let ids = recipients(clients@);
        single_recipient(ids, owner);
        assert(after.outbox.handed() =~= before.outbox.handed().push(
            Handed::Client(before.table@.clients[owner].tx, bytes),
        ));
    }
}

/// The report on a frame tells what came of each hand-over to a client, in the order in which they
/// were made: which client it was, that its queue was handed the frame, and that a frame that the
/// queue did not take came back unchanged.
pub proof fn the_report_tells_of_each_hand_over(
    before: AppState,
    after: AppState,
    client_id: ClientId,
    bytes: Seq<u8>,
    report: FrameReport,
    after_tap: AppState,
    tap_report: FrameReport,
    i: int,
)
    requires
        client_frame_handled(before, after, client_id, bytes, report),
        tap_frame_handled(before, after_tap, bytes, tap_report),
    ensures
        report matches FrameReport::Forwarded { clients, tap, .. } ==> {
            &&& 0 <= i < clients@.len() ==> {
                &&& clients@[i].0 != client_id
                &&& after.outbox.handed()[before.outbox.handed().len() + i] == Handed::Client(
                    clients@[i].1.queue(),
                    bytes,
                )
                &&& clients@[i].1.queue() == after.table@.clients[clients@[i].0].tx
                &&& frame_bytes(clients@[i].1.frame()) == bytes
                &&& clients@[i].1.result() matches Err(error) ==> frame_bytes(error.frame())
                    == bytes
            }
            &&& tap matches Some(attempt) ==> {
                &&& attempt.queue() == before.outbox.tap()
                &&& frame_bytes(attempt.frame()) == bytes
                &&& attempt.result() matches Err(error) ==> frame_bytes(error.frame()) == bytes
            }
        },
        tap_report matches FrameReport::Forwarded { clients, .. } ==> (0 <= i < clients@.len() ==> {
            &&& after_tap.outbox.handed()[before.outbox.handed().len() + i] == Handed::Client(
                clients@[i].1.queue(),
                bytes,
            )
            &&& clients@[i].1.queue() == before.table@.clients[clients@[i].0].tx
            &&& frame_bytes(clients@[i].1.frame()) == bytes
            &&& clients@[i].1.result() matches Err(error) ==> frame_bytes(error.frame()) == bytes
        }),
{
    if let FrameReport::Forwarded { clients, .. } = report {
        in_set_in_sequence(recipients(clients@));
        if 0 <= i < clients@.len() {
            assert(recipients(clients@)[i] == clients@[i].0);
        }
    }
    if let FrameReport::Forwarded { clients, .. } = tap_report {
        if 0 <= i < clients@.len() {
            assert(recipients(clients@)[i] == clients@[i].0);
        }
    }
}

/// What an operation that changes one part of the state leaves as it was.
pub proof fn the_other_parts_stay(after: AppState, before: AppState)
    ensures
        after.differs_in_table_only(before) ==> after.next_client_id == before.next_client_id
            && after.outbox == before.outbox && after.traffic == before.traffic,
        after.differs_in_traffic_only(before) ==> after.next_client_id == before.next_client_id
            && after.outbox == before.outbox && after.table == before.table
            && after.traffic.started_at == before.traffic.started_at,
        after.differs_in_handed_only(before) ==> after.next_client_id == before.next_client_id
            && after.outbox.tap() == before.outbox.tap() && after.table == before.table
            && after.traffic == before.traffic,
        after.handed() == after.outbox.handed(),
{
}

/// In a sound relay every connected client has a number that was handed out before, so the next
/// number is nobody's; and an address leads to exactly the connected client that uses it.
pub proof fn a_sound_relay_knows_its_clients(state: AppState, id: ClientId, mac: MacAddress)
    requires
        state.sound(),
    ensures
        state.table@.clients.contains_key(id) ==> id < state.next_client_id,
        !state.table@.clients.contains_key(state.next_client_id),
        state.table@.owners.contains_key(mac) && state.table@.owners[mac] == id
            <==> state.table@.clients.contains_key(id) && state.table@.clients[id].mac == Some(mac),
{
    a_consistent_table_reads_the_same_both_ways(state.table@, id, mac);
}

} // verus!
