//! Traffic counters, the short history of their samples, and the snapshot that is published.
use std::time::Instant;
use vstd::prelude::*;

use crate::clock::{elapsed_since, Elapsed};

verus! {

/// The longest window, in seconds, over which recent traffic is measured.
pub const TRAFFIC_RECENT_WINDOW_SECS: u64 = 5;

/// How many samples the history holds: one more than the window has seconds.
pub const TRAFFIC_SAMPLE_SLOTS: usize = 6;

/// The larger of a difference and zero.
pub open spec fn floored_difference(a: u64, b: u64) -> u64 {
    if a < b {
        0
    } else {
        (a - b) as u64
    }
}

/// A sum, or the largest number where the sum is larger.
pub open spec fn capped(n: int) -> u64 {
    if n > u64::MAX {
        u64::MAX
    } else {
        n as u64
    }
}

/// What a 64-bit counter shows after it has counted to `n`: it starts again at zero after its
/// largest value.
pub open spec fn wrapped(n: int) -> u64 {
    (n % 0x1_0000_0000_0000_0000) as u64
}

/// A length as a 64-bit number.
pub fn saturating_usize_to_u64(value: usize) -> (r: u64)
    ensures
        r == value,
{
    value as u64
}

/// How many frames and bytes went one way.
#[derive(Clone, Copy, Debug, PartialEq, Eq, Structural)]
pub struct DirectionTotals {
    pub frames: u64,
    pub bytes: u64,
}

impl Default for DirectionTotals {
    fn default() -> (r: DirectionTotals)
        ensures
            r == DirectionTotals::zero(),
    {
        DirectionTotals { frames: 0, bytes: 0 }
    }
}

impl DirectionTotals {
    /// No traffic.
    pub open spec fn zero() -> DirectionTotals {
        DirectionTotals { frames: 0, bytes: 0 }
    }

    /// What was added since `older`.
    pub open spec fn since(self, older: DirectionTotals) -> DirectionTotals {
        DirectionTotals {
            frames: floored_difference(self.frames, older.frames),
            bytes: floored_difference(self.bytes, older.bytes),
        }
    }

    /// What was added since `older`; nothing where a count is smaller than it was.
    pub fn saturating_sub(self, older: DirectionTotals) -> (r: DirectionTotals)
        ensures
            r == self.since(older),
    {
        DirectionTotals {
            frames: self.frames.saturating_sub(older.frames),
            bytes: self.bytes.saturating_sub(older.bytes),
        }
    }
}

/// The totals of the four directions in which frames travel.
#[derive(Clone, Copy, Debug, PartialEq, Eq, Structural)]
pub struct TrafficTotals {
    pub websocket_rx: DirectionTotals,
    pub websocket_tx: DirectionTotals,
    pub tap_rx: DirectionTotals,
    pub tap_tx: DirectionTotals,
}

impl Default for TrafficTotals {
    fn default() -> (r: TrafficTotals)
        ensures
            r == TrafficTotals::zero(),
    {
        TrafficTotals {
            websocket_rx: DirectionTotals::default(),
            websocket_tx: DirectionTotals::default(),
            tap_rx: DirectionTotals::default(),
            tap_tx: DirectionTotals::default(),
        }
    }
}

impl TrafficTotals {
    /// No traffic in any direction.
    pub open spec fn zero() -> TrafficTotals {
        TrafficTotals {
            websocket_rx: DirectionTotals::zero(),
            websocket_tx: DirectionTotals::zero(),
            tap_rx: DirectionTotals::zero(),
            tap_tx: DirectionTotals::zero(),
        }
    }

    /// What was added in each direction since `older`.
    pub open spec fn since(self, older: TrafficTotals) -> TrafficTotals {
        TrafficTotals {
            websocket_rx: self.websocket_rx.since(older.websocket_rx),
            websocket_tx: self.websocket_tx.since(older.websocket_tx),
            tap_rx: self.tap_rx.since(older.tap_rx),
            tap_tx: self.tap_tx.since(older.tap_tx),
        }
    }

    /// The bytes of all directions together.
    pub open spec fn byte_sum(self) -> int {
        self.websocket_rx.bytes + self.websocket_tx.bytes + self.tap_rx.bytes + self.tap_tx.bytes
    }

    /// What was added in each direction since `older`.
    pub fn saturating_sub(self, older: TrafficTotals) -> (r: TrafficTotals)
        ensures
            r == self.since(older),
    {
        TrafficTotals {
            websocket_rx: self.websocket_rx.saturating_sub(older.websocket_rx),
            websocket_tx: self.websocket_tx.saturating_sub(older.websocket_tx),
            tap_rx: self.tap_rx.saturating_sub(older.tap_rx),
            tap_tx: self.tap_tx.saturating_sub(older.tap_tx),
        }
    }

    /// The bytes of all directions together, capped at the largest number.
    pub fn total_bytes(self) -> (r: u64)
        ensures
            r == capped(self.byte_sum()),
    {
        self.websocket_rx.bytes.saturating_add(self.websocket_tx.bytes).saturating_add(
            self.tap_rx.bytes,
        ).saturating_add(self.tap_tx.bytes)
    }
}

/// The running count of one direction.
#[derive(Debug)]
pub struct DirectionCounter {
    pub frames: u64,
    pub bytes: u64,
}

impl DirectionCounter {
    /// The count as totals.
    pub open spec fn totals(self) -> DirectionTotals {
        DirectionTotals { frames: self.frames, bytes: self.bytes }
    }

    /// The totals after `frames` more frames of `bytes` bytes together.
    pub open spec fn totals_after(self, frames: u64, bytes: u64) -> DirectionTotals {
        DirectionTotals {
            frames: wrapped(self.frames + frames),
            bytes: wrapped(self.bytes + bytes),
        }
    }

    /// A counter that has seen no traffic.
    pub fn new() -> (r: DirectionCounter)
        ensures
            r.totals() == DirectionTotals::zero(),
    {
        DirectionCounter { frames: 0, bytes: 0 }
    }

    /// Counts frames and their bytes.
    pub fn record(&mut self, frames: u64, bytes: u64)
        ensures
            final(self).totals() == old(self).totals_after(frames, bytes),
    {
        self.frames = self.frames.wrapping_add(frames);
        self.bytes = self.bytes.wrapping_add(bytes);
    }

    /// The totals so far.
    pub fn snapshot(&self) -> (r: DirectionTotals)
        ensures
            r == self.totals(),
    {
        DirectionTotals { frames: self.frames, bytes: self.bytes }
    }
}

/// The running counts of the four directions.
#[derive(Debug)]
pub struct TrafficCounters {
    pub websocket_rx: DirectionCounter,
    pub websocket_tx: DirectionCounter,
    pub tap_rx: DirectionCounter,
    pub tap_tx: DirectionCounter,
}

impl TrafficCounters {
    /// The counts as totals.
    pub open spec fn totals(self) -> TrafficTotals {
        TrafficTotals {
            websocket_rx: self.websocket_rx.totals(),
            websocket_tx: self.websocket_tx.totals(),
            tap_rx: self.tap_rx.totals(),
            tap_tx: self.tap_tx.totals(),
        }
    }

    /// Counters that have seen no traffic.
    pub fn new() -> (r: TrafficCounters)
        ensures
            r.totals() == TrafficTotals::zero(),
    {
        TrafficCounters {
            websocket_rx: DirectionCounter::new(),
            websocket_tx: DirectionCounter::new(),
            tap_rx: DirectionCounter::new(),
            tap_tx: DirectionCounter::new(),
        }
    }

    /// Counts one frame received from a client.
    pub fn record_websocket_rx(&mut self, bytes: usize)
        ensures
            final(self).totals() == (TrafficTotals {
                websocket_rx: old(self).websocket_rx.totals_after(1, bytes as u64),
                ..old(self).totals()
            }),
    {
        self.websocket_rx.record(1, saturating_usize_to_u64(bytes));
    }

    /// Counts frames sent to a client.
    pub fn record_websocket_tx_batch(&mut self, frames: u64, bytes: u64)
        ensures
            final(self).totals() == (TrafficTotals {
                websocket_tx: old(self).websocket_tx.totals_after(frames, bytes),
                ..old(self).totals()
            }),
    {
        self.websocket_tx.record(frames, bytes);
    }

    /// Counts one frame read from the TAP device.
    pub fn record_tap_rx(&mut self, bytes: usize)
        ensures
            final(self).totals() == (TrafficTotals {
                tap_rx: old(self).tap_rx.totals_after(1, bytes as u64),
                ..old(self).totals()
            }),
    {
        self.tap_rx.record(1, saturating_usize_to_u64(bytes));
    }

    /// Counts one frame written to the TAP device.
    pub fn record_tap_tx(&mut self, bytes: usize)
        ensures
            final(self).totals() == (TrafficTotals {
                tap_tx: old(self).tap_tx.totals_after(1, bytes as u64),
                ..old(self).totals()
            }),
    {
        self.tap_tx.record(1, saturating_usize_to_u64(bytes));
    }

    /// The totals so far.
    pub fn snapshot(&self) -> (r: TrafficTotals)
        ensures
            r == self.totals(),
    {
        TrafficTotals {
            websocket_rx: self.websocket_rx.snapshot(),
            websocket_tx: self.websocket_tx.snapshot(),
            tap_rx: self.tap_rx.snapshot(),
            tap_tx: self.tap_tx.snapshot(),
        }
    }
}

/// The totals at one second.
#[derive(Clone, Copy, Debug, PartialEq, Eq, Structural)]
pub struct TrafficSample {
    pub second: u64,
    pub totals: TrafficTotals,
}

impl TrafficSample {
    /// What a slot holds before anything was recorded in it.
    pub open spec fn zero() -> TrafficSample {
        TrafficSample { second: 0, totals: TrafficTotals::zero() }
    }
}

impl Default for TrafficSample {
    fn default() -> (r: TrafficSample)
        ensures
            r == TrafficSample::zero(),
    {
        TrafficSample { second: 0, totals: TrafficTotals::default() }
    }
}

/// The slot in which the sample of a second is kept.
pub open spec fn slot_of(second: u64) -> int {
    if second <= usize::MAX {
        second as int % 6
    } else {
        usize::MAX as int % 6
    }
}

/// Whether slot `i` holds a sample taken no later than `target`.
pub open spec fn in_time(samples: Seq<TrafficSample>, target: u64, i: int) -> bool {
    0 <= i < samples.len() && samples[i].second <= target
}

/// Whether slot `i` holds the latest sample taken no later than `target`. Of several slots with
/// that second it is the last one.
pub open spec fn is_latest(samples: Seq<TrafficSample>, target: u64, i: int) -> bool {
    &&& in_time(samples, target, i)
    &&& forall|j: int| #[trigger]
        in_time(samples, target, j) ==> samples[j].second < samples[i].second || (samples[j].second
            == samples[i].second && j <= i)
}

/// The totals of the latest sample taken no later than `target`, or no traffic where there is no
/// such sample.
pub open spec fn baseline_of(samples: Seq<TrafficSample>, target: u64) -> TrafficTotals {
    if exists|i: int| is_latest(samples, target, i) {
        samples[choose|i: int| is_latest(samples, target, i)].totals
    } else {
        TrafficTotals::zero()
    }
}

proof fn latest_gives_baseline(samples: Seq<TrafficSample>, target: u64, i: int)
    requires
        is_latest(samples, target, i),
    ensures
        baseline_of(samples, target) == samples[i].totals,
{
    let k = choose|k: int| is_latest(samples, target, k);
    assert(in_time(samples, target, k));
    assert(k == i);
}

/// The samples of the last few seconds, each in the slot of its second.
#[derive(Debug)]
pub struct TrafficHistory {
    pub samples: [TrafficSample; TRAFFIC_SAMPLE_SLOTS],
}

impl TrafficHistory {
    /// A history in which nothing was recorded.
    pub fn new() -> (r: TrafficHistory)
        ensures
            forall|i: int| 0 <= i < 6 ==> r.samples@[i] == TrafficSample::zero(),
    {
        let empty = TrafficSample::default();
        TrafficHistory { samples: [empty, empty, empty, empty, empty, empty] }
    }

    /// Keeps the totals of a second in the slot of that second, in place of what was there.
    pub fn record(&mut self, second: u64, totals: TrafficTotals)
        ensures
            final(self).samples@ == old(self).samples@.update(
                slot_of(second),
                TrafficSample { second, totals },
            ),
    {
        let position: usize = if second <= usize::MAX as u64 {
            second as usize
        } else {
            usize::MAX
        };
        let slot: usize = position % TRAFFIC_SAMPLE_SLOTS;
        self.samples[slot] = TrafficSample { second, totals };
    }

    /// The totals of the latest sample taken no later than `target_second`.
    pub fn baseline(&self, target_second: u64) -> (r: TrafficTotals)
        ensures
            r == baseline_of(self.samples@, target_second),
    {
        let mut best_second: u64 = 0;
        let mut best_totals = TrafficTotals::default();
        let ghost mut best: int = -1;
        let mut i: usize = 0;
        while i < TRAFFIC_SAMPLE_SLOTS
            invariant
                i <= 6,
                best == -1 ==> best_second == 0 && best_totals == TrafficTotals::zero(),
                best == -1 ==> forall|j: int| 0 <= j < i ==> !in_time(self.samples@, target_second, j),
                best != -1 ==> {
                    &&& 0 <= best < i
                    &&& in_time(self.samples@, target_second, best)
                    &&& best_second == self.samples@[best].second
                    &&& best_totals == self.samples@[best].totals
                    &&& forall|j: int|
                        j < i && #[trigger] in_time(self.samples@, target_second, j)
                            ==> self.samples@[j].second < best_second || (self.samples@[j].second
                            == best_second && j <= best)
                },
            decreases 6 - i,
        {
            let sample = self.samples[i];
            if sample.second <= target_second && sample.second >= best_second {
                best_second = sample.second;
                best_totals = sample.totals;
                proof {
                    best = i as int;
                }
            }
            i = i + 1;
        }
        proof {
            if best == -1 {
                assert forall|k: int| !is_latest(self.samples@, target_second, k) by {
                    assert(!in_time(self.samples@, target_second, k));
                }
            } else {
                latest_gives_baseline(self.samples@, target_second, best);
            }
        }
        best_totals
    }
}

/// The published figures of one direction.
#[derive(Clone, Copy, Debug, PartialEq, Eq, Structural)]
pub struct DirectionSnapshot {
    pub frames: u64,
    pub bytes: u64,
    pub recent_frames: u64,
    pub recent_bytes: u64,
    pub recent_bps: u64,
}

/// The published figures of the relay.
#[derive(Clone, Copy, Debug, PartialEq, Eq, Structural)]
pub struct TrafficSnapshot {
    pub uptime_seconds: u64,
    pub recent_window_seconds: u64,
    pub connected_clients: usize,
    pub websocket_rx: DirectionSnapshot,
    pub websocket_tx: DirectionSnapshot,
    pub tap_rx: DirectionSnapshot,
    pub tap_tx: DirectionSnapshot,
    pub current_bps: u64,
}

/// The window over which recent traffic is measured: as many seconds as have passed, but at least
/// one and at most the longest window.
pub open spec fn recent_window(second: u64) -> u64 {
    if second < 1 {
        1
    } else if second > TRAFFIC_RECENT_WINDOW_SECS {
        TRAFFIC_RECENT_WINDOW_SECS
    } else {
        second
    }
}

/// The figures of a direction with the totals `current`, of which `recent` came in the last
/// `window` seconds.
pub open spec fn direction_figures(
    current: DirectionTotals,
    recent: DirectionTotals,
    window: u64,
) -> DirectionSnapshot {
    DirectionSnapshot {
        frames: current.frames,
        bytes: current.bytes,
        recent_frames: recent.frames,
        recent_bytes: recent.bytes,
        recent_bps: recent.bytes / window,
    }
}

/// The figures of the relay at `second`, with the totals `current` and `baseline`, which were the
/// totals when the window began.
pub open spec fn figures(
    second: u64,
    connected_clients: usize,
    current: TrafficTotals,
    baseline: TrafficTotals,
) -> TrafficSnapshot {
    let window = recent_window(second);
    let recent = current.since(baseline);
    TrafficSnapshot {
        uptime_seconds: second,
        recent_window_seconds: window,
        connected_clients,
        websocket_rx: direction_figures(current.websocket_rx, recent.websocket_rx, window),
        websocket_tx: direction_figures(current.websocket_tx, recent.websocket_tx, window),
        tap_rx: direction_figures(current.tap_rx, recent.tap_rx, window),
        tap_tx: direction_figures(current.tap_tx, recent.tap_tx, window),
        current_bps: capped(recent.byte_sum()) / window,
    }
}

fn direction_snapshot(
    current: DirectionTotals,
    recent: DirectionTotals,
    window: u64,
) -> (r: DirectionSnapshot)
    requires
        window > 0,
    ensures
        r == direction_figures(current, recent, window),
{
    DirectionSnapshot {
        frames: current.frames,
        bytes: current.bytes,
        recent_frames: recent.frames,
        recent_bytes: recent.bytes,
        recent_bps: recent.bytes / window,
    }
}

/// The counters of the relay, their history, and when they were started.
#[derive(Debug)]
pub struct TrafficStats {
    pub started_at: Instant,
    pub counters: TrafficCounters,
    pub history: TrafficHistory,
}

impl TrafficStats {
    /// The totals so far.
    pub open spec fn totals(self) -> TrafficTotals {
        self.counters.totals()
    }

    /// The samples of the history.
    pub open spec fn samples(self) -> Seq<TrafficSample> {
        self.history.samples@
    }

    /// The samples after the present totals were sampled at `second`.
    pub open spec fn samples_after(self, second: u64) -> Seq<TrafficSample> {
        self.samples().update(slot_of(second), TrafficSample { second, totals: self.totals() })
    }

    /// The figures to publish at `second`.
    pub open spec fn figures_at(self, second: u64, connected_clients: usize) -> TrafficSnapshot {
        figures(
            second,
            connected_clients,
            self.totals(),
            baseline_of(self.samples(), floored_difference(second, recent_window(second))),
        )
    }

    /// Counters that start now and have seen no traffic.
    pub fn new() -> (r: TrafficStats)
        ensures
            r.totals() == TrafficTotals::zero(),
            forall|i: int| 0 <= i < 6 ==> r.samples()[i] == TrafficSample::zero(),
    {
        TrafficStats {
            started_at: Instant::now(),
            counters: TrafficCounters::new(),
            history: TrafficHistory::new(),
        }
    }

    /// Counts one frame received from a client.
    pub fn record_websocket_rx(&mut self, bytes: usize)
        ensures
            final(self).totals() == (TrafficTotals {
                websocket_rx: old(self).counters.websocket_rx.totals_after(1, bytes as u64),
                ..old(self).totals()
            }),
            final(self).samples() == old(self).samples(),
            final(self).started_at == old(self).started_at,
    {
        self.counters.record_websocket_rx(bytes);
    }

    /// Counts frames sent to a client.
    pub fn record_websocket_tx_batch(&mut self, frames: u64, bytes: u64)
        ensures
            final(self).totals() == (TrafficTotals {
                websocket_tx: old(self).counters.websocket_tx.totals_after(frames, bytes),
                ..old(self).totals()
            }),
            final(self).samples() == old(self).samples(),
            final(self).started_at == old(self).started_at,
    {
        self.counters.record_websocket_tx_batch(frames, bytes);
    }

    /// Counts one frame read from the TAP device.
    pub fn record_tap_rx(&mut self, bytes: usize)
        ensures
            final(self).totals() == (TrafficTotals {
                tap_rx: old(self).counters.tap_rx.totals_after(1, bytes as u64),
                ..old(self).totals()
            }),
            final(self).samples() == old(self).samples(),
            final(self).started_at == old(self).started_at,
    {
        self.counters.record_tap_rx(bytes);
    }

    /// Counts one frame written to the TAP device.
    pub fn record_tap_tx(&mut self, bytes: usize)
        ensures
            final(self).totals() == (TrafficTotals {
                tap_tx: old(self).counters.tap_tx.totals_after(1, bytes as u64),
                ..old(self).totals()
            }),
            final(self).samples() == old(self).samples(),
            final(self).started_at == old(self).started_at,
    {
        self.counters.record_tap_tx(bytes);
    }

    /// Samples the totals at the present second. Hands out the reading of the clock.
    pub fn sample(&mut self) -> (r: Elapsed)
        ensures
            r.since() == old(self).started_at,
            final(self).totals() == old(self).totals(),
            final(self).samples() == old(self).samples_after(r.seconds()),
            final(self).started_at == old(self).started_at,
    {
        let elapsed = self.elapsed_seconds();
        self.sample_at(elapsed.as_secs());
        elapsed
    }

    /// Samples the totals at a given second.
    pub fn sample_at(&mut self, second: u64)
        ensures
            final(self).totals() == old(self).totals(),
            final(self).samples() == old(self).samples_after(second),
            final(self).started_at == old(self).started_at,
    {
        let totals = self.counters.snapshot();
        self.history.record(second, totals);
    }

    /// The figures to publish at the present second, and the reading of the clock.
    pub fn snapshot(&self, connected_clients: usize) -> (r: (TrafficSnapshot, Elapsed))
        ensures
            r.1.since() == self.started_at,
            r.0 == self.figures_at(r.1.seconds(), connected_clients),
    {
        let elapsed = self.elapsed_seconds();
        (self.snapshot_at(elapsed.as_secs(), connected_clients), elapsed)
    }

    /// The figures to publish at a given second.
    pub fn snapshot_at(&self, second: u64, connected_clients: usize) -> (r: TrafficSnapshot)
        ensures
            r == self.figures_at(second, connected_clients),
    {
        let recent_window_seconds: u64 = if second < 1 {
            1
        } else if second > TRAFFIC_RECENT_WINDOW_SECS {
            TRAFFIC_RECENT_WINDOW_SECS
        } else {
            second
        };
        let current = self.counters.snapshot();
        let baseline_second: u64 = second.saturating_sub(recent_window_seconds);
        let baseline = self.history.baseline(baseline_second);
        let recent = current.saturating_sub(baseline);
        let current_bps: u64 = recent.total_bytes() / recent_window_seconds;

        TrafficSnapshot {
            uptime_seconds: second,
            recent_window_seconds,
            connected_clients,
            websocket_rx: direction_snapshot(
                current.websocket_rx,
                recent.websocket_rx,
                recent_window_seconds,
            ),
            websocket_tx: direction_snapshot(
                current.websocket_tx,
                recent.websocket_tx,
                recent_window_seconds,
            ),
            tap_rx: direction_snapshot(current.tap_rx, recent.tap_rx, recent_window_seconds),
            tap_tx: direction_snapshot(current.tap_tx, recent.tap_tx, recent_window_seconds),
            current_bps,
        }
    }

    /// The time that has passed since the counters were started. What the clock shows is not
    /// stated.
    pub fn elapsed_seconds(&self) -> (r: Elapsed)
        ensures
            r.since() == self.started_at,
    {
        elapsed_since(&self.started_at)
    }
}

/// Whether every slot that was ever used holds the sample of a second that belongs there.
pub open spec fn well_placed(samples: Seq<TrafficSample>) -> bool {
    &&& samples.len() == 6
    &&& forall|i: int|
        0 <= i < 6 ==> #[trigger] samples[i] == TrafficSample::zero() || slot_of(samples[i].second)
            == i
}

/// The samples after further samples were recorded, in the order given.
pub open spec fn recorded(
    samples: Seq<TrafficSample>,
    further: Seq<TrafficSample>,
) -> Seq<TrafficSample>
    decreases further.len(),
{
    if further.len() == 0 {
        samples
    } else {
        let before = recorded(samples, further.drop_last());
        before.update(slot_of(further.last().second), further.last())
    }
}

/// An empty history is well placed.
pub proof fn empty_history_is_well_placed(samples: Seq<TrafficSample>)
    requires
        samples.len() == 6,
        forall|i: int| 0 <= i < 6 ==> samples[i] == TrafficSample::zero(),
    ensures
        well_placed(samples),
{
}

/// Every sample that is recorded leaves the history well placed.
pub proof fn recording_keeps_well_placed(samples: Seq<TrafficSample>, further: Seq<TrafficSample>)
    requires
        well_placed(samples),
    ensures
        well_placed(recorded(samples, further)),
    decreases further.len(),
{
    if further.len() > 0 {
        recording_keeps_well_placed(samples, further.drop_last());
    }
}

proof fn later_samples_keep_slot(
    samples: Seq<TrafficSample>,
    second: u64,
    further: Seq<TrafficSample>,
)
    requires
        well_placed(samples),
        second + TRAFFIC_RECENT_WINDOW_SECS <= usize::MAX,
        forall|i: int|
            0 <= i < further.len() ==> second < (#[trigger] further[i]).second <= second
                + TRAFFIC_RECENT_WINDOW_SECS,
    ensures
        recorded(samples, further)[slot_of(second)] == samples[slot_of(second)],
    decreases further.len(),
{
    if further.len() > 0 {
        later_samples_keep_slot(samples, second, further.drop_last());
        recording_keeps_well_placed(samples, further.drop_last());
        assert(further.last() == further[further.len() - 1]);
        assert(slot_of(further.last().second) != slot_of(second));
    }
}

/// The sample of a second is the baseline of that second for as long as the window lasts: neither
/// what was there before nor what is recorded in the next five seconds takes its place. Second
/// zero is left out, because an empty slot reads as a sample of second zero.
pub proof fn sample_is_baseline_for_the_window(
    samples: Seq<TrafficSample>,
    sample: TrafficSample,
    further: Seq<TrafficSample>,
)
    requires
        well_placed(samples),
        0 < sample.second,
        sample.second + TRAFFIC_RECENT_WINDOW_SECS <= usize::MAX,
        forall|i: int|
            0 <= i < further.len() ==> sample.second < (#[trigger] further[i]).second
                <= sample.second + TRAFFIC_RECENT_WINDOW_SECS,
    ensures
        baseline_of(
            recorded(samples.update(slot_of(sample.second), sample), further),
            sample.second,
        ) == sample.totals,
{
    let first = samples.update(slot_of(sample.second), sample);
    let all = recorded(first, further);
    let slot = slot_of(sample.second);
    recording_keeps_well_placed(first, further);
    later_samples_keep_slot(first, sample.second, further);
    assert(is_latest(all, sample.second, slot)) by {
        assert forall|j: int| #[trigger] in_time(all, sample.second, j) implies all[j].second
            < all[slot].second || (all[j].second == all[slot].second && j <= slot) by {
            assert(all[j] == TrafficSample::zero() || slot_of(all[j].second) == j);
        }
    }
    latest_gives_baseline(all, sample.second, slot);
}

/// Where the totals were sampled exactly one full window ago, and any samples since were taken
/// within the window, the recent figures are what was added since that sample.
pub proof fn recent_figures_cover_the_window(
    samples: Seq<TrafficSample>,
    sample: TrafficSample,
    further: Seq<TrafficSample>,
    stats: TrafficStats,
    connected_clients: usize,
)
    requires
        well_placed(samples),
        0 < sample.second,
        sample.second + TRAFFIC_RECENT_WINDOW_SECS <= usize::MAX,
        forall|i: int|
            0 <= i < further.len() ==> sample.second < (#[trigger] further[i]).second
                <= sample.second + TRAFFIC_RECENT_WINDOW_SECS,
        stats.samples() == recorded(samples.update(slot_of(sample.second), sample), further),
    ensures
        ({
            let second = (sample.second + TRAFFIC_RECENT_WINDOW_SECS) as u64;
            stats.figures_at(second, connected_clients) == figures(
                second,
                connected_clients,
                stats.totals(),
                sample.totals,
            )
        }),
{
    sample_is_baseline_for_the_window(samples, sample, further);
}

/// The recent figures of a direction never exceed its totals, and the rate over the window never
/// exceeds the recent bytes.
pub proof fn recent_figures_are_bounded(
    second: u64,
    connected_clients: usize,
    current: TrafficTotals,
    baseline: TrafficTotals,
)
    ensures
        ({
            let f = figures(second, connected_clients, current, baseline);
            &&& 1 <= f.recent_window_seconds <= TRAFFIC_RECENT_WINDOW_SECS
            &&& f.websocket_rx.recent_frames <= f.websocket_rx.frames
            &&& f.websocket_tx.recent_frames <= f.websocket_tx.frames
            &&& f.tap_rx.recent_frames <= f.tap_rx.frames
            &&& f.tap_tx.recent_frames <= f.tap_tx.frames
            &&& f.websocket_rx.recent_bps <= f.websocket_rx.recent_bytes <= f.websocket_rx.bytes
            &&& f.websocket_tx.recent_bps <= f.websocket_tx.recent_bytes <= f.websocket_tx.bytes
            &&& f.tap_rx.recent_bps <= f.tap_rx.recent_bytes <= f.tap_rx.bytes
            &&& f.tap_tx.recent_bps <= f.tap_tx.recent_bytes <= f.tap_tx.bytes
        }),
{
    let window = recent_window(second);
    let recent = current.since(baseline);
    quotient_is_smaller(recent.websocket_rx.bytes, window);
    quotient_is_smaller(recent.websocket_tx.bytes, window);
    quotient_is_smaller(recent.tap_rx.bytes, window);
    quotient_is_smaller(recent.tap_tx.bytes, window);
}

proof fn quotient_is_smaller(n: u64, d: u64)
    by (nonlinear_arith)
    requires
        d >= 1,
    ensures
        n / d <= n,
{
}

/// The same totals with more bytes in one direction: the first, second, third or fourth of those
/// received from clients, sent to clients, read from the TAP device and written to it.
pub open spec fn with_more_bytes(t: TrafficTotals, direction: int, n: u64) -> TrafficTotals {
    TrafficTotals {
        websocket_rx: DirectionTotals {
            bytes: (t.websocket_rx.bytes + if direction == 0 {
                n as int
            } else {
                0
            }) as u64,
            ..t.websocket_rx
        },
        websocket_tx: DirectionTotals {
            bytes: (t.websocket_tx.bytes + if direction == 1 {
                n as int
            } else {
                0
            }) as u64,
            ..t.websocket_tx
        },
        tap_rx: DirectionTotals {
            bytes: (t.tap_rx.bytes + if direction == 2 {
                n as int
            } else {
                0
            }) as u64,
            ..t.tap_rx
        },
        tap_tx: DirectionTotals {
            bytes: (t.tap_tx.bytes + if direction == 3 {
                n as int
            } else {
                0
            }) as u64,
            ..t.tap_tx
        },
    }
}

/// The aggregate counts each of the four directions once: no traffic has no bytes, and as many
/// bytes as one direction gains, so many does the aggregate gain.
pub proof fn the_aggregate_counts_each_direction_once(t: TrafficTotals, direction: int, n: u64)
    requires
        0 <= direction < 4,
        t.websocket_rx.bytes + n <= u64::MAX,
        t.websocket_tx.bytes + n <= u64::MAX,
        t.tap_rx.bytes + n <= u64::MAX,
        t.tap_tx.bytes + n <= u64::MAX,
    ensures
        TrafficTotals::zero().byte_sum() == 0,
        with_more_bytes(t, direction, n).byte_sum() == t.byte_sum() + n,
        t.byte_sum() >= t.websocket_rx.bytes,
        t.byte_sum() >= t.websocket_tx.bytes,
        t.byte_sum() >= t.tap_rx.bytes,
        t.byte_sum() >= t.tap_tx.bytes,
{
}

/// A sum is capped only where it does not fit, and then at the largest number; a counter that
/// counts past its largest value starts again at zero; a difference is never negative.
pub proof fn numbers_at_their_limits(a: u64, b: u64)
    ensures
        a + b <= 18_446_744_073_709_551_615 ==> capped(a + b) == a + b,
        a + b > 18_446_744_073_709_551_615 ==> capped(a + b) == 18_446_744_073_709_551_615,
        a + b <= 18_446_744_073_709_551_615 ==> wrapped(a + b) == a + b,
        a + b > 18_446_744_073_709_551_615 ==> wrapped(a + b) == a + b
            - 18_446_744_073_709_551_616,
        a >= b ==> floored_difference(a, b) == a - b,
        a < b ==> floored_difference(a, b) == 0,
{
}

/// What is counted in a direction is added to its frames and to its bytes, and to those alone, and
/// what was added since earlier totals is the difference, direction by direction.
pub proof fn counting_and_comparing_keep_the_directions_apart(
    counters: TrafficCounters,
    counter: DirectionCounter,
    frames: u64,
    bytes: u64,
    current: TrafficTotals,
    older: TrafficTotals,
)
    ensures
        counters.totals().websocket_rx == (DirectionTotals {
            frames: counters.websocket_rx.frames,
            bytes: counters.websocket_rx.bytes,
        }),
        counters.totals().websocket_tx == (DirectionTotals {
            frames: counters.websocket_tx.frames,
            bytes: counters.websocket_tx.bytes,
        }),
        counters.totals().tap_rx == (DirectionTotals {
            frames: counters.tap_rx.frames,
            bytes: counters.tap_rx.bytes,
        }),
        counters.totals().tap_tx == (DirectionTotals {
            frames: counters.tap_tx.frames,
            bytes: counters.tap_tx.bytes,
        }),
        counter.totals().frames == counter.frames,
        counter.totals().bytes == counter.bytes,
        counter.frames + frames <= u64::MAX ==> counter.totals_after(frames, bytes).frames
            == counter.frames + frames,
        counter.bytes + bytes <= u64::MAX ==> counter.totals_after(frames, bytes).bytes
            == counter.bytes + bytes,
        counter.frames + frames > u64::MAX ==> counter.totals_after(frames, bytes).frames
            == counter.frames + frames - 18_446_744_073_709_551_616,
        counter.bytes + bytes > u64::MAX ==> counter.totals_after(frames, bytes).bytes
            == counter.bytes + bytes - 18_446_744_073_709_551_616,
        current.since(older).websocket_rx == current.websocket_rx.since(older.websocket_rx),
        current.since(older).websocket_tx == current.websocket_tx.since(older.websocket_tx),
        current.since(older).tap_rx == current.tap_rx.since(older.tap_rx),
        current.since(older).tap_tx == current.tap_tx.since(older.tap_tx),
        ({
            let now = current.tap_tx;
            let was = older.tap_tx;
            let gained = now.since(was);
            &&& now.frames >= was.frames ==> gained.frames + was.frames == now.frames
            &&& now.frames < was.frames ==> gained.frames == 0
            &&& now.bytes >= was.bytes ==> gained.bytes + was.bytes == now.bytes
            &&& now.bytes < was.bytes ==> gained.bytes == 0
        }),
{
}

/// Whether the figures of a direction are its totals, what it gained over the baseline, and that
/// gain in bytes spread over the window.
pub open spec fn shows(
    shown: DirectionSnapshot,
    current: DirectionTotals,
    baseline: DirectionTotals,
    window: int,
) -> bool {
    &&& shown.frames == current.frames
    &&& shown.bytes == current.bytes
    &&& current.frames >= baseline.frames ==> shown.recent_frames + baseline.frames
        == current.frames
    &&& current.frames < baseline.frames ==> shown.recent_frames == 0
    &&& current.bytes >= baseline.bytes ==> shown.recent_bytes + baseline.bytes == current.bytes
    &&& current.bytes < baseline.bytes ==> shown.recent_bytes == 0
    &&& shown.recent_bps * window <= shown.recent_bytes < (shown.recent_bps + 1) * window
}

/// The published figures: each direction shows its own totals and gains; the aggregate rate, times
/// the window, is within one window of what the four directions gained together, so it is at least
/// the rate of each of them.
pub proof fn the_figures_show_totals_gains_and_rates(
    second: u64,
    connected_clients: usize,
    current: TrafficTotals,
    baseline: TrafficTotals,
)
    ensures
        ({
            let f = figures(second, connected_clients, current, baseline);
            let window: int = if second == 0 {
                1
            } else if second <= 5 {
                second as int
            } else {
                5
            };
            let gained: int = f.websocket_rx.recent_bytes + f.websocket_tx.recent_bytes
                + f.tap_rx.recent_bytes + f.tap_tx.recent_bytes;
            &&& f.uptime_seconds == second
            &&& f.recent_window_seconds == window
            &&& f.connected_clients == connected_clients
            &&& shows(f.websocket_rx, current.websocket_rx, baseline.websocket_rx, window)
            &&& shows(f.websocket_tx, current.websocket_tx, baseline.websocket_tx, window)
            &&& shows(f.tap_rx, current.tap_rx, baseline.tap_rx, window)
            &&& shows(f.tap_tx, current.tap_tx, baseline.tap_tx, window)
            &&& gained <= u64::MAX ==> f.current_bps * window <= gained < (f.current_bps + 1)
                * window
            &&& gained > u64::MAX ==> f.current_bps * window <= u64::MAX < (f.current_bps + 1)
                * window
            &&& f.current_bps >= f.websocket_rx.recent_bps
            &&& f.current_bps >= f.websocket_tx.recent_bps
            &&& f.current_bps >= f.tap_rx.recent_bps
            &&& f.current_bps >= f.tap_tx.recent_bps
        }),
{
    let window = recent_window(second);
    let recent = current.since(baseline);
    let total = capped(recent.byte_sum());
    quotient_bounds(recent.websocket_rx.bytes, window);
    quotient_bounds(recent.websocket_tx.bytes, window);
    quotient_bounds(recent.tap_rx.bytes, window);
    quotient_bounds(recent.tap_tx.bytes, window);
    quotient_bounds(total, window);
    quotient_grows(recent.websocket_rx.bytes, total, window);
    quotient_grows(recent.websocket_tx.bytes, total, window);
    quotient_grows(recent.tap_rx.bytes, total, window);
    quotient_grows(recent.tap_tx.bytes, total, window);
}

proof fn quotient_bounds(n: u64, d: u64)
    by (nonlinear_arith)
    requires
        d >= 1,
    ensures
        (n / d) * d <= n < ((n / d) + 1) * d,
{
}

proof fn quotient_grows(m: u64, n: u64, d: u64)
    by (nonlinear_arith)
    requires
        d >= 1,
        m <= n,
    ensures
        m / d <= n / d,
{
}

/// The baseline of a second is the totals of a sample taken no later, and no sample taken later
/// than that one was taken in time. Where no sample was taken in time it is no traffic.
pub proof fn the_baseline_is_the_latest_sample_in_time(samples: Seq<TrafficSample>, target: u64)
    ensures
        (exists|i: int| 0 <= i < samples.len() && (#[trigger] samples[i]).second <= target)
            ==> exists|i: int|
            {
                &&& 0 <= i < samples.len()
                &&& (#[trigger] samples[i]).second <= target
                &&& baseline_of(samples, target) == samples[i].totals
                &&& forall|j: int|
                    0 <= j < samples.len() && (#[trigger] samples[j]).second <= target
                        ==> samples[j].second <= samples[i].second
            },
        (forall|i: int| 0 <= i < samples.len() ==> (#[trigger] samples[i]).second > target)
            ==> baseline_of(samples, target) == (TrafficTotals {
            websocket_rx: DirectionTotals { frames: 0, bytes: 0 },
            websocket_tx: DirectionTotals { frames: 0, bytes: 0 },
            tap_rx: DirectionTotals { frames: 0, bytes: 0 },
            tap_tx: DirectionTotals { frames: 0, bytes: 0 },
        }),
{
    if exists|i: int| 0 <= i < samples.len() && (#[trigger] samples[i]).second <= target {
        let i = choose|i: int| 0 <= i < samples.len() && (#[trigger] samples[i]).second <= target;
        let best = latest_up_to(samples, target, i, samples.len() as int);
        assert(is_latest(samples, target, best));
        latest_gives_baseline(samples, target, best);
        assert forall|j: int|
            0 <= j < samples.len() && (#[trigger] samples[j]).second <= target implies samples[j].second
            <= samples[best].second by {
            assert(in_time(samples, target, j));
        }
    } else {
        assert forall|k: int| !is_latest(samples, target, k) by {
            assert(!in_time(samples, target, k));
        }
    }
}

proof fn latest_up_to(samples: Seq<TrafficSample>, target: u64, i: int, n: int) -> (best: int)
    requires
        0 <= i < samples.len(),
        samples[i].second <= target,
        0 <= n <= samples.len(),
    ensures
        in_time(samples, target, best),
        best == i || best < n,
        forall|j: int|
            (j == i || j < n) && #[trigger] in_time(samples, target, j) ==> samples[j].second
                < samples[best].second || (samples[j].second == samples[best].second && j <= best),
    decreases n,
{
    if n == 0 {
        i
    } else {
        let before = latest_up_to(samples, target, i, n - 1);
        let last = n - 1;
        if in_time(samples, target, last) && (samples[last].second > samples[before].second || (
        samples[last].second == samples[before].second && last >= before)) {
            last
        } else {
            before
        }
    }
}

/// The samples of six successive seconds have six different places, so a sample is replaced only
/// after six seconds; taking a sample changes only its own place.
pub proof fn a_sample_keeps_its_place_for_six_seconds(
    stats: TrafficStats,
    second: u64,
    later: u64,
    i: int,
)
    requires
        stats.samples().len() == 6,
        second < later <= usize::MAX,
        0 <= i < 6,
    ensures
        0 <= slot_of(second) < 6,
        later - second < 6 ==> slot_of(later) != slot_of(second),
        later - second == 6 ==> slot_of(later) == slot_of(second),
        stats.samples_after(second).len() == 6,
        stats.samples_after(second)[slot_of(second)].second == second,
        stats.samples_after(second)[slot_of(second)].totals == stats.counters.totals(),
        i != slot_of(second) ==> stats.samples_after(second)[i] == stats.history.samples@[i],
        stats.totals() == stats.counters.totals(),
        stats.samples() == stats.history.samples@,
{
}

/// What is published at a second compares the totals with the latest sample that was taken when
/// the window began or before: five seconds ago, or at the start where less time has passed.
pub proof fn the_window_begins_five_seconds_ago(
    stats: TrafficStats,
    second: u64,
    connected_clients: usize,
)
    ensures
        ({
            let begin = if second > 5 {
                (second - 5) as u64
            } else {
                0
            };
            stats.figures_at(second, connected_clients) == figures(
                second,
                connected_clients,
                stats.counters.totals(),
                baseline_of(stats.history.samples@, begin),
            )
        }),
{
}

} // verus!
