//! The last sample of each counter, and the rates derived from two samples.

use crate::frames::{count_of, FrameReport};
use crate::quantity::{amount_of, Amount, Quantity};
use crate::traffic::TrafficCounters;
use vstd::hash_map::StringHashMap;
use vstd::prelude::*;
use vstd::string::StringExecFns;

verus! {

/// The count of frames of a package at one time.
#[derive(Debug, Clone, Copy, PartialEq, Eq)]
pub struct FrameSample {
    pub total_frames: u64,
    /// Milliseconds since the epoch.
    pub timestamp: u64,
}

/// The byte counters of a process at one time.
#[derive(Debug, Clone, Copy, PartialEq, Eq)]
pub struct TrafficSample {
    pub rx_bytes: u64,
    pub tx_bytes: u64,
    /// Milliseconds since the epoch.
    pub timestamp: u64,
}

/// Frames of a package: how fast they come and how long they take.
#[derive(Debug, Clone, PartialEq, Eq)]
pub struct FrameStats {
    /// Frames per second.
    pub fps: Quantity,
    /// The usual time of a frame, in milliseconds.
    pub avg_frame_time: Quantity,
    /// Recent frame times, in milliseconds.
    pub frame_times: Vec<Quantity>,
    /// How many frames took too long.
    pub jank_count: u32,
}

/// What a [`FrameStats`] holds, as mathematical values.
pub struct FrameFigures {
    pub fps: Amount,
    pub avg_frame_time: Amount,
    pub frame_times: Seq<Amount>,
    pub jank_count: nat,
}

impl View for FrameStats {
    type V = FrameFigures;

    open spec fn view(&self) -> FrameFigures {
        FrameFigures {
            fps: self.fps@,
            avg_frame_time: self.avg_frame_time@,
            frame_times: Seq::new(self.frame_times@.len(), |i: int| self.frame_times@[i]@),
            jank_count: self.jank_count as nat,
        }
    }
}

/// The byte counters of a process, and how much they grew since the sample before.
#[derive(Debug, Clone, Copy, PartialEq, Eq)]
pub struct TrafficStats {
    pub rx_bytes: u64,
    pub tx_bytes: u64,
    /// The bytes received since the sample before, where there was one.
    pub rx_delta: Option<u64>,
    /// The bytes sent since the sample before, where there was one.
    pub tx_delta: Option<u64>,
    /// The milliseconds since the sample before, at least one.
    pub elapsed_ms: u64,
}

/// `a - b`, or zero where `b` is greater.
pub open spec fn difference(a: u64, b: u64) -> nat {
    if a >= b {
        (a - b) as nat
    } else {
        0
    }
}

/// The key under which the samples of `subject` on `target` are kept.
pub open spec fn history_key(target: Seq<char>, subject: Seq<char>) -> Seq<char> {
    target + ":"@ + subject
}

/// What `m` holds under `key`.
pub open spec fn sample_at<V>(m: Map<Seq<char>, V>, key: Seq<char>) -> Option<V> {
    if m.contains_key(key) {
        Some(m[key])
    } else {
        None
    }
}

/// The frame rate as a count of frames and the milliseconds in which they
/// came, times one thousand: sixty to one where there is no sample before
/// or less than 100 milliseconds have passed since; else the frames
/// since the sample before, none where the count fell, times one thousand,
/// to the milliseconds since.
pub open spec fn frame_rate(previous: Option<FrameSample>, total: u64, now: u64) -> (nat, nat) {
    match previous {
        Some(p) => if difference(now, p.timestamp) >= 100 {
            (difference(total, p.total_frames) * 1000, difference(now, p.timestamp))
        } else {
            (60, 1)
        },
        None => (60, 1),
    }
}

/// The frame figures of a report, given the sample before: the rate of
/// [`frame_rate`]; as usual frame time the ninetieth percentile, or one
/// thousand over the rate; as frame times the usual one and the
/// ninety-fifth percentile; as count of janky frames the reported one or zero.
pub open spec fn frame_figures(
    janky: Option<nat>,
    percentile_90: Option<Amount>,
    percentile_95: Option<Amount>,
    rate: (nat, nat),
) -> FrameFigures {
    let usual = match percentile_90 {
        Some(a) => a,
        None => Amount::Ratio { numerator: 1000 * rate.1, denominator: rate.0 },
    };
    FrameFigures {
        fps: Amount::Ratio { numerator: rate.0, denominator: rate.1 },
        avg_frame_time: usual,
        frame_times: match percentile_95 {
            Some(a) => seq![usual, a],
            None => seq![usual],
        },
        jank_count: match janky {
            Some(n) => n,
            None => 0,
        },
    }
}

/// The traffic figures of a pair of counters, given the sample before: the
/// growth of each counter, none where it fell, over the milliseconds since,
/// at least one; without a sample before there is no growth to speak of.
pub open spec fn traffic_figures(
    previous: Option<TrafficSample>,
    counters: TrafficCounters,
    now: u64,
) -> TrafficStats {
    match previous {
        Some(p) => TrafficStats {
            rx_bytes: counters.rx_bytes,
            tx_bytes: counters.tx_bytes,
            rx_delta: Some(difference(counters.rx_bytes, p.rx_bytes) as u64),
            tx_delta: Some(difference(counters.tx_bytes, p.tx_bytes) as u64),
            elapsed_ms: if difference(now, p.timestamp) >= 1 {
                difference(now, p.timestamp) as u64
            } else {
                1
            },
        },
        None => TrafficStats {
            rx_bytes: counters.rx_bytes,
            tx_bytes: counters.tx_bytes,
            rx_delta: None,
            tx_delta: None,
            elapsed_ms: 1,
        },
    }
}

/// `count` per `elapsed_ms` milliseconds, as a rate per second over `unit`.
pub open spec fn per_second(count: nat, elapsed_ms: nat, unit: nat) -> Amount {
    Amount::Ratio { numerator: count * 1000, denominator: elapsed_ms * unit }
}

impl TrafficStats {
    /// The bytes moved in both directions since the sample before: the sum
    /// where both directions are known, else the one that is known.
    pub open spec fn total_delta(self) -> Option<nat> {
        match (self.rx_delta, self.tx_delta) {
            (Some(rx), Some(tx)) => Some((rx + tx) as nat),
            (Some(rx), None) => Some(rx as nat),
            (None, Some(tx)) => Some(tx as nat),
            (None, None) => None,
        }
    }

    /// The rate that belongs to a growth of `delta`, over `unit`.
    pub open spec fn rate_of(self, delta: Option<nat>, unit: nat) -> Option<Amount> {
        match delta {
            Some(n) => Some(per_second(n, self.elapsed_ms as nat, unit)),
            None => None,
        }
    }

    /// The rate of a growth of `delta` bytes, over `unit`.
    fn rate(&self, delta: Option<u128>, unit: u128) -> (r: Option<Quantity>)
        requires
            unit <= 1024,
            delta matches Some(n) ==> n <= 2 * u64::MAX,
        ensures
            amount_of(r) == self.rate_of(
                match delta {
                    Some(n) => Some(n as nat),
                    None => None,
                },
                unit as nat,
            ),
    {
        match delta {
            Some(n) => {
                assert(n * 1000 <= u128::MAX && self.elapsed_ms * unit <= u128::MAX)
                    by (nonlinear_arith)
                    requires
                        n <= 2 * u64::MAX,
                        unit <= 1024,
                        self.elapsed_ms <= u64::MAX,
                ;
                Some(Quantity::ratio(n * 1000, self.elapsed_ms as u128 * unit))
            },
            None => None,
        }
    }

    /// Bytes received per second, where known.
    pub fn rx_bps(&self) -> (r: Option<Quantity>)
        ensures
            amount_of(r) == self.rate_of(count_of_bytes(self.rx_delta), 1),
    {
        match self.rx_delta {
            Some(n) => self.rate(Some(n as u128), 1),
            None => self.rate(None, 1),
        }
    }

    /// Bytes sent per second, where known.
    pub fn tx_bps(&self) -> (r: Option<Quantity>)
        ensures
            amount_of(r) == self.rate_of(count_of_bytes(self.tx_delta), 1),
    {
        match self.tx_delta {
            Some(n) => self.rate(Some(n as u128), 1),
            None => self.rate(None, 1),
        }
    }

    /// The bytes moved in both directions since the sample before.
    fn total(&self) -> (r: Option<u128>)
        ensures
            r matches Some(n) ==> n <= 2 * u64::MAX,
            self.total_delta() == (match r {
                Some(n) => Some(n as nat),
                None => None,
            }),
    {
        match (self.rx_delta, self.tx_delta) {
            (Some(rx), Some(tx)) => Some(rx as u128 + tx as u128),
            (Some(rx), None) => Some(rx as u128),
            (None, Some(tx)) => Some(tx as u128),
            (None, None) => None,
        }
    }

    /// Bytes moved per second in both directions together: the sum of the
    /// two rates where both are known, else the one that is known, else nothing.
    pub fn total_bps(&self) -> (r: Option<Quantity>)
        ensures
            amount_of(r) == self.rate_of(self.total_delta(), 1),
    {
        self.rate(self.total(), 1)
    }

    /// [`Self::total_bps`] in units of 1024 bytes.
    pub fn total_kbps(&self) -> (r: Option<Quantity>)
        ensures
            amount_of(r) == self.rate_of(self.total_delta(), 1024),
    {
        self.rate(self.total(), 1024)
    }
}

/// The view of an optional count of bytes.
pub open spec fn count_of_bytes(n: Option<u64>) -> Option<nat> {
    match n {
        Some(n) => Some(n as nat),
        None => None,
    }
}

/// The first observation under a key gives the rate that stands in for a
/// measured one: sixty frames per second, and for traffic no rate at all.
pub proof fn lemma_first_observation_falls_back(
    frames: Map<Seq<char>, FrameSample>,
    traffic: Map<Seq<char>, TrafficSample>,
    key: Seq<char>,
    total: u64,
    counters: TrafficCounters,
    now: u64,
)
    requires
        !frames.contains_key(key),
        !traffic.contains_key(key),
    ensures
        frame_rate(sample_at(frames, key), total, now) == (60nat, 1nat),
        ({
            let stats = traffic_figures(sample_at(traffic, key), counters, now);
            &&& stats.rx_bytes == counters.rx_bytes
            &&& stats.tx_bytes == counters.tx_bytes
            &&& stats.rate_of(count_of_bytes(stats.rx_delta), 1) is None
            &&& stats.rate_of(count_of_bytes(stats.tx_delta), 1) is None
            &&& stats.rate_of(stats.total_delta(), 1) is None
            &&& stats.rate_of(stats.total_delta(), 1024) is None
        }),
{
}

/// An observation that comes less than 100 milliseconds after the one
/// before, or bears an earlier time, gives sixty frames per second.
pub proof fn lemma_short_interval_falls_back(previous: FrameSample, total: u64, now: u64)
    requires
        now < previous.timestamp + 100,
    ensures
        frame_rate(Some(previous), total, now) == (60nat, 1nat),
{
}

/// An observation that comes 100 milliseconds or more after the one before
/// gives the measured rate: the frames since, times one thousand, to the
/// milliseconds since.
pub proof fn lemma_full_interval_is_measured(previous: FrameSample, total: u64, now: u64)
    requires
        now >= previous.timestamp + 100,
    ensures
        frame_rate(Some(previous), total, now) == (
            difference(total, previous.total_frames) * 1000,
            (now - previous.timestamp) as nat,
        ),
{
}

/// A counter that fell between two samples gives the rate zero: the frame
/// rate is zero over the time that passed, and so is the rate of each
/// direction of traffic whose counter fell.
pub proof fn lemma_fallen_counter_gives_zero(
    frames: FrameSample,
    total: u64,
    traffic: TrafficSample,
    counters: TrafficCounters,
    now: u64,
)
    ensures
        total <= frames.total_frames && now >= frames.timestamp + 100 ==> frame_rate(
            Some(frames),
            total,
            now,
        ) == (0nat, (now - frames.timestamp) as nat),
        ({
            let stats = traffic_figures(Some(traffic), counters, now);
            &&& stats.elapsed_ms >= 1
            &&& counters.rx_bytes <= traffic.rx_bytes ==> stats.rate_of(
                count_of_bytes(stats.rx_delta),
                1,
            ) == Some(per_second(0, stats.elapsed_ms as nat, 1))
            &&& counters.tx_bytes <= traffic.tx_bytes ==> stats.rate_of(
                count_of_bytes(stats.tx_delta),
                1,
            ) == Some(per_second(0, stats.elapsed_ms as nat, 1))
        }),
{
}

/// `a - b`, or zero where `b` is greater.
pub fn saturating_difference(a: u64, b: u64) -> (r: u64)
    ensures
        r == difference(a, b),
{
    if a >= b {
        a - b
    } else {
        0
    }
}

/// Computes [`frame_rate`].
pub fn derive_frame_rate(previous: Option<FrameSample>, total: u64, now: u64) -> (r: (
    u128,
    u128,
))
    ensures
        (r.0 as nat, r.1 as nat) == frame_rate(previous, total, now),
        r.0 <= 1000 * u64::MAX,
        r.1 <= u64::MAX,
{
    match previous {
        Some(p) => {
            let elapsed = saturating_difference(now, p.timestamp);
            if elapsed >= 100 {
                let frames = saturating_difference(total, p.total_frames);
                (frames as u128 * 1000, elapsed as u128)
            } else {
                (60, 1)
            }
        },
        None => (60, 1),
    }
}

/// The frame figures of `report`, given the sample before and the time of the report.
pub fn frame_stats(report: FrameReport, previous: Option<FrameSample>, now: u64) -> (s:
    FrameStats)
    ensures
        s@ == frame_figures(
            count_of(report.janky_frames),
            amount_of(report.percentile_90),
            amount_of(report.percentile_95),
            frame_rate(previous, report.total_frames, now),
        ),
{
    let rate = derive_frame_rate(previous, report.total_frames, now);
    let usual = match report.percentile_90 {
        Some(q) => q,
        None => Quantity::ratio(1000 * rate.1, rate.0),
    };
    let mut frame_times: Vec<Quantity> = Vec::new();
    frame_times.push(usual.duplicate());
    match report.percentile_95 {
        Some(q) => {
            frame_times.push(q);
        },
        None => {},
    }
    let jank_count = match report.janky_frames {
        Some(n) => n,
        None => 0,
    };
    let s = FrameStats {
        fps: Quantity::ratio(rate.0, rate.1),
        avg_frame_time: usual,
        frame_times,
        jank_count,
    };
    assert(s@.frame_times =~= frame_figures(
        count_of(report.janky_frames),
        amount_of(report.percentile_90),
        amount_of(report.percentile_95),
        frame_rate(previous, report.total_frames, now),
    ).frame_times);
    s
}

/// Computes [`traffic_figures`].
pub fn traffic_stats(previous: Option<TrafficSample>, counters: TrafficCounters, now: u64) -> (s:
    TrafficStats)
    ensures
        s == traffic_figures(previous, counters, now),
{
    match previous {
        Some(p) => {
            let elapsed = saturating_difference(now, p.timestamp);
            TrafficStats {
                rx_bytes: counters.rx_bytes,
                tx_bytes: counters.tx_bytes,
                rx_delta: Some(saturating_difference(counters.rx_bytes, p.rx_bytes)),
                tx_delta: Some(saturating_difference(counters.tx_bytes, p.tx_bytes)),
                elapsed_ms: if elapsed >= 1 {
                    elapsed
                } else {
                    1
                },
            }
        },
        None => TrafficStats {
            rx_bytes: counters.rx_bytes,
            tx_bytes: counters.tx_bytes,
            rx_delta: None,
            tx_delta: None,
            elapsed_ms: 1,
        },
    }
}

/// The last sample of every counter that was ever observed, by target and subject.
pub struct HistoryStore {
    frames: StringHashMap<FrameSample>,
    traffic: StringHashMap<TrafficSample>,
}

impl HistoryStore {
    /// The last count of frames of each package, by key.
    pub closed spec fn frames(&self) -> Map<Seq<char>, FrameSample> {
        self.frames@
    }

    /// The last byte counters of each process, by key.
    pub closed spec fn traffic(&self) -> Map<Seq<char>, TrafficSample> {
        self.traffic@
    }

    /// A store without samples.
    pub fn new() -> (store: HistoryStore)
        ensures
            store.frames() == Map::<Seq<char>, FrameSample>::empty(),
            store.traffic() == Map::<Seq<char>, TrafficSample>::empty(),
    {
        HistoryStore { frames: StringHashMap::new(), traffic: StringHashMap::new() }
    }

    /// The key under which the samples of `subject` on `target` are kept.
    pub fn key(target: &str, subject: &str) -> (k: String)
        ensures
            k@ == history_key(target@, subject@),
    {
        let mut k = target.to_owned();
        k.append(":");
        k.append(subject);
        k
    }

    /// The last count of frames of `package` on `device`.
    pub fn last_frames(&self, device: &str, package: &str) -> (r: Option<FrameSample>)
        ensures
            r == sample_at(self.frames(), history_key(device@, package@)),
    {
        let k = Self::key(device, package);
        match self.frames.get(k.as_str()) {
            Some(sample) => Some(*sample),
            None => None,
        }
    }

    /// The last byte counters of process `pid` on `device`.
    pub fn last_traffic(&self, device: &str, pid: &str) -> (r: Option<TrafficSample>)
        ensures
            r == sample_at(self.traffic(), history_key(device@, pid@)),
    {
        let k = Self::key(device, pid);
        match self.traffic.get(k.as_str()) {
            Some(sample) => Some(*sample),
            None => None,
        }
    }

    /// Takes in a report on the frames of `package` on `device`, made at
    /// time `now`: derives the frame figures from the sample before, and
    /// keeps the new count as the last sample, whatever the rate came to.
    pub fn observe_frames(&mut self, device: &str, package: &str, report: FrameReport, now: u64) -> (s:
        FrameStats)
        ensures
            s@ == frame_figures(
                count_of(report.janky_frames),
                amount_of(report.percentile_90),
                amount_of(report.percentile_95),
                frame_rate(
                    sample_at(old(self).frames(), history_key(device@, package@)),
                    report.total_frames,
                    now,
                ),
            ),
            final(self).frames() == old(self).frames().insert(
                history_key(device@, package@),
                FrameSample { total_frames: report.total_frames, timestamp: now },
            ),
            final(self).traffic() == old(self).traffic(),
    {
        let previous = self.last_frames(device, package);
        let sample = FrameSample { total_frames: report.total_frames, timestamp: now };
        self.frames.insert(Self::key(device, package), sample);
        frame_stats(report, previous, now)
    }

    /// Takes in the byte counters of process `pid` on `device`, read at
    /// time `now`: derives the traffic figures from the sample before, and
    /// keeps the new counters as the last sample.
    pub fn observe_traffic(&mut self, device: &str, pid: &str, counters: TrafficCounters, now: u64) -> (s:
        TrafficStats)
        ensures
            s == traffic_figures(
                sample_at(old(self).traffic(), history_key(device@, pid@)),
                counters,
                now,
            ),
            final(self).traffic() == old(self).traffic().insert(
                history_key(device@, pid@),
                TrafficSample {
                    rx_bytes: counters.rx_bytes,
                    tx_bytes: counters.tx_bytes,
                    timestamp: now,
                },
            ),
            final(self).frames() == old(self).frames(),
    {
        let previous = self.last_traffic(device, pid);
        let sample = TrafficSample {
            rx_bytes: counters.rx_bytes,
            tx_bytes: counters.tx_bytes,
            timestamp: now,
        };
        self.traffic.insert(Self::key(device, pid), sample);
        traffic_stats(previous, counters, now)
    }
}

} // verus!
