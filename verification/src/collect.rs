//! One collection, step by step: which query of the device comes next, and
//! what its reply adds to the snapshot.
//!
//! The collection asks; the caller runs the query and hands back the reply.
//! A query that fails, or whose reply lacks what was looked for, leaves its
//! fields absent and stops nothing.

use crate::battery::{battery_level, battery_temperature, parse_battery};
use crate::command::{extend_with, strings, text_of};
use crate::cpu::{cpu_usage, parse_cpu};
use crate::error::AdbError;
use crate::frames::{frame_count, janky_count, parse_frames, percentile};
use crate::history::{
    frame_figures, frame_rate, history_key, sample_at, traffic_figures, FrameFigures,
    FrameSample, HistoryStore, TrafficSample,
};
use crate::memory::{memory_usage, parse_memory};
use crate::metrics::{nothing, wanted_of, Figures, MetricKey, MetricsSnapshot, Wanted};
use crate::network::{network_total, parse_network};
use crate::power::{battery_current, parse_current, parse_power, power_usage};
use crate::process::{first_word, resolve_pid};
use crate::traffic::{parse_traffic, traffic_counters};
use vstd::prelude::*;
use vstd::string::StringExecFns;

verus! {

/// A query of the device.
#[derive(Debug, Clone, Copy, PartialEq, Eq, Structural)]
pub enum Probe {
    /// Which process runs the package.
    ProcessId,
    /// The graphics report of the package.
    Frames,
    /// The process listing, for the process of the package.
    Cpu,
    /// The battery statistics of the package.
    PowerStats,
    /// The battery report, for the current, where the statistics gave no power figure.
    BatteryCurrent,
    /// The memory report of the package.
    Memory,
    /// The interface table of the device.
    Network,
    /// The battery report, for level and temperature.
    Battery,
    /// The interface table of the process of the package.
    Traffic,
}

/// How far a collection has come.
pub struct Progress {
    pub device: Seq<char>,
    pub package: Seq<char>,
    pub wanted: Wanted,
    /// The query whose reply is awaited; none once the collection is complete.
    pub pending: Option<Probe>,
    /// The process of the package, once it is known.
    pub pid: Option<Seq<char>>,
    pub snapshot: Figures,
}

/// The place of a query in the order in which queries are made; the place
/// behind the last for none.
pub open spec fn rank(p: Option<Probe>) -> nat {
    match p {
        Some(Probe::ProcessId) => 0,
        Some(Probe::Frames) => 1,
        Some(Probe::Cpu) => 2,
        Some(Probe::PowerStats) => 3,
        Some(Probe::BatteryCurrent) => 4,
        Some(Probe::Memory) => 5,
        Some(Probe::Network) => 6,
        Some(Probe::Battery) => 7,
        Some(Probe::Traffic) => 8,
        None => 9,
    }
}

/// The query that comes behind `p` in that order.
pub open spec fn following(p: Probe) -> Option<Probe> {
    match p {
        Probe::ProcessId => Some(Probe::Frames),
        Probe::Frames => Some(Probe::Cpu),
        Probe::Cpu => Some(Probe::PowerStats),
        Probe::PowerStats => Some(Probe::BatteryCurrent),
        Probe::BatteryCurrent => Some(Probe::Memory),
        Probe::Memory => Some(Probe::Network),
        Probe::Network => Some(Probe::Battery),
        Probe::Battery => Some(Probe::Traffic),
        Probe::Traffic => None,
    }
}

/// Whether the query `p` is to be made: the process is looked up once
/// where the CPU share or the traffic is wanted, and those two are queried
/// only once the process is known; the battery report is read for the
/// current only where power is wanted and not yet known; level and
/// temperature share one battery report.
pub open spec fn is_due(p: Probe, wanted: Wanted, pid_known: bool, power_known: bool) -> bool {
    match p {
        Probe::ProcessId => wanted.cpu || wanted.traffic,
        Probe::Frames => wanted.fps,
        Probe::Cpu => wanted.cpu && pid_known,
        Probe::PowerStats => wanted.power,
        Probe::BatteryCurrent => wanted.power && !power_known,
        Probe::Memory => wanted.memory,
        Probe::Network => wanted.network,
        Probe::Battery => wanted.battery || wanted.battery_temp,
        Probe::Traffic => wanted.traffic && pid_known,
    }
}

/// The first query from `from` on that is to be made.
pub open spec fn next_due(
    from: Option<Probe>,
    wanted: Wanted,
    pid_known: bool,
    power_known: bool,
) -> Option<Probe>
    decreases 9 - rank(from),
{
    match from {
        Some(p) => if is_due(p, wanted, pid_known, power_known) {
            Some(p)
        } else {
            next_due(following(p), wanted, pid_known, power_known)
        },
        None => None,
    }
}

/// The arguments of the query `probe` for the shell of the device.
pub open spec fn arguments_of(probe: Probe, package: Seq<char>, pid: Option<Seq<char>>) -> Seq<
    Seq<char>,
> {
    let process = match pid {
        Some(p) => p,
        None => Seq::empty(),
    };
    match probe {
        Probe::ProcessId => seq!["shell"@, "pidof"@, package],
        Probe::Frames => seq!["shell"@, "dumpsys"@, "gfxinfo"@, package],
        Probe::Cpu => seq!["shell"@, "top"@, "-b"@, "-n"@, "1"@, "-q"@, "-p"@, process],
        Probe::PowerStats => seq!["shell"@, "dumpsys"@, "batterystats"@, package],
        Probe::BatteryCurrent => seq!["shell"@, "dumpsys"@, "battery"@],
        Probe::Memory => seq!["shell"@, "dumpsys"@, "meminfo"@, package],
        Probe::Network => seq!["shell"@, "cat"@, "/proc/net/dev"@],
        Probe::Battery => seq!["shell"@, "dumpsys"@, "battery"@],
        Probe::Traffic => seq!["shell"@, "cat"@, "/proc/"@ + process + "/net/dev"@],
    }
}

/// The text of a reply, where the query succeeded.
pub open spec fn said(reply: Result<String, AdbError>) -> Option<Seq<char>> {
    match reply {
        Ok(t) => Some(t@),
        Err(_) => None,
    }
}

/// A collection that has begun: nothing found yet, and the first query
/// that is to be made pending.
pub open spec fn started(device: Seq<char>, package: Seq<char>, wanted: Wanted) -> Progress {
    Progress {
        device,
        package,
        wanted,
        pending: next_due(Some(Probe::ProcessId), wanted, false, false),
        pid: None,
        snapshot: nothing(),
    }
}

/// The count of frames in a graphics report, where it has one.
pub open spec fn frames_in(said: Option<Seq<char>>) -> Option<u64> {
    match said {
        Some(t) => match frame_count(t) {
            Some(n) => Some(n as u64),
            None => None,
        },
        None => None,
    }
}

/// The frame figures that the reply to [`Probe::Frames`] yields, given the
/// sample before.
pub open spec fn frames_found(
    said: Option<Seq<char>>,
    previous: Option<FrameSample>,
    now: u64,
) -> Option<FrameFigures> {
    match (said, frames_in(said)) {
        (Some(t), Some(total)) => Some(
            frame_figures(
                janky_count(t),
                percentile(t, "90th percentile:"@),
                percentile(t, "95th percentile:"@),
                frame_rate(previous, total, now),
            ),
        ),
        _ => None,
    }
}

/// The byte counters in the reply to [`Probe::Traffic`], where the process
/// is known and the reply has any.
pub open spec fn traffic_in(said: Option<Seq<char>>, pid: Option<Seq<char>>) -> Option<
    crate::traffic::TrafficCounters,
> {
    match (said, pid) {
        (Some(t), Some(_)) => traffic_counters(t),
        _ => None,
    }
}

/// What `find` finds in the text of a reply.
pub open spec fn found<T>(said: Option<Seq<char>>, find: spec_fn(Seq<char>) -> Option<T>)
    -> Option<T> {
    match said {
        Some(t) => find(t),
        None => None,
    }
}

/// The snapshot once the reply to the query `probe` is taken in.
///
/// Each reply sets the fields of its own kind and leaves the others. The
/// traffic of the process sets counters and rates, and the traffic in
/// units of 1024 bytes where a rate is known: a rate comes before the
/// running total of the device.
pub open spec fn snapshot_after(
    c: Progress,
    probe: Probe,
    said: Option<Seq<char>>,
    now: u64,
    frames: Map<Seq<char>, FrameSample>,
    traffic: Map<Seq<char>, TrafficSample>,
) -> Figures {
    let s = c.snapshot;
    match probe {
        Probe::ProcessId => s,
        Probe::Frames => match frames_found(
            said,
            sample_at(frames, history_key(c.device, c.package)),
            now,
        ) {
            Some(f) => Figures { fps: Some(f.fps), frame_stats: Some(f), ..s },
            None => s,
        },
        Probe::Cpu => Figures {
            cpu: match (said, c.pid) {
                (Some(t), Some(p)) => cpu_usage(t, p),
                _ => None,
            },
            ..s
        },
        Probe::PowerStats => Figures { power: found(said, |t: Seq<char>| power_usage(t)), ..s },
        Probe::BatteryCurrent => Figures {
            power: found(said, |t: Seq<char>| battery_current(t)),
            ..s
        },
        Probe::Memory => Figures { memory_mb: found(said, |t: Seq<char>| memory_usage(t)), ..s },
        Probe::Network => Figures {
            network_kbps: found(said, |t: Seq<char>| network_total(t)),
            ..s
        },
        Probe::Battery => {
            let level = found(said, |t: Seq<char>| battery_level(t));
            let temperature = found(said, |t: Seq<char>| battery_temperature(t));
            if level is Some || temperature is Some {
                Figures { battery_level: level, battery_temp_c: temperature, ..s }
            } else {
                s
            }
        },
        Probe::Traffic => match (traffic_in(said, c.pid), c.pid) {
            (Some(counters), Some(p)) => {
                let stats = traffic_figures(
                    sample_at(traffic, history_key(c.device, p)),
                    counters,
                    now,
                );
                Figures {
                    rx_bytes: Some(stats.rx_bytes),
                    tx_bytes: Some(stats.tx_bytes),
                    rx_bps: stats.rate_of(crate::history::count_of_bytes(stats.rx_delta), 1),
                    tx_bps: stats.rate_of(crate::history::count_of_bytes(stats.tx_delta), 1),
                    network_bps: stats.rate_of(stats.total_delta(), 1),
                    network_kbps: match stats.rate_of(stats.total_delta(), 1024) {
                        Some(k) => Some(k),
                        None => s.network_kbps,
                    },
                    ..s
                }
            },
            _ => s,
        },
    }
}

/// The process of the package once the reply to the query `probe` is
/// taken in: the first word of the answer to the lookup, else as before.
pub open spec fn pid_after(c: Progress, probe: Probe, said: Option<Seq<char>>) -> Option<
    Seq<char>,
> {
    if probe == Probe::ProcessId {
        found(said, |t: Seq<char>| first_word(t))
    } else {
        c.pid
    }
}

/// The collection once the reply to its pending query is taken in: the
/// process where it was looked up, the snapshot of [`snapshot_after`], and
/// as pending query the next that is to be made. A collection that is
/// complete stays as it is.
pub open spec fn absorb(
    c: Progress,
    said: Option<Seq<char>>,
    now: u64,
    frames: Map<Seq<char>, FrameSample>,
    traffic: Map<Seq<char>, TrafficSample>,
) -> Progress {
    match c.pending {
        Some(probe) => {
            let pid = pid_after(c, probe, said);
            let snapshot = snapshot_after(c, probe, said, now, frames, traffic);
            Progress {
                pending: next_due(following(probe), c.wanted, pid is Some, snapshot.power is Some),
                pid,
                snapshot,
                ..c
            }
        },
        None => c,
    }
}

/// The frame samples once the reply to the pending query is taken in: a
/// graphics report with a count of frames leaves that count as the last
/// sample of the package, whatever rate it gave.
pub open spec fn frames_after(
    c: Progress,
    said: Option<Seq<char>>,
    now: u64,
    frames: Map<Seq<char>, FrameSample>,
) -> Map<Seq<char>, FrameSample> {
    match (c.pending, frames_in(said)) {
        (Some(Probe::Frames), Some(total)) => frames.insert(
            history_key(c.device, c.package),
            FrameSample { total_frames: total, timestamp: now },
        ),
        _ => frames,
    }
}

/// The traffic samples once the reply to the pending query is taken in: an
/// interface table with counters leaves them as the last sample of the process.
pub open spec fn traffic_after(
    c: Progress,
    said: Option<Seq<char>>,
    now: u64,
    traffic: Map<Seq<char>, TrafficSample>,
) -> Map<Seq<char>, TrafficSample> {
    match (c.pending, traffic_in(said, c.pid), c.pid) {
        (Some(Probe::Traffic), Some(counters), Some(p)) => traffic.insert(
            history_key(c.device, p),
            TrafficSample {
                rx_bytes: counters.rx_bytes,
                tx_bytes: counters.tx_bytes,
                timestamp: now,
            },
        ),
        _ => traffic,
    }
}

/// The next query that is to be made stands at or behind the place where
/// the search began.
pub proof fn lemma_next_due_is_later(
    from: Option<Probe>,
    wanted: Wanted,
    pid_known: bool,
    power_known: bool,
)
    ensures
        rank(next_due(from, wanted, pid_known, power_known)) >= rank(from),
    decreases 9 - rank(from),
{
    match from {
        Some(p) => {
            if !is_due(p, wanted, pid_known, power_known) {
                lemma_next_due_is_later(following(p), wanted, pid_known, power_known);
            }
        },
        None => {},
    }
}

/// Every reply brings the collection forward: the pending query moves to a
/// later place, so that no query is made twice and a collection is
/// complete after nine replies at most.
pub proof fn lemma_absorb_advances(
    c: Progress,
    said: Option<Seq<char>>,
    now: u64,
    frames: Map<Seq<char>, FrameSample>,
    traffic: Map<Seq<char>, TrafficSample>,
)
    requires
        c.pending is Some,
    ensures
        rank(absorb(c, said, now, frames, traffic).pending) > rank(c.pending),
{
    let probe = c.pending->0;
    let next = absorb(c, said, now, frames, traffic);
    lemma_next_due_is_later(following(probe), c.wanted, next.pid is Some, next.snapshot.power is Some);
}

/// Where nothing is wanted, the collection is complete as soon as it has
/// begun: no query is pending, and every field of the snapshot is absent.
pub proof fn lemma_nothing_wanted(device: Seq<char>, package: Seq<char>, metrics: Seq<MetricKey>)
    requires
        metrics.len() == 0,
    ensures
        started(device, package, wanted_of(metrics)).pending is None,
        started(device, package, wanted_of(metrics)).snapshot == nothing(),
{
    reveal_with_fuel(next_due, 10);
}

/// A reply changes no field of another kind: what the snapshot held of the
/// kinds that the pending query does not serve, it holds afterwards.
pub proof fn lemma_reply_leaves_other_fields(
    c: Progress,
    said: Option<Seq<char>>,
    now: u64,
    frames: Map<Seq<char>, FrameSample>,
    traffic: Map<Seq<char>, TrafficSample>,
)
    ensures
        ({
            let s = c.snapshot;
            let t = absorb(c, said, now, frames, traffic).snapshot;
            &&& t.raw == s.raw
            &&& c.pending != Some(Probe::Frames) ==> t.fps == s.fps && t.frame_stats
                == s.frame_stats
            &&& c.pending != Some(Probe::Cpu) ==> t.cpu == s.cpu
            &&& c.pending != Some(Probe::PowerStats) && c.pending != Some(Probe::BatteryCurrent)
                ==> t.power == s.power
            &&& c.pending != Some(Probe::Memory) ==> t.memory_mb == s.memory_mb
            &&& c.pending != Some(Probe::Network) && c.pending != Some(Probe::Traffic)
                ==> t.network_kbps == s.network_kbps
            &&& c.pending != Some(Probe::Battery) ==> t.battery_level == s.battery_level
                && t.battery_temp_c == s.battery_temp_c
            &&& c.pending != Some(Probe::Traffic) ==> t.rx_bytes == s.rx_bytes && t.tx_bytes
                == s.tx_bytes && t.rx_bps == s.rx_bps && t.tx_bps == s.tx_bps && t.network_bps
                == s.network_bps
        }),
{
}

/// A reply that could not be had, or that lacks what was looked for, takes
/// nothing away from the rest and leaves the samples as they were.
pub proof fn lemma_failed_reply_is_harmless(
    c: Progress,
    now: u64,
    frames: Map<Seq<char>, FrameSample>,
    traffic: Map<Seq<char>, TrafficSample>,
)
    ensures
        frames_after(c, None, now, frames) == frames,
        traffic_after(c, None, now, traffic) == traffic,
        c.pending == Some(Probe::Frames) || c.pending == Some(Probe::Battery) || c.pending == Some(
            Probe::Traffic,
        ) || c.pending == Some(Probe::ProcessId) ==> absorb(
            c,
            None,
            now,
            frames,
            traffic,
        ).snapshot == c.snapshot,
{
}

/// Every graphics report with a count of frames, and every interface
/// table of the process with counters, leaves its counters as the last
/// sample under its key, whether a rate could be derived or not.
pub proof fn lemma_every_reading_is_kept(
    c: Progress,
    text: Seq<char>,
    now: u64,
    frames: Map<Seq<char>, FrameSample>,
    traffic: Map<Seq<char>, TrafficSample>,
)
    ensures
        c.pending == Some(Probe::Frames) ==> match frames_in(Some(text)) {
            Some(total) => sample_at(
                frames_after(c, Some(text), now, frames),
                history_key(c.device, c.package),
            ) == Some(FrameSample { total_frames: total, timestamp: now }),
            None => frames_after(c, Some(text), now, frames) == frames,
        },
        c.pending == Some(Probe::Traffic) ==> match (traffic_in(Some(text), c.pid), c.pid) {
            (Some(counters), Some(p)) => sample_at(
                traffic_after(c, Some(text), now, traffic),
                history_key(c.device, p),
            ) == Some(
                TrafficSample {
                    rx_bytes: counters.rx_bytes,
                    tx_bytes: counters.tx_bytes,
                    timestamp: now,
                },
            ),
            _ => traffic_after(c, Some(text), now, traffic) == traffic,
        },
{
}

/// A collection in progress.
pub struct Collection {
    device_id: String,
    package: String,
    wanted: Wanted,
    pending: Option<Probe>,
    pid: Option<String>,
    snapshot: MetricsSnapshot,
}

impl View for Collection {
    type V = Progress;

    closed spec fn view(&self) -> Progress {
        Progress {
            device: self.device_id@,
            package: self.package@,
            wanted: self.wanted,
            pending: self.pending,
            pid: match self.pid {
                Some(p) => Some(p@),
                None => None,
            },
            snapshot: self.snapshot@,
        }
    }
}

/// The query that comes behind `p`.
fn successor(p: Probe) -> (r: Option<Probe>)
    ensures
        r == following(p),
{
    match p {
        Probe::ProcessId => Some(Probe::Frames),
        Probe::Frames => Some(Probe::Cpu),
        Probe::Cpu => Some(Probe::PowerStats),
        Probe::PowerStats => Some(Probe::BatteryCurrent),
        Probe::BatteryCurrent => Some(Probe::Memory),
        Probe::Memory => Some(Probe::Network),
        Probe::Network => Some(Probe::Battery),
        Probe::Battery => Some(Probe::Traffic),
        Probe::Traffic => None,
    }
}

/// Decides [`is_due`].
fn due(p: Probe, wanted: Wanted, pid_known: bool, power_known: bool) -> (b: bool)
    ensures
        b == is_due(p, wanted, pid_known, power_known),
{
    match p {
        Probe::ProcessId => wanted.cpu || wanted.traffic,
        Probe::Frames => wanted.fps,
        Probe::Cpu => wanted.cpu && pid_known,
        Probe::PowerStats => wanted.power,
        Probe::BatteryCurrent => wanted.power && !power_known,
        Probe::Memory => wanted.memory,
        Probe::Network => wanted.network,
        Probe::Battery => wanted.battery || wanted.battery_temp,
        Probe::Traffic => wanted.traffic && pid_known,
    }
}

/// Computes [`next_due`].
fn first_due(from: Option<Probe>, wanted: Wanted, pid_known: bool, power_known: bool) -> (r:
    Option<Probe>)
    ensures
        r == next_due(from, wanted, pid_known, power_known),
    decreases 9 - rank(from),
{
    match from {
        Some(p) => {
            if due(p, wanted, pid_known, power_known) {
                Some(p)
            } else {
                first_due(successor(p), wanted, pid_known, power_known)
            }
        },
        None => None,
    }
}

impl Collection {
    /// Begins a collection of the kinds in `metrics` for `package` on
    /// `device_id`. Nothing is found yet; the first query is pending,
    /// unless nothing is wanted.
    pub fn begin(device_id: &str, package: &str, metrics: &[MetricKey]) -> (c: Collection)
        ensures
            c@ == started(device_id@, package@, wanted_of(metrics@)),
    {
        let wanted = Wanted::of(metrics);
        Collection {
            device_id: device_id.to_owned(),
            package: package.to_owned(),
            wanted,
            pending: first_due(Some(Probe::ProcessId), wanted, false, false),
            pid: None,
            snapshot: MetricsSnapshot::default(),
        }
    }

    /// The query whose reply is awaited; none once the collection is complete.
    pub fn pending(&self) -> (p: Option<Probe>)
        ensures
            p == self@.pending,
    {
        self.pending
    }

    /// The device that is queried.
    pub fn device(&self) -> (d: &str)
        ensures
            d@ == self@.device,
    {
        self.device_id.as_str()
    }

    /// The arguments of the pending query, to be run against the device.
    pub fn arguments(&self) -> (r: Option<Vec<String>>)
        ensures
            match r {
                Some(a) => self@.pending is Some && strings(a@) == arguments_of(
                    self@.pending->0,
                    self@.package,
                    self@.pid,
                ),
                None => self@.pending is None,
            },
    {
        let probe = match self.pending {
            Some(p) => p,
            None => {
                return None;
            },
        };
        let package = self.package.as_str();
        let process: String = match &self.pid {
            Some(p) => p.clone(),
            None => String::new(),
        };
        let mut args: Vec<String> = Vec::new();
        assert(strings(args@) =~= Seq::<Seq<char>>::empty());
        match probe {
            Probe::ProcessId => {
                let parts = ["shell", "pidof", package];
                extend_with(&mut args, &parts);
                assert(strings(args@) =~= seq!["shell"@, "pidof"@, package@]);
            },
            Probe::Frames => {
                let parts = ["shell", "dumpsys", "gfxinfo", package];
                extend_with(&mut args, &parts);
                assert(strings(args@) =~= seq!["shell"@, "dumpsys"@, "gfxinfo"@, package@]);
            },
            Probe::Cpu => {
                let parts = ["shell", "top", "-b", "-n", "1", "-q", "-p", process.as_str()];
                extend_with(&mut args, &parts);
                assert(strings(args@) =~= seq![
                    "shell"@,
                    "top"@,
                    "-b"@,
                    "-n"@,
                    "1"@,
                    "-q"@,
                    "-p"@,
                    process@,
                ]);
            },
            Probe::PowerStats => {
                let parts = ["shell", "dumpsys", "batterystats", package];
                extend_with(&mut args, &parts);
                assert(strings(args@) =~= seq!["shell"@, "dumpsys"@, "batterystats"@, package@]);
            },
            Probe::BatteryCurrent => {
                let parts = ["shell", "dumpsys", "battery"];
                extend_with(&mut args, &parts);
                assert(strings(args@) =~= seq!["shell"@, "dumpsys"@, "battery"@]);
            },
            Probe::Memory => {
                let parts = ["shell", "dumpsys", "meminfo", package];
                extend_with(&mut args, &parts);
                assert(strings(args@) =~= seq!["shell"@, "dumpsys"@, "meminfo"@, package@]);
            },
            Probe::Network => {
                let parts = ["shell", "cat", "/proc/net/dev"];
                extend_with(&mut args, &parts);
                assert(strings(args@) =~= seq!["shell"@, "cat"@, "/proc/net/dev"@]);
            },
            Probe::Battery => {
                let parts = ["shell", "dumpsys", "battery"];
                extend_with(&mut args, &parts);
                assert(strings(args@) =~= seq!["shell"@, "dumpsys"@, "battery"@]);
            },
            Probe::Traffic => {
                let mut path = "/proc/".to_owned();
                path.append(process.as_str());
                path.append("/net/dev");
                let parts = ["shell", "cat", path.as_str()];
                extend_with(&mut args, &parts);
                assert(strings(args@) =~= seq!["shell"@, "cat"@, path@]);
            },
        }
        Some(args)
    }

    /// Takes in the reply to the pending query, which came at time `now`,
    /// in milliseconds since the epoch.
    ///
    /// The reply sets the fields of its kind, a graphics report and an
    /// interface table of the process leave their counters in `store`, and
    /// the next query that is to be made becomes pending. A reply to a
    /// collection that is complete changes nothing.
    pub fn supply(&mut self, reply: Result<String, AdbError>, now: u64, store: &mut HistoryStore)
        ensures
            final(self)@ == absorb(
                old(self)@,
                said(reply),
                now,
                old(store).frames(),
                old(store).traffic(),
            ),
            final(store).frames() == frames_after(
                old(self)@,
                said(reply),
                now,
                old(store).frames(),
            ),
            final(store).traffic() == traffic_after(
                old(self)@,
                said(reply),
                now,
                old(store).traffic(),
            ),
            old(self)@.pending is Some ==> rank(final(self)@.pending) > rank(old(self)@.pending),
    {
        let probe = match self.pending {
            Some(p) => p,
            None => {
                return ;
            },
        };
        proof {
            lemma_absorb_advances(
                self@,
                said(reply),
                now,
                store.frames(),
                store.traffic(),
            );
        }
        let text: Option<String> = match reply {
            Ok(t) => Some(t),
            Err(_) => None,
        };
        self.take(probe, &text, now, store);
        self.pending = first_due(
            successor(probe),
            self.wanted,
            self.pid.is_some(),
            self.snapshot.power.is_some(),
        );
    }

    /// Takes in the reply to the query `probe`, all but the choice of the next query.
    fn take(&mut self, probe: Probe, text: &Option<String>, now: u64, store: &mut HistoryStore)
        requires
            old(self)@.pending == Some(probe),
        ensures
            final(self)@ == (Progress {
                pid: pid_after(old(self)@, probe, text_of(*text)),
                snapshot: snapshot_after(
                    old(self)@,
                    probe,
                    text_of(*text),
                    now,
                    old(store).frames(),
                    old(store).traffic(),
                ),
                ..old(self)@
            }),
            final(store).frames() == frames_after(
                old(self)@,
                text_of(*text),
                now,
                old(store).frames(),
            ),
            final(store).traffic() == traffic_after(
                old(self)@,
                text_of(*text),
                now,
                old(store).traffic(),
            ),
    {
        match probe {
            Probe::ProcessId => {
                self.take_process(text);
            },
            Probe::Frames => {
                self.take_frames(text, now, store);
            },
            Probe::Cpu => {
                self.take_cpu(text);
            },
            Probe::PowerStats => {
                self.take_power(text);
            },
            Probe::BatteryCurrent => {
                self.take_current(text);
            },
            Probe::Memory => {
                self.take_memory(text);
            },
            Probe::Network => {
                self.take_network(text);
            },
            Probe::Battery => {
                self.take_battery(text);
            },
            Probe::Traffic => {
                self.take_traffic(text, now, store);
            },
        }
    }

    /// Takes in the answer to the lookup of the process.
    fn take_process(&mut self, text: &Option<String>)
        ensures
            final(self)@ == (Progress {
                pid: found(text_of(*text), |t: Seq<char>| first_word(t)),
                ..old(self)@
            }),
    {
        self.pid = match text {
            Some(t) => match resolve_pid(t.as_str()) {
                Ok(p) => Some(p),
                Err(_) => None,
            },
            None => None,
        };
    }

    /// Takes in a process listing.
    fn take_cpu(&mut self, text: &Option<String>)
        ensures
            final(self)@ == (Progress {
                snapshot: Figures {
                    cpu: match (text_of(*text), old(self)@.pid) {
                        (Some(t), Some(p)) => cpu_usage(t, p),
                        _ => None,
                    },
                    ..old(self)@.snapshot
                },
                ..old(self)@
            }),
    {
        self.snapshot.cpu = match (text, &self.pid) {
            (Some(t), Some(p)) => match parse_cpu(t.as_str(), p.as_str()) {
                Ok(q) => Some(q),
                Err(_) => None,
            },
            _ => None,
        };
    }

    /// Takes in the battery statistics.
    fn take_power(&mut self, text: &Option<String>)
        ensures
            final(self)@ == (Progress {
                snapshot: Figures {
                    power: found(text_of(*text), |t: Seq<char>| power_usage(t)),
                    ..old(self)@.snapshot
                },
                ..old(self)@
            }),
    {
        self.snapshot.power = match text {
            Some(t) => match parse_power(t.as_str()) {
                Ok(q) => Some(q),
                Err(_) => None,
            },
            None => None,
        };
    }

    /// Takes in a battery report that was read for the current.
    fn take_current(&mut self, text: &Option<String>)
        ensures
            final(self)@ == (Progress {
                snapshot: Figures {
                    power: found(text_of(*text), |t: Seq<char>| battery_current(t)),
                    ..old(self)@.snapshot
                },
                ..old(self)@
            }),
    {
        self.snapshot.power = match text {
            Some(t) => match parse_current(t.as_str()) {
                Ok(q) => Some(q),
                Err(_) => None,
            },
            None => None,
        };
    }

    /// Takes in a memory report.
    fn take_memory(&mut self, text: &Option<String>)
        ensures
            final(self)@ == (Progress {
                snapshot: Figures {
                    memory_mb: found(text_of(*text), |t: Seq<char>| memory_usage(t)),
                    ..old(self)@.snapshot
                },
                ..old(self)@
            }),
    {
        self.snapshot.memory_mb = match text {
            Some(t) => match parse_memory(t.as_str()) {
                Ok(q) => Some(q),
                Err(_) => None,
            },
            None => None,
        };
    }

    /// Takes in the interface table of the device.
    fn take_network(&mut self, text: &Option<String>)
        ensures
            final(self)@ == (Progress {
                snapshot: Figures {
                    network_kbps: found(text_of(*text), |t: Seq<char>| network_total(t)),
                    ..old(self)@.snapshot
                },
                ..old(self)@
            }),
    {
        self.snapshot.network_kbps = match text {
            Some(t) => match parse_network(t.as_str()) {
                Ok(q) => Some(q),
                Err(_) => None,
            },
            None => None,
        };
    }

    /// Takes in a battery report that was read for level and temperature.
    fn take_battery(&mut self, text: &Option<String>)
        ensures
            final(self)@ == (Progress {
                snapshot: snapshot_after(
                    old(self)@,
                    Probe::Battery,
                    text_of(*text),
                    0,
                    Map::empty(),
                    Map::empty(),
                ),
                ..old(self)@
            }),
    {
        match text {
            Some(t) => match parse_battery(t.as_str()) {
                Ok(b) => {
                    self.snapshot.battery_level = b.level;
                    self.snapshot.battery_temp_c = b.temp_c;
                },
                Err(_) => {},
            },
            None => {},
        }
    }

    /// Takes in a graphics report.
    fn take_frames(&mut self, text: &Option<String>, now: u64, store: &mut HistoryStore)
        ensures
            final(self)@ == (Progress {
                snapshot: snapshot_after(
                    old(self)@,
                    Probe::Frames,
                    text_of(*text),
                    now,
                    old(store).frames(),
                    old(store).traffic(),
                ),
                ..old(self)@
            }),
            final(store).frames() == (match frames_in(text_of(*text)) {
                Some(total) => old(store).frames().insert(
                    history_key(old(self)@.device, old(self)@.package),
                    FrameSample { total_frames: total, timestamp: now },
                ),
                None => old(store).frames(),
            }),
            final(store).traffic() == old(store).traffic(),
    {
        match text {
            Some(t) => match parse_frames(t.as_str()) {
                Ok(report) => {
                    let stats = store.observe_frames(
                        self.device_id.as_str(),
                        self.package.as_str(),
                        report,
                        now,
                    );
                    self.snapshot.fps = Some(stats.fps.duplicate());
                    self.snapshot.frame_stats = Some(stats);
                },
                Err(_) => {},
            },
            None => {},
        }
    }

    /// Takes in an interface table of the process.
    fn take_traffic(&mut self, text: &Option<String>, now: u64, store: &mut HistoryStore)
        ensures
            final(self)@ == (Progress {
                snapshot: snapshot_after(
                    old(self)@,
                    Probe::Traffic,
                    text_of(*text),
                    now,
                    old(store).frames(),
                    old(store).traffic(),
                ),
                ..old(self)@
            }),
            final(store).traffic() == (match (
                traffic_in(text_of(*text), old(self)@.pid),
                old(self)@.pid,
            ) {
                (Some(counters), Some(p)) => old(store).traffic().insert(
                    history_key(old(self)@.device, p),
                    TrafficSample {
                        rx_bytes: counters.rx_bytes,
                        tx_bytes: counters.tx_bytes,
                        timestamp: now,
                    },
                ),
                _ => old(store).traffic(),
            }),
            final(store).frames() == old(store).frames(),
    {
        match (text, &self.pid) {
            (Some(t), Some(p)) => match parse_traffic(t.as_str()) {
                Ok(counters) => {
                    let stats = store.observe_traffic(
                        self.device_id.as_str(),
                        p.as_str(),
                        counters,
                        now,
                    );
                    self.snapshot.rx_bytes = Some(stats.rx_bytes);
                    self.snapshot.tx_bytes = Some(stats.tx_bytes);
                    self.snapshot.rx_bps = stats.rx_bps();
                    self.snapshot.tx_bps = stats.tx_bps();
                    self.snapshot.network_bps = stats.total_bps();
                    match stats.total_kbps() {
                        Some(k) => {
                            self.snapshot.network_kbps = Some(k);
                        },
                        None => {},
                    }
                },
                Err(_) => {},
            },
            _ => {},
        }
    }

    /// The snapshot as far as it has come; the whole of it once the
    /// collection is complete.
    pub fn finish(self) -> (s: MetricsSnapshot)
        ensures
            s@ == self@.snapshot,
    {
        self.snapshot
    }
}

} // verus!
