//! What can be measured, and what one collection brings back.

use crate::history::{FrameFigures, FrameStats};
use crate::quantity::{amount_of, Amount, Quantity};
use vstd::prelude::*;

verus! {

/// A kind of measurement that a collection can be asked for.
#[derive(Debug, Clone, Copy, PartialEq, Eq, Structural)]
pub enum MetricKey {
    Fps,
    Cpu,
    Power,
    Memory,
    Network,
    Battery,
    BatteryTemp,
    Traffic,
}

/// The kinds of measurement that are asked for, as a set.
#[derive(Debug, Clone, Copy, PartialEq, Eq, Structural)]
pub struct Wanted {
    pub fps: bool,
    pub cpu: bool,
    pub power: bool,
    pub memory: bool,
    pub network: bool,
    pub battery: bool,
    pub battery_temp: bool,
    pub traffic: bool,
}

/// What one collection found. A field is absent where its kind was not
/// asked for, or could not be had this time.
#[derive(Debug, Clone, PartialEq, Eq)]
pub struct MetricsSnapshot {
    /// Frames per second.
    pub fps: Option<Quantity>,
    /// The share of the CPU, in percent.
    pub cpu: Option<Quantity>,
    /// The power drawn.
    pub power: Option<Quantity>,
    /// The memory in use, in megabytes.
    pub memory_mb: Option<Quantity>,
    /// The traffic in units of 1024 bytes: per second where a rate is
    /// known, else in all.
    pub network_kbps: Option<Quantity>,
    /// Bytes per second in both directions.
    pub network_bps: Option<Quantity>,
    /// Bytes received so far.
    pub rx_bytes: Option<u64>,
    /// Bytes sent so far.
    pub tx_bytes: Option<u64>,
    /// Bytes received per second.
    pub rx_bps: Option<Quantity>,
    /// Bytes sent per second.
    pub tx_bps: Option<Quantity>,
    /// The charge of the battery, in percent.
    pub battery_level: Option<Quantity>,
    /// The temperature of the battery, in degrees Celsius.
    pub battery_temp_c: Option<Quantity>,
    /// The frame figures in full.
    pub frame_stats: Option<FrameStats>,
    /// Diagnostic text as it came.
    pub raw: Option<String>,
}

/// What a [`MetricsSnapshot`] holds, as mathematical values.
pub struct Figures {
    pub fps: Option<Amount>,
    pub cpu: Option<Amount>,
    pub power: Option<Amount>,
    pub memory_mb: Option<Amount>,
    pub network_kbps: Option<Amount>,
    pub network_bps: Option<Amount>,
    pub rx_bytes: Option<u64>,
    pub tx_bytes: Option<u64>,
    pub rx_bps: Option<Amount>,
    pub tx_bps: Option<Amount>,
    pub battery_level: Option<Amount>,
    pub battery_temp_c: Option<Amount>,
    pub frame_stats: Option<FrameFigures>,
    pub raw: Option<Seq<char>>,
}

impl View for MetricsSnapshot {
    type V = Figures;

    open spec fn view(&self) -> Figures {
        Figures {
            fps: amount_of(self.fps),
            cpu: amount_of(self.cpu),
            power: amount_of(self.power),
            memory_mb: amount_of(self.memory_mb),
            network_kbps: amount_of(self.network_kbps),
            network_bps: amount_of(self.network_bps),
            rx_bytes: self.rx_bytes,
            tx_bytes: self.tx_bytes,
            rx_bps: amount_of(self.rx_bps),
            tx_bps: amount_of(self.tx_bps),
            battery_level: amount_of(self.battery_level),
            battery_temp_c: amount_of(self.battery_temp_c),
            frame_stats: match self.frame_stats {
                Some(s) => Some(s@),
                None => None,
            },
            raw: match self.raw {
                Some(t) => Some(t@),
                None => None,
            },
        }
    }
}

/// The snapshot in which every field is absent.
pub open spec fn nothing() -> Figures {
    Figures {
        fps: None,
        cpu: None,
        power: None,
        memory_mb: None,
        network_kbps: None,
        network_bps: None,
        rx_bytes: None,
        tx_bytes: None,
        rx_bps: None,
        tx_bps: None,
        battery_level: None,
        battery_temp_c: None,
        frame_stats: None,
        raw: None,
    }
}

/// The set of the kinds in `metrics`. Neither the order of `metrics` nor
/// how often a kind occurs in it makes a difference.
pub open spec fn wanted_of(metrics: Seq<MetricKey>) -> Wanted {
    Wanted {
        fps: metrics.contains(MetricKey::Fps),
        cpu: metrics.contains(MetricKey::Cpu),
        power: metrics.contains(MetricKey::Power),
        memory: metrics.contains(MetricKey::Memory),
        network: metrics.contains(MetricKey::Network),
        battery: metrics.contains(MetricKey::Battery),
        battery_temp: metrics.contains(MetricKey::BatteryTemp),
        traffic: metrics.contains(MetricKey::Traffic),
    }
}

/// The empty set of kinds.
pub open spec fn none_wanted() -> Wanted {
    Wanted {
        fps: false,
        cpu: false,
        power: false,
        memory: false,
        network: false,
        battery: false,
        battery_temp: false,
        traffic: false,
    }
}

/// Two lists with the same members ask for the same set of kinds.
pub proof fn lemma_wanted_is_a_set(a: Seq<MetricKey>, b: Seq<MetricKey>)
    requires
        forall|k: MetricKey| a.contains(k) <==> b.contains(k),
    ensures
        wanted_of(a) == wanted_of(b),
{
}

/// An empty list asks for nothing.
pub proof fn lemma_empty_list_wants_nothing(metrics: Seq<MetricKey>)
    requires
        metrics.len() == 0,
    ensures
        wanted_of(metrics) == none_wanted(),
{
}

impl Default for MetricsSnapshot {
    fn default() -> (s: MetricsSnapshot)
        ensures
            s@ == nothing(),
    {
        MetricsSnapshot {
            fps: None,
            cpu: None,
            power: None,
            memory_mb: None,
            network_kbps: None,
            network_bps: None,
            rx_bytes: None,
            tx_bytes: None,
            rx_bps: None,
            tx_bps: None,
            battery_level: None,
            battery_temp_c: None,
            frame_stats: None,
            raw: None,
        }
    }
}

impl Wanted {
    /// The set of the kinds in `metrics`.
    pub fn of(metrics: &[MetricKey]) -> (w: Wanted)
        ensures
            w == wanted_of(metrics@),
    {
        let mut w = Wanted {
            fps: false,
            cpu: false,
            power: false,
            memory: false,
            network: false,
            battery: false,
            battery_temp: false,
            traffic: false,
        };
        let mut i: usize = 0;
        while i < metrics.len()
            invariant
                i <= metrics.len(),
                w == wanted_of(metrics@.take(i as int)),
            decreases metrics.len() - i,
        {
            let ghost before = metrics@.take(i as int);
            let ghost after = metrics@.take(i + 1);
            proof {
                assert(after =~= before.push(metrics@[i as int]));
                assert forall|k: MetricKey| after.contains(k) <==> (before.contains(k) || k
                    == metrics@[i as int]) by {
                    if before.contains(k) {
                        let j = choose|j: int| 0 <= j < before.len() && before[j] == k;
                        assert(after[j] == k);
                    }
                    if k == metrics@[i as int] {
                        assert(after[i as int] == k);
                    }
                }
            }
            match metrics[i] {
                MetricKey::Fps => {
                    w.fps = true;
                },
                MetricKey::Cpu => {
                    w.cpu = true;
                },
                MetricKey::Power => {
                    w.power = true;
                },
                MetricKey::Memory => {
                    w.memory = true;
                },
                MetricKey::Network => {
                    w.network = true;
                },
                MetricKey::Battery => {
                    w.battery = true;
                },
                MetricKey::BatteryTemp => {
                    w.battery_temp = true;
                },
                MetricKey::Traffic => {
                    w.traffic = true;
                },
            }
            i += 1;
        }
        assert(metrics@.take(metrics@.len() as int) =~= metrics@);
        w
    }
}

} // verus!
