//! One tick of the telemetry engine: snapshot, histories, health summary.

use crate::health::{classify, issues_of, worst, HealthSummary};
use crate::history::{newest, History, HISTORY_CAPACITY};
use crate::metrics::{round_to_tenths, tenths_of_milli};
use crate::snapshot::{snapshot, snapshot_of, Reading, SnapshotView, VmSnapshot};
use vstd::prelude::*;

verus! {

/// The histories of the three metrics that are followed over time, each in
/// tenths of a percent.
pub struct Histories {
    /// The CPU usage.
    pub cpu: History,
    /// The share of the memory in use.
    pub memory: History,
    /// The share of the swap space in use.
    pub swap: History,
}

/// A history after one more sample.
pub open spec fn with_sample(history: Seq<u64>, sample: u64) -> Seq<u64> {
    newest(history.push(sample), HISTORY_CAPACITY as nat)
}

/// The sample that a snapshot adds to the history of the CPU usage: the
/// usage in its nearest tenth of a percent, halves up.
pub open spec fn cpu_sample(snap: SnapshotView) -> u64 {
    tenths_of_milli(snap.cpu_usage_milli as nat) as u64
}

impl Histories {
    /// Three histories without samples.
    pub fn new() -> (histories: Histories)
        ensures
            histories.cpu@ == Seq::<u64>::empty(),
            histories.memory@ == Seq::<u64>::empty(),
            histories.swap@ == Seq::<u64>::empty(),
    {
        Histories { cpu: History::new(), memory: History::new(), swap: History::new() }
    }

    /// Adds the samples of `snapshot` to the three histories.
    pub fn record(&mut self, snapshot: &VmSnapshot)
        ensures
            final(self).cpu@ == with_sample(old(self).cpu@, cpu_sample(snapshot@)),
            final(self).memory@ == with_sample(old(self).memory@, snapshot@.memory_percent_x10),
            final(self).swap@ == with_sample(old(self).swap@, snapshot@.swap_percent_x10),
    {
        self.cpu.push(round_to_tenths(snapshot.cpu_usage_milli()));
        self.memory.push(snapshot.memory_percent_x10());
        self.swap.push(snapshot.swap_percent_x10());
    }
}

impl Default for Histories {
    fn default() -> (histories: Histories)
        ensures
            histories.cpu@ == Seq::<u64>::empty(),
            histories.memory@ == Seq::<u64>::empty(),
            histories.swap@ == Seq::<u64>::empty(),
    {
        Histories::new()
    }
}

/// Takes one reading through the engine: builds its snapshot, adds the
/// snapshot's samples to the histories, and judges the snapshot against
/// the swap history that includes the new sample.
pub fn tick(histories: &mut Histories, reading: &Reading, show_all_mounts: bool) -> (out: (
    VmSnapshot,
    HealthSummary,
))
    ensures
        out.0@ == snapshot_of(*reading, show_all_mounts),
        final(histories).cpu@ == with_sample(old(histories).cpu@, cpu_sample(out.0@)),
        final(histories).memory@ == with_sample(old(histories).memory@, out.0@.memory_percent_x10),
        final(histories).swap@ == with_sample(old(histories).swap@, out.0@.swap_percent_x10),
        out.1@.issues == issues_of(out.0@, final(histories).swap@),
        out.1@.status == worst(out.1@.issues),
{
    let snap = snapshot(reading, show_all_mounts);
    histories.record(&snap);
    let summary = classify(&snap, &histories.swap);
    (snap, summary)
}

} // verus!
