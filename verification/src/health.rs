//! The health summary: a fixed list of rules, read from a snapshot and the
//! swap history in a fixed order.
//!
//! Each rule adds at most one issue. The status of the summary is the worst
//! severity among the issues; the primary reason is that of the first issue,
//! whatever its severity.

use crate::history::{rising, History};
use crate::snapshot::{SnapshotView, VmSnapshot};
use vstd::prelude::*;
use vstd::string::*;

verus! {

/// The load per core, in thousandths, above which the CPU is under
/// pressure.
pub const LOAD_CRITICAL_MILLI: u64 = 1000;

/// The load per core, in thousandths, above which pressure is building.
pub const LOAD_WARNING_MILLI: u64 = 700;

/// The percentage of available memory below which memory is short.
pub const MEMORY_CRITICAL_PERCENT: u64 = 15;

/// The percentage of available memory below which memory is getting short.
pub const MEMORY_WARNING_PERCENT: u64 = 20;

/// The steal time, in thousandths of a percent, above which the host is
/// starved by its neighbours.
pub const STEAL_CRITICAL_MILLI: u64 = 10_000;

/// The CPU usage, in thousandths of a percent, below which a high load
/// points to waiting rather than computing.
pub const BUSY_CPU_MILLI: u64 = 50_000;

/// How bad things are.
#[derive(Clone, Copy, Debug, PartialEq, Eq, Structural)]
pub enum Status {
    /// No rule fired.
    Healthy,
    /// Something needs watching.
    Warning,
    /// Something needs action.
    Critical,
}

impl Status {
    /// The rank of a status: the worse, the higher.
    pub open spec fn severity(self) -> nat {
        match self {
            Status::Healthy => 0,
            Status::Warning => 1,
            Status::Critical => 2,
        }
    }

    /// The worse of two statuses.
    pub open spec fn worse_of(self, other: Status) -> Status {
        if other.severity() > self.severity() {
            other
        } else {
            self
        }
    }

    /// The worse of two statuses.
    pub fn worse(self, other: Status) -> (worse: Status)
        ensures
            worse == self.worse_of(other),
    {
        match (self, other) {
            (Status::Critical, _) => Status::Critical,
            (_, Status::Critical) => Status::Critical,
            (Status::Warning, _) => Status::Warning,
            (_, Status::Warning) => Status::Warning,
            _ => Status::Healthy,
        }
    }
}

/// The reason given where the load exceeds the cores.
pub open spec fn cpu_pressure_text() -> Seq<char> {
    "CPU pressure: load exceeds the number of cores"@
}

/// The reason given where the load comes near the cores.
pub open spec fn cpu_busy_text() -> Seq<char> {
    "CPU pressure building: load above 70% of the cores"@
}

/// The reason given where memory is short.
pub open spec fn memory_short_text() -> Seq<char> {
    "Memory pressure: less than 15% available"@
}

/// The reason given where memory is getting short.
pub open spec fn memory_low_text() -> Seq<char> {
    "Memory getting low: less than 20% available"@
}

/// The reason given where swap is in use and growing.
pub open spec fn swap_growing_text() -> Seq<char> {
    "Swap in use and increasing"@
}

/// The reason given where the hypervisor withholds the CPU.
pub open spec fn steal_text() -> Seq<char> {
    "CPU steal above 10%: noisy neighbours"@
}

/// The reason given where the load is high but the CPU is idle.
pub open spec fn io_wait_text() -> Seq<char> {
    "Load is high but CPU usage is low: likely waiting for I/O"@
}

/// What the rule on the load adds.
pub open spec fn load_rule(snap: SnapshotView) -> Seq<(Status, Seq<char>)> {
    if snap.load_above(LOAD_CRITICAL_MILLI as nat) {
        seq![(Status::Critical, cpu_pressure_text())]
    } else if snap.load_above(LOAD_WARNING_MILLI as nat) {
        seq![(Status::Warning, cpu_busy_text())]
    } else {
        Seq::empty()
    }
}

/// What the rule on the available memory adds.
pub open spec fn memory_rule(snap: SnapshotView) -> Seq<(Status, Seq<char>)> {
    if snap.available_below(MEMORY_CRITICAL_PERCENT as nat) {
        seq![(Status::Critical, memory_short_text())]
    } else if snap.available_below(MEMORY_WARNING_PERCENT as nat) {
        seq![(Status::Warning, memory_low_text())]
    } else {
        Seq::empty()
    }
}

/// What the rule on swap adds, given the history of the swap usage.
pub open spec fn swap_rule(snap: SnapshotView, swap_history: Seq<u64>) -> Seq<(Status, Seq<char>)> {
    if snap.used_swap > 0 && rising(swap_history) {
        seq![(Status::Critical, swap_growing_text())]
    } else {
        Seq::empty()
    }
}

/// What the rule on the steal time adds.
pub open spec fn steal_rule(snap: SnapshotView) -> Seq<(Status, Seq<char>)> {
    if snap.cpu_steal_milli is Some && snap.cpu_steal_milli->0 > STEAL_CRITICAL_MILLI {
        seq![(Status::Critical, steal_text())]
    } else {
        Seq::empty()
    }
}

/// What the rule on load without usage adds.
pub open spec fn io_wait_rule(snap: SnapshotView) -> Seq<(Status, Seq<char>)> {
    if snap.load_above(LOAD_CRITICAL_MILLI as nat) && snap.cpu_usage_milli < BUSY_CPU_MILLI {
        seq![(Status::Warning, io_wait_text())]
    } else {
        Seq::empty()
    }
}

/// The issues of a snapshot, in the order of the rules.
pub open spec fn issues_of(snap: SnapshotView, swap_history: Seq<u64>) -> Seq<
    (Status, Seq<char>),
> {
    load_rule(snap) + memory_rule(snap) + swap_rule(snap, swap_history) + steal_rule(snap)
        + io_wait_rule(snap)
}

/// The worst severity among `issues`, or `Healthy` where there is none.
pub open spec fn worst(issues: Seq<(Status, Seq<char>)>) -> Status
    decreases issues.len(),
{
    if issues.len() == 0 {
        Status::Healthy
    } else {
        worst(issues.drop_last()).worse_of(issues.last().0)
    }
}

/// `worst` is at least as bad as every issue, and as bad as one of them
/// where there is one.
pub proof fn lemma_worst_is_the_maximum(issues: Seq<(Status, Seq<char>)>)
    ensures
        forall|i: int|
            0 <= i < issues.len() ==> (#[trigger] issues[i]).0.severity() <= worst(
                issues,
            ).severity(),
        issues.len() > 0 ==> exists|i: int|
            0 <= i < issues.len() && (#[trigger] issues[i]).0 == worst(issues),
        issues.len() == 0 ==> worst(issues) == Status::Healthy,
    decreases issues.len(),
{
    if issues.len() > 0 {
        let front = issues.drop_last();
        lemma_worst_is_the_maximum(front);
        assert forall|i: int| 0 <= i < issues.len() implies (#[trigger] issues[i]).0.severity()
            <= worst(issues).severity() by {
            if i < front.len() {
                assert(front[i] == issues[i]);
            }
        }
        if worst(issues) == issues.last().0 {
            assert(issues[issues.len() - 1].0 == worst(issues));
        } else {
            let i = choose|i: int| 0 <= i < front.len() && (#[trigger] front[i]).0 == worst(front);
            assert(issues[i] == front[i]);
        }
    }
}

/// The status of a snapshot is `Healthy` exactly where no rule fired: no rule
/// adds an issue of that severity.
pub proof fn lemma_healthy_means_no_issue(snap: SnapshotView, swap_history: Seq<u64>)
    ensures
        worst(issues_of(snap, swap_history)) == Status::Healthy <==> issues_of(
            snap,
            swap_history,
        ).len() == 0,
        forall|i: int|
            0 <= i < issues_of(snap, swap_history).len() ==> (#[trigger] issues_of(
                snap,
                swap_history,
            )[i]).0 != Status::Healthy,
{
    let issues = issues_of(snap, swap_history);
    lemma_worst_is_the_maximum(issues);
    assert forall|i: int| 0 <= i < issues.len() implies (#[trigger] issues[i]).0
        != Status::Healthy by {
        lemma_rules_add_no_healthy(snap, swap_history, i);
    }
}

/// No issue that a rule adds has the severity `Healthy`.
proof fn lemma_rules_add_no_healthy(snap: SnapshotView, swap_history: Seq<u64>, i: int)
    requires
        0 <= i < issues_of(snap, swap_history).len(),
    ensures
        issues_of(snap, swap_history)[i].0 != Status::Healthy,
{
    let a = load_rule(snap);
    let b = memory_rule(snap);
    let c = swap_rule(snap, swap_history);
    let d = steal_rule(snap);
    let e = io_wait_rule(snap);
    let all = a + b + c + d + e;
    if i < a.len() {
        assert(all[i] == a[i]);
    } else if i < a.len() + b.len() {
        assert(all[i] == b[i - a.len()]);
    } else if i < a.len() + b.len() + c.len() {
        assert(all[i] == c[i - a.len() - b.len()]);
    } else if i < a.len() + b.len() + c.len() + d.len() {
        assert(all[i] == d[i - a.len() - b.len() - c.len()]);
    } else {
        assert(all[i] == e[i - a.len() - b.len() - c.len() - d.len()]);
    }
}

/// One finding of the health rules.
#[derive(Clone, Debug)]
pub struct Issue {
    /// How bad it is.
    pub severity: Status,
    /// What was found.
    pub reason: String,
}

/// What a summary says.
pub struct HealthView {
    pub status: Status,
    pub issues: Seq<(Status, Seq<char>)>,
}

impl HealthView {
    /// The reason of the first issue, where there is one.
    pub open spec fn primary_reason(self) -> Option<Seq<char>> {
        if self.issues.len() > 0 {
            Some(self.issues[0].1)
        } else {
            None
        }
    }

    /// The reasons of the issues behind the first, in their order.
    pub open spec fn secondary(self) -> Seq<Seq<char>> {
        Seq::new(
            if self.issues.len() > 0 {
                (self.issues.len() - 1) as nat
            } else {
                0
            },
            |i: int| self.issues[i + 1].1,
        )
    }
}

/// The health summary: a status and the issues behind it, in the order of
/// the rules.
#[derive(Clone, Debug)]
pub struct HealthSummary {
    /// The worst severity among the issues.
    pub status: Status,
    /// The issues, in the order of the rules.
    pub issues: Vec<Issue>,
}

impl View for HealthSummary {
    type V = HealthView;

    open spec fn view(&self) -> HealthView {
        HealthView {
            status: self.status,
            issues: self.issues@.map_values(|issue: Issue| (issue.severity, issue.reason@)),
        }
    }
}

impl HealthSummary {
    /// The reason of the first issue, where there is one.
    pub fn primary_reason(&self) -> (reason: Option<String>)
        ensures
            self@.primary_reason() == match reason {
                Some(text) => Some(text@),
                None => None,
            },
    {
        if self.issues.len() > 0 {
            Some(self.issues[0].reason.clone())
        } else {
            None
        }
    }

    /// The reasons of the issues behind the first, in their order.
    pub fn secondary(&self) -> (reasons: Vec<String>)
        ensures
            reasons@.map_values(|text: String| text@) == self@.secondary(),
    {
        let mut reasons: Vec<String> = Vec::new();
        let mut i: usize = 1;
        while i < self.issues.len()
            invariant
                1 <= i,
                i <= self.issues@.len() || i == 1,
                reasons@.len() == i - 1,
                forall|k: int| 0 <= k < i - 1 ==> (#[trigger] reasons@[k])@ == self.issues@[k + 1].reason@,
            decreases self.issues@.len() - i,
        {
            reasons.push(self.issues[i].reason.clone());
            i += 1;
        }
        proof {
            let texts = reasons@.map_values(|text: String| text@);
            let expected = self@.secondary();
            assert(texts.len() == expected.len());
            assert forall|k: int| 0 <= k < texts.len() implies texts[k] == expected[k] by {
                assert(reasons@[k]@ == self.issues@[k + 1].reason@);
                assert(self@.issues[k + 1] == (
                    self.issues@[k + 1].severity,
                    self.issues@[k + 1].reason@,
                ));
            }
            assert(texts =~= expected);
        }
        reasons
    }
}

/// Whether the load per core is above `per_core_milli` thousandths.
fn load_is_above(snapshot: &VmSnapshot, per_core_milli: u64) -> (above: bool)
    ensures
        above == snapshot@.load_above(per_core_milli as nat),
{
    let load: u128 = snapshot.load_1m_milli() as u128;
    let cores: u128 = snapshot.cpu_cores() as u128;
    let limit: u128 = per_core_milli as u128;
    assert(limit * cores <= 0xffff_ffff_ffff_ffff * 0xffff_ffff_ffff_ffff) by (nonlinear_arith)
        requires
            limit <= 0xffff_ffff_ffff_ffff,
            cores <= 0xffff_ffff_ffff_ffff,
    ;
    load > limit * cores
}

/// Whether less than `percent` percent of the memory is available.
fn available_is_below(snapshot: &VmSnapshot, percent: u64) -> (below: bool)
    ensures
        below == snapshot@.available_below(percent as nat),
{
    let total: u128 = snapshot.total_memory() as u128;
    let available: u128 = snapshot.available_memory() as u128;
    let limit: u128 = percent as u128;
    if total == 0 {
        percent > 0
    } else {
        assert(limit * total <= 0xffff_ffff_ffff_ffff * 0xffff_ffff_ffff_ffff) by (nonlinear_arith)
            requires
                limit <= 0xffff_ffff_ffff_ffff,
                total <= 0xffff_ffff_ffff_ffff,
        ;
        available * 100 < limit * total
    }
}

/// Adds an issue to a summary in the making.
fn add_issue(issues: &mut Vec<Issue>, status: &mut Status, severity: Status, reason: &str)
    ensures
        final(issues)@.map_values(|issue: Issue| (issue.severity, issue.reason@)) == old(
            issues,
        )@.map_values(|issue: Issue| (issue.severity, issue.reason@)).push((severity, reason@)),
        *final(status) == old(status).worse_of(severity),
{
    issues.push(Issue { severity, reason: String::from_str(reason) });
    *status = status.worse(severity);
    assert(final(issues)@.map_values(|issue: Issue| (issue.severity, issue.reason@)) =~= old(
        issues,
    )@.map_values(|issue: Issue| (issue.severity, issue.reason@)).push((severity, reason@)));
}

/// Judges a snapshot, given the history of the swap usage.
///
/// The rules are read in their fixed order: load, available memory, swap,
/// steal time, load without usage. The issues stand in that order, and the
/// status is the worst severity among them, `Healthy` where no rule fired.
pub fn classify(snapshot: &VmSnapshot, swap_history: &History) -> (summary: HealthSummary)
    ensures
        summary@.issues == issues_of(snapshot@, swap_history@),
        summary@.status == worst(summary@.issues),
{
    let mut issues: Vec<Issue> = Vec::new();
    let mut status = Status::Healthy;
    let ghost snap = snapshot@;
    let ghost hist = swap_history@;
    let ghost view_of = |issue: Issue| (issue.severity, issue.reason@);
    assert(issues@.map_values(view_of) =~= Seq::empty());

    let overloaded = load_is_above(snapshot, LOAD_CRITICAL_MILLI);
    if overloaded {
        add_issue(
            &mut issues,
            &mut status,
            Status::Critical,
            "CPU pressure: load exceeds the number of cores",
        );
    } else if load_is_above(snapshot, LOAD_WARNING_MILLI) {
        add_issue(
            &mut issues,
            &mut status,
            Status::Warning,
            "CPU pressure building: load above 70% of the cores",
        );
    }
    proof {
        assert(issues@.map_values(view_of) =~= load_rule(snap));
        lemma_worst_steps(Seq::empty(), load_rule(snap));
        assert(Seq::<(Status, Seq<char>)>::empty() + load_rule(snap) =~= load_rule(snap));
    }
    assert(status == worst(load_rule(snap)));

    if available_is_below(snapshot, MEMORY_CRITICAL_PERCENT) {
        add_issue(
            &mut issues,
            &mut status,
            Status::Critical,
            "Memory pressure: less than 15% available",
        );
    } else if available_is_below(snapshot, MEMORY_WARNING_PERCENT) {
        add_issue(
            &mut issues,
            &mut status,
            Status::Warning,
            "Memory getting low: less than 20% available",
        );
    }
    proof {
        assert(issues@.map_values(view_of) =~= load_rule(snap) + memory_rule(snap));
        lemma_worst_steps(load_rule(snap), memory_rule(snap));
    }

    if snapshot.used_swap() > 0 && swap_history.is_rising() {
        add_issue(&mut issues, &mut status, Status::Critical, "Swap in use and increasing");
    }
    proof {
        assert(issues@.map_values(view_of) =~= load_rule(snap) + memory_rule(snap) + swap_rule(
            snap,
            hist,
        ));
        lemma_worst_steps(load_rule(snap) + memory_rule(snap), swap_rule(snap, hist));
    }

    let steal_high = match snapshot.cpu_steal_milli() {
        Some(milli) => milli > STEAL_CRITICAL_MILLI,
        None => false,
    };
    if steal_high {
        add_issue(
            &mut issues,
            &mut status,
            Status::Critical,
            "CPU steal above 10%: noisy neighbours",
        );
    }
    proof {
        assert(issues@.map_values(view_of) =~= load_rule(snap) + memory_rule(snap) + swap_rule(
            snap,
            hist,
        ) + steal_rule(snap));
        lemma_worst_steps(
            load_rule(snap) + memory_rule(snap) + swap_rule(snap, hist),
            steal_rule(snap),
        );
    }

    if overloaded && snapshot.cpu_usage_milli() < BUSY_CPU_MILLI {
        add_issue(
            &mut issues,
            &mut status,
            Status::Warning,
            "Load is high but CPU usage is low: likely waiting for I/O",
        );
    }
    proof {
        assert(issues@.map_values(view_of) =~= issues_of(snap, hist));
        lemma_worst_steps(
            load_rule(snap) + memory_rule(snap) + swap_rule(snap, hist) + steal_rule(snap),
            io_wait_rule(snap),
        );
    }
    HealthSummary { status, issues }
}

/// `worst` of a list with at most one more issue behind it.
proof fn lemma_worst_steps(issues: Seq<(Status, Seq<char>)>, more: Seq<(Status, Seq<char>)>)
    requires
        more.len() <= 1,
    ensures
        more.len() == 0 ==> worst(issues + more) == worst(issues),
        more.len() == 1 ==> worst(issues + more) == worst(issues).worse_of(more[0].0),
{
    if more.len() == 0 {
        assert(issues + more =~= issues);
    } else {
        assert((issues + more).drop_last() =~= issues);
        assert((issues + more).last() == more[0]);
    }
}

} // verus!
