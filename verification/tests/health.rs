use ferromon::health::{classify, HealthSummary, Status};
use ferromon::history::History;
use ferromon::snapshot::{snapshot, Reading};

const CPU_PRESSURE: &str = "CPU pressure: load exceeds the number of cores";
const CPU_BUILDING: &str = "CPU pressure building: load above 70% of the cores";
const MEMORY_SHORT: &str = "Memory pressure: less than 15% available";
const MEMORY_LOW: &str = "Memory getting low: less than 20% available";
const SWAP_GROWING: &str = "Swap in use and increasing";
const STEAL: &str = "CPU steal above 10%: noisy neighbours";
const IO_WAIT: &str = "Load is high but CPU usage is low: likely waiting for I/O";

/// A reading in which nothing is wrong: load 0.1 per core, 80% of the
/// memory available, no swap, no steal, the CPU at 60%.
fn nominal() -> Reading {
    Reading {
        cpu_usage_milli: 60_000,
        cpu_cores: 1,
        load_1m_milli: 100,
        cpu_steal_milli: Some(0),
        run_queue: None,
        total_memory: 1000,
        used_memory: 200,
        available_memory: 800,
        total_swap: 0,
        used_swap: 0,
        disks: Vec::new(),
    }
}

fn history_of(values: &[u64]) -> History {
    let mut history = History::new();
    for v in values {
        history.push(*v);
    }
    history
}

fn judge(reading: &Reading, swap: &[u64]) -> HealthSummary {
    classify(&snapshot(reading, false), &history_of(swap))
}

fn issues(summary: &HealthSummary) -> Vec<(Status, &str)> {
    summary.issues.iter().map(|i| (i.severity, i.reason.as_str())).collect()
}

#[test]
fn nominal_metrics_are_ok() {
    let summary = judge(&nominal(), &[]);
    assert_eq!(summary.status, Status::Healthy);
    assert!(summary.issues.is_empty());
    assert_eq!(summary.primary_reason(), None);
    assert!(summary.secondary().is_empty());
}

#[test]
fn load_above_the_cores_is_critical_cpu_pressure() {
    // Load 1.5 per core, half of the memory available, no swap, steal unknown.
    let reading = Reading {
        load_1m_milli: 1500,
        available_memory: 500,
        cpu_steal_milli: None,
        ..nominal()
    };
    let summary = judge(&reading, &[]);
    assert_eq!(summary.status, Status::Critical);
    assert!(summary.primary_reason().unwrap().contains("CPU pressure"));
    assert_eq!(issues(&summary), vec![(Status::Critical, CPU_PRESSURE)]);
    assert!(summary.secondary().is_empty());
}

#[test]
fn load_thresholds_are_exclusive() {
    let at = |load: u64, cores: usize| {
        judge(&Reading { load_1m_milli: load, cpu_cores: cores, ..nominal() }, &[])
    };
    assert_eq!(at(700, 1).status, Status::Healthy);
    assert_eq!(issues(&at(701, 1)), vec![(Status::Warning, CPU_BUILDING)]);
    assert_eq!(issues(&at(1000, 1)), vec![(Status::Warning, CPU_BUILDING)]);
    assert_eq!(issues(&at(1001, 1)), vec![(Status::Critical, CPU_PRESSURE)]);
    // Per core: 16 cores carry a load of 16.
    assert_eq!(issues(&at(16_000, 16)), vec![(Status::Warning, CPU_BUILDING)]);
    assert_eq!(issues(&at(16_001, 16)), vec![(Status::Critical, CPU_PRESSURE)]);
    assert_eq!(at(11_200, 16).status, Status::Healthy);
    assert_eq!(issues(&at(11_201, 16)), vec![(Status::Warning, CPU_BUILDING)]);
}

#[test]
fn zero_cores_count_as_one() {
    let summary = judge(&Reading { load_1m_milli: 1500, cpu_cores: 0, ..nominal() }, &[]);
    assert_eq!(issues(&summary), vec![(Status::Critical, CPU_PRESSURE)]);
    let summary = judge(&Reading { load_1m_milli: 700, cpu_cores: 0, ..nominal() }, &[]);
    assert_eq!(summary.status, Status::Healthy);
}

#[test]
fn memory_thresholds() {
    let at = |available: u64| judge(&Reading { available_memory: available, ..nominal() }, &[]);
    assert_eq!(issues(&at(149)), vec![(Status::Critical, MEMORY_SHORT)]);
    assert_eq!(issues(&at(150)), vec![(Status::Warning, MEMORY_LOW)]);
    assert_eq!(issues(&at(199)), vec![(Status::Warning, MEMORY_LOW)]);
    assert_eq!(at(200).status, Status::Healthy);
    assert_eq!(issues(&at(0)), vec![(Status::Critical, MEMORY_SHORT)]);
}

#[test]
fn memory_thresholds_are_exact_for_large_counts() {
    let total = u64::MAX - 4;
    let fifteen = (total as u128 * 15 / 100) as u64;
    let at = |available: u64| {
        judge(&Reading { total_memory: total, available_memory: available, ..nominal() }, &[])
    };
    assert_eq!(issues(&at(fifteen)), vec![(Status::Critical, MEMORY_SHORT)]);
    assert_eq!(issues(&at(fifteen + 1)), vec![(Status::Warning, MEMORY_LOW)]);
}

#[test]
fn no_memory_at_all_counts_as_none_available() {
    let reading = Reading { total_memory: 0, used_memory: 0, available_memory: 0, ..nominal() };
    let summary = judge(&reading, &[]);
    assert_eq!(issues(&summary), vec![(Status::Critical, MEMORY_SHORT)]);
}

#[test]
fn swap_in_use_and_rising_is_critical() {
    let reading = Reading { total_swap: 100, used_swap: 10, ..nominal() };
    let summary = judge(&reading, &[0, 0, 0, 0, 0, 10]);
    assert_eq!(issues(&summary), vec![(Status::Critical, SWAP_GROWING)]);
    assert_eq!(summary.status, Status::Critical);
}

#[test]
fn swap_rule_needs_use_and_a_rising_history() {
    let used = Reading { total_swap: 100, used_swap: 10, ..nominal() };
    // Too few samples.
    assert_eq!(judge(&used, &[0, 0, 0, 0, 10]).status, Status::Healthy);
    // Not rising.
    assert_eq!(judge(&used, &[10, 10, 10, 10, 10, 10]).status, Status::Healthy);
    assert_eq!(judge(&used, &[10, 10, 10, 10, 10, 0]).status, Status::Healthy);
    // Rising, but no swap in use now.
    assert_eq!(judge(&nominal(), &[0, 0, 0, 0, 0, 10]).status, Status::Healthy);
}

#[test]
fn steal_threshold() {
    let at = |steal: Option<u64>| judge(&Reading { cpu_steal_milli: steal, ..nominal() }, &[]);
    assert_eq!(at(None).status, Status::Healthy);
    assert_eq!(at(Some(10_000)).status, Status::Healthy);
    assert_eq!(issues(&at(Some(10_001))), vec![(Status::Critical, STEAL)]);
}

#[test]
fn high_load_with_idle_cpu_adds_a_warning() {
    let reading = Reading { load_1m_milli: 1500, cpu_usage_milli: 49_999, ..nominal() };
    let summary = judge(&reading, &[]);
    assert_eq!(
        issues(&summary),
        vec![(Status::Critical, CPU_PRESSURE), (Status::Warning, IO_WAIT)]
    );
    assert_eq!(summary.status, Status::Critical);
    assert_eq!(summary.primary_reason().unwrap(), CPU_PRESSURE);
    assert_eq!(summary.secondary(), vec![IO_WAIT.to_string()]);
    // At 50% usage the load is explained.
    let busy = Reading { load_1m_milli: 1500, cpu_usage_milli: 50_000, ..nominal() };
    assert_eq!(issues(&judge(&busy, &[])), vec![(Status::Critical, CPU_PRESSURE)]);
    // A load that only warns does not trigger it.
    let mild = Reading { load_1m_milli: 900, cpu_usage_milli: 0, ..nominal() };
    assert_eq!(issues(&judge(&mild, &[])), vec![(Status::Warning, CPU_BUILDING)]);
}

#[test]
fn primary_reason_is_the_first_rule_not_the_worst() {
    // The load only warns, the memory is critical: the load rule comes first.
    let reading = Reading { load_1m_milli: 800, available_memory: 100, ..nominal() };
    let summary = judge(&reading, &[]);
    assert_eq!(summary.status, Status::Critical);
    assert_eq!(summary.primary_reason().unwrap(), CPU_BUILDING);
    assert_eq!(summary.secondary(), vec![MEMORY_SHORT.to_string()]);
}

#[test]
fn all_rules_fire_in_their_order() {
    let reading = Reading {
        cpu_usage_milli: 1000,
        cpu_cores: 2,
        load_1m_milli: 5000,
        cpu_steal_milli: Some(20_000),
        available_memory: 10,
        total_swap: 100,
        used_swap: 50,
        ..nominal()
    };
    let summary = judge(&reading, &[1, 1, 1, 1, 1, 2]);
    assert_eq!(
        issues(&summary),
        vec![
            (Status::Critical, CPU_PRESSURE),
            (Status::Critical, MEMORY_SHORT),
            (Status::Critical, SWAP_GROWING),
            (Status::Critical, STEAL),
            (Status::Warning, IO_WAIT),
        ]
    );
    assert_eq!(summary.status, Status::Critical);
    assert_eq!(
        summary.secondary(),
        vec![MEMORY_SHORT.to_string(), SWAP_GROWING.to_string(), STEAL.to_string(), IO_WAIT.to_string()]
    );
}

#[test]
fn warnings_alone_give_a_warning() {
    let reading = Reading { load_1m_milli: 800, available_memory: 180, ..nominal() };
    let summary = judge(&reading, &[]);
    assert_eq!(summary.status, Status::Warning);
    assert_eq!(
        issues(&summary),
        vec![(Status::Warning, CPU_BUILDING), (Status::Warning, MEMORY_LOW)]
    );
}

#[test]
fn status_is_the_worst_severity() {
    assert_eq!(Status::Healthy.worse(Status::Healthy), Status::Healthy);
    assert_eq!(Status::Healthy.worse(Status::Warning), Status::Warning);
    assert_eq!(Status::Warning.worse(Status::Healthy), Status::Warning);
    assert_eq!(Status::Warning.worse(Status::Critical), Status::Critical);
    assert_eq!(Status::Critical.worse(Status::Warning), Status::Critical);
    assert_eq!(Status::Critical.worse(Status::Healthy), Status::Critical);
}

#[test]
fn classify_is_deterministic() {
    let reading = Reading { load_1m_milli: 1200, available_memory: 170, ..nominal() };
    let a = judge(&reading, &[3, 3, 3, 3, 3, 4]);
    let b = judge(&reading, &[3, 3, 3, 3, 3, 4]);
    assert_eq!(a.status, b.status);
    assert_eq!(issues(&a), issues(&b));
}
