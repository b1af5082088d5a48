//! One read of the host's metrics, and the snapshot that is built from it.
//!
//! Fractions arrive as integers: the CPU usage and the steal time in
//! thousandths of a percent, the load average in thousandths. The shares
//! that the snapshot derives are in tenths of a percent.

use crate::disks::{
    disks_table_filtered, primary_disk, primary_index, table_of, used_of, DiskInfo, DiskRow,
    DiskUsage, TABLE_ROWS,
};
use crate::metrics::{as_sample, percent, percent_x10};
use vstd::prelude::*;
use vstd::string::*;

verus! {

/// What the metric source reports at one moment.
#[derive(Clone, Debug)]
pub struct Reading {
    /// The CPU usage in thousandths of a percent.
    pub cpu_usage_milli: u64,
    /// The number of cores; zero where it is unknown.
    pub cpu_cores: usize,
    /// The load average of the last minute, in thousandths.
    pub load_1m_milli: u64,
    /// The steal time in thousandths of a percent, where it is known.
    pub cpu_steal_milli: Option<u64>,
    /// The length of the run queue as the host words it, where it is known.
    pub run_queue: Option<String>,
    /// The memory in bytes.
    pub total_memory: u64,
    /// The memory in use.
    pub used_memory: u64,
    /// The memory that can be had without swapping.
    pub available_memory: u64,
    /// The swap space in bytes.
    pub total_swap: u64,
    /// The swap space in use.
    pub used_swap: u64,
    /// The mounted file systems, in the order in which the host lists them.
    pub disks: Vec<DiskInfo>,
}

/// What a snapshot says.
pub struct SnapshotView {
    pub cpu_usage_milli: u64,
    pub cpu_cores: usize,
    pub load_1m_milli: u64,
    pub cpu_steal_milli: Option<u64>,
    pub run_queue: Option<Seq<char>>,
    pub total_memory: u64,
    pub used_memory: u64,
    pub available_memory: u64,
    pub memory_percent_x10: u64,
    pub available_memory_percent_x10: u64,
    pub total_swap: u64,
    pub used_swap: u64,
    pub swap_percent_x10: u64,
    pub primary_label: Seq<char>,
    pub primary_used: u64,
    pub primary_total: u64,
    pub primary_percent_x10: u64,
    pub disks_table: Seq<DiskRow>,
}

/// The label of the primary disk where there is no disk.
pub open spec fn no_disks_text() -> Seq<char> {
    "no disks"@
}

/// The number of cores that the load is divided by: at least one.
pub open spec fn cores_of(reported: usize) -> usize {
    if reported == 0 {
        1
    } else {
        reported
    }
}

/// The snapshot of a reading.
pub open spec fn snapshot_of(reading: Reading, show_all_mounts: bool) -> SnapshotView {
    let disks = reading.disks@;
    let chosen = primary_index(disks);
    SnapshotView {
        cpu_usage_milli: reading.cpu_usage_milli,
        cpu_cores: cores_of(reading.cpu_cores),
        load_1m_milli: reading.load_1m_milli,
        cpu_steal_milli: reading.cpu_steal_milli,
        run_queue: match reading.run_queue {
            Some(text) => Some(text@),
            None => None,
        },
        total_memory: reading.total_memory,
        used_memory: reading.used_memory,
        available_memory: reading.available_memory,
        memory_percent_x10: as_sample(
            percent_x10(reading.used_memory as nat, reading.total_memory as nat),
        ),
        available_memory_percent_x10: as_sample(
            percent_x10(reading.available_memory as nat, reading.total_memory as nat),
        ),
        total_swap: reading.total_swap,
        used_swap: reading.used_swap,
        swap_percent_x10: as_sample(
            percent_x10(reading.used_swap as nat, reading.total_swap as nat),
        ),
        primary_label: match chosen {
            Some(i) => disks[i].mount@,
            None => no_disks_text(),
        },
        primary_used: match chosen {
            Some(i) => used_of(disks[i].total, disks[i].available),
            None => 0,
        },
        primary_total: match chosen {
            Some(i) => disks[i].total,
            None => 0,
        },
        primary_percent_x10: match chosen {
            Some(i) => as_sample(
                percent_x10(
                    used_of(disks[i].total, disks[i].available) as nat,
                    disks[i].total as nat,
                ),
            ),
            None => 0,
        },
        disks_table: table_of(disks, TABLE_ROWS as int, show_all_mounts),
    }
}

impl SnapshotView {
    /// Whether the load per core is above `per_core_milli` thousandths.
    pub open spec fn load_above(self, per_core_milli: nat) -> bool {
        self.load_1m_milli > per_core_milli * self.cpu_cores
    }

    /// Whether less than `percent` percent of the memory is available. Of
    /// no memory, nothing is available.
    pub open spec fn available_below(self, percent: nat) -> bool {
        if self.total_memory == 0 {
            percent > 0
        } else {
            self.available_memory * 100 < percent * self.total_memory
        }
    }

    /// The load per core in thousandths, rounded down.
    pub open spec fn normalized_load_milli(self) -> nat {
        self.load_1m_milli as nat / self.cpu_cores as nat
    }
}

/// One immutable read of all metrics, with the shares derived from it.
pub struct VmSnapshot {
    cpu_usage_milli: u64,
    cpu_cores: usize,
    load_1m_milli: u64,
    cpu_steal_milli: Option<u64>,
    run_queue: Option<String>,
    total_memory: u64,
    used_memory: u64,
    available_memory: u64,
    memory_percent_x10: u64,
    available_memory_percent_x10: u64,
    total_swap: u64,
    used_swap: u64,
    swap_percent_x10: u64,
    primary_disk: DiskUsage,
    disks_table: Vec<DiskRow>,
}

impl View for VmSnapshot {
    type V = SnapshotView;

    closed spec fn view(&self) -> SnapshotView {
        SnapshotView {
            cpu_usage_milli: self.cpu_usage_milli,
            cpu_cores: self.cpu_cores,
            load_1m_milli: self.load_1m_milli,
            cpu_steal_milli: self.cpu_steal_milli,
            run_queue: match self.run_queue {
                Some(text) => Some(text@),
                None => None,
            },
            total_memory: self.total_memory,
            used_memory: self.used_memory,
            available_memory: self.available_memory,
            memory_percent_x10: self.memory_percent_x10,
            available_memory_percent_x10: self.available_memory_percent_x10,
            total_swap: self.total_swap,
            used_swap: self.used_swap,
            swap_percent_x10: self.swap_percent_x10,
            primary_label: self.primary_disk.label@,
            primary_used: self.primary_disk.used,
            primary_total: self.primary_disk.total,
            primary_percent_x10: self.primary_disk.percent,
            disks_table: self.disks_table@,
        }
    }
}

/// Builds the snapshot of a reading.
///
/// A reading without cores is taken to have one. A share of nothing is
/// zero. Without disks the primary disk is labelled as absent, with zero
/// usage.
pub fn snapshot(reading: &Reading, show_all_mounts: bool) -> (snap: VmSnapshot)
    ensures
        snap@ == snapshot_of(*reading, show_all_mounts),
        snap@.cpu_cores >= 1,
{
    let cpu_cores: usize = if reading.cpu_cores == 0 {
        1
    } else {
        reading.cpu_cores
    };
    let run_queue = match &reading.run_queue {
        Some(text) => Some(text.clone()),
        None => None,
    };
    VmSnapshot {
        cpu_usage_milli: reading.cpu_usage_milli,
        cpu_cores,
        load_1m_milli: reading.load_1m_milli,
        cpu_steal_milli: reading.cpu_steal_milli,
        run_queue,
        total_memory: reading.total_memory,
        used_memory: reading.used_memory,
        available_memory: reading.available_memory,
        memory_percent_x10: percent(reading.used_memory, reading.total_memory),
        available_memory_percent_x10: percent(reading.available_memory, reading.total_memory),
        total_swap: reading.total_swap,
        used_swap: reading.used_swap,
        swap_percent_x10: percent(reading.used_swap, reading.total_swap),
        primary_disk: primary_disk(&reading.disks),
        disks_table: disks_table_filtered(&reading.disks, TABLE_ROWS, show_all_mounts),
    }
}

impl VmSnapshot {
    #[verifier::type_invariant]
    spec fn inv(&self) -> bool {
        self.cpu_cores >= 1
    }

    /// The CPU usage in thousandths of a percent.
    pub fn cpu_usage_milli(&self) -> (milli: u64)
        ensures
            milli == self@.cpu_usage_milli,
    {
        self.cpu_usage_milli
    }

    /// The number of cores: at least one.
    pub fn cpu_cores(&self) -> (cores: usize)
        ensures
            cores == self@.cpu_cores,
            cores >= 1,
    {
        proof {
            use_type_invariant(self);
        }
        self.cpu_cores
    }

    /// The load average of the last minute, in thousandths.
    pub fn load_1m_milli(&self) -> (milli: u64)
        ensures
            milli == self@.load_1m_milli,
    {
        self.load_1m_milli
    }

    /// The load per core in thousandths, rounded down.
    pub fn normalized_load_milli(&self) -> (milli: u64)
        ensures
            milli == self@.normalized_load_milli(),
    {
        proof {
            use_type_invariant(self);
        }
        self.load_1m_milli / (self.cpu_cores as u64)
    }

    /// The steal time in thousandths of a percent, where it is known.
    pub fn cpu_steal_milli(&self) -> (milli: Option<u64>)
        ensures
            milli == self@.cpu_steal_milli,
    {
        self.cpu_steal_milli
    }

    /// The length of the run queue, where it is known.
    pub fn run_queue(&self) -> (text: &Option<String>)
        ensures
            self@.run_queue == match *text {
                Some(t) => Some(t@),
                None => None,
            },
    {
        &self.run_queue
    }

    /// The memory in bytes.
    pub fn total_memory(&self) -> (bytes: u64)
        ensures
            bytes == self@.total_memory,
    {
        self.total_memory
    }

    /// The memory in use.
    pub fn used_memory(&self) -> (bytes: u64)
        ensures
            bytes == self@.used_memory,
    {
        self.used_memory
    }

    /// The memory that can be had without swapping.
    pub fn available_memory(&self) -> (bytes: u64)
        ensures
            bytes == self@.available_memory,
    {
        self.available_memory
    }

    /// The share of the memory in use, in tenths of a percent.
    pub fn memory_percent_x10(&self) -> (tenths: u64)
        ensures
            tenths == self@.memory_percent_x10,
    {
        self.memory_percent_x10
    }

    /// The share of the memory that is available, in tenths of a percent.
    pub fn available_memory_percent_x10(&self) -> (tenths: u64)
        ensures
            tenths == self@.available_memory_percent_x10,
    {
        self.available_memory_percent_x10
    }

    /// The swap space in bytes.
    pub fn total_swap(&self) -> (bytes: u64)
        ensures
            bytes == self@.total_swap,
    {
        self.total_swap
    }

    /// The swap space in use.
    pub fn used_swap(&self) -> (bytes: u64)
        ensures
            bytes == self@.used_swap,
    {
        self.used_swap
    }

    /// The share of the swap space in use, in tenths of a percent.
    pub fn swap_percent_x10(&self) -> (tenths: u64)
        ensures
            tenths == self@.swap_percent_x10,
    {
        self.swap_percent_x10
    }

    /// The usage of the primary disk.
    pub fn primary_disk(&self) -> (usage: &DiskUsage)
        ensures
            usage.label@ == self@.primary_label,
            usage.used == self@.primary_used,
            usage.total == self@.primary_total,
            usage.percent == self@.primary_percent_x10,
    {
        &self.primary_disk
    }

    /// The table of mounted file systems.
    pub fn disks_table(&self) -> (rows: &Vec<DiskRow>)
        ensures
            rows@ == self@.disks_table,
    {
        &self.disks_table
    }
}

} // verus!
