//! The process table: its order and its lines.

use crate::ranking::{rank, ranked, top, Ranker, Ranking};
use crate::text::{
    can_trim, decimal, digit, digit_text, push_decimal, trim_to, trimmed,
};
use crate::units::{bytes_text, format_bytes};
use vstd::prelude::*;
use vstd::string::*;

verus! {

/// How many rows the process screen holds at most.
pub const MAX_PROCESS_ROWS: usize = 200;

/// How many bytes of a process name a dashboard line shows.
pub const NAME_WIDTH: usize = 18;

/// One process.
#[derive(Clone, Debug)]
pub struct ProcRow {
    /// The process id.
    pub pid: i32,
    /// The name of the process.
    pub name: String,
    /// The CPU usage in tenths of a percent.
    pub cpu_x10: i32,
    /// The memory in use, in bytes.
    pub mem_bytes: u64,
}

/// The process id as the table holds it: the number read as a signed
/// number of 32 bits.
pub open spec fn signed_pid(pid: u32) -> i32 {
    if pid < 0x8000_0000 {
        pid as i32
    } else {
        (pid - 0x1_0000_0000) as i32
    }
}

impl ProcRow {
    /// The row of a process with the given id, name, usage in tenths of a
    /// percent and memory.
    pub fn from_process(pid: u32, name: String, cpu_x10: i32, mem_bytes: u64) -> (row: ProcRow)
        ensures
            row == (ProcRow { pid: signed_pid(pid), name, cpu_x10, mem_bytes }),
    {
        let pid: i32 = if pid < 0x8000_0000 {
            pid as i32
        } else {
            ((pid - 0x8000_0000) as i32) + i32::MIN
        };
        ProcRow { pid, name, cpu_x10, mem_bytes }
    }
}

/// By what the process table is ordered.
#[derive(Clone, Copy, Debug, PartialEq, Eq, Structural)]
pub enum ProcSort {
    /// By CPU usage, then by memory.
    Cpu,
    /// By memory, then by CPU usage.
    Mem,
}

/// The first count of bytes that ranks as a negative number.
pub const SIGNED_LIMIT: u64 = 0x8000_0000_0000_0000;

/// The number by which a count of bytes is ranked: the count read as a
/// signed number of 64 bits, so that a count of `SIGNED_LIMIT` or more
/// ranks below every smaller one.
pub open spec fn memory_key(bytes: u64) -> int {
    if bytes < SIGNED_LIMIT {
        bytes as int
    } else {
        bytes - 0x1_0000_0000_0000_0000
    }
}

impl Ranking<ProcRow> for ProcSort {
    /// The process with the larger pair of keys stands first: usage then
    /// memory, or memory then usage.
    open spec fn precedes(&self, a: &ProcRow, b: &ProcRow) -> bool {
        match self {
            ProcSort::Cpu => a.cpu_x10 > b.cpu_x10 || (a.cpu_x10 == b.cpu_x10 && memory_key(
                a.mem_bytes,
            ) > memory_key(b.mem_bytes)),
            ProcSort::Mem => memory_key(a.mem_bytes) > memory_key(b.mem_bytes) || (a.mem_bytes
                == b.mem_bytes && a.cpu_x10 > b.cpu_x10),
        }
    }

    proof fn lemma_irreflexive(&self, a: &ProcRow) {
    }

    proof fn lemma_transitive(&self, a: &ProcRow, b: &ProcRow, c: &ProcRow) {
    }

    proof fn lemma_between(&self, a: &ProcRow, b: &ProcRow, c: &ProcRow) {
    }
}

/// Whether the first count of bytes ranks above the second.
fn memory_above(a: u64, b: u64) -> (above: bool)
    ensures
        above == (memory_key(a) > memory_key(b)),
{
    if (a < SIGNED_LIMIT) == (b < SIGNED_LIMIT) {
        a > b
    } else {
        a < SIGNED_LIMIT
    }
}

impl Ranker<ProcRow> for ProcSort {
    fn ranks_before(&self, a: &ProcRow, b: &ProcRow) -> (before: bool) {
        match self {
            ProcSort::Cpu => a.cpu_x10 > b.cpu_x10 || (a.cpu_x10 == b.cpu_x10 && memory_above(
                a.mem_bytes,
                b.mem_bytes,
            )),
            ProcSort::Mem => memory_above(a.mem_bytes, b.mem_bytes) || (a.mem_bytes
                == b.mem_bytes && a.cpu_x10 > b.cpu_x10),
        }
    }
}

impl ProcSort {
    /// The other order.
    pub fn toggled(self) -> (other: ProcSort)
        ensures
            other != self,
    {
        match self {
            ProcSort::Cpu => ProcSort::Mem,
            ProcSort::Mem => ProcSort::Cpu,
        }
    }
}

/// The first `count` processes in the order `sort`, processes with equal
/// keys in the order in which they came.
pub fn top_processes(rows: Vec<ProcRow>, sort: ProcSort, count: usize) -> (first: Vec<ProcRow>)
    ensures
        first@ == top(ranked(sort, rows@), count as int),
        first@.len() <= count,
        first@.len() <= rows@.len(),
{
    proof {
        crate::ranking::lemma_ranked_permutes(sort, rows@);
    }
    let mut first = rank(&sort, rows);
    first.truncate(count);
    first
}

/// A usage of `cpu_x10` tenths of a percent as text with one decimal.
pub open spec fn usage_text(cpu_x10: int) -> Seq<char> {
    let tenths = if cpu_x10 < 0 {
        -cpu_x10
    } else {
        cpu_x10
    };
    let sign = if cpu_x10 < 0 {
        seq!['-']
    } else {
        Seq::<char>::empty()
    };
    sign + decimal((tenths / 10) as nat) + seq!['.', digit((tenths % 10) as nat), '%']
}

/// The dashboard line of a process: its name cut to `NAME_WIDTH` bytes,
/// its usage, its memory.
pub open spec fn process_line(row: ProcRow) -> Seq<char> {
    trimmed(row.name@, NAME_WIDTH as nat) + seq![' ', ' '] + usage_text(row.cpu_x10 as int)
        + seq![' ', ' '] + bytes_text(row.mem_bytes as nat)
}

/// A usage in tenths of a percent as text with one decimal.
pub fn format_usage(cpu_x10: i32) -> (text: String)
    ensures
        text@ == usage_text(cpu_x10 as int),
{
    proof {
        reveal_strlit("-");
        reveal_strlit(".");
        reveal_strlit("%");
    }
    let mut text = String::new();
    let wide: i64 = cpu_x10 as i64;
    let tenths: u64 = if wide < 0 {
        text.append("-");
        (-wide) as u64
    } else {
        wide as u64
    };
    push_decimal(&mut text, (tenths / 10) as u128);
    text.append(".");
    text.append(digit_text(tenths % 10));
    text.append("%");
    assert(text@ =~= usage_text(cpu_x10 as int));
    text
}

/// The dashboard line of a process.
pub fn format_process(row: &ProcRow) -> (line: String)
    requires
        can_trim(row.name@, NAME_WIDTH as nat),
    ensures
        line@ == process_line(*row),
{
    proof {
        reveal_strlit("  ");
    }
    let mut line = trim_to(row.name.as_str(), NAME_WIDTH);
    line.append("  ");
    line.append(format_usage(row.cpu_x10).as_str());
    line.append("  ");
    line.append(format_bytes(row.mem_bytes).as_str());
    assert(line@ =~= process_line(*row));
    line
}

/// The dashboard lines of the first `count` processes in the order `sort`.
///
/// Every name that is shown must be one that can be cut to `NAME_WIDTH`
/// bytes.
pub fn format_top_processes(rows: Vec<ProcRow>, sort: ProcSort, count: usize) -> (lines: Vec<
    String,
>)
    requires
        forall|i: int|
            0 <= i < top(ranked(sort, rows@), count as int).len() ==> can_trim(
                (#[trigger] top(ranked(sort, rows@), count as int)[i]).name@,
                NAME_WIDTH as nat,
            ),
    ensures
        lines@.len() == top(ranked(sort, rows@), count as int).len(),
        forall|i: int|
            0 <= i < lines@.len() ==> (#[trigger] lines@[i])@ == process_line(
                top(ranked(sort, rows@), count as int)[i],
            ),
{
    let first = top_processes(rows, sort, count);
    let mut lines: Vec<String> = Vec::new();
    let mut i: usize = 0;
    while i < first.len()
        invariant
            i <= first@.len(),
            lines@.len() == i,
            forall|k: int|
                0 <= k < first@.len() ==> can_trim((#[trigger] first@[k]).name@, NAME_WIDTH as nat),
            forall|k: int| 0 <= k < i ==> (#[trigger] lines@[k])@ == process_line(first@[k]),
        decreases first@.len() - i,
    {
        lines.push(format_process(&first[i]));
        i += 1;
    }
    lines
}

} // verus!
