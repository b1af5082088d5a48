//! The two counters that come as text from the kernel: the time stolen from
//! the CPU, and the length of the run queue.
//!
//! Both texts are lines of fields with blanks between them. A text that
//! does not have the expected fields gives no counter; that is no failure.

use crate::metrics::as_sample;
use crate::text::{number_of, parse_number};
use vstd::prelude::*;
use vstd::slice::slice_subrange;

verus! {

/// The field of the load line that holds the run queue.
pub const RUN_QUEUE_FIELD: usize = 3;

/// The times that the CPUs have spent, by kind, as the kernel counts them.
#[derive(Clone, Copy, Debug, PartialEq, Eq, Structural)]
pub struct CpuTimes {
    pub user: u64,
    pub nice: u64,
    pub system: u64,
    pub idle: u64,
    pub iowait: u64,
    pub irq: u64,
    pub softirq: u64,
    pub steal: u64,
}

impl CpuTimes {
    /// All the time that was counted.
    pub open spec fn total(self) -> nat {
        (self.user + self.nice + self.system + self.idle + self.iowait + self.irq + self.softirq
            + self.steal) as nat
    }
}

/// Whether a byte is a blank: a space, a tab, or the end of a line.
pub open spec fn is_blank(byte: u8) -> bool {
    byte == 0x20 || byte == 0x09 || byte == 0x0a || byte == 0x0d
}

/// The first position at or behind `from` that holds no blank, or the
/// length of the line.
pub open spec fn blanks_end(line: Seq<u8>, from: int) -> int
    decreases line.len() - from,
{
    if from < 0 || from >= line.len() {
        line.len() as int
    } else if !is_blank(line[from]) {
        from
    } else {
        blanks_end(line, from + 1)
    }
}

/// The first position at or behind `from` that holds a blank, or the
/// length of the line.
pub open spec fn word_end(line: Seq<u8>, from: int) -> int
    decreases line.len() - from,
{
    if from < 0 || from >= line.len() {
        line.len() as int
    } else if is_blank(line[from]) {
        from
    } else {
        word_end(line, from + 1)
    }
}

/// Where field number `n` of the line begins, counted from zero; the
/// length of the line where it has no such field.
pub open spec fn field_start(line: Seq<u8>, n: nat) -> int
    decreases n,
{
    if n == 0 {
        blanks_end(line, 0)
    } else {
        blanks_end(line, word_end(line, field_start(line, (n - 1) as nat)))
    }
}

/// Field number `n` of the line: a run of bytes without blanks; empty
/// where the line has no such field.
pub open spec fn field(line: Seq<u8>, n: nat) -> Seq<u8> {
    line.subrange(field_start(line, n), word_end(line, field_start(line, n)))
}

/// The two positions lie in the line, at or behind `from`.
proof fn lemma_ends_in_line(line: Seq<u8>, from: int)
    requires
        0 <= from <= line.len(),
    ensures
        from <= blanks_end(line, from) <= line.len(),
        from <= word_end(line, from) <= line.len(),
    decreases line.len() - from,
{
    if from < line.len() {
        lemma_ends_in_line(line, from + 1);
    }
}

/// A field lies in the line.
pub proof fn lemma_field_in_line(line: Seq<u8>, n: nat)
    ensures
        0 <= field_start(line, n) <= word_end(line, field_start(line, n)) <= line.len(),
    decreases n,
{
    if n == 0 {
        lemma_ends_in_line(line, 0);
        lemma_ends_in_line(line, blanks_end(line, 0));
    } else {
        lemma_field_in_line(line, (n - 1) as nat);
        let before = word_end(line, field_start(line, (n - 1) as nat));
        lemma_ends_in_line(line, before);
        lemma_ends_in_line(line, blanks_end(line, before));
    }
}

/// Computes `blanks_end`.
fn skip_blanks(line: &[u8], from: usize) -> (end: usize)
    requires
        from <= line@.len(),
    ensures
        end == blanks_end(line@, from as int),
        from <= end <= line@.len(),
{
    let mut i: usize = from;
    while i < line.len() && (line[i] == 0x20 || line[i] == 0x09 || line[i] == 0x0a || line[i]
        == 0x0d)
        invariant
            from <= i <= line@.len(),
            blanks_end(line@, from as int) == blanks_end(line@, i as int),
        decreases line@.len() - i,
    {
        i += 1;
    }
    i
}

/// Computes `word_end`.
fn skip_word(line: &[u8], from: usize) -> (end: usize)
    requires
        from <= line@.len(),
    ensures
        end == word_end(line@, from as int),
        from <= end <= line@.len(),
{
    let mut i: usize = from;
    while i < line.len() && !(line[i] == 0x20 || line[i] == 0x09 || line[i] == 0x0a || line[i]
        == 0x0d)
        invariant
            from <= i <= line@.len(),
            word_end(line@, from as int) == word_end(line@, i as int),
        decreases line@.len() - i,
    {
        i += 1;
    }
    i
}

/// Finds field number `n` of the line, as the positions of its first byte
/// and of the byte behind its last.
pub fn find_field(line: &[u8], n: usize) -> (range: (usize, usize))
    ensures
        range.0 <= range.1 <= line@.len(),
        line@.subrange(range.0 as int, range.1 as int) == field(line@, n as nat),
        range.0 == field_start(line@, n as nat),
{
    let mut start: usize = skip_blanks(line, 0);
    let mut k: usize = 0;
    while k < n
        invariant
            k <= n,
            start <= line@.len(),
            start == field_start(line@, k as nat),
        decreases n - k,
    {
        let end = skip_word(line, start);
        start = skip_blanks(line, end);
        k += 1;
    }
    let end = skip_word(line, start);
    (start, end)
}

/// The bytes of field number `n` of the line.
pub fn field_bytes(line: &[u8], n: usize) -> (bytes: Vec<u8>)
    ensures
        bytes@ == field(line@, n as nat),
{
    let (start, end) = find_field(line, n);
    let mut bytes: Vec<u8> = Vec::new();
    let mut i: usize = start;
    while i < end
        invariant
            start <= i <= end <= line@.len(),
            bytes@ == line@.subrange(start as int, i as int),
        decreases end - i,
    {
        bytes.push(line[i]);
        assert(bytes@ =~= line@.subrange(start as int, i + 1));
        i += 1;
    }
    bytes
}

/// The number in field number `n` of the line, where it holds one.
pub fn field_number(line: &[u8], n: usize) -> (number: Option<u64>)
    ensures
        number == number_of(field(line@, n as nat)),
{
    let bytes = field_bytes(line, n);
    parse_number(bytes.as_slice())
}

/// The first position at or behind `from` that ends a line, or the length
/// of the text.
pub open spec fn line_end(text: Seq<u8>, from: int) -> int
    decreases text.len() - from,
{
    if from < 0 || from >= text.len() {
        text.len() as int
    } else if text[from] == 0x0a {
        from
    } else {
        line_end(text, from + 1)
    }
}

/// The first line of a text, without the byte that ends it.
pub open spec fn first_line(text: Seq<u8>) -> Seq<u8> {
    text.subrange(0, line_end(text, 0))
}

/// The first line of a text.
pub fn take_first_line(text: &[u8]) -> (line: &[u8])
    ensures
        line@ == first_line(text@),
{
    let mut i: usize = 0;
    while i < text.len() && text[i] != 0x0a
        invariant
            i <= text@.len(),
            line_end(text@, 0) == line_end(text@, i as int),
        decreases text@.len() - i,
    {
        i += 1;
    }
    slice_subrange(text, 0, i)
}

/// The bytes of the word `cpu`.
pub open spec fn cpu_word() -> Seq<u8> {
    seq![0x63u8, 0x70u8, 0x75u8]
}

/// The times in the first line of the kernel's statistics: the word `cpu`
/// and behind it at least eight numbers.
pub open spec fn cpu_times_of(line: Seq<u8>) -> Option<CpuTimes> {
    if field(line, 0) == cpu_word() && number_of(field(line, 1)) is Some && number_of(
        field(line, 2),
    ) is Some && number_of(field(line, 3)) is Some && number_of(field(line, 4)) is Some
        && number_of(field(line, 5)) is Some && number_of(field(line, 6)) is Some && number_of(
        field(line, 7),
    ) is Some && number_of(field(line, 8)) is Some {
        Some(
            CpuTimes {
                user: number_of(field(line, 1))->0,
                nice: number_of(field(line, 2))->0,
                system: number_of(field(line, 3))->0,
                idle: number_of(field(line, 4))->0,
                iowait: number_of(field(line, 5))->0,
                irq: number_of(field(line, 6))->0,
                softirq: number_of(field(line, 7))->0,
                steal: number_of(field(line, 8))->0,
            },
        )
    } else {
        None
    }
}

/// Reads the times from the kernel's statistics: from their first line.
pub fn parse_cpu_stat(text: &[u8]) -> (times: Option<CpuTimes>)
    ensures
        times == cpu_times_of(first_line(text@)),
{
    parse_cpu_times(take_first_line(text))
}

/// Reads the times from the first line of the kernel's statistics.
pub fn parse_cpu_times(line: &[u8]) -> (times: Option<CpuTimes>)
    ensures
        times == cpu_times_of(line@),
{
    let name = field_bytes(line, 0);
    if !(name.len() == 3 && name[0] == 0x63 && name[1] == 0x70 && name[2] == 0x75) {
        assert(name@ != cpu_word()) by {
            if name@.len() == 3 {
                assert(name@[0] != cpu_word()[0] || name@[1] != cpu_word()[1] || name@[2]
                    != cpu_word()[2]);
            }
        }
        return None;
    }
    assert(name@ =~= cpu_word());
    let user = field_number(line, 1);
    let nice = field_number(line, 2);
    let system = field_number(line, 3);
    let idle = field_number(line, 4);
    let iowait = field_number(line, 5);
    let irq = field_number(line, 6);
    let softirq = field_number(line, 7);
    let steal = field_number(line, 8);
    match (user, nice, system, idle, iowait, irq, softirq, steal) {
        (
            Some(user),
            Some(nice),
            Some(system),
            Some(idle),
            Some(iowait),
            Some(irq),
            Some(softirq),
            Some(steal),
        ) => Some(CpuTimes { user, nice, system, idle, iowait, irq, softirq, steal }),
        _ => None,
    }
}

/// The share of the time between two counts that was stolen, in
/// thousandths of a percent, rounded down. There is none where no time
/// passed or a counter ran backwards.
pub open spec fn steal_between(earlier: CpuTimes, later: CpuTimes) -> Option<u64> {
    if later.total() > earlier.total() && later.steal >= earlier.steal {
        Some(
            as_sample(
                ((later.steal - earlier.steal) * 100_000 / (later.total() - earlier.total())) as nat,
            ),
        )
    } else {
        None
    }
}

/// The stolen share between two counts of which either may be missing.
pub open spec fn steal_of(earlier: Option<CpuTimes>, later: Option<CpuTimes>) -> Option<u64> {
    if earlier is Some && later is Some {
        steal_between(earlier->0, later->0)
    } else {
        None
    }
}

/// All the time that was counted.
fn total_time(times: CpuTimes) -> (total: u128)
    ensures
        total == times.total(),
{
    times.user as u128 + times.nice as u128 + times.system as u128 + times.idle as u128
        + times.iowait as u128 + times.irq as u128 + times.softirq as u128 + times.steal as u128
}

/// Computes the share of the time that was stolen between two counts, in
/// thousandths of a percent. Without an earlier count, or without a later
/// one, there is no share.
pub fn steal_milli(earlier: Option<CpuTimes>, later: Option<CpuTimes>) -> (milli: Option<u64>)
    ensures
        milli == steal_of(earlier, later),
{
    match (earlier, later) {
        (Some(earlier), Some(later)) => {
            let before = total_time(earlier);
            let after = total_time(later);
            if after > before && later.steal >= earlier.steal {
                let stolen: u128 = (later.steal - earlier.steal) as u128;
                let share: u128 = stolen * 100_000 / (after - before);
                if share > 0xffff_ffff_ffff_ffff {
                    Some(u64::MAX)
                } else {
                    Some(share as u64)
                }
            } else {
                None
            }
        },
        _ => None,
    }
}

/// The run queue in the kernel's load line: its fourth field, where the
/// line has one.
pub open spec fn run_queue_of(line: Seq<u8>) -> Option<Seq<u8>> {
    if field(line, RUN_QUEUE_FIELD as nat).len() > 0 {
        Some(field(line, RUN_QUEUE_FIELD as nat))
    } else {
        None
    }
}

/// Reads the run queue from the kernel's load text: from its first line.
pub fn parse_run_queue(text: &[u8]) -> (queue: Option<Vec<u8>>)
    ensures
        match queue {
            Some(bytes) => run_queue_of(first_line(text@)) == Some(bytes@),
            None => run_queue_of(first_line(text@)) is None,
        },
{
    let bytes = field_bytes(take_first_line(text), RUN_QUEUE_FIELD);
    if bytes.len() > 0 {
        Some(bytes)
    } else {
        None
    }
}

} // verus!
