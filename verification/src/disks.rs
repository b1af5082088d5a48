//! The table of mounted file systems and the choice of the primary disk.

use crate::metrics::{as_sample, percent, percent_x10};
use crate::ranking::{rank, ranked, top, Ranker, Ranking};
use crate::text::{bytes_contain, bytes_start_with, contains, starts_with};
use vstd::prelude::*;
use vstd::string::*;
use vstd::utf8::encode_utf8;

verus! {

/// How many rows the table of a snapshot holds at most.
pub const TABLE_ROWS: usize = 7;

/// What kind of device a disk is.
#[derive(Clone, Copy, Debug, PartialEq, Eq, Structural)]
pub enum DiskMedia {
    /// A rotating disk.
    Hdd,
    /// A solid-state disk.
    Ssd,
    /// Anything else, or unknown.
    Unknown,
}

/// One mounted file system as the host reports it.
#[derive(Clone, Debug)]
pub struct DiskInfo {
    /// The name of the device or file system.
    pub name: String,
    /// Where it is mounted.
    pub mount: String,
    /// What kind of device it is.
    pub media: DiskMedia,
    /// Its capacity in bytes.
    pub total: u64,
    /// The bytes that are free on it.
    pub available: u64,
}

/// One row of the table of mounted file systems.
#[derive(Clone, Debug)]
pub struct DiskRow {
    /// The name of the device or file system.
    pub fs: String,
    /// Its capacity in bytes.
    pub size: u64,
    /// The bytes in use.
    pub used: u64,
    /// The bytes that are free.
    pub avail: u64,
    /// The share in use, in tenths of a percent.
    pub use_pct: u64,
    /// Where it is mounted.
    pub mount: String,
}

/// How much of the primary disk is in use.
#[derive(Clone, Debug)]
pub struct DiskUsage {
    /// The mount path of the disk, or the words for "none".
    pub label: String,
    /// The bytes in use.
    pub used: u64,
    /// Its capacity in bytes.
    pub total: u64,
    /// The share in use, in tenths of a percent.
    pub percent: u64,
}

/// The ranking of table rows: the larger file system stands first.
pub struct ByCapacity;

impl Ranking<DiskRow> for ByCapacity {
    open spec fn precedes(&self, a: &DiskRow, b: &DiskRow) -> bool {
        a.size > b.size
    }

    proof fn lemma_irreflexive(&self, a: &DiskRow) {
    }

    proof fn lemma_transitive(&self, a: &DiskRow, b: &DiskRow, c: &DiskRow) {
    }

    proof fn lemma_between(&self, a: &DiskRow, b: &DiskRow, c: &DiskRow) {
    }
}

impl Ranker<DiskRow> for ByCapacity {
    fn ranks_before(&self, a: &DiskRow, b: &DiskRow) -> (before: bool) {
        a.size > b.size
    }
}

/// What `str::to_lowercase` returns for a text.
pub uninterp spec fn lowercase_of(text: Seq<char>) -> Seq<char>;

/// The lowercase form of `text`.
///
/// Calls `str::to_lowercase`. Trusted: the result is the one that the name
/// `lowercase_of` stands for; nothing more is claimed of it.
#[verifier::external_body]
fn lowercase(text: &str) -> (lower: String)
    ensures
        lower@ == lowercase_of(text@),
{
    text.to_lowercase()
}

/// `total - available`, or zero where more is free than there is.
pub open spec fn used_of(total: u64, available: u64) -> u64 {
    if available > total {
        0
    } else {
        (total - available) as u64
    }
}

/// Whether a file system is not a real disk, going by its name in lowercase
/// and by its mount path: a name that holds `tmpfs`, `udev` or `devtmpfs`,
/// or a path that begins with `/run`, `/dev` or `/sys`.
pub open spec fn pseudo(name_lower: Seq<char>, mount: Seq<char>) -> bool {
    let name = encode_utf8(name_lower);
    let path = encode_utf8(mount);
    ||| contains(name, encode_utf8("tmpfs"@))
    ||| contains(name, encode_utf8("udev"@))
    ||| contains(name, encode_utf8("devtmpfs"@))
    ||| starts_with(path, encode_utf8("/run"@))
    ||| starts_with(path, encode_utf8("/dev"@))
    ||| starts_with(path, encode_utf8("/sys"@))
}

/// Decides `pseudo` for a name that is in lowercase already.
pub fn is_pseudo(name_lower: &str, mount: &str) -> (hidden: bool)
    ensures
        hidden == pseudo(name_lower@, mount@),
{
    let name = name_lower.as_bytes();
    let path = mount.as_bytes();
    bytes_contain(name, "tmpfs".as_bytes()) || bytes_contain(name, "udev".as_bytes())
        || bytes_contain(name, "devtmpfs".as_bytes()) || bytes_start_with(path, "/run".as_bytes())
        || bytes_start_with(path, "/dev".as_bytes()) || bytes_start_with(
        path,
        "/sys".as_bytes(),
    )
}

/// Whether the mount path of the disk at `index` belongs to a disk before
/// it.
pub open spec fn repeated(disks: Seq<DiskInfo>, index: int) -> bool {
    exists|j: int| 0 <= j < index && (#[trigger] disks[j]).mount@ == disks[index].mount@
}

/// Whether the disk at `index` gets a row: the first disk of its mount
/// path, and a real disk unless all are asked for.
pub open spec fn listed(disks: Seq<DiskInfo>, index: int, show_all: bool) -> bool {
    !repeated(disks, index) && (show_all || !pseudo(
        lowercase_of(disks[index].name@),
        disks[index].mount@,
    ))
}

/// The row of a disk.
pub open spec fn row_of(disk: DiskInfo) -> DiskRow {
    DiskRow {
        fs: disk.name,
        size: disk.total,
        used: used_of(disk.total, disk.available),
        avail: disk.available,
        use_pct: as_sample(
            percent_x10(used_of(disk.total, disk.available) as nat, disk.total as nat),
        ),
        mount: disk.mount,
    }
}

/// The rows of the first `n` disks, in the order of the disks.
pub open spec fn rows_of(disks: Seq<DiskInfo>, n: int, show_all: bool) -> Seq<DiskRow>
    decreases n,
{
    if n <= 0 {
        Seq::empty()
    } else if listed(disks, n - 1, show_all) {
        rows_of(disks, n - 1, show_all).push(row_of(disks[n - 1]))
    } else {
        rows_of(disks, n - 1, show_all)
    }
}

/// The table of `disks`: the rows of the listed disks, largest first, rows
/// of equal size in the order of the disks, at most `limit` of them.
pub open spec fn table_of(disks: Seq<DiskInfo>, limit: int, show_all: bool) -> Seq<DiskRow> {
    top(ranked(ByCapacity, rows_of(disks, disks.len() as int, show_all)), limit)
}

/// Decides `repeated`.
fn is_repeated(disks: &Vec<DiskInfo>, index: usize) -> (seen: bool)
    requires
        index < disks@.len(),
    ensures
        seen == repeated(disks@, index as int),
{
    let mut j: usize = 0;
    while j < index
        invariant
            j <= index < disks@.len(),
            forall|k: int| 0 <= k < j ==> (#[trigger] disks@[k]).mount@ != disks@[index as int].mount@,
        decreases index - j,
    {
        if disks[j].mount == disks[index].mount {
            return true;
        }
        j += 1;
    }
    false
}

/// The row of a disk.
fn make_row(disk: &DiskInfo) -> (row: DiskRow)
    ensures
        row == row_of(*disk),
{
    let used = disk.total.saturating_sub(disk.available);
    DiskRow {
        fs: disk.name.clone(),
        size: disk.total,
        used,
        avail: disk.available,
        use_pct: percent(used, disk.total),
        mount: disk.mount.clone(),
    }
}

/// Builds the table of mounted file systems.
///
/// A mount path is listed once, for the first disk that has it. Unless
/// `show_all` is set, file systems that are not real disks are left out.
/// The rows come largest first and are cut to `limit`.
pub fn disks_table_filtered(disks: &Vec<DiskInfo>, limit: usize, show_all: bool) -> (rows: Vec<
    DiskRow,
>)
    ensures
        rows@ == table_of(disks@, limit as int, show_all),
        rows@.len() <= limit,
        rows@.len() <= disks@.len(),
{
    let mut rows: Vec<DiskRow> = Vec::new();
    let mut i: usize = 0;
    while i < disks.len()
        invariant
            i <= disks@.len(),
            rows@ == rows_of(disks@, i as int, show_all),
            rows@.len() <= i,
        decreases disks@.len() - i,
    {
        let disk = &disks[i];
        if !is_repeated(disks, i) {
            let hidden = if show_all {
                false
            } else {
                let name_lower = lowercase(disk.name.as_str());
                is_pseudo(name_lower.as_str(), disk.mount.as_str())
            };
            if !hidden {
                rows.push(make_row(disk));
            }
        }
        i += 1;
    }
    let mut rows = rank(&ByCapacity, rows);
    proof {
        crate::ranking::lemma_ranked_permutes(
            ByCapacity,
            rows_of(disks@, disks@.len() as int, show_all),
        );
    }
    rows.truncate(limit);
    rows
}

/// Whether a disk is a physical device of a known kind.
pub open spec fn physical(disk: DiskInfo) -> bool {
    disk.media == DiskMedia::Hdd || disk.media == DiskMedia::Ssd
}

/// The index of the primary disk: the first physical device; the first disk
/// where none is physical; none where there is no disk.
pub open spec fn primary_index(disks: Seq<DiskInfo>) -> Option<int> {
    if exists|i: int| 0 <= i < disks.len() && physical(#[trigger] disks[i]) {
        Some(first_physical(disks, 0))
    } else if disks.len() > 0 {
        Some(0)
    } else {
        None
    }
}

/// The index of the first physical device at or behind `from`, or the
/// number of disks where there is none.
pub open spec fn first_physical(disks: Seq<DiskInfo>, from: int) -> int
    decreases disks.len() - from,
{
    if from < 0 || from >= disks.len() {
        disks.len() as int
    } else if physical(disks[from]) {
        from
    } else {
        first_physical(disks, from + 1)
    }
}

/// The usage of the disk at `chosen`, or the words for "none" with zero
/// usage.
pub open spec fn usage_matches(usage: DiskUsage, disks: Seq<DiskInfo>, chosen: Option<int>) -> bool {
    match chosen {
        Some(i) => {
            &&& usage.label@ == disks[i].mount@
            &&& usage.total == disks[i].total
            &&& usage.used == used_of(disks[i].total, disks[i].available)
            &&& usage.percent == as_sample(percent_x10(usage.used as nat, usage.total as nat))
        },
        None => {
            &&& usage.label@ == "no disks"@
            &&& usage.total == 0
            &&& usage.used == 0
            &&& usage.percent == 0
        },
    }
}

/// `first_physical` finds a physical device exactly where there is one, and
/// none stands before the one it finds.
pub proof fn lemma_first_physical(disks: Seq<DiskInfo>, from: int)
    requires
        0 <= from <= disks.len(),
    ensures
        from <= first_physical(disks, from) <= disks.len(),
        first_physical(disks, from) < disks.len() ==> physical(disks[first_physical(disks, from)]),
        forall|i: int| from <= i < first_physical(disks, from) ==> !physical(#[trigger] disks[i]),
    decreases disks.len() - from,
{
    if from < disks.len() && !physical(disks[from]) {
        lemma_first_physical(disks, from + 1);
    }
}

/// Picks the primary disk and says how much of it is in use.
///
/// A rotating or solid-state device is preferred; without one the first
/// disk serves; without any disk the label says so and the usage is zero.
pub fn primary_disk(disks: &Vec<DiskInfo>) -> (usage: DiskUsage)
    ensures
        usage_matches(usage, disks@, primary_index(disks@)),
{
    let mut i: usize = 0;
    while i < disks.len()
        invariant
            i <= disks@.len(),
            forall|k: int| 0 <= k < i ==> !physical(#[trigger] disks@[k]),
        decreases disks@.len() - i,
    {
        if disks[i].media == DiskMedia::Hdd || disks[i].media == DiskMedia::Ssd {
            proof {
                lemma_first_physical(disks@, 0);
                let f = first_physical(disks@, 0);
                if f < i {
                    assert(!physical(disks@[f]));
                } else if f > i {
                    assert(!physical(disks@[i as int]));
                }
            }
            return usage_of(&disks[i]);
        }
        i += 1;
    }
    if disks.len() > 0 {
        usage_of(&disks[0])
    } else {
        DiskUsage { label: String::from_str("no disks"), used: 0, total: 0, percent: 0 }
    }
}

/// The usage of a disk.
fn usage_of(disk: &DiskInfo) -> (usage: DiskUsage)
    ensures
        usage.label@ == disk.mount@,
        usage.total == disk.total,
        usage.used == used_of(disk.total, disk.available),
        usage.percent == as_sample(percent_x10(usage.used as nat, usage.total as nat)),
{
    let used = disk.total.saturating_sub(disk.available);
    DiskUsage {
        label: disk.mount.clone(),
        used,
        total: disk.total,
        percent: percent(used, disk.total),
    }
}

} // verus!
