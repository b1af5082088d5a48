//! The quick listing of one directory: files by size, then directories.

use crate::ranking::{rank, ranked, top, Ranker, Ranking};
use crate::units::{bytes_text, format_bytes};
use vstd::prelude::*;
use vstd::string::*;
use vstd::utf8::encode_utf8;

verus! {

/// One entry of a directory.
#[derive(Clone, Debug)]
pub struct DirItem {
    /// The name of the entry.
    pub name: String,
    /// Its length in bytes where it is a plain file.
    pub size: Option<u64>,
    /// Whether it is a directory.
    pub is_dir: bool,
}

/// Whether `a` stands before `b` in the order of dictionaries: at the first
/// byte in which they differ `a` has the smaller one, or `a` ends first.
pub open spec fn bytes_before(a: Seq<u8>, b: Seq<u8>) -> bool
    decreases a.len(),
{
    if b.len() == 0 {
        false
    } else if a.len() == 0 {
        true
    } else if a[0] != b[0] {
        a[0] < b[0]
    } else {
        bytes_before(a.drop_first(), b.drop_first())
    }
}

/// Nothing stands before itself.
pub proof fn lemma_bytes_before_irreflexive(a: Seq<u8>)
    ensures
        !bytes_before(a, a),
    decreases a.len(),
{
    if a.len() > 0 {
        lemma_bytes_before_irreflexive(a.drop_first());
    }
}

/// The order of dictionaries is transitive.
pub proof fn lemma_bytes_before_transitive(a: Seq<u8>, b: Seq<u8>, c: Seq<u8>)
    requires
        bytes_before(a, b),
        bytes_before(b, c),
    ensures
        bytes_before(a, c),
    decreases a.len(),
{
    if a.len() > 0 && b.len() > 0 && c.len() > 0 && a[0] == b[0] && b[0] == c[0] {
        lemma_bytes_before_transitive(a.drop_first(), b.drop_first(), c.drop_first());
    }
}

/// Of two different texts one stands before the other.
pub proof fn lemma_bytes_before_total(a: Seq<u8>, b: Seq<u8>)
    ensures
        a == b || bytes_before(a, b) || bytes_before(b, a),
    decreases a.len(),
{
    if a.len() > 0 && b.len() > 0 && a[0] == b[0] {
        lemma_bytes_before_total(a.drop_first(), b.drop_first());
        if a.drop_first() == b.drop_first() {
            assert(a =~= seq![a[0]] + a.drop_first());
            assert(b =~= seq![b[0]] + b.drop_first());
        }
    } else if a.len() == 0 && b.len() == 0 {
        assert(a =~= b);
    }
}

/// Two texts that agree in their first `n` bytes compare as what follows
/// those bytes.
proof fn lemma_bytes_before_skips(a: Seq<u8>, b: Seq<u8>, n: int)
    requires
        0 <= n <= a.len(),
        n <= b.len(),
        forall|k: int| 0 <= k < n ==> a[k] == b[k],
    ensures
        bytes_before(a, b) == bytes_before(a.skip(n), b.skip(n)),
    decreases n,
{
    if n == 0 {
        assert(a.skip(0) =~= a);
        assert(b.skip(0) =~= b);
    } else {
        lemma_bytes_before_skips(a.drop_first(), b.drop_first(), n - 1);
        assert(a.drop_first().skip(n - 1) =~= a.skip(n));
        assert(b.drop_first().skip(n - 1) =~= b.skip(n));
    }
}

/// Decides `bytes_before`.
pub fn is_bytes_before(a: &[u8], b: &[u8]) -> (before: bool)
    ensures
        before == bytes_before(a@, b@),
{
    let mut i: usize = 0;
    while i < a.len() && i < b.len()
        invariant
            i <= a@.len(),
            i <= b@.len(),
            forall|k: int| 0 <= k < i ==> a@[k] == b@[k],
        decreases a@.len() - i,
    {
        if a[i] != b[i] {
            proof {
                lemma_bytes_before_skips(a@, b@, i as int);
            }
            return a[i] < b[i];
        }
        i += 1;
    }
    proof {
        lemma_bytes_before_skips(a@, b@, i as int);
    }
    i < b.len()
}

/// The size by which an entry is ranked: its length, or zero where it has
/// none.
pub open spec fn ranked_size(item: DirItem) -> u64 {
    match item.size {
        Some(n) => n,
        None => 0,
    }
}

/// The ranking of the entries of a directory: what is no directory first;
/// among equals the larger first; among those the name that stands first
/// in the order of dictionaries.
pub struct FilesFirst;

impl Ranking<DirItem> for FilesFirst {
    open spec fn precedes(&self, a: &DirItem, b: &DirItem) -> bool {
        if a.is_dir != b.is_dir {
            b.is_dir
        } else if ranked_size(*a) != ranked_size(*b) {
            ranked_size(*a) > ranked_size(*b)
        } else {
            bytes_before(encode_utf8(a.name@), encode_utf8(b.name@))
        }
    }

    proof fn lemma_irreflexive(&self, a: &DirItem) {
        lemma_bytes_before_irreflexive(encode_utf8(a.name@));
    }

    proof fn lemma_transitive(&self, a: &DirItem, b: &DirItem, c: &DirItem) {
        if a.is_dir == b.is_dir && b.is_dir == c.is_dir && ranked_size(*a) == ranked_size(*b)
            && ranked_size(*b) == ranked_size(*c) {
            lemma_bytes_before_transitive(
                encode_utf8(a.name@),
                encode_utf8(b.name@),
                encode_utf8(c.name@),
            );
        }
    }

    proof fn lemma_between(&self, a: &DirItem, b: &DirItem, c: &DirItem) {
        let na = encode_utf8(a.name@);
        let nb = encode_utf8(b.name@);
        let nc = encode_utf8(c.name@);
        if a.is_dir == b.is_dir && b.is_dir == c.is_dir && ranked_size(*a) == ranked_size(*b)
            && ranked_size(*b) == ranked_size(*c) {
            lemma_bytes_before_total(na, nb);
            if !bytes_before(na, nb) && na != nb {
                lemma_bytes_before_transitive(nb, na, nc);
            }
        }
    }
}

impl Ranker<DirItem> for FilesFirst {
    fn ranks_before(&self, a: &DirItem, b: &DirItem) -> (before: bool) {
        let a_size = match a.size {
            Some(n) => n,
            None => 0,
        };
        let b_size = match b.size {
            Some(n) => n,
            None => 0,
        };
        if a.is_dir != b.is_dir {
            b.is_dir
        } else if a_size != b_size {
            a_size > b_size
        } else {
            is_bytes_before(a.name.as_str().as_bytes(), b.name.as_str().as_bytes())
        }
    }
}

/// The line of an entry: a directory with its mark, anything else with its
/// size in words.
pub open spec fn item_line(item: DirItem) -> Seq<char> {
    if item.is_dir {
        item.name@ + "/  (dir)"@
    } else {
        item.name@ + seq![' ', ' '] + bytes_text(ranked_size(item) as nat)
    }
}

/// The line of an entry.
pub fn format_item(item: &DirItem) -> (line: String)
    ensures
        line@ == item_line(*item),
{
    proof {
        reveal_strlit("  ");
    }
    let mut line = item.name.clone();
    if item.is_dir {
        line.append("/  (dir)");
    } else {
        let size = match item.size {
            Some(n) => n,
            None => 0,
        };
        line.append("  ");
        line.append(format_bytes(size).as_str());
        assert(line@ =~= item_line(*item));
    }
    line
}

/// The lines of the first `limit` entries of a directory, files by falling
/// size before directories by name.
pub fn scan_dir_quick(items: Vec<DirItem>, limit: usize) -> (lines: Vec<String>)
    ensures
        lines@.len() == top(ranked(FilesFirst, items@), limit as int).len(),
        forall|i: int|
            0 <= i < lines@.len() ==> (#[trigger] lines@[i])@ == item_line(
                top(ranked(FilesFirst, items@), limit as int)[i],
            ),
{
    let mut first = rank(&FilesFirst, items);
    first.truncate(limit);
    let mut lines: Vec<String> = Vec::new();
    let mut i: usize = 0;
    while i < first.len()
        invariant
            i <= first@.len(),
            lines@.len() == i,
            forall|k: int| 0 <= k < i ==> (#[trigger] lines@[k])@ == item_line(first@[k]),
        decreases first@.len() - i,
    {
        lines.push(format_item(&first[i]));
        i += 1;
    }
    lines
}

/// The heading of a listing: the short name of the place and its path.
pub open spec fn heading_text(prefix: Seq<char>, path: Seq<char>) -> Seq<char> {
    prefix + seq![':', ' '] + path
}

/// Puts a heading above a listing. A listing without lines gets one line
/// that says so.
pub fn with_heading(prefix: &str, path: &str, listing: Vec<String>) -> (lines: Vec<String>)
    ensures
        lines@.len() >= 2,
        lines@[0]@ == heading_text(prefix@, path@),
        listing@.len() > 0 ==> lines@.len() == listing@.len() + 1 && forall|i: int|
            0 <= i < listing@.len() ==> #[trigger] lines@[i + 1] == listing@[i],
        listing@.len() == 0 ==> lines@.len() == 2 && lines@[1]@ == "(no entries)"@,
{
    proof {
        reveal_strlit(": ");
    }
    let mut heading = String::from_str(prefix);
    heading.append(": ");
    heading.append(path);
    assert(heading@ =~= heading_text(prefix@, path@));
    let mut lines = listing;
    if lines.len() == 0 {
        lines.push(heading);
        lines.push(String::from_str("(no entries)"));
    } else {
        lines.insert(0, heading);
    }
    lines
}

} // verus!
