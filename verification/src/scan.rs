//! The directory scan engine: the state that a scan shares with its
//! observers, and the worker's decisions.
//!
//! A scan measures the directories directly below a target and keeps the
//! largest of them. The worker that walks the file system lives outside this
//! library; it reports what it finds to a `ScanWorker`, which decides when a
//! walk must stop and what becomes visible in the shared `DiskScanState`.
//! Every state that is published holds at most `MAX_RESULTS` entries, largest
//! first.

use crate::ranking::{
    in_rank_order, lemma_placed_in_rank_order, lemma_placed_mapped, lemma_ranked_push,
    lemma_top_in_rank_order, lemma_top_mapped, lemma_top_ranked_push, place, placed, ranked, top,
    Ranker, Ranking,
};
use crate::text::{decimal, push_decimal};
use vstd::prelude::*;
use vstd::string::*;

verus! {

/// How many entries a result list holds at most.
pub const MAX_RESULTS: usize = 25;

/// How deep below a child directory a walk may descend.
pub const MAX_DEPTH: usize = 12;

/// How many files are counted below one child directory.
pub const CHILD_FILE_CAP: u64 = 50_000;

/// How many files are counted in one scan.
pub const TOTAL_FILE_CAP: u64 = 300_000;

/// The ranking of measured directories: the larger stands first.
pub struct BySize;

impl Ranking<(Seq<char>, u64)> for BySize {
    open spec fn precedes(&self, a: &(Seq<char>, u64), b: &(Seq<char>, u64)) -> bool {
        a.1 > b.1
    }

    proof fn lemma_irreflexive(&self, a: &(Seq<char>, u64)) {
    }

    proof fn lemma_transitive(
        &self,
        a: &(Seq<char>, u64),
        b: &(Seq<char>, u64),
        c: &(Seq<char>, u64),
    ) {
    }

    proof fn lemma_between(
        &self,
        a: &(Seq<char>, u64),
        b: &(Seq<char>, u64),
        c: &(Seq<char>, u64),
    ) {
    }
}

impl Ranking<(String, u64)> for BySize {
    open spec fn precedes(&self, a: &(String, u64), b: &(String, u64)) -> bool {
        a.1 > b.1
    }

    proof fn lemma_irreflexive(&self, a: &(String, u64)) {
    }

    proof fn lemma_transitive(&self, a: &(String, u64), b: &(String, u64), c: &(String, u64)) {
    }

    proof fn lemma_between(&self, a: &(String, u64), b: &(String, u64), c: &(String, u64)) {
    }
}

impl Ranker<(String, u64)> for BySize {
    fn ranks_before(&self, a: &(String, u64), b: &(String, u64)) -> (before: bool) {
        a.1 > b.1
    }
}

/// The text of the progress line while child number `index` of `count` is
/// measured.
pub open spec fn progress_text(index: nat, count: nat, child: Seq<char>) -> Seq<char> {
    decimal(index) + seq!['/'] + decimal(count) + seq![':', ' '] + child
}

/// The text of the progress line of a scan that stopped at the file cap.
pub open spec fn cap_text() -> Seq<char> {
    "Reached scan cap (kept it lightweight)."@
}

/// `size + len`, or the largest value where the sum does not fit.
pub open spec fn saturating_sum(size: u64, len: u64) -> u64 {
    if size + len > u64::MAX {
        u64::MAX
    } else {
        (size + len) as u64
    }
}

/// Why a scan could not measure anything.
#[derive(Clone, Debug)]
pub enum ScanError {
    /// The target path does not exist.
    TargetNotFound(String),
    /// The target has no directory directly below it.
    NoChildren,
}

impl ScanError {
    /// The message that the scan state shows for this error.
    pub open spec fn text(&self) -> Seq<char> {
        match self {
            ScanError::TargetNotFound(target) => "Target does not exist: "@ + target@,
            ScanError::NoChildren => "No child directories found to scan"@,
        }
    }

    /// The message that the scan state shows for this error.
    pub fn message(&self) -> (message: String)
        ensures
            message@ == self.text(),
    {
        match self {
            ScanError::TargetNotFound(target) => {
                let mut message = String::from_str("Target does not exist: ");
                message.append(target.as_str());
                message
            },
            ScanError::NoChildren => String::from_str("No child directories found to scan"),
        }
    }
}

/// What an observer sees of a scan.
pub struct ScanView {
    pub running: bool,
    pub last_target: Option<Seq<char>>,
    pub last_started_at: Option<u64>,
    pub last_finished_at: Option<u64>,
    pub progress: Seq<char>,
    pub results: Seq<(Seq<char>, u64)>,
    pub error: Option<Seq<char>>,
}

impl ScanView {
    /// At most `MAX_RESULTS` entries, largest first, and no error while a
    /// scan runs.
    pub open spec fn well_formed(self) -> bool {
        &&& self.results.len() <= MAX_RESULTS
        &&& in_rank_order(BySize, self.results)
        &&& (self.running ==> self.error is None)
    }

    /// The state before any scan.
    pub open spec fn idle() -> ScanView {
        ScanView {
            running: false,
            last_target: None,
            last_started_at: None,
            last_finished_at: None,
            progress: Seq::empty(),
            results: Seq::empty(),
            error: None,
        }
    }

    /// The state right after a scan of `target` began at `now`.
    pub open spec fn begun(target: Seq<char>, now: u64) -> ScanView {
        ScanView {
            running: true,
            last_target: Some(target),
            last_started_at: Some(now),
            last_finished_at: None,
            progress: Seq::empty(),
            results: Seq::empty(),
            error: None,
        }
    }

    /// This state after its scan ended at `now` with `failure`, or without
    /// one.
    pub open spec fn ended(self, failure: Option<Seq<char>>, now: u64) -> ScanView {
        ScanView {
            running: false,
            last_finished_at: Some(now),
            error: if failure is Some {
                failure
            } else {
                self.error
            },
            ..self
        }
    }
}

/// The view of an optional text.
pub open spec fn text_of(text: Option<String>) -> Option<Seq<char>> {
    match text {
        Some(t) => Some(t@),
        None => None,
    }
}

/// The entries of a result list as plain values.
pub open spec fn entries_of(results: Seq<(String, u64)>) -> Seq<(Seq<char>, u64)> {
    results.map_values(|e: (String, u64)| (e.0@, e.1))
}

/// Placing an entry and keeping the first `MAX_RESULTS` gives, on the plain
/// values, a list in rank order again.
proof fn lemma_keep_top(results: Seq<(String, u64)>, entry: (String, u64))
    requires
        in_rank_order(BySize, entries_of(results)),
    ensures
        entries_of(top(placed(BySize, results, entry), MAX_RESULTS as int)) == top(
            placed(BySize, entries_of(results), (entry.0@, entry.1)),
            MAX_RESULTS as int,
        ),
        in_rank_order(BySize, entries_of(top(placed(BySize, results, entry), MAX_RESULTS as int))),
        entries_of(top(placed(BySize, results, entry), MAX_RESULTS as int)).len() <= MAX_RESULTS,
{
    let f = |e: (String, u64)| (e.0@, e.1);
    lemma_placed_mapped(BySize, BySize, results, entry, f);
    lemma_top_mapped(placed(BySize, results, entry), MAX_RESULTS as int, f);
    lemma_placed_in_rank_order(BySize, entries_of(results), (entry.0@, entry.1));
    lemma_top_in_rank_order(
        BySize,
        placed(BySize, entries_of(results), (entry.0@, entry.1)),
        MAX_RESULTS as int,
    );
}

/// A copy of a result list.
fn copy_results(results: &Vec<(String, u64)>) -> (copy: Vec<(String, u64)>)
    ensures
        copy@ == results@,
{
    let mut copy: Vec<(String, u64)> = Vec::new();
    let mut i: usize = 0;
    while i < results.len()
        invariant
            i <= results.len(),
            copy@ == results@.take(i as int),
        decreases results.len() - i,
    {
        copy.push((results[i].0.clone(), results[i].1));
        assert(copy@ =~= results@.take(i + 1));
        i += 1;
    }
    assert(results@.take(i as int) =~= results@);
    copy
}

/// A copy of an optional text.
fn copy_text(text: &Option<String>) -> (copy: Option<String>)
    ensures
        copy == *text,
{
    match text {
        Some(t) => Some(t.clone()),
        None => None,
    }
}

/// The state of the scan engine that the worker writes and observers read.
///
/// At most one scan runs at a time: `start_scan` changes nothing while
/// `running` is set. Times are readings of the caller's clock, in a unit of
/// the caller's choice.
pub struct DiskScanState {
    running: bool,
    last_target: Option<String>,
    last_started_at: Option<u64>,
    last_finished_at: Option<u64>,
    progress: String,
    results: Vec<(String, u64)>,
    error: Option<String>,
}

impl View for DiskScanState {
    type V = ScanView;

    closed spec fn view(&self) -> ScanView {
        ScanView {
            running: self.running,
            last_target: text_of(self.last_target),
            last_started_at: self.last_started_at,
            last_finished_at: self.last_finished_at,
            progress: self.progress@,
            results: entries_of(self.results@),
            error: text_of(self.error),
        }
    }
}

impl DiskScanState {
    #[verifier::type_invariant]
    spec fn inv(&self) -> bool {
        self@.well_formed()
    }

    /// The state before any scan: nothing runs, nothing was measured.
    pub fn new() -> (state: DiskScanState)
        ensures
            state@ == ScanView::idle(),
            state@.well_formed(),
    {
        let state = DiskScanState {
            running: false,
            last_target: None,
            last_started_at: None,
            last_finished_at: None,
            progress: String::new(),
            results: Vec::new(),
            error: None,
        };
        assert(state@.results =~= Seq::empty());
        state
    }

    /// Begins a scan of `target` at time `now`, unless one is running.
    ///
    /// While a scan runs the call changes nothing and returns `false`.
    /// Otherwise the results and the error of the scan before are dropped,
    /// the state is marked as running, and the caller must set the one
    /// worker of this scan to work.
    pub fn start_scan(&mut self, target: String, now: u64) -> (started: bool)
        ensures
            started == !old(self)@.running,
            old(self)@.running ==> final(self)@ == old(self)@,
            !old(self)@.running ==> final(self)@ == ScanView::begun(target@, now),
            final(self)@.well_formed(),
    {
        proof {
            use_type_invariant(&*self);
        }
        if self.running {
            return false;
        }
        *self = DiskScanState {
            running: true,
            last_target: Some(target),
            last_started_at: Some(now),
            last_finished_at: None,
            progress: String::new(),
            results: Vec::new(),
            error: None,
        };
        assert(self@.results =~= Seq::empty());
        true
    }

    /// Ends the scan at time `now`: it no longer runs, and where it failed
    /// the state shows the failure's message. Results and progress stay.
    pub fn finish(&mut self, outcome: Result<(), ScanError>, now: u64)
        ensures
            final(self)@ == old(self)@.ended(
                match outcome {
                    Ok(_) => None,
                    Err(e) => Some(e.text()),
                },
                now,
            ),
            !final(self)@.running,
            final(self)@.well_formed(),
    {
        proof {
            use_type_invariant(&*self);
        }
        self.running = false;
        self.last_finished_at = Some(now);
        match outcome {
            Ok(_) => {},
            Err(e) => {
                self.error = Some(e.message());
            },
        }
    }

    /// A copy of the state as it is now.
    pub fn read_state(&self) -> (copy: DiskScanState)
        ensures
            copy@ == self@,
            copy@.well_formed(),
    {
        proof {
            use_type_invariant(self);
        }
        DiskScanState {
            running: self.running,
            last_target: copy_text(&self.last_target),
            last_started_at: self.last_started_at,
            last_finished_at: self.last_finished_at,
            progress: self.progress.clone(),
            results: copy_results(&self.results),
            error: copy_text(&self.error),
        }
    }

    /// Whether a scan runs.
    pub fn running(&self) -> (running: bool)
        ensures
            running == self@.running,
    {
        self.running
    }

    /// The target of the scan that began last.
    pub fn last_target(&self) -> (target: &Option<String>)
        ensures
            text_of(*target) == self@.last_target,
    {
        &self.last_target
    }

    /// When the scan that began last began.
    pub fn last_started_at(&self) -> (at: Option<u64>)
        ensures
            at == self@.last_started_at,
    {
        self.last_started_at
    }

    /// When the scan that began last ended, if it has.
    pub fn last_finished_at(&self) -> (at: Option<u64>)
        ensures
            at == self@.last_finished_at,
    {
        self.last_finished_at
    }

    /// The progress line.
    pub fn progress(&self) -> (line: &String)
        ensures
            line@ == self@.progress,
    {
        &self.progress
    }

    /// The directories measured so far: at most `MAX_RESULTS`, largest first.
    pub fn results(&self) -> (results: &Vec<(String, u64)>)
        ensures
            entries_of(results@) == self@.results,
            results@.len() <= MAX_RESULTS,
            in_rank_order(BySize, results@),
            self@.well_formed(),
    {
        proof {
            use_type_invariant(self);
            let r = self.results@;
            let e = entries_of(r);
            assert forall|i: int, j: int|
                #![trigger r[i], r[j]]
                0 <= i < j < r.len() implies !BySize.precedes(&r[j], &r[i]) by {
                assert(!BySize.precedes(&e[j], &e[i]));
            }
        }
        &self.results
    }

    /// The message of the failure of the last scan, if it failed.
    pub fn error(&self) -> (error: &Option<String>)
        ensures
            text_of(*error) == self@.error,
    {
        &self.error
    }
}

impl Default for DiskScanState {
    fn default() -> (state: DiskScanState)
        ensures
            state@ == ScanView::idle(),
    {
        DiskScanState::new()
    }
}

/// What a scan worker has decided and counted so far.
pub struct WorkerView {
    /// The directories to measure, in the order in which they were listed.
    pub children: Seq<Seq<char>>,
    /// How many of them are done.
    pub index: nat,
    /// Whether the directory at `index` is being walked.
    pub walking: bool,
    /// The directories that are done, with the bytes counted below each, in
    /// the order in which they were measured.
    pub measured: Seq<(Seq<char>, u64)>,
    /// The largest of them.
    pub results: Seq<(Seq<char>, u64)>,
    /// The files counted in this scan.
    pub total_seen: u64,
    /// The bytes counted below the directory that is being walked.
    pub size: u64,
    /// The files counted below the directory that is being walked.
    pub seen: u64,
}

impl WorkerView {
    /// The worker of a scan that has measured nothing yet.
    pub open spec fn initial(children: Seq<Seq<char>>) -> WorkerView {
        WorkerView {
            children,
            index: 0,
            walking: false,
            measured: Seq::empty(),
            results: Seq::empty(),
            total_seen: 0,
            size: 0,
            seen: 0,
        }
    }

    /// The counters stay below their caps, and the results are the first
    /// `MAX_RESULTS` of the measured directories by falling size, those of
    /// equal size in the order in which they were measured.
    pub open spec fn well_formed(self) -> bool {
        &&& self.index <= self.children.len()
        &&& (self.walking ==> self.index < self.children.len())
        &&& self.measured.len() == self.index
        &&& (forall|i: int|
            0 <= i < self.index ==> (#[trigger] self.measured[i]).0 == self.children[i])
        &&& self.results == top(ranked(BySize, self.measured), MAX_RESULTS as int)
        &&& self.results.len() <= MAX_RESULTS
        &&& in_rank_order(BySize, self.results)
        &&& self.seen <= CHILD_FILE_CAP
        &&& self.total_seen <= TOTAL_FILE_CAP
    }

    /// Whether the scan stopped at the file cap.
    pub open spec fn capped(self) -> bool {
        !self.walking && self.total_seen >= TOTAL_FILE_CAP
    }

    /// Whether another directory can be begun.
    pub open spec fn ready(self) -> bool {
        !self.walking && self.total_seen < TOTAL_FILE_CAP && self.index < self.children.len()
    }

    /// Whether the scan is over: every directory is done, or the file cap
    /// was reached.
    pub open spec fn done(self) -> bool {
        !self.walking && !self.ready()
    }

    /// Whether another file of the directory being walked is counted.
    pub open spec fn counting(self) -> bool {
        self.walking && self.seen < CHILD_FILE_CAP && self.total_seen < TOTAL_FILE_CAP
    }

    /// The worker after it began the directory at `index`.
    pub open spec fn after_begin(self) -> WorkerView {
        WorkerView { walking: true, size: 0, seen: 0, ..self }
    }

    /// The worker after it counted a file of `len` bytes, or of unknown
    /// length.
    pub open spec fn after_file(self, len: Option<u64>) -> WorkerView {
        WorkerView {
            size: match len {
                Some(n) => saturating_sum(self.size, n),
                None => self.size,
            },
            seen: (self.seen + 1) as u64,
            total_seen: (self.total_seen + 1) as u64,
            ..self
        }
    }

    /// The worker after it closed the walk of the directory at `index`.
    pub open spec fn after_end(self) -> WorkerView {
        WorkerView {
            index: self.index + 1,
            walking: false,
            measured: self.measured.push((self.children[self.index as int], self.size)),
            results: top(
                placed(BySize, self.results, (self.children[self.index as int], self.size)),
                MAX_RESULTS as int,
            ),
            ..self
        }
    }
}

/// To close a walk is to add the child behind the results, to sort them
/// all by falling size, entries of equal size in their order, and to keep
/// the first `MAX_RESULTS`. Nothing is lost by having cut the results
/// before: they are the first `MAX_RESULTS` of all directories measured so
/// far, and what is published is well formed again.
pub proof fn lemma_end_sorts_and_caps(worker: WorkerView)
    requires
        worker.well_formed(),
        worker.walking,
    ensures
        worker.after_end().results == top(
            ranked(
                BySize,
                worker.results.push((worker.children[worker.index as int], worker.size)),
            ),
            MAX_RESULTS as int,
        ),
        worker.after_end().results == top(
            ranked(BySize, worker.after_end().measured),
            MAX_RESULTS as int,
        ),
        worker.after_end().well_formed(),
        worker.after_end().results.len() <= MAX_RESULTS,
        in_rank_order(BySize, worker.after_end().results),
{
    let entry = (worker.children[worker.index as int], worker.size);
    lemma_ranked_push(BySize, worker.results, entry);
    lemma_placed_in_rank_order(BySize, worker.results, entry);
    lemma_top_in_rank_order(BySize, placed(BySize, worker.results, entry), MAX_RESULTS as int);
    lemma_top_ranked_push(BySize, worker.measured, entry, MAX_RESULTS as int);
    let after = worker.after_end();
    assert forall|i: int| 0 <= i < after.index implies (#[trigger] after.measured[i]).0
        == after.children[i] by {
        if i < worker.index {
            assert(after.measured[i] == worker.measured[i]);
        }
    }
}

/// Counting a file keeps the counters below their caps.
pub proof fn lemma_counting_stays_capped(worker: WorkerView, len: Option<u64>)
    requires
        worker.well_formed(),
        worker.counting(),
    ensures
        worker.after_file(len).well_formed(),
        worker.after_file(len).seen <= CHILD_FILE_CAP,
        worker.after_file(len).total_seen <= TOTAL_FILE_CAP,
{
}

/// The view of a list of paths.
pub open spec fn paths_of(paths: Seq<String>) -> Seq<Seq<char>> {
    paths.map_values(|p: String| p@)
}

/// The decisions of the worker of one scan.
///
/// The worker measures the child directories in turn. For each it calls
/// `begin_child`, then `record_file` for every file that its walk meets until
/// that returns `false` or the walk ends, then `end_child`. It is done when
/// `begin_child` returns `None`.
pub struct ScanWorker {
    children: Vec<String>,
    walking: bool,
    done: Done,
    total_seen: u64,
    size: u64,
    seen: u64,
}

/// The children that are done: how many, all of them with their sizes, and
/// the largest of them.
struct Done {
    count: usize,
    all: Ghost<Seq<(Seq<char>, u64)>>,
    largest: Vec<(String, u64)>,
}

impl View for ScanWorker {
    type V = WorkerView;

    closed spec fn view(&self) -> WorkerView {
        WorkerView {
            children: paths_of(self.children@),
            index: self.done.count as nat,
            walking: self.walking,
            measured: self.done.all@,
            results: entries_of(self.done.largest@),
            total_seen: self.total_seen,
            size: self.size,
            seen: self.seen,
        }
    }
}

/// The progress line while child number `index` of `count` is measured.
fn progress_line(index: usize, count: usize, child: &str) -> (line: String)
    ensures
        line@ == progress_text(index as nat, count as nat, child@),
{
    proof {
        reveal_strlit("/");
        reveal_strlit(": ");
    }
    let mut line = String::new();
    push_decimal(&mut line, index as u128);
    line.append("/");
    push_decimal(&mut line, count as u128);
    line.append(": ");
    line.append(child);
    assert(line@ =~= progress_text(index as nat, count as nat, child@));
    line
}

impl ScanWorker {
    #[verifier::type_invariant]
    spec fn inv(&self) -> bool {
        self@.well_formed()
    }

    /// Decides whether a scan of `target` can measure anything.
    ///
    /// `exists` says whether the target exists, `children` lists the
    /// directories directly below it. A target that does not exist and a
    /// target without such directories are the two failures of a scan.
    pub fn open(target: &str, exists: bool, children: Vec<String>) -> (worker: Result<
        ScanWorker,
        ScanError,
    >)
        ensures
            match worker {
                Ok(w) => exists && children@.len() > 0 && w@ == WorkerView::initial(
                    paths_of(children@),
                ) && w@.well_formed(),
                Err(ScanError::TargetNotFound(path)) => !exists && path@ == target@,
                Err(ScanError::NoChildren) => exists && children@.len() == 0,
            },
    {
        if !exists {
            return Err(ScanError::TargetNotFound(String::from_str(target)));
        }
        if children.len() == 0 {
            return Err(ScanError::NoChildren);
        }
        let largest: Vec<(String, u64)> = Vec::new();
        proof {
            let none = Seq::<(Seq<char>, u64)>::empty();
            assert(entries_of(largest@) =~= none);
            assert(top(ranked(BySize, none), MAX_RESULTS as int) =~= none);
        }
        Ok(
            ScanWorker {
                children,
                walking: false,
                done: Done { count: 0, all: Ghost(Seq::empty()), largest },
                total_seen: 0,
                size: 0,
                seen: 0,
            },
        )
    }

    /// Begins the next child directory, if there is one to begin.
    ///
    /// Where the worker is ready, the progress line of `state` names the
    /// child and its number, the counters of the walk start at zero, and the
    /// child's path is returned. Where a walk is under way or the scan is
    /// over, nothing changes and `None` is returned.
    pub fn begin_child(&mut self, state: &mut DiskScanState) -> (child: Option<String>)
        ensures
            old(self)@.ready() ==> child is Some && child->0@ == old(self)@.children[old(
                self,
            )@.index as int] && final(self)@ == old(self)@.after_begin() && final(state)@ == (
            ScanView {
                progress: progress_text(
                    old(self)@.index + 1,
                    old(self)@.children.len(),
                    old(self)@.children[old(self)@.index as int],
                ),
                ..old(state)@
            }),
            !old(self)@.ready() ==> child is None && final(self)@ == old(self)@ && final(state)@
                == old(state)@,
            final(self)@.well_formed(),
            final(state)@.well_formed(),
    {
        proof {
            use_type_invariant(&*self);
            use_type_invariant(&*state);
        }
        if self.walking || self.total_seen >= TOTAL_FILE_CAP || self.done.count
            >= self.children.len() {
            return None;
        }
        let child = self.children[self.done.count].clone();
        state.progress = progress_line(self.done.count + 1, self.children.len(), child.as_str());
        self.size = 0;
        self.seen = 0;
        self.walking = true;
        Some(child)
    }

    /// Counts one file met by the walk: `len` is its length, or `None` where
    /// the length could not be read.
    ///
    /// The file counts towards both caps whether or not its length is known.
    /// Returns whether the walk goes on: `false` once the child's cap or the
    /// scan's cap is reached. A file reported after that, or outside a walk,
    /// is not counted.
    pub fn record_file(&mut self, len: Option<u64>) -> (more: bool)
        ensures
            old(self)@.counting() ==> final(self)@ == old(self)@.after_file(len),
            !old(self)@.counting() ==> final(self)@ == old(self)@,
            more == final(self)@.counting(),
            final(self)@.well_formed(),
    {
        proof {
            use_type_invariant(&*self);
        }
        if !self.walking || self.seen >= CHILD_FILE_CAP || self.total_seen >= TOTAL_FILE_CAP {
            return false;
        }
        match len {
            Some(n) => {
                self.size = self.size.saturating_add(n);
            },
            None => {},
        }
        self.seen = self.seen + 1;
        self.total_seen = self.total_seen + 1;
        self.seen < CHILD_FILE_CAP && self.total_seen < TOTAL_FILE_CAP
    }

    /// Closes the walk of the child directory that was begun.
    ///
    /// The child enters the results with the bytes counted below it, behind
    /// every entry that is at least as large; the results keep their first
    /// `MAX_RESULTS` entries and are published in `state`. Where the scan's
    /// cap is reached, the scan is over and the progress line says so.
    /// Outside a walk nothing changes.
    pub fn end_child(&mut self, state: &mut DiskScanState)
        ensures
            old(self)@.walking ==> final(self)@ == old(self)@.after_end() && final(state)@ == (
            ScanView {
                results: old(self)@.after_end().results,
                progress: if old(self)@.after_end().capped() {
                    cap_text()
                } else {
                    old(state)@.progress
                },
                ..old(state)@
            }),
            !old(self)@.walking ==> final(self)@ == old(self)@ && final(state)@ == old(state)@,
            final(self)@.well_formed(),
            final(state)@.well_formed(),
    {
        proof {
            use_type_invariant(&*self);
            use_type_invariant(&*state);
        }
        if !self.walking {
            return ;
        }
        assert(self.done.count < self.children.len());
        let entry = (self.children[self.done.count].clone(), self.size);
        let count: usize = self.done.count + 1;
        let ghost all = self.done.all@.push((entry.0@, entry.1));
        proof {
            lemma_keep_top(self.done.largest@, entry);
            lemma_end_sorts_and_caps(self@);
        }
        let mut largest = copy_results(&self.done.largest);
        place(&BySize, &mut largest, entry);
        largest.truncate(MAX_RESULTS);
        assert(largest@ =~= top(placed(BySize, self.done.largest@, entry), MAX_RESULTS as int));
        state.results = copy_results(&largest);
        if self.total_seen >= TOTAL_FILE_CAP {
            state.progress = String::from_str("Reached scan cap (kept it lightweight).");
        }
        self.walking = false;
        self.done = Done { count, all: Ghost(all), largest };
    }

    /// Whether the scan is over.
    pub fn is_done(&self) -> (done: bool)
        ensures
            done == self@.done(),
    {
        !self.walking && (self.total_seen >= TOTAL_FILE_CAP || self.done.count
            >= self.children.len())
    }

    /// The largest of the directories measured so far: the first
    /// `MAX_RESULTS` of them by falling size.
    pub fn results(&self) -> (results: &Vec<(String, u64)>)
        ensures
            entries_of(results@) == self@.results,
            self@.results == top(ranked(BySize, self@.measured), MAX_RESULTS as int),
            self@.well_formed(),
    {
        proof {
            use_type_invariant(self);
        }
        &self.done.largest
    }

    /// The files counted in this scan.
    pub fn total_seen(&self) -> (total: u64)
        ensures
            total == self@.total_seen,
    {
        self.total_seen
    }
}

} // verus!
