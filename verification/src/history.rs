//! Rolling histories of samples, and the direction in which a history moves.

use vstd::prelude::*;
use vstd::string::*;
use std::collections::VecDeque;

verus! {

/// How many samples a history keeps.
pub const HISTORY_CAPACITY: usize = 120;

/// How many samples back the newest sample is compared with.
pub const TREND_SPAN: usize = 5;

/// How many samples a history must hold before its direction is named.
pub const TREND_MIN_SAMPLES: usize = 4;

/// The newest `n` samples of `s`, or all of `s` where it holds fewer.
pub open spec fn newest(s: Seq<u64>, n: nat) -> Seq<u64> {
    if s.len() <= n {
        s
    } else {
        s.skip(s.len() - n)
    }
}

/// `s` after `values` were recorded one by one, each into a history of at
/// most `HISTORY_CAPACITY` samples.
pub open spec fn recorded(s: Seq<u64>, values: Seq<u64>) -> Seq<u64>
    decreases values.len(),
{
    if values.len() == 0 {
        s
    } else {
        newest(recorded(s, values.drop_last()).push(values.last()), HISTORY_CAPACITY as nat)
    }
}

/// Recording any number of samples keeps exactly the newest
/// `HISTORY_CAPACITY` of all samples, in the order in which they came: none
/// is lost while they fit, and the oldest leave first once they do not.
pub proof fn lemma_recorded_keeps_newest(s: Seq<u64>, values: Seq<u64>)
    requires
        s.len() <= HISTORY_CAPACITY,
    ensures
        recorded(s, values) == newest(s + values, HISTORY_CAPACITY as nat),
        recorded(s, values).len() <= HISTORY_CAPACITY,
        s.len() + values.len() <= HISTORY_CAPACITY ==> recorded(s, values) == s + values,
        s.len() + values.len() >= HISTORY_CAPACITY ==> recorded(s, values).len()
            == HISTORY_CAPACITY,
    decreases values.len(),
{
    if values.len() == 0 {
        assert(s + values =~= s);
    } else {
        let front = values.drop_last();
        lemma_recorded_keeps_newest(s, front);
        assert((s + front).push(values.last()) =~= s + values);
        assert(recorded(s, values) =~= newest(s + values, HISTORY_CAPACITY as nat));
    }
}

/// The direction in which a history moves.
#[derive(Clone, Copy, Debug, PartialEq, Eq, Structural)]
pub enum Trend {
    /// Too few samples to tell.
    WarmingUp,
    /// The newest sample is above the one it is compared with.
    Increasing,
    /// The newest sample is below the one it is compared with.
    Decreasing,
    /// The two samples are equal.
    Stable,
}

/// The position of the sample that the newest sample of a history of `len`
/// samples is compared with: `TREND_SPAN` samples back, or the oldest
/// sample where the history is shorter.
pub open spec fn reference_index(len: nat) -> int {
    if len > TREND_SPAN {
        len - 1 - TREND_SPAN
    } else {
        0
    }
}

/// The direction of `s`: unknown below `TREND_MIN_SAMPLES` samples, else
/// that of the newest sample against the reference sample.
pub open spec fn trend_of(s: Seq<u64>) -> Trend {
    if s.len() < TREND_MIN_SAMPLES {
        Trend::WarmingUp
    } else if s.last() > s[reference_index(s.len())] {
        Trend::Increasing
    } else if s.last() < s[reference_index(s.len())] {
        Trend::Decreasing
    } else {
        Trend::Stable
    }
}

/// Whether `s` is rising: it holds more than `TREND_SPAN` samples, and the
/// newest is above zero and above the sample `TREND_SPAN` back.
pub open spec fn rising(s: Seq<u64>) -> bool {
    s.len() > TREND_SPAN && s.last() > s[s.len() - 1 - TREND_SPAN] && s.last() > 0
}

/// A history that rises has the direction `Increasing`.
pub proof fn lemma_rising_is_increasing(s: Seq<u64>)
    ensures
        rising(s) ==> trend_of(s) == Trend::Increasing,
        s.len() > TREND_SPAN ==> (rising(s) <==> trend_of(s) == Trend::Increasing),
{
}

/// A history of equal samples is stable once it is long enough.
pub proof fn lemma_constant_is_stable(s: Seq<u64>)
    requires
        s.len() >= TREND_MIN_SAMPLES,
        forall|i: int, j: int| 0 <= i < s.len() && 0 <= j < s.len() ==> s[i] == s[j],
    ensures
        trend_of(s) == Trend::Stable,
{
}

impl Trend {
    /// The words for this direction.
    pub open spec fn text(self) -> Seq<char> {
        match self {
            Trend::WarmingUp => "warming up"@,
            Trend::Increasing => "increasing"@,
            Trend::Decreasing => "decreasing"@,
            Trend::Stable => "stable"@,
        }
    }

    /// The words for this direction.
    pub fn label(self) -> (label: &'static str)
        ensures
            label@ == self.text(),
    {
        match self {
            Trend::WarmingUp => "warming up",
            Trend::Increasing => "increasing",
            Trend::Decreasing => "decreasing",
            Trend::Stable => "stable",
        }
    }
}

/// The newest samples of one metric, oldest first, at most
/// `HISTORY_CAPACITY` of them.
pub struct History {
    samples: VecDeque<u64>,
}

impl View for History {
    type V = Seq<u64>;

    closed spec fn view(&self) -> Seq<u64> {
        self.samples@
    }
}

impl History {
    #[verifier::type_invariant]
    spec fn inv(&self) -> bool {
        self.samples@.len() <= HISTORY_CAPACITY
    }

    /// A history without samples.
    pub fn new() -> (history: History)
        ensures
            history@ == Seq::<u64>::empty(),
    {
        History { samples: VecDeque::new() }
    }

    /// Records `value` as the newest sample. A full history loses its oldest
    /// sample for it.
    pub fn push(&mut self, value: u64)
        ensures
            final(self)@ == newest(old(self)@.push(value), HISTORY_CAPACITY as nat),
            final(self)@ == recorded(old(self)@, seq![value]),
            final(self)@.len() <= HISTORY_CAPACITY,
            old(self)@.len() < HISTORY_CAPACITY ==> final(self)@ == old(self)@.push(value),
            old(self)@.len() == HISTORY_CAPACITY ==> final(self)@ == old(self)@.drop_first().push(
                value,
            ),
    {
        proof {
            use_type_invariant(&*self);
            assert(seq![value].drop_last() =~= Seq::<u64>::empty());
            assert(recorded(old(self)@, Seq::<u64>::empty()) == old(self)@);
        }
        let mut samples = VecDeque::new();
        std::mem::swap(&mut samples, &mut self.samples);
        if samples.len() >= HISTORY_CAPACITY {
            let _ = samples.pop_front();
        }
        samples.push_back(value);
        assert(samples@ =~= newest(old(self)@.push(value), HISTORY_CAPACITY as nat));
        self.samples = samples;
    }

    /// How many samples the history holds.
    pub fn len(&self) -> (len: usize)
        ensures
            len == self@.len(),
            len <= HISTORY_CAPACITY,
    {
        proof {
            use_type_invariant(self);
        }
        self.samples.len()
    }

    /// The sample at `index`, counted from the oldest, if there is one.
    pub fn get(&self, index: usize) -> (sample: Option<u64>)
        ensures
            index < self@.len() ==> sample == Some(self@[index as int]),
            index >= self@.len() ==> sample is None,
    {
        if index < self.samples.len() {
            Some(self.samples[index])
        } else {
            None
        }
    }

    /// The samples, oldest first.
    pub fn samples(&self) -> (samples: Vec<u64>)
        ensures
            samples@ == self@,
            samples@.len() <= HISTORY_CAPACITY,
    {
        proof {
            use_type_invariant(self);
        }
        let mut out: Vec<u64> = Vec::new();
        let mut i: usize = 0;
        while i < self.samples.len()
            invariant
                i <= self.samples@.len(),
                out@ == self.samples@.take(i as int),
            decreases self.samples@.len() - i,
        {
            out.push(self.samples[i]);
            assert(out@ =~= self.samples@.take(i + 1));
            i += 1;
        }
        assert(self.samples@.take(i as int) =~= self.samples@);
        out
    }

    /// Whether the history is rising.
    pub fn is_rising(&self) -> (rising: bool)
        ensures
            rising == self::rising(self@),
    {
        let len = self.samples.len();
        if len > TREND_SPAN {
            let newest = self.samples[len - 1];
            let older = self.samples[len - 1 - TREND_SPAN];
            newest > older && newest > 0
        } else {
            false
        }
    }

    /// The direction in which the history moves.
    pub fn trend(&self) -> (trend: Trend)
        ensures
            trend == trend_of(self@),
    {
        let len = self.samples.len();
        if len < TREND_MIN_SAMPLES {
            return Trend::WarmingUp;
        }
        let newest = self.samples[len - 1];
        let older = if len > TREND_SPAN {
            self.samples[len - 1 - TREND_SPAN]
        } else {
            self.samples[0]
        };
        if newest > older {
            Trend::Increasing
        } else if newest < older {
            Trend::Decreasing
        } else {
            Trend::Stable
        }
    }
}

impl Default for History {
    fn default() -> (history: History)
        ensures
            history@ == Seq::<u64>::empty(),
    {
        History::new()
    }
}

} // verus!
