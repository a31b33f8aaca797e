//! The two process-wide bounded histories: outcome-trend scores and state
//! traces. Both are append-only with the oldest entry evicted on overflow.
use vstd::prelude::*;

verus! {

use crate::state::ExtendedBits;

/// Capacity of the outcome-trend history.
pub const OUTCOME_CAP: usize = 200;

/// Capacity of the state-trace history.
pub const TRACE_CAP: usize = 100;

/// The suffix of `s` holding its `cap` most recent elements (all of `s`
/// when it is short enough).
pub open spec fn recent<T>(s: Seq<T>, cap: int) -> Seq<T> {
    if s.len() <= cap {
        s
    } else {
        s.skip(s.len() - cap)
    }
}

/// Append-only bounded sequence of trust scores; the oldest entry is
/// evicted once the capacity is exceeded. The ghost `appended` field
/// records everything ever appended, so that the buffer is provably the
/// most recent tail of it.
pub struct OutcomeHistory {
    vals: Vec<u32>,
    appended: Ghost<Seq<u32>>,
}

impl OutcomeHistory {
    /// The buffer holds exactly the most recent appended values.
    pub closed spec fn wf(self) -> bool {
        self.vals@ == recent(self.appended@, OUTCOME_CAP as int)
    }

    /// Everything ever appended, in arrival order.
    pub closed spec fn appended(self) -> Seq<u32> {
        self.appended@
    }

    /// The buffer's current contents, in arrival order.
    pub closed spec fn view(self) -> Seq<u32> {
        self.vals@
    }

    pub fn new() -> (h: Self)
        ensures
            h.wf(),
            h.appended() == Seq::<u32>::empty(),
            h@ == Seq::<u32>::empty(),
    {
        OutcomeHistory { vals: Vec::new(), appended: Ghost(Seq::empty()) }
    }

    /// Read access to the buffered scores.
    pub fn scores(&self) -> (v: &Vec<u32>)
        ensures
            v@ == self@,
    {
        &self.vals
    }

    /// Appends one score, evicting the oldest if the capacity is exceeded.
    pub fn push(&mut self, v: u32)
        requires
            old(self).wf(),
        ensures
            final(self).wf(),
            final(self).appended() == old(self).appended().push(v),
            final(self)@ == recent(old(self)@.push(v), OUTCOME_CAP as int),
    {
        self.vals.push(v);
        proof {
            self.appended@ = self.appended@.push(v);
        }
        if self.vals.len() > OUTCOME_CAP {
            self.vals.remove(0);
        }
        proof {
            lemma_recent_push(old(self).appended@, v, OUTCOME_CAP as int);
            assert(self.vals@ =~= recent(self.appended@, OUTCOME_CAP as int));
            assert(final(self)@ =~= recent(old(self)@.push(v), OUTCOME_CAP as int));
        }
    }
}

/// Append-only bounded sequence of state vectors; the oldest entry is
/// evicted once the capacity is exceeded.
pub struct TraceHistory {
    vals: Vec<ExtendedBits>,
    appended: Ghost<Seq<ExtendedBits>>,
}

impl TraceHistory {
    /// The buffer holds exactly the most recent appended vectors.
    pub closed spec fn wf(self) -> bool {
        self.vals@ == recent(self.appended@, TRACE_CAP as int)
    }

    /// Everything ever appended, in arrival order.
    pub closed spec fn appended(self) -> Seq<ExtendedBits> {
        self.appended@
    }

    /// The buffer's current contents, in arrival order.
    pub closed spec fn view(self) -> Seq<ExtendedBits> {
        self.vals@
    }

    pub fn new() -> (h: Self)
        ensures
            h.wf(),
            h.appended() == Seq::<ExtendedBits>::empty(),
            h@ == Seq::<ExtendedBits>::empty(),
    {
        TraceHistory { vals: Vec::new(), appended: Ghost(Seq::empty()) }
    }

    /// Read access to the buffered state vectors.
    pub fn traces(&self) -> (v: &Vec<ExtendedBits>)
        ensures
            v@ == self@,
    {
        &self.vals
    }

    /// Appends one state vector, evicting the oldest if the capacity is
    /// exceeded.
    pub fn push(&mut self, b: ExtendedBits)
        requires
            old(self).wf(),
        ensures
            final(self).wf(),
            final(self).appended() == old(self).appended().push(b),
            final(self)@ == recent(old(self)@.push(b), TRACE_CAP as int),
    {
        self.vals.push(b);
        proof {
            self.appended@ = self.appended@.push(b);
        }
        if self.vals.len() > TRACE_CAP {
            self.vals.remove(0);
        }
        proof {
            lemma_recent_push(old(self).appended@, b, TRACE_CAP as int);
            assert(self.vals@ =~= recent(self.appended@, TRACE_CAP as int));
            assert(final(self)@ =~= recent(old(self)@.push(b), TRACE_CAP as int));
        }
    }
}

/// Appending to a bounded buffer keeps exactly the most recent tail: the
/// recent window of `s.push(v)` is the recent window of `s` with `v`
/// appended, trimmed at the front to the capacity.
proof fn lemma_recent_push<T>(s: Seq<T>, v: T, cap: int)
    requires
        cap >= 1,
    ensures
        recent(s.push(v), cap) == if recent(s, cap).len() < cap {
            recent(s, cap).push(v)
        } else {
            recent(s, cap).push(v).skip(1)
        },
{
    if s.len() < cap {
        assert(recent(s.push(v), cap) =~= recent(s, cap).push(v));
    } else {
        assert(recent(s.push(v), cap) =~= recent(s, cap).push(v).skip(1));
    }
}

/// The outcome history always holds the most recent appended scores, in
/// arrival order: at most the capacity, everything while short, and the
/// exact trailing window of all appends once full.
pub proof fn lemma_outcome_history_recent(h: OutcomeHistory)
    requires
        h.wf(),
    ensures
        h@.len() <= OUTCOME_CAP,
        h.appended().len() <= OUTCOME_CAP ==> h@ == h.appended(),
        h.appended().len() > OUTCOME_CAP ==> h@.len() == OUTCOME_CAP && forall|i: int|
            0 <= i < OUTCOME_CAP ==> h@[i] == h.appended()[h.appended().len() - OUTCOME_CAP + i],
{
}

/// The trace history always holds the most recent appended state vectors,
/// in arrival order.
pub proof fn lemma_trace_history_recent(h: TraceHistory)
    requires
        h.wf(),
    ensures
        h@.len() <= TRACE_CAP,
        h.appended().len() <= TRACE_CAP ==> h@ == h.appended(),
        h.appended().len() > TRACE_CAP ==> h@.len() == TRACE_CAP && forall|i: int|
            0 <= i < TRACE_CAP ==> h@[i] == h.appended()[h.appended().len() - TRACE_CAP + i],
{
}

} // verus!
