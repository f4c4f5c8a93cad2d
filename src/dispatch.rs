//! Hand-off of accepted connections to a fixed set of workers: the first
//! idle worker by index takes the next connection.
use vstd::prelude::*;

verus! {

/// Number of `true` entries.
pub open spec fn busy_count(s: Seq<bool>) -> nat
    decreases s.len(),
{
    if s.len() == 0 {
        0
    } else {
        busy_count(s.drop_last()) + if s.last() {
            1nat
        } else {
            0nat
        }
    }
}

/// Index of the first `false` entry, if any.
pub open spec fn first_idle(s: Seq<bool>) -> Option<int> {
    if exists|i: int| 0 <= i < s.len() && !s[i] {
        Some(choose|i: int| 0 <= i < s.len() && !s[i] && forall|j: int| 0 <= j < i ==> s[j])
    } else {
        None
    }
}

proof fn lemma_count_bound(s: Seq<bool>)
    ensures
        busy_count(s) <= s.len(),
        busy_count(s) == s.len() <==> forall|i: int| 0 <= i < s.len() ==> s[i],
    decreases s.len(),
{
    if s.len() > 0 {
        lemma_count_bound(s.drop_last());
        if busy_count(s) == s.len() {
            assert forall|i: int| 0 <= i < s.len() implies s[i] by {
                if i < s.len() - 1 {
                    assert(s.drop_last()[i] == s[i]);
                }
            }
        }
        if forall|i: int| 0 <= i < s.len() ==> s[i] {
            assert forall|i: int| 0 <= i < s.drop_last().len() implies s.drop_last()[i] by {
                assert(s[i]);
            }
        }
    }
}

proof fn lemma_count_update(s: Seq<bool>, i: int, v: bool)
    requires
        0 <= i < s.len(),
    ensures
        busy_count(s.update(i, v)) + (if s[i] { 1nat } else { 0nat }) == busy_count(s) + (if v {
            1nat
        } else {
            0nat
        }),
    decreases s.len(),
{
    let t = s.update(i, v);
    if i == s.len() - 1 {
        assert(t.drop_last() =~= s.drop_last());
    } else {
        lemma_count_update(s.drop_last(), i, v);
        assert(t.drop_last() =~= s.drop_last().update(i, v));
    }
}

proof fn lemma_first_idle(s: Seq<bool>, k: int)
    requires
        0 <= k <= s.len(),
        forall|j: int| 0 <= j < k ==> s[j],
        k < s.len() ==> !s[k],
    ensures
        k < s.len() ==> first_idle(s) == Some(k),
        k == s.len() ==> first_idle(s) is None,
{
    if k < s.len() {
        let c = choose|i: int| 0 <= i < s.len() && !s[i] && forall|j: int| 0 <= j < i ==> s[j];
        assert(0 <= c < s.len() && !s[c] && forall|j: int| 0 <= j < c ==> s[j]);
        if c < k {
            assert(s[c]);
        }
        if c > k {
            assert(s[k]);
        }
    }
}

/// The busy flags of the workers and the number of connections handed out.
pub struct Pool {
    busy: Vec<bool>,
    in_flight: usize,
}

impl Pool {
    pub closed spec fn wf(&self) -> bool {
        &&& self.busy@.len() >= 1
        &&& self.in_flight == busy_count(self.busy@)
    }

    /// Busy flag of each worker, by index.
    pub closed spec fn view(&self) -> Seq<bool> {
        self.busy@
    }

    pub closed spec fn spec_in_flight(&self) -> nat {
        self.in_flight as nat
    }

    /// `max_workers` idle workers.
    pub fn new(max_workers: usize) -> (r: Pool)
        requires
            max_workers >= 1,
        ensures
            r.wf(),
            r@ == Seq::new(max_workers as nat, |i: int| false),
            r.spec_in_flight() == 0,
    {
        let mut busy: Vec<bool> = Vec::with_capacity(max_workers);
        let mut i: usize = 0;
        while i < max_workers
            invariant
                i <= max_workers,
                busy@ == Seq::new(i as nat, |k: int| false),
            decreases max_workers - i,
        {
            proof {
                assert(busy@.push(false).drop_last() =~= busy@);
            }
            busy.push(false);
            i += 1;
            assert(busy@ =~= Seq::new(i as nat, |k: int| false));
        }
        proof {
            lemma_zero_count(busy@);
        }
        Pool { busy, in_flight: 0 }
    }

    /// Number of connections handed out and not yet released.
    pub fn in_flight(&self) -> (r: usize)
        requires
            self.wf(),
        ensures
            r == self.spec_in_flight(),
            r == busy_count(self@),
    {
        self.in_flight
    }

    /// Marks the first idle worker busy and returns its index; `None` when
    /// every worker is busy.
    pub fn dispatch(&mut self) -> (r: Option<usize>)
        requires
            old(self).wf(),
        ensures
            final(self).wf(),
            match first_idle(old(self)@) {
                None => r.is_none() && final(self)@ == old(self)@ && final(self).spec_in_flight()
                    == old(self).spec_in_flight(),
                Some(i) => r == Some(i as usize) && !old(self)@[i] && final(self)@ == old(
                    self,
                )@.update(i, true) && final(self).spec_in_flight() == old(self).spec_in_flight() + 1,
            },
    {
        let n = self.busy.len();
        let mut i: usize = 0;
        while i < n
            invariant
                n == self.busy@.len(),
                i <= n,
                *self == *old(self),
                self.wf(),
                forall|j: int| 0 <= j < i ==> self.busy@[j],
            decreases n - i,
        {
            if !self.busy[i] {
                proof {
                    lemma_first_idle(self.busy@, i as int);
                    lemma_count_update(self.busy@, i as int, true);
                    lemma_count_bound(self.busy@.update(i as int, true));
                }
                self.busy.set(i, true);
                self.in_flight = self.in_flight + 1;
                return Some(i);
            }
            i += 1;
        }
        proof {
            lemma_first_idle(self.busy@, n as int);
        }
        None
    }

    /// Whether worker `w` holds a connection.
    pub fn is_busy(&self, w: usize) -> (r: bool)
        requires
            self.wf(),
        ensures
            r == (w < self@.len() && self@[w as int]),
    {
        w < self.busy.len() && self.busy[w]
    }

    /// Marks worker `w` idle again after its connection is done.
    pub fn release(&mut self, w: usize)
        requires
            old(self).wf(),
            w < old(self)@.len(),
            old(self)@[w as int],
        ensures
            final(self).wf(),
            final(self)@ == old(self)@.update(w as int, false),
            final(self).spec_in_flight() + 1 == old(self).spec_in_flight(),
    {
        proof {
            lemma_count_update(self.busy@, w as int, false);
        }
        self.busy.set(w, false);
        self.in_flight = self.in_flight - 1;
    }
}

proof fn lemma_zero_count(s: Seq<bool>)
    requires
        forall|i: int| 0 <= i < s.len() ==> !s[i],
    ensures
        busy_count(s) == 0,
    decreases s.len(),
{
    if s.len() > 0 {
        lemma_zero_count(s.drop_last());
    }
}

/// The number of connections in flight never exceeds the number of
/// workers, and while it is below, some worker is idle.
pub proof fn lemma_in_flight_bounded(p: &Pool)
    requires
        p.wf(),
    ensures
        p.spec_in_flight() <= p@.len(),
        p.spec_in_flight() < p@.len() <==> first_idle(p@) is Some,
{
    lemma_count_bound(p.busy@);
    if p.spec_in_flight() < p@.len() {
        let k = choose|k: int| 0 <= k < p.busy@.len() && !p.busy@[k];
        assert(exists|i: int| 0 <= i < p@.len() && !p@[i]);
    }
}

} // verus!
