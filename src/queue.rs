//! Bounded FIFO of accepted connections: a ring buffer that hands
//! connections from the acceptor to the dispatcher.
use vstd::prelude::*;

verus! {

/// A ring buffer of at most `max` items.
pub struct Queue<T> {
    max: usize,
    len: usize,
    first: usize,
    data: Vec<Option<T>>,
}

impl<T> Queue<T> {
    /// The slot of the `i`-th item from the front.
    pub closed spec fn slot(&self, i: int) -> int {
        (self.first + i) % (self.max as int)
    }

    /// The ring is consistent: the `len` slots from `first` on are filled,
    /// the others are empty.
    pub closed spec fn wf(&self) -> bool {
        &&& self.max >= 1
        &&& self.data@.len() == self.max
        &&& self.len <= self.max
        &&& self.first < self.max
        &&& forall|k: int|
            0 <= k < self.max ==> (#[trigger] self.data@[k] is Some <==> (exists|i: int|
                0 <= i < self.len && self.slot(i) == k))
    }

    /// The queued items, front first.
    pub closed spec fn view(&self) -> Seq<T> {
        Seq::new(self.len as nat, |i: int| self.data@[self.slot(i)]->Some_0)
    }

    pub closed spec fn capacity(&self) -> nat {
        self.max as nat
    }

    /// An empty queue that holds at most `max` items.
    pub fn new(max: usize) -> (r: Queue<T>)
        requires
            max >= 1,
        ensures
            r.wf(),
            r@.len() == 0,
            r.capacity() == max,
    {
        let mut data: Vec<Option<T>> = Vec::with_capacity(max);
        let mut i: usize = 0;
        while i < max
            invariant
                i <= max,
                data@.len() == i,
                forall|k: int| 0 <= k < i ==> #[trigger] data@[k] is None,
            decreases max - i,
        {
            data.push(None);
            i += 1;
        }
        Queue { max, len: 0, first: 0, data }
    }

    /// `true` when nothing is queued.
    pub fn empty(&self) -> (r: bool)
        requires
            self.wf(),
        ensures
            r == (self@.len() == 0),
    {
        self.len == 0
    }

    /// Appends `tcp` at the back; when the queue is full it is handed back
    /// and the queue is unchanged.
    pub fn push(&mut self, tcp: T) -> (r: Option<T>)
        requires
            old(self).wf(),
        ensures
            final(self).wf(),
            final(self).capacity() == old(self).capacity(),
            old(self)@.len() == old(self).capacity() ==> r == Some(tcp) && final(self)@ == old(
                self,
            )@,
            old(self)@.len() < old(self).capacity() ==> r.is_none() && final(self)@ == old(
                self,
            )@.push(tcp),
    {
        if self.len == self.max {
            return Some(tcp);
        }
        let ghost old_q = *self;
        let pos: usize = if self.first < self.max - self.len {
            self.first + self.len
        } else {
            self.len - (self.max - self.first)
        };
        assert(pos as int == self.slot(self.len as int)) by (nonlinear_arith)
            requires
                pos as int == (if self.first < self.max - self.len {
                    self.first + self.len
                } else {
                    self.len - (self.max - self.first)
                }),
                self.first < self.max,
                self.len < self.max,
        {
            let m = self.max as int;
            let s = self.first + self.len;
            assert(0 <= s < 2 * m);
            if s >= m {
                assert((s - m) % m == s % m);
            }
        }
        self.data.set(pos, Some(tcp));
        self.len = self.len + 1;
        assert forall|k: int| 0 <= k < self.max implies (#[trigger] self.data@[k] is Some <==> (
        exists|i: int| 0 <= i < self.len && self.slot(i) == k)) by {
            if k == pos {
                assert(self.slot(old_q.len as int) == k);
            } else {
                if old_q.data@[k] is Some {
                    let i = choose|i: int| 0 <= i < old_q.len && old_q.slot(i) == k;
                    assert(self.slot(i) == k);
                }
                if exists|i: int| 0 <= i < self.len && self.slot(i) == k {
                    let i = choose|i: int| 0 <= i < self.len && self.slot(i) == k;
                    assert(i != old_q.len);
                    assert(old_q.slot(i) == k);
                }
            }
        }
        assert forall|i: int| 0 <= i < old_q.len implies self.slot(i) != pos by {
            lemma_slots_distinct(self.first as int, self.max as int, i, old_q.len as int);
        }
        assert(self@ =~= old_q@.push(tcp));
        None
    }

    /// Removes and returns the front item; `None` when the queue is empty.
    pub fn take(&mut self) -> (r: Option<T>)
        requires
            old(self).wf(),
        ensures
            final(self).wf(),
            final(self).capacity() == old(self).capacity(),
            old(self)@.len() == 0 ==> r.is_none() && final(self)@ == old(self)@,
            old(self)@.len() > 0 ==> r == Some(old(self)@[0]) && final(self)@ == old(
                self,
            )@.skip(1),
    {
        if self.len == 0 {
            return None;
        }
        let ghost old_q = *self;
        let f = self.first;
        proof {
            vstd::arithmetic::div_mod::lemma_small_mod(f as nat, self.max as nat);
        }
        assert(self.slot(0) == f);
        let mut v: Option<T> = None;
        self.data.set_and_swap(f, &mut v);
        self.len = self.len - 1;
        self.first = if f + 1 == self.max { 0 } else { f + 1 };
        proof {
            assert forall|i: int| 0 <= i < self.len implies self.slot(i) == old_q.slot(i + 1) by {
                lemma_slot_shift(old_q.first as int, self.max as int, i);
            }
            assert forall|k: int| 0 <= k < self.max implies (#[trigger] self.data@[k] is Some <==> (
            exists|i: int| 0 <= i < self.len && self.slot(i) == k)) by {
                if k == f {
                    if exists|i: int| 0 <= i < self.len && self.slot(i) == k {
                        let i = choose|i: int| 0 <= i < self.len && self.slot(i) == k;
                        lemma_slots_distinct(old_q.first as int, self.max as int, 0, i + 1);
                    }
                } else {
                    if old_q.data@[k] is Some {
                        let i = choose|i: int| 0 <= i < old_q.len && old_q.slot(i) == k;
                        assert(i != 0);
                        assert(self.slot(i - 1) == k);
                    }
                }
            }
            assert(self@ =~= old_q@.skip(1));
        }
        v
    }
}

proof fn lemma_slots_distinct(first: int, m: int, i: int, j: int)
    requires
        0 <= first < m,
        0 <= i < j < m,
    ensures
        (first + i) % m != (first + j) % m,
{
    assert((first + i) % m != (first + j) % m) by (nonlinear_arith)
        requires
            0 <= first < m,
            0 <= i < j < m,
    {
        let a = first + i;
        let b = first + j;
        assert(0 <= a < 2 * m && 0 <= b < 2 * m);
        if a >= m {
            assert(a % m == a - m);
        } else {
            assert(a % m == a);
        }
        if b >= m {
            assert(b % m == b - m);
        } else {
            assert(b % m == b);
        }
    }
}

proof fn lemma_slot_shift(first: int, m: int, i: int)
    requires
        0 <= first < m,
        0 <= i,
        i + 1 < m,
    ensures
        ((if first + 1 == m { 0 } else { first + 1 }) + i) % m == (first + i + 1) % m,
{
    if first + 1 == m {
        assert((first + i + 1) % m == i % m) by (nonlinear_arith)
            requires
                first + 1 == m,
                0 <= i,
        {
            assert(first + i + 1 == i + m);
        }
    }
}

} // verus!
