//! The process-wide cache: byte-string keys to tagged values. Readers get
//! deep copies; the map is never evicted, only cleared or pruned by prefix.
use vstd::prelude::*;
use crate::data::{Data, Value, cached};
use crate::text::{bytes_eq, starts_with};

verus! {

/// The map that a list of entries stands for: a later entry for a key
/// replaces an earlier one.
pub open spec fn to_map(s: Seq<(Seq<u8>, Value)>) -> Map<Seq<u8>, Value>
    decreases s.len(),
{
    if s.len() == 0 {
        Map::empty()
    } else {
        to_map(s.drop_last()).insert(s.last().0, s.last().1)
    }
}

/// The entries of `s` whose key does not start with `prefix`.
pub open spec fn keep_unprefixed(s: Seq<(Seq<u8>, Value)>, prefix: Seq<u8>) -> Seq<(Seq<u8>, Value)>
    decreases s.len(),
{
    if s.len() == 0 {
        s
    } else {
        let rest = keep_unprefixed(s.drop_last(), prefix);
        if prefix.is_prefix_of(s.last().0) {
            rest
        } else {
            rest.push(s.last())
        }
    }
}

proof fn lemma_keep_unprefixed(s: Seq<(Seq<u8>, Value)>, prefix: Seq<u8>)
    ensures
        to_map(keep_unprefixed(s, prefix)) =~= to_map(s).restrict(
            to_map(s).dom().filter(|k: Seq<u8>| !prefix.is_prefix_of(k)),
        ),
    decreases s.len(),
{
    if s.len() > 0 {
        lemma_keep_unprefixed(s.drop_last(), prefix);
        let rest = keep_unprefixed(s.drop_last(), prefix);
        if !prefix.is_prefix_of(s.last().0) {
            assert(rest.push(s.last()).drop_last() =~= rest);
        }
    }
}

/// The cache's store.
pub struct Storage {
    data: Vec<(Vec<u8>, Data)>,
}

impl Storage {
    pub closed spec fn entries(&self) -> Seq<(Seq<u8>, Value)> {
        self.data@.map_values(|e: (Vec<u8>, Data)| (e.0@, e.1.view()))
    }

    /// Key to stored value.
    pub closed spec fn view(&self) -> Map<Seq<u8>, Value> {
        to_map(self.entries())
    }

    pub fn new() -> (r: Storage)
        ensures
            r@ == Map::<Seq<u8>, Value>::empty(),
    {
        let r = Storage { data: Vec::new() };
        assert(r.entries() =~= Seq::<(Seq<u8>, Value)>::empty());
        r
    }

    /// Stores `value` under `key`, replacing what was there.
    pub fn set(&mut self, key: Vec<u8>, value: Data)
        ensures
            final(self)@ == old(self)@.insert(key@, value.view()),
    {
        let ghost before = self.entries();
        self.data.push((key, value));
        assert(self.entries().drop_last() =~= before);
    }

    /// A copy of the value under `key` (language lists become `Null`).
    pub fn get(&self, key: &[u8]) -> (r: Option<Data>)
        ensures
            match self@.get(key@) {
                None => r.is_none(),
                Some(v) => r.is_some() && r.unwrap().view() == cached(v),
            },
    {
        let mut j = self.data.len();
        assert(self.entries().take(j as int) =~= self.entries());
        while j > 0
            invariant
                j <= self.data@.len(),
                self@.get(key@) == to_map(self.entries().take(j as int)).get(key@),
            decreases j,
        {
            let ghost t = self.entries().take(j as int);
            assert(t.drop_last() =~= self.entries().take(j - 1));
            assert(t.last() == (self.data@[j - 1].0@, self.data@[j - 1].1.view()));
            if bytes_eq(self.data[j - 1].0.as_slice(), key) {
                return Some(self.data[j - 1].1.set_value());
            }
            j -= 1;
        }
        None
    }

    /// `true` when a value is stored under `key`.
    pub fn is_key(&self, key: &[u8]) -> (r: bool)
        ensures
            r == self@.contains_key(key@),
    {
        let mut j = self.data.len();
        assert(self.entries().take(j as int) =~= self.entries());
        while j > 0
            invariant
                j <= self.data@.len(),
                self@.contains_key(key@) == to_map(self.entries().take(j as int)).contains_key(key@),
            decreases j,
        {
            let ghost t = self.entries().take(j as int);
            assert(t.drop_last() =~= self.entries().take(j - 1));
            assert(t.last() == (self.data@[j - 1].0@, self.data@[j - 1].1.view()));
            if bytes_eq(self.data[j - 1].0.as_slice(), key) {
                return true;
            }
            j -= 1;
        }
        false
    }

    /// Removes every key that starts with `prefix`.
    pub fn del(&mut self, prefix: &[u8])
        ensures
            final(self)@ == old(self)@.restrict(
                old(self)@.dom().filter(|k: Seq<u8>| !prefix@.is_prefix_of(k)),
            ),
    {
        let ghost orig = self.entries();
        let ghost mut j: int = 0;
        let mut i: usize = 0;
        assert(keep_unprefixed(orig.take(0), prefix@) =~= self.entries().take(0));
        while i < self.data.len()
            invariant
                0 <= i <= j <= orig.len(),
                orig.len() - j == self.data@.len() - i,
                self.entries().len() == self.data@.len(),
                self.entries().take(i as int) == keep_unprefixed(orig.take(j), prefix@),
                self.entries().skip(i as int) == orig.skip(j),
            decreases self.data@.len() - i,
        {
            let ghost e = self.entries();
            assert(j < orig.len());
            assert(orig.take(j + 1).drop_last() =~= orig.take(j));
            assert(e[i as int] == orig[j]) by {
                assert(e.skip(i as int)[0] == orig.skip(j)[0]);
            }
            if starts_with(self.data[i].0.as_slice(), prefix) {
                self.data.remove(i);
                proof {
                    assert(self.entries().take(i as int) =~= e.take(i as int));
                    assert(self.entries().skip(i as int) =~= orig.skip(j + 1)) by {
                        assert(self.entries().skip(i as int) =~= e.skip(i as int).skip(1));
                    }
                }
            } else {
                i += 1;
                proof {
                    assert(self.entries().take(i as int) =~= e.take(i - 1).push(orig[j]));
                    assert(self.entries().skip(i as int) =~= orig.skip(j + 1)) by {
                        assert(self.entries().skip(i as int) =~= e.skip(i - 1).skip(1));
                    }
                }
            }
            proof {
                j = j + 1;
            }
        }
        proof {
            assert(self.entries().skip(i as int).len() == 0);
            assert(j == orig.len());
            assert(orig.take(j) =~= orig);
            assert(self.entries().take(i as int) =~= self.entries());
            lemma_keep_unprefixed(orig, prefix@);
        }
    }

    /// Removes every key.
    pub fn clear(&mut self)
        ensures
            final(self)@ == Map::<Seq<u8>, Value>::empty(),
    {
        self.data = Vec::new();
        assert(self.entries() =~= Seq::<(Seq<u8>, Value)>::empty());
    }
}

/// Of two writes to one key, a later read sees the second value (as the
/// cache copies it), never a mix of both.
pub proof fn lemma_last_write_wins(m: Map<Seq<u8>, Value>, k: Seq<u8>, v1: Value, v2: Value)
    ensures
        m.insert(k, v1).insert(k, v2).get(k) == Some(v2),
        m.insert(k, v1).insert(k, v2).contains_key(k),
{
}

} // verus!
