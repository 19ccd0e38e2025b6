//! The deduplicated, insert-only set of broadcast values held by a node.
use std::collections::HashSet;
use vstd::prelude::*;
use vstd::std_specs::iter::IteratorSpec;

verus! {

broadcast use vstd::std_specs::hash::group_hash_axioms;

/// True when `vs` lists every member of `s` exactly once.
pub open spec fn lists_exactly(vs: Seq<u64>, s: Set<u64>) -> bool {
    &&& vs.no_duplicates()
    &&& vs.to_set() == s
}

/// The set of values a node has seen.
pub struct Store {
    values: HashSet<u64>,
}

impl View for Store {
    type V = Set<u64>;

    closed spec fn view(&self) -> Set<u64> {
        self.values@
    }
}

impl Store {
    /// An empty store.
    pub fn new() -> (r: Store)
        ensures
            r@ == Set::<u64>::empty(),
    {
        Store { values: HashSet::new() }
    }

    /// Adds `value`; returns whether it was absent before.
    pub fn insert(&mut self, value: u64) -> (added: bool)
        ensures
            final(self)@ == old(self)@.insert(value),
            added == !old(self)@.contains(value),
    {
        self.values.insert(value)
    }

    /// Whether `value` has been seen.
    pub fn contains(&self, value: u64) -> (r: bool)
        ensures
            r == self@.contains(value),
    {
        self.values.contains(&value)
    }

    /// Every stored value, each once, in no particular order.
    pub fn snapshot(&self) -> (r: Vec<u64>)
        ensures
            lists_exactly(r@, self@),
    {
        let mut out: Vec<u64> = Vec::new();
        let keys = self.values.iter();
        let ghost all = keys.remaining().unref();
        assert(all.to_set() == self@);
        for v in it: keys
            invariant
                out@ == it.seq().unref().take(it.index()),
                it.seq().unref() == all,
                all.to_set() == self@,
                all.no_duplicates(),
        {
            out.push(*v);
            assert(out@ =~= it.seq().unref().take(it.index() + 1));
        }
        assert(out@ =~= all);
        out
    }
}

} // verus!
