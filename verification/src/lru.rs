//! A bounded list of entries, from the least to the most recently used.

use vstd::prelude::*;

verus! {

/// The entries after `entry` was inserted: it comes last, and where there is no room for one
/// more, the first goes.
pub open spec fn lru_inserted<E>(entries: Seq<E>, size: nat, entry: E) -> Seq<E> {
    if entries.len() == size {
        entries.remove(0).push(entry)
    } else {
        entries.push(entry)
    }
}

/// The entries after the one at `pos` was used: it comes last, the others keep their order.
pub open spec fn lru_touched<E>(entries: Seq<E>, pos: int) -> Seq<E> {
    entries.remove(pos).push(entries[pos])
}

/// A list of at most `size` entries, from the least to the most recently used.
pub struct LRUCache<K, V> {
    entries: Vec<(K, V)>,
    cache_size: usize,
}

impl<K, V> LRUCache<K, V> {
    /// The entries, the least recently used first.
    pub closed spec fn entries(self) -> Seq<(K, V)> {
        self.entries@
    }

    /// How many entries there can be.
    pub closed spec fn size(self) -> nat {
        self.cache_size as nat
    }

    /// Whether there is room for an entry, and there are no more than that; all operations keep
    /// this.
    pub open spec fn wf(self) -> bool {
        &&& self.size() > 0
        &&& self.entries().len() <= self.size()
    }

    /// A cache for `size` entries, without any.
    pub fn new(size: usize) -> (cache: Self)
        requires
            size > 0,
        ensures
            cache.wf(),
            cache.size() == size,
            cache.entries() == Seq::<(K, V)>::empty(),
    {
        LRUCache { entries: Vec::new(), cache_size: size }
    }

    /// Adds an entry as the most recently used. The least recently used one goes if the cache is
    /// full.
    pub fn insert(&mut self, key: K, value: V)
        requires
            old(self).wf(),
        ensures
            final(self).wf(),
            final(self).size() == old(self).size(),
            final(self).entries() == lru_inserted(
                old(self).entries(),
                old(self).size(),
                (key, value),
            ),
    {
        if self.entries.len() == self.cache_size {
            self.entries.remove(0);
        }
        self.entries.push((key, value));
    }

    /// Makes the entry at `pos` the most recently used.
    pub fn touch(&mut self, pos: usize)
        requires
            old(self).wf(),
            pos < old(self).entries().len(),
        ensures
            final(self).wf(),
            final(self).size() == old(self).size(),
            final(self).entries() == lru_touched(old(self).entries(), pos as int),
    {
        let entry = self.entries.remove(pos);
        self.entries.push(entry);
    }

    /// The entries, the least recently used first.
    pub fn iter<'a>(&'a self) -> (entries: std::slice::Iter<'a, (K, V)>)
        ensures
            vstd::std_specs::iter::IteratorSpec::remaining(&entries) == self.entries().as_ref(),
            vstd::std_specs::iter::IteratorSpec::decrease(&entries) is Some,
            vstd::std_specs::iter::IteratorSpec::initial_value_relation(&entries, &entries),
    {
        self.entries.iter()
    }
}

} // verus!
