//! The filter of the names that the ancestors of a node carry.

use crate::name::Name;
use crate::node::name_views;
use vstd::multiset::Multiset;
use vstd::prelude::*;

verus! {

broadcast use vstd::seq_lib::group_to_multiset_ensures;

/// The names that were inserted and not removed again, each as often as that. Selector matching
/// asks it for the names of the ancestors of a node.
///
/// The names are kept as they are, not hashed: a name is found exactly if it is there, and the
/// search goes through all of them.
pub struct BloomFilter {
    keys: Vec<Name>,
}

impl View for BloomFilter {
    type V = Multiset<Seq<char>>;

    closed spec fn view(&self) -> Multiset<Seq<char>> {
        name_views(self.keys@).to_multiset()
    }
}

impl BloomFilter {
    /// A filter that holds nothing.
    pub fn new() -> (filter: BloomFilter)
        ensures
            filter@ == Multiset::<Seq<char>>::empty(),
    {
        let filter = BloomFilter { keys: Vec::new() };
        assert(name_views(filter.keys@) =~= Seq::empty());
        assert(filter@ =~= Multiset::empty());
        filter
    }

    /// Adds one occurrence of `key`.
    pub fn insert(&mut self, key: &Name)
        ensures
            final(self)@ == old(self)@.insert(key@),
    {
        let key = key.clone();
        self.keys.push(key);
        assert(name_views(self.keys@) =~= name_views(old(self).keys@).push(key@));
    }

    /// Takes away one occurrence of `key`, if there is one.
    pub fn remove(&mut self, key: &Name)
        ensures
            final(self)@ == old(self)@.remove(key@),
    {
        let ghost views = name_views(self.keys@);
        let len: usize = self.keys.len();
        for i in 0..len
            invariant
                len == self.keys.len(),
                *self == *old(self),
                views == name_views(self.keys@),
                forall|j: int| 0 <= j < i ==> views[j] != key@,
        {
            if self.keys[i] == *key {
                self.keys.remove(i);
                assert(name_views(self.keys@) =~= views.remove(i as int));
                assert(views[i as int] == key@);
                return;
            }
        }
        assert(!views.contains(key@));
        assert(self@.count(key@) == 0);
        assert(self@ =~= self@.remove(key@));
    }

    /// Whether `key` is in the filter.
    pub fn might_contain(&self, key: &Name) -> (found: bool)
        ensures
            found == self@.contains(key@),
    {
        let ghost views = name_views(self.keys@);
        for i in 0..self.keys.len()
            invariant
                views == name_views(self.keys@),
                forall|j: int| 0 <= j < i ==> views[j] != key@,
        {
            if self.keys[i] == *key {
                assert(views[i as int] == key@);
                assert(views.contains(key@));
                return true;
            }
        }
        assert(!views.contains(key@));
        false
    }
}

} // verus!
