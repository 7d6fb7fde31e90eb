//! The cache of styles by the declarations that they were computed from.

use crate::declarations::{
    block_ids, hash_writes, ApplicableDeclarationsCacheEntry, ApplicableDeclarationsCacheQuery,
    DeclarationBlock,
};
use crate::shared::Shared;
use std::collections::hash_map::DefaultHasher;
use std::hash::Hasher;
use vstd::prelude::*;

verus! {

/// The number of slots of an [`ApplicableDeclarationsCache`].
pub const APPLICABLE_DECLARATIONS_CACHE_SIZE: usize = 32;

/// What a slot of the cache holds: the blocks of its key, and the style they gave.
pub type CacheSlot<'h, D, V> = Option<(Seq<DeclarationBlock<'h, D>>, Shared<'h, V>)>;

/// The slot that belongs to a sequence of identities.
pub open spec fn slot_of(ids: Seq<u64>) -> int {
    <DefaultHasher as vstd::std_specs::hash::DefaultHasherAdditionalSpecFns>::spec_finish(
        hash_writes(ids),
    ) as int % APPLICABLE_DECLARATIONS_CACHE_SIZE as int
}

/// Slots that hold nothing.
pub open spec fn no_styles<'h, D, V>() -> Seq<CacheSlot<'h, D, V>> {
    Seq::new(APPLICABLE_DECLARATIONS_CACHE_SIZE as nat, |i: int| None)
}

/// The style that the slots hold for `blocks`.
pub open spec fn cached_style<'h, D, V>(
    slots: Seq<CacheSlot<'h, D, V>>,
    blocks: Seq<DeclarationBlock<'h, D>>,
) -> Option<Shared<'h, V>> {
    match slots[slot_of(block_ids(blocks))] {
        Some((key, style)) => if block_ids(key) == block_ids(blocks) {
            Some(style)
        } else {
            None
        },
        None => None,
    }
}

/// The slots once `style` was stored for `blocks`, in place of what their slot held.
pub open spec fn with_style<'h, D, V>(
    slots: Seq<CacheSlot<'h, D, V>>,
    blocks: Seq<DeclarationBlock<'h, D>>,
    style: Shared<'h, V>,
) -> Seq<CacheSlot<'h, D, V>> {
    slots.update(slot_of(block_ids(blocks)), Some((blocks, style)))
}

/// Whether there are as many slots as there should be, each with a key that belongs to it.
pub open spec fn slots_wf<'h, D, V>(slots: Seq<CacheSlot<'h, D, V>>) -> bool {
    &&& slots.len() == APPLICABLE_DECLARATIONS_CACHE_SIZE
    &&& forall|i: int|
        0 <= i < slots.len() ==> (#[trigger] slots[i] matches Some((key, _)) ==> slot_of(
            block_ids(key),
        ) == i)
}

/// A cache of styles by the declarations they were computed from. Each sequence of lists has one
/// slot, and a style that is stored replaces what its slot held.
pub struct ApplicableDeclarationsCache<'h, D, V> {
    cache: Vec<Option<(ApplicableDeclarationsCacheEntry<'h, D>, Shared<'h, V>)>>,
}

impl<'h, D, V> View for ApplicableDeclarationsCache<'h, D, V> {
    type V = Seq<CacheSlot<'h, D, V>>;

    closed spec fn view(&self) -> Seq<CacheSlot<'h, D, V>> {
        self.cache@.map_values(
            |slot: Option<(ApplicableDeclarationsCacheEntry<'h, D>, Shared<'h, V>)>|
                match slot {
                    Some((key, style)) => Some((key@, style)),
                    None => None,
                },
        )
    }
}

impl<'h, D, V> ApplicableDeclarationsCache<'h, D, V> {
    /// Whether the slots are as they should be; all operations keep this.
    pub open spec fn wf(self) -> bool {
        slots_wf(self@)
    }

    /// A cache that holds nothing.
    pub fn new() -> (cache: Self)
        ensures
            cache.wf(),
            cache@ == no_styles::<D, V>(),
    {
        let mut slots: Vec<Option<(ApplicableDeclarationsCacheEntry<'h, D>, Shared<'h, V>)>> =
            Vec::new();
        for i in 0..APPLICABLE_DECLARATIONS_CACHE_SIZE
            invariant
                slots@.len() == i,
                forall|j: int| 0 <= j < i ==> slots@[j] is None,
        {
            slots.push(None);
        }
        let cache = ApplicableDeclarationsCache { cache: slots };
        assert(cache@ =~= no_styles::<D, V>());
        cache
    }

    /// The slot of `query`.
    fn bucket(query: &ApplicableDeclarationsCacheQuery<'_, 'h, D>) -> (bucket: usize)
        ensures
            bucket == slot_of(block_ids(query@)),
            bucket < APPLICABLE_DECLARATIONS_CACHE_SIZE,
    {
        let mut state = DefaultHasher::new();
        query.hash(&mut state);
        assert(state@ =~= hash_writes(block_ids(query@)));
        (state.finish() % APPLICABLE_DECLARATIONS_CACHE_SIZE as u64) as usize
    }

    /// The style that was stored for `declarations`, unless another took its slot.
    pub fn find(&self, declarations: &[DeclarationBlock<'h, D>]) -> (style: Option<Shared<'h, V>>)
        requires
            self.wf(),
        ensures
            style == cached_style(self@, declarations@),
    {
        let query = ApplicableDeclarationsCacheQuery::new(declarations);
        let bucket: usize = Self::bucket(&query);
        assert(self@.len() == self.cache@.len());
        match &self.cache[bucket] {
            None => None,
            Some((key, values)) => if query.equiv(key) {
                Some(values.clone())
            } else {
                None
            },
        }
    }

    /// Stores `style` for `declarations`, in place of what their slot held.
    pub fn insert(&mut self, declarations: &[DeclarationBlock<'h, D>], style: Shared<'h, V>)
        requires
            old(self).wf(),
        ensures
            final(self).wf(),
            final(self)@ == with_style(old(self)@, declarations@, style),
    {
        let query = ApplicableDeclarationsCacheQuery::new(declarations);
        let bucket: usize = Self::bucket(&query);
        assert(self@.len() == self.cache@.len());
        self.cache.set(bucket, Some((ApplicableDeclarationsCacheEntry::new(declarations), style)));
        assert(self@ =~= with_style(old(self)@, declarations@, style));
    }
}

} // verus!
