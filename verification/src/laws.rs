//! What holds of the library as a whole.

use crate::bloom::BloomFilter;
use crate::candidate::{candidate_of, CandidateView, StyleSharingCandidate};
use crate::declarations::{
    block_ids, hash_writes, ApplicableDeclarations, ApplicableDeclarationsCacheEntry,
    ApplicableDeclarationsView, DeclarationBlock, MatchedDeclarations, PseudoElement,
};
use crate::declarations_cache::{
    cached_style, no_styles, slot_of, slots_wf, with_style, CacheSlot,
    APPLICABLE_DECLARATIONS_CACHE_SIZE,
};
use crate::lru::{lru_inserted, lru_touched};
use crate::matching::{
    bloom_keys, can_share, cascade_hint, cascade_recorded, cascades_to, node_cascades_to,
    node_matches_to, shares_with, style_values, with_node_style, CascadeState,
};
use crate::node::{ElementView, LayoutDataWrapper, LayoutNode};
use crate::shared::{Allocation, HeapView, Shared};
use vstd::multiset::Multiset;
use vstd::prelude::*;
use vstd::std_specs::cmp::PartialEqSpec;

verus! {

broadcast use vstd::seq_lib::group_to_multiset_ensures;

/// Among the handles of one heap, equal identities mean one value, and a style never has the
/// identity of a list of declarations.
pub proof fn law_identity_fixes_the_value<'h, D, V>(
    heap: HeapView<D, V>,
    style: Shared<'h, V>,
    other_style: Shared<'h, V>,
    list: Shared<'h, D>,
    other_list: Shared<'h, D>,
)
    requires
        heap.holds_style(style),
        heap.holds_style(other_style),
        heap.holds_declarations(list),
        heap.holds_declarations(other_list),
    ensures
        style.id() == other_style.id() ==> style.value() == other_style.value(),
        list.id() == other_list.id() ==> list.value() == other_list.value(),
        style.id() != list.id(),
{
}

/// A style in a new allocation is a handle of the heap, with an identity that no earlier handle
/// has; these stay handles of the heap.
pub proof fn law_new_style_is_told_apart<'h, D, V>(
    heap: HeapView<D, V>,
    new: Shared<'h, V>,
    style: Shared<'h, V>,
    list: Shared<'h, D>,
)
    requires
        new.id() == heap.issued,
    ensures
        ({
            let after = heap.allocated(Allocation::Style(new.value()));
            &&& after.holds_style(new)
            &&& new.id() < after.issued
            &&& heap.holds_style(style) ==> after.holds_style(style) && style.id() != new.id()
            &&& heap.holds_declarations(list) ==> after.holds_declarations(list) && list.id()
                != new.id()
        }),
{
}

/// A list of declarations in a new allocation is a handle of the heap, with an identity that no
/// earlier handle has; these stay handles of the heap.
pub proof fn law_new_declarations_are_told_apart<'h, D, V>(
    heap: HeapView<D, V>,
    new: Shared<'h, D>,
    style: Shared<'h, V>,
    list: Shared<'h, D>,
)
    requires
        new.id() == heap.issued,
    ensures
        ({
            let after = heap.allocated(Allocation::Declarations(new.value()));
            &&& after.holds_declarations(new)
            &&& new.id() < after.issued
            &&& heap.holds_style(style) ==> after.holds_style(style) && style.id() != new.id()
            &&& heap.holds_declarations(list) ==> after.holds_declarations(list) && list.id()
                != new.id()
        }),
{
}

/// Whether `stylist` has one answer for each node, filter, `style` attribute and pseudo-element.
pub open spec fn stylist_has_one_answer<
    'h,
    N,
    D,
    S: Fn(&N, &Option<Box<BloomFilter>>, Option<&Shared<'h, D>>, Option<PseudoElement>) ->
        MatchedDeclarations<'h, D>,
>(stylist: S) -> bool {
    forall|
        node: &N,
        parent_bf: &Option<Box<BloomFilter>>,
        style_attribute: Option<&Shared<'h, D>>,
        pseudo_element: Option<PseudoElement>,
        a: MatchedDeclarations<'h, D>,
        b: MatchedDeclarations<'h, D>,
    |
        #[trigger] call_ensures(
            stylist,
            (node, parent_bf, style_attribute, pseudo_element),
            a,
        ) && #[trigger] call_ensures(
            stylist,
            (node, parent_bf, style_attribute, pseudo_element),
            b,
        ) ==> a.declarations@ == b.declarations@ && a.shareable == b.shareable
}

/// Where the stylist has one answer, matching a node into cleared declarations and into new ones
/// gives the same declarations, and the same word on whether the style is shareable.
pub proof fn law_cleared_declarations_serve_as_new<
    'h,
    N,
    D,
    S: Fn(&N, &Option<Box<BloomFilter>>, Option<&Shared<'h, D>>, Option<PseudoElement>) ->
        MatchedDeclarations<'h, D>,
>(
    stylist: S,
    node: &N,
    style_attribute: Option<&Shared<'h, D>>,
    parent_bf: &Option<Box<BloomFilter>>,
    cleared: ApplicableDeclarations<'h, D>,
    new: ApplicableDeclarations<'h, D>,
    cleared_matched: ApplicableDeclarationsView<'h, D>,
    new_matched: ApplicableDeclarationsView<'h, D>,
)
    requires
        stylist_has_one_answer::<N, D, S>(stylist),
        cleared@ == ApplicableDeclarationsView::<D>::empty(),
        new@ == ApplicableDeclarationsView::<D>::empty(),
        node_matches_to(
            stylist,
            node,
            style_attribute,
            parent_bf,
            cleared@,
            cleared_matched,
        ),
        node_matches_to(stylist, node, style_attribute, parent_bf, new@, new_matched),
    ensures
        cleared_matched.normal == new_matched.normal,
        cleared_matched.before == new_matched.before,
        cleared_matched.after == new_matched.after,
        cleared_matched.normal_shareable == new_matched.normal_shareable,
        cleared_matched.shareable() == new_matched.shareable(),
{
}

/// Matching into cleared declarations leaves exactly what was matched, and the style is shareable
/// exactly if the declarations of the node are and its pseudo-elements have none.
pub proof fn law_matching_after_clear<'h, D>(
    normal: MatchedDeclarations<'h, D>,
    before: MatchedDeclarations<'h, D>,
    after: MatchedDeclarations<'h, D>,
)
    ensures
        ({
            let declarations = ApplicableDeclarationsView::<D>::empty().pushed(
                None,
                normal,
            ).pushed(Some(PseudoElement::Before), before).pushed(
                Some(PseudoElement::After),
                after,
            );
            &&& declarations.normal == normal.declarations@
            &&& declarations.before == before.declarations@
            &&& declarations.after == after.declarations@
            &&& declarations.shareable() == (normal.shareable && before.declarations@.len() == 0
                && after.declarations@.len() == 0)
        }),
{
}

/// Equality of cache entries is an equivalence.
pub proof fn law_entry_equality<'h, D>(
    a: ApplicableDeclarationsCacheEntry<'h, D>,
    b: ApplicableDeclarationsCacheEntry<'h, D>,
    c: ApplicableDeclarationsCacheEntry<'h, D>,
)
    ensures
        a.eq_spec(&a),
        a.eq_spec(&b) ==> b.eq_spec(&a),
        a.eq_spec(&b) && b.eq_spec(&c) ==> a.eq_spec(&c),
{
}

/// Cache entries are equal exactly if they feed the same writes to a hasher.
pub proof fn law_equal_entries_hash_alike<'h, D>(
    a: ApplicableDeclarationsCacheEntry<'h, D>,
    b: ApplicableDeclarationsCacheEntry<'h, D>,
)
    ensures
        a.eq_spec(&b) <==> hash_writes(block_ids(a@)) == hash_writes(block_ids(b@)),
{
    let these = block_ids(a@);
    let those = block_ids(b@);
    if hash_writes(these) == hash_writes(those) {
        vstd::bytes::lemma_auto_spec_u64_to_from_le_bytes();
        assert(hash_writes(these).len() == hash_writes(those).len());
        assert forall|i: int| 0 <= i < these.len() implies these[i] == those[i] by {
            assert(hash_writes(these)[i] == hash_writes(those)[i]);
        }
        assert(these =~= those);
    }
}

/// A new cache has no style for any declarations.
pub proof fn law_new_cache_has_no_style<'h, D, V>(blocks: Seq<DeclarationBlock<'h, D>>)
    ensures
        cached_style(no_styles::<D, V>(), blocks) is None,
{
}

/// A style that was stored for some declarations is found for the same lists in the same order.
pub proof fn law_stored_style_is_found<'h, D, V>(
    slots: Seq<CacheSlot<'h, D, V>>,
    blocks: Seq<DeclarationBlock<'h, D>>,
    style: Shared<'h, V>,
    query: Seq<DeclarationBlock<'h, D>>,
)
    requires
        slots_wf(slots),
        block_ids(query) == block_ids(blocks),
    ensures
        slots_wf(with_style(slots, blocks, style)),
        cached_style(with_style(slots, blocks, style), query) == Some(style),
{
}

/// Storing a style for some declarations leaves what is found for others as it was, or makes it
/// be found no more; the latter only if they have the same slot.
pub proof fn law_storing_may_only_evict<'h, D, V>(
    slots: Seq<CacheSlot<'h, D, V>>,
    blocks: Seq<DeclarationBlock<'h, D>>,
    style: Shared<'h, V>,
    query: Seq<DeclarationBlock<'h, D>>,
)
    requires
        slots_wf(slots),
        block_ids(query) != block_ids(blocks),
    ensures
        slot_of(block_ids(query)) == slot_of(block_ids(blocks)) ==> cached_style(
            with_style(slots, blocks, style),
            query,
        ) is None,
        slot_of(block_ids(query)) != slot_of(block_ids(blocks)) ==> cached_style(
            with_style(slots, blocks, style),
            query,
        ) == cached_style(slots, query),
{
}

/// No two slots hold the same key.
pub proof fn law_keys_are_unique<'h, D, V>(slots: Seq<CacheSlot<'h, D, V>>, i: int, j: int)
    requires
        slots_wf(slots),
        0 <= i < j < slots.len(),
    ensures
        slots[i] matches Some((a, _)) ==> (slots[j] matches Some((b, _)) ==> block_ids(a)
            != block_ids(b)),
{
}

/// However many declarations are found in the cache, if no two of them are of the same lists in
/// the same order, there are no more of them than slots.
pub proof fn law_cache_is_bounded<'h, D, V>(
    slots: Seq<CacheSlot<'h, D, V>>,
    queries: Seq<Seq<DeclarationBlock<'h, D>>>,
)
    requires
        slots_wf(slots),
        forall|i: int|
            0 <= i < queries.len() ==> cached_style(slots, #[trigger] queries[i]) is Some,
        forall|i: int, j: int|
            0 <= i < j < queries.len() ==> block_ids(#[trigger] queries[i]) != block_ids(
                #[trigger] queries[j],
            ),
    ensures
        queries.len() <= APPLICABLE_DECLARATIONS_CACHE_SIZE,
{
    let found = queries.map_values(|query: Seq<DeclarationBlock<'h, D>>| slot_of(block_ids(query)));
    let all = vstd::set_lib::set_int_range(0, APPLICABLE_DECLARATIONS_CACHE_SIZE as int);
    assert(found.no_duplicates()) by {
        assert forall|i: int, j: int| 0 <= i < j < found.len() implies found[i] != found[j] by {
            assert(cached_style(slots, queries[i]) is Some);
            assert(cached_style(slots, queries[j]) is Some);
        }
    }
    found.unique_seq_to_set();
    vstd::set_lib::lemma_int_range(0, APPLICABLE_DECLARATIONS_CACHE_SIZE as int);
    assert(found.to_set().subset_of(all)) by {
        assert forall|slot: int| found.to_set().contains(slot) implies all.contains(slot) by {
            let i = choose|i: int| 0 <= i < found.len() && found[i] == slot;
            assert(found[i] == slot_of(block_ids(queries[i])));
        }
    }
    vstd::set_lib::lemma_len_subset(found.to_set(), all);
}

/// The slots of a new cache after a sequence of styles was stored, each for its blocks.
pub open spec fn after_stores<'h, D, V>(
    stores: Seq<(Seq<DeclarationBlock<'h, D>>, Shared<'h, V>)>,
) -> Seq<CacheSlot<'h, D, V>>
    decreases stores.len(),
{
    if stores.len() == 0 {
        no_styles()
    } else {
        with_style(after_stores(stores.drop_last()), stores.last().0, stores.last().1)
    }
}

/// Whether the store at `i` was the last for the lists of `blocks`.
pub open spec fn is_last_store<'h, D, V>(
    stores: Seq<(Seq<DeclarationBlock<'h, D>>, Shared<'h, V>)>,
    blocks: Seq<DeclarationBlock<'h, D>>,
    i: int,
) -> bool {
    &&& 0 <= i < stores.len()
    &&& block_ids(stores[i].0) == block_ids(blocks)
    &&& forall|j: int|
        i < j < stores.len() ==> block_ids(#[trigger] stores[j].0) != block_ids(blocks)
}

/// Whatever was stored before, a style that is found for some declarations is the one that was
/// last stored for the same lists in the same order.
pub proof fn law_found_style_was_stored_last<'h, D, V>(
    stores: Seq<(Seq<DeclarationBlock<'h, D>>, Shared<'h, V>)>,
    blocks: Seq<DeclarationBlock<'h, D>>,
)
    ensures
        slots_wf(after_stores(stores)),
        cached_style(after_stores(stores), blocks) matches Some(style) ==> exists|i: int| #[trigger]
            is_last_store(stores, blocks, i) && stores[i].1 == style,
    decreases stores.len(),
{
    if stores.len() > 0 {
        let earlier = stores.drop_last();
        let (last_blocks, last_style) = stores.last();
        law_found_style_was_stored_last(earlier, blocks);
        assert(after_stores(stores) == with_style(after_stores(earlier), last_blocks, last_style));
        if block_ids(last_blocks) == block_ids(blocks) {
            law_stored_style_is_found(after_stores(earlier), last_blocks, last_style, blocks);
            assert(is_last_store(stores, blocks, stores.len() - 1));
        } else {
            law_storing_may_only_evict(after_stores(earlier), last_blocks, last_style, blocks);
            if let Some(style) = cached_style(after_stores(stores), blocks) {
                let i = choose|i: int| #[trigger]
                    is_last_store(earlier, blocks, i) && earlier[i].1 == style;
                assert forall|j: int| i < j < stores.len() implies block_ids(
                    #[trigger] stores[j].0,
                ) != block_ids(blocks) by {
                    if j < earlier.len() {
                        assert(earlier[j].0 == stores[j].0);
                    }
                }
                assert(is_last_store(stores, blocks, i));
            }
        }
    }
}

/// Equality of style sharing candidates is an equivalence.
pub proof fn law_candidate_equality<'h, V>(
    a: StyleSharingCandidate<'h, V>,
    b: StyleSharingCandidate<'h, V>,
    c: StyleSharingCandidate<'h, V>,
)
    ensures
        a.eq_spec(&a),
        a.eq_spec(&b) ==> b.eq_spec(&a),
        a.eq_spec(&b) && b.eq_spec(&c) ==> a.eq_spec(&c),
{
}

/// The entries after a sequence of them was inserted, one after the other.
pub open spec fn after_inserts<E>(entries: Seq<E>, size: nat, inserted: Seq<E>) -> Seq<E>
    decreases inserted.len(),
{
    if inserted.len() == 0 {
        entries
    } else {
        lru_inserted(after_inserts(entries, size, inserted.drop_last()), size, inserted.last())
    }
}

/// After inserts, the cache holds the last entries of those that it held and those that were
/// inserted, as many as there is room for.
pub proof fn law_cache_keeps_the_last_entries<E>(entries: Seq<E>, size: nat, inserted: Seq<E>)
    requires
        0 < size,
        entries.len() <= size,
    ensures
        ({
            let all = entries + inserted;
            after_inserts(entries, size, inserted) == if all.len() <= size {
                all
            } else {
                all.skip(all.len() - size)
            }
        }),
    decreases inserted.len(),
{
    let all = entries + inserted;
    if inserted.len() == 0 {
        assert(all =~= entries);
    } else {
        let earlier = inserted.drop_last();
        law_cache_keeps_the_last_entries(entries, size, earlier);
        assert(all =~= (entries + earlier).push(inserted.last()));
        if all.len() > size {
            assert(after_inserts(entries, size, inserted) =~= all.skip(all.len() - size));
        }
    }
}

/// To use an entry changes the order only: it becomes the most recently used, and no entry comes
/// or goes.
pub proof fn law_touch_moves_only<E>(entries: Seq<E>, pos: int)
    requires
        0 <= pos < entries.len(),
    ensures
        lru_touched(entries, pos).to_multiset() == entries.to_multiset(),
        lru_touched(entries, pos).len() == entries.len(),
        lru_touched(entries, pos).last() == entries[pos],
        forall|i: int| 0 <= i < pos ==> lru_touched(entries, pos)[i] == entries[i],
        forall|i: int|
            pos <= i < entries.len() - 1 ==> lru_touched(entries, pos)[i] == entries[i + 1],
{
    assert(lru_touched(entries, pos).to_multiset() =~= entries.to_multiset());
}

/// An entry that was used outlives as many inserts as there are other places in the cache.
pub proof fn law_touched_entry_survives<E>(entries: Seq<E>, size: nat, pos: int, inserted: Seq<E>)
    requires
        0 <= pos < entries.len() <= size,
        inserted.len() < size,
    ensures
        after_inserts(lru_touched(entries, pos), size, inserted).contains(entries[pos]),
{
    let touched = lru_touched(entries, pos);
    let all = touched + inserted;
    law_cache_keeps_the_last_entries(touched, size, inserted);
    let kept = after_inserts(touched, size, inserted);
    let at = kept.len() - inserted.len() - 1;
    assert(all[touched.len() - 1] == entries[pos]);
    assert(kept[at] == entries[pos]);
}

/// The candidate that a node gives has the style of the node, and an element below the same parent
/// can share it exactly if its name and its class are those of the node.
pub proof fn law_candidate_suits_siblings<'h, D, V>(
    node: LayoutNode<'h, D, V>,
    parent: &LayoutNode<'h, D, V>,
    sibling: ElementView<'h, D>,
)
    requires
        candidate_of(node, Some(parent)) is Some,
    ensures
        ({
            let candidate = candidate_of(node, Some(parent))->0;
            &&& node.style() == Some(candidate.style)
            &&& shares_with(sibling, Some(parent), candidate) == (sibling.local_name
                == node.element()->0.local_name && sibling.class() == node.element()->0.class())
        }),
{
}

/// Once a node has given a candidate, an element below the same parent with the name and the class
/// of the node finds a candidate to share a style with.
pub proof fn law_seen_node_can_be_shared_with<'h, D, V>(
    candidates: Seq<CandidateView<'h, V>>,
    size: nat,
    node: LayoutNode<'h, D, V>,
    parent: &LayoutNode<'h, D, V>,
    sibling: ElementView<'h, D>,
)
    requires
        0 < size,
        candidates.len() <= size,
        candidate_of(node, Some(parent)) is Some,
        sibling.local_name == node.element()->0.local_name,
        sibling.class() == node.element()->0.class(),
    ensures
        ({
            let seen = lru_inserted(candidates, size, candidate_of(node, Some(parent))->0);
            exists|i: int|
                0 <= i < seen.len() && shares_with(sibling, Some(parent), #[trigger] seen[i])
        }),
{
    let candidate = candidate_of(node, Some(parent))->0;
    let seen = lru_inserted(candidates, size, candidate);
    law_candidate_suits_siblings(node, parent, sibling);
    assert(shares_with(sibling, Some(parent), seen[seen.len() - 1]));
}

/// A node that shares the style of a candidate gives an equal candidate itself.
pub proof fn law_sharing_node_gives_the_same_candidate<'h, D, V>(
    node: LayoutNode<'h, D, V>,
    parent: Option<&LayoutNode<'h, D, V>>,
    candidate: CandidateView<'h, V>,
)
    requires
        can_share(node),
        node.layout_data is Some,
        shares_with(node.element()->0, parent, candidate),
    ensures
        candidate_of(with_node_style(node, candidate.style), parent) matches Some(given)
            && given.same(candidate),
{
    let styled = with_node_style(node, candidate.style);
    assert(styled.element() == node.element());
    assert(styled.style() == Some(candidate.style));
}

/// Removing the names of a node from the filter undoes their insertion.
pub proof fn law_removal_undoes_insertion<'h, D, V>(
    filter: Multiset<Seq<char>>,
    node: LayoutNode<'h, D, V>,
)
    ensures
        filter.add(bloom_keys(node).to_multiset()).sub(bloom_keys(node).to_multiset()) == filter,
{
    let keys = bloom_keys(node).to_multiset();
    assert(filter.add(keys).sub(keys) =~= filter);
}

/// The filter after the nodes of a path were inserted, from the root down.
pub open spec fn after_descent<'h, D, V>(
    filter: Multiset<Seq<char>>,
    path: Seq<LayoutNode<'h, D, V>>,
) -> Multiset<Seq<char>>
    decreases path.len(),
{
    if path.len() == 0 {
        filter
    } else {
        after_descent(filter, path.drop_last()).add(bloom_keys(path.last()).to_multiset())
    }
}

/// The filter after the nodes of a path were removed, from the last up to the root.
pub open spec fn after_ascent<'h, D, V>(
    filter: Multiset<Seq<char>>,
    path: Seq<LayoutNode<'h, D, V>>,
) -> Multiset<Seq<char>>
    decreases path.len(),
{
    if path.len() == 0 {
        filter
    } else {
        after_ascent(filter.sub(bloom_keys(path.last()).to_multiset()), path.drop_last())
    }
}

/// A walk down a path that inserts each node, and back up that removes each, leaves the filter as
/// it was.
pub proof fn law_walk_restores_the_filter<'h, D, V>(
    filter: Multiset<Seq<char>>,
    path: Seq<LayoutNode<'h, D, V>>,
)
    ensures
        after_ascent(after_descent(filter, path), path) == filter,
    decreases path.len(),
{
    if path.len() > 0 {
        law_removal_undoes_insertion(after_descent(filter, path.drop_last()), path.last());
        law_walk_restores_the_filter(filter, path.drop_last());
    }
}

/// A step of a walk through a document: the names of a node are inserted into the filter, or
/// removed from it.
#[verifier::reject_recursive_types(D)]
#[verifier::reject_recursive_types(V)]
pub ghost enum FilterStep<'h, D, V> {
    Insert(LayoutNode<'h, D, V>),
    Remove(LayoutNode<'h, D, V>),
}

/// The filter after a sequence of steps.
pub open spec fn after_steps<'h, D, V>(
    filter: Multiset<Seq<char>>,
    steps: Seq<FilterStep<'h, D, V>>,
) -> Multiset<Seq<char>>
    decreases steps.len(),
{
    if steps.len() == 0 {
        filter
    } else {
        let earlier = after_steps(filter, steps.drop_last());
        match steps.last() {
            FilterStep::Insert(node) => earlier.add(bloom_keys(node).to_multiset()),
            FilterStep::Remove(node) => earlier.sub(bloom_keys(node).to_multiset()),
        }
    }
}

/// The nodes that a sequence of steps inserted and did not remove again, the last at the end, if
/// the steps are properly nested: each removal is of the names that were last inserted and not
/// removed before.
pub open spec fn open_nodes<'h, D, V>(steps: Seq<FilterStep<'h, D, V>>) -> Option<
    Seq<LayoutNode<'h, D, V>>,
>
    decreases steps.len(),
{
    if steps.len() == 0 {
        Some(Seq::empty())
    } else {
        match (open_nodes(steps.drop_last()), steps.last()) {
            (Some(open), FilterStep::Insert(node)) => Some(open.push(node)),
            (Some(open), FilterStep::Remove(node)) => if open.len() > 0 && bloom_keys(open.last())
                == bloom_keys(node) {
                Some(open.drop_last())
            } else {
                None
            },
            (None, _) => None,
        }
    }
}

/// At every point of a properly nested walk, whatever was visited before, the filter is what the
/// insertion of the nodes that are still open makes of it, and nothing else.
pub proof fn law_filter_holds_the_open_nodes<'h, D, V>(
    filter: Multiset<Seq<char>>,
    steps: Seq<FilterStep<'h, D, V>>,
)
    requires
        open_nodes(steps) is Some,
    ensures
        after_steps(filter, steps) == after_descent(filter, open_nodes(steps)->0),
    decreases steps.len(),
{
    if steps.len() > 0 {
        let earlier = steps.drop_last();
        law_filter_holds_the_open_nodes(filter, earlier);
        let open = open_nodes(earlier)->0;
        match steps.last() {
            FilterStep::Insert(node) => {
                assert(open.push(node).drop_last() =~= open);
            },
            FilterStep::Remove(_) => {
                law_removal_undoes_insertion(after_descent(filter, open.drop_last()), open.last());
            },
        }
    }
}

/// A properly nested walk that removes every node that it inserts, with a whole subtree visited
/// between the two, leaves the filter as it was.
pub proof fn law_nested_walk_restores_the_filter<'h, D, V>(
    filter: Multiset<Seq<char>>,
    steps: Seq<FilterStep<'h, D, V>>,
)
    requires
        open_nodes(steps) == Some(Seq::<LayoutNode<'h, D, V>>::empty()),
    ensures
        after_steps(filter, steps) == filter,
{
    law_filter_holds_the_open_nodes(filter, steps);
}

/// Below a path whose nodes were inserted, the filter holds every name of every one of them.
pub proof fn law_filter_holds_the_names_of_ancestors<'h, D, V>(
    filter: Multiset<Seq<char>>,
    path: Seq<LayoutNode<'h, D, V>>,
    i: int,
    key: Seq<char>,
)
    requires
        0 <= i < path.len(),
        bloom_keys(path[i]).contains(key),
    ensures
        after_descent(filter, path).contains(key),
    decreases path.len(),
{
    if i == path.len() - 1 {
        assert(bloom_keys(path.last()).to_multiset().contains(key));
    } else {
        law_filter_holds_the_names_of_ancestors(filter, path.drop_last(), i, key);
    }
}

/// A style that was recorded as cacheable is handed to the next cascade of the same lists below a
/// parent; one that was not leaves the cache as it was.
pub proof fn law_cacheable_style_is_handed_on<'h, D, V>(
    state: CascadeState<'h, D, V>,
    blocks: Seq<DeclarationBlock<'h, D>>,
    style: Shared<'h, V>,
    query: Seq<DeclarationBlock<'h, D>>,
    parent_style: Shared<'h, V>,
)
    requires
        slots_wf(state.slots),
        block_ids(query) == block_ids(blocks),
    ensures
        cascade_hint(cascade_recorded(state, blocks, style, true), query, Some(parent_style))
            == Some(style),
        cascade_recorded(state, blocks, style, false).slots == state.slots,
{
}

/// Whether `cascade` has one answer for each list of blocks, flag, parent and cached values.
pub open spec fn cascade_has_one_answer<
    'h,
    D,
    V,
    F: Fn(&[DeclarationBlock<'h, D>], bool, Option<&V>, Option<&V>) -> (V, bool),
>(cascade: F) -> bool {
    forall|
        slice: &[DeclarationBlock<'h, D>],
        same_slice: &[DeclarationBlock<'h, D>],
        shareable: bool,
        parent: Option<&V>,
        cached: Option<&V>,
        a: (V, bool),
        b: (V, bool),
    |
        slice@ == same_slice@ && #[trigger] call_ensures(
            cascade,
            (slice, shareable, parent, cached),
            a,
        ) && #[trigger] call_ensures(cascade, (same_slice, shareable, parent, cached), b) ==> a == b
}

/// Where the cascade has one answer, the values of a style without a parent do not depend on the
/// cache, nor on the heap.
pub proof fn law_without_a_parent_the_cache_does_not_matter<
    'h,
    D,
    V,
    F: Fn(&[DeclarationBlock<'h, D>], bool, Option<&V>, Option<&V>) -> (V, bool),
>(
    cascade: F,
    blocks: Seq<DeclarationBlock<'h, D>>,
    shareable: bool,
    before: CascadeState<'h, D, V>,
    style: Option<Shared<'h, V>>,
    after: CascadeState<'h, D, V>,
    other_before: CascadeState<'h, D, V>,
    other_style: Option<Shared<'h, V>>,
    other_after: CascadeState<'h, D, V>,
)
    requires
        cascade_has_one_answer::<D, V, F>(cascade),
        cascades_to(cascade, blocks, shareable, None, before, style, after),
        cascades_to(cascade, blocks, shareable, None, other_before, other_style, other_after),
    ensures
        style is Some,
        other_style is Some,
        style->0.value() == other_style->0.value(),
{
}

/// Where the cascade has one answer, the same declarations and the same flag, below the same style
/// of the parent and with the same slots in the cache, give styles with equal values, and leave a
/// cache that finds styles with equal values for the same declarations.
pub proof fn law_cascading_depends_on_its_arguments_only<
    'h,
    D,
    V,
    F: Fn(&[DeclarationBlock<'h, D>], bool, Option<&V>, Option<&V>) -> (V, bool),
>(
    cascade: F,
    blocks: Seq<DeclarationBlock<'h, D>>,
    shareable: bool,
    parent_style: Option<Shared<'h, V>>,
    before: CascadeState<'h, D, V>,
    style: Option<Shared<'h, V>>,
    after: CascadeState<'h, D, V>,
    other_before: CascadeState<'h, D, V>,
    other_style: Option<Shared<'h, V>>,
    other_after: CascadeState<'h, D, V>,
    query: Seq<DeclarationBlock<'h, D>>,
)
    requires
        cascade_has_one_answer::<D, V, F>(cascade),
        slots_wf(before.slots),
        before.slots == other_before.slots,
        cascades_to(cascade, blocks, shareable, parent_style, before, style, after),
        cascades_to(
            cascade,
            blocks,
            shareable,
            parent_style,
            other_before,
            other_style,
            other_after,
        ),
    ensures
        style is Some,
        other_style is Some,
        style->0.value() == other_style->0.value(),
        style_values(cached_style(after.slots, query)) == style_values(
            cached_style(other_after.slots, query),
        ),
{
}

/// Cascading keeps the handles of the heap, and the styles that it makes are handles too.
pub proof fn law_cascaded_styles_are_held<
    'h,
    D,
    V,
    F: Fn(&[DeclarationBlock<'h, D>], bool, Option<&V>, Option<&V>) -> (V, bool),
>(
    cascade: F,
    declarations: ApplicableDeclarationsView<'h, D>,
    parent_style: Option<Shared<'h, V>>,
    before: CascadeState<'h, D, V>,
    old_data: LayoutDataWrapper<'h, V>,
    new_data: LayoutDataWrapper<'h, V>,
    after: CascadeState<'h, D, V>,
    known: Shared<'h, V>,
    list: Shared<'h, D>,
)
    requires
        node_cascades_to(
            cascade,
            declarations,
            parent_style,
            before,
            old_data,
            new_data,
            after,
        ),
    ensures
        before.heap.holds_style(known) ==> after.heap.holds_style(known),
        before.heap.holds_declarations(list) ==> after.heap.holds_declarations(list),
        after.heap.holds_style(new_data.shared_data.style->0),
        declarations.before.len() > 0 ==> after.heap.holds_style(new_data.data.before_style->0),
        declarations.after.len() > 0 ==> after.heap.holds_style(new_data.data.after_style->0),
{
}

/// The styles that cascading makes are new: none is to an allocation that was handed out before,
/// and no two of them are to the same. `known` is any style of the heap.
pub proof fn law_cascaded_styles_are_new<
    'h,
    D,
    V,
    F: Fn(&[DeclarationBlock<'h, D>], bool, Option<&V>, Option<&V>) -> (V, bool),
>(
    cascade: F,
    declarations: ApplicableDeclarationsView<'h, D>,
    parent_style: Option<Shared<'h, V>>,
    before: CascadeState<'h, D, V>,
    old_data: LayoutDataWrapper<'h, V>,
    new_data: LayoutDataWrapper<'h, V>,
    after: CascadeState<'h, D, V>,
    known: Shared<'h, V>,
)
    requires
        node_cascades_to(
            cascade,
            declarations,
            parent_style,
            before,
            old_data,
            new_data,
            after,
        ),
        before.heap.holds_style(known),
    ensures
        new_data.shared_data.style matches Some(style) && {
            &&& before.heap.issued <= style.id() < after.heap.issued
            &&& style.id() != known.id()
            &&& declarations.before.len() > 0 ==> (new_data.data.before_style matches Some(
                before_style,
            ) && {
                &&& before.heap.issued <= before_style.id() < after.heap.issued
                &&& before_style.id() != known.id()
                &&& before_style.id() != style.id()
            })
            &&& declarations.after.len() > 0 ==> (new_data.data.after_style matches Some(
                after_style,
            ) && {
                &&& before.heap.issued <= after_style.id() < after.heap.issued
                &&& after_style.id() != known.id()
                &&& after_style.id() != style.id()
                &&& declarations.before.len() > 0 ==> after_style.id()
                    != new_data.data.before_style->0.id()
            })
        },
{
}

/// Cascading leaves the style of a pseudo-element without declarations as it was.
pub proof fn law_pseudo_element_without_declarations_keeps_its_style<
    'h,
    D,
    V,
    F: Fn(&[DeclarationBlock<'h, D>], bool, Option<&V>, Option<&V>) -> (V, bool),
>(
    cascade: F,
    declarations: ApplicableDeclarationsView<'h, D>,
    parent_style: Option<Shared<'h, V>>,
    before: CascadeState<'h, D, V>,
    old_data: LayoutDataWrapper<'h, V>,
    new_data: LayoutDataWrapper<'h, V>,
    after: CascadeState<'h, D, V>,
)
    requires
        node_cascades_to(
            cascade,
            declarations,
            parent_style,
            before,
            old_data,
            new_data,
            after,
        ),
    ensures
        declarations.before.len() == 0 ==> new_data.data.before_style == old_data.data.before_style,
        declarations.after.len() == 0 ==> new_data.data.after_style == old_data.data.after_style,
{
}

} // verus!
