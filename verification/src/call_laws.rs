//! What calls give and leave behind, told by the fields of their arguments.

use crate::bloom::BloomFilter;
use crate::candidate::{
    candidate_of, StyleSharingCandidate, StyleSharingCandidateCache,
    STYLE_SHARING_CANDIDATE_CACHE_SIZE,
};
use crate::declarations::{
    block_ids, ApplicableDeclarations, ApplicableDeclarationsCacheEntry,
    ApplicableDeclarationsCacheQuery, DeclarationBlock, MatchedDeclarations, PseudoElement,
};
use crate::declarations_cache::{cached_style, slot_of, ApplicableDeclarationsCache};
use crate::laws::{law_removal_undoes_insertion, law_touch_moves_only};
use crate::lru::LRUCache;
use crate::matching::{
    borrowed_style_attribute, cascade_state, owned_style, parent_style_of, shares_with,
    CascadeState, MatchMethods, StyleSharingResult,
};
use crate::name::Name;
use crate::node::{name_views, LayoutElement, LayoutNode, NodeKind};
use crate::operation_laws::{
    is_least_position, law_cascaded_node_has_the_styles_of_its_declarations,
    law_cascaded_style_is_one_answer,
    law_cascading_is_told_its_arguments, law_element_adds_its_names,
    law_element_is_modelled_field_by_field, law_element_removes_its_names, law_eligible_nodes,
    law_found_style_has_the_same_lists, law_insertion_evicts_the_first_only,
    law_matching_collects_every_answer, law_only_the_style_changes, law_push_adds_to_one_list,
    law_same_ids, law_shareable_nodes, law_sharing_needs_parent_name_and_class,
    lemma_attribute_is_found_at_its_least_position, one_style_was_made, pseudo_style_was_made,
};
use crate::shared::{arc_ptr_eq, Allocation, Heap, Shared};
use std::collections::hash_map::DefaultHasher;
use vstd::prelude::*;

verus! {

broadcast use vstd::seq_lib::group_to_multiset_ensures;

/// Whether the attribute of an element at `i` has this namespace and name.
pub open spec fn is_called<'h, D>(
    element: LayoutElement<'h, D>,
    i: int,
    namespace: Seq<char>,
    name: Seq<char>,
) -> bool {
    &&& 0 <= i < element.attributes@.len()
    &&& element.attributes@[i].namespace@ == namespace
    &&& element.attributes@[i].name@ == name
}

/// `get_attr` returns the value of the first attribute with the namespace and the name, and nothing
/// only if no attribute, at whatever position, has both.
pub proof fn law_get_attr<'h, D>(
    element: &LayoutElement<'h, D>,
    namespace: &Name,
    name: &Name,
    result: Option<&String>,
)
    requires
        call_ensures(LayoutElement::<'h, D>::get_attr, (element, namespace, name), result),
    ensures
        result is None ==> forall|i: int| !#[trigger] is_called(*element, i, namespace@, name@),
        result matches Some(value) ==> exists|i: int|
            {
                &&& #[trigger] is_called(*element, i, namespace@, name@)
                &&& element.attributes@[i].value@ == value@
                &&& forall|j: int|
                    0 <= j < i ==> !#[trigger] is_called(*element, j, namespace@, name@)
            },
{
    law_element_is_modelled_field_by_field(*element);
    let views = element@.attributes;
    lemma_attribute_is_found_at_its_least_position(
        views,
        namespace@,
        name@,
    );
    assert forall|i: int| #[trigger] is_called(*element, i, namespace@, name@) implies {
        &&& views[i].namespace == namespace@
        &&& views[i].name == name@
    } by {
        assert(views[i].value == element.attributes@[i].value@);
    }
    if let Some(value) = result {
        let i = choose|i: int| #[trigger]
            is_least_position(views, namespace@, name@, i)
                && views[i].value == value@;
        assert(views[i].value == element.attributes@[i].value@);
        assert(is_called(*element, i, namespace@, name@));
    }
}

/// An element with an attribute called `id`, without a namespace and at whatever position, or with
/// a `style` attribute, never shares a style, nor does a node that is no element; and all others
/// may.
pub proof fn law_can_share_style<'h, D, V>(node: &LayoutNode<'h, D, V>, result: bool)
    requires
        call_ensures(LayoutNode::<'h, D, V>::can_share_style, (node,), result),
    ensures
        result <==> (node.kind matches NodeKind::Element(element) && {
            &&& element.style_attribute is None
            &&& forall|i: int| !#[trigger] is_called(element, i, ""@, "id"@)
        }),
{
    law_shareable_nodes(*node);
    if let NodeKind::Element(element) = node.kind {
        if forall|i: int| !#[trigger] is_called(element, i, ""@, "id"@) {
            assert forall|i: int| 0 <= i < element.attributes@.len() implies (
            #[trigger] element.attributes@[i]).namespace@ != ""@ || element.attributes@[i].name@
                != "id"@ by {
                assert(!is_called(element, i, ""@, "id"@));
            }
        }
    }
}

/// Whether two optional strings have the same characters, or are both none.
pub open spec fn same_characters(a: Option<Seq<char>>, b: Option<Seq<char>>) -> bool {
    &&& a is Some <==> b is Some
    &&& a is Some ==> a->0 =~= b->0
}

/// A candidate suits an element exactly if the two have the same local name and the same class.
pub proof fn law_can_share_style_with<'h, D, V>(
    candidate: &StyleSharingCandidate<'h, V>,
    element: &LayoutElement<'h, D>,
    result: bool,
)
    requires
        call_ensures(
            StyleSharingCandidate::<'h, V>::can_share_style_with::<D>,
            (candidate, element),
            result,
        ),
    ensures
        result <==> candidate.local_name@ == element.local_name@ && same_characters(
            candidate@.class,
            element@.class(),
        ),
{
}

/// A node gives a candidate exactly if it is an element without a `style` attribute, whatever its
/// name, class and other attributes, it has a style, and its parent is an element with a style. The
/// candidate has these two styles.
pub proof fn law_new_candidate<'h, D, V>(
    node: &LayoutNode<'h, D, V>,
    parent: Option<&LayoutNode<'h, D, V>>,
    result: Option<StyleSharingCandidate<'h, V>>,
)
    requires
        call_ensures(StyleSharingCandidate::<'h, V>::new::<D>, (node, parent), result),
    ensures
        result is Some <==> {
            &&& node.kind is Element
            &&& node.kind->Element_0.style_attribute is None
            &&& node.layout_data is Some
            &&& node.layout_data->0.shared_data.style is Some
            &&& parent is Some
            &&& parent->0.kind is Element
            &&& parent->0.layout_data is Some
            &&& parent->0.layout_data->0.shared_data.style is Some
        },
        result matches Some(candidate) ==> {
            &&& node.layout_data->0.shared_data.style == Some(candidate.style)
            &&& parent->0.layout_data->0.shared_data.style == Some(candidate.parent_style)
            &&& candidate.local_name@ == node.kind->Element_0.local_name@
            &&& candidate@.class == node.kind->Element_0@.class()
        },
{
    law_eligible_nodes(*node, parent);
}

/// A node that is not an element without a `style` attribute leaves the candidates as they were. An
/// eligible one comes last, and the others keep their order; only where there were as many as are
/// kept, the first is gone.
pub proof fn law_insert_if_possible<'h, D, V>(
    cache: &mut StyleSharingCandidateCache<'h, V>,
    node: &LayoutNode<'h, D, V>,
    parent: Option<&LayoutNode<'h, D, V>>,
)
    requires
        old(cache).wf(),
        call_ensures(
            StyleSharingCandidateCache::<'h, V>::insert_if_possible::<D>,
            (cache, node, parent),
            (),
        ),
    ensures
        final(cache)@.len() <= STYLE_SHARING_CANDIDATE_CACHE_SIZE,
        !(node.kind is Element) || node.kind->Element_0.style_attribute is Some || node.style()
            is None || parent is None || !(parent->0.kind is Element) || parent->0.style() is None
            ==> final(cache)@ == old(cache)@,
        node.kind is Element && node.kind->Element_0.style_attribute is None && node.style()
            is Some && parent is Some && parent->0.kind is Element && parent->0.style() is Some
            ==> {
            let gone: int = if old(cache)@.len() < STYLE_SHARING_CANDIDATE_CACHE_SIZE {
                0
            } else {
                1
            };
            let last = final(cache)@[final(cache)@.len() - 1];
            &&& final(cache)@.len() == old(cache)@.len() - gone + 1
            &&& node.style() == Some(last.style)
            &&& parent->0.style() == Some(last.parent_style)
            &&& last.local_name == node.kind->Element_0.local_name@
            &&& last.class == node.kind->Element_0@.class()
            &&& forall|i: int|
                0 <= i < old(cache)@.len() - gone ==> #[trigger] final(cache)@[i] == old(
                    cache,
                )@[i + gone]
        },
{
    law_eligible_nodes(*node, parent);
    if let Some(candidate) = candidate_of(*node, parent) {
        law_insertion_evicts_the_first_only(
            old(cache)@,
            STYLE_SHARING_CANDIDATE_CACHE_SIZE as nat,
            candidate,
        );
    }
}

/// To touch a candidate makes it the last; the others keep their order, and none comes or goes.
pub proof fn law_touch<'h, V>(cache: &mut StyleSharingCandidateCache<'h, V>, index: usize)
    requires
        index < old(cache)@.len(),
        call_ensures(StyleSharingCandidateCache::<'h, V>::touch, (cache, index), ()),
    ensures
        final(cache)@.len() == old(cache)@.len(),
        final(cache)@[final(cache)@.len() - 1] == old(cache)@[index as int],
        forall|i: int| 0 <= i < index ==> #[trigger] final(cache)@[i] == old(cache)@[i],
        forall|i: int|
            index <= i < old(cache)@.len() - 1 ==> #[trigger] final(cache)@[i] == old(cache)@[i
                + 1],
{
    law_touch_moves_only(old(cache)@, index as int);
}

/// Whether two sequences of blocks have the same length, and the same list at each position.
pub open spec fn same_lists<'h, D>(
    a: Seq<DeclarationBlock<'h, D>>,
    b: Seq<DeclarationBlock<'h, D>>,
) -> bool {
    &&& a.len() == b.len()
    &&& forall|i: int|
        0 <= i < a.len() ==> (#[trigger] a[i]).declarations.id() == b[i].declarations.id()
}

/// A style that is found was stored under blocks with the same lists; nothing is found in a new
/// cache.
pub proof fn law_find<'h, D, V>(
    cache: &ApplicableDeclarationsCache<'h, D, V>,
    blocks: &[DeclarationBlock<'h, D>],
    result: Option<Shared<'h, V>>,
    new: ApplicableDeclarationsCache<'h, D, V>,
)
    requires
        cache.wf(),
        call_ensures(ApplicableDeclarationsCache::<'h, D, V>::find, (cache, blocks), result),
        call_ensures(ApplicableDeclarationsCache::<'h, D, V>::new, (), new),
    ensures
        result matches Some(style) ==> exists|i: int|
            0 <= i < cache@.len() && (#[trigger] cache@[i] matches Some((key, stored)) && stored
                == style && same_lists(key, blocks@)),
        new@ == cache@ ==> result is None,
{
    if let Some(style) = result {
        law_found_style_has_the_same_lists(cache@, blocks@, style);
        let i = slot_of(block_ids(blocks@));
        assert(cache@[i] is Some);
        assert(0 <= i < cache@.len());
    }
}

/// After a style was stored, it is what is found for blocks with the same lists; for any others,
/// what was found before is still found, or nothing is.
pub proof fn law_find_after_insert<'h, D, V>(
    cache: &mut ApplicableDeclarationsCache<'h, D, V>,
    blocks: &[DeclarationBlock<'h, D>],
    style: Shared<'h, V>,
    before: &ApplicableDeclarationsCache<'h, D, V>,
    after: &ApplicableDeclarationsCache<'h, D, V>,
    query: &[DeclarationBlock<'h, D>],
    found_before: Option<Shared<'h, V>>,
    found_after: Option<Shared<'h, V>>,
)
    requires
        old(cache).wf(),
        *before == *old(cache),
        *after == *final(cache),
        call_ensures(ApplicableDeclarationsCache::<'h, D, V>::insert, (cache, blocks, style), ()),
        call_ensures(ApplicableDeclarationsCache::<'h, D, V>::find, (before, query), found_before),
        call_ensures(ApplicableDeclarationsCache::<'h, D, V>::find, (after, query), found_after),
    ensures
        final(cache).wf(),
        same_lists(blocks@, query@) ==> found_after == Some(style),
        !same_lists(blocks@, query@) ==> found_after == found_before || found_after is None,
        !same_lists(blocks@, query@) && slot_of(block_ids(blocks@)) != slot_of(block_ids(query@))
            ==> found_after == found_before,
{
    law_same_ids(blocks@, query@);
}

/// Whether an element below `parent` agrees with what the candidate at `i` asks: the very style of
/// the parent, the name and the class.
pub open spec fn agrees<'h, D, V>(
    element: LayoutElement<'h, D>,
    parent: Option<&LayoutNode<'h, D, V>>,
    cache: StyleSharingCandidateCache<'h, V>,
    i: int,
) -> bool {
    &&& parent is Some
    &&& parent->0.kind is Element
    &&& parent->0.layout_data is Some
    &&& parent->0.layout_data->0.shared_data.style is Some
    &&& parent->0.layout_data->0.shared_data.style->0.id() == cache@[i].parent_style.id()
    &&& cache@[i].local_name == element.local_name@
    &&& cache@[i].class == element@.class()
}

/// An element with a `style` attribute, or with an attribute called `id` at whatever position, and
/// a node that is no element, are answered that they cannot share at all. Any other takes the style
/// of the first candidate that it agrees with; if there is none, it is answered that it could. Its
/// kind and its pseudo-elements stay as they were, and so does all of it where nothing is shared.
pub proof fn law_share_style_if_possible<'h, D, V>(
    node: &mut LayoutNode<'h, D, V>,
    cache: &mut StyleSharingCandidateCache<'h, V>,
    parent: Option<&LayoutNode<'h, D, V>>,
    result: StyleSharingResult,
)
    requires
        call_ensures(
            <LayoutNode<'h, D, V> as MatchMethods<'h, D, V>>::share_style_if_possible,
            (node, cache, parent),
            result,
        ),
    ensures
        final(cache)@ == old(cache)@,
        final(node).kind == old(node).kind,
        final(node).layout_data is Some <==> old(node).layout_data is Some,
        old(node).layout_data is Some ==> final(node).layout_data->0.data == old(
            node,
        ).layout_data->0.data,
        result == StyleSharingResult::CannotShare(false) <==> !(old(node).kind is Element) || old(
            node,
        ).kind->Element_0.style_attribute is Some || exists|i: int| #[trigger]
            is_called(old(node).kind->Element_0, i, ""@, "id"@),
        result is CannotShare ==> *final(node) == *old(node),
        result == StyleSharingResult::CannotShare(true) ==> forall|i: int|
            0 <= i < old(cache)@.len() ==> !#[trigger] agrees(
                old(node).kind->Element_0,
                parent,
                *old(cache),
                i,
            ),
        result matches StyleSharingResult::StyleWasShared(hit) ==> {
            &&& hit < old(cache)@.len()
            &&& agrees(old(node).kind->Element_0, parent, *old(cache), hit as int)
            &&& forall|i: int|
                0 <= i < hit ==> !#[trigger] agrees(
                    old(node).kind->Element_0,
                    parent,
                    *old(cache),
                    i,
                )
            &&& old(node).layout_data is Some ==> final(node).layout_data->0.shared_data.style
                == Some(old(cache)@[hit as int].style)
        },
{
    let start = *old(node);
    let candidates = *old(cache);
    law_shareable_nodes(start);
    if let NodeKind::Element(element) = start.kind {
        if exists|i: int| #[trigger] is_called(element, i, ""@, "id"@) {
            let i = choose|i: int| #[trigger] is_called(element, i, ""@, "id"@);
            assert(element.attributes@[i].namespace@ == ""@);
        } else {
            assert forall|i: int| 0 <= i < element.attributes@.len() implies (
            #[trigger] element.attributes@[i]).namespace@ != ""@ || element.attributes@[i].name@
                != "id"@ by {
                assert(!is_called(element, i, ""@, "id"@));
            }
        }
        assert forall|i: int| 0 <= i < candidates@.len() implies shares_with(
            element@,
            parent,
            #[trigger] candidates@[i],
        ) == agrees(element, parent, candidates, i) by {
            law_sharing_needs_parent_name_and_class(element@, parent, candidates@[i]);
        }
    }
    if let StyleSharingResult::StyleWasShared(hit) = result {
        if start.layout_data is Some {
            law_only_the_style_changes(start, candidates@[hit as int].style);
        }
    }
}

/// Every list gets behind what it had the blocks that the stylist answered for it, whatever it
/// answered for the others. The style is shareable exactly if the answer for the node was, and
/// neither pseudo-element has blocks.
pub proof fn law_match_node<
    'h,
    D,
    V,
    S: Fn(
        &LayoutNode<'h, D, V>,
        &Option<Box<BloomFilter>>,
        Option<&Shared<'h, D>>,
        Option<PseudoElement>,
    ) -> MatchedDeclarations<'h, D>,
>(
    node: &LayoutNode<'h, D, V>,
    stylist: &S,
    parent_bf: &Option<Box<BloomFilter>>,
    declarations: &mut ApplicableDeclarations<'h, D>,
    shareable: &mut bool,
)
    requires
        node.kind is Element,
        call_ensures(
            <LayoutNode<'h, D, V> as MatchMethods<'h, D, V>>::match_node::<S>,
            (node, stylist, parent_bf, declarations, shareable),
            (),
        ),
    ensures
        exists|
            style_attribute: Option<&Shared<'h, D>>,
            normal: MatchedDeclarations<'h, D>,
            before: MatchedDeclarations<'h, D>,
            after: MatchedDeclarations<'h, D>,
        |
            {
                &&& style_attribute is Some <==> node.kind->Element_0.style_attribute is Some
                &&& style_attribute is Some ==> *style_attribute->0
                    == node.kind->Element_0.style_attribute->0
                &&& #[trigger] call_ensures(
                    *stylist,
                    (node, parent_bf, style_attribute, None),
                    normal,
                )
                &&& #[trigger] call_ensures(
                    *stylist,
                    (node, parent_bf, None, Some(PseudoElement::Before)),
                    before,
                )
                &&& #[trigger] call_ensures(
                    *stylist,
                    (node, parent_bf, None, Some(PseudoElement::After)),
                    after,
                )
                &&& final(declarations).normal@ == old(declarations).normal@ + normal.declarations@
                &&& final(declarations).before@ == old(declarations).before@ + before.declarations@
                &&& final(declarations).after@ == old(declarations).after@ + after.declarations@
                &&& final(declarations).normal_shareable == normal.shareable
                &&& *final(shareable) == (normal.shareable && old(declarations).before@.len()
                    + before.declarations@.len() == 0 && old(declarations).after@.len()
                    + after.declarations@.len() == 0)
            },
{
    law_matching_collects_every_answer(
        *stylist,
        node,
        borrowed_style_attribute(node.element()->0),
        parent_bf,
        old(declarations)@,
        final(declarations)@,
    );
}

/// Cleared declarations have no blocks, and are not shareable.
pub proof fn law_clear<'h, D>(declarations: &mut ApplicableDeclarations<'h, D>)
    requires
        call_ensures(ApplicableDeclarations::<'h, D>::clear, (declarations,), ()),
    ensures
        final(declarations).normal@.len() == 0,
        final(declarations).before@.len() == 0,
        final(declarations).after@.len() == 0,
        !final(declarations).normal_shareable,
{
}

/// After an element was inserted into a filter, the filter has its local name, its namespace, its
/// id if it has one, and every one of its classes; and each name as many times more than before as
/// it is among these. Any other node leaves the filter as it was.
pub proof fn law_insert_into_bloom_filter<'h, D, V>(
    node: &LayoutNode<'h, D, V>,
    bf: &mut BloomFilter,
    key: Seq<char>,
)
    requires
        call_ensures(
            <LayoutNode<'h, D, V> as MatchMethods<'h, D, V>>::insert_into_bloom_filter,
            (node, bf),
            (),
        ),
    ensures
        !(node.kind is Element) ==> final(bf)@ == old(bf)@,
        node.kind matches NodeKind::Element(element) ==> {
            &&& final(bf)@.contains(element.local_name@)
            &&& final(bf)@.contains(element.namespace@)
            &&& element.id matches Some(id) ==> final(bf)@.contains(id@)
            &&& forall|i: int|
                0 <= i < element.classes@.len() ==> final(bf)@.contains(
                    (#[trigger] element.classes@[i])@,
                )
            &&& final(bf)@.count(key) == old(bf)@.count(key) + (if element.local_name@ == key {
                1nat
            } else {
                0
            }) + (if element.namespace@ == key {
                1nat
            } else {
                0
            }) + (if element.id is Some && element.id->0@ == key {
                1nat
            } else {
                0
            }) + element@.classes.to_multiset().count(key)
        },
{
    law_element_adds_its_names(old(bf)@, *node, key);
}

/// A removal from a filter that holds what it held after the same node was inserted takes away
/// exactly what was added.
pub proof fn law_remove_after_insert<'h, D, V>(
    node: &LayoutNode<'h, D, V>,
    inserted: &mut BloomFilter,
    removed: &mut BloomFilter,
)
    requires
        old(removed)@ == final(inserted)@,
        call_ensures(
            <LayoutNode<'h, D, V> as MatchMethods<'h, D, V>>::insert_into_bloom_filter,
            (node, inserted),
            (),
        ),
        call_ensures(
            <LayoutNode<'h, D, V> as MatchMethods<'h, D, V>>::remove_from_bloom_filter,
            (node, removed),
            (),
        ),
    ensures
        final(removed)@ == old(inserted)@,
{
    law_removal_undoes_insertion(old(inserted)@, *node);
}

/// A removal takes away one occurrence of each name of an element, as far as there are any, and
/// nothing for any other node.
pub proof fn law_remove_from_bloom_filter<'h, D, V>(
    node: &LayoutNode<'h, D, V>,
    bf: &mut BloomFilter,
    key: Seq<char>,
)
    requires
        call_ensures(
            <LayoutNode<'h, D, V> as MatchMethods<'h, D, V>>::remove_from_bloom_filter,
            (node, bf),
            (),
        ),
    ensures
        !(node.kind is Element) ==> final(bf)@ == old(bf)@,
        node.kind matches NodeKind::Element(element) ==> {
            let taken = (if element.local_name@ == key {
                1int
            } else {
                0
            }) + (if element.namespace@ == key {
                1int
            } else {
                0
            }) + (if element.id is Some && element.id->0@ == key {
                1int
            } else {
                0
            }) + element@.classes.to_multiset().count(key);
            final(bf)@.count(key) == if taken <= old(bf)@.count(key) {
                old(bf)@.count(key) - taken
            } else {
                0
            }
        },
{
    law_element_removes_its_names(old(bf)@, *node, key);
}

/// One call of `cascade_node_pseudo_element` makes one style: the answer to the declarations and
/// the flag below the values of the parent, helped by the style that is cached for the very same
/// lists, if there is a parent and such a style, and by none otherwise.
pub proof fn law_cascade_node_pseudo_element<
    'h,
    D,
    V,
    F: Fn(&[DeclarationBlock<'h, D>], bool, Option<&V>, Option<&V>) -> (V, bool),
>(
    parent_style: Option<&Shared<'h, V>>,
    blocks: &[DeclarationBlock<'h, D>],
    style: &mut Option<Shared<'h, V>>,
    cache: &mut ApplicableDeclarationsCache<'h, D, V>,
    shareable: bool,
    heap: &mut Heap<'h, D, V>,
    cascade: &F,
)
    requires
        old(cache).wf(),
        call_ensures(
            LayoutNode::<'h, D, V>::cascade_node_pseudo_element::<F>,
            (parent_style, blocks, style, cache, shareable, heap, cascade),
            (),
        ),
    ensures
        exists|parent: Option<Shared<'h, V>>|
            {
                &&& parent is Some <==> parent_style is Some
                &&& parent_style matches Some(shared) ==> parent == Some(*shared)
                &&& #[trigger] one_style_was_made(
                    *cascade,
                    blocks@,
                    shareable,
                    parent,
                    cascade_state(*old(cache), *old(heap)),
                    *final(style),
                    cascade_state(*final(cache), *final(heap)),
                )
            },
        cached_style(old(cache)@, blocks@) matches Some(help) ==> exists|i: int|
            0 <= i < old(cache)@.len() && (#[trigger] old(cache)@[i] matches Some((key, stored))
                && stored == help && same_lists(key, blocks@)),
{
    let parent = owned_style(parent_style);
    law_cascading_is_told_its_arguments::<D, V>(parent_style, None, *old(cache), *old(heap));
    law_cascaded_style_is_one_answer(
        *cascade,
        blocks@,
        shareable,
        parent,
        cascade_state(*old(cache), *old(heap)),
        *final(style),
        cascade_state(*final(cache), *final(heap)),
    );
    if let Some(help) = cached_style(old(cache)@, blocks@) {
        law_found_style_has_the_same_lists(old(cache)@, blocks@, help);
        let i = slot_of(block_ids(blocks@));
        assert(0 <= i < old(cache)@.len() && old(cache)@[i] is Some);
    }
}

/// A text takes the very style of its parent, and nothing else changes. For any other node one
/// style is made from its declarations below the style of its parent, and then one for each
/// pseudo-element with declarations, below the style just made; one without keeps what it had.
pub proof fn law_cascade_node<
    'h,
    D,
    V,
    F: Fn(&[DeclarationBlock<'h, D>], bool, Option<&V>, Option<&V>) -> (V, bool),
>(
    node: &mut LayoutNode<'h, D, V>,
    parent: Option<&LayoutNode<'h, D, V>>,
    declarations: &ApplicableDeclarations<'h, D>,
    cache: &mut ApplicableDeclarationsCache<'h, D, V>,
    heap: &mut Heap<'h, D, V>,
    cascade: &F,
)
    requires
        old(node).layout_data is Some,
        parent matches Some(parent) ==> parent.style() is Some,
        old(node).kind is Text ==> parent is Some,
        call_ensures(
            <LayoutNode<'h, D, V> as MatchMethods<'h, D, V>>::cascade_node::<F>,
            (node, parent, declarations, cache, heap, cascade),
            (),
        ),
    ensures
        final(node).kind == old(node).kind,
        final(node).layout_data is Some,
        old(node).kind is Text ==> {
            &&& final(node).layout_data->0.shared_data.style
                == parent->0.layout_data->0.shared_data.style
            &&& final(node).layout_data->0.data == old(node).layout_data->0.data
            &&& final(cache)@ == old(cache)@
            &&& final(heap)@ == old(heap)@
        },
        !(old(node).kind is Text) ==> {
            let style = final(node).layout_data->0.shared_data.style;
            exists|
                above: Option<Shared<'h, V>>,
                own: CascadeState<'h, D, V>,
                own_and_before: CascadeState<'h, D, V>,
            |
                {
                    &&& above is Some <==> parent is Some
                    &&& parent is Some ==> above == parent->0.layout_data->0.shared_data.style
                    &&& #[trigger] one_style_was_made(
                        *cascade,
                        declarations.normal@,
                        declarations.normal_shareable,
                        above,
                        cascade_state(*old(cache), *old(heap)),
                        style,
                        own,
                    )
                    &&& #[trigger] pseudo_style_was_made(
                        *cascade,
                        declarations.before@,
                        style,
                        own,
                        old(node).layout_data->0.data.before_style,
                        final(node).layout_data->0.data.before_style,
                        own_and_before,
                    )
                    &&& pseudo_style_was_made(
                        *cascade,
                        declarations.after@,
                        style,
                        own_and_before,
                        old(node).layout_data->0.data.after_style,
                        final(node).layout_data->0.data.after_style,
                        cascade_state(*final(cache), *final(heap)),
                    )
                }
        },
{
    law_cascading_is_told_its_arguments::<D, V>(None, parent, *old(cache), *old(heap));
    law_cascading_is_told_its_arguments::<D, V>(None, parent, *final(cache), *final(heap));
    if old(node).kind is Text {
        law_only_the_style_changes(*old(node), parent_style_of(parent)->0);
    } else {
        law_cascaded_node_has_the_styles_of_its_declarations(
            *cascade,
            declarations@,
            parent_style_of(parent),
            cascade_state(*old(cache), *old(heap)),
            old(node).layout_data->0,
            final(node).layout_data->0,
            cascade_state(*final(cache), *final(heap)),
        );
    }
}

/// The keys of an element are its local name and its namespace, its id if it has one, and all of
/// its classes in their order, whether or not there is an id. Any other node has none.
pub proof fn law_bloom_filter_keys<'h, D, V>(node: &LayoutNode<'h, D, V>, keys: Vec<Name>)
    requires
        call_ensures(LayoutNode::<'h, D, V>::bloom_filter_keys, (node,), keys),
    ensures
        !(node.kind is Element) ==> keys@.len() == 0,
        node.kind matches NodeKind::Element(element) ==> {
            let start: int = if element.id is Some {
                3
            } else {
                2
            };
            &&& keys@.len() == start + element.classes@.len()
            &&& keys@[0]@ == element.local_name@
            &&& keys@[1]@ == element.namespace@
            &&& element.id matches Some(id) ==> keys@[2]@ == id@
            &&& forall|i: int|
                0 <= i < element.classes@.len() ==> (#[trigger] element.classes@[i])@ == keys@[start
                    + i]@
        },
{
    let views = name_views(keys@);
    assert(views.len() == keys@.len());
    assert forall|i: int| 0 <= i < keys@.len() implies (#[trigger] keys@[i])@ == views[i] by {
    }
    if let NodeKind::Element(element) = node.kind {
        law_element_is_modelled_field_by_field(element);
        let start: int = if element.id is Some {
            3
        } else {
            2
        };
        assert(keys@[0]@ == views[0]);
        assert(keys@[1]@ == views[1]);
        assert forall|i: int| 0 <= i < element.classes@.len() implies (
        #[trigger] element.classes@[i])@ == keys@[start + i]@ by {
            assert(element@.classes[i] == element.classes@[i]@);
            assert(keys@[start + i]@ == views[start + i]);
        }
    }
}

/// Nothing is found in a new filter. After an insertion the inserted name is found, and every other
/// is found exactly if it was before.
pub proof fn law_might_contain(
    new: BloomFilter,
    found_in_new: bool,
    filter: &mut BloomFilter,
    key: &Name,
    before: &BloomFilter,
    after: &BloomFilter,
    query: &Name,
    found_before: bool,
    found_after: bool,
)
    requires
        call_ensures(BloomFilter::new, (), new),
        call_ensures(BloomFilter::might_contain, (&new, query), found_in_new),
        *before == *old(filter),
        *after == *final(filter),
        call_ensures(BloomFilter::insert, (filter, key), ()),
        call_ensures(BloomFilter::might_contain, (before, query), found_before),
        call_ensures(BloomFilter::might_contain, (after, query), found_after),
    ensures
        !found_in_new,
        found_after <==> query@ == key@ || found_before,
{
}

/// A removal of a name after its insertion leaves every name as it was found before both.
pub proof fn law_might_contain_after_removal(
    inserted: &mut BloomFilter,
    removed: &mut BloomFilter,
    key: &Name,
    before: &BloomFilter,
    after: &BloomFilter,
    query: &Name,
    found_before: bool,
    found_after: bool,
)
    requires
        *before == *old(inserted),
        *old(removed) == *final(inserted),
        *after == *final(removed),
        call_ensures(BloomFilter::insert, (inserted, key), ()),
        call_ensures(BloomFilter::remove, (removed, key), ()),
        call_ensures(BloomFilter::might_contain, (before, query), found_before),
        call_ensures(BloomFilter::might_contain, (after, query), found_after),
    ensures
        found_after == found_before,
{
    assert(final(removed)@ =~= old(inserted)@);
}

/// After an element was inserted, a name is found exactly if it was found before, or if it is the
/// local name, the namespace, the id or one of the classes of the element.
pub proof fn law_might_contain_after_node<'h, D, V>(
    node: &LayoutNode<'h, D, V>,
    filter: &mut BloomFilter,
    before: &BloomFilter,
    after: &BloomFilter,
    query: &Name,
    found_before: bool,
    found_after: bool,
)
    requires
        *before == *old(filter),
        *after == *final(filter),
        call_ensures(
            <LayoutNode<'h, D, V> as MatchMethods<'h, D, V>>::insert_into_bloom_filter,
            (node, filter),
            (),
        ),
        call_ensures(BloomFilter::might_contain, (before, query), found_before),
        call_ensures(BloomFilter::might_contain, (after, query), found_after),
    ensures
        !(node.kind is Element) ==> found_after == found_before,
        node.kind matches NodeKind::Element(element) ==> (found_after <==> {
            ||| found_before
            ||| query@ == element.local_name@
            ||| query@ == element.namespace@
            ||| element.id is Some && query@ == element.id->0@
            ||| exists|i: int|
                0 <= i < element.classes@.len() && query@ == (#[trigger] element.classes@[i])@
        }),
{
    law_element_adds_its_names(old(filter)@, *node, query@);
    if let NodeKind::Element(element) = node.kind {
        law_element_is_modelled_field_by_field(element);
        let classes = element@.classes;
        if classes.contains(query@) {
            let i = choose|i: int| 0 <= i < classes.len() && classes[i] == query@;
            assert(classes[i] == element.classes@[i]@);
        } else {
            assert(classes.to_multiset().count(query@) == 0);
        }
        if exists|i: int|
            0 <= i < element.classes@.len() && query@ == (#[trigger] element.classes@[i])@ {
            let i = choose|i: int|
                0 <= i < element.classes@.len() && query@ == (#[trigger] element.classes@[i])@;
            assert(classes[i] == element.classes@[i]@);
            assert(classes.contains(query@));
        }
    }
}

/// A key matches an entry exactly if it was made from blocks with the same lists.
pub proof fn law_equiv<'a, 'h, D>(
    blocks: &'a [DeclarationBlock<'h, D>],
    query: ApplicableDeclarationsCacheQuery<'a, 'h, D>,
    stored: &[DeclarationBlock<'h, D>],
    entry: ApplicableDeclarationsCacheEntry<'h, D>,
    result: bool,
)
    requires
        call_ensures(ApplicableDeclarationsCacheQuery::<'a, 'h, D>::new, (blocks,), query),
        call_ensures(ApplicableDeclarationsCacheEntry::<'h, D>::new, (stored,), entry),
        call_ensures(
            ApplicableDeclarationsCacheQuery::<'a, 'h, D>::equiv,
            (&query, &entry),
            result,
        ),
    ensures
        result <==> same_lists(blocks@, stored@),
{
    law_same_ids(blocks@, stored@);
}

/// The style of a candidate is given exactly to an element below an element with the very style
/// that the parent of the candidate had, with the same local name and the same class.
pub proof fn law_share_style_with_candidate_if_possible<'h, D, V>(
    node: &LayoutNode<'h, D, V>,
    parent: Option<&LayoutNode<'h, D, V>>,
    candidate: &StyleSharingCandidate<'h, V>,
    result: Option<Shared<'h, V>>,
)
    requires
        node.kind is Element,
        call_ensures(
            LayoutNode::<'h, D, V>::share_style_with_candidate_if_possible,
            (node, parent, candidate),
            result,
        ),
    ensures
        result is Some <==> {
            &&& parent is Some
            &&& parent->0.kind is Element
            &&& parent->0.layout_data is Some
            &&& parent->0.layout_data->0.shared_data.style is Some
            &&& parent->0.layout_data->0.shared_data.style->0.id() == candidate.parent_style.id()
            &&& candidate.local_name@ == node.kind->Element_0.local_name@
            &&& candidate@.class == node.kind->Element_0@.class()
        },
        result is Some ==> result == Some(candidate.style),
{
    law_sharing_needs_parent_name_and_class(node.kind->Element_0@, parent, candidate@);
}

/// Recorded values go into one new allocation, which becomes the style. If they are cacheable, that
/// style is what is found for the same blocks from now on; if not, the cache stays as it was.
pub proof fn law_record_cascaded_style<'h, D, V>(
    blocks: &[DeclarationBlock<'h, D>],
    style: &mut Option<Shared<'h, V>>,
    cache: &mut ApplicableDeclarationsCache<'h, D, V>,
    heap: &mut Heap<'h, D, V>,
    values: V,
    cacheable: bool,
    after: &ApplicableDeclarationsCache<'h, D, V>,
    found: Option<Shared<'h, V>>,
)
    requires
        old(cache).wf(),
        *after == *final(cache),
        call_ensures(
            LayoutNode::<'h, D, V>::record_cascaded_style,
            (blocks, style, cache, heap, values, cacheable),
            (),
        ),
        call_ensures(ApplicableDeclarationsCache::<'h, D, V>::find, (after, blocks), found),
    ensures
        *final(style) matches Some(made) && {
            &&& made.value() == values
            &&& made.id() == old(heap)@.issued
        },
        final(heap)@.issued == old(heap)@.issued + 1,
        final(heap)@.allocations == old(heap)@.allocations.insert(
            old(heap)@.issued,
            Allocation::Style(values),
        ),
        cacheable ==> found == *final(style),
        !cacheable ==> final(cache)@ == old(cache)@,
{
}

/// New declarations have no blocks and are not shareable. What is pushed for one list goes behind
/// what that list had and leaves the others alone; only what is pushed for the node itself sets its
/// flag.
pub proof fn law_push<'h, D>(
    new: ApplicableDeclarations<'h, D>,
    declarations: &mut ApplicableDeclarations<'h, D>,
    pseudo_element: Option<PseudoElement>,
    matched: MatchedDeclarations<'h, D>,
)
    requires
        call_ensures(ApplicableDeclarations::<'h, D>::new, (), new),
        call_ensures(
            ApplicableDeclarations::<'h, D>::push,
            (declarations, pseudo_element, matched),
            (),
        ),
    ensures
        new.normal@.len() == 0 && new.before@.len() == 0 && new.after@.len() == 0
            && !new.normal_shareable,
        final(declarations).normal@ == (if pseudo_element is None {
            old(declarations).normal@ + matched.declarations@
        } else {
            old(declarations).normal@
        }),
        final(declarations).before@ == (if pseudo_element == Some(PseudoElement::Before) {
            old(declarations).before@ + matched.declarations@
        } else {
            old(declarations).before@
        }),
        final(declarations).after@ == (if pseudo_element == Some(PseudoElement::After) {
            old(declarations).after@ + matched.declarations@
        } else {
            old(declarations).after@
        }),
        final(declarations).normal_shareable == (if pseudo_element is None {
            matched.shareable
        } else {
            old(declarations).normal_shareable
        }),
{
    law_push_adds_to_one_list(old(declarations)@, matched);
}

/// Declarations are shareable exactly if those of the node itself are, and neither pseudo-element
/// has any.
pub proof fn law_shareable<'h, D>(declarations: &ApplicableDeclarations<'h, D>, result: bool)
    requires
        call_ensures(ApplicableDeclarations::<'h, D>::shareable, (declarations,), result),
    ensures
        result <==> declarations.normal_shareable && declarations.before@.len() == 0
            && declarations.after@.len() == 0,
{
}

/// A new list of entries is empty. An insertion puts the entry last, with all others before it in
/// their order; only where the list was full, the first is gone.
pub proof fn law_lru_insert<K, V>(
    size: usize,
    new: LRUCache<K, V>,
    cache: &mut LRUCache<K, V>,
    key: K,
    value: V,
)
    requires
        size > 0,
        old(cache).wf(),
        call_ensures(LRUCache::<K, V>::new, (size,), new),
        call_ensures(LRUCache::<K, V>::insert, (cache, key, value), ()),
    ensures
        new.entries().len() == 0 && new.size() == size,
        final(cache).size() == old(cache).size(),
        ({
            let gone: int = if old(cache).entries().len() < old(cache).size() {
                0
            } else {
                1
            };
            &&& final(cache).entries().len() == old(cache).entries().len() - gone + 1
            &&& final(cache).entries()[final(cache).entries().len() - 1] == (key, value)
            &&& forall|i: int|
                0 <= i < old(cache).entries().len() - gone ==> #[trigger] final(cache).entries()[i]
                    == old(cache).entries()[i + gone]
        }),
{
    law_insertion_evicts_the_first_only(old(cache).entries(), old(cache).size(), (key, value));
}

/// To touch an entry makes it the last, and the others keep their order.
pub proof fn law_lru_touch<K, V>(cache: &mut LRUCache<K, V>, pos: usize)
    requires
        pos < old(cache).entries().len(),
        call_ensures(LRUCache::<K, V>::touch, (cache, pos), ()),
    ensures
        final(cache).size() == old(cache).size(),
        final(cache).entries().len() == old(cache).entries().len(),
        final(cache).entries()[final(cache).entries().len() - 1]
            == old(cache).entries()[pos as int],
        forall|i: int|
            0 <= i < pos ==> #[trigger] final(cache).entries()[i] == old(cache).entries()[i],
        forall|i: int|
            pos <= i < old(cache).entries().len() - 1 ==> #[trigger] final(cache).entries()[i]
                == old(cache).entries()[i + 1],
{
    law_touch_moves_only(old(cache).entries(), pos as int);
}

/// A new cache has no candidates, and there are never more than forty.
pub proof fn law_new_candidate_cache<'h, V>(
    new: StyleSharingCandidateCache<'h, V>,
    cache: StyleSharingCandidateCache<'h, V>,
)
    requires
        call_ensures(StyleSharingCandidateCache::<'h, V>::new, (), new),
        cache.wf(),
    ensures
        new.wf() && new@.len() == 0,
        cache@.len() <= 40,
        STYLE_SHARING_CANDIDATE_CACHE_SIZE == 40,
{
}

/// A handle gives back the values that were put in its allocation. It is told apart from the next
/// one that the heap hands out, whatever the values, and not from a copy of itself.
pub proof fn law_shared_styles<'h, D, V>(
    first: &mut Heap<'h, D, V>,
    second: &mut Heap<'h, D, V>,
    values: V,
    other_values: V,
    shared: Shared<'h, V>,
    other: Shared<'h, V>,
    copy: Shared<'h, V>,
    got: &V,
    same_as_other: bool,
    same_as_copy: bool,
)
    requires
        *old(second) == *final(first),
        call_ensures(Heap::<'h, D, V>::share_style, (first, values), shared),
        call_ensures(Heap::<'h, D, V>::share_style, (second, other_values), other),
        call_ensures(<Shared<'h, V> as Clone>::clone, (&shared,), copy),
        call_ensures(Shared::<'h, V>::get, (&shared,), got),
        call_ensures(arc_ptr_eq::<V>, (&shared, &other), same_as_other),
        call_ensures(arc_ptr_eq::<V>, (&shared, &copy), same_as_copy),
    ensures
        *got == values,
        !same_as_other,
        same_as_copy,
        copy == shared,
{
}

/// A handle gives back the list of declarations that was put in its allocation, and is told apart
/// from the next one that the heap hands out.
pub proof fn law_shared_declarations<'h, D, V>(
    first: &mut Heap<'h, D, V>,
    second: &mut Heap<'h, D, V>,
    list: D,
    other_list: D,
    shared: Shared<'h, D>,
    other: Shared<'h, D>,
    got: &D,
    same: bool,
)
    requires
        *old(second) == *final(first),
        call_ensures(Heap::<'h, D, V>::share_declarations, (first, list), shared),
        call_ensures(Heap::<'h, D, V>::share_declarations, (second, other_list), other),
        call_ensures(Shared::<'h, D>::get, (&shared,), got),
        call_ensures(arc_ptr_eq::<D>, (&shared, &other), same),
    ensures
        *got == list,
        !same,
{
}

/// What an element and a node are asked for are their fields.
pub proof fn law_fields_are_given<'h, D, V>(
    element: &LayoutElement<'h, D>,
    local_name: &Name,
    namespace: &Name,
    style_attribute: &Option<Shared<'h, D>>,
    node: &LayoutNode<'h, D, V>,
    is_element: bool,
    style: Option<&Shared<'h, V>>,
)
    requires
        call_ensures(LayoutElement::<'h, D>::get_local_name, (element,), local_name),
        call_ensures(LayoutElement::<'h, D>::get_namespace, (element,), namespace),
        call_ensures(LayoutElement::<'h, D>::style_attribute, (element,), style_attribute),
        call_ensures(LayoutNode::<'h, D, V>::is_element, (node,), is_element),
        call_ensures(LayoutNode::<'h, D, V>::get_style, (node,), style),
    ensures
        local_name@ == element.local_name@,
        namespace@ == element.namespace@,
        *style_attribute == element.style_attribute,
        is_element <==> node.kind is Element,
        style is Some <==> node.layout_data is Some
            && node.layout_data->0.shared_data.style is Some,
        style is Some ==> Some(*style->0) == node.layout_data->0.shared_data.style,
{
}

/// A heap can hand out as many allocations as there are identities left, and one less after each.
pub proof fn law_remaining<'h, D, V>(
    heap: &mut Heap<'h, D, V>,
    values: V,
    shared: Shared<'h, V>,
    before: &Heap<'h, D, V>,
    after: &Heap<'h, D, V>,
    remaining_before: u64,
    remaining_after: u64,
)
    requires
        old(heap)@.issued < u64::MAX,
        *before == *old(heap),
        *after == *final(heap),
        call_ensures(Heap::<'h, D, V>::share_style, (heap, values), shared),
        call_ensures(Heap::<'h, D, V>::remaining, (before,), remaining_before),
        call_ensures(Heap::<'h, D, V>::remaining, (after,), remaining_after),
    ensures
        remaining_before == u64::MAX - old(heap)@.issued,
        remaining_after == remaining_before - 1,
{
}

/// Names are equal exactly if they were made from the same characters, and a copy has those of the
/// name it was made from.
pub proof fn law_new_names(
    text: &str,
    other_text: &str,
    name: Name,
    other: Name,
    copy: Name,
    same: bool,
)
    requires
        call_ensures(Name::new, (text,), name),
        call_ensures(Name::new, (other_text,), other),
        call_ensures(<Name as Clone>::clone, (&name,), copy),
        call_ensures(<Name as PartialEq>::eq, (&name, &other), same),
    ensures
        name@ == text@,
        copy@ == text@,
        same <==> text@ == other_text@,
{
}

/// Copies of a block, of a candidate and of a key are made of the same parts.
pub proof fn law_copies<'h, D, V>(
    block: &DeclarationBlock<'h, D>,
    block_copy: DeclarationBlock<'h, D>,
    candidate: &StyleSharingCandidate<'h, V>,
    candidate_copy: StyleSharingCandidate<'h, V>,
    entry: &ApplicableDeclarationsCacheEntry<'h, D>,
    entry_copy: ApplicableDeclarationsCacheEntry<'h, D>,
)
    requires
        call_ensures(<DeclarationBlock<'h, D> as Clone>::clone, (block,), block_copy),
        call_ensures(<StyleSharingCandidate<'h, V> as Clone>::clone, (candidate,), candidate_copy),
        call_ensures(
            <ApplicableDeclarationsCacheEntry<'h, D> as Clone>::clone,
            (entry,),
            entry_copy,
        ),
    ensures
        block_copy.declarations == block.declarations,
        candidate_copy.style == candidate.style,
        candidate_copy.parent_style == candidate.parent_style,
        candidate_copy.local_name@ == candidate.local_name@,
        candidate_copy@.class == candidate@.class,
        entry_copy.declarations@ == entry.declarations@,
{
}

/// A key and an entry with the same lists feed the same to a hasher: for each block, the bytes of
/// the identity of its list, behind what was fed before.
pub proof fn law_hash<'a, 'h, D>(
    query: &ApplicableDeclarationsCacheQuery<'a, 'h, D>,
    entry: &ApplicableDeclarationsCacheEntry<'h, D>,
    query_state: &mut DefaultHasher,
    entry_state: &mut DefaultHasher,
)
    requires
        same_lists(query@, entry@),
        old(query_state)@ == old(entry_state)@,
        call_ensures(
            ApplicableDeclarationsCacheQuery::<'a, 'h, D>::hash,
            (query, query_state),
            (),
        ),
        call_ensures(ApplicableDeclarationsCacheEntry::<'h, D>::hash, (entry, entry_state), ()),
    ensures
        final(query_state)@ == final(entry_state)@,
        final(query_state)@.len() == old(query_state)@.len() + query@.len(),
        forall|i: int|
            0 <= i < old(query_state)@.len() ==> #[trigger] final(query_state)@[i] == old(
                query_state,
            )@[i],
        forall|i: int|
            0 <= i < query@.len() ==> final(query_state)@[old(query_state)@.len() + i]
                == vstd::bytes::spec_u64_to_le_bytes((#[trigger] query@[i]).declarations.id()),
{
    law_same_ids(query@, entry@);
}

} // verus!
