//! Selector matching, style sharing and cascading for a node.

use crate::bloom::BloomFilter;
use crate::candidate::{CandidateView, StyleSharingCandidate, StyleSharingCandidateCache};
use crate::declarations::{
    ApplicableDeclarations, ApplicableDeclarationsView, DeclarationBlock, MatchedDeclarations,
    PseudoElement,
};
use crate::declarations_cache::{cached_style, with_style, ApplicableDeclarationsCache, CacheSlot};
use crate::name::Name;
use crate::node::{
    name_views, ElementView, LayoutDataWrapper, LayoutNode, NodeKind, SharedLayoutData,
};
use crate::shared::{arc_ptr_eq, Allocation, Heap, HeapView, Shared};
use vstd::prelude::*;

verus! {

broadcast use vstd::seq_lib::group_to_multiset_ensures;

/// The results of attempting to share a style.
#[derive(Debug, Clone, Copy, PartialEq, Eq, Structural)]
pub enum StyleSharingResult {
    /// We didn't find anybody to share the style with. The boolean indicates whether the style
    /// is shareable at all.
    CannotShare(bool),
    /// The node's style can be shared. The integer specifies the index in the LRU cache that was
    /// hit.
    StyleWasShared(usize),
}

/// The names that a node adds to the filter for its descendants: the local name, the namespace,
/// the id and the classes of an element, nothing for another node.
pub open spec fn bloom_keys<'h, D, V>(node: LayoutNode<'h, D, V>) -> Seq<Seq<char>> {
    match node.element() {
        Some(element) => {
            let id = match element.id {
                Some(id) => seq![id],
                None => seq![],
            };
            seq![element.local_name, element.namespace] + id + element.classes
        },
        None => seq![],
    }
}

/// Whether the style of a node can be shared at all: the node is an element with neither a `style`
/// nor an `id` attribute.
pub open spec fn can_share<'h, D, V>(node: LayoutNode<'h, D, V>) -> bool {
    match node.element() {
        Some(element) => element.style_attribute is None && !element.has_id_attribute(),
        None => false,
    }
}

/// Whether an element that has layout data was styled.
pub open spec fn parent_is_styled<'h, D, V>(parent: Option<&LayoutNode<'h, D, V>>) -> bool {
    match parent {
        Some(parent) => parent.element() is Some && parent.layout_data is Some
            ==> parent.style() is Some,
        None => true,
    }
}

/// Whether an element below `parent` can take the style of `candidate`: the parent is an element
/// with the very style that the parent of the candidate had, and name and class agree.
pub open spec fn shares_with<'h, D, V>(
    element: ElementView<'h, D>,
    parent: Option<&LayoutNode<'h, D, V>>,
    candidate: CandidateView<'h, V>,
) -> bool {
    match parent {
        Some(parent) => match (parent.element(), parent.style()) {
            (Some(_), Some(parent_style)) => {
                &&& parent_style.id() == candidate.parent_style.id()
                &&& candidate.suits(element)
            },
            _ => false,
        },
        None => false,
    }
}

/// The node with `style` as its style.
pub open spec fn with_node_style<'h, D, V>(
    node: LayoutNode<'h, D, V>,
    style: Shared<'h, V>,
) -> LayoutNode<'h, D, V> {
    match node.layout_data {
        Some(layout_data) => LayoutNode {
            layout_data: Some(
                LayoutDataWrapper {
                    shared_data: SharedLayoutData { style: Some(style) },
                    ..layout_data
                },
            ),
            ..node
        },
        None => node,
    }
}

/// An optional style, without the borrow.
pub open spec fn owned_style<'h, V>(style: Option<&Shared<'h, V>>) -> Option<Shared<'h, V>> {
    match style {
        Some(style) => Some(*style),
        None => None,
    }
}

/// The values of an optional style.
pub open spec fn style_values<'a, 'h, V>(style: Option<Shared<'h, V>>) -> Option<&'a V> {
    match style {
        Some(style) => Some(&style.value()),
        None => None,
    }
}

/// What cascading reads and writes beside the node: the slots of the cache, and the heap.
#[verifier::reject_recursive_types(D)]
#[verifier::reject_recursive_types(V)]
pub ghost struct CascadeState<'h, D, V> {
    pub slots: Seq<CacheSlot<'h, D, V>>,
    pub heap: HeapView<D, V>,
}

/// The state that a cache and a heap are in.
pub open spec fn cascade_state<'h, D, V>(
    cache: ApplicableDeclarationsCache<'h, D, V>,
    heap: Heap<'h, D, V>,
) -> CascadeState<'h, D, V> {
    CascadeState { slots: cache@, heap: heap@ }
}

/// The cached style that helps to cascade `blocks`. Without a parent the cache is not asked.
pub open spec fn cascade_hint<'h, D, V>(
    state: CascadeState<'h, D, V>,
    blocks: Seq<DeclarationBlock<'h, D>>,
    parent_style: Option<Shared<'h, V>>,
) -> Option<Shared<'h, V>> {
    match parent_style {
        Some(_) => cached_style(state.slots, blocks),
        None => None,
    }
}

/// The state once a cascaded style was recorded for `blocks`.
pub open spec fn cascade_recorded<'h, D, V>(
    state: CascadeState<'h, D, V>,
    blocks: Seq<DeclarationBlock<'h, D>>,
    style: Shared<'h, V>,
    cacheable: bool,
) -> CascadeState<'h, D, V> {
    CascadeState {
        slots: if cacheable {
            with_style(state.slots, blocks, style)
        } else {
            state.slots
        },
        heap: state.heap.allocated(Allocation::Style(style.value())),
    }
}

/// Whether `cascade` takes these declarations and this flag, with any parent and cached values.
pub open spec fn cascade_accepts<
    'h,
    D,
    V,
    F: Fn(&[DeclarationBlock<'h, D>], bool, Option<&V>, Option<&V>) -> (V, bool),
>(cascade: F, blocks: Seq<DeclarationBlock<'h, D>>, shareable: bool) -> bool {
    forall|slice: &[DeclarationBlock<'h, D>], parent: Option<&V>, cached: Option<&V>|
        slice@ == blocks ==> #[trigger] call_requires(
            cascade,
            (slice, shareable, parent, cached),
        )
}

/// Whether `cascade` may answer with `result` on these arguments.
pub open spec fn cascade_may_answer<
    'h,
    D,
    V,
    F: Fn(&[DeclarationBlock<'h, D>], bool, Option<&V>, Option<&V>) -> (V, bool),
>(
    cascade: F,
    blocks: Seq<DeclarationBlock<'h, D>>,
    shareable: bool,
    parent_style: Option<Shared<'h, V>>,
    hint: Option<Shared<'h, V>>,
    result: (V, bool),
) -> bool {
    exists|slice: &[DeclarationBlock<'h, D>]|
        slice@ == blocks && call_ensures(
            cascade,
            (slice, shareable, style_values(parent_style), style_values(hint)),
            result,
        )
}

/// Whether cascading `blocks` may lead from `before` to `after` and give `style`: the style has a
/// new identity, its values are an answer of `cascade`, and it was stored if the answer said so.
pub open spec fn cascades_to<
    'h,
    D,
    V,
    F: Fn(&[DeclarationBlock<'h, D>], bool, Option<&V>, Option<&V>) -> (V, bool),
>(
    cascade: F,
    blocks: Seq<DeclarationBlock<'h, D>>,
    shareable: bool,
    parent_style: Option<Shared<'h, V>>,
    before: CascadeState<'h, D, V>,
    style: Option<Shared<'h, V>>,
    after: CascadeState<'h, D, V>,
) -> bool {
    match style {
        Some(style) => {
            &&& style.id() == before.heap.issued
            &&& exists|cacheable: bool|
                {
                    &&& #[trigger] cascade_may_answer(
                        cascade,
                        blocks,
                        shareable,
                        parent_style,
                        cascade_hint(before, blocks, parent_style),
                        (style.value(), cacheable),
                    )
                    &&& after == cascade_recorded(before, blocks, style, cacheable)
                }
        },
        None => false,
    }
}

/// Whether cascading the declarations of a pseudo-element, if it has any, may lead from `before` to
/// `after` and from `old_style` to `new_style`.
pub open spec fn pseudo_element_cascades_to<
    'h,
    D,
    V,
    F: Fn(&[DeclarationBlock<'h, D>], bool, Option<&V>, Option<&V>) -> (V, bool),
>(
    cascade: F,
    blocks: Seq<DeclarationBlock<'h, D>>,
    node_style: Option<Shared<'h, V>>,
    before: CascadeState<'h, D, V>,
    old_style: Option<Shared<'h, V>>,
    new_style: Option<Shared<'h, V>>,
    after: CascadeState<'h, D, V>,
) -> bool {
    if blocks.len() > 0 {
        cascades_to(cascade, blocks, false, node_style, before, new_style, after)
    } else {
        new_style == old_style && after == before
    }
}

/// Whether cascading may lead from `old_data` to `new_data` for a node that is not a text: first
/// its own declarations below the style of its parent, then those of its pseudo-elements below its
/// own style.
pub open spec fn node_cascades_to<
    'h,
    D,
    V,
    F: Fn(&[DeclarationBlock<'h, D>], bool, Option<&V>, Option<&V>) -> (V, bool),
>(
    cascade: F,
    declarations: ApplicableDeclarationsView<'h, D>,
    parent_style: Option<Shared<'h, V>>,
    before: CascadeState<'h, D, V>,
    old_data: LayoutDataWrapper<'h, V>,
    new_data: LayoutDataWrapper<'h, V>,
    after: CascadeState<'h, D, V>,
) -> bool {
    exists|own: CascadeState<'h, D, V>, own_and_before: CascadeState<'h, D, V>|
        {
            &&& #[trigger] cascades_to(
                cascade,
                declarations.normal,
                declarations.normal_shareable,
                parent_style,
                before,
                new_data.shared_data.style,
                own,
            )
            &&& #[trigger] pseudo_element_cascades_to(
                cascade,
                declarations.before,
                new_data.shared_data.style,
                own,
                old_data.data.before_style,
                new_data.data.before_style,
                own_and_before,
            )
            &&& pseudo_element_cascades_to(
                cascade,
                declarations.after,
                new_data.shared_data.style,
                own_and_before,
                old_data.data.after_style,
                new_data.data.after_style,
                after,
            )
        }
}

/// Whether `cascade` takes what cascading hands to it for a node that is not a text.
pub open spec fn node_cascade_accepts<
    'h,
    D,
    V,
    F: Fn(&[DeclarationBlock<'h, D>], bool, Option<&V>, Option<&V>) -> (V, bool),
>(cascade: F, declarations: ApplicableDeclarationsView<'h, D>) -> bool {
    &&& cascade_accepts::<D, V, F>(cascade, declarations.normal, declarations.normal_shareable)
    &&& declarations.before.len() > 0 ==> cascade_accepts::<D, V, F>(
        cascade,
        declarations.before,
        false,
    )
    &&& declarations.after.len() > 0 ==> cascade_accepts::<D, V, F>(
        cascade,
        declarations.after,
        false,
    )
}

/// How many styles cascading makes for a node: none for a text, else one for the node and one for
/// each pseudo-element with declarations.
pub open spec fn cascaded_styles<'h, D, V>(
    node: LayoutNode<'h, D, V>,
    declarations: ApplicableDeclarationsView<'h, D>,
) -> nat {
    if node.kind is Text {
        0
    } else {
        1 + (if declarations.before.len() > 0 {
            1nat
        } else {
            0
        }) + (if declarations.after.len() > 0 {
            1nat
        } else {
            0
        })
    }
}

/// The style of an optional node.
pub open spec fn parent_style_of<'h, D, V>(
    parent: Option<&LayoutNode<'h, D, V>>,
) -> Option<Shared<'h, V>> {
    match parent {
        Some(parent) => parent.style(),
        None => None,
    }
}

/// The `style` attribute of an element, borrowed.
pub open spec fn borrowed_style_attribute<'a, 'h, D>(element: ElementView<'h, D>) -> Option<
    &'a Shared<'h, D>,
> {
    match element.style_attribute {
        Some(declarations) => Some(&declarations),
        None => None,
    }
}

/// Whether matching a node may lead from `old_declarations` to `new_declarations`: `stylist` was
/// asked for the node itself with its `style` attribute, and for each pseudo-element without, and
/// its answers were added.
pub open spec fn node_matches_to<
    'h,
    N,
    D,
    S: Fn(&N, &Option<Box<BloomFilter>>, Option<&Shared<'h, D>>, Option<PseudoElement>) ->
        MatchedDeclarations<'h, D>,
>(
    stylist: S,
    node: &N,
    style_attribute: Option<&Shared<'h, D>>,
    parent_bf: &Option<Box<BloomFilter>>,
    old_declarations: ApplicableDeclarationsView<'h, D>,
    new_declarations: ApplicableDeclarationsView<'h, D>,
) -> bool {
    exists|
        normal: MatchedDeclarations<'h, D>,
        before: MatchedDeclarations<'h, D>,
        after: MatchedDeclarations<'h, D>,
    |
        {
            &&& #[trigger] call_ensures(
                stylist,
                (node, parent_bf, style_attribute, None),
                normal,
            )
            &&& #[trigger] call_ensures(
                stylist,
                (node, parent_bf, None, Some(PseudoElement::Before)),
                before,
            )
            &&& #[trigger] call_ensures(
                stylist,
                (node, parent_bf, None, Some(PseudoElement::After)),
                after,
            )
            &&& new_declarations == old_declarations.pushed(None, normal).pushed(
                Some(PseudoElement::Before),
                before,
            ).pushed(Some(PseudoElement::After), after)
        }
}

impl<'h, D, V> LayoutNode<'h, D, V> {
    /// Puts the values of a cascaded style in a new allocation, stores it for
    /// `applicable_declarations` if it is cacheable, and makes it the style.
    pub fn record_cascaded_style(
        applicable_declarations: &[DeclarationBlock<'h, D>],
        style: &mut Option<Shared<'h, V>>,
        applicable_declarations_cache: &mut ApplicableDeclarationsCache<'h, D, V>,
        heap: &mut Heap<'h, D, V>,
        the_style: V,
        cacheable: bool,
    )
        requires
            old(applicable_declarations_cache).wf(),
            old(heap)@.room() > 0,
        ensures
            final(applicable_declarations_cache).wf(),
            *final(style) matches Some(this_style) && {
                &&& this_style.id() == old(heap)@.issued
                &&& this_style.value() == the_style
                &&& cascade_state(*final(applicable_declarations_cache), *final(heap))
                    == cascade_recorded(
                    cascade_state(*old(applicable_declarations_cache), *old(heap)),
                    applicable_declarations@,
                    this_style,
                    cacheable,
                )
            },
    {
        let this_style = heap.share_style(the_style);
        // Cache the resolved style if it was cacheable.
        if cacheable {
            applicable_declarations_cache.insert(applicable_declarations, this_style.clone());
        }
        *style = Some(this_style);
    }

    /// Computes the style of a node or of a pseudo-element from its declarations and from the
    /// style of its parent.
    pub fn cascade_node_pseudo_element<
        F: Fn(&[DeclarationBlock<'h, D>], bool, Option<&V>, Option<&V>) -> (V, bool),
    >(
        parent_style: Option<&Shared<'h, V>>,
        applicable_declarations: &[DeclarationBlock<'h, D>],
        style: &mut Option<Shared<'h, V>>,
        applicable_declarations_cache: &mut ApplicableDeclarationsCache<'h, D, V>,
        shareable: bool,
        heap: &mut Heap<'h, D, V>,
        cascade: &F,
    )
        requires
            old(applicable_declarations_cache).wf(),
            old(heap)@.room() > 0,
            cascade_accepts::<D, V, F>(*cascade, applicable_declarations@, shareable),
        ensures
            final(applicable_declarations_cache).wf(),
            cascades_to(
                *cascade,
                applicable_declarations@,
                shareable,
                owned_style(parent_style),
                cascade_state(*old(applicable_declarations_cache), *old(heap)),
                *final(style),
                cascade_state(*final(applicable_declarations_cache), *final(heap)),
            ),
    {
        let (the_style, cacheable) = match parent_style {
            Some(parent_style) => {
                let cache_entry = applicable_declarations_cache.find(applicable_declarations);
                let cached_computed_values = match &cache_entry {
                    None => None,
                    Some(style) => Some(style.get()),
                };
                cascade(
                    applicable_declarations,
                    shareable,
                    Some(parent_style.get()),
                    cached_computed_values,
                )
            },
            None => cascade(applicable_declarations, shareable, None, None),
        };
        assert(cascade_may_answer(
            *cascade,
            applicable_declarations@,
            shareable,
            owned_style(parent_style),
            cascade_hint(
                cascade_state(*applicable_declarations_cache, *heap),
                applicable_declarations@,
                owned_style(parent_style),
            ),
            (the_style, cacheable),
        ));
        Self::record_cascaded_style(
            applicable_declarations,
            style,
            applicable_declarations_cache,
            heap,
            the_style,
            cacheable,
        );
    }

    /// The names that the node adds to the filter for its descendants.
    pub fn bloom_filter_keys(&self) -> (keys: Vec<Name>)
        ensures
            name_views(keys@) == bloom_keys(*self),
    {
        let mut keys: Vec<Name> = Vec::new();
        // Only elements are interesting.
        if !self.is_element() {
            assert(name_views(keys@) =~= bloom_keys(*self));
            return keys;
        }
        let element = self.as_element();
        keys.push(element.get_local_name().clone());
        keys.push(element.get_namespace().clone());
        if let Some(id) = &element.id {
            keys.push(id.clone());
        }
        let ghost start = name_views(keys@);
        let ghost classes = element@.classes;
        assert(start + classes.take(0) =~= start);
        for i in 0..element.classes.len()
            invariant
                classes == name_views(element.classes@),
                name_views(keys@) == start + classes.take(i as int),
        {
            let ghost earlier = name_views(keys@);
            let class = element.classes[i].clone();
            keys.push(class);
            assert(name_views(keys@) =~= earlier.push(class@));
            assert(classes.take(i + 1) =~= classes.take(i as int).push(classes[i as int]));
        }
        assert(start + classes.take(classes.len() as int) =~= bloom_keys(*self));
        keys
    }

    /// Whether the style of the node can be shared at all.
    pub fn can_share_style(&self) -> (shareable: bool)
        ensures
            shareable == can_share(*self),
    {
        if !self.is_element() {
            return false;
        }
        let element = self.as_element();
        element.style_attribute().is_none() && element.get_attr(
            &Name::new(""),
            &Name::new("id"),
        ).is_none()
    }

    /// The style of `candidate`, if this node can share it.
    pub fn share_style_with_candidate_if_possible(
        &self,
        parent_node: Option<&LayoutNode<'h, D, V>>,
        candidate: &StyleSharingCandidate<'h, V>,
    ) -> (style: Option<Shared<'h, V>>)
        requires
            self.element() is Some,
            parent_is_styled(parent_node),
        ensures
            style == if shares_with(self.element()->0, parent_node, candidate@) {
                Some(candidate.style)
            } else {
                None
            },
    {
        let parent_node = match parent_node {
            Some(parent_node) if parent_node.is_element() => parent_node,
            _ => return None,
        };
        match &parent_node.layout_data {
            Some(parent_layout_data) => {
                // Check parent style.
                let parent_style = parent_layout_data.shared_data.style.as_ref().unwrap();
                if !arc_ptr_eq(parent_style, &candidate.parent_style) {
                    return None;
                }
                // Check tag names, classes, etc.
                if !candidate.can_share_style_with(self.as_element()) {
                    return None;
                }
                Some(candidate.style.clone())
            },
            None => None,
        }
    }
}

/// What layout does with a node to give it a style. `D` is the type of a list of property
/// declarations, `V` that of computed values.
pub trait MatchMethods<'h, D, V>: Sized {
    /// The node itself.
    spec fn node(&self) -> LayoutNode<'h, D, V>;

    /// Inserts what `Descendant` selectors can match of the node into a filter. This is used
    /// to remove unnecessary tree climbs for `Descendant` queries: what the filter does not hold,
    /// no ancestor has.
    ///
    /// A filter of the local names, namespaces, IDs, and classes is kept; it is exact. Each node
    /// must have its names inserted _after_ its own selector matching and _before_ its
    /// children start.
    fn insert_into_bloom_filter(&self, bf: &mut BloomFilter)
        ensures
            final(bf)@ == old(bf)@.add(bloom_keys(self.node()).to_multiset()),
    ;

    /// After all the children are done css selector matching, this must be called to reset the
    /// filter after an `insert`.
    fn remove_from_bloom_filter(&self, bf: &mut BloomFilter)
        ensures
            final(bf)@ == old(bf)@.sub(bloom_keys(self.node()).to_multiset()),
    ;

    /// Adds the declarations that `stylist` finds for the node and for its pseudo-elements, and
    /// says whether the style of the node is shareable. The `style` attribute counts for the node
    /// itself only.
    fn match_node<
        S: Fn(&Self, &Option<Box<BloomFilter>>, Option<&Shared<'h, D>>, Option<PseudoElement>) ->
            MatchedDeclarations<'h, D>,
    >(
        &self,
        stylist: &S,
        parent_bf: &Option<Box<BloomFilter>>,
        applicable_declarations: &mut ApplicableDeclarations<'h, D>,
        shareable: &mut bool,
    )
        requires
            self.node().element() is Some,
            call_requires(
                *stylist,
                (self, parent_bf, borrowed_style_attribute(self.node().element()->0), None),
            ),
            call_requires(*stylist, (self, parent_bf, None, Some(PseudoElement::Before))),
            call_requires(*stylist, (self, parent_bf, None, Some(PseudoElement::After))),
        ensures
            node_matches_to(
                *stylist,
                self,
                borrowed_style_attribute(self.node().element()->0),
                parent_bf,
                old(applicable_declarations)@,
                final(applicable_declarations)@,
            ),
            *final(shareable) == final(applicable_declarations)@.shareable(),
    ;

    /// Attempts to share a style with another node. The first candidate that the node can share
    /// a style with gives it.
    fn share_style_if_possible(
        &mut self,
        style_sharing_candidate_cache: &mut StyleSharingCandidateCache<'h, V>,
        parent: Option<&LayoutNode<'h, D, V>>,
    ) -> (result: StyleSharingResult)
        requires
            old(style_sharing_candidate_cache).wf(),
            can_share(old(self).node()) && old(style_sharing_candidate_cache)@.len() > 0
                ==> parent_is_styled(parent),
            can_share(old(self).node()) && (exists|i: int|
                0 <= i < old(style_sharing_candidate_cache)@.len() && shares_with(
                    old(self).node().element()->0,
                    parent,
                    #[trigger] old(style_sharing_candidate_cache)@[i],
                )) ==> old(self).node().layout_data is Some,
        ensures
            *final(style_sharing_candidate_cache) == *old(style_sharing_candidate_cache),
            match result {
                StyleSharingResult::CannotShare(shareable) => {
                    &&& shareable == can_share(old(self).node())
                    &&& shareable ==> forall|i: int|
                        0 <= i < old(style_sharing_candidate_cache)@.len() ==> !shares_with(
                            old(self).node().element()->0,
                            parent,
                            #[trigger] old(style_sharing_candidate_cache)@[i],
                        )
                    &&& final(self).node() == old(self).node()
                },
                StyleSharingResult::StyleWasShared(hit) => {
                    &&& can_share(old(self).node())
                    &&& hit < old(style_sharing_candidate_cache)@.len()
                    &&& shares_with(
                        old(self).node().element()->0,
                        parent,
                        old(style_sharing_candidate_cache)@[hit as int],
                    )
                    &&& forall|i: int|
                        0 <= i < hit ==> !shares_with(
                            old(self).node().element()->0,
                            parent,
                            #[trigger] old(style_sharing_candidate_cache)@[i],
                        )
                    &&& final(self).node() == with_node_style(
                        old(self).node(),
                        old(style_sharing_candidate_cache)@[hit as int].style,
                    )
                },
            },
    ;

    /// Gives the node its style. A text gets a copy of the style of its parent, so that the
    /// properties that are not inherited are correctly set on its fragments. Any other node, and
    /// each of its pseudo-elements with declarations, gets the style that `cascade` makes of its
    /// declarations.
    fn cascade_node<F: Fn(&[DeclarationBlock<'h, D>], bool, Option<&V>, Option<&V>) -> (V, bool)>(
        &mut self,
        parent: Option<&LayoutNode<'h, D, V>>,
        applicable_declarations: &ApplicableDeclarations<'h, D>,
        applicable_declarations_cache: &mut ApplicableDeclarationsCache<'h, D, V>,
        heap: &mut Heap<'h, D, V>,
        cascade: &F,
    )
        requires
            old(applicable_declarations_cache).wf(),
            old(self).node().layout_data is Some,
            parent matches Some(parent) ==> parent.style() is Some,
            old(self).node().kind is Text ==> parent is Some,
            old(heap)@.room() >= cascaded_styles(old(self).node(), applicable_declarations@),
            !(old(self).node().kind is Text) ==> node_cascade_accepts::<D, V, F>(
                *cascade,
                applicable_declarations@,
            ),
        ensures
            final(applicable_declarations_cache).wf(),
            final(self).node().kind == old(self).node().kind,
            final(self).node().layout_data is Some,
            final(heap)@.issued == old(heap)@.issued + cascaded_styles(
                old(self).node(),
                applicable_declarations@,
            ),
            if old(self).node().kind is Text {
                &&& final(self).node() == with_node_style(
                    old(self).node(),
                    parent_style_of(parent)->0,
                )
                &&& cascade_state(*final(applicable_declarations_cache), *final(heap))
                    == cascade_state(*old(applicable_declarations_cache), *old(heap))
            } else {
                node_cascades_to(
                    *cascade,
                    applicable_declarations@,
                    parent_style_of(parent),
                    cascade_state(*old(applicable_declarations_cache), *old(heap)),
                    old(self).node().layout_data->0,
                    final(self).node().layout_data->0,
                    cascade_state(*final(applicable_declarations_cache), *final(heap)),
                )
            },
    ;
}

impl<'h, D, V> MatchMethods<'h, D, V> for LayoutNode<'h, D, V> {
    open spec fn node(&self) -> LayoutNode<'h, D, V> {
        *self
    }

    fn insert_into_bloom_filter(&self, bf: &mut BloomFilter) {
        let keys = self.bloom_filter_keys();
        let ghost start = bf@;
        let ghost views = name_views(keys@);
        assert(bf@ =~= start.add(views.take(0).to_multiset()));
        for i in 0..keys.len()
            invariant
                views == name_views(keys@),
                bf@ == start.add(views.take(i as int).to_multiset()),
        {
            bf.insert(&keys[i]);
            assert(views.take(i + 1) =~= views.take(i as int).push(views[i as int]));
            assert(bf@ =~= start.add(views.take(i + 1).to_multiset()));
        }
        assert(views.take(views.len() as int) =~= views);
    }

    fn remove_from_bloom_filter(&self, bf: &mut BloomFilter) {
        let keys = self.bloom_filter_keys();
        let ghost start = bf@;
        let ghost views = name_views(keys@);
        assert(bf@ =~= start.sub(views.take(0).to_multiset()));
        for i in 0..keys.len()
            invariant
                views == name_views(keys@),
                bf@ == start.sub(views.take(i as int).to_multiset()),
        {
            bf.remove(&keys[i]);
            assert(views.take(i + 1) =~= views.take(i as int).push(views[i as int]));
            assert(bf@ =~= start.sub(views.take(i + 1).to_multiset()));
        }
        assert(views.take(views.len() as int) =~= views);
    }

    fn match_node<
        S: Fn(&Self, &Option<Box<BloomFilter>>, Option<&Shared<'h, D>>, Option<PseudoElement>) ->
            MatchedDeclarations<'h, D>,
    >(
        &self,
        stylist: &S,
        parent_bf: &Option<Box<BloomFilter>>,
        applicable_declarations: &mut ApplicableDeclarations<'h, D>,
        shareable: &mut bool,
    ) {
        let style_attribute = self.as_element().style_attribute().as_ref();
        let normal = stylist(self, parent_bf, style_attribute, None);
        applicable_declarations.push(None, normal);
        let before = stylist(self, parent_bf, None, Some(PseudoElement::Before));
        applicable_declarations.push(Some(PseudoElement::Before), before);
        let after = stylist(self, parent_bf, None, Some(PseudoElement::After));
        applicable_declarations.push(Some(PseudoElement::After), after);
        *shareable = applicable_declarations.shareable();
    }

    fn share_style_if_possible(
        &mut self,
        style_sharing_candidate_cache: &mut StyleSharingCandidateCache<'h, V>,
        parent: Option<&LayoutNode<'h, D, V>>,
    ) -> (result: StyleSharingResult) {
        if !self.can_share_style() {
            return StyleSharingResult::CannotShare(false);
        }
        let ghost candidates = style_sharing_candidate_cache@;
        let entries = style_sharing_candidate_cache.iter();
        let mut i: usize = 0;
        for entry in it: entries
            invariant
                i == it.index(),
                candidates.len() <= usize::MAX,
                candidates == style_sharing_candidate_cache@,
                it.seq() == style_sharing_candidate_cache.entries().as_ref(),
                *self == *old(self),
                can_share(*self),
                candidates.len() > 0 ==> parent_is_styled(parent),
                (exists|j: int|
                    0 <= j < candidates.len() && shares_with(
                        self.element()->0,
                        parent,
                        #[trigger] candidates[j],
                    )) ==> self.layout_data is Some,
                forall|j: int|
                    0 <= j < i ==> !shares_with(
                        self.element()->0,
                        parent,
                        #[trigger] candidates[j],
                    ),
        {
            let candidate = &entry.0;
            assert(candidate@ == candidates[i as int]);
            match self.share_style_with_candidate_if_possible(parent, candidate) {
                Some(shared_style) => {
                    // Yay, cache hit. Share the style.
                    if let Some(layout_data) = &mut self.layout_data {
                        layout_data.shared_data.style = Some(shared_style);
                    }
                    return StyleSharingResult::StyleWasShared(i);
                },
                None => {},
            }
            i = i + 1;
        }
        StyleSharingResult::CannotShare(true)
    }

    fn cascade_node<F: Fn(&[DeclarationBlock<'h, D>], bool, Option<&V>, Option<&V>) -> (V, bool)>(
        &mut self,
        parent: Option<&LayoutNode<'h, D, V>>,
        applicable_declarations: &ApplicableDeclarations<'h, D>,
        applicable_declarations_cache: &mut ApplicableDeclarationsCache<'h, D, V>,
        heap: &mut Heap<'h, D, V>,
        cascade: &F,
    ) {
        // Get our parent's style.
        let parent_style = match parent {
            None => None,
            Some(parent_node) => parent_node.get_style(),
        };
        let is_text = match &self.kind {
            NodeKind::Text => true,
            _ => false,
        };
        let ghost blocks = applicable_declarations@;
        if let Some(layout_data) = &mut self.layout_data {
            let ghost old_data = *layout_data;
            let ghost start = cascade_state(*applicable_declarations_cache, *heap);
            if is_text {
                // Text nodes get a copy of the parent style. This ensures that during fragment
                // construction any non-inherited CSS properties (such as vertical-align) are
                // correctly set on the fragment(s).
                let cloned_parent_style = parent_style.unwrap().clone();
                layout_data.shared_data.style = Some(cloned_parent_style);
            } else {
                Self::cascade_node_pseudo_element(
                    parent_style,
                    applicable_declarations.normal.as_slice(),
                    &mut layout_data.shared_data.style,
                    applicable_declarations_cache,
                    applicable_declarations.normal_shareable,
                    heap,
                    cascade,
                );
                let ghost own = cascade_state(*applicable_declarations_cache, *heap);
                let ghost style = layout_data.shared_data.style;
                if applicable_declarations.before.len() > 0 {
                    Self::cascade_node_pseudo_element(
                        layout_data.shared_data.style.as_ref(),
                        applicable_declarations.before.as_slice(),
                        &mut layout_data.data.before_style,
                        applicable_declarations_cache,
                        false,
                        heap,
                        cascade,
                    );
                }
                let ghost own_and_before = cascade_state(*applicable_declarations_cache, *heap);
                assert(pseudo_element_cascades_to(
                    *cascade,
                    blocks.before,
                    style,
                    own,
                    old_data.data.before_style,
                    layout_data.data.before_style,
                    own_and_before,
                ));
                if applicable_declarations.after.len() > 0 {
                    Self::cascade_node_pseudo_element(
                        layout_data.shared_data.style.as_ref(),
                        applicable_declarations.after.as_slice(),
                        &mut layout_data.data.after_style,
                        applicable_declarations_cache,
                        false,
                        heap,
                        cascade,
                    );
                }
                let ghost all = cascade_state(*applicable_declarations_cache, *heap);
                assert(pseudo_element_cascades_to(
                    *cascade,
                    blocks.after,
                    style,
                    own_and_before,
                    old_data.data.after_style,
                    layout_data.data.after_style,
                    all,
                ));
                assert(cascades_to(
                    *cascade,
                    blocks.normal,
                    blocks.normal_shareable,
                    owned_style(parent_style),
                    start,
                    style,
                    own,
                ));
                assert(node_cascades_to(
                    *cascade,
                    blocks,
                    owned_style(parent_style),
                    start,
                    old_data,
                    *layout_data,
                    all,
                ));
            }
        }
    }
}

} // verus!
