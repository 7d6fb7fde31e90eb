//! What the operations give, told by the fields of what they are given.

use crate::bloom::BloomFilter;
use crate::candidate::{
    candidate_of, may_be_candidate, CandidateView, StyleSharingCandidate,
    StyleSharingCandidateCache,
};
use crate::declarations::{
    block_ids, hash_writes, ApplicableDeclarations, ApplicableDeclarationsCacheEntry,
    ApplicableDeclarationsView, DeclarationBlock, MatchedDeclarations, PseudoElement,
};
use crate::declarations_cache::{
    cached_style, no_styles, slot_of, slots_wf, with_style, ApplicableDeclarationsCache, CacheSlot,
    APPLICABLE_DECLARATIONS_CACHE_SIZE,
};
use crate::laws::{
    after_stores, is_last_store, law_found_style_was_stored_last, law_storing_may_only_evict,
};
use crate::lru::lru_inserted;
use crate::matching::{
    bloom_keys, borrowed_style_attribute, can_share, cascade_hint, cascade_recorded, cascade_state,
    cascaded_styles, cascades_to, node_cascades_to, node_matches_to, owned_style, parent_is_styled,
    parent_style_of, shares_with, style_values, with_node_style, CascadeState, MatchMethods,
};
use crate::name::Name;
use crate::node::{
    attribute_value, AttributeView, ElementView, LayoutDataWrapper, LayoutElement, LayoutNode,
    NodeKind,
};
use crate::shared::{Allocation, Heap, HeapView, Shared};
use std::collections::hash_map::DefaultHasher;
use vstd::multiset::Multiset;
use vstd::prelude::*;
use vstd::std_specs::cmp::PartialEqSpec;

verus! {

broadcast use vstd::seq_lib::group_to_multiset_ensures;

/// Names are equal exactly if they have the same characters.
pub proof fn law_names_are_equal_by_their_characters(a: Name, b: Name)
    ensures
        a.eq_spec(&b) <==> a@.len() == b@.len() && forall|i: int|
            0 <= i < a@.len() ==> a@[i] == b@[i],
{
    if a@.len() == b@.len() && forall|i: int| 0 <= i < a@.len() ==> a@[i] == b@[i] {
        assert(a@ =~= b@);
    }
}

/// The model of an element has every one of its names and attributes, in their places.
pub proof fn law_element_is_modelled_field_by_field<'h, D>(element: LayoutElement<'h, D>)
    ensures
        element@.local_name == element.local_name@,
        element@.namespace == element.namespace@,
        element.id matches Some(id) ==> element@.id == Some(id@),
        element.id is None ==> element@.id is None,
        element@.style_attribute == element.style_attribute,
        element@.classes.len() == element.classes@.len(),
        forall|i: int|
            0 <= i < element.classes@.len() ==> #[trigger] element@.classes[i]
                == element.classes@[i]@,
        element@.attributes.len() == element.attributes@.len(),
        forall|i: int|
            0 <= i < element.attributes@.len() ==> {
                let attribute = #[trigger] element@.attributes[i];
                &&& attribute.namespace == element.attributes@[i].namespace@
                &&& attribute.name == element.attributes@[i].name@
                &&& attribute.value == element.attributes@[i].value@
            },
{
}

/// A node has an element exactly if it is one, and has the style in its layout data.
pub proof fn law_node_is_modelled_by_its_kind_and_data<'h, D, V>(node: LayoutNode<'h, D, V>)
    ensures
        node.node() == node,
        node.kind matches NodeKind::Element(element) ==> node.element() == Some(element@),
        node.kind is Text || node.kind is Other ==> node.element() is None,
        node.layout_data matches Some(data) ==> node.style() == data.shared_data.style,
        node.layout_data is None ==> node.style() is None,
{
}

/// Whether the attribute at `i` is the first with this namespace and name.
pub open spec fn is_least_position(
    attributes: Seq<AttributeView>,
    namespace: Seq<char>,
    name: Seq<char>,
    i: int,
) -> bool {
    &&& 0 <= i < attributes.len()
    &&& attributes[i].namespace == namespace
    &&& attributes[i].name == name
    &&& forall|j: int|
        0 <= j < i ==> (#[trigger] attributes[j]).namespace != namespace || attributes[j].name
            != name
}

/// What is found is the value at the least position with the namespace and the name, and nothing
/// is found only if there is no such position.
pub proof fn lemma_attribute_is_found_at_its_least_position(
    attributes: Seq<AttributeView>,
    namespace: Seq<char>,
    name: Seq<char>,
)
    ensures
        match attribute_value(attributes, namespace, name) {
            Some(value) => exists|i: int| #[trigger]
                is_least_position(attributes, namespace, name, i) && attributes[i].value == value,
            None => forall|i: int|
                0 <= i < attributes.len() ==> (#[trigger] attributes[i]).namespace != namespace
                    || attributes[i].name != name,
        },
    decreases attributes.len(),
{
    if attributes.len() > 0 {
        if attributes[0].namespace == namespace && attributes[0].name == name {
            assert(is_least_position(attributes, namespace, name, 0));
        } else {
            let rest = attributes.skip(1);
            lemma_attribute_is_found_at_its_least_position(rest, namespace, name);
            match attribute_value(rest, namespace, name) {
                Some(value) => {
                    let i = choose|i: int| #[trigger]
                        is_least_position(rest, namespace, name, i) && rest[i].value == value;
                    assert(attributes[i + 1] == rest[i]);
                    assert forall|j: int| 0 <= j < i + 1 implies (
                    #[trigger] attributes[j]).namespace != namespace || attributes[j].name
                        != name by {
                        if j > 0 {
                            assert(attributes[j] == rest[j - 1]);
                        }
                    }
                    assert(is_least_position(attributes, namespace, name, i + 1));
                },
                None => {
                    assert forall|j: int| 0 <= j < attributes.len() implies (
                    #[trigger] attributes[j]).namespace != namespace || attributes[j].name
                        != name by {
                        if j > 0 {
                            assert(attributes[j] == rest[j - 1]);
                        }
                    }
                },
            }
        }
    }
}

/// An attribute is found exactly if one at some position has the namespace and the name, and what
/// is found is the value at the least such position.
pub proof fn law_attribute_is_found_at_its_least_position(
    attributes: Seq<AttributeView>,
    namespace: Seq<char>,
    name: Seq<char>,
)
    ensures
        attribute_value(attributes, namespace, name) is Some <==> exists|i: int|
            0 <= i < attributes.len() && (#[trigger] attributes[i]).namespace == namespace
                && attributes[i].name == name,
        forall|i: int| #[trigger]
            is_least_position(attributes, namespace, name, i) ==> attribute_value(
                attributes,
                namespace,
                name,
            ) == Some(attributes[i].value),
{
    lemma_attribute_is_found_at_its_least_position(attributes, namespace, name);
    if let Some(value) = attribute_value(attributes, namespace, name) {
        let least = choose|i: int| #[trigger]
            is_least_position(attributes, namespace, name, i) && attributes[i].value == value;
        assert(attributes[least].namespace == namespace);
        assert forall|i: int| #[trigger]
            is_least_position(attributes, namespace, name, i) implies attributes[i].value
            == value by {
            assert(attributes[i].namespace == namespace);
            assert(!(i < least) && !(least < i));
        }
    }
}

/// The class of an element is the value of the attribute without a namespace that is called so,
/// wherever it stands, and an element has an `id` attribute exactly if one is called that.
pub proof fn law_class_and_id_are_attributes<'h, D>(element: ElementView<'h, D>)
    ensures
        element.class() is Some <==> exists|i: int|
            0 <= i < element.attributes.len() && (#[trigger] element.attributes[i]).namespace
                == ""@ && element.attributes[i].name == "class"@,
        forall|i: int| #[trigger]
            is_least_position(element.attributes, ""@, "class"@, i) ==> element.class() == Some(
                element.attributes[i].value,
            ),
        element.has_id_attribute() <==> exists|i: int|
            0 <= i < element.attributes.len() && (#[trigger] element.attributes[i]).namespace
                == ""@ && element.attributes[i].name == "id"@,
{
    law_attribute_is_found_at_its_least_position(element.attributes, ""@, "class"@);
    law_attribute_is_found_at_its_least_position(element.attributes, ""@, "id"@);
}

/// The style of a node can be shared exactly if the node is an element, has no `style` attribute,
/// and no attribute at any position is an `id` without a namespace.
pub proof fn law_shareable_nodes<'h, D, V>(node: LayoutNode<'h, D, V>)
    ensures
        can_share(node) <==> (node.kind matches NodeKind::Element(element) && {
            &&& element.style_attribute is None
            &&& forall|i: int|
                0 <= i < element.attributes@.len() ==> (#[trigger] element.attributes@[i]).namespace@
                    != ""@ || element.attributes@[i].name@ != "id"@
        }),
{
    if let NodeKind::Element(element) = node.kind {
        law_element_is_modelled_field_by_field(element);
        law_class_and_id_are_attributes(element@);
        let views = element@.attributes;
        if element@.has_id_attribute() {
            let i = choose|i: int|
                0 <= i < views.len() && (#[trigger] views[i]).namespace == ""@ && views[i].name
                    == "id"@;
            assert(element.attributes@[i].namespace@ == ""@);
        } else {
            assert forall|i: int| 0 <= i < element.attributes@.len() implies (
            #[trigger] element.attributes@[i]).namespace@ != ""@ || element.attributes@[i].name@
                != "id"@ by {
                assert(views[i].namespace == element.attributes@[i].namespace@);
            }
        }
    }
}

/// The model of a candidate has its styles, name and class, and candidates are equal exactly if
/// both styles are to the same allocations, and name and class have the same characters.
pub proof fn law_candidates_are_equal_by_their_fields<'h, V>(
    a: StyleSharingCandidate<'h, V>,
    b: StyleSharingCandidate<'h, V>,
)
    ensures
        a@.style == a.style,
        a@.parent_style == a.parent_style,
        a@.local_name == a.local_name@,
        a.class matches Some(class) ==> a@.class == Some(class@),
        a.class is None ==> a@.class is None,
        a.eq_spec(&b) <==> {
            &&& a.style.id() == b.style.id()
            &&& a.parent_style.id() == b.parent_style.id()
            &&& a.local_name@ == b.local_name@
            &&& a.class is Some <==> b.class is Some
            &&& a.class is Some ==> a.class->0@ == b.class->0@
        },
{
}

/// The model of the candidates has every one of them, in its place.
pub proof fn law_candidates_are_modelled_one_by_one<'h, V>(
    cache: StyleSharingCandidateCache<'h, V>,
)
    ensures
        cache@.len() == cache.entries().len(),
        forall|i: int|
            0 <= i < cache@.len() ==> #[trigger] cache@[i] == (cache.entries()[i].0)@,
{
}

/// A node gives a candidate exactly if it is an element without a `style` attribute, whatever else
/// it has, it has a style, and its parent is an element that has one. The candidate has the two
/// styles, and the name and the class of the node.
pub proof fn law_eligible_nodes<'h, D, V>(
    node: LayoutNode<'h, D, V>,
    parent: Option<&LayoutNode<'h, D, V>>,
)
    ensures
        candidate_of(node, parent) is Some <==> {
            &&& node.kind is Element
            &&& node.kind->Element_0.style_attribute is None
            &&& node.layout_data is Some
            &&& node.layout_data->0.shared_data.style is Some
            &&& parent is Some
            &&& parent->0.kind is Element
            &&& parent->0.layout_data is Some
            &&& parent->0.layout_data->0.shared_data.style is Some
        },
        candidate_of(node, parent) matches Some(candidate) ==> {
            &&& node.layout_data->0.shared_data.style == Some(candidate.style)
            &&& parent->0.layout_data->0.shared_data.style == Some(candidate.parent_style)
            &&& candidate.local_name == node.kind->Element_0.local_name@
            &&& candidate.class == node.kind->Element_0@.class()
        },
{
}

/// Whether a node gives a candidate is left open only for a node that has a style and is no
/// element, below an element that has one.
pub proof fn law_undecided_nodes<'h, D, V>(
    node: LayoutNode<'h, D, V>,
    parent: Option<&LayoutNode<'h, D, V>>,
)
    ensures
        !may_be_candidate(node, parent) <==> {
            &&& !(node.kind is Element)
            &&& node.style() is Some
            &&& parent is Some
            &&& parent->0.kind is Element
            &&& parent->0.style() is Some
        },
        !parent_is_styled(parent) <==> {
            &&& parent is Some
            &&& parent->0.kind is Element
            &&& parent->0.layout_data is Some
            &&& parent->0.layout_data->0.shared_data.style is None
        },
{
}

/// An element can take the style of a candidate exactly if its parent is an element whose style is
/// the very one that the parent of the candidate had, and its name and class are those of the
/// candidate.
pub proof fn law_sharing_needs_parent_name_and_class<'h, D, V>(
    element: ElementView<'h, D>,
    parent: Option<&LayoutNode<'h, D, V>>,
    candidate: CandidateView<'h, V>,
)
    ensures
        shares_with(element, parent, candidate) <==> {
            &&& parent is Some
            &&& parent->0.kind is Element
            &&& parent->0.layout_data is Some
            &&& parent->0.layout_data->0.shared_data.style is Some
            &&& parent->0.layout_data->0.shared_data.style->0.id() == candidate.parent_style.id()
            &&& candidate.local_name == element.local_name
            &&& candidate.class == element.class()
        },
{
}

/// To give a node a style changes the style in its layout data and nothing else.
pub proof fn law_only_the_style_changes<'h, D, V>(
    node: LayoutNode<'h, D, V>,
    style: Shared<'h, V>,
)
    ensures
        with_node_style(node, style).kind == node.kind,
        with_node_style(node, style).layout_data is Some <==> node.layout_data is Some,
        node.layout_data matches Some(data) ==> {
            let styled = with_node_style(node, style).layout_data->0;
            &&& styled.shared_data.style == Some(style)
            &&& styled.data.before_style == data.data.before_style
            &&& styled.data.after_style == data.data.after_style
        },
{
}

/// What comes last in the list of candidates is what was inserted; all others keep their order,
/// and only where there is no room, the first of them is gone.
pub proof fn law_insertion_evicts_the_first_only<E>(entries: Seq<E>, size: nat, entry: E)
    requires
        0 < size,
        entries.len() <= size,
    ensures
        ({
            let gone: int = if entries.len() < size {
                0
            } else {
                1
            };
            let inserted = lru_inserted(entries, size, entry);
            &&& inserted.len() == entries.len() - gone + 1
            &&& inserted.len() <= size
            &&& inserted[inserted.len() - 1] == entry
            &&& forall|i: int|
                0 <= i < entries.len() - gone ==> #[trigger] inserted[i] == entries[i + gone]
        }),
{
}

/// Inserting an element into a filter adds one occurrence of its local name, one of its namespace,
/// one of its id if it has one, and one for each time that a name is among its classes; nothing
/// else changes. So all of these are then in the filter.
pub proof fn law_element_adds_its_names<'h, D, V>(
    filter: Multiset<Seq<char>>,
    node: LayoutNode<'h, D, V>,
    key: Seq<char>,
)
    ensures
        node.kind matches NodeKind::Element(element) ==> {
            let after = filter.add(bloom_keys(node).to_multiset());
            &&& after.count(key) == filter.count(key) + (if element.local_name@ == key {
                1nat
            } else {
                0
            }) + (if element.namespace@ == key {
                1nat
            } else {
                0
            }) + (if element.id is Some && element.id->0@ == key {
                1nat
            } else {
                0
            }) + element@.classes.to_multiset().count(key)
            &&& after.contains(element.local_name@)
            &&& after.contains(element.namespace@)
            &&& element.id matches Some(id) ==> after.contains(id@)
            &&& forall|i: int|
                0 <= i < element.classes@.len() ==> after.contains(
                    (#[trigger] element.classes@[i])@,
                )
        },
        !(node.kind is Element) ==> filter.add(bloom_keys(node).to_multiset()) == filter,
{
    if let NodeKind::Element(element) = node.kind {
        law_element_is_modelled_field_by_field(element);
        lemma_names_of_an_element(node, key);
        lemma_names_of_an_element(node, element.local_name@);
        lemma_names_of_an_element(node, element.namespace@);
        if let Some(id) = element.id {
            lemma_names_of_an_element(node, id@);
        }
        let after = filter.add(bloom_keys(node).to_multiset());
        assert forall|i: int| 0 <= i < element.classes@.len() implies after.contains(
            (#[trigger] element.classes@[i])@,
        ) by {
            lemma_names_of_an_element(node, element.classes@[i]@);
            assert(element@.classes[i] == element.classes@[i]@);
            assert(element@.classes.contains(element.classes@[i]@));
        }
    } else {
        assert(filter.add(bloom_keys(node).to_multiset()) =~= filter);
    }
}

/// Removing an element from a filter takes away as many occurrences of a name as inserting it
/// adds, as far as there are any; nothing else changes.
pub proof fn law_element_removes_its_names<'h, D, V>(
    filter: Multiset<Seq<char>>,
    node: LayoutNode<'h, D, V>,
    key: Seq<char>,
)
    ensures
        node.kind matches NodeKind::Element(element) ==> {
            let taken = (if element.local_name@ == key {
                1int
            } else {
                0
            }) + (if element.namespace@ == key {
                1int
            } else {
                0
            }) + (if element.id is Some && element.id->0@ == key {
                1int
            } else {
                0
            }) + element@.classes.to_multiset().count(key);
            filter.sub(bloom_keys(node).to_multiset()).count(key) == if taken <= filter.count(key) {
                filter.count(key) - taken
            } else {
                0
            }
        },
        !(node.kind is Element) ==> filter.sub(bloom_keys(node).to_multiset()) == filter,
{
    if let NodeKind::Element(element) = node.kind {
        lemma_names_of_an_element(node, key);
    } else {
        assert(filter.sub(bloom_keys(node).to_multiset()) =~= filter);
    }
}

/// How often a name is among those of an element.
proof fn lemma_names_of_an_element<'h, D, V>(node: LayoutNode<'h, D, V>, key: Seq<char>)
    requires
        node.kind is Element,
    ensures
        ({
            let element = node.kind->Element_0;
            bloom_keys(node).to_multiset().count(key) == (if element.local_name@ == key {
                1nat
            } else {
                0
            }) + (if element.namespace@ == key {
                1nat
            } else {
                0
            }) + (if element.id is Some && element.id->0@ == key {
                1nat
            } else {
                0
            }) + element@.classes.to_multiset().count(key)
        }),
{
    let element = node.kind->Element_0;
    let empty = Seq::<Seq<char>>::empty();
    let names = empty.push(element.local_name@).push(element.namespace@);
    let own = match element.id {
        Some(id) => names.push(id@),
        None => names,
    };
    assert(bloom_keys(node) =~= own + element@.classes);
    vstd::seq_lib::lemma_multiset_commutative(own, element@.classes);
}

/// The model of declarations has their lists and their flag; empty declarations have nothing.
pub proof fn law_declarations_are_modelled_list_by_list<'h, D>(
    declarations: ApplicableDeclarations<'h, D>,
    entry: ApplicableDeclarationsCacheEntry<'h, D>,
)
    ensures
        declarations@.normal == declarations.normal@,
        declarations@.before == declarations.before@,
        declarations@.after == declarations.after@,
        declarations@.normal_shareable == declarations.normal_shareable,
        declarations@ == ApplicableDeclarationsView::<D>::empty() <==> {
            &&& declarations.normal@.len() == 0
            &&& declarations.before@.len() == 0
            &&& declarations.after@.len() == 0
            &&& !declarations.normal_shareable
        },
        entry@ == entry.declarations@,
{
    if declarations.normal@.len() == 0 && declarations.before@.len() == 0
        && declarations.after@.len() == 0 && !declarations.normal_shareable {
        let empty = ApplicableDeclarationsView::<D>::empty();
        assert(declarations@.normal =~= empty.normal);
        assert(declarations@.before =~= empty.before);
        assert(declarations@.after =~= empty.after);
    }
}

/// A push adds the blocks to the list that they are for, behind those that are there, and touches
/// no other list; only one for the node itself decides on its flag.
pub proof fn law_push_adds_to_one_list<'h, D>(
    declarations: ApplicableDeclarationsView<'h, D>,
    matched: MatchedDeclarations<'h, D>,
)
    ensures
        ({
            let normal = declarations.pushed(None, matched);
            &&& normal.normal == declarations.normal + matched.declarations@
            &&& normal.before == declarations.before
            &&& normal.after == declarations.after
            &&& normal.normal_shareable == matched.shareable
        }),
        ({
            let before = declarations.pushed(Some(PseudoElement::Before), matched);
            &&& before.normal == declarations.normal
            &&& before.before == declarations.before + matched.declarations@
            &&& before.after == declarations.after
            &&& before.normal_shareable == declarations.normal_shareable
        }),
        ({
            let after = declarations.pushed(Some(PseudoElement::After), matched);
            &&& after.normal == declarations.normal
            &&& after.before == declarations.before
            &&& after.after == declarations.after + matched.declarations@
            &&& after.normal_shareable == declarations.normal_shareable
        }),
{
}

/// After matching, each list has behind what it had exactly the blocks that the stylist answered
/// for it, whatever it answered for the others; and the style is shareable exactly if the answer
/// for the node was, and the pseudo-elements have no blocks, neither from before nor answered. The
/// stylist was asked with the `style` attribute for the node alone.
pub proof fn law_matching_collects_every_answer<
    'h,
    N,
    D,
    S: Fn(&N, &Option<Box<BloomFilter>>, Option<&Shared<'h, D>>, Option<PseudoElement>) ->
        MatchedDeclarations<'h, D>,
>(
    stylist: S,
    node: &N,
    style_attribute: Option<&Shared<'h, D>>,
    parent_bf: &Option<Box<BloomFilter>>,
    old_declarations: ApplicableDeclarationsView<'h, D>,
    new_declarations: ApplicableDeclarationsView<'h, D>,
)
    requires
        node_matches_to(
            stylist,
            node,
            style_attribute,
            parent_bf,
            old_declarations,
            new_declarations,
        ),
    ensures
        exists|
            normal: MatchedDeclarations<'h, D>,
            before: MatchedDeclarations<'h, D>,
            after: MatchedDeclarations<'h, D>,
        |
            {
                &&& #[trigger] call_ensures(
                    stylist,
                    (node, parent_bf, style_attribute, None),
                    normal,
                )
                &&& #[trigger] call_ensures(
                    stylist,
                    (node, parent_bf, None, Some(PseudoElement::Before)),
                    before,
                )
                &&& #[trigger] call_ensures(
                    stylist,
                    (node, parent_bf, None, Some(PseudoElement::After)),
                    after,
                )
                &&& new_declarations.normal == old_declarations.normal + normal.declarations@
                &&& new_declarations.before == old_declarations.before + before.declarations@
                &&& new_declarations.after == old_declarations.after + after.declarations@
                &&& new_declarations.normal_shareable == normal.shareable
                &&& new_declarations.shareable() == (normal.shareable
                    && old_declarations.before.len() + before.declarations@.len() == 0
                    && old_declarations.after.len() + after.declarations@.len() == 0)
            },
{
}

/// The `style` attribute is handed to the stylist as it is, if the element has one.
pub proof fn law_style_attribute_is_handed_over<'h, D>(element: LayoutElement<'h, D>)
    ensures
        borrowed_style_attribute(element@) is Some <==> element.style_attribute is Some,
        element.style_attribute matches Some(declarations) ==> *borrowed_style_attribute(
            element@,
        )->0 == declarations,
{
}

/// Cache entries are equal exactly if they have as many blocks, and at each position the block of
/// one is to the same list as that of the other.
pub proof fn law_entries_are_equal_block_by_block<'h, D>(
    a: ApplicableDeclarationsCacheEntry<'h, D>,
    b: ApplicableDeclarationsCacheEntry<'h, D>,
)
    ensures
        a.eq_spec(&b) <==> a.declarations@.len() == b.declarations@.len() && forall|i: int|
            0 <= i < a.declarations@.len() ==> (#[trigger] a.declarations@[i]).declarations.id()
                == b.declarations@[i].declarations.id(),
{
    law_same_ids(a.declarations@, b.declarations@);
}

/// Sequences of blocks have the same identities exactly if they have as many blocks, and at each
/// position the same list.
pub proof fn law_same_ids<'h, D>(
    a: Seq<DeclarationBlock<'h, D>>,
    b: Seq<DeclarationBlock<'h, D>>,
)
    ensures
        block_ids(a) == block_ids(b) <==> a.len() == b.len() && forall|i: int|
            0 <= i < a.len() ==> (#[trigger] a[i]).declarations.id() == b[i].declarations.id(),
        block_ids(a).len() == a.len(),
        forall|i: int| 0 <= i < a.len() ==> #[trigger] block_ids(a)[i] == a[i].declarations.id(),
{
    if a.len() == b.len() && forall|i: int|
        0 <= i < a.len() ==> (#[trigger] a[i]).declarations.id() == b[i].declarations.id() {
        assert forall|i: int| 0 <= i < a.len() implies block_ids(a)[i] == block_ids(b)[i] by {
            assert(a[i].declarations.id() == b[i].declarations.id());
        }
        assert(block_ids(a) =~= block_ids(b));
    }
    if block_ids(a) == block_ids(b) {
        assert(block_ids(a).len() == block_ids(b).len());
        assert forall|i: int| 0 <= i < a.len() implies (#[trigger] a[i]).declarations.id()
            == b[i].declarations.id() by {
            assert(block_ids(a)[i] == block_ids(b)[i]);
        }
    }
}

/// A hasher gets one write for each identity, in order, with its eight bytes from the least
/// significant on; what it makes of the writes, modulo the number of slots, is the slot.
pub proof fn law_slot_is_the_hash_of_the_identities(ids: Seq<u64>)
    ensures
        hash_writes(ids).len() == ids.len(),
        forall|i: int|
            0 <= i < ids.len() ==> #[trigger] hash_writes(ids)[i]
                == vstd::bytes::spec_u64_to_le_bytes(ids[i]),
        slot_of(ids)
            == <DefaultHasher as vstd::std_specs::hash::DefaultHasherAdditionalSpecFns>::spec_finish(
            hash_writes(ids),
        ) as int % 32,
        0 <= slot_of(ids) < APPLICABLE_DECLARATIONS_CACHE_SIZE,
{
}

/// A style that is found sits in the slot of the blocks, under a key with as many blocks and the
/// same list at each position; and what sits there under such a key is found.
pub proof fn law_found_style_has_the_same_lists<'h, D, V>(
    slots: Seq<CacheSlot<'h, D, V>>,
    blocks: Seq<DeclarationBlock<'h, D>>,
    style: Shared<'h, V>,
)
    ensures
        cached_style(slots, blocks) == Some(style) <==> (slots[slot_of(
            block_ids(blocks),
        )] matches Some((key, stored)) && {
            &&& stored == style
            &&& key.len() == blocks.len()
            &&& forall|i: int|
                0 <= i < key.len() ==> (#[trigger] key[i]).declarations.id()
                    == blocks[i].declarations.id()
        }),
{
    if let Some((key, _)) = slots[slot_of(block_ids(blocks))] {
        law_same_ids(key, blocks);
    }
}

/// Storing fills the slot of the blocks with them and the style, and leaves the other slots.
pub proof fn law_storing_fills_one_slot<'h, D, V>(
    slots: Seq<CacheSlot<'h, D, V>>,
    blocks: Seq<DeclarationBlock<'h, D>>,
    style: Shared<'h, V>,
    i: int,
)
    requires
        slots_wf(slots),
        0 <= i < APPLICABLE_DECLARATIONS_CACHE_SIZE,
    ensures
        with_style(slots, blocks, style).len() == slots.len(),
        i == slot_of(block_ids(blocks)) ==> with_style(slots, blocks, style)[i] == Some(
            (blocks, style),
        ),
        i != slot_of(block_ids(blocks)) ==> with_style(slots, blocks, style)[i] == slots[i],
        no_styles::<D, V>().len() == slots.len(),
        no_styles::<D, V>()[i] is None,
{
}

/// A style that was last stored for some lists is found as long as none was stored in its slot
/// since.
pub proof fn law_last_stored_style_is_found<'h, D, V>(
    stores: Seq<(Seq<DeclarationBlock<'h, D>>, Shared<'h, V>)>,
    blocks: Seq<DeclarationBlock<'h, D>>,
    last: int,
)
    requires
        0 <= last < stores.len(),
        block_ids(stores[last].0) == block_ids(blocks),
        forall|j: int|
            last < j < stores.len() ==> slot_of(block_ids((#[trigger] stores[j]).0)) != slot_of(
                block_ids(blocks),
            ),
    ensures
        cached_style(after_stores(stores), blocks) == Some(stores[last].1),
    decreases stores.len(),
{
    let earlier = stores.drop_last();
    law_found_style_was_stored_last(earlier, blocks);
    assert(after_stores(stores) == with_style(
        after_stores(earlier),
        stores.last().0,
        stores.last().1,
    ));
    if last < stores.len() - 1 {
        assert(slot_of(block_ids(stores[stores.len() - 1].0)) != slot_of(block_ids(blocks)));
        assert forall|j: int| last < j < earlier.len() implies slot_of(
            block_ids((#[trigger] earlier[j]).0),
        ) != slot_of(block_ids(blocks)) by {
            assert(earlier[j] == stores[j]);
        }
        law_last_stored_style_is_found(earlier, blocks, last);
        law_storing_may_only_evict(
            after_stores(earlier),
            stores.last().0,
            stores.last().1,
            blocks,
        );
    }
}

/// Whatever was stored before, the style that is handed to the cascade as help, if one is, was
/// stored for as many blocks with the same list at each position, and none was stored for these
/// since. Without a parent, none is; and where nothing was stored for these blocks, none is.
pub proof fn law_help_was_stored_for_the_same_blocks<'h, D, V>(
    stores: Seq<(Seq<DeclarationBlock<'h, D>>, Shared<'h, V>)>,
    state: CascadeState<'h, D, V>,
    blocks: Seq<DeclarationBlock<'h, D>>,
    parent_style: Option<Shared<'h, V>>,
)
    requires
        state.slots == after_stores(stores),
    ensures
        cascade_hint(state, blocks, parent_style) matches Some(style) ==> {
            &&& parent_style is Some
            &&& exists|i: int|
                {
                    &&& #[trigger] is_last_store(stores, blocks, i)
                    &&& stores[i].1 == style
                    &&& stores[i].0.len() == blocks.len()
                    &&& forall|k: int|
                        0 <= k < blocks.len() ==> (#[trigger] stores[i].0[k]).declarations.id()
                            == blocks[k].declarations.id()
                }
        },
        (forall|i: int|
            0 <= i < stores.len() ==> block_ids((#[trigger] stores[i]).0) != block_ids(blocks))
            ==> cascade_hint(state, blocks, parent_style) is None,
        parent_style is None ==> cascade_hint(state, blocks, parent_style) is None,
        parent_style is Some ==> cascade_hint(state, blocks, parent_style) == cached_style(
            after_stores(stores),
            blocks,
        ),
{
    law_found_style_was_stored_last(stores, blocks);
    if let Some(style) = cascade_hint(state, blocks, parent_style) {
        let i = choose|i: int| #[trigger]
            is_last_store(stores, blocks, i) && stores[i].1 == style;
        law_same_ids(stores[i].0, blocks);
    }
}

/// Recording a style stores it exactly if it is cacheable, and hands out one allocation, with its
/// values; what was handed out before stays.
pub proof fn law_recording_stores_what_is_cacheable<'h, D, V>(
    state: CascadeState<'h, D, V>,
    blocks: Seq<DeclarationBlock<'h, D>>,
    style: Shared<'h, V>,
    id: nat,
)
    ensures
        cascade_recorded(state, blocks, style, true).slots == with_style(
            state.slots,
            blocks,
            style,
        ),
        cascade_recorded(state, blocks, style, false).slots == state.slots,
        forall|cacheable: bool|
            {
                let heap = #[trigger] cascade_recorded(state, blocks, style, cacheable).heap;
                &&& heap.issued == state.heap.issued + 1
                &&& heap.allocations[state.heap.issued] == Allocation::<D, V>::Style(
                    style.value(),
                )
                &&& id != state.heap.issued ==> heap.allocations[id] == state.heap.allocations[id]
            },
{
}

/// An allocation takes the next identity, and leaves what is in the others.
pub proof fn law_allocation_takes_the_next_identity<D, V>(
    heap: HeapView<D, V>,
    allocation: Allocation<D, V>,
    id: nat,
)
    ensures
        heap.allocated(allocation).issued == heap.issued + 1,
        heap.allocated(allocation).allocations[heap.issued] == allocation,
        id != heap.issued ==> heap.allocated(allocation).allocations[id] == heap.allocations[id],
{
}

/// A handle is of the heap exactly if its identity was handed out and its value was put there.
pub proof fn law_handles_of_a_heap<'h, D, V>(
    heap: HeapView<D, V>,
    style: Shared<'h, V>,
    list: Shared<'h, D>,
)
    ensures
        heap.holds_style(style) <==> style.id() < heap.issued
            && heap.allocations[style.id() as nat] == Allocation::<D, V>::Style(style.value()),
        heap.holds_declarations(list) <==> list.id() < heap.issued
            && heap.allocations[list.id() as nat] == Allocation::<D, V>::Declarations(list.value()),
{
}

/// Whether `cascade` answered with `values` and `cacheable` when it was asked with these blocks and
/// this flag, with the values of the parent and of the cached style, where there are any.
pub open spec fn answered<
    'h,
    D,
    V,
    F: Fn(&[DeclarationBlock<'h, D>], bool, Option<&V>, Option<&V>) -> (V, bool),
>(
    cascade: F,
    blocks: Seq<DeclarationBlock<'h, D>>,
    shareable: bool,
    parent: Option<Shared<'h, V>>,
    cached: Option<Shared<'h, V>>,
    values: V,
    cacheable: bool,
) -> bool {
    exists|slice: &[DeclarationBlock<'h, D>], parent_values: Option<&V>, cached_values: Option<&V>|
        {
            &&& slice@ == blocks
            &&& parent_values is Some <==> parent is Some
            &&& parent is Some ==> *parent_values->0 == parent->0.value()
            &&& cached_values is Some <==> cached is Some
            &&& cached is Some ==> *cached_values->0 == cached->0.value()
            &&& #[trigger] call_ensures(
                cascade,
                (slice, shareable, parent_values, cached_values),
                (values, cacheable),
            )
        }
}

/// Whether `style` is what one call of `cascade` gave for the blocks, in a new allocation, with the
/// style in the slot of the same blocks as help below a parent, and stored there if the answer was
/// that it may be.
pub open spec fn one_style_was_made<
    'h,
    D,
    V,
    F: Fn(&[DeclarationBlock<'h, D>], bool, Option<&V>, Option<&V>) -> (V, bool),
>(
    cascade: F,
    blocks: Seq<DeclarationBlock<'h, D>>,
    shareable: bool,
    parent: Option<Shared<'h, V>>,
    before: CascadeState<'h, D, V>,
    style: Option<Shared<'h, V>>,
    after: CascadeState<'h, D, V>,
) -> bool {
    &&& style is Some
    &&& style->0.id() == before.heap.issued
    &&& after.heap.issued == before.heap.issued + 1
    &&& after.heap.allocations == before.heap.allocations.insert(
        before.heap.issued,
        Allocation::Style(style->0.value()),
    )
    &&& exists|cached: Option<Shared<'h, V>>, cacheable: bool|
        {
            &&& #[trigger] answered(
                cascade,
                blocks,
                shareable,
                parent,
                cached,
                style->0.value(),
                cacheable,
            )
            &&& parent is Some ==> cached == cached_style(before.slots, blocks)
            &&& parent is None ==> cached is None
            &&& cacheable ==> after.slots == before.slots.update(
                slot_of(block_ids(blocks)),
                Some((blocks, style->0)),
            )
            &&& !cacheable ==> after.slots == before.slots
        }
}

/// A cascaded style is the answer to one call, with the blocks, the flag, the values of the parent
/// and those of the style that is cached for the very same blocks.
pub proof fn law_cascaded_style_is_one_answer<
    'h,
    D,
    V,
    F: Fn(&[DeclarationBlock<'h, D>], bool, Option<&V>, Option<&V>) -> (V, bool),
>(
    cascade: F,
    blocks: Seq<DeclarationBlock<'h, D>>,
    shareable: bool,
    parent_style: Option<Shared<'h, V>>,
    before: CascadeState<'h, D, V>,
    style: Option<Shared<'h, V>>,
    after: CascadeState<'h, D, V>,
)
    requires
        cascades_to(cascade, blocks, shareable, parent_style, before, style, after),
    ensures
        one_style_was_made(cascade, blocks, shareable, parent_style, before, style, after),
{
    let hint = cascade_hint(before, blocks, parent_style);
    let values = style->0.value();
    assert forall|slice: &[DeclarationBlock<'h, D>], cacheable: bool|
        slice@ == blocks && #[trigger] call_ensures(
            cascade,
            (slice, shareable, style_values(parent_style), style_values(hint)),
            (values, cacheable),
        ) implies answered(cascade, blocks, shareable, parent_style, hint, values, cacheable) by {
    }
}

/// Whether a pseudo-element has the style that was made for it if it has declarations, and else the
/// one it had.
pub open spec fn pseudo_style_was_made<
    'h,
    D,
    V,
    F: Fn(&[DeclarationBlock<'h, D>], bool, Option<&V>, Option<&V>) -> (V, bool),
>(
    cascade: F,
    blocks: Seq<DeclarationBlock<'h, D>>,
    node_style: Option<Shared<'h, V>>,
    before: CascadeState<'h, D, V>,
    old_style: Option<Shared<'h, V>>,
    new_style: Option<Shared<'h, V>>,
    after: CascadeState<'h, D, V>,
) -> bool {
    &&& blocks.len() > 0 ==> one_style_was_made(
        cascade,
        blocks,
        false,
        node_style,
        before,
        new_style,
        after,
    )
    &&& blocks.len() == 0 ==> new_style == old_style && after == before
}

/// Cascading a node makes its style first, from its declarations and its flag below the style of
/// its parent; then that of `:before` and that of `:after`, each from its own declarations below
/// the style just made and never shareable, and each only if it has declarations, whether or not
/// the other has; else it stays. One allocation is handed out for each style that is made.
pub proof fn law_cascaded_node_has_the_styles_of_its_declarations<
    'h,
    D,
    V,
    F: Fn(&[DeclarationBlock<'h, D>], bool, Option<&V>, Option<&V>) -> (V, bool),
>(
    cascade: F,
    declarations: ApplicableDeclarationsView<'h, D>,
    parent_style: Option<Shared<'h, V>>,
    before: CascadeState<'h, D, V>,
    old_data: LayoutDataWrapper<'h, V>,
    new_data: LayoutDataWrapper<'h, V>,
    after: CascadeState<'h, D, V>,
)
    requires
        node_cascades_to(
            cascade,
            declarations,
            parent_style,
            before,
            old_data,
            new_data,
            after,
        ),
    ensures
        exists|own: CascadeState<'h, D, V>, own_and_before: CascadeState<'h, D, V>|
            {
                &&& #[trigger] one_style_was_made(
                    cascade,
                    declarations.normal,
                    declarations.normal_shareable,
                    parent_style,
                    before,
                    new_data.shared_data.style,
                    own,
                )
                &&& #[trigger] pseudo_style_was_made(
                    cascade,
                    declarations.before,
                    new_data.shared_data.style,
                    own,
                    old_data.data.before_style,
                    new_data.data.before_style,
                    own_and_before,
                )
                &&& pseudo_style_was_made(
                    cascade,
                    declarations.after,
                    new_data.shared_data.style,
                    own_and_before,
                    old_data.data.after_style,
                    new_data.data.after_style,
                    after,
                )
            },
        after.heap.issued == before.heap.issued + 1 + (if declarations.before.len() > 0 {
            1nat
        } else {
            0
        }) + (if declarations.after.len() > 0 {
            1nat
        } else {
            0
        }),
{
    let style = new_data.shared_data.style;
    let (own, own_and_before) = choose|
        own: CascadeState<'h, D, V>,
        own_and_before: CascadeState<'h, D, V>,
    |
        {
            &&& #[trigger] cascades_to(
                cascade,
                declarations.normal,
                declarations.normal_shareable,
                parent_style,
                before,
                style,
                own,
            )
            &&& #[trigger] crate::matching::pseudo_element_cascades_to(
                cascade,
                declarations.before,
                style,
                own,
                old_data.data.before_style,
                new_data.data.before_style,
                own_and_before,
            )
            &&& crate::matching::pseudo_element_cascades_to(
                cascade,
                declarations.after,
                style,
                own_and_before,
                old_data.data.after_style,
                new_data.data.after_style,
                after,
            )
        };
    law_cascaded_style_is_one_answer(
        cascade,
        declarations.normal,
        declarations.normal_shareable,
        parent_style,
        before,
        style,
        own,
    );
    if declarations.before.len() > 0 {
        law_cascaded_style_is_one_answer(
            cascade,
            declarations.before,
            false,
            style,
            own,
            new_data.data.before_style,
            own_and_before,
        );
    }
    if declarations.after.len() > 0 {
        law_cascaded_style_is_one_answer(
            cascade,
            declarations.after,
            false,
            style,
            own_and_before,
            new_data.data.after_style,
            after,
        );
    }
    assert(pseudo_style_was_made(
        cascade,
        declarations.before,
        style,
        own,
        old_data.data.before_style,
        new_data.data.before_style,
        own_and_before,
    ));
}

/// What cascading is told of its arguments is what they are: the style of the parent, the slots of
/// the cache, what the heap handed out, and the values of a style.
pub proof fn law_cascading_is_told_its_arguments<'h, D, V>(
    style: Option<&Shared<'h, V>>,
    parent: Option<&LayoutNode<'h, D, V>>,
    cache: ApplicableDeclarationsCache<'h, D, V>,
    heap: Heap<'h, D, V>,
)
    ensures
        owned_style(style) is Some <==> style is Some,
        style matches Some(shared) ==> owned_style(style) == Some(*shared) && *style_values(
            owned_style(style),
        )->0 == shared.value(),
        style is None ==> style_values(owned_style(style)) is None,
        parent is None ==> parent_style_of(parent) is None,
        parent matches Some(node) ==> parent_style_of(parent) == (if node.layout_data is Some {
            node.layout_data->0.shared_data.style
        } else {
            None
        }),
        cascade_state(cache, heap).slots == cache@,
        cascade_state(cache, heap).heap == heap@,
{
}

/// A text needs no new style; any other node needs one for itself and one for each pseudo-element
/// that has declarations.
pub proof fn law_styles_that_a_node_needs<'h, D, V>(
    node: LayoutNode<'h, D, V>,
    declarations: ApplicableDeclarationsView<'h, D>,
)
    ensures
        node.kind is Text ==> cascaded_styles(node, declarations) == 0,
        !(node.kind is Text) && declarations.before.len() == 0 && declarations.after.len() == 0
            ==> cascaded_styles(node, declarations) == 1,
        !(node.kind is Text) && declarations.before.len() > 0 && declarations.after.len() == 0
            ==> cascaded_styles(node, declarations) == 2,
        !(node.kind is Text) && declarations.before.len() == 0 && declarations.after.len() > 0
            ==> cascaded_styles(node, declarations) == 2,
        !(node.kind is Text) && declarations.before.len() > 0 && declarations.after.len() > 0
            ==> cascaded_styles(node, declarations) == 3,
{
}

} // verus!
