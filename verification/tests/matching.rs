use std::cell::RefCell;
use style_matching::bloom::BloomFilter;
use style_matching::candidate::{StyleSharingCandidate, StyleSharingCandidateCache};
use style_matching::declarations::{
    ApplicableDeclarations, DeclarationBlock, MatchedDeclarations, PseudoElement,
};
use style_matching::declarations_cache::ApplicableDeclarationsCache;
use style_matching::matching::{MatchMethods, StyleSharingResult};
use style_matching::name::Name;
use style_matching::node::{
    Attribute, LayoutDataWrapper, LayoutElement, LayoutNode, NodeKind, PrivateLayoutData,
    SharedLayoutData,
};
use style_matching::shared::{arc_ptr_eq, with_heap, Heap, Shared};

type Node<'h> = LayoutNode<'h, &'static str, u32>;
type TestHeap<'h> = Heap<'h, &'static str, u32>;

fn attribute(name: &str, value: &str) -> Attribute {
    Attribute { namespace: Name::new(""), name: Name::new(name), value: value.to_string() }
}

fn element<'h>(name: &str) -> LayoutElement<'h, &'static str> {
    LayoutElement {
        local_name: Name::new(name),
        namespace: Name::new("html"),
        id: None,
        classes: Vec::new(),
        attributes: Vec::new(),
        style_attribute: None,
    }
}

fn data<'h>(style: Option<&Shared<'h, u32>>) -> Option<LayoutDataWrapper<'h, u32>> {
    Some(LayoutDataWrapper {
        shared_data: SharedLayoutData { style: style.cloned() },
        data: PrivateLayoutData { before_style: None, after_style: None },
    })
}

fn node<'h>(name: &str, style: Option<&Shared<'h, u32>>) -> Node<'h> {
    LayoutNode { kind: NodeKind::Element(element(name)), layout_data: data(style) }
}

fn other<'h>(
    kind: NodeKind<'h, &'static str>,
    style: Option<&Shared<'h, u32>>,
) -> Node<'h> {
    LayoutNode { kind, layout_data: data(style) }
}

fn blocks<'h>(
    lists: &[&Shared<'h, &'static str>],
) -> Vec<DeclarationBlock<'h, &'static str>> {
    lists.iter().map(|list| DeclarationBlock { declarations: (*list).clone() }).collect()
}

/// Gives a closure the type that matching asks for.
fn stylist_of<'h, S>(stylist: S) -> S
where
    S: Fn(
        &Node<'h>,
        &Option<Box<BloomFilter>>,
        Option<&Shared<'h, &'static str>>,
        Option<PseudoElement>,
    ) -> MatchedDeclarations<'h, &'static str>,
{
    stylist
}

/// Gives a closure the type that cascading asks for.
fn cascade_of<'h, F>(cascade: F) -> F
where
    F: Fn(
        &[DeclarationBlock<'h, &'static str>],
        bool,
        Option<&u32>,
        Option<&u32>,
    ) -> (u32, bool),
{
    cascade
}

fn named<'h>(name: &str) -> Node<'h> {
    let mut element = element(name);
    element.id = Some(Name::new("main"));
    element.classes = vec![Name::new("a"), Name::new("b"), Name::new("a")];
    LayoutNode { kind: NodeKind::Element(element), layout_data: None }
}

#[test]
fn filter_holds_name_namespace_id_and_classes() {
    let mut filter = BloomFilter::new();
    named("div").insert_into_bloom_filter(&mut filter);
    for key in ["div", "html", "main", "a", "b"] {
        assert!(filter.might_contain(&Name::new(key)));
    }
    assert!(!filter.might_contain(&Name::new("c")));
    assert!(!filter.might_contain(&Name::new("")));
}

#[test]
fn keys_of_a_node_come_in_the_order_of_insertion() {
    let keys = named("div").bloom_filter_keys();
    let expected: Vec<Name> =
        ["div", "html", "main", "a", "b", "a"].iter().map(|key| Name::new(key)).collect();
    assert!(keys == expected);
    assert_eq!(other(NodeKind::Text, None).bloom_filter_keys().len(), 0);
    assert_eq!(node("p", None).bloom_filter_keys().len(), 2);
}

#[test]
fn removal_undoes_insertion_and_keeps_what_ancestors_share() {
    let mut filter = BloomFilter::new();
    let parent = named("div");
    let child = node("p", None);
    parent.insert_into_bloom_filter(&mut filter);
    child.insert_into_bloom_filter(&mut filter);
    assert!(filter.might_contain(&Name::new("p")));
    child.remove_from_bloom_filter(&mut filter);
    assert!(!filter.might_contain(&Name::new("p")));
    for key in ["div", "html", "main", "a", "b"] {
        assert!(filter.might_contain(&Name::new(key)));
    }
    parent.remove_from_bloom_filter(&mut filter);
    for key in ["div", "html", "main", "a", "b"] {
        assert!(!filter.might_contain(&Name::new(key)));
    }
}

#[test]
fn filter_is_reset_after_a_whole_subtree() {
    let mut filter = BloomFilter::new();
    filter.insert(&Name::new("div"));
    let (root, list, item) = (named("div"), node("ul", None), node("li", None));
    root.insert_into_bloom_filter(&mut filter);
    for _ in 0..2 {
        list.insert_into_bloom_filter(&mut filter);
        for _ in 0..3 {
            item.insert_into_bloom_filter(&mut filter);
            for key in ["div", "main", "ul", "li"] {
                assert!(filter.might_contain(&Name::new(key)));
            }
            item.remove_from_bloom_filter(&mut filter);
            assert!(!filter.might_contain(&Name::new("li")));
            assert!(filter.might_contain(&Name::new("ul")));
        }
        list.remove_from_bloom_filter(&mut filter);
        assert!(!filter.might_contain(&Name::new("ul")));
        assert!(filter.might_contain(&Name::new("html")));
    }
    root.remove_from_bloom_filter(&mut filter);
    for key in ["html", "main", "a", "b", "ul", "li"] {
        assert!(!filter.might_contain(&Name::new(key)));
    }
    assert!(filter.might_contain(&Name::new("div")));
    filter.remove(&Name::new("div"));
    assert!(!filter.might_contain(&Name::new("div")));
}

#[test]
fn repeated_class_counts_as_often_as_it_occurs() {
    let mut filter = BloomFilter::new();
    named("div").insert_into_bloom_filter(&mut filter);
    filter.remove(&Name::new("a"));
    assert!(filter.might_contain(&Name::new("a")));
    filter.remove(&Name::new("a"));
    assert!(!filter.might_contain(&Name::new("a")));
    filter.remove(&Name::new("a"));
    filter.insert(&Name::new("a"));
    assert!(filter.might_contain(&Name::new("a")));
}

#[test]
fn nodes_that_are_no_elements_leave_the_filter_alone() {
    let mut filter = BloomFilter::new();
    filter.insert(&Name::new("x"));
    for kind in [NodeKind::Text, NodeKind::Other] {
        let node = other(kind, None);
        node.insert_into_bloom_filter(&mut filter);
        assert!(filter.might_contain(&Name::new("x")));
        assert!(!filter.might_contain(&Name::new("html")));
        node.remove_from_bloom_filter(&mut filter);
        assert!(filter.might_contain(&Name::new("x")));
    }
}

#[test]
fn matching_asks_for_the_node_and_for_each_pseudo_element() {
    with_heap(|mut heap: TestHeap<'_>| {
        let lists = ["normal", "before", "after"].map(|list| heap.share_declarations(list));
        let mut element = element("p");
        let style_attribute = heap.share_declarations("style attribute");
        element.style_attribute = Some(style_attribute.clone());
        let node: Node = LayoutNode { kind: NodeKind::Element(element), layout_data: None };

        let asked = RefCell::new(Vec::new());
        let stylist = stylist_of(|_, filter, style_attribute, pseudo_element| {
            assert!(filter.as_ref().unwrap().might_contain(&Name::new("body")));
            asked.borrow_mut().push(style_attribute.map(|list| *list.get()));
            let list = match pseudo_element {
                None => &lists[0],
                Some(PseudoElement::Before) => &lists[1],
                Some(PseudoElement::After) => &lists[2],
            };
            let declarations = blocks(&[list]);
            MatchedDeclarations { declarations, shareable: pseudo_element.is_none() }
        });
        let mut filter = BloomFilter::new();
        filter.insert(&Name::new("body"));
        let mut declarations = ApplicableDeclarations::new();
        let mut shareable = true;
        node.match_node(&stylist, &Some(Box::new(filter)), &mut declarations, &mut shareable);
        assert_eq!(*asked.borrow(), vec![Some("style attribute"), None, None]);
        assert_eq!(declarations.normal.len(), 1);
        assert!(arc_ptr_eq(&declarations.normal[0].declarations, &lists[0]));
        assert!(arc_ptr_eq(&declarations.before[0].declarations, &lists[1]));
        assert!(arc_ptr_eq(&declarations.after[0].declarations, &lists[2]));
        assert!(declarations.normal_shareable);
        assert!(!shareable);
    })
}

#[test]
fn matching_adds_to_the_declarations_and_decides_on_sharing() {
    with_heap(|mut heap: TestHeap<'_>| {
        let list = heap.share_declarations("first");
        let more = heap.share_declarations("second");
        for (normal, before, after, expected) in [
            (true, 0, 0, true),
            (false, 0, 0, false),
            (true, 1, 0, false),
            (true, 0, 1, false),
        ] {
            let stylist = stylist_of(|_, _, _, pseudo_element| {
                let count = match pseudo_element {
                    None => 1,
                    Some(PseudoElement::Before) => before,
                    Some(PseudoElement::After) => after,
                };
                MatchedDeclarations {
                    declarations: (0..count).flat_map(|_| blocks(&[&more])).collect(),
                    shareable: normal,
                }
            });
            let mut declarations = ApplicableDeclarations::new();
            declarations.normal = blocks(&[&list]);
            let mut shareable = !expected;
            node("p", None).match_node(&stylist, &None, &mut declarations, &mut shareable);
            assert_eq!(shareable, expected);
            assert_eq!(declarations.normal_shareable, normal);
            assert_eq!(declarations.normal.len(), 2);
            assert!(arc_ptr_eq(&declarations.normal[0].declarations, &list));
            assert!(arc_ptr_eq(&declarations.normal[1].declarations, &more));
            assert_eq!(declarations.before.len(), before);
            assert_eq!(declarations.after.len(), after);
        }
    })
}

#[test]
fn style_is_shared_with_the_first_suitable_candidate() {
    with_heap(|mut heap: TestHeap<'_>| {
        let parent_style = heap.share_style(1u32);
        let parent = node("body", Some(&parent_style));
        let mut cache = StyleSharingCandidateCache::new();
        let styles: Vec<_> = (10..13u32).map(|i| heap.share_style(i)).collect();
        for (name, style) in ["div", "p", "p"].iter().zip(styles.iter()) {
            cache.insert_if_possible(&node(name, Some(style)), Some(&parent));
        }
        let mut sibling = node("p", None);
        let result = sibling.share_style_if_possible(&mut cache, Some(&parent));
        assert_eq!(result, StyleSharingResult::StyleWasShared(1));
        assert!(arc_ptr_eq(sibling.get_style().unwrap(), &styles[1]));
        assert!(sibling.layout_data.as_ref().unwrap().data.before_style.is_none());
        assert_eq!(cache.iter().count(), 3);

        let given = StyleSharingCandidate::new(&sibling, Some(&parent)).unwrap();
        let (hit, ()) = cache.iter().nth(1).unwrap();
        assert!(given == *hit);

        cache.touch(1);
        let mut another = node("p", None);
        let result = another.share_style_if_possible(&mut cache, Some(&parent));
        assert_eq!(result, StyleSharingResult::StyleWasShared(1));
        assert!(arc_ptr_eq(another.get_style().unwrap(), &styles[2]));
    })
}

#[test]
fn style_is_shared_only_below_the_very_style_of_the_parent() {
    with_heap(|mut heap: TestHeap<'_>| {
        let parent = node("body", Some(&heap.share_style(1u32)));
        let look_alike = node("body", Some(&heap.share_style(1u32)));
        let style = heap.share_style(2u32);
        let mut cache = StyleSharingCandidateCache::new();
        cache.insert_if_possible(&node("p", Some(&style)), Some(&parent));
        let no_element = other(NodeKind::Other, parent.get_style());
        let mut no_data = node("body", None);
        no_data.layout_data = None;
        for parent in [Some(&look_alike), Some(&no_element), Some(&no_data), None] {
            let mut node = node("p", None);
            let result = node.share_style_if_possible(&mut cache, parent);
            assert_eq!(result, StyleSharingResult::CannotShare(true));
            assert!(node.get_style().is_none());
        }
    })
}

#[test]
fn style_that_is_not_shareable_is_told_apart_from_a_miss() {
    with_heap(|mut heap: TestHeap<'_>| {
        let parent = node("body", Some(&heap.share_style(1u32)));
        let style = heap.share_style(2u32);
        let mut cache = StyleSharingCandidateCache::new();
        cache.insert_if_possible(&node("p", Some(&style)), Some(&parent));

        let mut with_id = element("p");
        with_id.attributes.push(attribute("id", "main"));
        let mut with_style_attribute = element("p");
        with_style_attribute.style_attribute = Some(heap.share_declarations("color: red"));
        for kind in [
            NodeKind::Text,
            NodeKind::Other,
            NodeKind::Element(with_id),
            NodeKind::Element(with_style_attribute),
        ] {
            let mut node = other(kind, None);
            assert!(!node.can_share_style());
            let result = node.share_style_if_possible(&mut cache, Some(&parent));
            assert_eq!(result, StyleSharingResult::CannotShare(false));
            assert!(node.get_style().is_none());
        }

        let mut classed = element("p");
        classed.attributes.push(attribute("class", "a"));
        let mut classed = other(NodeKind::Element(classed), None);
        assert!(classed.can_share_style());
        let result = classed.share_style_if_possible(&mut cache, Some(&parent));
        assert_eq!(result, StyleSharingResult::CannotShare(true));

        let mut empty = StyleSharingCandidateCache::new();
        let result = node("p", None).share_style_if_possible(&mut empty, Some(&parent));
        assert_eq!(result, StyleSharingResult::CannotShare(true));
    })
}

#[test]
fn node_with_an_id_still_gives_a_candidate() {
    with_heap(|mut heap: TestHeap<'_>| {
        let parent = node("body", Some(&heap.share_style(1u32)));
        let style = heap.share_style(2u32);
        let mut with_id = element("p");
        with_id.attributes.push(attribute("id", "main"));
        let mut cache = StyleSharingCandidateCache::new();
        cache.insert_if_possible(&other(NodeKind::Element(with_id), Some(&style)), Some(&parent));
        assert_eq!(cache.iter().count(), 1);
    })
}

#[test]
fn share_with_one_candidate() {
    with_heap(|mut heap: TestHeap<'_>| {
        let parent = node("body", Some(&heap.share_style(1u32)));
        let style = heap.share_style(2u32);
        let candidate = StyleSharingCandidate::new(&node("p", Some(&style)), Some(&parent)).unwrap();
        let shared = node("p", None).share_style_with_candidate_if_possible(Some(&parent), &candidate);
        assert!(arc_ptr_eq(&shared.unwrap(), &style));
        let missed = node("q", None).share_style_with_candidate_if_possible(Some(&parent), &candidate);
        assert!(missed.is_none());
        assert!(node("p", None).share_style_with_candidate_if_possible(None, &candidate).is_none());
    })
}

#[test]
fn text_takes_the_style_of_its_parent() {
    with_heap(|mut heap: TestHeap<'_>| {
        let parent_style = heap.share_style(1u32);
        let parent = node("p", Some(&parent_style));
        let list = heap.share_declarations("color: red");
        let mut declarations = ApplicableDeclarations::new();
        declarations.normal = blocks(&[&list]);
        declarations.before = blocks(&[&list]);
        let mut cache = ApplicableDeclarationsCache::new();
        let mut text = other(NodeKind::Text, None);
        let before = heap.remaining();
        let cascade = cascade_of(|_, _, _, _| panic!("a text does not cascade"));
        text.cascade_node(Some(&parent), &declarations, &mut cache, &mut heap, &cascade);
        assert!(arc_ptr_eq(text.get_style().unwrap(), &parent_style));
        assert!(text.layout_data.unwrap().data.before_style.is_none());
        assert_eq!(heap.remaining(), before);
        assert!(cache.find(&declarations.normal).is_none());
    })
}

#[test]
fn cascade_is_handed_the_declarations_the_parent_and_the_cached_style() {
    with_heap(|mut heap: TestHeap<'_>| {
        let parent = node("body", Some(&heap.share_style(5u32)));
        let list = heap.share_declarations("color: red");
        let mut declarations = ApplicableDeclarations::new();
        declarations.normal = blocks(&[&list]);
        declarations.normal_shareable = true;
        let mut cache = ApplicableDeclarationsCache::new();

        let calls = RefCell::new(Vec::new());
        let cascade = cascade_of(|blocks, shareable, parent, cached| {
            let mut calls = calls.borrow_mut();
            calls.push((blocks.len(), shareable, parent.copied(), cached.copied()));
            (100 + calls.len() as u32, true)
        });

        // Without a parent the cache is not asked, though the style is stored.
        let mut root = node("html", None);
        root.cascade_node(None, &declarations, &mut cache, &mut heap, &cascade);
        assert_eq!(*root.get_style().unwrap().get(), 101);
        let stored = cache.find(&declarations.normal).unwrap();
        assert!(arc_ptr_eq(&stored, root.get_style().unwrap()));
        let mut second_root = node("html", None);
        second_root.cascade_node(None, &declarations, &mut cache, &mut heap, &cascade);

        let mut child = node("p", None);
        child.cascade_node(Some(&parent), &declarations, &mut cache, &mut heap, &cascade);
        assert_eq!(*child.get_style().unwrap().get(), 103);
        assert!(!arc_ptr_eq(child.get_style().unwrap(), second_root.get_style().unwrap()));
        assert!(arc_ptr_eq(&cache.find(&declarations.normal).unwrap(), child.get_style().unwrap()));
        assert_eq!(
            *calls.borrow(),
            vec![
                (1, true, None, None),
                (1, true, None, None),
                (1, true, Some(5), Some(102)),
            ]
        );
    })
}

#[test]
fn pseudo_elements_cascade_below_the_style_of_the_node() {
    with_heap(|mut heap: TestHeap<'_>| {
        let parent = node("body", Some(&heap.share_style(5u32)));
        let lists = ["normal", "before", "after"].map(|list| heap.share_declarations(list));
        let mut declarations = ApplicableDeclarations::new();
        declarations.normal = blocks(&[&lists[0]]);
        declarations.before = blocks(&[&lists[1]]);
        declarations.after = blocks(&[&lists[2], &lists[1]]);
        declarations.normal_shareable = true;
        let mut cache = ApplicableDeclarationsCache::new();
        let calls = RefCell::new(Vec::new());
        let cascade = cascade_of(|blocks, shareable, parent, cached| {
            let mut calls = calls.borrow_mut();
            calls.push((*blocks[0].declarations.get(), shareable, parent.copied(), cached.copied()));
            (10 * calls.len() as u32, false)
        });
        let mut node = node("p", None);
        let room = heap.remaining();
        node.cascade_node(Some(&parent), &declarations, &mut cache, &mut heap, &cascade);
        assert_eq!(
            *calls.borrow(),
            vec![
                ("normal", true, Some(5), None),
                ("before", false, Some(10), None),
                ("after", false, Some(10), None),
            ]
        );
        assert_eq!(heap.remaining(), room - 3);
        let data = node.layout_data.as_ref().unwrap();
        let style = data.shared_data.style.as_ref().unwrap();
        let before = data.data.before_style.as_ref().unwrap();
        let after = data.data.after_style.as_ref().unwrap();
        assert_eq!((*style.get(), *before.get(), *after.get()), (10, 20, 30));
        assert!(!arc_ptr_eq(style, before));
        assert!(!arc_ptr_eq(style, after));
        assert!(!arc_ptr_eq(before, after));
        assert!(cache.find(&declarations.normal).is_none());
        assert!(cache.find(&declarations.before).is_none());
        assert!(cache.find(&declarations.after).is_none());
    })
}

#[test]
fn pseudo_element_without_declarations_keeps_its_style() {
    with_heap(|mut heap: TestHeap<'_>| {
        let kept = heap.share_style(77u32);
        let mut node = node("p", None);
        node.layout_data.as_mut().unwrap().data.after_style = Some(kept.clone());
        let mut cache = ApplicableDeclarationsCache::new();
        let cascade = cascade_of(|_, _, _, _| (1u32, true));
        node.cascade_node(None, &ApplicableDeclarations::new(), &mut cache, &mut heap, &cascade);
        let data = node.layout_data.as_ref().unwrap();
        assert!(data.data.before_style.is_none());
        assert!(arc_ptr_eq(data.data.after_style.as_ref().unwrap(), &kept));
        assert!(arc_ptr_eq(&cache.find(&[]).unwrap(), node.get_style().unwrap()));
    })
}

#[test]
fn node_that_is_neither_element_nor_text_cascades() {
    with_heap(|mut heap: TestHeap<'_>| {
        let mut node = other(NodeKind::Other, None);
        let mut cache = ApplicableDeclarationsCache::new();
        let cascade = cascade_of(|_, shareable, _, _| (shareable as u32, false));
        node.cascade_node(None, &ApplicableDeclarations::new(), &mut cache, &mut heap, &cascade);
        assert_eq!(*node.get_style().unwrap().get(), 0);
    })
}

#[test]
fn recorded_style_is_stored_if_it_is_cacheable() {
    with_heap(|mut heap: TestHeap<'_>| {
        let list = heap.share_declarations("color: red");
        let key = blocks(&[&list]);
        let mut cache = ApplicableDeclarationsCache::new();
        let mut style = None;
        Node::record_cascaded_style(&key, &mut style, &mut cache, &mut heap, 4, false);
        assert_eq!(*style.as_ref().unwrap().get(), 4);
        assert!(cache.find(&key).is_none());
        Node::record_cascaded_style(&key, &mut style, &mut cache, &mut heap, 5, true);
        assert_eq!(*style.as_ref().unwrap().get(), 5);
        assert!(arc_ptr_eq(&cache.find(&key).unwrap(), style.as_ref().unwrap()));
    })
}
