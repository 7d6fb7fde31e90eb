use std::collections::hash_map::DefaultHasher;
use std::hash::Hasher;
use style_matching::candidate::{
    StyleSharingCandidate, StyleSharingCandidateCache, STYLE_SHARING_CANDIDATE_CACHE_SIZE,
};
use style_matching::declarations::{
    ApplicableDeclarations, ApplicableDeclarationsCacheEntry, ApplicableDeclarationsCacheQuery,
    DeclarationBlock, MatchedDeclarations, PseudoElement,
};
use style_matching::declarations_cache::{
    ApplicableDeclarationsCache, APPLICABLE_DECLARATIONS_CACHE_SIZE,
};
use style_matching::lru::LRUCache;
use style_matching::name::Name;
use style_matching::node::{
    Attribute, LayoutDataWrapper, LayoutElement, LayoutNode, NodeKind, PrivateLayoutData,
    SharedLayoutData,
};
use style_matching::shared::{arc_ptr_eq, with_heap, Heap, Shared};

type Node<'h> = LayoutNode<'h, &'static str, u32>;
type TestHeap<'h> = Heap<'h, &'static str, u32>;

fn blocks<'h>(
    lists: &[&Shared<'h, &'static str>],
) -> Vec<DeclarationBlock<'h, &'static str>> {
    lists.iter().map(|list| DeclarationBlock { declarations: (*list).clone() }).collect()
}

fn element<'h>(name: &str, class: Option<&str>) -> LayoutElement<'h, &'static str> {
    let mut attributes = Vec::new();
    if let Some(class) = class {
        attributes.push(Attribute {
            namespace: Name::new(""),
            name: Name::new("class"),
            value: class.to_string(),
        });
    }
    LayoutElement {
        local_name: Name::new(name),
        namespace: Name::new("http://www.w3.org/1999/xhtml"),
        id: None,
        classes: Vec::new(),
        attributes,
        style_attribute: None,
    }
}

fn data<'h>(style: Option<&Shared<'h, u32>>) -> Option<LayoutDataWrapper<'h, u32>> {
    Some(LayoutDataWrapper {
        shared_data: SharedLayoutData { style: style.cloned() },
        data: PrivateLayoutData { before_style: None, after_style: None },
    })
}

fn node<'h>(name: &str, class: Option<&str>, style: Option<&Shared<'h, u32>>) -> Node<'h> {
    LayoutNode { kind: NodeKind::Element(element(name, class)), layout_data: data(style) }
}

fn candidate_of<'h>(
    name: &str,
    class: Option<&str>,
    style: &Shared<'h, u32>,
    parent: &Node<'h>,
) -> StyleSharingCandidate<'h, u32> {
    StyleSharingCandidate::new(&node(name, class, Some(style)), Some(parent)).unwrap()
}

fn hash_of(entry: &ApplicableDeclarationsCacheEntry<&'static str>) -> u64 {
    let mut state = DefaultHasher::new();
    entry.hash(&mut state);
    state.finish()
}

#[test]
fn names_compare_by_their_characters() {
    assert!(Name::new("p") == Name::new("p"));
    assert!(Name::new("p") != Name::new("P"));
    assert!(Name::new("") == Name::new(""));
    let long = Name::new("a-name-too-long-to-be-packed");
    assert!(long == Name::new("a-name-too-long-to-be-packed"));
    assert!(long != Name::new("a-name-too-long-to-be-packet"));
    assert!(long.clone() == long);
}

#[test]
fn allocations_are_told_apart_though_their_values_are_equal() {
    with_heap(|mut heap: TestHeap<'_>| {
        assert_eq!(heap.remaining(), u64::MAX);
        let a = heap.share_style(7u32);
        let b = heap.share_style(7u32);
        assert_eq!(heap.remaining(), u64::MAX - 2);
        assert_eq!(*a.get(), 7);
        assert_eq!(*a.get(), *b.get());
        assert!(!arc_ptr_eq(&a, &b));
        assert!(arc_ptr_eq(&a, &a.clone()));
        assert_eq!(a.word(), 0);
        assert_eq!(b.word(), 1);
    })
}

#[test]
fn cleared_declarations_are_like_new_ones() {
    with_heap(|mut heap: TestHeap<'_>| {
        let list = heap.share_declarations("color: red");
        let mut declarations = ApplicableDeclarations::new();
        assert_eq!(declarations.normal.len(), 0);
        assert!(!declarations.normal_shareable);
        for pseudo_element in [None, Some(PseudoElement::Before), Some(PseudoElement::After)] {
            declarations.push(
                pseudo_element,
                MatchedDeclarations { declarations: blocks(&[&list]), shareable: true },
            );
        }
        assert_eq!(declarations.normal.len(), 1);
        assert_eq!(declarations.before.len(), 1);
        assert_eq!(declarations.after.len(), 1);
        assert!(declarations.normal_shareable);
        assert!(!declarations.shareable());
        declarations.clear();
        assert_eq!(declarations.normal.len(), 0);
        assert_eq!(declarations.before.len(), 0);
        assert_eq!(declarations.after.len(), 0);
        assert!(!declarations.normal_shareable);
    })
}

#[test]
fn matches_for_a_pseudo_element_do_not_decide_on_the_declarations_of_the_node() {
    let mut declarations: ApplicableDeclarations<&'static str> = ApplicableDeclarations::new();
    declarations.push(None, MatchedDeclarations { declarations: Vec::new(), shareable: true });
    declarations.push(
        Some(PseudoElement::Before),
        MatchedDeclarations { declarations: Vec::new(), shareable: false },
    );
    assert!(declarations.normal_shareable);
    assert!(declarations.shareable());
}

#[test]
fn entries_compare_by_the_identities_of_their_lists() {
    with_heap(|mut heap: TestHeap<'_>| {
        let a = heap.share_declarations("color: red");
        let b = heap.share_declarations("color: blue");
        let same_text = heap.share_declarations("color: red");
        let ab = ApplicableDeclarationsCacheEntry::new(&blocks(&[&a, &b]));
        let ba = ApplicableDeclarationsCacheEntry::new(&blocks(&[&b, &a]));
        let only_a = ApplicableDeclarationsCacheEntry::new(&blocks(&[&a]));
        let copied = ApplicableDeclarationsCacheEntry::new(&blocks(&[&same_text, &b]));
        assert!(ab == ab.clone());
        assert!(ab != ba);
        assert!(ab != only_a);
        assert!(ab != copied);
        assert_eq!(ab.declarations.len(), 2);
        assert_eq!(hash_of(&ab), hash_of(&ab.clone()));
        assert_ne!(hash_of(&ab), hash_of(&ba));

        let list = blocks(&[&a, &b]);
        let query = ApplicableDeclarationsCacheQuery::new(&list);
        assert!(query.equiv(&ab));
        assert!(!query.equiv(&ba));
        assert!(!query.equiv(&only_a));
        let mut state = DefaultHasher::new();
        query.hash(&mut state);
        assert_eq!(state.finish(), hash_of(&ab));
    })
}

#[test]
fn hashing_writes_one_word_for_each_block() {
    with_heap(|mut heap: TestHeap<'_>| {
        let a = heap.share_declarations("color: red");
        let b = heap.share_declarations("color: blue");
        let mut expected = DefaultHasher::new();
        expected.write(&0u64.to_le_bytes());
        expected.write(&1u64.to_le_bytes());
        let entry = ApplicableDeclarationsCacheEntry::new(&blocks(&[&a, &b]));
        assert_eq!(hash_of(&entry), expected.finish());
    })
}

#[test]
fn stored_style_is_found_for_the_same_lists_only() {
    with_heap(|mut heap: TestHeap<'_>| {
        let a = heap.share_declarations("color: red");
        let b = heap.share_declarations("color: blue");
        let style = heap.share_style(1u32);
        let newer = heap.share_style(2u32);
        let mut cache = ApplicableDeclarationsCache::new();
        assert!(cache.find(&blocks(&[&a, &b])).is_none());
        cache.insert(&blocks(&[&a, &b]), style.clone());
        assert!(arc_ptr_eq(&cache.find(&blocks(&[&a, &b])).unwrap(), &style));
        assert!(cache.find(&blocks(&[&b, &a])).is_none());
        assert!(cache.find(&blocks(&[&a])).is_none());
        assert!(cache.find(&blocks(&[])).is_none());
        cache.insert(&blocks(&[&a, &b]), newer.clone());
        assert!(arc_ptr_eq(&cache.find(&blocks(&[&a, &b])).unwrap(), &newer));
    })
}

#[test]
fn declarations_cache_is_bounded_and_finds_only_what_was_stored_last() {
    with_heap(|mut heap: TestHeap<'_>| {
        let mut cache = ApplicableDeclarationsCache::new();
        let lists: Vec<_> = (0..200u32).map(|_| heap.share_declarations("")).collect();
        let styles: Vec<_> = (0..200u32).map(|i| heap.share_style(i)).collect();
        for (list, style) in lists.iter().zip(styles.iter()) {
            cache.insert(&blocks(&[list]), style.clone());
            assert!(arc_ptr_eq(&cache.find(&blocks(&[list])).unwrap(), style));
        }
        let mut found = 0;
        for (list, style) in lists.iter().zip(styles.iter()) {
            if let Some(cached) = cache.find(&blocks(&[list])) {
                assert!(arc_ptr_eq(&cached, style));
                found += 1;
            }
        }
        assert!(found <= APPLICABLE_DECLARATIONS_CACHE_SIZE);
        assert!(found > 0);
        assert_eq!(APPLICABLE_DECLARATIONS_CACHE_SIZE, 32);
    })
}

#[test]
fn lru_cache_drops_the_least_recently_used() {
    let mut cache = LRUCache::new(3);
    for key in 1..=3u32 {
        cache.insert(key, ());
    }
    let keys = |cache: &LRUCache<u32, ()>| cache.iter().map(|&(k, ())| k).collect::<Vec<u32>>();
    assert_eq!(keys(&cache), vec![1, 2, 3]);
    cache.touch(0);
    assert_eq!(keys(&cache), vec![2, 3, 1]);
    cache.touch(2);
    assert_eq!(keys(&cache), vec![2, 3, 1]);
    cache.insert(4, ());
    assert_eq!(keys(&cache), vec![3, 1, 4]);
    cache.insert(5, ());
    assert_eq!(keys(&cache), vec![1, 4, 5]);
}

#[test]
fn candidate_holds_the_styles_the_name_and_the_class() {
    with_heap(|mut heap: TestHeap<'_>| {
        let style = heap.share_style(2u32);
        let parent_style = heap.share_style(1u32);
        let parent = node("body", None, Some(&parent_style));
        let candidate =
            StyleSharingCandidate::new(&node("p", Some("a b"), Some(&style)), Some(&parent)).unwrap();
        assert!(arc_ptr_eq(&candidate.style, &style));
        assert!(arc_ptr_eq(&candidate.parent_style, &parent_style));
        assert!(candidate.local_name == Name::new("p"));
        assert_eq!(candidate.class, Some("a b".to_string()));
        let plain = StyleSharingCandidate::new(&node("p", None, Some(&style)), Some(&parent)).unwrap();
        assert_eq!(plain.class, None);
    })
}

#[test]
fn ineligible_nodes_give_no_candidate() {
    with_heap(|mut heap: TestHeap<'_>| {
        let style = heap.share_style(2u32);
        let parent_style = heap.share_style(1u32);
        let parent = node("body", None, Some(&parent_style));
        let child = node("p", None, Some(&style));
        assert!(StyleSharingCandidate::new(&child, None).is_none());

        let document: Node =
            LayoutNode { kind: NodeKind::Other, layout_data: data(Some(&parent_style)) };
        assert!(StyleSharingCandidate::new(&child, Some(&document)).is_none());

        let unstyled = node("p", None, None);
        assert!(StyleSharingCandidate::new(&unstyled, Some(&parent)).is_none());
        let mut without_data = node("p", None, None);
        without_data.layout_data = None;
        assert!(StyleSharingCandidate::new(&without_data, Some(&parent)).is_none());
        assert!(StyleSharingCandidate::new(&child, Some(&node("body", None, None))).is_none());
        let mut bare_parent = node("body", None, None);
        bare_parent.layout_data = None;
        assert!(StyleSharingCandidate::new(&child, Some(&bare_parent)).is_none());

        let text: Node = LayoutNode { kind: NodeKind::Text, layout_data: data(None) };
        assert!(StyleSharingCandidate::new(&text, Some(&parent)).is_none());

        let mut with_style_attribute = element("p", None);
        with_style_attribute.style_attribute = Some(heap.share_declarations("color: red"));
        let with_style_attribute: Node = LayoutNode {
            kind: NodeKind::Element(with_style_attribute),
            layout_data: data(Some(&style)),
        };
        assert!(StyleSharingCandidate::new(&with_style_attribute, Some(&parent)).is_none());
    })
}

#[test]
fn class_attribute_of_another_namespace_does_not_count() {
    with_heap(|mut heap: TestHeap<'_>| {
        let style = heap.share_style(2u32);
        let parent_style = heap.share_style(1u32);
        let parent = node("body", None, Some(&parent_style));
        let mut other = element("p", None);
        other.attributes.push(Attribute {
            namespace: Name::new("urn:other"),
            name: Name::new("class"),
            value: "a".to_string(),
        });
        let other: Node =
            LayoutNode { kind: NodeKind::Element(other), layout_data: data(Some(&style)) };
        let candidate = StyleSharingCandidate::new(&other, Some(&parent)).unwrap();
        assert_eq!(candidate.class, None);
        assert!(candidate.can_share_style_with(&element("p", None)));
    })
}

#[test]
fn candidate_suits_elements_of_its_name_and_class() {
    with_heap(|mut heap: TestHeap<'_>| {
        let style = heap.share_style(2u32);
        let parent_style = heap.share_style(1u32);
        let parent = node("body", None, Some(&parent_style));
        let classed =
            StyleSharingCandidate::new(&node("p", Some("a"), Some(&style)), Some(&parent)).unwrap();
        assert!(classed.can_share_style_with(&element("p", Some("a"))));
        assert!(!classed.can_share_style_with(&element("p", Some("b"))));
        assert!(!classed.can_share_style_with(&element("p", None)));
        assert!(!classed.can_share_style_with(&element("q", Some("a"))));
        let plain = StyleSharingCandidate::new(&node("p", None, Some(&style)), Some(&parent)).unwrap();
        assert!(plain.can_share_style_with(&element("p", None)));
        assert!(!plain.can_share_style_with(&element("p", Some("a"))));
        assert!(!plain.can_share_style_with(&element("p", Some(""))));
    })
}

#[test]
fn candidates_compare_by_styles_name_and_class() {
    with_heap(|mut heap: TestHeap<'_>| {
        let style = heap.share_style(2u32);
        let equal_style = heap.share_style(2u32);
        let parent_style = heap.share_style(1u32);
        let parent = node("body", None, Some(&parent_style));
        let other_parent = node("body", None, Some(&heap.share_style(1u32)));
        let candidate = candidate_of("p", Some("a"), &style, &parent);
        assert!(candidate == candidate.clone());
        assert!(candidate == candidate_of("p", Some("a"), &style, &parent));
        assert!(candidate != candidate_of("p", Some("a"), &equal_style, &parent));
        assert!(candidate != candidate_of("p", Some("a"), &style, &other_parent));
        assert!(candidate != candidate_of("q", Some("a"), &style, &parent));
        assert!(candidate != candidate_of("p", Some("b"), &style, &parent));
        assert!(candidate != candidate_of("p", None, &style, &parent));
    })
}

#[test]
fn candidate_cache_keeps_the_last_nodes() {
    with_heap(|mut heap: TestHeap<'_>| {
        let parent_style = heap.share_style(1000u32);
        let parent = node("body", None, Some(&parent_style));
        let mut cache = StyleSharingCandidateCache::new();
        assert_eq!(cache.iter().count(), 0);
        for i in 0..45u32 {
            let style = heap.share_style(i);
            cache.insert_if_possible(&node("p", None, Some(&style)), Some(&parent));
            cache.insert_if_possible(&node("p", None, None), Some(&parent));
        }
        assert_eq!(STYLE_SHARING_CANDIDATE_CACHE_SIZE, 40);
        let values = |cache: &StyleSharingCandidateCache<u32>| {
            cache.iter().map(|(candidate, ())| *candidate.style.get()).collect::<Vec<u32>>()
        };
        assert_eq!(values(&cache), (5..45).collect::<Vec<u32>>());
        cache.touch(0);
        let mut expected: Vec<u32> = (6..45).collect();
        expected.push(5);
        assert_eq!(values(&cache), expected);
        for i in 100..139u32 {
            let style = heap.share_style(i);
            cache.insert_if_possible(&node("p", None, Some(&style)), Some(&parent));
        }
        assert_eq!(values(&cache)[0], 5);
        let style = heap.share_style(139);
        cache.insert_if_possible(&node("p", None, Some(&style)), Some(&parent));
        assert_eq!(values(&cache), (100..140).collect::<Vec<u32>>());
    })
}
