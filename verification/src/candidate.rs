//! Candidates for style sharing: the styles of the nodes that were seen last.

use crate::lru::{lru_inserted, lru_touched, LRUCache};
use crate::name::Name;
use crate::node::{optional_string_view, ElementView, LayoutElement, LayoutNode};
use crate::shared::{arc_ptr_eq, Shared};
use vstd::prelude::*;

verus! {

/// The style of a node, with what another node must agree on to share it.
pub struct StyleSharingCandidate<'h, V> {
    pub style: Shared<'h, V>,
    pub parent_style: Shared<'h, V>,
    pub local_name: Name,
    pub class: Option<String>,
}

/// The model of a [`StyleSharingCandidate`].
#[verifier::reject_recursive_types(V)]
pub ghost struct CandidateView<'h, V> {
    pub style: Shared<'h, V>,
    pub parent_style: Shared<'h, V>,
    pub local_name: Seq<char>,
    pub class: Option<Seq<char>>,
}

impl<'h, V> View for StyleSharingCandidate<'h, V> {
    type V = CandidateView<'h, V>;

    open spec fn view(&self) -> CandidateView<'h, V> {
        CandidateView {
            style: self.style,
            parent_style: self.parent_style,
            local_name: self.local_name@,
            class: optional_string_view(self.class),
        }
    }
}

impl<'h, V> CandidateView<'h, V> {
    /// Whether two candidates are to the same styles, with the same name and class.
    pub open spec fn same(self, other: CandidateView<'h, V>) -> bool {
        &&& self.style.id() == other.style.id()
        &&& self.parent_style.id() == other.parent_style.id()
        &&& self.local_name == other.local_name
        &&& self.class == other.class
    }

    /// Whether the name and the class of the candidate are those of `element`.
    pub open spec fn suits<D>(self, element: ElementView<'h, D>) -> bool {
        &&& self.local_name == element.local_name
        &&& self.class == element.class()
    }
}

/// The candidate that a node gives. It gives one if it has a style and no `style` attribute, and
/// its parent is an element with a style.
pub open spec fn candidate_of<'h, D, V>(
    node: LayoutNode<'h, D, V>,
    parent: Option<&LayoutNode<'h, D, V>>,
) -> Option<CandidateView<'h, V>> {
    match (parent, node.style(), node.element()) {
        (Some(parent), Some(style), Some(element)) => match (parent.element(), parent.style()) {
            (Some(_), Some(parent_style)) if element.style_attribute is None => Some(
                CandidateView {
                    style,
                    parent_style,
                    local_name: element.local_name,
                    class: element.class(),
                },
            ),
            _ => None,
        },
        _ => None,
    }
}

/// Whether it can be told if the node gives a candidate: a node that has a style, below an
/// element that has one, is an element.
pub open spec fn may_be_candidate<'h, D, V>(
    node: LayoutNode<'h, D, V>,
    parent: Option<&LayoutNode<'h, D, V>>,
) -> bool {
    match parent {
        Some(parent) => parent.element() is Some && parent.style() is Some && node.style() is Some
            ==> node.element() is Some,
        None => true,
    }
}

/// Whether two optional strings are equal.
fn same_class(a: &Option<String>, b: &Option<String>) -> (same: bool)
    ensures
        same == (optional_string_view(*a) == optional_string_view(*b)),
{
    match (a, b) {
        (Some(a), Some(b)) => *a == *b,
        (None, None) => true,
        _ => false,
    }
}

impl<'h, V> StyleSharingCandidate<'h, V> {
    /// Attempts to create a style sharing candidate from this node. Returns the style sharing
    /// candidate or `None` if this node is ineligible for style sharing.
    pub fn new<D>(
        node: &LayoutNode<'h, D, V>,
        parent_node: Option<&LayoutNode<'h, D, V>>,
    ) -> (candidate: Option<StyleSharingCandidate<'h, V>>)
        requires
            may_be_candidate(*node, parent_node),
        ensures
            match candidate {
                Some(candidate) => candidate_of(*node, parent_node) == Some(candidate@),
                None => candidate_of(*node, parent_node) is None,
            },
    {
        let parent_node = match parent_node {
            None => return None,
            Some(parent_node) => parent_node,
        };
        if !parent_node.is_element() {
            return None;
        }
        let style = match node.get_style() {
            None => return None,
            Some(style) => style.clone(),
        };
        let parent_style = match parent_node.get_style() {
            None => return None,
            Some(style) => style.clone(),
        };
        let element = node.as_element();
        if element.style_attribute().is_some() {
            return None;
        }
        let class = match element.get_attr(&Name::new(""), &Name::new("class")) {
            Some(class) => Some(class.clone()),
            None => None,
        };
        Some(
            StyleSharingCandidate {
                style,
                parent_style,
                local_name: element.get_local_name().clone(),
                class,
            },
        )
    }

    /// Whether the name and the class of `element` allow it to share the style.
    pub fn can_share_style_with<D>(&self, element: &LayoutElement<'h, D>) -> (can_share: bool)
        ensures
            can_share == self@.suits(element@),
    {
        if *element.get_local_name() != self.local_name {
            return false;
        }
        match (&self.class, element.get_attr(&Name::new(""), &Name::new("class"))) {
            (None, Some(_)) | (Some(_), None) => false,
            (Some(this_class), Some(element_class)) => *element_class == *this_class,
            (None, None) => true,
        }
    }
}

impl<'h, V> Clone for StyleSharingCandidate<'h, V> {
    fn clone(&self) -> (copy: Self)
        ensures
            copy@ == self@,
    {
        StyleSharingCandidate {
            style: self.style.clone(),
            parent_style: self.parent_style.clone(),
            local_name: self.local_name.clone(),
            class: match &self.class {
                Some(class) => Some(class.clone()),
                None => None,
            },
        }
    }
}

impl<'h, V> PartialEq for StyleSharingCandidate<'h, V> {
    fn eq(&self, other: &StyleSharingCandidate<'h, V>) -> (same: bool) {
        arc_ptr_eq(&self.style, &other.style) && arc_ptr_eq(
            &self.parent_style,
            &other.parent_style,
        ) && self.local_name == other.local_name && same_class(&self.class, &other.class)
    }
}

impl<'h, V> vstd::std_specs::cmp::PartialEqSpecImpl for StyleSharingCandidate<'h, V> {
    open spec fn obeys_eq_spec() -> bool {
        true
    }

    open spec fn eq_spec(&self, other: &StyleSharingCandidate<'h, V>) -> bool {
        self@.same(other@)
    }
}

/// The number of candidates that are kept.
pub const STYLE_SHARING_CANDIDATE_CACHE_SIZE: usize = 40;

/// An LRU cache of the last few nodes seen, so that we can aggressively try to reuse their styles.
pub struct StyleSharingCandidateCache<'h, V> {
    cache: LRUCache<StyleSharingCandidate<'h, V>, ()>,
}

impl<'h, V> View for StyleSharingCandidateCache<'h, V> {
    type V = Seq<CandidateView<'h, V>>;

    open spec fn view(&self) -> Seq<CandidateView<'h, V>> {
        self.entries().map_values(|entry: (StyleSharingCandidate<'h, V>, ())| entry.0@)
    }
}

impl<'h, V> StyleSharingCandidateCache<'h, V> {
    /// The entries, the least recently used first.
    pub closed spec fn entries(self) -> Seq<(StyleSharingCandidate<'h, V>, ())> {
        self.cache.entries()
    }

    /// Whether there is room for as many candidates as are to be kept.
    pub closed spec fn has_size(self) -> bool {
        &&& self.cache.wf()
        &&& self.cache.size() == STYLE_SHARING_CANDIDATE_CACHE_SIZE
    }

    /// Whether there are no more candidates than are to be kept; all operations keep this.
    pub open spec fn wf(self) -> bool {
        &&& self.has_size()
        &&& self@.len() <= STYLE_SHARING_CANDIDATE_CACHE_SIZE
    }

    /// A cache without candidates.
    pub fn new() -> (cache: Self)
        ensures
            cache.wf(),
            cache@ == Seq::<CandidateView<'h, V>>::empty(),
    {
        let cache = StyleSharingCandidateCache {
            cache: LRUCache::new(STYLE_SHARING_CANDIDATE_CACHE_SIZE),
        };
        assert(cache@ =~= Seq::empty());
        cache
    }

    /// The candidates, the least recently used first.
    pub fn iter<'a>(&'a self) -> (entries: std::slice::Iter<'a, (StyleSharingCandidate<'h, V>, ())>)
        ensures
            vstd::std_specs::iter::IteratorSpec::remaining(&entries) == self.entries().as_ref(),
            vstd::std_specs::iter::IteratorSpec::decrease(&entries) is Some,
            vstd::std_specs::iter::IteratorSpec::initial_value_relation(&entries, &entries),
    {
        self.cache.iter()
    }

    /// Adds the candidate that the node gives, if it gives one, as the most recently used.
    pub fn insert_if_possible<D>(
        &mut self,
        node: &LayoutNode<'h, D, V>,
        parent_node: Option<&LayoutNode<'h, D, V>>,
    )
        requires
            old(self).wf(),
            may_be_candidate(*node, parent_node),
        ensures
            final(self).wf(),
            final(self)@ == match candidate_of(*node, parent_node) {
                Some(candidate) => lru_inserted(
                    old(self)@,
                    STYLE_SHARING_CANDIDATE_CACHE_SIZE as nat,
                    candidate,
                ),
                None => old(self)@,
            },
    {
        match StyleSharingCandidate::new(node, parent_node) {
            None => {},
            Some(candidate) => {
                self.cache.insert(candidate, ());
                assert(self@ =~= lru_inserted(
                    old(self)@,
                    STYLE_SHARING_CANDIDATE_CACHE_SIZE as nat,
                    candidate@,
                ));
            },
        }
    }

    /// Makes the candidate at `index` the most recently used.
    pub fn touch(&mut self, index: usize)
        requires
            old(self).wf(),
            index < old(self)@.len(),
        ensures
            final(self).wf(),
            final(self)@ == lru_touched(old(self)@, index as int),
    {
        self.cache.touch(index);
        assert(self@ =~= lru_touched(old(self)@, index as int));
    }
}

} // verus!
