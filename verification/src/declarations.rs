//! The declarations that apply to a node, and the cache of the styles that they gave.

use crate::shared::{arc_ptr_eq, Shared};
use std::collections::hash_map::DefaultHasher;
use std::hash::Hasher;
use vstd::bytes::u64_to_le_bytes;
use vstd::prelude::*;

verus! {

/// A block of property declarations that applies to a node. `D` is the type of the list.
pub struct DeclarationBlock<'h, D> {
    pub declarations: Shared<'h, D>,
}

impl<'h, D> Clone for DeclarationBlock<'h, D> {
    fn clone(&self) -> (copy: Self)
        ensures
            copy == *self,
    {
        DeclarationBlock { declarations: self.declarations.clone() }
    }
}

/// The identities of the lists of a sequence of blocks.
pub open spec fn block_ids<'h, D>(blocks: Seq<DeclarationBlock<'h, D>>) -> Seq<u64> {
    blocks.map_values(|block: DeclarationBlock<'h, D>| block.declarations.id())
}

/// The declarations that apply to a node and to its pseudo-elements, in cascading order.
pub struct ApplicableDeclarations<'h, D> {
    pub normal: Vec<DeclarationBlock<'h, D>>,
    pub before: Vec<DeclarationBlock<'h, D>>,
    pub after: Vec<DeclarationBlock<'h, D>>,
    /// Whether the `normal` declarations are shareable with other nodes.
    pub normal_shareable: bool,
}

/// The model of [`ApplicableDeclarations`].
#[verifier::reject_recursive_types(D)]
pub ghost struct ApplicableDeclarationsView<'h, D> {
    pub normal: Seq<DeclarationBlock<'h, D>>,
    pub before: Seq<DeclarationBlock<'h, D>>,
    pub after: Seq<DeclarationBlock<'h, D>>,
    pub normal_shareable: bool,
}

impl<'h, D> View for ApplicableDeclarations<'h, D> {
    type V = ApplicableDeclarationsView<'h, D>;

    open spec fn view(&self) -> ApplicableDeclarationsView<'h, D> {
        ApplicableDeclarationsView {
            normal: self.normal@,
            before: self.before@,
            after: self.after@,
            normal_shareable: self.normal_shareable,
        }
    }
}

/// A pseudo-element that has declarations of its own.
#[derive(Clone, Copy, PartialEq, Eq, Structural)]
pub enum PseudoElement {
    Before,
    After,
}

/// What selector matching finds for a node or for one of its pseudo-elements.
pub struct MatchedDeclarations<'h, D> {
    /// The blocks that apply, in cascading order.
    pub declarations: Vec<DeclarationBlock<'h, D>>,
    /// Whether they are shareable with other nodes.
    pub shareable: bool,
}

impl<'h, D> ApplicableDeclarationsView<'h, D> {
    /// The declarations once `matched` was added for the node itself (`None`) or for a
    /// pseudo-element of it.
    pub open spec fn pushed(
        self,
        pseudo_element: Option<PseudoElement>,
        matched: MatchedDeclarations<'h, D>,
    ) -> Self {
        match pseudo_element {
            None => ApplicableDeclarationsView {
                normal: self.normal + matched.declarations@,
                normal_shareable: matched.shareable,
                ..self
            },
            Some(PseudoElement::Before) => ApplicableDeclarationsView {
                before: self.before + matched.declarations@,
                ..self
            },
            Some(PseudoElement::After) => ApplicableDeclarationsView {
                after: self.after + matched.declarations@,
                ..self
            },
        }
    }

    /// Whether the style of the node is shareable: its declarations are, and its pseudo-elements
    /// have none.
    pub open spec fn shareable(self) -> bool {
        self.normal_shareable && self.before.len() == 0 && self.after.len() == 0
    }

    /// No declarations at all, and nothing to share.
    pub open spec fn empty() -> Self {
        ApplicableDeclarationsView {
            normal: Seq::empty(),
            before: Seq::empty(),
            after: Seq::empty(),
            normal_shareable: false,
        }
    }
}

impl<'h, D> ApplicableDeclarations<'h, D> {
    /// No declarations at all, and nothing to share.
    pub fn new() -> (declarations: Self)
        ensures
            declarations@ == ApplicableDeclarationsView::<D>::empty(),
    {
        ApplicableDeclarations {
            normal: Vec::new(),
            before: Vec::new(),
            after: Vec::new(),
            normal_shareable: false,
        }
    }

    /// Forgets all declarations.
    pub fn clear(&mut self)
        ensures
            final(self)@ == ApplicableDeclarationsView::<D>::empty(),
    {
        self.normal = Vec::new();
        self.before = Vec::new();
        self.after = Vec::new();
        self.normal_shareable = false;
    }

    /// Adds what was matched for the node itself (`None`) or for a pseudo-element of it.
    pub fn push(
        &mut self,
        pseudo_element: Option<PseudoElement>,
        matched: MatchedDeclarations<'h, D>,
    )
        ensures
            final(self)@ == old(self)@.pushed(pseudo_element, matched),
    {
        let mut declarations = matched.declarations;
        match pseudo_element {
            None => {
                self.normal.append(&mut declarations);
                self.normal_shareable = matched.shareable;
            },
            Some(PseudoElement::Before) => {
                self.before.append(&mut declarations);
            },
            Some(PseudoElement::After) => {
                self.after.append(&mut declarations);
            },
        }
    }

    /// Whether the style of the node is shareable.
    pub fn shareable(&self) -> (shareable: bool)
        ensures
            shareable == self@.shareable(),
    {
        self.normal_shareable && self.before.len() == 0 && self.after.len() == 0
    }
}

/// The words that a hasher takes for a sequence of identities, one write for each.
pub open spec fn hash_writes(ids: Seq<u64>) -> Seq<Seq<u8>> {
    ids.map_values(|id: u64| vstd::bytes::spec_u64_to_le_bytes(id))
}

/// A key of the cache: the blocks that a style was computed from.
pub struct ApplicableDeclarationsCacheEntry<'h, D> {
    pub declarations: Vec<DeclarationBlock<'h, D>>,
}

impl<'h, D> View for ApplicableDeclarationsCacheEntry<'h, D> {
    type V = Seq<DeclarationBlock<'h, D>>;

    open spec fn view(&self) -> Seq<DeclarationBlock<'h, D>> {
        self.declarations@
    }
}

impl<'h, D> ApplicableDeclarationsCacheEntry<'h, D> {
    /// An entry with a copy of the blocks in `slice`.
    pub fn new(slice: &[DeclarationBlock<'h, D>]) -> (entry: Self)
        ensures
            entry@ == slice@,
    {
        let mut entry_declarations: Vec<DeclarationBlock<'h, D>> = Vec::new();
        for i in 0..slice.len()
            invariant
                entry_declarations@ == slice@.take(i as int),
        {
            entry_declarations.push(slice[i].clone());
        }
        ApplicableDeclarationsCacheEntry { declarations: entry_declarations }
    }

    /// Feeds the entry to a hasher.
    pub fn hash(&self, state: &mut DefaultHasher)
        ensures
            final(state)@ == old(state)@ + hash_writes(block_ids(self@)),
    {
        let query = ApplicableDeclarationsCacheQuery::new(self.declarations.as_slice());
        query.hash(state)
    }
}

impl<'h, D> Clone for ApplicableDeclarationsCacheEntry<'h, D> {
    fn clone(&self) -> (copy: Self)
        ensures
            copy@ == self@,
    {
        ApplicableDeclarationsCacheEntry::new(self.declarations.as_slice())
    }
}

impl<'h, D> PartialEq for ApplicableDeclarationsCacheEntry<'h, D> {
    fn eq(&self, other: &ApplicableDeclarationsCacheEntry<'h, D>) -> (same: bool) {
        let this_as_query = ApplicableDeclarationsCacheQuery::new(self.declarations.as_slice());
        this_as_query.equiv(other)
    }
}

impl<'h, D> vstd::std_specs::cmp::PartialEqSpecImpl for ApplicableDeclarationsCacheEntry<'h, D> {
    open spec fn obeys_eq_spec() -> bool {
        true
    }

    open spec fn eq_spec(&self, other: &ApplicableDeclarationsCacheEntry<'h, D>) -> bool {
        block_ids(self@) == block_ids(other@)
    }
}

/// A borrowed key, by which the cache is searched.
pub struct ApplicableDeclarationsCacheQuery<'a, 'h, D> {
    declarations: &'a [DeclarationBlock<'h, D>],
}

impl<'a, 'h, D> View for ApplicableDeclarationsCacheQuery<'a, 'h, D> {
    type V = Seq<DeclarationBlock<'h, D>>;

    closed spec fn view(&self) -> Seq<DeclarationBlock<'h, D>> {
        self.declarations@
    }
}

impl<'a, 'h, D> ApplicableDeclarationsCacheQuery<'a, 'h, D> {
    /// The key for `declarations`.
    pub fn new(declarations: &'a [DeclarationBlock<'h, D>]) -> (query: Self)
        ensures
            query@ == declarations@,
    {
        ApplicableDeclarationsCacheQuery { declarations }
    }

    /// Whether `other` is a key for the same lists, in the same order.
    pub fn equiv(&self, other: &ApplicableDeclarationsCacheEntry<'h, D>) -> (same: bool)
        ensures
            same == (block_ids(self@) == block_ids(other@)),
    {
        let ghost these = block_ids(self@);
        let ghost those = block_ids(other@);
        if self.declarations.len() != other.declarations.len() {
            assert(these.len() != those.len());
            return false;
        }
        for i in 0..self.declarations.len()
            invariant
                these == block_ids(self.declarations@),
                those == block_ids(other.declarations@),
                these.len() == those.len() == self.declarations@.len(),
                forall|j: int| 0 <= j < i ==> these[j] == those[j],
        {
            if !arc_ptr_eq(
                &self.declarations[i].declarations,
                &other.declarations[i].declarations,
            ) {
                assert(these[i as int] != those[i as int]);
                return false;
            }
        }
        assert(these =~= those);
        true
    }

    /// Feeds the key to a hasher: one word for each block, the identity of its list.
    pub fn hash(&self, state: &mut DefaultHasher)
        ensures
            final(state)@ == old(state)@ + hash_writes(block_ids(self@)),
    {
        let ghost before = state@;
        let ghost writes = hash_writes(block_ids(self@));
        for i in 0..self.declarations.len()
            invariant
                writes == hash_writes(block_ids(self.declarations@)),
                state@ == before + writes.take(i as int),
        {
            let word: u64 = self.declarations[i].declarations.word();
            let bytes = u64_to_le_bytes(word);
            state.write(bytes.as_slice());
            assert(writes.take(i + 1) =~= writes.take(i as int).push(writes[i as int]));
        }
        assert(writes.take(self.declarations@.len() as int) =~= writes);
    }
}

} // verus!
