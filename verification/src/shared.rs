//! Shared values with an identity.

use std::marker::PhantomData;
use std::sync::Arc;
use vstd::prelude::*;

verus! {

/// A reference-counted value together with the identity of its allocation.
///
/// The lifetime stands for the heap that the allocation comes from. Handles of two heaps have
/// different types and cannot be compared, so two handles that can be are to the same allocation
/// exactly when their identities agree; the values may be equal without that.
pub struct Shared<'h, T> {
    id: u64,
    value: Arc<T>,
    heap: PhantomData<&'h mut &'h ()>,
}

impl<'h, T> Shared<'h, T> {
    /// The identity of the allocation.
    pub closed spec fn id(self) -> u64 {
        self.id
    }

    /// The shared value.
    pub closed spec fn value(self) -> T {
        *self.value
    }

    /// Borrows the shared value.
    pub fn get(&self) -> (value: &T)
        ensures
            *value == self.value(),
    {
        &*self.value
    }

    /// The identity as a word, as a hasher takes it.
    pub fn word(&self) -> (word: u64)
        ensures
            word == self.id(),
    {
        self.id
    }
}

impl<'h, T> Clone for Shared<'h, T> {
    fn clone(&self) -> (copy: Self)
        ensures
            copy == *self,
    {
        Shared { id: self.id, value: self.value.clone(), heap: PhantomData }
    }
}

/// Whether two handles are to the same allocation.
pub fn arc_ptr_eq<'h, T>(a: &Shared<'h, T>, b: &Shared<'h, T>) -> (same: bool)
    ensures
        same == (a.id() == b.id()),
{
    a.id == b.id
}

/// What an allocation of a heap holds.
pub ghost enum Allocation<D, V> {
    Declarations(D),
    Style(V),
}

/// The model of a [`Heap`]: the number of allocations that it handed out, and what it put in each.
#[verifier::reject_recursive_types(D)]
#[verifier::reject_recursive_types(V)]
pub ghost struct HeapView<D, V> {
    pub issued: nat,
    pub allocations: Map<nat, Allocation<D, V>>,
}

impl<D, V> HeapView<D, V> {
    /// How many more allocations can be handed out.
    pub open spec fn room(self) -> nat {
        (u64::MAX - self.issued) as nat
    }

    /// The heap after one more allocation.
    pub open spec fn allocated(self, allocation: Allocation<D, V>) -> HeapView<D, V> {
        HeapView {
            issued: self.issued + 1,
            allocations: self.allocations.insert(self.issued, allocation),
        }
    }

    /// Whether the heap handed out the allocation of a list of declarations, and the handle has
    /// the value that was put there.
    pub open spec fn holds_declarations(self, shared: Shared<D>) -> bool {
        &&& shared.id() < self.issued
        &&& self.allocations[shared.id() as nat] == Allocation::<D, V>::Declarations(shared.value())
    }

    /// Whether the heap handed out the allocation of a style, and the handle has the value that
    /// was put there.
    pub open spec fn holds_style(self, shared: Shared<V>) -> bool {
        &&& shared.id() < self.issued
        &&& self.allocations[shared.id() as nat] == Allocation::<D, V>::Style(shared.value())
    }
}

/// Hands out allocations for lists of declarations (`D`) and for styles (`V`), each with an
/// identity that no earlier one had. No two heaps have the same lifetime.
#[verifier::reject_recursive_types(D)]
#[verifier::reject_recursive_types(V)]
pub struct Heap<'h, D, V> {
    next: u64,
    allocations: Ghost<Map<nat, Allocation<D, V>>>,
    heap: PhantomData<&'h mut &'h ()>,
}

impl<'h, D, V> View for Heap<'h, D, V> {
    type V = HeapView<D, V>;

    closed spec fn view(&self) -> HeapView<D, V> {
        HeapView { issued: self.next as nat, allocations: self.allocations@ }
    }
}

/// Calls `run` with a heap that has handed out nothing, and returns what it returns. `run` has to
/// work for every lifetime of the heap, so no handle that it allocates can leave it or meet one of
/// another heap.
pub fn with_heap<D, V, R, F: for<'h> FnOnce(Heap<'h, D, V>) -> R>(run: F) -> (result: R)
    requires
        forall|heap: Heap<'_, D, V>| heap@.issued == 0 ==> #[trigger] call_requires(run, (heap,)),
    ensures
        exists|heap: Heap<'_, D, V>|
            heap@.issued == 0 && #[trigger] call_ensures(run, (heap,), result),
{
    let heap = Heap { next: 0, allocations: Ghost(Map::empty()), heap: PhantomData };
    assert(heap@.issued == 0);
    run(heap)
}

impl<'h, D, V> Heap<'h, D, V> {
    /// How many more allocations can be handed out.
    pub fn remaining(&self) -> (remaining: u64)
        ensures
            remaining == self@.room(),
    {
        u64::MAX - self.next
    }

    /// Moves a list of declarations into a new allocation.
    pub fn share_declarations(&mut self, declarations: D) -> (shared: Shared<'h, D>)
        requires
            old(self)@.room() > 0,
        ensures
            shared.id() == old(self)@.issued,
            shared.value() == declarations,
            final(self)@ == old(self)@.allocated(Allocation::Declarations(declarations)),
    {
        let id: u64 = self.next;
        self.next = id + 1;
        self.allocations = Ghost(
            self.allocations@.insert(id as nat, Allocation::Declarations(declarations)),
        );
        Shared { id, value: Arc::new(declarations), heap: PhantomData }
    }

    /// Moves the values of a style into a new allocation.
    pub fn share_style(&mut self, style: V) -> (shared: Shared<'h, V>)
        requires
            old(self)@.room() > 0,
        ensures
            shared.id() == old(self)@.issued,
            shared.value() == style,
            final(self)@ == old(self)@.allocated(Allocation::Style(style)),
    {
        let id: u64 = self.next;
        self.next = id + 1;
        self.allocations = Ghost(self.allocations@.insert(id as nat, Allocation::Style(style)));
        Shared { id, value: Arc::new(style), heap: PhantomData }
    }
}

} // verus!
