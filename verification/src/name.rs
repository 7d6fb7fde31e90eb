//! Interned names: local names, namespaces, ids and classes.

use string_cache::DefaultAtom;
use vstd::prelude::*;

verus! {

/// The interned string type of `string_cache`; its representation stays hidden.
#[verifier::external_type_specification]
#[verifier::external_body]
#[verifier::reject_recursive_types(Static)]
pub struct ExInterned<Static>(string_cache::Atom<Static>);

/// The static set of `DefaultAtom`, which holds the empty string only.
#[verifier::external_type_specification]
#[verifier::external_body]
pub struct ExEmptyStaticAtomSet(string_cache::EmptyStaticAtomSet);

/// The characters that an interned string holds.
pub uninterp spec fn interned_text(atom: DefaultAtom) -> Seq<char>;

/// Calls `DefaultAtom::from(&str)`. The interned string holds the characters of `text`.
#[verifier::external_body]
fn intern(text: &str) -> (atom: DefaultAtom)
    ensures
        interned_text(atom) == text@,
{
    DefaultAtom::from(text)
}

/// Calls `==` on two interned strings, which compares their packed words. A string is interned in
/// one way only while an atom of it is alive, so the words agree exactly when the characters do.
#[verifier::external_body]
fn same_interned(a: &DefaultAtom, b: &DefaultAtom) -> (same: bool)
    ensures
        same == (interned_text(*a) == interned_text(*b)),
{
    a == b
}

/// Calls `Clone::clone` on an interned string. The clone holds the same characters.
#[verifier::external_body]
fn clone_interned(atom: &DefaultAtom) -> (copy: DefaultAtom)
    ensures
        interned_text(copy) == interned_text(*atom),
{
    atom.clone()
}

/// An interned string. Its view is the sequence of characters that it names.
pub struct Name {
    interned: DefaultAtom,
}

impl View for Name {
    type V = Seq<char>;

    closed spec fn view(&self) -> Seq<char> {
        interned_text(self.interned)
    }
}

impl Name {
    /// Interns `text`.
    pub fn new(text: &str) -> (name: Name)
        ensures
            name@ == text@,
    {
        Name { interned: intern(text) }
    }
}

impl Clone for Name {
    fn clone(&self) -> (copy: Name)
        ensures
            copy@ == self@,
    {
        Name { interned: clone_interned(&self.interned) }
    }
}

impl PartialEq for Name {
    fn eq(&self, other: &Name) -> (same: bool) {
        same_interned(&self.interned, &other.interned)
    }
}

impl vstd::std_specs::cmp::PartialEqSpecImpl for Name {
    open spec fn obeys_eq_spec() -> bool {
        true
    }

    open spec fn eq_spec(&self, other: &Name) -> bool {
        self@ == other@
    }
}

} // verus!
