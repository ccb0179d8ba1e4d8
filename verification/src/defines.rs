//! Conditional-compilation symbols.
//!
//! A [`DefineSet`] is the one cross-boundary form of defines: the mapping
//! from symbols to values, restricted here to activation (a symbol is active
//! or it is not; a symbol missing from the set resolves to its default,
//! inactive).  An active symbol that a unit's conditional blocks never name
//! is inert, never an error.

use crate::text::{clone_names, contains_name};
use vstd::prelude::*;

verus! {

/// The set of activated symbols; every other symbol defaults to inactive.
pub struct DefineSet {
    syms: Vec<Vec<u8>>,
}

impl View for DefineSet {
    type V = Seq<Seq<u8>>;

    closed spec fn view(&self) -> Seq<Seq<u8>> {
        self.syms.deep_view()
    }
}

impl DefineSet {
    /// No symbol activated: every symbol resolves to its default.
    pub fn new() -> (r: DefineSet)
        ensures
            r@ == Seq::<Seq<u8>>::empty(),
    {
        let s = DefineSet { syms: Vec::new() };
        proof {
            assert(s@ =~= Seq::<Seq<u8>>::empty());
        }
        s
    }

    /// Activate `sym`; a symbol outside any declared universe is simply
    /// added, inert unless a conditional block names it.
    pub fn activate(&mut self, sym: Vec<u8>)
        ensures
            final (self)@ == old(self)@.push(sym@),
    {
        let ghost sv = sym@;
        self.syms.push(sym);
        proof {
            assert(self@ =~~= old(self)@.push(sv));
        }
    }

    pub fn is_active(&self, sym: &Vec<u8>) -> (r: bool)
        ensures
            r == self@.contains(sym@),
    {
        contains_name(&self.syms, sym)
    }

    /// Activate every symbol of `names`.
    pub fn from_names(names: &Vec<Vec<u8>>) -> (r: DefineSet)
        ensures
            r@ == names.deep_view(),
    {
        DefineSet { syms: clone_names(names) }
    }

    /// Normalize a declared universe of symbols (each defaulting to
    /// inactive) against an activated subset: the resulting mapping
    /// activates exactly the activated symbols; declared-but-inactive
    /// symbols keep their default, and activating a symbol outside the
    /// declared universe is permitted.
    pub fn normalize(declared: &Vec<Vec<u8>>, activated: &Vec<Vec<u8>>) -> (r: DefineSet)
        ensures
            r@ == activated.deep_view(),
            forall|s: Seq<u8>| r@.contains(s) <==> activated.deep_view().contains(s),
            forall|s: Seq<u8>|
                declared.deep_view().contains(s) && !activated.deep_view().contains(s)
                    ==> !r@.contains(s),
    {
        DefineSet { syms: clone_names(activated) }
    }

    /// The activated symbols, in activation order.
    pub fn names(&self) -> (r: &Vec<Vec<u8>>)
        ensures
            r.deep_view() == self@,
    {
        &self.syms
    }
}

} // verus!
