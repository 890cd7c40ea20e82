//! An inert chemistry data-model sketch: molecules as element-keyed
//! multisets of atom counts, with compounds and reactions built from
//! them. The sketch carries no behavior of its own.

use std::collections::HashMap;
use vstd::prelude::*;

verus! {

/// A chemical element.
#[derive(Debug, Clone, Copy, PartialEq, Eq, Hash)]
pub enum Element {
    H,
    C,
    N,
    O,
    Na,
    Cl,
}

/// A molecule: how many atoms of each element it holds.
#[derive(Debug, PartialEq)]
pub struct Molecule(pub HashMap<Element, u32>);

impl Molecule {
    /// The empty molecule, with no atoms at all.
    pub fn new() -> (m: Molecule)
        ensures
            m.0@ == Map::<Element, u32>::empty(),
    {
        Molecule(HashMap::new())
    }
}

/// A molecule together with its electric charge.
pub struct Compound {
    #[allow(dead_code)]
    molecule: Molecule,
    #[allow(dead_code)]
    charge: i32,
}

/// A reaction: how many of each molecule stand on either side.
pub struct Reaction {
    #[allow(dead_code)]
    reactants: Vec<(Molecule, u32)>,
    #[allow(dead_code)]
    products: Vec<(Molecule, u32)>,
}

} // verus!
