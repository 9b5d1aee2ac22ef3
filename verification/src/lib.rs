//! A small rule-evaluation engine. Named, toggleable predicate rules are run
//! against a record; the rules that detect an error are gathered, with the
//! fields they concern, into a summary.
#![allow(non_snake_case)]

use vstd::prelude::*;

pub mod huml;

verus! {

/// The record that rules are evaluated against.
pub struct Model {
    pub age: u8,
    pub name: String,
}

} // verus!
