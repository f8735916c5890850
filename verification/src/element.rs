//! The target shape a future tree-shaped markup parser would produce.

use vstd::prelude::*;

verus! {

/// A markup element: a name, an ordered sequence of name/value attribute
/// pairs, and an ordered sequence of nested children. No combinator in
/// this library builds one yet; the type records the shape a full document
/// parser would aim at.
#[derive(Debug, PartialEq, Eq)]
pub struct Element {
    pub name: String,
    pub attributes: Vec<(String, String)>,
    pub children: Vec<Element>,
}

} // verus!
