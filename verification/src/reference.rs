use vstd::prelude::*;

verus! {

/// A relative path expression in source syntax: step up to the parent `up`
/// times, then descend through the named children in `down`, left to right.
#[derive(Debug, Clone)]
pub struct FieldReference {
    pub up: u64,
    pub down: Vec<String>,
}

/// A `FieldReference` followed by reading a named property of the target
/// node, for example the `length` property of an array.
#[derive(Debug, Clone)]
pub struct FieldPropertyReference {
    pub reference: FieldReference,
    pub property: String,
}

/// A reference as written in a definition: either a node, or a property of a
/// node.
#[derive(Debug, Clone)]
pub enum Reference {
    Node(FieldReference),
    Property(FieldPropertyReference),
}

} // verus!
