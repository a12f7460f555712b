use vstd::prelude::*;

verus! {

/// A failure surfaced by a compiler pass. Each one is fatal to the
/// compilation unit that raised it.
#[derive(Debug, Clone, PartialEq, Eq)]
pub enum CompileError {
    /// A reference path segment could not be satisfied; `name` is the exact
    /// segment that failed.
    UnresolvedReference { name: String },
    /// A reference resolved to a shape incompatible with its use site, for
    /// example a non-integer used as an array length; `name` is the final
    /// segment of the offending reference.
    TypeMismatch { name: String },
    /// A child lookup was attempted on a kind that has no named children.
    NotComposite,
}

} // verus!
