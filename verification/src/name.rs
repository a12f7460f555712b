use vstd::prelude::*;

verus! {

/// An identifier, optionally namespaced, used as a stable key for looking up
/// definitions and for addressing them from references.
#[derive(Debug, Clone)]
pub struct TypePath {
    pub ns: Option<String>,
    pub name: String,
}

/// Two paths denote the same definition when both parts agree character for
/// character.
pub open spec fn path_eq_spec(a: TypePath, b: TypePath) -> bool {
    &&& a.name@ == b.name@
    &&& match (a.ns, b.ns) {
        (Some(x), Some(y)) => x@ == y@,
        (None, None) => true,
        _ => false,
    }
}

impl TypePath {
    pub fn with_no_ns(name: String) -> (r: TypePath)
        ensures
            r.ns is None,
            r.name@ == name@,
    {
        TypePath { ns: None, name }
    }

    pub fn clone_path(&self) -> (r: TypePath)
        ensures
            path_eq_spec(r, *self),
    {
        let ns = match &self.ns {
            Some(s) => Some(s.clone()),
            None => None,
        };
        TypePath { ns, name: self.name.clone() }
    }
}

} // verus!
