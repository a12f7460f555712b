use vstd::prelude::*;

use crate::name::TypePath;
use crate::reference::Reference;
use crate::type_spec::{TypeSpecContainer, WeakTypeSpecContainer};

verus! {

/// Handle to a node of the type graph: a stable index into the graph's
/// arena, shared-owning by convention.
#[derive(Debug, Clone, Copy)]
pub struct TypeContainer(pub usize);

/// A back-reference to a node: the same index, weak by convention, so parent
/// pointers and resolved reference targets never form an ownership cycle.
#[derive(Debug, Clone, Copy)]
pub struct WeakTypeContainer(pub usize);

impl TypeContainer {
    pub fn downgrade(&self) -> (r: WeakTypeContainer)
        ensures
            r.0 == self.0,
    {
        WeakTypeContainer(self.0)
    }
}

impl WeakTypeContainer {
    pub fn upgrade(&self) -> (r: TypeContainer)
        ensures
            r.0 == self.0,
    {
        TypeContainer(self.0)
    }
}

/// Position of a child inside its parent's child list.
#[derive(Debug, Clone, Copy)]
pub struct SpecChildHandle(pub usize);

/// Position of a reference inside the node that declared it.
#[derive(Debug, Clone, Copy)]
pub struct SpecReferenceHandle(pub usize);

/// One resolved step of a reference path.
#[derive(Debug)]
pub enum ReferencePathEntryOperation {
    Down(String),
    NodeProperty(String),
    TypeProperty(String),
    TypeSpecProperty(String),
}

/// A resolved step together with the node it landed on. The spec handle is
/// filled only once types have been assigned.
#[derive(Debug)]
pub struct ReferencePathEntryData {
    pub node: Option<WeakTypeContainer>,
    pub type_spec: Option<WeakTypeSpecContainer>,
    pub operation: ReferencePathEntryOperation,
}

/// A reference attached to a node, plus its resolution: `path` is absent
/// until the resolve pass has run, and a full path thereafter — partial
/// resolution is never observable.
#[derive(Debug)]
pub struct ReferenceData {
    pub reference: Reference,
    pub path: Option<Vec<ReferencePathEntryData>>,
}

/// Everything a definition node carries besides its kind-specific variant.
/// `parent`, `ident` and the spec slot's content are each written exactly
/// once, by their owning pass.
#[derive(Debug)]
pub struct TypeData {
    pub name: TypePath,
    pub children: Vec<TypeContainer>,
    pub references: Vec<ReferenceData>,
    /// Added by the assign-parent pass.
    pub parent: Option<WeakTypeContainer>,
    /// Added by the assign-ident pass; idents increase with definition order.
    pub ident: Option<u64>,
    pub type_spec: Option<TypeSpecContainer>,
}

impl TypeData {
    /// The shape this node contributes when used as a count, tag, or
    /// referenced value. Asking before the type-assignment pass has run is a
    /// contract violation, so such states are excluded.
    pub fn get_result_type(&self) -> (r: TypeSpecContainer)
        requires
            self.type_spec is Some,
        ensures
            r == self.type_spec->Some_0,
    {
        self.type_spec.unwrap()
    }

    /// Append a child; child lists are append-only.
    pub fn add_child(&mut self, child: TypeContainer) -> (r: SpecChildHandle)
        ensures
            final(self).children@ == old(self).children@.push(child),
            r.0 == old(self).children@.len(),
            final(self).name == old(self).name,
            final(self).references == old(self).references,
            final(self).parent == old(self).parent,
            final(self).ident == old(self).ident,
            final(self).type_spec == old(self).type_spec,
    {
        let index = self.children.len();
        self.children.push(child);
        SpecChildHandle(index)
    }

    pub fn get_children(&self) -> (r: &Vec<TypeContainer>)
        ensures
            r@ == self.children@,
    {
        &self.children
    }

    pub fn get_owned_children(&self) -> (r: Vec<TypeContainer>)
        ensures
            r@ == self.children@,
    {
        let mut out: Vec<TypeContainer> = Vec::new();
        let mut i: usize = 0;
        while i < self.children.len()
            invariant
                i <= self.children@.len(),
                out@ == self.children@.take(i as int),
            decreases self.children@.len() - i,
        {
            out.push(self.children[i]);
            proof {
                assert(self.children@.take(i as int).push(self.children@[i as int])
                    =~= self.children@.take(i as int + 1));
            }
            i = i + 1;
        }
        proof {
            assert(self.children@.take(self.children@.len() as int) =~= self.children@);
        }
        out
    }

    /// Attach a not-yet-resolved reference to this node.
    pub fn add_reference(&mut self, reference: Reference) -> (r: SpecReferenceHandle)
        ensures
            final(self).references@ == old(self).references@.push(
                ReferenceData { reference, path: None },
            ),
            r.0 == old(self).references@.len(),
            final(self).name == old(self).name,
            final(self).children == old(self).children,
            final(self).parent == old(self).parent,
            final(self).ident == old(self).ident,
            final(self).type_spec == old(self).type_spec,
    {
        let index = self.references.len();
        self.references.push(ReferenceData { reference, path: None });
        SpecReferenceHandle(index)
    }

    /// Cache the resolved steps on a reference once the resolver has
    /// produced them.
    pub fn set_reference_path(
        &mut self,
        handle: SpecReferenceHandle,
        entries: Vec<ReferencePathEntryData>,
    )
        requires
            handle.0 < old(self).references@.len(),
        ensures
            final(self).references@.len() == old(self).references@.len(),
            forall|k: int|
                0 <= k < old(self).references@.len() && k != handle.0 as int
                    ==> #[trigger] final(self).references@[k] == old(self).references@[k],
            final(self).references@[handle.0 as int].reference == old(self).references@[handle.0 as int].reference,
            final(self).references@[handle.0 as int].path == Some(entries),
            final(self).name == old(self).name,
            final(self).children == old(self).children,
            final(self).parent == old(self).parent,
            final(self).ident == old(self).ident,
            final(self).type_spec == old(self).type_spec,
    {
        self.references[handle.0].path = Some(entries);
    }

    pub fn get_reference(&self, handle: SpecReferenceHandle) -> (r: &Reference)
        requires
            handle.0 < self.references@.len(),
        ensures
            *r == self.references@[handle.0 as int].reference,
    {
        &self.references[handle.0].reference
    }

    /// The node the first resolved step of a reference landed on. Asking
    /// before the resolve pass has run is a contract violation, so such
    /// states are excluded.
    pub fn get_reference_root(&self, handle: SpecReferenceHandle) -> (r: WeakTypeContainer)
        requires
            handle.0 < self.references@.len(),
            self.references@[handle.0 as int].path matches Some(p) && p@.len() > 0,
            self.references@[handle.0 as int].path->Some_0@[0].node is Some,
        ensures
            r == self.references@[handle.0 as int].path->Some_0@[0].node->Some_0,
    {
        let entry_list = self.references[handle.0].path.as_ref().unwrap();
        let entry = &entry_list[0];
        let node = entry.node.as_ref().unwrap();
        WeakTypeContainer(node.0)
    }
}

impl Default for TypeData {
    /// A fresh node: unnamed, detached, with nothing assigned yet.
    fn default() -> (r: TypeData)
        ensures
            r.name.ns is None,
            r.name.name@ == Seq::<char>::empty(),
            r.children@.len() == 0,
            r.references@.len() == 0,
            r.parent is None,
            r.ident is None,
            r.type_spec is None,
    {
        TypeData {
            name: TypePath::with_no_ns(String::new()),
            children: Vec::new(),
            references: Vec::new(),
            parent: None,
            ident: None,
            type_spec: TypeSpecContainer::new_not_assigned(),
        }
    }
}

} // verus!
