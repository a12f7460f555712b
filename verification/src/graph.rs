use vstd::prelude::*;

use crate::data::{
    SpecChildHandle, SpecReferenceHandle, TypeContainer, TypeData, WeakTypeContainer,
};
use crate::reference::Reference;
use crate::errors::CompileError;
use crate::name::TypePath;
use crate::type_spec::{TypeSpec, TypeSpecArena, TypeSpecContainer, TypeSpecVariant};
use crate::variant::{NativeKind, Variant};

verus! {

/// The shape a node contributes when used as a count, a tag, or a referenced
/// value.
#[derive(Debug, Clone, Copy, PartialEq, Eq, Structural)]
pub enum TargetType {
    Integer,
    Binary,
    Boolean,
    Opaque,
}

/// One definition node: its graph data and its kind-specific variant.
#[derive(Debug)]
pub struct Type {
    pub data: TypeData,
    pub variant: Variant,
}

/// The type graph of one compilation unit. One arena owns every node and a
/// twin arena owns every structural type; handles are stable indices, and
/// node `i` owns spec slot `i`. Children always carry larger indices than
/// their parent, reflecting definition order.
#[derive(Debug)]
pub struct TypeGraph {
    pub nodes: Vec<Type>,
    pub specs: TypeSpecArena,
    pub roots: Vec<TypeContainer>,
}

/// Where a chain of value indirections starting at node `i` lands: fields
/// stand for their type child, named uses stand for their resolved target,
/// every other kind stands for itself.
pub open spec fn spec_value_node(nodes: Seq<Type>, i: int, fuel: nat) -> Option<int>
    decreases fuel,
{
    if !(0 <= i < nodes.len()) {
        None
    } else {
        match nodes[i].variant {
            Variant::ContainerField(_) => if nodes[i].data.children@.len() > 0 && fuel > 0 {
                spec_value_node(nodes, nodes[i].data.children@[0].0 as int, (fuel - 1) as nat)
            } else {
                None
            },
            Variant::TypeRef(t) => match t.target {
                Some(w) => if fuel > 0 {
                    spec_value_node(nodes, w.0 as int, (fuel - 1) as nat)
                } else {
                    None
                },
                None => None,
            },
            _ => Some(i),
        }
    }
}

/// The shape node `i` reports when used as a count or referenced value: only
/// native scalars report one.
pub open spec fn spec_result_type(nodes: Seq<Type>, i: int) -> Option<TargetType> {
    match spec_value_node(nodes, i, nodes.len() as nat) {
        Some(j) => match nodes[j].variant {
            Variant::NativeScalar(ns) => match ns.kind {
                NativeKind::Integer(_) => Some(TargetType::Integer),
                NativeKind::Binary(_) => Some(TargetType::Binary),
                NativeKind::Boolean => Some(TargetType::Boolean),
                NativeKind::Opaque => Some(TargetType::Opaque),
            },
            _ => None,
        },
        None => None,
    }
}

/// The shape of the named property of node `i`: arrays and sized buffers
/// expose an integer `length`; no other kind has properties.
pub open spec fn spec_has_property(nodes: Seq<Type>, i: int, prop: Seq<char>) -> Option<
    TargetType,
> {
    match spec_value_node(nodes, i, nodes.len() as nat) {
        Some(j) => match nodes[j].variant {
            Variant::Array(_) => if prop == "length"@ {
                Some(TargetType::Integer)
            } else {
                None
            },
            Variant::SizedBuffer(_) => if prop == "length"@ {
                Some(TargetType::Integer)
            } else {
                None
            },
            _ => None,
        },
        None => None,
    }
}

/// The first child of `children` whose node carries `name`, in declared
/// order.
pub open spec fn spec_find_child(nodes: Seq<Type>, children: Seq<TypeContainer>, name: Seq<char>)
    -> Option<TypeContainer>
    decreases children.len(),
{
    if children.len() == 0 {
        None
    } else if 0 <= children[0].0 < nodes.len() && nodes[children[0].0 as int].data.name.name@
        == name {
        Some(children[0])
    } else {
        spec_find_child(nodes, children.drop_first(), name)
    }
}

pub(crate) fn is_length_prop(prop: &String) -> (r: bool)
    ensures
        r == (prop@ == "length"@),
{
    let lit: String = String::from_str("length");
    *prop == lit
}

impl TypeGraph {
    /// Node `i` is well formed: it owns spec slot `i`, and its children were
    /// all defined after it.
    pub open spec fn node_wf(&self, i: int) -> bool {
        &&& self.nodes@[i].data.type_spec == Some(TypeSpecContainer(i as usize))
        &&& forall|k: int|
            0 <= k < self.nodes@[i].data.children@.len() ==> i < (
            #[trigger] self.nodes@[i].data.children@[k]).0 < self.nodes@.len()
    }

    pub open spec fn wf(&self) -> bool {
        &&& self.specs.specs@.len() == self.nodes@.len()
        &&& forall|i: int| 0 <= i < self.nodes@.len() ==> #[trigger] self.node_wf(i)
        &&& forall|k: int|
            0 <= k < self.roots@.len() ==> (#[trigger] self.roots@[k]).0 < self.nodes@.len()
    }

    pub fn new() -> (r: TypeGraph)
        ensures
            r.wf(),
            r.nodes@.len() == 0,
            r.roots@.len() == 0,
            r.specs.specs@.len() == 0,
    {
        TypeGraph { nodes: Vec::new(), specs: TypeSpecArena::new(), roots: Vec::new() }
    }

    /// Add a detached node for one definition, together with its own spec
    /// slot, still unassigned.
    pub fn new_node(&mut self, name: TypePath, variant: Variant) -> (r: TypeContainer)
        requires
            old(self).wf(),
        ensures
            final(self).wf(),
            r.0 == old(self).nodes@.len(),
            final(self).nodes@.len() == old(self).nodes@.len() + 1,
            forall|i: int|
                0 <= i < old(self).nodes@.len() ==> final(self).nodes@[i] == old(self).nodes@[i],
            final(self).nodes@[r.0 as int].data.name == name,
            final(self).nodes@[r.0 as int].data.children@.len() == 0,
            final(self).nodes@[r.0 as int].data.references@.len() == 0,
            final(self).nodes@[r.0 as int].data.parent is None,
            final(self).nodes@[r.0 as int].data.ident is None,
            final(self).nodes@[r.0 as int].data.type_spec == Some(TypeSpecContainer(r.0)),
            final(self).nodes@[r.0 as int].variant == variant,
            final(self).specs.specs@ == old(self).specs.specs@.push(
                TypeSpec { variant: TypeSpecVariant::Referenced(None) },
            ),
            final(self).roots@ == old(self).roots@,
    {
        let index = self.nodes.len();
        let slot = self.specs.add(TypeSpecVariant::Referenced(None));
        let data = TypeData {
            name,
            children: Vec::new(),
            references: Vec::new(),
            parent: None,
            ident: None,
            type_spec: Some(slot),
        };
        self.nodes.push(Type { data, variant });
        proof {
            assert forall|i: int| 0 <= i < self.nodes@.len() implies #[trigger] self.node_wf(
                i,
            ) by {
                if i < old(self).nodes@.len() {
                    assert(old(self).node_wf(i));
                    assert(self.nodes@[i] == old(self).nodes@[i]);
                }
            }
        }
        TypeContainer(index)
    }

    /// Record one definition as a top-level entry of the compilation unit.
    pub fn add_root(&mut self, node: TypeContainer)
        requires
            old(self).wf(),
            node.0 < old(self).nodes@.len(),
        ensures
            final(self).wf(),
            final(self).roots@ == old(self).roots@.push(node),
            final(self).nodes@ == old(self).nodes@,
            final(self).specs.specs@ == old(self).specs.specs@,
    {
        self.roots.push(node);
        proof {
            assert forall|i: int| 0 <= i < self.nodes@.len() implies #[trigger] self.node_wf(
                i,
            ) by {
                assert(old(self).node_wf(i));
            }
        }
    }

    /// Attach `child` to `parent`'s ordered child list. A child is always
    /// defined after its parent.
    pub fn add_child(&mut self, parent: TypeContainer, child: TypeContainer) -> (r:
        SpecChildHandle)
        requires
            old(self).wf(),
            parent.0 < old(self).nodes@.len(),
            child.0 < old(self).nodes@.len(),
            parent.0 < child.0,
        ensures
            final(self).wf(),
            final(self).nodes@.len() == old(self).nodes@.len(),
            final(self).nodes@[parent.0 as int].data.children@ == old(self).nodes@[parent.0 as int]
                .data.children@.push(child),
            r.0 == old(self).nodes@[parent.0 as int].data.children@.len(),
            forall|i: int|
                0 <= i < old(self).nodes@.len() && i != parent.0 as int ==> final(self).nodes@[i]
                    == old(self).nodes@[i],
            final(self).nodes@[parent.0 as int].data.name == old(self).nodes@[parent.0 as int]
                .data.name,
            final(self).nodes@[parent.0 as int].data.references@ == old(self).nodes@[parent.0 as int]
                .data.references@,
            final(self).nodes@[parent.0 as int].data.parent == old(self).nodes@[parent.0 as int]
                .data.parent,
            final(self).nodes@[parent.0 as int].data.ident == old(self).nodes@[parent.0 as int]
                .data.ident,
            final(self).nodes@[parent.0 as int].data.type_spec == old(self).nodes@[parent.0 as int]
                .data.type_spec,
            final(self).nodes@[parent.0 as int].variant == old(self).nodes@[parent.0 as int]
                .variant,
            final(self).specs.specs@ == old(self).specs.specs@,
            final(self).roots@ == old(self).roots@,
    {
        let node = &mut self.nodes[parent.0];
        let handle = node.data.add_child(child);
        proof {
            assert forall|i: int| 0 <= i < self.nodes@.len() implies #[trigger] self.node_wf(
                i,
            ) by {
                assert(old(self).node_wf(i));
                if i == parent.0 as int {
                    let oldc = old(self).nodes@[i].data.children@;
                    assert forall|k: int|
                        0 <= k < self.nodes@[i].data.children@.len() implies i < (
                    #[trigger] self.nodes@[i].data.children@[k]).0 < self.nodes@.len() by {
                        if k < oldc.len() {
                            assert(self.nodes@[i].data.children@[k] == oldc[k]);
                        } else {
                            assert(self.nodes@[i].data.children@[k] == child);
                        }
                    }
                }
            }
        }
        handle
    }

    /// Add a detached array definition carrying its count reference, already
    /// attached as the reference its kind consumes.
    pub fn new_array_node(&mut self, name: TypePath, count_ref: Reference) -> (r: TypeContainer)
        requires
            old(self).wf(),
        ensures
            final(self).wf(),
            r.0 == old(self).nodes@.len(),
            final(self).nodes@.len() == old(self).nodes@.len() + 1,
            forall|i: int|
                0 <= i < old(self).nodes@.len() ==> final(self).nodes@[i] == old(self).nodes@[i],
            final(self).nodes@[r.0 as int].data.name == name,
            final(self).nodes@[r.0 as int].data.children@.len() == 0,
            final(self).nodes@[r.0 as int].data.references@.len() == 1,
            final(self).nodes@[r.0 as int].data.references@[0].reference == count_ref,
            final(self).nodes@[r.0 as int].data.references@[0].path is None,
            final(self).nodes@[r.0 as int].data.parent is None,
            final(self).nodes@[r.0 as int].data.ident is None,
            final(self).nodes@[r.0 as int].data.type_spec == Some(TypeSpecContainer(r.0)),
            final(self).nodes@[r.0 as int].variant == Variant::Array(
                crate::variant::ArrayVariant { count_handle: SpecReferenceHandle(0) },
            ),
            final(self).specs.specs@ == old(self).specs.specs@.push(
                TypeSpec { variant: TypeSpecVariant::Referenced(None) },
            ),
            final(self).roots@ == old(self).roots@,
    {
        let index = self.nodes.len();
        let slot = self.specs.add(TypeSpecVariant::Referenced(None));
        let mut references: Vec<crate::data::ReferenceData> = Vec::new();
        references.push(crate::data::ReferenceData { reference: count_ref, path: None });
        let data = TypeData {
            name,
            children: Vec::new(),
            references,
            parent: None,
            ident: None,
            type_spec: Some(slot),
        };
        self.nodes.push(
            Type {
                data,
                variant: Variant::Array(
                    crate::variant::ArrayVariant { count_handle: SpecReferenceHandle(0) },
                ),
            },
        );
        proof {
            assert forall|i: int| 0 <= i < self.nodes@.len() implies #[trigger] self.node_wf(
                i,
            ) by {
                if i < old(self).nodes@.len() {
                    assert(old(self).node_wf(i));
                    assert(self.nodes@[i] == old(self).nodes@[i]);
                }
            }
        }
        TypeContainer(index)
    }

    /// Add a detached virtual field carrying its value reference, already
    /// attached as the reference its kind consumes.
    pub fn new_virtual_field_node(&mut self, name: TypePath, value_ref: Reference) -> (r:
        TypeContainer)
        requires
            old(self).wf(),
        ensures
            final(self).wf(),
            r.0 == old(self).nodes@.len(),
            final(self).nodes@.len() == old(self).nodes@.len() + 1,
            forall|i: int|
                0 <= i < old(self).nodes@.len() ==> final(self).nodes@[i] == old(self).nodes@[i],
            final(self).nodes@[r.0 as int].data.name == name,
            final(self).nodes@[r.0 as int].data.children@.len() == 0,
            final(self).nodes@[r.0 as int].data.references@.len() == 1,
            final(self).nodes@[r.0 as int].data.references@[0].reference == value_ref,
            final(self).nodes@[r.0 as int].data.references@[0].path is None,
            final(self).nodes@[r.0 as int].data.parent is None,
            final(self).nodes@[r.0 as int].data.ident is None,
            final(self).nodes@[r.0 as int].data.type_spec == Some(TypeSpecContainer(r.0)),
            final(self).nodes@[r.0 as int].variant == Variant::ContainerField(
                crate::variant::ContainerFieldVariant {
                    is_virtual: true,
                    value_handle: Some(SpecReferenceHandle(0)),
                },
            ),
            final(self).specs.specs@ == old(self).specs.specs@.push(
                TypeSpec { variant: TypeSpecVariant::Referenced(None) },
            ),
            final(self).roots@ == old(self).roots@,
    {
        let index = self.nodes.len();
        let slot = self.specs.add(TypeSpecVariant::Referenced(None));
        let mut references: Vec<crate::data::ReferenceData> = Vec::new();
        references.push(crate::data::ReferenceData { reference: value_ref, path: None });
        let data = TypeData {
            name,
            children: Vec::new(),
            references,
            parent: None,
            ident: None,
            type_spec: Some(slot),
        };
        self.nodes.push(
            Type {
                data,
                variant: Variant::ContainerField(
                    crate::variant::ContainerFieldVariant {
                        is_virtual: true,
                        value_handle: Some(SpecReferenceHandle(0)),
                    },
                ),
            },
        );
        proof {
            assert forall|i: int| 0 <= i < self.nodes@.len() implies #[trigger] self.node_wf(
                i,
            ) by {
                if i < old(self).nodes@.len() {
                    assert(old(self).node_wf(i));
                    assert(self.nodes@[i] == old(self).nodes@[i]);
                }
            }
        }
        TypeContainer(index)
    }

    /// Attach a not-yet-resolved reference to a node of the graph.
    pub fn add_reference(&mut self, node: TypeContainer, reference: Reference) -> (r:
        SpecReferenceHandle)
        requires
            old(self).wf(),
            node.0 < old(self).nodes@.len(),
        ensures
            final(self).wf(),
            final(self).nodes@.len() == old(self).nodes@.len(),
            forall|i: int|
                0 <= i < old(self).nodes@.len() && i != node.0 as int ==> final(self).nodes@[i]
                    == old(self).nodes@[i],
            final(self).nodes@[node.0 as int].data.references@ == old(self).nodes@[node.0 as int]
                .data.references@.push(crate::data::ReferenceData { reference, path: None }),
            r.0 == old(self).nodes@[node.0 as int].data.references@.len(),
            final(self).nodes@[node.0 as int].data.name == old(self).nodes@[node.0 as int]
                .data.name,
            final(self).nodes@[node.0 as int].data.children@ == old(self).nodes@[node.0 as int]
                .data.children@,
            final(self).nodes@[node.0 as int].data.parent == old(self).nodes@[node.0 as int]
                .data.parent,
            final(self).nodes@[node.0 as int].data.ident == old(self).nodes@[node.0 as int]
                .data.ident,
            final(self).nodes@[node.0 as int].data.type_spec == old(self).nodes@[node.0 as int]
                .data.type_spec,
            final(self).nodes@[node.0 as int].variant == old(self).nodes@[node.0 as int].variant,
            final(self).specs.specs@ == old(self).specs.specs@,
            final(self).roots@ == old(self).roots@,
    {
        let nref = &mut self.nodes[node.0];
        let handle = nref.data.add_reference(reference);
        proof {
            assert forall|i: int| 0 <= i < self.nodes@.len() implies #[trigger] self.node_wf(
                i,
            ) by {
                assert(old(self).node_wf(i));
            }
        }
        handle
    }

    /// Decide well-formedness at run time, so that an unverified caller can
    /// establish the passes' preconditions deliberately rather than by
    /// construction: every node owns its spec slot, children carry larger
    /// indices, roots lie inside the arena, and every kind's reference
    /// handle points inside its node's reference list.
    pub fn check_well_formed(&self) -> (r: bool)
        ensures
            r == (self.wf() && crate::resolve_pass::refs_wf(*self)),
    {
        let n = self.nodes.len();
        if self.specs.specs.len() != n {
            return false;
        }
        let mut i: usize = 0;
        while i < n
            invariant
                n == self.nodes@.len(),
                self.specs.specs@.len() == n,
                i <= n,
                forall|j: int| 0 <= j < i as int ==> #[trigger] self.node_wf(j),
                forall|j: int|
                    0 <= j < i as int ==> match (#[trigger] self.nodes@[j]).variant {
                        Variant::Array(a) => a.count_handle.0
                            < self.nodes@[j].data.references@.len(),
                        Variant::ContainerField(f) => match f.value_handle {
                            Some(h) => h.0 < self.nodes@[j].data.references@.len(),
                            None => true,
                        },
                        _ => true,
                    },
            decreases n - i,
        {
            let slot_ok = match &self.nodes[i].data.type_spec {
                Some(h) => h.0 == i,
                None => false,
            };
            if !slot_ok {
                proof {
                    assert(!self.node_wf(i as int));
                }
                return false;
            }
            let children = &self.nodes[i].data.children;
            let mut k: usize = 0;
            while k < children.len()
                invariant
                    n == self.nodes@.len(),
                    i < n,
                    k <= children@.len(),
                    children@ == self.nodes@[i as int].data.children@,
                    forall|q: int|
                        0 <= q < k as int ==> (i as int) < (#[trigger] children@[q]).0 < n,
                decreases children@.len() - k,
            {
                let c = children[k];
                if c.0 <= i || c.0 >= n {
                    proof {
                        assert(!self.node_wf(i as int));
                    }
                    return false;
                }
                k = k + 1;
            }
            let handle_ok = match &self.nodes[i].variant {
                Variant::Array(a) => a.count_handle.0 < self.nodes[i].data.references.len(),
                Variant::ContainerField(f) => match f.value_handle {
                    Some(h) => h.0 < self.nodes[i].data.references.len(),
                    None => true,
                },
                _ => true,
            };
            if !handle_ok {
                return false;
            }
            i = i + 1;
        }
        let mut t: usize = 0;
        while t < self.roots.len()
            invariant
                n == self.nodes@.len(),
                t <= self.roots@.len(),
                forall|q: int| 0 <= q < t as int ==> (#[trigger] self.roots@[q]).0 < n,
            decreases self.roots@.len() - t,
        {
            if self.roots[t].0 >= n {
                return false;
            }
            t = t + 1;
        }
        true
    }

    pub fn get_node(&self, node: TypeContainer) -> (r: &Type)
        requires
            node.0 < self.nodes@.len(),
        ensures
            *r == self.nodes@[node.0 as int],
    {
        &self.nodes[node.0]
    }

    /// Follow field and named-use indirection to the node that actually
    /// carries a value's structure.
    pub fn value_node(&self, node: TypeContainer) -> (r: Option<TypeContainer>)
        ensures
            match r {
                Some(h) => spec_value_node(self.nodes@, node.0 as int, self.nodes@.len() as nat)
                    == Some(h.0 as int),
                None => spec_value_node(self.nodes@, node.0 as int, self.nodes@.len() as nat)
                    is None,
            },
    {
        self.value_node_with_fuel(node, self.nodes.len())
    }

    fn value_node_with_fuel(&self, node: TypeContainer, fuel: usize) -> (r: Option<TypeContainer>)
        ensures
            match r {
                Some(h) => spec_value_node(self.nodes@, node.0 as int, fuel as nat) == Some(
                    h.0 as int,
                ),
                None => spec_value_node(self.nodes@, node.0 as int, fuel as nat) is None,
            },
        decreases fuel,
    {
        if node.0 >= self.nodes.len() {
            return None;
        }
        match &self.nodes[node.0].variant {
            Variant::ContainerField(_) => {
                let children = &self.nodes[node.0].data.children;
                if children.len() > 0 && fuel > 0 {
                    let first = children[0];
                    self.value_node_with_fuel(first, fuel - 1)
                } else {
                    None
                }
            },
            Variant::TypeRef(t) => match &t.target {
                Some(w) => {
                    if fuel > 0 {
                        self.value_node_with_fuel(TypeContainer(w.0), fuel - 1)
                    } else {
                        None
                    }
                },
                None => None,
            },
            _ => Some(node),
        }
    }

    /// The shape this node contributes when used as a count or referenced
    /// value.
    pub fn get_result_type(&self, node: TypeContainer) -> (r: Option<TargetType>)
        ensures
            r == spec_result_type(self.nodes@, node.0 as int),
    {
        match self.value_node(node) {
            Some(h) => {
                proof {
                    lemma_value_node_in_range(
                        self.nodes@,
                        node.0 as int,
                        self.nodes@.len() as nat,
                        h.0 as int,
                    );
                }
                match &self.nodes[h.0].variant {
                    Variant::NativeScalar(ns) => match &ns.kind {
                        NativeKind::Integer(_) => Some(TargetType::Integer),
                        NativeKind::Binary(_) => Some(TargetType::Binary),
                        NativeKind::Boolean => Some(TargetType::Boolean),
                        NativeKind::Opaque => Some(TargetType::Opaque),
                    },
                    _ => None,
                }
            },
            None => None,
        }
    }

    /// Whether it is legal to refer to the named property of this node, and
    /// the shape such a read produces.
    pub fn has_property(&self, node: TypeContainer, prop_name: &String) -> (r: Option<TargetType>)
        ensures
            r == spec_has_property(self.nodes@, node.0 as int, prop_name@),
    {
        match self.value_node(node) {
            Some(h) => {
                proof {
                    lemma_value_node_in_range(
                        self.nodes@,
                        node.0 as int,
                        self.nodes@.len() as nat,
                        h.0 as int,
                    );
                }
                match &self.nodes[h.0].variant {
                    Variant::Array(_) => {
                        if is_length_prop(prop_name) {
                            Some(TargetType::Integer)
                        } else {
                            None
                        }
                    },
                    Variant::SizedBuffer(_) => {
                        if is_length_prop(prop_name) {
                            Some(TargetType::Integer)
                        } else {
                            None
                        }
                    },
                    _ => None,
                }
            },
            None => None,
        }
    }

    /// Fetch the named child of a composite node; scalar kinds fail with a
    /// not-composite error, and a missing name fails with an
    /// unresolved-reference error naming it.
    pub fn resolve_child_name(&self, node: TypeContainer, name: &String) -> (r: Result<
        WeakTypeContainer,
        CompileError,
    >)
        requires
            self.wf(),
            node.0 < self.nodes@.len(),
        ensures
            ({
                let vn = spec_value_node(self.nodes@, node.0 as int, self.nodes@.len() as nat);
                match r {
                    Ok(w) => vn matches Some(j) && self.nodes@[j].variant matches Variant::Container(
                        _,
                    ) && spec_find_child(self.nodes@, self.nodes@[j].data.children@, name@) == Some(
                        TypeContainer(w.0),
                    ),
                    Err(e) => match e {
                        CompileError::UnresolvedReference { name: n } => {
                            &&& n@ == name@
                            &&& vn matches Some(j) && self.nodes@[j].variant
                                matches Variant::Container(_) && spec_find_child(
                                self.nodes@,
                                self.nodes@[j].data.children@,
                                name@,
                            ) is None
                        },
                        CompileError::NotComposite => vn is None || (vn matches Some(j) && !(
                        self.nodes@[j].variant matches Variant::Container(_))),
                        _ => false,
                    },
                }
            }),
    {
        let vn = match self.value_node(node) {
            Some(h) => h,
            None => {
                return Err(CompileError::NotComposite);
            },
        };
        proof {
            lemma_value_node_in_range(
                self.nodes@,
                node.0 as int,
                self.nodes@.len() as nat,
                vn.0 as int,
            );
        }
        match &self.nodes[vn.0].variant {
            Variant::Container(_) => {
                let children = &self.nodes[vn.0].data.children;
                let mut i: usize = 0;
                proof {
                    assert(children@.skip(0) =~= children@);
                    assert(self.node_wf(vn.0 as int));
                }
                while i < children.len()
                    invariant
                        self.wf(),
                        node.0 < self.nodes@.len(),
                        vn.0 < self.nodes@.len(),
                        spec_value_node(self.nodes@, node.0 as int, self.nodes@.len() as nat)
                            == Some(vn.0 as int),
                        self.nodes@[vn.0 as int].variant matches Variant::Container(_),
                        children@ == self.nodes@[vn.0 as int].data.children@,
                        i <= children@.len(),
                        forall|k: int|
                            0 <= k < children@.len() ==> (#[trigger] children@[k]).0
                                < self.nodes@.len(),
                        spec_find_child(self.nodes@, children@.skip(i as int), name@)
                            == spec_find_child(self.nodes@, children@, name@),
                    decreases children@.len() - i,
                {
                    proof {
                        assert(children@.skip(i as int).drop_first() =~= children@.skip(
                            i as int + 1,
                        ));
                        assert(children@.skip(i as int)[0] == children@[i as int]);
                    }
                    let c = children[i];
                    if self.nodes[c.0].data.name.name == *name {
                        proof {
                            assert(spec_find_child(self.nodes@, children@.skip(i as int), name@)
                                == Some(children@[i as int]));
                            assert(TypeContainer(c.0) == children@[i as int]);
                        }
                        return Ok(WeakTypeContainer(c.0));
                    }
                    i = i + 1;
                }
                proof {
                    assert(children@.skip(i as int) =~= Seq::<TypeContainer>::empty());
                }
                Err(CompileError::UnresolvedReference { name: name.clone() })
            },
            _ => Err(CompileError::NotComposite),
        }
    }
}

/// A successful value-node walk lands inside the arena.
pub proof fn lemma_value_node_in_range(nodes: Seq<Type>, i: int, fuel: nat, j: int)
    requires
        spec_value_node(nodes, i, fuel) == Some(j),
    ensures
        0 <= j < nodes.len(),
        !(nodes[j].variant matches Variant::ContainerField(_)),
        !(nodes[j].variant matches Variant::TypeRef(_)),
    decreases fuel,
{
    if 0 <= i < nodes.len() {
        match nodes[i].variant {
            Variant::ContainerField(_) => {
                if nodes[i].data.children@.len() > 0 && fuel > 0 {
                    lemma_value_node_in_range(
                        nodes,
                        nodes[i].data.children@[0].0 as int,
                        (fuel - 1) as nat,
                        j,
                    );
                }
            },
            Variant::TypeRef(t) => {
                if let Some(w) = t.target {
                    if fuel > 0 {
                        lemma_value_node_in_range(nodes, w.0 as int, (fuel - 1) as nat, j);
                    }
                }
            },
            _ => {},
        }
    }
}

} // verus!
