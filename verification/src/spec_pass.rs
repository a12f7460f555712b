use vstd::prelude::*;

use crate::graph::{Type, TypeGraph};
use crate::type_spec::{
    ArraySize, ArraySpec, BinarySpec, BinaryEncoding, ContainerFieldSpec, ContainerSpec, TypeSpec,
    TypeSpecContainer, TypeSpecVariant, WeakTypeSpecContainer,
};
use crate::variant::{NativeKind, Variant};

verus! {

/// The shape the type-assignment pass writes into node `i`'s spec slot,
/// computed from its kind and its children: a native scalar gets its
/// annotated shape, a container gets one field per child in declared order,
/// fields and named uses become transparent indirections to their type's
/// slot, and an array points at its element's slot.
pub open spec fn spec_assigned_ok(nodes: Seq<Type>, specs: Seq<TypeSpec>, i: int) -> bool {
    match nodes[i].variant {
        Variant::NativeScalar(ns) => match ns.kind {
            NativeKind::Integer(isp) => specs[i].variant matches TypeSpecVariant::Integer(x) && x
                == isp,
            NativeKind::Binary(be) => specs[i].variant matches TypeSpecVariant::Binary(b)
                && b.encoding == be,
            NativeKind::Boolean => specs[i].variant is Boolean,
            NativeKind::Opaque => specs[i].variant is Opaque,
        },
        Variant::Container(_) => specs[i].variant matches TypeSpecVariant::Container(c) && {
            let children = nodes[i].data.children@;
            &&& c.name@ == nodes[i].data.name.name@
            &&& c.fields@.len() == children.len()
            &&& forall|k: int|
                0 <= k < children.len() ==> ((#[trigger] c.fields@[k]).name@
                    == nodes[children[k].0 as int].data.name.name@ && c.fields@[k].type_spec.0
                    == children[k].0)
        },
        Variant::ContainerField(_) => {
            if nodes[i].data.children@.len() > 0 {
                specs[i].variant matches TypeSpecVariant::Referenced(o) && o == Some(
                    WeakTypeSpecContainer(nodes[i].data.children@[0].0),
                )
            } else {
                specs[i].variant matches TypeSpecVariant::Referenced(o) && o is None
            }
        },
        Variant::Array(_) => {
            if nodes[i].data.children@.len() > 0 {
                specs[i].variant matches TypeSpecVariant::Array(a) && a.size is Dynamic
                    && a.child.0 == nodes[i].data.children@[0].0
            } else {
                specs[i].variant matches TypeSpecVariant::Referenced(o) && o is None
            }
        },
        Variant::SizedBuffer(_) => specs[i].variant matches TypeSpecVariant::Binary(b)
            && b.encoding is Raw,
        Variant::TypeRef(t) => match t.target {
            Some(w) => {
                if w.0 < nodes.len() {
                    specs[i].variant matches TypeSpecVariant::Referenced(o) && o == Some(
                        WeakTypeSpecContainer(w.0),
                    )
                } else {
                    specs[i].variant matches TypeSpecVariant::Referenced(o) && o is None
                }
            },
            None => specs[i].variant matches TypeSpecVariant::Referenced(o) && o is None,
        },
    }
}

/// Compute and set each node's structural type, children before parents.
/// Each spec slot's content is written exactly once, here; nodes themselves
/// are untouched.
pub fn assign_type_specs(graph: &mut TypeGraph)
    requires
        old(graph).wf(),
    ensures
        final(graph).wf(),
        final(graph).nodes@ == old(graph).nodes@,
        final(graph).roots@ == old(graph).roots@,
        final(graph).specs.specs@.len() == old(graph).specs.specs@.len(),
        forall|i: int|
            0 <= i < final(graph).nodes@.len() ==> spec_assigned_ok(
                final(graph).nodes@,
                final(graph).specs.specs@,
                i,
            ),
{
    let n = graph.nodes.len();
    let mut i: usize = n;
    while i > 0
        invariant
            old(graph).wf(),
            graph.wf(),
            n == graph.nodes@.len(),
            graph.nodes@ == old(graph).nodes@,
            graph.roots@ == old(graph).roots@,
            graph.specs.specs@.len() == old(graph).specs.specs@.len(),
            i <= n,
            forall|j: int|
                i as int <= j < n ==> spec_assigned_ok(graph.nodes@, graph.specs.specs@, j),
        decreases i,
    {
        i = i - 1;
        proof {
            assert(graph.node_wf(i as int));
        }
        let sv: TypeSpecVariant = match &graph.nodes[i].variant {
            Variant::NativeScalar(ns) => match &ns.kind {
                NativeKind::Integer(isp) => TypeSpecVariant::Integer(*isp),
                NativeKind::Binary(be) => TypeSpecVariant::Binary(BinarySpec { encoding: *be }),
                NativeKind::Boolean => TypeSpecVariant::Boolean,
                NativeKind::Opaque => TypeSpecVariant::Opaque,
            },
            Variant::Container(_) => {
                let mut fields: Vec<ContainerFieldSpec> = Vec::new();
                let m = graph.nodes[i].data.children.len();
                let mut k: usize = 0;
                while k < m
                    invariant
                        graph.wf(),
                        i < n,
                        n == graph.nodes@.len(),
                        m == graph.nodes@[i as int].data.children@.len(),
                        k <= m,
                        fields@.len() == k as int,
                        forall|j: int|
                            0 <= j < k as int ==> ((#[trigger] fields@[j]).name@
                                == graph.nodes@[graph.nodes@[i as int].data.children@[j].0 as int]
                                .data.name.name@ && fields@[j].type_spec.0
                                == graph.nodes@[i as int].data.children@[j].0),
                    decreases m - k,
                {
                    proof {
                        assert(graph.node_wf(i as int));
                    }
                    let c = graph.nodes[i].data.children[k];
                    fields.push(
                        ContainerFieldSpec {
                            name: graph.nodes[c.0].data.name.name.clone(),
                            type_spec: TypeSpecContainer(c.0),
                        },
                    );
                    k = k + 1;
                }
                TypeSpecVariant::Container(
                    ContainerSpec { name: graph.nodes[i].data.name.name.clone(), fields },
                )
            },
            Variant::ContainerField(_) => {
                let children = &graph.nodes[i].data.children;
                if children.len() > 0 {
                    TypeSpecVariant::Referenced(Some(WeakTypeSpecContainer(children[0].0)))
                } else {
                    TypeSpecVariant::Referenced(None)
                }
            },
            Variant::Array(_) => {
                let children = &graph.nodes[i].data.children;
                if children.len() > 0 {
                    TypeSpecVariant::Array(
                        ArraySpec {
                            size: ArraySize::Dynamic,
                            child: TypeSpecContainer(children[0].0),
                        },
                    )
                } else {
                    TypeSpecVariant::Referenced(None)
                }
            },
            Variant::SizedBuffer(_) => TypeSpecVariant::Binary(
                BinarySpec { encoding: BinaryEncoding::Raw },
            ),
            Variant::TypeRef(t) => match &t.target {
                Some(w) => {
                    if w.0 < graph.nodes.len() {
                        TypeSpecVariant::Referenced(Some(WeakTypeSpecContainer(w.0)))
                    } else {
                        TypeSpecVariant::Referenced(None)
                    }
                },
                None => TypeSpecVariant::Referenced(None),
            },
        };
        let ghost pre = graph.specs.specs@;
        let ts = TypeSpec { variant: sv };
        let ghost tsv = ts;
        graph.specs.specs[i] = ts;
        proof {
            assert(graph.specs.specs@[i as int] == tsv);
            assert(spec_assigned_ok(graph.nodes@, graph.specs.specs@, i as int));
            assert forall|j: int|
                i as int <= j < n implies spec_assigned_ok(
                graph.nodes@,
                graph.specs.specs@,
                j,
            ) by {
                if j != i as int {
                    assert(spec_assigned_ok(graph.nodes@, pre, j));
                    assert(graph.specs.specs@[j] == pre[j]);
                }
            }
            assert forall|j: int| 0 <= j < n implies #[trigger] graph.node_wf(j) by {
                assert(old(graph).node_wf(j));
            }
        }
    }
}

} // verus!
