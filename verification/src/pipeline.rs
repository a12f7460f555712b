use vstd::prelude::*;

use crate::errors::CompileError;
use crate::graph::{Type, TypeGraph};
use crate::passes::{
    assign_idents, assign_parents, same_but_ident, same_but_parent, spec_edge, spec_good_parent,
    spec_is_child,
};
use crate::resolve_pass::{
    refs_wf, resolve_references, spec_binding_view, spec_fails_with, spec_no_references,
    spec_node_refs_resolvable, spec_node_resolved, spec_paths_cached, spec_unit_resolvable,
};
use crate::spec_pass::{assign_type_specs, spec_assigned_ok};
use crate::variant::Variant;

verus! {

/// `b` is `a` with parent back-references assigned: every node in a child
/// list gained the parent owning it, every other node kept its own; idents,
/// spec handles and cached paths are free.
pub open spec fn spec_parents_view(a: Seq<Type>, b: Seq<Type>) -> bool {
    &&& b.len() == a.len()
    &&& forall|i: int|
        0 <= i < a.len() ==> {
            let x = a[i];
            let y = #[trigger] b[i];
            &&& y.data.name == x.data.name
            &&& y.data.children == x.data.children
            &&& y.data.references == x.data.references
            &&& y.variant == x.variant
        }
    &&& forall|c: int| 0 <= c < a.len() && spec_is_child(a, c) ==> spec_good_parent(b, c)
    &&& forall|c: int|
        0 <= c < a.len() && !spec_is_child(a, c) ==> b[c].data.parent == a[c].data.parent
}

/// What compilation preserves of every node: its name, its children, and
/// its reference expressions; its kind, up to binding a named use's target.
pub open spec fn same_but_compiled(a: Type, b: Type) -> bool {
    &&& b.data.name == a.data.name
    &&& b.data.children == a.data.children
    &&& b.data.references@.len() == a.data.references@.len()
    &&& forall|k: int|
        0 <= k < a.data.references@.len() ==> (#[trigger] b.data.references@[k]).reference
            == a.data.references@[k].reference
    &&& (b.variant == a.variant || (a.variant matches Variant::TypeRef(_) && b.variant
        matches Variant::TypeRef(_)))
}

/// A unit with nothing to resolve resolves under every parent assignment.
proof fn lemma_no_references_resolvable(g: TypeGraph)
    requires
        spec_no_references(g),
    ensures
        forall|b: Seq<Type>| #[trigger]
            spec_parents_view(g.nodes@, b) ==> spec_unit_resolvable(b, g.roots@),
{
    assert forall|b: Seq<Type>| #[trigger]
        spec_parents_view(g.nodes@, b) implies spec_unit_resolvable(b, g.roots@) by {
        assert forall|i: int|
            0 <= i < b.len() implies !((#[trigger] b[i]).variant matches Variant::TypeRef(_)) by {
            match g.nodes@[i].variant {
                Variant::NativeScalar(_) => {},
                Variant::Container(_) => {},
                Variant::ContainerField(_) => {},
                _ => {},
            }
        }
        assert forall|c2: Seq<Type>, i: int|
            #![trigger spec_binding_view(b, c2, g.roots@), spec_node_refs_resolvable(c2, i)]
            spec_binding_view(b, c2, g.roots@) && 0 <= i < c2.len()
            implies spec_node_refs_resolvable(c2, i) by {
            assert(c2[i].data.references@.len() == 0);
            assert(c2[i].variant == g.nodes@[i].variant);
        }
    }
}

/// Run the ordered passes over a freshly built graph: assign parents,
/// assign idents, resolve references, assign structural types. The unit
/// compiles exactly when it resolves; failure in any pass aborts it, naming
/// the first unsatisfied segment or the wrongly shaped reference, and the
/// partly transformed graph must then be discarded.
pub fn compile_unit(graph: &mut TypeGraph) -> (r: Result<(), CompileError>)
    requires
        old(graph).wf(),
        refs_wf(*old(graph)),
    ensures
        final(graph).wf(),
        final(graph).nodes@.len() == old(graph).nodes@.len(),
        final(graph).roots@ == old(graph).roots@,
        final(graph).specs.specs@.len() == old(graph).specs.specs@.len(),
        forall|i: int|
            0 <= i < old(graph).nodes@.len() ==> same_but_compiled(
                old(graph).nodes@[i],
                #[trigger] final(graph).nodes@[i],
            ),
        (forall|b: Seq<Type>| #[trigger]
            spec_parents_view(old(graph).nodes@, b) ==> spec_unit_resolvable(
                b,
                old(graph).roots@,
            )) ==> r is Ok,
        r is Ok ==> exists|b: Seq<Type>|
            #[trigger] spec_parents_view(old(graph).nodes@, b) && spec_unit_resolvable(
                b,
                old(graph).roots@,
            ),
        r matches Err(e) ==> exists|b: Seq<Type>|
            #[trigger] spec_parents_view(old(graph).nodes@, b) && spec_fails_with(
                b,
                old(graph).roots@,
                e,
            ),
        spec_no_references(*old(graph)) ==> r is Ok,
        r is Ok ==> forall|i: int|
            0 <= i < final(graph).nodes@.len() ==> spec_node_resolved(
                final(graph).nodes@,
                final(graph).roots@,
                i,
            ),
        r is Ok ==> forall|i: int|
            0 <= i < final(graph).nodes@.len() ==> spec_paths_cached(final(graph).nodes@, i),
        r is Ok ==> forall|i: int|
            0 <= i < final(graph).nodes@.len() ==> spec_assigned_ok(
                final(graph).nodes@,
                final(graph).specs.specs@,
                i,
            ),
        r is Ok ==> forall|i: int|
            0 <= i < final(graph).nodes@.len() ==> final(graph).nodes@[i].data.ident == Some(
                i as u64,
            ),
{
    assign_parents(graph);
    let ghost mid1 = *graph;
    assign_idents(graph);
    let ghost mid2 = *graph;
    proof {
        let n = old(graph).nodes@.len() as int;
        assert forall|i: int|
            0 <= i < n implies ((#[trigger] graph.nodes@[i]).variant == old(
            graph,
        ).nodes@[i].variant && graph.nodes@[i].data.references == old(
            graph,
        ).nodes@[i].data.references && graph.nodes@[i].data.name == old(graph).nodes@[i].data.name
            && graph.nodes@[i].data.children == old(graph).nodes@[i].data.children) by {
            assert(same_but_parent(old(graph).nodes@[i], mid1.nodes@[i]));
            assert(same_but_ident(mid1.nodes@[i], graph.nodes@[i]));
        }
        assert(refs_wf(*graph));
        assert(spec_parents_view(old(graph).nodes@, mid2.nodes@)) by {
            assert forall|c: int|
                0 <= c < n && spec_is_child(old(graph).nodes@, c) implies spec_good_parent(
                mid2.nodes@,
                c,
            ) by {
                assert(spec_good_parent(mid1.nodes@, c));
                let w = mid1.nodes@[c].data.parent->Some_0;
                let k = choose|k: int|
                    0 <= k < mid1.nodes@[w.0 as int].data.children@.len() && (
                    #[trigger] mid1.nodes@[w.0 as int].data.children@[k]).0 == c;
                assert(same_but_ident(mid1.nodes@[w.0 as int], mid2.nodes@[w.0 as int]));
                assert(mid2.nodes@[w.0 as int].data.children@[k].0 == c);
                assert(same_but_ident(mid1.nodes@[c], mid2.nodes@[c]));
            }
            assert forall|c: int|
                0 <= c < n && !spec_is_child(old(graph).nodes@, c)
                implies mid2.nodes@[c].data.parent == old(graph).nodes@[c].data.parent by {
                assert(same_but_ident(mid1.nodes@[c], mid2.nodes@[c]));
                if mid1.nodes@[c].data.parent != old(graph).nodes@[c].data.parent {
                    assert(spec_good_parent(mid1.nodes@, c));
                    let w = mid1.nodes@[c].data.parent->Some_0;
                    let k = choose|k: int|
                        0 <= k < mid1.nodes@[w.0 as int].data.children@.len() && (
                        #[trigger] mid1.nodes@[w.0 as int].data.children@[k]).0 == c;
                    assert(same_but_parent(
                        old(graph).nodes@[w.0 as int],
                        mid1.nodes@[w.0 as int],
                    ));
                    assert(old(graph).nodes@[w.0 as int].data.children@[k].0 == c);
                    assert(spec_edge(old(graph).nodes@, w.0 as int, c));
                }
            }
        }
    }
    let outcome = resolve_references(graph);
    match outcome {
        Ok(()) => {},
        Err(e) => {
            proof {
                if spec_no_references(*old(graph)) {
                    lemma_no_references_resolvable(*old(graph));
                }
                if forall|b: Seq<Type>| #[trigger]
                    spec_parents_view(old(graph).nodes@, b) ==> spec_unit_resolvable(
                        b,
                        old(graph).roots@,
                    ) {
                    assert(spec_unit_resolvable(mid2.nodes@, old(graph).roots@));
                }
            }
            return Err(e);
        },
    }
    assign_type_specs(graph);
    proof {
        if spec_no_references(*old(graph)) {
            lemma_no_references_resolvable(*old(graph));
        }
        assert(spec_unit_resolvable(mid2.nodes@, mid2.roots@));
        assert(spec_parents_view(old(graph).nodes@, mid2.nodes@) && spec_unit_resolvable(
            mid2.nodes@,
            old(graph).roots@,
        ));
        let n = old(graph).nodes@.len() as int;
        assert forall|i: int| 0 <= i < n implies same_but_compiled(
            old(graph).nodes@[i],
            #[trigger] graph.nodes@[i],
        ) by {
            assert(same_but_parent(old(graph).nodes@[i], mid1.nodes@[i]));
            assert(same_but_ident(mid1.nodes@[i], mid2.nodes@[i]));
            assert(crate::resolve_pass::same_but_resolution(mid2.nodes@[i], graph.nodes@[i]));
        }
    }
    Ok(())
}

} // verus!
