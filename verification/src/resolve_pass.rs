use vstd::prelude::*;

use crate::data::{ReferenceData, SpecReferenceHandle, TypeContainer, WeakTypeContainer};
use crate::errors::CompileError;
use crate::graph::{
    lemma_value_node_in_range, spec_find_child, spec_has_property, spec_result_type,
    spec_value_node, TargetType, Type, TypeGraph,
};
use crate::reference::Reference;
use crate::resolver::{
    resolve_reference, spec_path_matches_downs, spec_resolve_node_target, spec_step_up,
    spec_walk_downs, spec_anchor, SpecResolution,
};
use crate::variant::{TypeRefVariant, Variant};

verus! {

/// Two arenas agree on everything reference resolution reads: kinds,
/// children, names and parents. Cached paths and idents may differ.
pub open spec fn same_resolution_view(a: Seq<Type>, b: Seq<Type>) -> bool {
    &&& a.len() == b.len()
    &&& forall|i: int|
        0 <= i < a.len() ==> ((#[trigger] b[i]).variant == a[i].variant && b[i].data.children
            == a[i].data.children && b[i].data.name == a[i].data.name && b[i].data.parent
            == a[i].data.parent)
}

/// `b` is `a` with at most cached reference paths changed.
pub open spec fn same_but_paths(a: Type, b: Type) -> bool {
    &&& b.data.name == a.data.name
    &&& b.data.children == a.data.children
    &&& b.data.parent == a.data.parent
    &&& b.data.ident == a.data.ident
    &&& b.data.type_spec == a.data.type_spec
    &&& b.variant == a.variant
    &&& b.data.references@.len() == a.data.references@.len()
    &&& forall|k: int|
        0 <= k < a.data.references@.len() ==> (#[trigger] b.data.references@[k]).reference
            == a.data.references@[k].reference
}

/// `b` is `a` with at most cached paths or a named use's target changed.
pub open spec fn same_but_resolution(a: Type, b: Type) -> bool {
    &&& b.data.name == a.data.name
    &&& b.data.children == a.data.children
    &&& b.data.parent == a.data.parent
    &&& b.data.ident == a.data.ident
    &&& b.data.type_spec == a.data.type_spec
    &&& (b.variant == a.variant || (a.variant matches Variant::TypeRef(_) && b.variant
        matches Variant::TypeRef(_)))
    &&& b.data.references@.len() == a.data.references@.len()
    &&& forall|k: int|
        0 <= k < a.data.references@.len() ==> (#[trigger] b.data.references@[k]).reference
            == a.data.references@[k].reference
}

/// The first top-level definition carrying `name`.
pub open spec fn spec_find_root(nodes: Seq<Type>, roots: Seq<TypeContainer>, name: Seq<char>)
    -> Option<TypeContainer>
    decreases roots.len(),
{
    if roots.len() == 0 {
        None
    } else if 0 <= roots[0].0 < nodes.len() && nodes[roots[0].0 as int].data.name.name@ == name {
        Some(roots[0])
    } else {
        spec_find_root(nodes, roots.drop_first(), name)
    }
}

/// The per-kind reference handles point inside their node's reference list.
pub open spec fn refs_wf(g: TypeGraph) -> bool {
    forall|i: int|
        0 <= i < g.nodes@.len() ==> match (#[trigger] g.nodes@[i]).variant {
            Variant::Array(a) => a.count_handle.0 < g.nodes@[i].data.references@.len(),
            Variant::ContainerField(f) => match f.value_handle {
                Some(h) => h.0 < g.nodes@[i].data.references@.len(),
                None => true,
            },
            _ => true,
        }
}

/// No definition carries anything for the resolve pass to do: no named
/// use, no count or value reference, and no reference attached anywhere.
pub open spec fn spec_no_references(g: TypeGraph) -> bool {
    forall|i: int|
        0 <= i < g.nodes@.len() ==> ((#[trigger] g.nodes@[i]).data.references@.len() == 0
            && match g.nodes@[i].variant {
            Variant::NativeScalar(_) => true,
            Variant::Container(_) => true,
            Variant::ContainerField(f) => f.value_handle is None,
            _ => false,
        })
}

/// The index of the one reference a node's kind itself consumes: an array's
/// count, a virtual field's value source.
pub open spec fn spec_handle_of(nodes: Seq<Type>, i: int) -> Option<int> {
    match nodes[i].variant {
        Variant::Array(a) => Some(a.count_handle.0 as int),
        Variant::ContainerField(f) => match f.value_handle {
            Some(h) => Some(h.0 as int),
            None => None,
        },
        _ => None,
    }
}

/// One reference can be walked to its end from `origin`.
pub open spec fn spec_ref_resolves(nodes: Seq<Type>, origin: int, r: Reference) -> bool {
    match r {
        Reference::Node(fr) => spec_resolve_node_target(nodes, origin, fr)
            matches SpecResolution::Target(_),
        Reference::Property(fpr) => spec_resolve_node_target(nodes, origin, fpr.reference)
            matches SpecResolution::Target(t) && spec_has_property(nodes, t, fpr.property@)
            is Some,
    }
}

/// A count or value reference lands on an integer-shaped result.
pub open spec fn spec_ref_target_integer(nodes: Seq<Type>, origin: int, r: Reference) -> bool {
    match r {
        Reference::Node(fr) => spec_resolve_node_target(nodes, origin, fr)
            matches SpecResolution::Target(t) && spec_result_type(nodes, t) == Some(
            TargetType::Integer,
        ),
        Reference::Property(fpr) => spec_resolve_node_target(nodes, origin, fpr.reference)
            matches SpecResolution::Target(t) && spec_has_property(nodes, t, fpr.property@)
            == Some(TargetType::Integer),
    }
}

/// Everything node `i` asks of the resolver: every reference attached to it
/// walks to its end, and the kind's own count or value reference lands on
/// an integer.
pub open spec fn spec_node_refs_resolvable(nodes: Seq<Type>, i: int) -> bool {
    &&& forall|k: int|
        0 <= k < nodes[i].data.references@.len() ==> spec_ref_resolves(
            nodes,
            i,
            (#[trigger] nodes[i].data.references@[k]).reference,
        )
    &&& match spec_handle_of(nodes, i) {
        Some(hx) => 0 <= hx < nodes[i].data.references@.len() && spec_ref_target_integer(
            nodes,
            i,
            nodes[i].data.references@[hx].reference,
        ),
        None => true,
    }
}

/// `b` is the graph with every named use bound to the first top-level
/// definition of its name, and everything resolution reads otherwise
/// unchanged; cached paths, idents and spec handles are free.
pub open spec fn spec_binding_view(a: Seq<Type>, b: Seq<Type>, roots: Seq<TypeContainer>) -> bool {
    &&& b.len() == a.len()
    &&& forall|i: int|
        0 <= i < a.len() ==> {
            let x = a[i];
            let y = #[trigger] b[i];
            &&& y.data.name == x.data.name
            &&& y.data.children == x.data.children
            &&& y.data.parent == x.data.parent
            &&& y.data.references@.len() == x.data.references@.len()
            &&& (forall|k: int|
                0 <= k < x.data.references@.len() ==> (#[trigger] y.data.references@[k]).reference
                    == x.data.references@[k].reference)
            &&& match x.variant {
                Variant::TypeRef(_) => y.variant matches Variant::TypeRef(t) && (spec_find_root(
                    a,
                    roots,
                    x.data.name.name@,
                ) matches Some(c) && t.target == Some(WeakTypeContainer(c.0))),
                _ => y.variant == x.variant,
            }
        }
}

/// The unit resolves: every named use finds a definition and, once every
/// one is bound, every reference anywhere in the graph walks to its end,
/// the counts and value sources landing on integers.
pub open spec fn spec_unit_resolvable(nodes: Seq<Type>, roots: Seq<TypeContainer>) -> bool {
    &&& forall|i: int|
        0 <= i < nodes.len() ==> ((#[trigger] nodes[i]).variant matches Variant::TypeRef(_)
            ==> spec_find_root(nodes, roots, nodes[i].data.name.name@) is Some)
    &&& forall|b: Seq<Type>, i: int|
        #![trigger spec_binding_view(nodes, b, roots), spec_node_refs_resolvable(b, i)]
        spec_binding_view(nodes, b, roots) && 0 <= i < b.len() ==> spec_node_refs_resolvable(
            b,
            i,
        )
}

/// One reference's walk stops with exactly this error.
pub open spec fn spec_ref_fails_with(
    nodes: Seq<Type>,
    origin: int,
    r: Reference,
    e: CompileError,
) -> bool {
    let fr = match r {
        Reference::Node(f) => f,
        Reference::Property(fp) => fp.reference,
    };
    match e {
        CompileError::UnresolvedReference { name } => {
            ||| spec_resolve_node_target(nodes, origin, fr) == SpecResolution::Missing(name@)
            ||| (r matches Reference::Property(fpr) && spec_resolve_node_target(nodes, origin, fr)
                matches SpecResolution::Target(t) && name@ == fpr.property@ && spec_has_property(
                nodes,
                t,
                fpr.property@,
            ) is None)
        },
        CompileError::NotComposite => spec_resolve_node_target(nodes, origin, fr)
            == SpecResolution::NotComposite,
        CompileError::TypeMismatch { .. } => false,
    }
}

/// Node `i` is where resolution fails: one of its references stops with
/// this error, or its count or value reference resolves but not to an
/// integer and the error is a type mismatch.
pub open spec fn spec_node_fails_with(nodes: Seq<Type>, i: int, e: CompileError) -> bool {
    ||| (exists|k: int|
        0 <= k < nodes[i].data.references@.len() && spec_ref_fails_with(
            nodes,
            i,
            (#[trigger] nodes[i].data.references@[k]).reference,
            e,
        ))
    ||| (e matches CompileError::TypeMismatch { .. } && spec_handle_of(nodes, i) matches Some(hx)
        && 0 <= hx < nodes[i].data.references@.len() && spec_ref_resolves(
        nodes,
        i,
        nodes[i].data.references@[hx].reference,
    ) && !spec_ref_target_integer(nodes, i, nodes[i].data.references@[hx].reference))
}

/// What a failed pass reports: a named use without a definition, carrying
/// that use's name; or, over the graph with named uses bound, a node whose
/// reference fails with exactly this error.
pub open spec fn spec_fails_with(nodes: Seq<Type>, roots: Seq<TypeContainer>, e: CompileError)
    -> bool {
    ||| (e matches CompileError::UnresolvedReference { name } && exists|i: int|
        0 <= i < nodes.len() && ((#[trigger] nodes[i]).variant matches Variant::TypeRef(_))
            && spec_find_root(nodes, roots, nodes[i].data.name.name@) is None && name@
            == nodes[i].data.name.name@)
    ||| (exists|b: Seq<Type>, i: int|
        #![trigger spec_binding_view(nodes, b, roots), spec_node_fails_with(b, i, e)]
        spec_binding_view(nodes, b, roots) && 0 <= i < b.len() && spec_node_fails_with(b, i, e))
}

/// Every reference attached to node `i` has its resolved path cached.
pub open spec fn spec_paths_cached(nodes: Seq<Type>, i: int) -> bool {
    forall|k: int|
        0 <= k < nodes[i].data.references@.len() ==> (
        #[trigger] nodes[i].data.references@[k]).path is Some
}

/// A count or value reference fully resolved to an integer-shaped result,
/// with its path cached.
pub open spec fn spec_ref_ok_integer(nodes: Seq<Type>, origin: int, rd: ReferenceData) -> bool {
    match rd.reference {
        Reference::Node(fr) => {
            &&& spec_resolve_node_target(nodes, origin, fr) matches SpecResolution::Target(t)
                && spec_result_type(nodes, t) == Some(TargetType::Integer) && (rd.path
                matches Some(p) && spec_path_matches_downs(p@, fr.down@, t))
        },
        Reference::Property(fpr) => {
            &&& spec_resolve_node_target(nodes, origin, fpr.reference)
                matches SpecResolution::Target(t) && spec_has_property(nodes, t, fpr.property@)
                == Some(TargetType::Integer) && (rd.path matches Some(p) && p@.len()
                == fpr.reference.down@.len() + 1 && spec_path_matches_downs(
                p@.take(fpr.reference.down@.len() as int),
                fpr.reference.down@,
                t,
            ) && p@.last().node == Some(WeakTypeContainer(t as usize)))
        },
    }
}

/// Everything node `i` must have after the resolve pass: its count or value
/// reference resolved to an integer, or its named use bound to the first
/// top-level definition of that name.
pub open spec fn spec_node_resolved(nodes: Seq<Type>, roots: Seq<TypeContainer>, i: int) -> bool {
    match nodes[i].variant {
        Variant::Array(a) => a.count_handle.0 < nodes[i].data.references@.len()
            && spec_ref_ok_integer(nodes, i, nodes[i].data.references@[a.count_handle.0 as int]),
        Variant::ContainerField(f) => match f.value_handle {
            Some(h) => h.0 < nodes[i].data.references@.len() && spec_ref_ok_integer(
                nodes,
                i,
                nodes[i].data.references@[h.0 as int],
            ),
            None => true,
        },
        Variant::TypeRef(t) => spec_find_root(nodes, roots, nodes[i].data.name.name@)
            matches Some(c) && t.target == Some(WeakTypeContainer(c.0)),
        _ => true,
    }
}

proof fn lemma_value_node_frame(a: Seq<Type>, b: Seq<Type>, i: int, fuel: nat)
    requires
        same_resolution_view(a, b),
    ensures
        spec_value_node(a, i, fuel) == spec_value_node(b, i, fuel),
    decreases fuel,
{
    if 0 <= i < a.len() {
        match a[i].variant {
            Variant::ContainerField(_) => {
                if a[i].data.children@.len() > 0 && fuel > 0 {
                    lemma_value_node_frame(a, b, a[i].data.children@[0].0 as int, (fuel - 1) as nat);
                }
            },
            Variant::TypeRef(t) => {
                if let Some(w) = t.target {
                    if fuel > 0 {
                        lemma_value_node_frame(a, b, w.0 as int, (fuel - 1) as nat);
                    }
                }
            },
            _ => {},
        }
    }
}

proof fn lemma_find_child_frame(
    a: Seq<Type>,
    b: Seq<Type>,
    children: Seq<TypeContainer>,
    name: Seq<char>,
)
    requires
        same_resolution_view(a, b),
    ensures
        spec_find_child(a, children, name) == spec_find_child(b, children, name),
    decreases children.len(),
{
    if children.len() > 0 {
        lemma_find_child_frame(a, b, children.drop_first(), name);
    }
}

proof fn lemma_step_up_frame(a: Seq<Type>, b: Seq<Type>, cur: int, up: nat)
    requires
        same_resolution_view(a, b),
    ensures
        spec_step_up(a, cur, up) == spec_step_up(b, cur, up),
    decreases up,
{
    if 0 <= cur < a.len() && up > 0 {
        match a[cur].data.parent {
            Some(w) => {
                lemma_step_up_frame(a, b, w.0 as int, (up - 1) as nat);
            },
            None => {},
        }
    }
}

proof fn lemma_walk_downs_frame(a: Seq<Type>, b: Seq<Type>, cur: int, downs: Seq<String>)
    requires
        same_resolution_view(a, b),
    ensures
        spec_walk_downs(a, cur, downs) == spec_walk_downs(b, cur, downs),
    decreases downs.len(),
{
    if downs.len() > 0 {
        lemma_value_node_frame(a, b, cur, a.len() as nat);
        match spec_value_node(a, cur, a.len() as nat) {
            Some(j) => {
                lemma_value_node_in_range(a, cur, a.len() as nat, j);
                match a[j].variant {
                    Variant::Container(_) => {
                        lemma_find_child_frame(a, b, a[j].data.children@, downs[0]@);
                        match spec_find_child(a, a[j].data.children@, downs[0]@) {
                            Some(c) => {
                                lemma_walk_downs_frame(a, b, c.0 as int, downs.drop_first());
                            },
                            None => {},
                        }
                    },
                    _ => {},
                }
            },
            None => {},
        }
    }
}

proof fn lemma_resolve_target_frame(
    a: Seq<Type>,
    b: Seq<Type>,
    origin: int,
    fr: crate::reference::FieldReference,
)
    requires
        same_resolution_view(a, b),
    ensures
        spec_resolve_node_target(a, origin, fr) == spec_resolve_node_target(b, origin, fr),
{
    assert(spec_anchor(a, origin) == spec_anchor(b, origin));
    lemma_step_up_frame(a, b, spec_anchor(a, origin), fr.up as nat);
    match spec_step_up(a, spec_anchor(a, origin), fr.up as nat) {
        Some(c) => {
            lemma_walk_downs_frame(a, b, c, fr.down@);
        },
        None => {},
    }
}

proof fn lemma_result_type_frame(a: Seq<Type>, b: Seq<Type>, i: int)
    requires
        same_resolution_view(a, b),
    ensures
        spec_result_type(a, i) == spec_result_type(b, i),
{
    lemma_value_node_frame(a, b, i, a.len() as nat);
    match spec_value_node(a, i, a.len() as nat) {
        Some(j) => {
            lemma_value_node_in_range(a, i, a.len() as nat, j);
        },
        None => {},
    }
}

proof fn lemma_has_property_frame(a: Seq<Type>, b: Seq<Type>, i: int, prop: Seq<char>)
    requires
        same_resolution_view(a, b),
    ensures
        spec_has_property(a, i, prop) == spec_has_property(b, i, prop),
{
    lemma_value_node_frame(a, b, i, a.len() as nat);
    match spec_value_node(a, i, a.len() as nat) {
        Some(j) => {
            lemma_value_node_in_range(a, i, a.len() as nat, j);
        },
        None => {},
    }
}

proof fn lemma_find_root_names(
    a: Seq<Type>,
    b: Seq<Type>,
    roots: Seq<TypeContainer>,
    name: Seq<char>,
)
    requires
        a.len() == b.len(),
        forall|i: int| 0 <= i < a.len() ==> (#[trigger] b[i]).data.name == a[i].data.name,
    ensures
        spec_find_root(a, roots, name) == spec_find_root(b, roots, name),
    decreases roots.len(),
{
    if roots.len() > 0 {
        lemma_find_root_names(a, b, roots.drop_first(), name);
    }
}

proof fn lemma_find_root_frame(
    a: Seq<Type>,
    b: Seq<Type>,
    roots: Seq<TypeContainer>,
    name: Seq<char>,
)
    requires
        same_resolution_view(a, b),
    ensures
        spec_find_root(a, roots, name) == spec_find_root(b, roots, name),
    decreases roots.len(),
{
    if roots.len() > 0 {
        lemma_find_root_frame(a, b, roots.drop_first(), name);
    }
}

/// Everything the resolve pass proved of one node keeps holding while other
/// nodes' cached paths are being filled in.
proof fn lemma_node_resolved_frame(a: Seq<Type>, b: Seq<Type>, roots: Seq<TypeContainer>, i: int)
    requires
        0 <= i < a.len(),
        same_resolution_view(a, b),
        b[i].data.references@ == a[i].data.references@,
        spec_node_resolved(a, roots, i),
    ensures
        spec_node_resolved(b, roots, i),
{
    match a[i].variant {
        Variant::Array(ar) => {
            lemma_ref_ok_frame(a, b, i, a[i].data.references@[ar.count_handle.0 as int]);
        },
        Variant::ContainerField(f) => {
            if let Some(h) = f.value_handle {
                lemma_ref_ok_frame(a, b, i, a[i].data.references@[h.0 as int]);
            }
        },
        Variant::TypeRef(_) => {
            lemma_find_root_frame(a, b, roots, a[i].data.name.name@);
        },
        _ => {},
    }
}

proof fn lemma_ref_ok_frame(a: Seq<Type>, b: Seq<Type>, origin: int, rd: ReferenceData)
    requires
        same_resolution_view(a, b),
        spec_ref_ok_integer(a, origin, rd),
    ensures
        spec_ref_ok_integer(b, origin, rd),
{
    match rd.reference {
        Reference::Node(fr) => {
            lemma_resolve_target_frame(a, b, origin, fr);
            let t = choose|t: int|
                spec_resolve_node_target(a, origin, fr) == SpecResolution::Target(t);
            lemma_result_type_frame(a, b, t);
        },
        Reference::Property(fpr) => {
            lemma_resolve_target_frame(a, b, origin, fpr.reference);
            let t = choose|t: int|
                spec_resolve_node_target(a, origin, fpr.reference) == SpecResolution::Target(t);
            lemma_has_property_frame(a, b, t, fpr.property@);
        },
    }
}

proof fn lemma_ref_resolves_frame(a: Seq<Type>, b: Seq<Type>, origin: int, r: Reference)
    requires
        same_resolution_view(a, b),
        spec_ref_resolves(a, origin, r),
    ensures
        spec_ref_resolves(b, origin, r),
{
    match r {
        Reference::Node(fr) => {
            lemma_resolve_target_frame(a, b, origin, fr);
        },
        Reference::Property(fpr) => {
            lemma_resolve_target_frame(a, b, origin, fpr.reference);
            let t = choose|t: int|
                spec_resolve_node_target(a, origin, fpr.reference) == SpecResolution::Target(t);
            lemma_has_property_frame(a, b, t, fpr.property@);
        },
    }
}

proof fn lemma_ref_integer_frame(a: Seq<Type>, b: Seq<Type>, origin: int, r: Reference)
    requires
        same_resolution_view(a, b),
        spec_ref_target_integer(a, origin, r),
    ensures
        spec_ref_target_integer(b, origin, r),
{
    match r {
        Reference::Node(fr) => {
            lemma_resolve_target_frame(a, b, origin, fr);
            let t = choose|t: int|
                spec_resolve_node_target(a, origin, fr) == SpecResolution::Target(t);
            lemma_result_type_frame(a, b, t);
        },
        Reference::Property(fpr) => {
            lemma_resolve_target_frame(a, b, origin, fpr.reference);
            let t = choose|t: int|
                spec_resolve_node_target(a, origin, fpr.reference) == SpecResolution::Target(t);
            lemma_has_property_frame(a, b, t, fpr.property@);
        },
    }
}

/// The cursor the pass keeps per node: how far its reference list has been
/// walked and checked.
pub open spec fn spec_handle_checked(nodes: Seq<Type>, i: int, upto: int) -> bool {
    match spec_handle_of(nodes, i) {
        Some(hx) => hx < upto ==> (0 <= hx < nodes[i].data.references@.len()
            && spec_ref_ok_integer(nodes, i, nodes[i].data.references@[hx])),
        None => true,
    }
}

fn find_root(graph: &TypeGraph, name: &String) -> (r: Option<TypeContainer>)
    requires
        graph.wf(),
    ensures
        r == spec_find_root(graph.nodes@, graph.roots@, name@),
{
    let mut i: usize = 0;
    proof {
        assert(graph.roots@.skip(0) =~= graph.roots@);
    }
    while i < graph.roots.len()
        invariant
            graph.wf(),
            i <= graph.roots@.len(),
            spec_find_root(graph.nodes@, graph.roots@.skip(i as int), name@) == spec_find_root(
                graph.nodes@,
                graph.roots@,
                name@,
            ),
        decreases graph.roots@.len() - i,
    {
        proof {
            assert(graph.roots@.skip(i as int).drop_first() =~= graph.roots@.skip(i as int + 1));
            assert(graph.roots@.skip(i as int)[0] == graph.roots@[i as int]);
        }
        let root = graph.roots[i];
        if root.0 < graph.nodes.len() {
            if graph.nodes[root.0].data.name.name == *name {
                return Some(root);
            }
        }
        i = i + 1;
    }
    proof {
        assert(graph.roots@.skip(i as int) =~= Seq::<TypeContainer>::empty());
    }
    None
}

/// Resolve every reference in the graph: bind each named use to its
/// definition, then walk and cache a path for every reference attached to
/// any node, checking that each count and value reference resolves to an
/// integer-shaped result. The pass succeeds exactly when the whole unit
/// resolves; the first unsatisfiable segment aborts it with an
/// unresolved-reference error naming that segment, and a wrongly shaped
/// result aborts it with a type-mismatch error.
pub fn resolve_references(graph: &mut TypeGraph) -> (r: Result<(), CompileError>)
    requires
        old(graph).wf(),
        refs_wf(*old(graph)),
    ensures
        final(graph).wf(),
        final(graph).nodes@.len() == old(graph).nodes@.len(),
        final(graph).specs.specs@ == old(graph).specs.specs@,
        final(graph).roots@ == old(graph).roots@,
        forall|i: int|
            0 <= i < old(graph).nodes@.len() ==> same_but_resolution(
                old(graph).nodes@[i],
                #[trigger] final(graph).nodes@[i],
            ),
        r is Ok ==> forall|i: int|
            0 <= i < final(graph).nodes@.len() ==> spec_node_resolved(
                final(graph).nodes@,
                final(graph).roots@,
                i,
            ),
        r is Ok ==> forall|i: int|
            0 <= i < final(graph).nodes@.len() ==> spec_paths_cached(final(graph).nodes@, i),
        r is Ok <==> spec_unit_resolvable(old(graph).nodes@, old(graph).roots@),
        r matches Err(e) ==> spec_fails_with(old(graph).nodes@, old(graph).roots@, e),
{
    let n = graph.nodes.len();
    // First bind every named use to the definition it names, so that the
    // walks below see every indirection already in place.
    let mut i: usize = 0;
    while i < n
        invariant
            old(graph).wf(),
            refs_wf(*old(graph)),
            graph.wf(),
            n == graph.nodes@.len(),
            n == old(graph).nodes@.len(),
            i <= n,
            graph.specs.specs@ == old(graph).specs.specs@,
            graph.roots@ == old(graph).roots@,
            forall|j: int|
                0 <= j < n ==> same_but_resolution(
                    old(graph).nodes@[j],
                    #[trigger] graph.nodes@[j],
                ),
            forall|j: int|
                0 <= j < n ==> (#[trigger] graph.nodes@[j]).data.references@ == old(
                    graph,
                ).nodes@[j].data.references@,
            forall|j: int|
                0 <= j < i as int && (old(graph).nodes@[j].variant matches Variant::TypeRef(_))
                    ==> ((#[trigger] graph.nodes@[j]).variant matches Variant::TypeRef(t)
                    && (spec_find_root(graph.nodes@, graph.roots@, graph.nodes@[j].data.name.name@)
                    matches Some(c) && t.target == Some(WeakTypeContainer(c.0)))),
            forall|j: int|
                0 <= j < n && !(old(graph).nodes@[j].variant matches Variant::TypeRef(_)) ==> (
                #[trigger] graph.nodes@[j]).variant == old(graph).nodes@[j].variant,
        decreases n - i,
    {
        let is_typeref = match &graph.nodes[i].variant {
            Variant::TypeRef(_) => true,
            _ => false,
        };
        if is_typeref {
            let nm = graph.nodes[i].data.name.name.clone();
            let found = find_root(graph, &nm);
            match found {
                Some(root) => {
                    let ghost pre = *graph;
                    graph.nodes[i].variant = Variant::TypeRef(
                        TypeRefVariant { target: Some(WeakTypeContainer(root.0)) },
                    );
                    proof {
                        assert forall|j: int| 0 <= j < n implies same_but_resolution(
                            old(graph).nodes@[j],
                            #[trigger] graph.nodes@[j],
                        ) by {
                            assert(same_but_resolution(old(graph).nodes@[j], pre.nodes@[j]));
                        }
                        assert forall|j: int| 0 <= j < n implies #[trigger] graph.node_wf(j) by {
                            assert(pre.node_wf(j));
                        }
                        assert forall|j: int|
                            0 <= j < i as int + 1 && old(graph).nodes@[j].variant
                                matches Variant::TypeRef(_) implies ((
                        #[trigger] graph.nodes@[j]).variant matches Variant::TypeRef(t) && (
                        spec_find_root(graph.nodes@, graph.roots@, graph.nodes@[j].data.name.name@)
                            matches Some(c) && t.target == Some(WeakTypeContainer(c.0)))) by {
                            assert(forall|q: int|
                                0 <= q < n ==> ((#[trigger] graph.nodes@[q]).data.name
                                    == pre.nodes@[q].data.name && graph.nodes@[q].data.children
                                    == pre.nodes@[q].data.children));
                            lemma_find_root_names(
                                pre.nodes@,
                                graph.nodes@,
                                graph.roots@,
                                graph.nodes@[j].data.name.name@,
                            );
                        }
                    }
                },
                None => {
                    let err = CompileError::UnresolvedReference { name: nm };
                    proof {
                        // this named use has no definition: the unit cannot
                        // resolve, and that is exactly what is reported
                        assert(same_but_resolution(
                            old(graph).nodes@[i as int],
                            graph.nodes@[i as int],
                        ));
                        assert forall|q: int|
                            0 <= q < n implies #[trigger] old(graph).nodes@[q].data.name
                            == graph.nodes@[q].data.name by {
                            assert(same_but_resolution(old(graph).nodes@[q], graph.nodes@[q]));
                        }
                        lemma_find_root_names(
                            graph.nodes@,
                            old(graph).nodes@,
                            graph.roots@,
                            graph.nodes@[i as int].data.name.name@,
                        );
                        assert(old(graph).nodes@[i as int].variant matches Variant::TypeRef(_));
                        assert(spec_fails_with(old(graph).nodes@, old(graph).roots@, err));
                        assert(!spec_unit_resolvable(old(graph).nodes@, old(graph).roots@));
                    }
                    return Err(err);
                },
            }
        }
        i = i + 1;
    }
    // Then walk every reference attached to every node, caching each path;
    // the one a node's kind consumes as its count or value source must land
    // on an integer shape.
    let ghost base = *graph;
    proof {
        assert forall|q: int|
            0 <= q < n implies #[trigger] old(graph).nodes@[q].data.name
            == graph.nodes@[q].data.name by {
            assert(same_but_resolution(old(graph).nodes@[q], graph.nodes@[q]));
        }
        assert forall|q: int|
            0 <= q < n && (old(graph).nodes@[q].variant matches Variant::TypeRef(_))
            implies spec_find_root(
            old(graph).nodes@,
            graph.roots@,
            (#[trigger] old(graph).nodes@[q]).data.name.name@,
        ) == spec_find_root(graph.nodes@, graph.roots@, graph.nodes@[q].data.name.name@) by {
            lemma_find_root_names(
                graph.nodes@,
                old(graph).nodes@,
                graph.roots@,
                graph.nodes@[q].data.name.name@,
            );
        }
        assert(spec_binding_view(old(graph).nodes@, graph.nodes@, graph.roots@));
    }
    let mut i2: usize = 0;
    while i2 < n
        invariant
            old(graph).wf(),
            refs_wf(*old(graph)),
            graph.wf(),
            n == graph.nodes@.len(),
            n == base.nodes@.len(),
            n == old(graph).nodes@.len(),
            i2 <= n,
            graph.specs.specs@ == old(graph).specs.specs@,
            graph.roots@ == old(graph).roots@,
            base.roots@ == graph.roots@,
            same_resolution_view(base.nodes@, graph.nodes@),
            forall|j: int|
                0 <= j < n ==> same_but_paths(base.nodes@[j], #[trigger] graph.nodes@[j]),
            forall|j: int|
                0 <= j < n ==> same_but_resolution(
                    old(graph).nodes@[j],
                    #[trigger] graph.nodes@[j],
                ),
            spec_binding_view(old(graph).nodes@, graph.nodes@, graph.roots@),
            forall|j: int|
                0 <= j < n ==> ((#[trigger] base.nodes@[j]).variant matches Variant::TypeRef(_)
                    ==> spec_node_resolved(graph.nodes@, graph.roots@, j)),
            forall|j: int|
                0 <= j < i2 as int ==> spec_node_resolved(graph.nodes@, graph.roots@, j),
            forall|j: int| 0 <= j < i2 as int ==> spec_paths_cached(graph.nodes@, j),
            forall|j: int| 0 <= j < i2 as int ==> spec_node_refs_resolvable(graph.nodes@, j),
        decreases n - i2,
    {
        let handle_idx: Option<usize> = match &graph.nodes[i2].variant {
            Variant::Array(a) => Some(a.count_handle.0),
            Variant::ContainerField(f) => match f.value_handle {
                Some(vh) => Some(vh.0),
                None => None,
            },
            _ => None,
        };
        let m = graph.nodes[i2].data.references.len();
        proof {
            assert(same_but_resolution(old(graph).nodes@[i2 as int], graph.nodes@[i2 as int]));
        }
        let mut h: usize = 0;
        while h < m
            invariant
                old(graph).wf(),
                refs_wf(*old(graph)),
                graph.wf(),
                n == graph.nodes@.len(),
                n == base.nodes@.len(),
                n == old(graph).nodes@.len(),
                i2 < n,
                graph.specs.specs@ == old(graph).specs.specs@,
                graph.roots@ == old(graph).roots@,
                base.roots@ == graph.roots@,
                same_resolution_view(base.nodes@, graph.nodes@),
                forall|j: int|
                    0 <= j < n ==> same_but_paths(base.nodes@[j], #[trigger] graph.nodes@[j]),
                forall|j: int|
                    0 <= j < n ==> same_but_resolution(
                        old(graph).nodes@[j],
                        #[trigger] graph.nodes@[j],
                    ),
                spec_binding_view(old(graph).nodes@, graph.nodes@, graph.roots@),
                forall|j: int|
                    0 <= j < n ==> ((#[trigger] base.nodes@[j]).variant matches Variant::TypeRef(
                        _,
                    ) ==> spec_node_resolved(graph.nodes@, graph.roots@, j)),
                forall|j: int|
                    0 <= j < i2 as int ==> spec_node_resolved(graph.nodes@, graph.roots@, j),
                forall|j: int| 0 <= j < i2 as int ==> spec_paths_cached(graph.nodes@, j),
                forall|j: int| 0 <= j < i2 as int ==> spec_node_refs_resolvable(graph.nodes@, j),
                m == graph.nodes@[i2 as int].data.references@.len(),
                h <= m,
                (match handle_idx {
                    Some(hx) => spec_handle_of(graph.nodes@, i2 as int) == Some(hx as int) && hx
                        < m,
                    None => spec_handle_of(graph.nodes@, i2 as int) is None,
                }),
                forall|k: int|
                    0 <= k < h as int ==> (
                    #[trigger] graph.nodes@[i2 as int].data.references@[k]).path is Some,
                forall|k: int|
                    0 <= k < h as int ==> spec_ref_resolves(
                        graph.nodes@,
                        i2 as int,
                        (#[trigger] graph.nodes@[i2 as int].data.references@[k]).reference,
                    ),
                spec_handle_checked(graph.nodes@, i2 as int, h as int),
            decreases m - h,
        {
            let origin = TypeContainer(i2);
            let href = SpecReferenceHandle(h);
            let ghost rdv = graph.nodes@[i2 as int].data.references@[h as int].reference;
            let outcome = {
                let rd: &Reference = graph.nodes[i2].data.get_reference(href);
                resolve_reference(graph, origin, rd)
            };
            match outcome {
                Ok(rr) => {
                    let need_integer = match handle_idx {
                        Some(hx) => hx == h,
                        None => false,
                    };
                    if need_integer {
                        let is_integer = match rr.shape {
                            Some(TargetType::Integer) => true,
                            _ => false,
                        };
                        if !is_integer {
                            let bad = match graph.nodes[i2].data.get_reference(href) {
                                Reference::Property(fp) => fp.property.clone(),
                                Reference::Node(fr) => {
                                    if fr.down.len() > 0 {
                                        fr.down[fr.down.len() - 1].clone()
                                    } else {
                                        String::from_str("..")
                                    }
                                },
                            };
                            let err = CompileError::TypeMismatch { name: bad };
                            let ghost ev = err;
                            proof {
                                // the walk succeeds but lands off an
                                // integer: the unit cannot resolve, and a
                                // type mismatch is what is reported
                                assert(spec_ref_resolves(graph.nodes@, i2 as int, rdv)) by {
                                    match rdv {
                                        Reference::Node(fr) => {},
                                        Reference::Property(fpr) => {},
                                    }
                                }
                                assert(!spec_ref_target_integer(graph.nodes@, i2 as int, rdv)) by {
                                    match rdv {
                                        Reference::Node(fr) => {},
                                        Reference::Property(fpr) => {},
                                    }
                                }
                                assert(spec_node_fails_with(graph.nodes@, i2 as int, ev));
                                assert(spec_fails_with(old(graph).nodes@, old(graph).roots@, ev));
                                assert(!spec_unit_resolvable(
                                    old(graph).nodes@,
                                    old(graph).roots@,
                                )) by {
                                    if spec_unit_resolvable(old(graph).nodes@, old(graph).roots@) {
                                        assert(spec_node_refs_resolvable(
                                            graph.nodes@,
                                            i2 as int,
                                        ));
                                    }
                                }
                            }
                            return Err(err);
                        }
                    }
                    let ghost pre = *graph;
                    let ghost rtarget = rr.target;
                    let ghost rshape = rr.shape;
                    let node = &mut graph.nodes[i2];
                    node.data.set_reference_path(href, rr.path);
                    proof {
                        assert forall|j: int| 0 <= j < n implies same_but_paths(
                            base.nodes@[j],
                            #[trigger] graph.nodes@[j],
                        ) by {
                            assert(same_but_paths(base.nodes@[j], pre.nodes@[j]));
                        }
                        assert forall|j: int| 0 <= j < n implies same_but_resolution(
                            old(graph).nodes@[j],
                            #[trigger] graph.nodes@[j],
                        ) by {
                            assert(same_but_resolution(old(graph).nodes@[j], pre.nodes@[j]));
                        }
                        assert forall|j: int| 0 <= j < n implies #[trigger] graph.node_wf(j) by {
                            assert(pre.node_wf(j));
                        }
                        assert(same_resolution_view(pre.nodes@, graph.nodes@));
                        assert(spec_binding_view(old(graph).nodes@, graph.nodes@, graph.roots@));
                        assert forall|j: int|
                            0 <= j < i2 as int || (base.nodes@[j].variant
                                matches Variant::TypeRef(_) && 0 <= j < n)
                            implies spec_node_resolved(graph.nodes@, graph.roots@, j) by {
                            assert(spec_node_resolved(pre.nodes@, pre.roots@, j));
                            if j == i2 as int {
                                assert(pre.nodes@[j].variant matches Variant::TypeRef(_));
                                assert forall|q: int|
                                    0 <= q < n implies #[trigger] graph.nodes@[q].data.name
                                    == pre.nodes@[q].data.name by {}
                                lemma_find_root_names(
                                    pre.nodes@,
                                    graph.nodes@,
                                    graph.roots@,
                                    graph.nodes@[j].data.name.name@,
                                );
                            } else {
                                assert(graph.nodes@[j].data.references@
                                    == pre.nodes@[j].data.references@);
                                lemma_node_resolved_frame(
                                    pre.nodes@,
                                    graph.nodes@,
                                    graph.roots@,
                                    j,
                                );
                            }
                        }
                        assert forall|j: int| 0 <= j < i2 as int implies spec_paths_cached(
                            graph.nodes@,
                            j,
                        ) by {
                            assert(spec_paths_cached(pre.nodes@, j));
                            assert(graph.nodes@[j].data.references@
                                == pre.nodes@[j].data.references@);
                        }
                        assert forall|j: int|
                            0 <= j < i2 as int implies spec_node_refs_resolvable(
                            graph.nodes@,
                            j,
                        ) by {
                            assert(spec_node_refs_resolvable(pre.nodes@, j));
                            assert(graph.nodes@[j].data.references@
                                == pre.nodes@[j].data.references@);
                            assert forall|k: int|
                                0 <= k < graph.nodes@[j].data.references@.len()
                                implies spec_ref_resolves(
                                graph.nodes@,
                                j,
                                (#[trigger] graph.nodes@[j].data.references@[k]).reference,
                            ) by {
                                lemma_ref_resolves_frame(
                                    pre.nodes@,
                                    graph.nodes@,
                                    j,
                                    pre.nodes@[j].data.references@[k].reference,
                                );
                            }
                            match spec_handle_of(pre.nodes@, j) {
                                Some(hx) => {
                                    lemma_ref_integer_frame(
                                        pre.nodes@,
                                        graph.nodes@,
                                        j,
                                        pre.nodes@[j].data.references@[hx].reference,
                                    );
                                },
                                None => {},
                            }
                        }
                        // this node: the walked prefix grows by one
                        assert forall|k: int|
                            0 <= k < h as int + 1 implies (
                        #[trigger] graph.nodes@[i2 as int].data.references@[k]).path is Some by {
                            if k < h as int {
                                assert(pre.nodes@[i2 as int].data.references@[k].path is Some);
                            }
                        }
                        assert(spec_ref_resolves(pre.nodes@, i2 as int, rdv)) by {
                            match rdv {
                                Reference::Node(fr) => {},
                                Reference::Property(fpr) => {},
                            }
                        }
                        assert forall|k: int|
                            0 <= k < h as int + 1 implies spec_ref_resolves(
                            graph.nodes@,
                            i2 as int,
                            (#[trigger] graph.nodes@[i2 as int].data.references@[k]).reference,
                        ) by {
                            if k < h as int {
                                lemma_ref_resolves_frame(
                                    pre.nodes@,
                                    graph.nodes@,
                                    i2 as int,
                                    pre.nodes@[i2 as int].data.references@[k].reference,
                                );
                            } else {
                                lemma_ref_resolves_frame(pre.nodes@, graph.nodes@, i2 as int, rdv);
                            }
                        }
                        assert(spec_handle_checked(graph.nodes@, i2 as int, h as int + 1)) by {
                            match spec_handle_of(pre.nodes@, i2 as int) {
                                Some(hx) => {
                                    if hx < h as int {
                                        assert(graph.nodes@[i2 as int].data.references@[hx]
                                            == pre.nodes@[i2 as int].data.references@[hx]);
                                        lemma_ref_ok_frame(
                                            pre.nodes@,
                                            graph.nodes@,
                                            i2 as int,
                                            pre.nodes@[i2 as int].data.references@[hx],
                                        );
                                    } else if hx == h as int {
                                        // just walked and checked: carry the
                                        // resolver facts over the path write
                                        match rdv {
                                            Reference::Node(fr) => {
                                                lemma_resolve_target_frame(
                                                    pre.nodes@,
                                                    graph.nodes@,
                                                    i2 as int,
                                                    fr,
                                                );
                                                lemma_result_type_frame(
                                                    pre.nodes@,
                                                    graph.nodes@,
                                                    rtarget.0 as int,
                                                );
                                            },
                                            Reference::Property(fpr) => {
                                                lemma_resolve_target_frame(
                                                    pre.nodes@,
                                                    graph.nodes@,
                                                    i2 as int,
                                                    fpr.reference,
                                                );
                                                lemma_has_property_frame(
                                                    pre.nodes@,
                                                    graph.nodes@,
                                                    rtarget.0 as int,
                                                    fpr.property@,
                                                );
                                            },
                                        }
                                    }
                                },
                                None => {},
                            }
                        }
                    }
                },
                Err(e) => {
                    let ghost ev = e;
                    proof {
                        // the walk stops here: the unit cannot resolve, and
                        // the failing segment is what is reported
                        assert(spec_ref_fails_with(graph.nodes@, i2 as int, rdv, ev)) by {
                            match rdv {
                                Reference::Node(fr) => {},
                                Reference::Property(fpr) => {},
                            }
                        }
                        assert(!spec_ref_resolves(graph.nodes@, i2 as int, rdv)) by {
                            match rdv {
                                Reference::Node(fr) => {},
                                Reference::Property(fpr) => {},
                            }
                        }
                        assert(spec_node_fails_with(graph.nodes@, i2 as int, ev));
                        assert(spec_fails_with(old(graph).nodes@, old(graph).roots@, ev));
                        assert(!spec_unit_resolvable(old(graph).nodes@, old(graph).roots@)) by {
                            if spec_unit_resolvable(old(graph).nodes@, old(graph).roots@) {
                                assert(spec_node_refs_resolvable(graph.nodes@, i2 as int));
                            }
                        }
                    }
                    return Err(e);
                },
            }
            h = h + 1;
        }
        proof {
            // the node is done: every reference cached, every walk known to
            // succeed, and the kind's own reference checked
            assert(spec_paths_cached(graph.nodes@, i2 as int));
            assert(spec_node_refs_resolvable(graph.nodes@, i2 as int)) by {
                match spec_handle_of(graph.nodes@, i2 as int) {
                    Some(hx) => {
                        assert(spec_ref_ok_integer(
                            graph.nodes@,
                            i2 as int,
                            graph.nodes@[i2 as int].data.references@[hx],
                        ));
                        match graph.nodes@[i2 as int].data.references@[hx].reference {
                            Reference::Node(fr) => {},
                            Reference::Property(fpr) => {},
                        }
                    },
                    None => {},
                }
            }
            assert(spec_node_resolved(graph.nodes@, graph.roots@, i2 as int)) by {
                match graph.nodes@[i2 as int].variant {
                    Variant::TypeRef(_) => {
                        assert(base.nodes@[i2 as int].variant matches Variant::TypeRef(_)) by {
                            assert(same_but_paths(base.nodes@[i2 as int], graph.nodes@[i2 as int]));
                        }
                    },
                    _ => {},
                }
            }
        }
        i2 = i2 + 1;
    }
    proof {
        // success: the unit resolves. The binding view pins every named
        // use, and the per-node facts carry to any graph bound the same way.
        assert forall|q: int|
            0 <= q < n && ((#[trigger] old(graph).nodes@[q]).variant matches Variant::TypeRef(_))
            implies spec_find_root(
            old(graph).nodes@,
            old(graph).roots@,
            old(graph).nodes@[q].data.name.name@,
        ) is Some by {}
        assert forall|b: Seq<Type>, i: int|
            #![trigger spec_binding_view(old(graph).nodes@, b, old(graph).roots@), spec_node_refs_resolvable(b, i)]
            spec_binding_view(old(graph).nodes@, b, old(graph).roots@) && 0 <= i < b.len()
            implies spec_node_refs_resolvable(b, i) by {
            assert(same_resolution_view(graph.nodes@, b)) by {
                assert forall|q: int|
                    0 <= q < n implies ((#[trigger] b[q]).variant == graph.nodes@[q].variant
                        && b[q].data.children == graph.nodes@[q].data.children && b[q].data.name
                        == graph.nodes@[q].data.name && b[q].data.parent
                        == graph.nodes@[q].data.parent) by {}
            }
            assert(spec_node_refs_resolvable(graph.nodes@, i));
            assert forall|k: int|
                0 <= k < b[i].data.references@.len() implies spec_ref_resolves(
                b,
                i,
                (#[trigger] b[i].data.references@[k]).reference,
            ) by {
                assert(b[i].data.references@[k].reference
                    == graph.nodes@[i].data.references@[k].reference);
                lemma_ref_resolves_frame(
                    graph.nodes@,
                    b,
                    i,
                    graph.nodes@[i].data.references@[k].reference,
                );
            }
            match spec_handle_of(b, i) {
                Some(hx) => {
                    assert(spec_handle_of(graph.nodes@, i) == Some(hx));
                    lemma_ref_integer_frame(
                        graph.nodes@,
                        b,
                        i,
                        graph.nodes@[i].data.references@[hx].reference,
                    );
                },
                None => {},
            }
        }
        assert(spec_unit_resolvable(old(graph).nodes@, old(graph).roots@));
    }
    Ok(())
}

} // verus!
