use vstd::prelude::*;

use crate::data::{
    ReferencePathEntryData, ReferencePathEntryOperation, TypeContainer, WeakTypeContainer,
};
use crate::errors::CompileError;
use crate::graph::{
    spec_find_child, spec_has_property, spec_result_type, spec_value_node, TargetType, Type,
    TypeGraph, lemma_value_node_in_range,
};
use crate::reference::{FieldReference, Reference};
use crate::variant::Variant;

verus! {

/// The outcome of walking a reference path at the model level: the node it
/// lands on, the first segment that cannot be satisfied, or an attempt to
/// descend into a kind without children.
pub enum SpecResolution {
    Target(int),
    Missing(Seq<char>),
    NotComposite,
}

/// The syntactic anchor of a reference: the node's enclosing definition, or
/// the node itself at the top level.
pub open spec fn spec_anchor(nodes: Seq<Type>, origin: int) -> int {
    if 0 <= origin < nodes.len() {
        match nodes[origin].data.parent {
            Some(w) => w.0 as int,
            None => origin,
        }
    } else {
        origin
    }
}

/// Climb `up` parents from `cur`.
pub open spec fn spec_step_up(nodes: Seq<Type>, cur: int, up: nat) -> Option<int>
    decreases up,
{
    if !(0 <= cur < nodes.len()) {
        None
    } else if up == 0 {
        Some(cur)
    } else {
        match nodes[cur].data.parent {
            Some(w) => spec_step_up(nodes, w.0 as int, (up - 1) as nat),
            None => None,
        }
    }
}

/// Descend through named children, left to right.
pub open spec fn spec_walk_downs(nodes: Seq<Type>, cur: int, downs: Seq<String>) -> SpecResolution
    decreases downs.len(),
{
    if downs.len() == 0 {
        SpecResolution::Target(cur)
    } else {
        match spec_value_node(nodes, cur, nodes.len() as nat) {
            Some(j) => match nodes[j].variant {
                Variant::Container(_) => match spec_find_child(
                    nodes,
                    nodes[j].data.children@,
                    downs[0]@,
                ) {
                    Some(c) => spec_walk_downs(nodes, c.0 as int, downs.drop_first()),
                    None => SpecResolution::Missing(downs[0]@),
                },
                _ => SpecResolution::NotComposite,
            },
            None => SpecResolution::NotComposite,
        }
    }
}

/// Where the node part of a reference lands, starting from its anchor.
pub open spec fn spec_resolve_node_target(nodes: Seq<Type>, origin: int, fr: FieldReference)
    -> SpecResolution {
    match spec_step_up(nodes, spec_anchor(nodes, origin), fr.up as nat) {
        Some(c) => spec_walk_downs(nodes, c, fr.down@),
        None => SpecResolution::Missing(".."@),
    }
}

/// The resolved steps mirror the down segments one for one, each landing on
/// a node, and the final one on the reference's target.
pub open spec fn spec_path_matches_downs(
    path: Seq<ReferencePathEntryData>,
    downs: Seq<String>,
    target: int,
) -> bool {
    &&& path.len() == downs.len()
    &&& forall|k: int|
        0 <= k < downs.len() ==> ((#[trigger] path[k]).operation
            matches ReferencePathEntryOperation::Down(n) && n@ == downs[k]@ && path[k].node
            is Some)
    &&& downs.len() > 0 ==> path[downs.len() - 1].node == Some(WeakTypeContainer(target as usize))
}

/// A fully resolved reference: the ordered steps taken, the node it landed
/// on, and the shape its final segment produces at a use site.
pub struct ResolvedReference {
    pub path: Vec<ReferencePathEntryData>,
    pub target: TypeContainer,
    pub shape: Option<TargetType>,
}

/// Resolve one reference from its origin node, walking the graph segment by
/// segment and accumulating the path of resolved steps. Resolution is total:
/// it either fully resolves or fails on its first unsatisfiable segment.
pub fn resolve_reference(graph: &TypeGraph, origin: TypeContainer, reference: &Reference) -> (r:
    Result<ResolvedReference, CompileError>)
    requires
        graph.wf(),
        origin.0 < graph.nodes@.len(),
    ensures
        ({
            let nodes = graph.nodes@;
            match r {
                Ok(res) => {
                    &&& res.target.0 < nodes.len()
                    &&& match *reference {
                        Reference::Node(fr) => {
                            &&& spec_resolve_node_target(nodes, origin.0 as int, fr)
                                == SpecResolution::Target(res.target.0 as int)
                            &&& res.shape == spec_result_type(nodes, res.target.0 as int)
                            &&& spec_path_matches_downs(res.path@, fr.down@, res.target.0 as int)
                        },
                        Reference::Property(fpr) => {
                            &&& spec_resolve_node_target(nodes, origin.0 as int, fpr.reference)
                                == SpecResolution::Target(res.target.0 as int)
                            &&& spec_has_property(nodes, res.target.0 as int, fpr.property@)
                                is Some
                            &&& res.shape == spec_has_property(
                                nodes,
                                res.target.0 as int,
                                fpr.property@,
                            )
                            &&& res.path@.len() == fpr.reference.down@.len() + 1
                            &&& spec_path_matches_downs(
                                res.path@.take(fpr.reference.down@.len() as int),
                                fpr.reference.down@,
                                res.target.0 as int,
                            )
                            &&& res.path@.last().operation
                                matches ReferencePathEntryOperation::TypeProperty(p) && p@
                                == fpr.property@
                            &&& res.path@.last().node == Some(
                                WeakTypeContainer(res.target.0),
                            )
                        },
                    }
                },
                Err(e) => {
                    let fr = match *reference {
                        Reference::Node(f) => f,
                        Reference::Property(fp) => fp.reference,
                    };
                    match e {
                        CompileError::UnresolvedReference { name: n } => {
                            ||| spec_resolve_node_target(nodes, origin.0 as int, fr)
                                == SpecResolution::Missing(n@)
                            ||| (*reference matches Reference::Property(fpr)
                                && spec_resolve_node_target(nodes, origin.0 as int, fr)
                                matches SpecResolution::Target(t) && n@ == fpr.property@
                                && spec_has_property(nodes, t, fpr.property@) is None)
                        },
                        CompileError::NotComposite => spec_resolve_node_target(
                            nodes,
                            origin.0 as int,
                            fr,
                        ) == SpecResolution::NotComposite,
                        _ => false,
                    }
                },
            }
        }),
{
    let fr: &FieldReference = match reference {
        Reference::Node(f) => f,
        Reference::Property(fp) => &fp.reference,
    };
    // The anchor: the enclosing definition, or the origin itself at top
    // level.
    let mut cur: TypeContainer = match &graph.get_node(origin).data.parent {
        Some(w) => TypeContainer(w.0),
        None => origin,
    };
    // Climb the leading up-steps.
    let mut stepped: u64 = 0;
    while stepped < fr.up
        invariant
            graph.wf(),
            origin.0 < graph.nodes@.len(),
            *fr == (match *reference {
                Reference::Node(f) => f,
                Reference::Property(fp) => fp.reference,
            }),
            stepped <= fr.up,
            spec_step_up(
                graph.nodes@,
                spec_anchor(graph.nodes@, origin.0 as int),
                fr.up as nat,
            ) == spec_step_up(graph.nodes@, cur.0 as int, (fr.up - stepped) as nat),
        decreases fr.up - stepped,
    {
        if cur.0 >= graph.nodes.len() {
            return Err(CompileError::UnresolvedReference { name: String::from_str("..") });
        }
        match &graph.get_node(cur).data.parent {
            Some(w) => {
                cur = TypeContainer(w.0);
            },
            None => {
                return Err(CompileError::UnresolvedReference { name: String::from_str("..") });
            },
        }
        stepped = stepped + 1;
    }
    if cur.0 >= graph.nodes.len() {
        return Err(CompileError::UnresolvedReference { name: String::from_str("..") });
    }
    // Walk the down segments, accumulating one resolved step per segment.
    let mut path: Vec<ReferencePathEntryData> = Vec::new();
    let mut d: usize = 0;
    proof {
        assert(fr.down@.skip(0) =~= fr.down@);
    }
    while d < fr.down.len()
        invariant
            graph.wf(),
            origin.0 < graph.nodes@.len(),
            *fr == (match *reference {
                Reference::Node(f) => f,
                Reference::Property(fp) => fp.reference,
            }),
            cur.0 < graph.nodes@.len(),
            d <= fr.down@.len(),
            spec_walk_downs(graph.nodes@, cur.0 as int, fr.down@.skip(d as int))
                == spec_resolve_node_target(graph.nodes@, origin.0 as int, *fr),
            path@.len() == d as int,
            forall|k: int|
                0 <= k < d as int ==> ((#[trigger] path@[k]).operation
                    matches ReferencePathEntryOperation::Down(n) && n@ == fr.down@[k]@
                    && path@[k].node is Some),
            d > 0 ==> path@[d - 1].node == Some(WeakTypeContainer(cur.0)),
        decreases fr.down@.len() - d,
    {
        proof {
            assert(fr.down@.skip(d as int).drop_first() =~= fr.down@.skip(d as int + 1));
            assert(fr.down@.skip(d as int)[0] == fr.down@[d as int]);
        }
        let segment = &fr.down[d];
        match graph.resolve_child_name(cur, segment) {
            Ok(w) => {
                proof {
                    lemma_find_child_in_range(
                        graph.nodes@,
                        graph.nodes@[spec_value_node(
                            graph.nodes@,
                            cur.0 as int,
                            graph.nodes@.len() as nat,
                        )->Some_0].data.children@,
                        segment@,
                    );
                }
                path.push(
                    ReferencePathEntryData {
                        node: Some(WeakTypeContainer(w.0)),
                        type_spec: None,
                        operation: ReferencePathEntryOperation::Down(segment.clone()),
                    },
                );
                cur = TypeContainer(w.0);
            },
            Err(e) => {
                return Err(e);
            },
        }
        d = d + 1;
    }
    proof {
        assert(fr.down@.skip(d as int) =~= Seq::<String>::empty());
    }
    // The final segment: a property read, or the node itself.
    match reference {
        Reference::Node(_) => {
            let shape = graph.get_result_type(cur);
            Ok(ResolvedReference { path, target: cur, shape })
        },
        Reference::Property(fp) => {
            match graph.has_property(cur, &fp.property) {
                Some(tt) => {
                    path.push(
                        ReferencePathEntryData {
                            node: Some(WeakTypeContainer(cur.0)),
                            type_spec: None,
                            operation: ReferencePathEntryOperation::TypeProperty(
                                fp.property.clone(),
                            ),
                        },
                    );
                    proof {
                        assert(path@.take(fp.reference.down@.len() as int) =~= path@.drop_last());
                    }
                    Ok(ResolvedReference { path, target: cur, shape: Some(tt) })
                },
                None => Err(
                    CompileError::UnresolvedReference { name: fp.property.clone() },
                ),
            }
        },
    }
}

/// A child found by name lies inside the arena.
pub proof fn lemma_find_child_in_range(
    nodes: Seq<Type>,
    children: Seq<TypeContainer>,
    name: Seq<char>,
)
    ensures
        spec_find_child(nodes, children, name) matches Some(c) ==> 0 <= c.0 < nodes.len(),
    decreases children.len(),
{
    if children.len() > 0 {
        lemma_find_child_in_range(nodes, children.drop_first(), name);
    }
}

} // verus!
