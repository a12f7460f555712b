use vstd::prelude::*;

use crate::data::WeakTypeContainer;
use crate::graph::{Type, TypeGraph};

verus! {

/// Node `c` stands in `p`'s child list.
pub open spec fn spec_edge(nodes: Seq<Type>, p: int, c: int) -> bool {
    exists|k: int|
        0 <= k < nodes[p].data.children@.len() && (#[trigger] nodes[p].data.children@[k]).0 == c
}

/// Node `c` stands in some child list.
pub open spec fn spec_is_child(nodes: Seq<Type>, c: int) -> bool {
    exists|p: int| 0 <= p < nodes.len() && #[trigger] spec_edge(nodes, p, c)
}

/// Node `c`'s back-reference agrees with some child edge.
pub open spec fn spec_good_parent(nodes: Seq<Type>, c: int) -> bool {
    &&& nodes[c].data.parent matches Some(w) && 0 <= w.0 < nodes.len() && spec_edge(
        nodes,
        w.0 as int,
        c,
    )
}

/// `b` is `a` with at most the parent back-reference changed.
pub open spec fn same_but_parent(a: Type, b: Type) -> bool {
    &&& b.data.name == a.data.name
    &&& b.data.children == a.data.children
    &&& b.data.references == a.data.references
    &&& b.data.ident == a.data.ident
    &&& b.data.type_spec == a.data.type_spec
    &&& b.variant == a.variant
}

/// `b` is `a` with at most the ident changed.
pub open spec fn same_but_ident(a: Type, b: Type) -> bool {
    &&& b.data.name == a.data.name
    &&& b.data.children == a.data.children
    &&& b.data.references == a.data.references
    &&& b.data.parent == a.data.parent
    &&& b.data.type_spec == a.data.type_spec
    &&& b.variant == a.variant
}

/// Set every child's parent back-reference to the node owning it as a child.
/// Nodes in no child list keep their old back-reference. Rerunning the pass
/// reproduces the same state.
pub fn assign_parents(graph: &mut TypeGraph)
    requires
        old(graph).wf(),
    ensures
        final(graph).wf(),
        final(graph).nodes@.len() == old(graph).nodes@.len(),
        final(graph).specs.specs@ == old(graph).specs.specs@,
        final(graph).roots@ == old(graph).roots@,
        forall|i: int|
            0 <= i < old(graph).nodes@.len() ==> same_but_parent(
                old(graph).nodes@[i],
                #[trigger] final(graph).nodes@[i],
            ),
        forall|c: int|
            0 <= c < old(graph).nodes@.len() && spec_is_child(old(graph).nodes@, c)
                ==> spec_good_parent(final(graph).nodes@, c),
        forall|c: int|
            0 <= c < old(graph).nodes@.len() && final(graph).nodes@[c].data.parent != old(
                graph,
            ).nodes@[c].data.parent ==> spec_good_parent(final(graph).nodes@, c),
{
    let n = graph.nodes.len();
    let mut p: usize = 0;
    while p < n
        invariant
            old(graph).wf(),
            graph.wf(),
            n == graph.nodes@.len(),
            n == old(graph).nodes@.len(),
            p <= n,
            graph.specs.specs@ == old(graph).specs.specs@,
            graph.roots@ == old(graph).roots@,
            forall|i: int|
                0 <= i < n ==> same_but_parent(
                    old(graph).nodes@[i],
                    #[trigger] graph.nodes@[i],
                ),
            forall|c: int|
                0 <= c < n && graph.nodes@[c].data.parent != old(graph).nodes@[c].data.parent
                    ==> spec_good_parent(graph.nodes@, c),
            forall|p2: int, k2: int|
                0 <= p2 < p as int && 0 <= k2 < old(graph).nodes@[p2].data.children@.len()
                    ==> spec_good_parent(
                    graph.nodes@,
                    (#[trigger] old(graph).nodes@[p2].data.children@[k2]).0 as int,
                ),
        decreases n - p,
    {
        let m = graph.nodes[p].data.children.len();
        let mut k: usize = 0;
        while k < m
            invariant
                old(graph).wf(),
                graph.wf(),
                n == graph.nodes@.len(),
                n == old(graph).nodes@.len(),
                p < n,
                k <= m,
                m == graph.nodes@[p as int].data.children@.len(),
                graph.specs.specs@ == old(graph).specs.specs@,
                graph.roots@ == old(graph).roots@,
                forall|i: int|
                    0 <= i < n ==> same_but_parent(
                        old(graph).nodes@[i],
                        #[trigger] graph.nodes@[i],
                    ),
                forall|c: int|
                    0 <= c < n && graph.nodes@[c].data.parent != old(graph).nodes@[c].data.parent
                        ==> spec_good_parent(graph.nodes@, c),
                forall|p2: int, k2: int|
                    0 <= p2 < p as int && 0 <= k2 < old(graph).nodes@[p2].data.children@.len()
                        ==> spec_good_parent(
                        graph.nodes@,
                        (#[trigger] old(graph).nodes@[p2].data.children@[k2]).0 as int,
                    ),
                forall|k2: int|
                    0 <= k2 < k as int ==> spec_good_parent(
                        graph.nodes@,
                        (#[trigger] old(graph).nodes@[p as int].data.children@[k2]).0 as int,
                    ),
            decreases m - k,
        {
            let c = graph.nodes[p].data.children[k];
            let ghost pre = graph.nodes@;
            proof {
                assert(graph.node_wf(p as int));
            }
            graph.nodes[c.0].data.parent = Some(WeakTypeContainer(p));
            proof {
                assert forall|i: int| 0 <= i < n implies same_but_parent(
                    old(graph).nodes@[i],
                    #[trigger] graph.nodes@[i],
                ) by {
                    assert(same_but_parent(old(graph).nodes@[i], pre[i]));
                }
                assert(spec_edge(graph.nodes@, p as int, c.0 as int)) by {
                    assert(graph.nodes@[p as int].data.children@[k as int].0 == c.0);
                }
                assert forall|c2: int|
                    0 <= c2 < n && graph.nodes@[c2].data.parent != old(
                        graph,
                    ).nodes@[c2].data.parent implies spec_good_parent(graph.nodes@, c2) by {
                    if c2 != c.0 as int {
                        assert(graph.nodes@[c2] == pre[c2]);
                        if pre[c2].data.parent != old(graph).nodes@[c2].data.parent {
                            assert(spec_good_parent(pre, c2));
                            let w = pre[c2].data.parent->Some_0;
                            let k3 = choose|k3: int|
                                0 <= k3 < pre[w.0 as int].data.children@.len() && (
                                #[trigger] pre[w.0 as int].data.children@[k3]).0 == c2;
                            assert(graph.nodes@[w.0 as int].data.children@[k3].0 == c2);
                        }
                    }
                }
                assert forall|p2: int, k2: int|
                    0 <= p2 < p as int && 0 <= k2 < old(graph).nodes@[p2].data.children@.len()
                    implies spec_good_parent(
                    graph.nodes@,
                    (#[trigger] old(graph).nodes@[p2].data.children@[k2]).0 as int,
                ) by {
                    assert(old(graph).node_wf(p2));
                    let c2 = old(graph).nodes@[p2].data.children@[k2].0 as int;
                    if c2 != c.0 as int {
                        assert(graph.nodes@[c2] == pre[c2]);
                        assert(spec_good_parent(pre, c2));
                        let w = pre[c2].data.parent->Some_0;
                        let k3 = choose|k3: int|
                            0 <= k3 < pre[w.0 as int].data.children@.len() && (
                            #[trigger] pre[w.0 as int].data.children@[k3]).0 == c2;
                        assert(graph.nodes@[w.0 as int].data.children@[k3].0 == c2);
                    }
                }
                assert forall|k2: int| 0 <= k2 < k as int + 1 implies spec_good_parent(
                    graph.nodes@,
                    (#[trigger] old(graph).nodes@[p as int].data.children@[k2]).0 as int,
                ) by {
                    assert(old(graph).node_wf(p as int));
                    let c2 = old(graph).nodes@[p as int].data.children@[k2].0 as int;
                    if k2 < k as int {
                        if c2 != c.0 as int {
                            assert(graph.nodes@[c2] == pre[c2]);
                            assert(spec_good_parent(pre, c2));
                            let w = pre[c2].data.parent->Some_0;
                            let k3 = choose|k3: int|
                                0 <= k3 < pre[w.0 as int].data.children@.len() && (
                                #[trigger] pre[w.0 as int].data.children@[k3]).0 == c2;
                            assert(graph.nodes@[w.0 as int].data.children@[k3].0 == c2);
                        }
                    } else {
                        assert(old(graph).nodes@[p as int].data.children@[k2]
                            == graph.nodes@[p as int].data.children@[k2]);
                    }
                }
                assert forall|i: int| 0 <= i < n implies #[trigger] graph.node_wf(i) by {
                    assert(old(graph).node_wf(i));
                    assert(same_but_parent(old(graph).nodes@[i], graph.nodes@[i]));
                }
            }
            k = k + 1;
        }
        p = p + 1;
    }
    proof {
        assert forall|c: int|
            0 <= c < old(graph).nodes@.len() && spec_is_child(old(graph).nodes@, c)
            implies spec_good_parent(graph.nodes@, c) by {
            let p2 = choose|p2: int|
                0 <= p2 < old(graph).nodes@.len() && #[trigger] spec_edge(
                    old(graph).nodes@,
                    p2,
                    c,
                );
            let k2 = choose|k2: int|
                0 <= k2 < old(graph).nodes@[p2].data.children@.len() && (#[trigger] old(
                    graph,
                ).nodes@[p2].data.children@[k2]).0 == c;
            assert(spec_good_parent(
                graph.nodes@,
                (old(graph).nodes@[p2].data.children@[k2]).0 as int,
            ));
        }
    }
}

/// Walk the nodes in definition order and give each a strictly increasing
/// identifier. The ordering is causal for definitions only: a reference may
/// legally point at a node with a larger ident.
pub fn assign_idents(graph: &mut TypeGraph)
    requires
        old(graph).wf(),
    ensures
        final(graph).wf(),
        final(graph).nodes@.len() == old(graph).nodes@.len(),
        final(graph).specs.specs@ == old(graph).specs.specs@,
        final(graph).roots@ == old(graph).roots@,
        forall|i: int|
            0 <= i < old(graph).nodes@.len() ==> same_but_ident(
                old(graph).nodes@[i],
                #[trigger] final(graph).nodes@[i],
            ),
        forall|i: int|
            0 <= i < final(graph).nodes@.len() ==> final(graph).nodes@[i].data.ident == Some(
                i as u64,
            ),
{
    let n = graph.nodes.len();
    let mut i: usize = 0;
    while i < n
        invariant
            old(graph).wf(),
            graph.wf(),
            n == graph.nodes@.len(),
            n == old(graph).nodes@.len(),
            i <= n,
            graph.specs.specs@ == old(graph).specs.specs@,
            graph.roots@ == old(graph).roots@,
            forall|j: int|
                0 <= j < n ==> same_but_ident(old(graph).nodes@[j], #[trigger] graph.nodes@[j]),
            forall|j: int|
                0 <= j < i as int ==> (#[trigger] graph.nodes@[j]).data.ident == Some(j as u64),
        decreases n - i,
    {
        let ghost pre = graph.nodes@;
        graph.nodes[i].data.ident = Some(i as u64);
        proof {
            assert forall|j: int| 0 <= j < n implies same_but_ident(
                old(graph).nodes@[j],
                #[trigger] graph.nodes@[j],
            ) by {
                assert(same_but_ident(old(graph).nodes@[j], pre[j]));
            }
            assert forall|j: int| 0 <= j < n implies #[trigger] graph.node_wf(j) by {
                assert(old(graph).node_wf(j));
                assert(same_but_ident(old(graph).nodes@[j], graph.nodes@[j]));
            }
        }
        i = i + 1;
    }
}

} // verus!
