//! Reachability over a directed graph given as adjacency lists: the mark
//! phase of a mark-and-sweep collector, proved equivalent to an inductive
//! reachability specification.

use vstd::prelude::*;

verus! {

/// The adjacency lists as the specification sees them.
pub open spec fn graph_view(g: Seq<Vec<usize>>) -> Seq<Seq<usize>> {
    g.map_values(|edges: Vec<usize>| edges@)
}

/// Every edge points at a node of the graph.
pub open spec fn edges_wf(g: Seq<Seq<usize>>) -> bool {
    forall|u: int, e: int|
        0 <= u < g.len() && 0 <= e < g[u].len() ==> (#[trigger] g[u][e]) < g.len()
}

/// Node `v` is reachable from a root by a chain of at most `k` edges.
pub open spec fn reach(g: Seq<Seq<usize>>, roots: Seq<bool>, v: int, k: nat) -> bool
    decreases k,
{
    &&& 0 <= v < g.len()
    &&& (roots[v] || (k > 0 && exists|u: int, e: int|
        0 <= u < g.len() && 0 <= e < g[u].len() && (#[trigger] g[u][e]) == v && reach(
            g,
            roots,
            u,
            (k - 1) as nat,
        )))
}

/// How many nodes are still unmarked.
spec fn count_unmarked(s: Seq<bool>) -> int
    decreases s.len(),
{
    if s.len() == 0 {
        0
    } else {
        count_unmarked(s.drop_last()) + if s.last() {
            0int
        } else {
            1int
        }
    }
}

proof fn lemma_count_unmarked_bounds(s: Seq<bool>)
    ensures
        0 <= count_unmarked(s) <= s.len(),
    decreases s.len(),
{
    if s.len() > 0 {
        lemma_count_unmarked_bounds(s.drop_last());
    }
}

proof fn lemma_count_unmarked_update(s: Seq<bool>, v: int)
    requires
        0 <= v < s.len(),
        !s[v],
    ensures
        count_unmarked(s.update(v, true)) == count_unmarked(s) - 1,
    decreases s.len(),
{
    let upd = s.update(v, true);
    if v == s.len() - 1 {
        assert(upd.drop_last() =~= s.drop_last());
    } else {
        lemma_count_unmarked_update(s.drop_last(), v);
        assert(upd.drop_last() =~= s.drop_last().update(v, true));
        assert(upd.last() == s.last());
    }
}

/// A node is somewhere on the worklist.
spec fn on_stack(stack: Seq<usize>, v: int) -> bool {
    exists|i: int| 0 <= i < stack.len() && (#[trigger] stack[i]) as int == v
}

/// A marked set that contains every root and is closed under edges
/// contains every reachable node.
proof fn lemma_reach_subset_marked(
    g: Seq<Seq<usize>>,
    roots: Seq<bool>,
    marked: Seq<bool>,
    v: int,
    k: nat,
)
    requires
        reach(g, roots, v, k),
        forall|r: int| 0 <= r < g.len() && roots[r] ==> marked[r],
        forall|u: int, e: int|
            0 <= u < g.len() && marked[u] && 0 <= e < g[u].len() ==> marked[#[trigger] g[u][e]
                as int],
    ensures
        marked[v],
    decreases k,
{
    if !roots[v] {
        let (u, e) = choose|u: int, e: int|
            0 <= u < g.len() && 0 <= e < g[u].len() && (#[trigger] g[u][e]) == v && reach(
                g,
                roots,
                u,
                (k - 1) as nat,
            );
        lemma_reach_subset_marked(g, roots, marked, u, (k - 1) as nat);
    }
}

/// Mark every node reachable from the roots: a node ends up marked exactly
/// when a chain of edges leads to it from some root.
pub fn mark_reachable(graph: &Vec<Vec<usize>>, roots: &Vec<bool>) -> (marked: Vec<bool>)
    requires
        roots@.len() == graph@.len(),
        edges_wf(graph_view(graph@)),
    ensures
        marked@.len() == graph@.len(),
        forall|v: int|
            0 <= v < graph@.len() ==> (#[trigger] marked@[v]) == exists|k: nat|
                reach(graph_view(graph@), roots@, v, k),
{
    let ghost g = graph_view(graph@);
    let n = graph.len();
    proof {
        assert forall|u: int| 0 <= u < n implies g[u] == graph@[u]@ by {}
    }
    let mut marked: Vec<bool> = vec![false; n];
    let mut stack: Vec<usize> = Vec::new();
    let mut r: usize = 0;
    while r < n
        invariant
            n == graph@.len(),
            n == roots@.len(),
            g == graph_view(graph@),
            edges_wf(g),
            g.len() == n,
            marked@.len() == n,
            r <= n,
            forall|i: int|
                0 <= i < stack@.len() ==> {
                    let x = #[trigger] stack@[i];
                    x < n && marked@[x as int]
                },
            forall|v: int| 0 <= v < n && #[trigger] marked@[v] ==> (exists|k: nat|
                reach(g, roots@, v, k)) && on_stack(stack@, v),
            forall|v: int| 0 <= v < r && roots@[v] ==> marked@[v],
        decreases n - r,
    {
        if roots[r] && !marked[r] {
            let ghost st0 = stack@;
            marked.set(r, true);
            stack.push(r);
            proof {
                assert(reach(g, roots@, r as int, 0nat));
                assert(stack@[stack@.len() - 1] == r);
                assert forall|v: int| 0 <= v < n && #[trigger] marked@[v] implies on_stack(
                    stack@,
                    v,
                ) by {
                    if v != r as int {
                        let i = choose|i: int|
                            0 <= i < st0.len() && (#[trigger] st0[i]) as int == v;
                        assert(stack@[i] as int == v);
                    }
                }
            }
        }
        r += 1;
    }
    proof {
        lemma_count_unmarked_bounds(marked@);
    }
    loop
        invariant
            n == graph@.len(),
            n == roots@.len(),
            g == graph_view(graph@),
            edges_wf(g),
            g.len() == n,
            marked@.len() == n,
            forall|i: int|
                0 <= i < stack@.len() ==> {
                    let x = #[trigger] stack@[i];
                    x < n && marked@[x as int]
                },
            forall|v: int| 0 <= v < n && #[trigger] marked@[v] ==> exists|k: nat|
                reach(g, roots@, v, k),
            forall|v: int| 0 <= v < n && roots@[v] ==> marked@[v],
            forall|u: int, e: int|
                0 <= u < n && marked@[u] && 0 <= e < g[u].len() && !marked@[#[trigger] g[u][e]
                    as int] ==> on_stack(stack@, u),
        decreases count_unmarked(marked@), stack@.len(),
    {
        proof {
            lemma_count_unmarked_bounds(marked@);
        }
        let ghost spre0 = stack@;
        let u = match stack.pop() {
            None => {
                proof {
                    assert forall|v: int|
                        0 <= v < n && (exists|k: nat| reach(g, roots@, v, k)) implies marked@[
                    v] by {
                        let k = choose|k: nat| reach(g, roots@, v, k);
                        assert forall|u2: int, e: int|
                            0 <= u2 < n && marked@[u2] && 0 <= e < g[u2].len() implies marked@[
                        #[trigger] g[u2][e] as int] by {
                            if !marked@[g[u2][e] as int] {
                                assert(on_stack(stack@, u2));
                            }
                        }
                        lemma_reach_subset_marked(g, roots@, marked@, v, k);
                    }
                }
                return marked;
            },
            Some(u) => u,
        };
        proof {
            assert forall|u2: int, e2: int|
                0 <= u2 < n && marked@[u2] && u2 != u as int && 0 <= e2 < g[u2].len()
                    && !marked@[#[trigger] g[u2][e2] as int] implies on_stack(stack@, u2) by {
                let i = choose|i: int| 0 <= i < spre0.len() && (#[trigger] spre0[i]) as int == u2;
                assert(i != spre0.len() - 1);
                assert(stack@[i] as int == u2);
            }
        }
        let edges = &graph[u];
        let m = edges.len();
        let ghost c0 = count_unmarked(marked@);
        let ghost s0 = stack@.len() as int;
        let mut e: usize = 0;
        while e < m
            invariant
                n == graph@.len(),
                n == roots@.len(),
                g == graph_view(graph@),
                edges_wf(g),
                g.len() == n,
                marked@.len() == n,
                u < n,
                marked@[u as int],
                m == g[u as int].len(),
                edges@ == g[u as int],
                e <= m,
                forall|i: int|
                    0 <= i < stack@.len() ==> {
                        let x = #[trigger] stack@[i];
                        x < n && marked@[x as int]
                    },
                forall|v: int| 0 <= v < n && #[trigger] marked@[v] ==> exists|k: nat|
                    reach(g, roots@, v, k),
                forall|v: int| 0 <= v < n && roots@[v] ==> marked@[v],
                forall|j: int| 0 <= j < e ==> marked@[(#[trigger] g[u as int][j]) as int],
                forall|u2: int, e2: int|
                    0 <= u2 < n && marked@[u2] && u2 != u as int && 0 <= e2 < g[u2].len()
                        && !marked@[#[trigger] g[u2][e2] as int] ==> on_stack(stack@, u2),
                count_unmarked(marked@) + stack@.len() == c0 + s0,
                count_unmarked(marked@) <= c0,
                count_unmarked(marked@) >= 0,
            decreases m - e,
        {
            let w = edges[e];
            if !marked[w] {
                let ghost mk0 = marked@;
                let ghost st0 = stack@;
                marked.set(w, true);
                stack.push(w);
                proof {
                    lemma_count_unmarked_update(mk0, w as int);
                    lemma_count_unmarked_bounds(marked@);
                    let kr = choose|kr: nat| reach(g, roots@, u as int, kr);
                    assert(g[u as int][e as int] == w);
                    assert(reach(g, roots@, w as int, kr + 1));
                    assert(stack@[stack@.len() - 1] == w);
                    assert forall|x: int| on_stack(st0, x) implies on_stack(stack@, x) by {
                        let i = choose|i: int|
                            0 <= i < st0.len() && (#[trigger] st0[i]) as int == x;
                        assert(stack@[i] as int == x);
                    }
                }
            }
            e += 1;
        }
        proof {
            assert forall|u2: int, e2: int|
                0 <= u2 < n && marked@[u2] && 0 <= e2 < g[u2].len() && !marked@[#[trigger] g[u2][
                e2] as int] implies on_stack(stack@, u2) by {
                if u2 == u as int {
                    assert(marked@[g[u2][e2] as int]);
                }
            }
        }
    }
}

} // verus!
