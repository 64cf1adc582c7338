//! Cycles in dependency graphs.

use petgraph::algo::is_cyclic_directed;
use petgraph::graph::DiGraph;
use vstd::prelude::*;

verus! {

/// A path of at least one step along `edge` that returns to where it began.
pub open spec fn is_cycle<A>(edge: spec_fn(A, A) -> bool, path: Seq<A>) -> bool {
    &&& path.len() >= 2
    &&& path[0] == path.last()
    &&& forall|i: int, j: int| #![trigger path[i], path[j]]
            0 <= i && j == i + 1 && j < path.len() ==> edge(path[i], path[j])
}

/// Whether the relation `edge` has a cycle.
pub open spec fn cyclic<A>(edge: spec_fn(A, A) -> bool) -> bool {
    exists|path: Seq<A>| is_cycle(edge, path)
}

/// The relation of the pairs in `edges`.
pub open spec fn edge_relation(edges: Seq<(usize, usize)>) -> spec_fn(usize, usize) -> bool {
    |i: usize, j: usize| edges.contains((i, j))
}

/// Builds the directed graph with the given edges between numbered nodes and
/// asks `petgraph::algo::is_cyclic_directed` whether it has a cycle. Its
/// documentation promises `true` exactly for a graph that contains a cycle;
/// a self-loop is a cycle of one step. Nodes without edges cannot lie on a
/// cycle, so only the edges are handed over. The index type is `usize`, for
/// which `petgraph` sets no limit on the number of nodes and edges.
#[verifier::external_body]
pub(crate) fn is_cyclic(edges: &Vec<(usize, usize)>) -> (r: bool)
    ensures
        r == cyclic(edge_relation(edges@)),
{
    let graph = DiGraph::<(), (), usize>::from_edges(edges.iter().copied());
    is_cyclic_directed(&graph)
}

/// A relation between the elements of `nodes` has a cycle exactly when the
/// relation between their positions has one.
pub proof fn lemma_cyclic_by_position<A>(nodes: Seq<A>, rel: spec_fn(A, A) -> bool, edges: Seq<(usize, usize)>)
    requires
        nodes.len() <= usize::MAX,
        forall|i: usize, j: usize| #[trigger] edges.contains((i, j))
            <==> (i < nodes.len() && j < nodes.len() && rel(nodes[i as int], nodes[j as int])),
        forall|a: A, b: A| #[trigger] rel(a, b) ==> nodes.contains(a) && nodes.contains(b),
    ensures
        cyclic(edge_relation(edges)) <==> cyclic(rel),
{
    let er = edge_relation(edges);
    if cyclic(er) {
        let path = choose|path: Seq<usize>| is_cycle(er, path);
        let image = path.map_values(|i: usize| nodes[i as int]);
        assert forall|i: int, j: int| 0 <= i && j == i + 1 && j < image.len() implies rel(image[i], image[j]) by {
            assert(er(path[i], path[j]));
            assert(edges.contains((path[i], path[j])));
        }
        assert(is_cycle(rel, image));
    }
    if cyclic(rel) {
        let path = choose|path: Seq<A>| is_cycle(rel, path);
        let position = |a: A| (choose|k: int| 0 <= k < nodes.len() && nodes[k] == a) as usize;
        assert forall|i: int| 0 <= i < path.len() implies nodes.contains(path[i])
            && (position(path[i]) as int) < nodes.len() && nodes[position(path[i]) as int] == path[i] by {
            if i + 1 < path.len() {
                assert(rel(path[i], path[i + 1]));
            } else {
                assert(rel(path[i - 1], path[i]));
            }
        }
        let image = path.map_values(position);
        assert forall|i: int, j: int| 0 <= i && j == i + 1 && j < image.len() implies er(image[i], image[j]) by {
            assert(nodes[image[i] as int] == path[i]);
            assert(nodes[image[j] as int] == path[j]);
            assert(rel(path[i], path[j]));
            assert(edges.contains((image[i], image[j])));
        }
        assert(is_cycle(er, image));
    }
}

} // verus!
