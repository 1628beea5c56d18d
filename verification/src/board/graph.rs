//! The map as an undirected graph, and the graph of the standard board.

use vstd::prelude::*;
use vstd::multiset::Multiset;
use petgraph::graph::NodeIndex;
use petgraph::{Graph, Undirected};
use crate::board::territory::StandardTerritory;
use crate::board::GameMap;
use crate::TerritoryId;

verus! {

/// `petgraph::Graph`, taken as it is: nothing inside a graph is visible to
/// the proofs, which know of it only what the functions below state.
#[verifier::external_type_specification]
#[verifier::external_body]
#[verifier::reject_recursive_types(N)]
#[verifier::reject_recursive_types(E)]
#[verifier::reject_recursive_types(Ty)]
#[verifier::reject_recursive_types(Ix)]
pub struct ExGraph<N, E, Ty, Ix>(Graph<N, E, Ty, Ix>);

/// `petgraph::Undirected`, the marker of graphs whose edges have no
/// direction.
#[verifier::external_type_specification]
#[verifier::external_body]
pub struct ExUndirected(Undirected);

/// An undirected graph whose nodes are the territory indices.
pub type TerritoryGraph = Graph<(), (), Undirected, TerritoryId>;

/// The edges of a territory graph in the order of their indices, each as
/// the pair of node indices it was added with. While no edge is removed,
/// this is the order in which the edges were added.
pub uninterp spec fn graph_edges(g: TerritoryGraph) -> Seq<(TerritoryId, TerritoryId)>;

/// The number of nodes of a territory graph; they are numbered from zero.
pub uninterp spec fn graph_node_count(g: TerritoryGraph) -> nat;

/// The far end of edge `e` as seen from node `a`, if `e` touches `a`.
pub open spec fn other_end(e: (TerritoryId, TerritoryId), a: TerritoryId) -> Option<TerritoryId> {
    if e.0 == a {
        Some(e.1)
    } else if e.1 == a {
        Some(e.0)
    } else {
        None
    }
}

/// The far ends of all edges that touch `a`, one for each such edge.
pub open spec fn neighbors_of(edges: Seq<(TerritoryId, TerritoryId)>, a: TerritoryId) -> Multiset<TerritoryId>
    decreases edges.len(),
{
    if edges.len() == 0 {
        Multiset::empty()
    } else {
        let rest = neighbors_of(edges.drop_last(), a);
        match other_end(edges.last(), a) {
            Some(b) => rest.insert(b),
            None => rest,
        }
    }
}

/// Whether some edge joins `a` and `b`.
pub open spec fn linked(edges: Seq<(TerritoryId, TerritoryId)>, a: TerritoryId, b: TerritoryId) -> bool {
    exists|i: int| 0 <= i < edges.len() && other_end(#[trigger] edges[i], a) == Some(b)
}

/// `Graph::with_capacity`: a graph without nodes or edges. The two arguments
/// only size its buffers.
#[verifier::external_body]
fn graph_with_capacity(nodes: usize, edges: usize) -> (g: TerritoryGraph)
    requires
        nodes <= 255,
        edges <= 255,
    ensures
        graph_node_count(g) == 0,
        graph_edges(g) == Seq::<(TerritoryId, TerritoryId)>::empty(),
{
    Graph::with_capacity(nodes, edges)
}

/// `Graph::add_node`: appends one node and returns its index, which is the
/// number of nodes before the call. The edges stay as they are. With a
/// one-byte index type the graph holds at most 255 nodes.
#[verifier::external_body]
fn graph_add_node(g: &mut TerritoryGraph) -> (index: TerritoryId)
    requires
        graph_node_count(*old(g)) < 255,
    ensures
        index == graph_node_count(*old(g)),
        graph_node_count(*final(g)) == graph_node_count(*old(g)) + 1,
        graph_edges(*final(g)) == graph_edges(*old(g)),
{
    g.add_node(()).index() as TerritoryId
}

/// `Graph::add_edge`: appends the edge between two existing nodes; parallel
/// edges are kept. The nodes stay as they are. With a one-byte index type the
/// graph holds at most 255 edges.
#[verifier::external_body]
fn graph_add_edge(g: &mut TerritoryGraph, a: TerritoryId, b: TerritoryId)
    requires
        a < graph_node_count(*old(g)),
        b < graph_node_count(*old(g)),
        graph_edges(*old(g)).len() < 255,
    ensures
        graph_node_count(*final(g)) == graph_node_count(*old(g)),
        graph_edges(*final(g)) == graph_edges(*old(g)).push((a, b)),
{
    g.add_edge(NodeIndex::new(a as usize), NodeIndex::new(b as usize), ());
}

/// `Graph::neighbors` on an undirected graph: for every edge that touches
/// `a`, the node at its far end, once per edge and in no promised order; a
/// loop at `a` yields `a` once. Nothing for a node that does not exist.
#[verifier::external_body]
fn graph_neighbors(g: &TerritoryGraph, a: TerritoryId) -> (r: Vec<TerritoryId>)
    ensures
        r@.to_multiset() == neighbors_of(graph_edges(*g), a),
{
    g.neighbors(NodeIndex::new(a as usize)).map(|n| n.index() as TerritoryId).collect()
}

/// An edge touches `a` with `b` at its far end exactly when it touches `b`
/// with `a` at its far end.
pub proof fn lemma_linked_symmetric(edges: Seq<(TerritoryId, TerritoryId)>, a: TerritoryId, b: TerritoryId)
    ensures
        linked(edges, a, b) == linked(edges, b, a),
{
    if linked(edges, a, b) {
        let i = choose|i: int| 0 <= i < edges.len() && other_end(#[trigger] edges[i], a) == Some(b);
        assert(other_end(edges[i], b) == Some(a));
    }
    if linked(edges, b, a) {
        let i = choose|i: int| 0 <= i < edges.len() && other_end(#[trigger] edges[i], b) == Some(a);
        assert(other_end(edges[i], a) == Some(b));
    }
}

/// `b` occurs among the neighbors of `a` exactly when some edge joins them.
pub proof fn lemma_neighbors_of_linked(edges: Seq<(TerritoryId, TerritoryId)>, a: TerritoryId, b: TerritoryId)
    ensures
        neighbors_of(edges, a).count(b) > 0 <==> linked(edges, a, b),
    decreases edges.len(),
{
    if edges.len() > 0 {
        let front = edges.drop_last();
        lemma_neighbors_of_linked(front, a, b);
        if linked(front, a, b) {
            let i = choose|i: int| 0 <= i < front.len() && other_end(#[trigger] front[i], a) == Some(b);
            assert(other_end(edges[i], a) == Some(b));
        }
        if other_end(edges.last(), a) == Some(b) {
            assert(other_end(edges[edges.len() - 1], a) == Some(b));
        }
        if linked(edges, a, b) {
            let i = choose|i: int| 0 <= i < edges.len() && other_end(#[trigger] edges[i], a) == Some(b);
            if i < front.len() {
                assert(other_end(front[i], a) == Some(b));
            }
        }
    }
}

impl GameMap for TerritoryGraph {
    open spec fn adjacent(&self, a: TerritoryId, b: TerritoryId) -> bool {
        linked(graph_edges(*self), a, b)
    }

    proof fn adjacent_symmetric(&self, a: TerritoryId, b: TerritoryId) {
        lemma_linked_symmetric(graph_edges(*self), a, b);
    }

    fn are_adjacent(&self, a: TerritoryId, b: TerritoryId) -> (r: bool) {
        let neighbors = graph_neighbors(self, a);
        proof {
            neighbors@.to_multiset_ensures();
            lemma_neighbors_of_linked(graph_edges(*self), a, b);
        }
        names(&neighbors, b)
    }

    /// The far ends of the edges that touch `t`, in the order in which the
    /// graph yields them; a territory joined to `t` by several edges is
    /// named where it comes first and passed over after that.
    fn get_neighbors(&self, t: TerritoryId) -> (r: Vec<TerritoryId>) {
        let far_ends = graph_neighbors(self, t);
        proof {
            far_ends@.to_multiset_ensures();
            assert forall|b: TerritoryId| far_ends@.contains(b) <==> self.adjacent(t, b) by {
                lemma_neighbors_of_linked(graph_edges(*self), t, b);
            }
        }
        let mut neighbors: Vec<TerritoryId> = Vec::new();
        let mut i: usize = 0;
        while i < far_ends.len()
            invariant
                i <= far_ends.len(),
                neighbors@.no_duplicates(),
                forall|b: TerritoryId| #[trigger]
                    neighbors@.contains(b) <==> exists|k: int| 0 <= k < i && far_ends[k] == b,
            decreases far_ends.len() - i,
        {
            let end = far_ends[i];
            let ghost before = neighbors@;
            if !names(&neighbors, end) {
                neighbors.push(end);
                assert forall|b: TerritoryId| #[trigger]
                    neighbors@.contains(b) <==> exists|k: int| 0 <= k < i + 1 && far_ends[k] == b by {
                    if neighbors@.contains(b) {
                        let j = choose|j: int| 0 <= j < neighbors@.len() && neighbors@[j] == b;
                        if j < before.len() {
                            assert(before[j] == b);
                            assert(before.contains(b));
                            let k = choose|k: int| 0 <= k < i && far_ends[k] == b;
                            assert(0 <= k < i + 1 && far_ends[k] == b);
                        } else {
                            assert(far_ends[i as int] == b);
                        }
                    }
                    if exists|k: int| 0 <= k < i + 1 && far_ends[k] == b {
                        let k = choose|k: int| 0 <= k < i + 1 && far_ends[k] == b;
                        if k < i {
                            assert(before.contains(b));
                            let j = choose|j: int| 0 <= j < before.len() && before[j] == b;
                            assert(neighbors@[j] == b);
                        } else {
                            assert(neighbors@[before.len() as int] == b);
                        }
                    }
                }
                assert(neighbors@.no_duplicates()) by {
                    assert forall|x: int, y: int|
                        0 <= x < neighbors@.len() && 0 <= y < neighbors@.len() && x != y implies neighbors@[x]
                        != neighbors@[y] by {
                        if x < before.len() && y < before.len() {
                            assert(before[x] != before[y]);
                        } else if x < before.len() {
                            assert(before.contains(before[x]));
                        } else {
                            assert(before.contains(before[y]));
                        }
                    }
                }
            } else {
                assert forall|b: TerritoryId| #[trigger]
                    neighbors@.contains(b) <==> exists|k: int| 0 <= k < i + 1 && far_ends[k] == b by {
                    if neighbors@.contains(b) {
                        let k = choose|k: int| 0 <= k < i && far_ends[k] == b;
                        assert(0 <= k < i + 1 && far_ends[k] == b);
                    }
                    if exists|k: int| 0 <= k < i + 1 && far_ends[k] == b {
                        let k = choose|k: int| 0 <= k < i + 1 && far_ends[k] == b;
                        if k < i {
                            assert(neighbors@.contains(b));
                        }
                    }
                }
            }
            i += 1;
        }
        proof {
            assert forall|b: TerritoryId| neighbors@.contains(b) <==> self.adjacent(t, b) by {
                if neighbors@.contains(b) {
                    let k = choose|k: int| 0 <= k < far_ends.len() && far_ends[k] == b;
                    assert(far_ends@.contains(b));
                }
                if self.adjacent(t, b) {
                    assert(far_ends@.contains(b));
                    let k = choose|k: int| 0 <= k < far_ends.len() && far_ends[k] == b;
                    assert(0 <= k < i && far_ends[k] == b);
                }
            }
        }
        neighbors
    }
}

/// Whether `list` names territory `t`.
fn names(list: &Vec<TerritoryId>, t: TerritoryId) -> (r: bool)
    ensures
        r == list@.contains(t),
{
    let mut i: usize = 0;
    while i < list.len()
        invariant
            i <= list.len(),
            forall|k: int| 0 <= k < i ==> list[k] != t,
        decreases list.len() - i,
    {
        if list[i] == t {
            return true;
        }
        i += 1;
    }
    false
}

/// The edges that the listing of territory `t` contributes, in its order.
pub open spec fn listed_edges(t: TerritoryId) -> Seq<(TerritoryId, TerritoryId)> {
    StandardTerritory::with_id(t).listed_neighbors().map_values(|n: StandardTerritory| (t, n.id()))
}

/// The listed edges of the first `n` territories, territory by territory.
pub open spec fn standard_edges_upto(n: nat) -> Seq<(TerritoryId, TerritoryId)>
    decreases n,
{
    if n == 0 {
        Seq::empty()
    } else {
        standard_edges_upto((n - 1) as nat) + listed_edges((n - 1) as TerritoryId)
    }
}

/// The edges of the standard map: every listed border, as often as it is
/// listed.
pub open spec fn standard_edges() -> Seq<(TerritoryId, TerritoryId)> {
    standard_edges_upto(42)
}

/// Whether `a` and `b` share a border on the standard map.
pub open spec fn standard_borders(a: TerritoryId, b: TerritoryId) -> bool {
    linked(standard_edges(), a, b)
}

/// Whether the listing of territory `a` names territory `b`.
pub open spec fn lists(a: TerritoryId, b: TerritoryId) -> bool {
    a < 42 && b < 42 && StandardTerritory::with_id(a).listed_neighbors().contains(StandardTerritory::with_id(b))
}

/// Some edge of two runs of edges joins `a` and `b` exactly when some edge
/// of either run does.
pub proof fn lemma_linked_concat(
    x: Seq<(TerritoryId, TerritoryId)>,
    y: Seq<(TerritoryId, TerritoryId)>,
    a: TerritoryId,
    b: TerritoryId,
)
    ensures
        linked(x + y, a, b) <==> linked(x, a, b) || linked(y, a, b),
{
    let all = x + y;
    if linked(all, a, b) {
        let i = choose|i: int| 0 <= i < all.len() && other_end(#[trigger] all[i], a) == Some(b);
        if i < x.len() {
            assert(other_end(x[i], a) == Some(b));
        } else {
            assert(other_end(y[i - x.len()], a) == Some(b));
        }
    }
    if linked(x, a, b) {
        let i = choose|i: int| 0 <= i < x.len() && other_end(#[trigger] x[i], a) == Some(b);
        assert(other_end(all[i], a) == Some(b));
    }
    if linked(y, a, b) {
        let i = choose|i: int| 0 <= i < y.len() && other_end(#[trigger] y[i], a) == Some(b);
        assert(other_end(all[i + x.len()], a) == Some(b));
    }
}

/// The index of a territory lies on the board and leads back to it.
proof fn lemma_territory_ids(x: StandardTerritory)
    ensures
        x.id() < 42,
        StandardTerritory::with_id(x.id()) == x,
{
}

/// The edges that the listing of `t` contributes join `a` and `b` exactly
/// when `t` is one of the two and its listing names the other.
proof fn lemma_listed_edges_linked(t: TerritoryId, a: TerritoryId, b: TerritoryId)
    requires
        t < 42,
    ensures
        linked(listed_edges(t), a, b) <==> (t == a && lists(a, b)) || (t == b && lists(b, a)),
{
    let edges = listed_edges(t);
    let listing = StandardTerritory::with_id(t).listed_neighbors();
    assert(StandardTerritory::with_id(t).id() == t);
    if linked(edges, a, b) {
        let i = choose|i: int| 0 <= i < edges.len() && other_end(#[trigger] edges[i], a) == Some(b);
        lemma_territory_ids(listing[i]);
        assert(edges[i] == (t, listing[i].id()));
        if t == a && listing[i].id() == b {
            assert(listing[i] == StandardTerritory::with_id(b));
            assert(listing.contains(StandardTerritory::with_id(b)));
        } else {
            assert(listing[i] == StandardTerritory::with_id(a));
            assert(listing.contains(StandardTerritory::with_id(a)));
        }
    }
    if t == a && lists(a, b) {
        let i = choose|i: int| 0 <= i < listing.len() && listing[i] == StandardTerritory::with_id(b);
        assert(StandardTerritory::with_id(b).id() == b);
        assert(edges[i] == (a, b));
        assert(other_end(edges[i], a) == Some(b));
    }
    if t == b && lists(b, a) {
        let i = choose|i: int| 0 <= i < listing.len() && listing[i] == StandardTerritory::with_id(a);
        assert(StandardTerritory::with_id(a).id() == a);
        assert(edges[i] == (b, a));
        assert(other_end(edges[i], a) == Some(b));
    }
}

/// The listed edges of the first `n` territories join `a` and `b` exactly
/// when one of the two is among them and its listing names the other.
proof fn lemma_standard_edges_linked(n: nat, a: TerritoryId, b: TerritoryId)
    requires
        n <= 42,
    ensures
        linked(standard_edges_upto(n), a, b) <==> (a < n && lists(a, b)) || (b < n && lists(b, a)),
    decreases n,
{
    if n > 0 {
        let m = (n - 1) as nat;
        lemma_standard_edges_linked(m, a, b);
        lemma_listed_edges_linked(m as TerritoryId, a, b);
        lemma_linked_concat(standard_edges_upto(m), listed_edges(m as TerritoryId), a, b);
    } else {
        assert(standard_edges_upto(0).len() == 0);
    }
}

/// Two territories share a border on the standard map exactly when the
/// listing of one of them names the other.
pub proof fn lemma_standard_borders(a: TerritoryId, b: TerritoryId)
    ensures
        standard_borders(a, b) <==> lists(a, b) || lists(b, a),
        standard_borders(a, b) ==> a < 42 && b < 42 && a != b,
        standard_borders(a, b) == standard_borders(b, a),
{
    lemma_standard_edges_linked(42, a, b);
    lemma_standard_edges_linked(42, b, a);
    lemma_nothing_lists_itself(StandardTerritory::with_id(a));
}

/// No territory is named in its own listing.
proof fn lemma_nothing_lists_itself(x: StandardTerritory)
    ensures
        !x.listed_neighbors().contains(x),
{
    let listing = x.listed_neighbors();
    assert(listing.len() <= 6);
    assert forall|i: int| 0 <= i < listing.len() implies listing[i] != x by {
        assert(i == 0 || i == 1 || i == 2 || i == 3 || i == 4 || i == 5);
    }
}

/// Whether `g` is the graph of the standard map.
pub open spec fn is_standard_map(g: TerritoryGraph) -> bool {
    graph_node_count(g) == 42 && graph_edges(g) == standard_edges()
}

/// Builds the graph of the standard board: one node for each territory and
/// one edge for each listed border.
pub fn standard_map() -> (graph: TerritoryGraph)
    ensures
        is_standard_map(graph),
{
    let mut graph = graph_with_capacity(42, 100);
    let mut indices: Vec<TerritoryId> = Vec::new();
    let mut k: TerritoryId = 0;
    while k < 42
        invariant
            k <= 42,
            graph_node_count(graph) == k,
            graph_edges(graph) == Seq::<(TerritoryId, TerritoryId)>::empty(),
            indices.len() == k,
            forall|j: int| 0 <= j < k ==> indices[j] == j,
        decreases 42 - k,
    {
        let index = graph_add_node(&mut graph);
        indices.push(index);
        k += 1;
    }
    let mut i: TerritoryId = 0;
    while i < 42
        invariant
            i <= 42,
            graph_node_count(graph) == 42,
            graph_edges(graph) == standard_edges_upto(i as nat),
            graph_edges(graph).len() <= 6 * i,
            indices.len() == 42,
            forall|j: int| 0 <= j < 42 ==> indices[j] == j,
        decreases 42 - i,
    {
        let neighbors = StandardTerritory::from_territory_id(i).neighbors();
        let mut j: usize = 0;
        while j < neighbors.len()
            invariant
                i < 42,
                j <= neighbors.len(),
                neighbors.len() <= 6,
                neighbors@ == StandardTerritory::with_id(i).listed_neighbors(),
                graph_node_count(graph) == 42,
                graph_edges(graph) == standard_edges_upto(i as nat) + listed_edges(i).take(j as int),
                standard_edges_upto(i as nat).len() <= 6 * i,
                indices.len() == 42,
                forall|j: int| 0 <= j < 42 ==> indices[j] == j,
            decreases neighbors.len() - j,
        {
            let n = neighbors[j].territory_id();
            graph_add_edge(&mut graph, indices[i as usize], indices[n as usize]);
            proof {
                let done = listed_edges(i).take(j as int);
                assert(listed_edges(i).take(j + 1) =~= done.push((i, n)));
                assert(graph_edges(graph) =~= standard_edges_upto(i as nat) + listed_edges(i).take(j + 1));
            }
            j += 1;
        }
        proof {
            assert(listed_edges(i).take(j as int) =~= listed_edges(i));
        }
        i += 1;
    }
    graph
}

} // verus!
