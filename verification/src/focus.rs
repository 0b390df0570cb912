//! The part of the graph around one post: the post, the posts that an edge
//! joins to it, and the edges among them.

use vstd::prelude::*;
use crate::graph::connected;
use crate::graph::copy_texts;
use crate::graph::edge_views;
use crate::graph::has_node;
use crate::graph::is_connected;
use crate::graph::is_node;
use crate::graph::node_views;
use crate::graph::EdgeView;
use crate::graph::GraphData;
use crate::graph::GraphEdge;
use crate::graph::GraphNode;
use crate::graph::GraphView;
use crate::graph::NodeView;
use crate::text::same_text;

verus! {

/// The address is the target's, or an edge joins it to the target.
pub open spec fn keeps(edges: Seq<EdgeView>, target: Seq<char>, id: Seq<char>) -> bool {
    id == target || connected(edges, target, id)
}

/// The nodes that stay: the target and its neighbours, in their order.
pub open spec fn kept_nodes(nodes: Seq<NodeView>, edges: Seq<EdgeView>, target: Seq<char>) -> Seq<
    NodeView,
> {
    nodes.filter(|n: NodeView| keeps(edges, target, n.id))
}

/// The edges that stay: those with both ends among the given nodes, in
/// their order.
pub open spec fn kept_edges(edges: Seq<EdgeView>, nodes: Seq<NodeView>) -> Seq<EdgeView> {
    edges.filter(|e: EdgeView| is_node(nodes, e.source) && is_node(nodes, e.target))
}

/// The graph around the target.
pub open spec fn neighborhood(graph: GraphView, target: Seq<char>) -> GraphView {
    let nodes = kept_nodes(graph.nodes, graph.edges, target);
    GraphView { nodes, edges: kept_edges(graph.edges, nodes) }
}

/// What is shown: without a target the whole graph; with one the graph
/// around it, and nothing where fewer than two nodes stay.
pub open spec fn shown_graph(graph: GraphView, target: Seq<char>) -> Option<GraphView> {
    if target.len() == 0 {
        Some(graph)
    } else if neighborhood(graph, target).nodes.len() < 2 {
        None
    } else {
        Some(neighborhood(graph, target))
    }
}

/// No two nodes have the same address.
pub open spec fn distinct_ids(nodes: Seq<NodeView>) -> bool {
    forall|i: int, j: int|
        0 <= i < j < nodes.len() ==> (#[trigger] nodes[i]).id != (#[trigger] nodes[j]).id
}

/// Where no edge joins the target to another node, the target stays alone
/// at most.
proof fn lemma_alone(nodes: Seq<NodeView>, edges: Seq<EdgeView>, target: Seq<char>)
    requires
        distinct_ids(nodes),
        forall|i: int|
            0 <= i < nodes.len() && (#[trigger] nodes[i]).id != target ==> !connected(
                edges,
                target,
                nodes[i].id,
            ),
    ensures
        kept_nodes(nodes, edges, target).len() <= 1,
        !is_node(nodes, target) ==> kept_nodes(nodes, edges, target).len() == 0,
    decreases nodes.len(),
{
    reveal(Seq::filter);
    if nodes.len() > 0 {
        let before = nodes.drop_last();
        assert forall|i: int| 0 <= i < before.len() && (#[trigger] before[i]).id != target implies !connected(
            edges,
            target,
            before[i].id,
        ) by {
            assert(before[i] == nodes[i]);
        }
        assert(distinct_ids(before)) by {
            assert forall|i: int, j: int| 0 <= i < j < before.len() implies (#[trigger] before[i]).id != (
            #[trigger] before[j]).id by {
                assert(before[i] == nodes[i]);
                assert(before[j] == nodes[j]);
            }
        }
        lemma_alone(before, edges, target);
        if is_node(before, target) {
            let i = choose|i: int| 0 <= i < before.len() && (#[trigger] before[i]).id == target;
            assert(nodes[i].id == target);
            assert(nodes.last().id != target);
        }
        if nodes.last().id == target {
            assert(!is_node(before, target));
        } else {
            assert(!connected(edges, target, nodes[nodes.len() - 1].id));
            if is_node(nodes, target) {
                let i = choose|i: int| 0 <= i < nodes.len() && (#[trigger] nodes[i]).id == target;
                assert(before[i].id == target);
            }
        }
    }
}

/// Two nodes that meet the test both pass the filter.
proof fn lemma_filter_two<A>(s: Seq<A>, pred: spec_fn(A) -> bool, i: int, j: int)
    requires
        0 <= i < j < s.len(),
        pred(s[i]),
        pred(s[j]),
    ensures
        s.filter(pred).len() >= 2,
    decreases s.len(),
{
    reveal(Seq::filter);
    let before = s.drop_last();
    if j == s.len() - 1 {
        assert(before[i] == s[i]);
        before.lemma_filter_contains(pred, i);
    } else {
        assert(before[i] == s[i]);
        assert(before[j] == s[j]);
        lemma_filter_two(before, pred, i, j);
    }
}

/// A post without neighbours has no graph to show: where the nodes have
/// distinct addresses and no edge joins the target to another node, nothing
/// is shown.
pub proof fn lemma_lonely_post_hidden(graph: GraphView, target: Seq<char>)
    requires
        target.len() > 0,
        distinct_ids(graph.nodes),
        forall|i: int|
            0 <= i < graph.nodes.len() && (#[trigger] graph.nodes[i]).id != target ==> !connected(
                graph.edges,
                target,
                graph.nodes[i].id,
            ),
    ensures
        shown_graph(graph, target) is None,
{
    lemma_alone(graph.nodes, graph.edges, target);
}

/// A post with two neighbours or more has a graph to show, and it holds
/// exactly the post, its neighbours and the edges among them: a node of
/// the graph stays if and only if it is the target or an edge joins it to
/// the target, and an edge stays if and only if both its ends stay.
pub proof fn lemma_neighbours_shown(graph: GraphView, target: Seq<char>, i: int, j: int)
    requires
        target.len() > 0,
        0 <= i < j < graph.nodes.len(),
        connected(graph.edges, target, graph.nodes[i].id),
        connected(graph.edges, target, graph.nodes[j].id),
    ensures
        shown_graph(graph, target) == Some(neighborhood(graph, target)),
        forall|n: NodeView|
            #[trigger] neighborhood(graph, target).nodes.contains(n) <==> graph.nodes.contains(n) && keeps(
                graph.edges,
                target,
                n.id,
            ),
        forall|e: EdgeView|
            #[trigger] neighborhood(graph, target).edges.contains(e) <==> graph.edges.contains(e) && is_node(
                neighborhood(graph, target).nodes,
                e.source,
            ) && is_node(neighborhood(graph, target).nodes, e.target),
{
    let node_test = |n: NodeView| keeps(graph.edges, target, n.id);
    lemma_filter_two(graph.nodes, node_test, i, j);
    lemma_filter_members(graph.nodes, node_test);
    let kept = kept_nodes(graph.nodes, graph.edges, target);
    let edge_test = |e: EdgeView| is_node(kept, e.source) && is_node(kept, e.target);
    lemma_filter_members(graph.edges, edge_test);
}

/// What passes a filter is what was there and meets the test.
proof fn lemma_filter_members<A>(s: Seq<A>, pred: spec_fn(A) -> bool)
    ensures
        forall|x: A| #[trigger] s.filter(pred).contains(x) <==> s.contains(x) && pred(x),
    decreases s.len(),
{
    reveal(Seq::filter);
    if s.len() > 0 {
        let before = s.drop_last();
        lemma_filter_members(before, pred);
        assert forall|x: A| #[trigger] s.filter(pred).contains(x) <==> s.contains(x) && pred(x) by {
            if s.filter(pred).contains(x) {
                let k = choose|k: int| 0 <= k < s.filter(pred).len() && s.filter(pred)[k] == x;
                if k < before.filter(pred).len() {
                    assert(before.filter(pred)[k] == x);
                    assert(before.filter(pred).contains(x));
                    let m = choose|m: int| 0 <= m < before.len() && before[m] == x;
                    assert(s[m] == x);
                } else {
                    assert(x == s.last());
                    assert(s[s.len() - 1] == x);
                }
            }
            if s.contains(x) && pred(x) {
                let m = choose|m: int| 0 <= m < s.len() && s[m] == x;
                if m < before.len() {
                    assert(before[m] == x);
                    assert(before.contains(x));
                    assert(before.filter(pred).contains(x));
                    let k = choose|k: int|
                        0 <= k < before.filter(pred).len() && before.filter(pred)[k] == x;
                    assert(s.filter(pred)[k] == x);
                } else {
                    assert(s.filter(pred)[s.filter(pred).len() - 1] == x);
                }
            }
        }
    }
}

/// A copy of the node.
pub fn copy_node(node: &GraphNode) -> (copy: GraphNode)
    ensures
        copy@ == node@,
{
    GraphNode {
        id: node.id.clone(),
        title: node.title.clone(),
        href: node.href.clone(),
        tags: copy_texts(&node.tags),
    }
}

/// A copy of the edge.
pub fn copy_edge(edge: &GraphEdge) -> (copy: GraphEdge)
    ensures
        copy@ == edge@,
{
    GraphEdge { source: edge.source.clone(), target: edge.target.clone(), label: edge.label.clone() }
}

/// A copy of the graph.
pub fn copy_graph(graph: &GraphData) -> (copy: GraphData)
    ensures
        copy@ == graph@,
{
    let mut nodes: Vec<GraphNode> = Vec::new();
    let mut i: usize = 0;
    while i < graph.nodes.len()
        invariant
            i <= graph.nodes.len(),
            nodes.len() == i,
            forall|j: int| 0 <= j < i ==> (#[trigger] nodes@[j])@ == graph.nodes@[j]@,
        decreases graph.nodes.len() - i,
    {
        nodes.push(copy_node(&graph.nodes[i]));
        i += 1;
    }
    let mut edges: Vec<GraphEdge> = Vec::new();
    let mut k: usize = 0;
    while k < graph.edges.len()
        invariant
            k <= graph.edges.len(),
            edges.len() == k,
            forall|j: int| 0 <= j < k ==> (#[trigger] edges@[j])@ == graph.edges@[j]@,
        decreases graph.edges.len() - k,
    {
        edges.push(copy_edge(&graph.edges[k]));
        k += 1;
    }
    assert(node_views(nodes@) =~= node_views(graph.nodes@));
    assert(edge_views(edges@) =~= edge_views(graph.edges@));
    GraphData { nodes, edges }
}

/// The graph around one post: the post itself, every post that an edge
/// joins to it, and every edge of which both ends are among these.
pub fn filter_graph(graph: &GraphData, target: &str) -> (around: GraphData)
    ensures
        around@ == neighborhood(graph@, target@),
{
    let ghost all_nodes = node_views(graph.nodes@);
    let ghost all_edges = edge_views(graph.edges@);
    let mut nodes: Vec<GraphNode> = Vec::new();
    let mut i: usize = 0;
    proof {
        reveal(Seq::filter);
        assert(node_views(nodes@) =~= kept_nodes(all_nodes.take(0), all_edges, target@));
    }
    while i < graph.nodes.len()
        invariant
            i <= graph.nodes.len(),
            all_nodes == node_views(graph.nodes@),
            all_edges == edge_views(graph.edges@),
            node_views(nodes@) == kept_nodes(all_nodes.take(i as int), all_edges, target@),
        decreases graph.nodes.len() - i,
    {
        proof {
            reveal(Seq::filter);
            assert(all_nodes.take(i + 1).drop_last() =~= all_nodes.take(i as int));
            assert(all_nodes.take(i + 1).last() == graph.nodes@[i as int]@);
        }
        let node = &graph.nodes[i];
        if same_text(node.id.as_str(), target) || is_connected(&graph.edges, target, node.id.as_str()) {
            let ghost before = node_views(nodes@);
            let copy = copy_node(node);
            nodes.push(copy);
            assert(node_views(nodes@) =~= before.push(node@));
        }
        i += 1;
    }
    assert(all_nodes.take(graph.nodes.len() as int) =~= all_nodes);
    let ghost stay = node_views(nodes@);
    let mut edges: Vec<GraphEdge> = Vec::new();
    let mut k: usize = 0;
    proof {
        reveal(Seq::filter);
        assert(edge_views(edges@) =~= kept_edges(all_edges.take(0), stay));
    }
    while k < graph.edges.len()
        invariant
            k <= graph.edges.len(),
            all_edges == edge_views(graph.edges@),
            stay == node_views(nodes@),
            edge_views(edges@) == kept_edges(all_edges.take(k as int), stay),
        decreases graph.edges.len() - k,
    {
        proof {
            reveal(Seq::filter);
            assert(all_edges.take(k + 1).drop_last() =~= all_edges.take(k as int));
            assert(all_edges.take(k + 1).last() == graph.edges@[k as int]@);
        }
        let edge = &graph.edges[k];
        if has_node(&nodes, edge.source.as_str()) && has_node(&nodes, edge.target.as_str()) {
            let ghost before = edge_views(edges@);
            let copy = copy_edge(edge);
            edges.push(copy);
            assert(edge_views(edges@) =~= before.push(edge@));
        }
        k += 1;
    }
    assert(all_edges.take(graph.edges.len() as int) =~= all_edges);
    GraphData { nodes, edges }
}

/// The graph to show beside a post, or the whole graph where `target` is
/// empty.
///
/// With a target, the graph around it is shown, and nothing where fewer
/// than two nodes stay: a single node is no graph.
pub fn graph_view(graph: &GraphData, target: &str) -> (shown: Option<GraphData>)
    ensures
        match shown {
            Some(part) => shown_graph(graph@, target@) == Some(part@),
            None => shown_graph(graph@, target@) is None,
        },
{
    if target.unicode_len() == 0 {
        return Some(copy_graph(graph));
    }
    let around = filter_graph(graph, target);
    if around.nodes.len() < 2 {
        None
    } else {
        Some(around)
    }
}

} // verus!
