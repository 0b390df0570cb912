//! What the graph is sure to join: two posts that share a tag, and a post
//! and the post that it links to.

use vstd::prelude::*;
use crate::graph::all_tags;
use crate::graph::connected;
use crate::graph::graph_edges;
use crate::graph::is_node;
use crate::graph::joins;
use crate::graph::with_edge;
use crate::graph::with_group;
use crate::graph::with_links;
use crate::graph::with_pages;
use crate::graph::with_row;
use crate::graph::with_tags;
use crate::graph::EdgeView;
use crate::graph::NodeView;

verus! {

/// After an edge was added, its two ends are connected, unless they are
/// the same.
proof fn lemma_edge_connects(edges: Seq<EdgeView>, edge: EdgeView)
    requires
        edge.source != edge.target,
    ensures
        connected(with_edge(edges, edge), edge.source, edge.target),
{
    let next = with_edge(edges, edge);
    if !connected(edges, edge.source, edge.target) {
        assert(joins(next[edges.len() as int], edge.source, edge.target));
    }
}

/// Adding an edge disconnects nothing.
proof fn lemma_edge_keeps(edges: Seq<EdgeView>, edge: EdgeView, a: Seq<char>, b: Seq<char>)
    requires
        connected(edges, a, b),
    ensures
        connected(with_edge(edges, edge), a, b),
{
    let k = choose|k: int| 0 <= k < edges.len() && joins(#[trigger] edges[k], a, b);
    assert(joins(with_edge(edges, edge)[k], a, b));
}

/// Pairing one node with the rest disconnects nothing.
proof fn lemma_row_keeps(
    edges: Seq<EdgeView>,
    nodes: Seq<NodeView>,
    tag: Seq<char>,
    i: int,
    j: int,
    a: Seq<char>,
    b: Seq<char>,
)
    requires
        connected(edges, a, b),
    ensures
        connected(with_row(edges, nodes, tag, i, j), a, b),
    decreases nodes.len() - j,
{
    if !(j < 0 || j >= nodes.len() || i < 0 || i >= nodes.len()) {
        let edge = EdgeView { source: nodes[i].id, target: nodes[j].id, label: tag };
        if nodes[j].tags.contains(tag) {
            lemma_edge_keeps(edges, edge, a, b);
            lemma_row_keeps(with_edge(edges, edge), nodes, tag, i, j + 1, a, b);
        } else {
            lemma_row_keeps(edges, nodes, tag, i, j + 1, a, b);
        }
    }
}

/// Looking at one tag disconnects nothing.
proof fn lemma_group_keeps(
    edges: Seq<EdgeView>,
    nodes: Seq<NodeView>,
    tag: Seq<char>,
    i: int,
    a: Seq<char>,
    b: Seq<char>,
)
    requires
        connected(edges, a, b),
    ensures
        connected(with_group(edges, nodes, tag, i), a, b),
    decreases nodes.len() - i,
{
    if !(i < 0 || i >= nodes.len()) {
        if nodes[i].tags.contains(tag) {
            lemma_row_keeps(edges, nodes, tag, i, i + 1, a, b);
            lemma_group_keeps(with_row(edges, nodes, tag, i, i + 1), nodes, tag, i + 1, a, b);
        } else {
            lemma_group_keeps(edges, nodes, tag, i + 1, a, b);
        }
    }
}

/// Looking at the tags disconnects nothing.
proof fn lemma_tags_keep(
    edges: Seq<EdgeView>,
    nodes: Seq<NodeView>,
    tags: Seq<Seq<char>>,
    k: int,
    a: Seq<char>,
    b: Seq<char>,
)
    requires
        connected(edges, a, b),
    ensures
        connected(with_tags(edges, nodes, tags, k), a, b),
    decreases tags.len() - k,
{
    if !(k < 0 || k >= tags.len()) {
        if tags.take(k).contains(tags[k]) {
            lemma_tags_keep(edges, nodes, tags, k + 1, a, b);
        } else {
            lemma_group_keeps(edges, nodes, tags[k], 0, a, b);
            lemma_tags_keep(with_group(edges, nodes, tags[k], 0), nodes, tags, k + 1, a, b);
        }
    }
}

/// Looking at the links of one post disconnects nothing.
proof fn lemma_links_keep(
    edges: Seq<EdgeView>,
    nodes: Seq<NodeView>,
    source: Seq<char>,
    targets: Seq<Seq<char>>,
    k: int,
    a: Seq<char>,
    b: Seq<char>,
)
    requires
        connected(edges, a, b),
    ensures
        connected(with_links(edges, nodes, source, targets, k), a, b),
    decreases targets.len() - k,
{
    if !(k < 0 || k >= targets.len()) {
        let edge = EdgeView { source, target: targets[k], label: "link"@ };
        if is_node(nodes, targets[k]) {
            lemma_edge_keeps(edges, edge, a, b);
            lemma_links_keep(with_edge(edges, edge), nodes, source, targets, k + 1, a, b);
        } else {
            lemma_links_keep(edges, nodes, source, targets, k + 1, a, b);
        }
    }
}

/// Looking at the links of the posts disconnects nothing.
proof fn lemma_pages_keep(
    edges: Seq<EdgeView>,
    nodes: Seq<NodeView>,
    links: Seq<Seq<Seq<char>>>,
    i: int,
    a: Seq<char>,
    b: Seq<char>,
)
    requires
        connected(edges, a, b),
    ensures
        connected(with_pages(edges, nodes, links, i), a, b),
    decreases nodes.len() - i,
{
    if !(i < 0 || i >= nodes.len() || i >= links.len()) {
        lemma_links_keep(edges, nodes, nodes[i].id, links[i], 0, a, b);
        lemma_pages_keep(with_links(edges, nodes, nodes[i].id, links[i], 0), nodes, links, i + 1, a, b);
    }
}

/// Pairing node `i` with the nodes from `from` on connects it to node `j`.
proof fn lemma_row_connects(
    edges: Seq<EdgeView>,
    nodes: Seq<NodeView>,
    tag: Seq<char>,
    i: int,
    from: int,
    j: int,
)
    requires
        0 <= i < nodes.len(),
        0 <= from <= j < nodes.len(),
        nodes[j].tags.contains(tag),
        nodes[i].id != nodes[j].id,
    ensures
        connected(with_row(edges, nodes, tag, i, from), nodes[i].id, nodes[j].id),
    decreases j - from,
{
    let edge = EdgeView { source: nodes[i].id, target: nodes[from].id, label: tag };
    let next = if nodes[from].tags.contains(tag) {
        with_edge(edges, edge)
    } else {
        edges
    };
    if from == j {
        lemma_edge_connects(edges, edge);
        lemma_row_keeps(next, nodes, tag, i, from + 1, nodes[i].id, nodes[j].id);
    } else {
        lemma_row_connects(next, nodes, tag, i, from + 1, j);
    }
}

/// Looking at a tag from node `from` on connects nodes `i` and `j`.
proof fn lemma_group_connects(
    edges: Seq<EdgeView>,
    nodes: Seq<NodeView>,
    tag: Seq<char>,
    from: int,
    i: int,
    j: int,
)
    requires
        0 <= from <= i < j < nodes.len(),
        nodes[i].tags.contains(tag),
        nodes[j].tags.contains(tag),
        nodes[i].id != nodes[j].id,
    ensures
        connected(with_group(edges, nodes, tag, from), nodes[i].id, nodes[j].id),
    decreases i - from,
{
    let next = if nodes[from].tags.contains(tag) {
        with_row(edges, nodes, tag, from, from + 1)
    } else {
        edges
    };
    if from == i {
        lemma_row_connects(edges, nodes, tag, i, i + 1, j);
        lemma_group_keeps(next, nodes, tag, from + 1, nodes[i].id, nodes[j].id);
    } else {
        lemma_group_connects(next, nodes, tag, from + 1, i, j);
    }
}

/// Looking at the tags from the `from`-th on connects nodes `i` and `j`,
/// which share the tag that occurs first at `k`.
proof fn lemma_tags_connect(
    edges: Seq<EdgeView>,
    nodes: Seq<NodeView>,
    tags: Seq<Seq<char>>,
    from: int,
    k: int,
    i: int,
    j: int,
)
    requires
        0 <= from <= k < tags.len(),
        !tags.take(k).contains(tags[k]),
        0 <= i < j < nodes.len(),
        nodes[i].tags.contains(tags[k]),
        nodes[j].tags.contains(tags[k]),
        nodes[i].id != nodes[j].id,
    ensures
        connected(with_tags(edges, nodes, tags, from), nodes[i].id, nodes[j].id),
    decreases k - from,
{
    let next = if tags.take(from).contains(tags[from]) {
        edges
    } else {
        with_group(edges, nodes, tags[from], 0)
    };
    if from == k {
        lemma_group_connects(edges, nodes, tags[k], 0, i, j);
        lemma_tags_keep(next, nodes, tags, from + 1, nodes[i].id, nodes[j].id);
    } else {
        lemma_tags_connect(next, nodes, tags, from + 1, k, i, j);
    }
}

/// Where a text occurs in a list, it occurs somewhere first.
proof fn lemma_first_occurrence(tags: Seq<Seq<char>>, tag: Seq<char>) -> (k: int)
    requires
        tags.contains(tag),
    ensures
        0 <= k < tags.len(),
        tags[k] == tag,
        !tags.take(k).contains(tag),
    decreases tags.len(),
{
    let before = tags.drop_last();
    if before.contains(tag) {
        let k = lemma_first_occurrence(before, tag);
        assert(before.take(k) =~= tags.take(k));
        assert(before[k] == tags[k]);
        k
    } else {
        let m = choose|m: int| 0 <= m < tags.len() && tags[m] == tag;
        if m < before.len() {
            assert(before[m] == tag);
        }
        assert(tags.take(tags.len() - 1) =~= before);
        tags.len() - 1
    }
}

/// The tags of every node are among the tags of all.
proof fn lemma_tag_listed(nodes: Seq<NodeView>, i: int, tag: Seq<char>)
    requires
        0 <= i < nodes.len(),
        nodes[i].tags.contains(tag),
    ensures
        all_tags(nodes).contains(tag),
    decreases nodes.len(),
{
    let before = nodes.drop_last();
    if i == nodes.len() - 1 {
        let m = choose|m: int| 0 <= m < nodes[i].tags.len() && nodes[i].tags[m] == tag;
        assert(all_tags(nodes)[all_tags(before).len() + m] == tag);
    } else {
        assert(before[i] == nodes[i]);
        lemma_tag_listed(before, i, tag);
        let m = choose|m: int| 0 <= m < all_tags(before).len() && all_tags(before)[m] == tag;
        assert(all_tags(nodes)[m] == tag);
    }
}

/// Two posts that share a tag are joined: whatever else the graph holds,
/// some edge lies between two nodes with different addresses that have a
/// tag in common.
pub proof fn lemma_shared_tag_joined(
    nodes: Seq<NodeView>,
    links: Seq<Seq<Seq<char>>>,
    i: int,
    j: int,
    tag: Seq<char>,
)
    requires
        0 <= i < j < nodes.len(),
        nodes[i].tags.contains(tag),
        nodes[j].tags.contains(tag),
        nodes[i].id != nodes[j].id,
    ensures
        connected(graph_edges(nodes, links), nodes[i].id, nodes[j].id),
{
    let tags = all_tags(nodes);
    lemma_tag_listed(nodes, i, tag);
    let k = lemma_first_occurrence(tags, tag);
    lemma_tags_connect(Seq::empty(), nodes, tags, 0, k, i, j);
    lemma_pages_keep(
        with_tags(Seq::empty(), nodes, tags, 0),
        nodes,
        links,
        0,
        nodes[i].id,
        nodes[j].id,
    );
}

/// Looking at the links of a post from the `from`-th on connects it to the
/// node that its `m`-th link names.
proof fn lemma_links_connect(
    edges: Seq<EdgeView>,
    nodes: Seq<NodeView>,
    source: Seq<char>,
    targets: Seq<Seq<char>>,
    from: int,
    m: int,
)
    requires
        0 <= from <= m < targets.len(),
        is_node(nodes, targets[m]),
        targets[m] != source,
    ensures
        connected(with_links(edges, nodes, source, targets, from), source, targets[m]),
    decreases m - from,
{
    let edge = EdgeView { source, target: targets[from], label: "link"@ };
    let next = if is_node(nodes, targets[from]) {
        with_edge(edges, edge)
    } else {
        edges
    };
    if from == m {
        lemma_edge_connects(edges, edge);
        lemma_links_keep(next, nodes, source, targets, from + 1, source, targets[m]);
    } else {
        lemma_links_connect(next, nodes, source, targets, from + 1, m);
    }
}

/// Looking at the links of the posts from the `from`-th on connects post
/// `i` to the node that its `m`-th link names.
proof fn lemma_pages_connect(
    edges: Seq<EdgeView>,
    nodes: Seq<NodeView>,
    links: Seq<Seq<Seq<char>>>,
    from: int,
    i: int,
    m: int,
)
    requires
        0 <= from <= i < nodes.len(),
        i < links.len(),
        0 <= m < links[i].len(),
        is_node(nodes, links[i][m]),
        links[i][m] != nodes[i].id,
    ensures
        connected(with_pages(edges, nodes, links, from), nodes[i].id, links[i][m]),
    decreases i - from,
{
    let next = with_links(edges, nodes, nodes[from].id, links[from], 0);
    if from == i {
        lemma_links_connect(edges, nodes, nodes[i].id, links[i], 0, m);
        lemma_pages_keep(next, nodes, links, from + 1, nodes[i].id, links[i][m]);
    } else {
        lemma_pages_connect(next, nodes, links, from + 1, i, m);
    }
}

/// A post is joined to every post that it links to: some edge lies between
/// a node and the node that one of its links names, unless the link names
/// the node itself.
pub proof fn lemma_link_joined(nodes: Seq<NodeView>, links: Seq<Seq<Seq<char>>>, i: int, m: int)
    requires
        0 <= i < nodes.len(),
        i < links.len(),
        0 <= m < links[i].len(),
        is_node(nodes, links[i][m]),
        links[i][m] != nodes[i].id,
    ensures
        connected(graph_edges(nodes, links), nodes[i].id, links[i][m]),
{
    lemma_pages_connect(with_tags(Seq::empty(), nodes, all_tags(nodes), 0), nodes, links, 0, i, m);
}

} // verus!
