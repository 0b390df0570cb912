//! The graph that relates posts: one node for each post, an edge between
//! two posts that share a tag or of which one links to the other.
//!
//! Edges have no direction. A pair of posts has at most one edge: the one
//! that was found first. Tags are looked at before links, the tags in the
//! order in which they first occur, the links in the order of the posts.

use vstd::prelude::*;
use crate::links::extract_links;
use crate::links::links_from;
use crate::metadata::text_views;
use crate::posts::href_of;
use crate::posts::post_views;
use crate::posts::Post;
use crate::posts::PostType;
use crate::posts::PostView;
use crate::text::same_text;

verus! {

/// One post in the graph.
#[derive(Clone, Debug, PartialEq, Eq)]
pub struct GraphNode {
    /// The address of the post.
    pub id: String,
    pub title: String,
    /// The same address again, for the link that the node shows.
    pub href: String,
    pub tags: Vec<String>,
}

/// The mathematical value of a [`GraphNode`].
pub ghost struct NodeView {
    pub id: Seq<char>,
    pub title: Seq<char>,
    pub href: Seq<char>,
    pub tags: Seq<Seq<char>>,
}

impl View for GraphNode {
    type V = NodeView;

    open spec fn view(&self) -> NodeView {
        NodeView { id: self.id@, title: self.title@, href: self.href@, tags: text_views(self.tags@) }
    }
}

/// A relation between two posts. The label is the tag that the two share,
/// or `link`.
#[derive(Clone, Debug, PartialEq, Eq)]
pub struct GraphEdge {
    pub source: String,
    pub target: String,
    pub label: String,
}

/// The mathematical value of a [`GraphEdge`].
pub ghost struct EdgeView {
    pub source: Seq<char>,
    pub target: Seq<char>,
    pub label: Seq<char>,
}

impl View for GraphEdge {
    type V = EdgeView;

    open spec fn view(&self) -> EdgeView {
        EdgeView { source: self.source@, target: self.target@, label: self.label@ }
    }
}

/// Nodes and edges.
#[derive(Clone, Debug, PartialEq, Eq)]
pub struct GraphData {
    pub nodes: Vec<GraphNode>,
    pub edges: Vec<GraphEdge>,
}

/// The mathematical value of [`GraphData`].
pub ghost struct GraphView {
    pub nodes: Seq<NodeView>,
    pub edges: Seq<EdgeView>,
}

/// The values of a sequence of nodes.
pub open spec fn node_views(nodes: Seq<GraphNode>) -> Seq<NodeView> {
    nodes.map_values(|n: GraphNode| n@)
}

/// The values of a sequence of edges.
pub open spec fn edge_views(edges: Seq<GraphEdge>) -> Seq<EdgeView> {
    edges.map_values(|e: GraphEdge| e@)
}

/// The values of a sequence of lists of addresses.
pub open spec fn link_views(links: Seq<Vec<String>>) -> Seq<Seq<Seq<char>>> {
    links.map_values(|l: Vec<String>| text_views(l@))
}

impl View for GraphData {
    type V = GraphView;

    open spec fn view(&self) -> GraphView {
        GraphView { nodes: node_views(self.nodes@), edges: edge_views(self.edges@) }
    }
}

/// The posts of one category.
#[derive(Clone, Debug)]
pub struct PostCollection {
    pub kind: PostType,
    pub posts: Vec<Post>,
}

/// The mathematical value of a [`PostCollection`].
pub ghost struct CollectionView {
    pub kind: PostType,
    pub posts: Seq<PostView>,
}

impl View for PostCollection {
    type V = CollectionView;

    open spec fn view(&self) -> CollectionView {
        CollectionView { kind: self.kind, posts: post_views(self.posts@) }
    }
}

/// The values of a sequence of collections.
pub open spec fn collection_views(collections: Seq<PostCollection>) -> Seq<CollectionView> {
    collections.map_values(|c: PostCollection| c@)
}

/// The node of a post of the given category.
pub open spec fn node_of(kind: PostType, post: PostView) -> NodeView {
    NodeView {
        id: href_of(kind, post.metadata.title),
        title: post.metadata.title,
        href: href_of(kind, post.metadata.title),
        tags: post.metadata.tags,
    }
}

/// The nodes of the first `k` posts of a collection.
pub open spec fn collection_nodes(collection: CollectionView, k: int) -> Seq<NodeView>
    decreases k,
{
    if k <= 0 || k > collection.posts.len() {
        Seq::empty()
    } else {
        collection_nodes(collection, k - 1).push(node_of(collection.kind, collection.posts[k - 1]))
    }
}

/// The links of the first `k` posts of a collection.
pub open spec fn collection_links(collection: CollectionView, k: int) -> Seq<Seq<Seq<char>>>
    decreases k,
{
    if k <= 0 || k > collection.posts.len() {
        Seq::empty()
    } else {
        collection_links(collection, k - 1).push(links_from(collection.posts[k - 1].html, 0))
    }
}

/// The nodes of the collections: one for each post, collection after
/// collection, the posts of each in their order.
pub open spec fn graph_nodes(collections: Seq<CollectionView>) -> Seq<NodeView>
    decreases collections.len(),
{
    if collections.len() == 0 {
        Seq::empty()
    } else {
        graph_nodes(collections.drop_last()) + collection_nodes(
            collections.last(),
            collections.last().posts.len() as int,
        )
    }
}

/// For each node of the collections, the addresses that its post links to.
pub open spec fn graph_links(collections: Seq<CollectionView>) -> Seq<Seq<Seq<char>>>
    decreases collections.len(),
{
    if collections.len() == 0 {
        Seq::empty()
    } else {
        graph_links(collections.drop_last()) + collection_links(
            collections.last(),
            collections.last().posts.len() as int,
        )
    }
}

/// The edge lies between `a` and `b`, in either direction.
pub open spec fn joins(edge: EdgeView, a: Seq<char>, b: Seq<char>) -> bool {
    (edge.source == a && edge.target == b) || (edge.source == b && edge.target == a)
}

/// Some edge lies between `a` and `b`.
pub open spec fn connected(edges: Seq<EdgeView>, a: Seq<char>, b: Seq<char>) -> bool {
    exists|k: int| 0 <= k < edges.len() && joins(#[trigger] edges[k], a, b)
}

/// The edges with one more, unless it would join a post to itself or its
/// two ends are connected already.
pub open spec fn with_edge(edges: Seq<EdgeView>, edge: EdgeView) -> Seq<EdgeView> {
    if edge.source == edge.target || connected(edges, edge.source, edge.target) {
        edges
    } else {
        edges.push(edge)
    }
}

/// The edges after node `i`, which has the tag, was paired with each node
/// from `j` on that has it too.
pub open spec fn with_row(edges: Seq<EdgeView>, nodes: Seq<NodeView>, tag: Seq<char>, i: int, j: int) -> Seq<
    EdgeView,
>
    decreases nodes.len() - j,
{
    if j < 0 || j >= nodes.len() || i < 0 || i >= nodes.len() {
        edges
    } else {
        let next = if nodes[j].tags.contains(tag) {
            with_edge(edges, EdgeView { source: nodes[i].id, target: nodes[j].id, label: tag })
        } else {
            edges
        };
        with_row(next, nodes, tag, i, j + 1)
    }
}

/// The edges after every pair of nodes that have the tag, the first of the
/// pair at `i` or later, was looked at: pairs in the order of the nodes.
pub open spec fn with_group(edges: Seq<EdgeView>, nodes: Seq<NodeView>, tag: Seq<char>, i: int) -> Seq<
    EdgeView,
>
    decreases nodes.len() - i,
{
    if i < 0 || i >= nodes.len() {
        edges
    } else {
        let next = if nodes[i].tags.contains(tag) {
            with_row(edges, nodes, tag, i, i + 1)
        } else {
            edges
        };
        with_group(next, nodes, tag, i + 1)
    }
}

/// The edges after the tags from the `k`-th on were looked at, each tag
/// where it occurs first.
pub open spec fn with_tags(edges: Seq<EdgeView>, nodes: Seq<NodeView>, tags: Seq<Seq<char>>, k: int) -> Seq<
    EdgeView,
>
    decreases tags.len() - k,
{
    if k < 0 || k >= tags.len() {
        edges
    } else {
        let next = if tags.take(k).contains(tags[k]) {
            edges
        } else {
            with_group(edges, nodes, tags[k], 0)
        };
        with_tags(next, nodes, tags, k + 1)
    }
}

/// The tags of the nodes, node after node, each as often as it is written.
pub open spec fn all_tags(nodes: Seq<NodeView>) -> Seq<Seq<char>>
    decreases nodes.len(),
{
    if nodes.len() == 0 {
        Seq::empty()
    } else {
        all_tags(nodes.drop_last()) + nodes.last().tags
    }
}

/// Some node has the address.
pub open spec fn is_node(nodes: Seq<NodeView>, id: Seq<char>) -> bool {
    exists|i: int| 0 <= i < nodes.len() && (#[trigger] nodes[i]).id == id
}

/// The edges after the links of one post from the `k`-th on were looked
/// at: a link to the address of a node gives an edge with the label
/// `link`.
pub open spec fn with_links(
    edges: Seq<EdgeView>,
    nodes: Seq<NodeView>,
    source: Seq<char>,
    targets: Seq<Seq<char>>,
    k: int,
) -> Seq<EdgeView>
    decreases targets.len() - k,
{
    if k < 0 || k >= targets.len() {
        edges
    } else {
        let next = if is_node(nodes, targets[k]) {
            with_edge(edges, EdgeView { source, target: targets[k], label: "link"@ })
        } else {
            edges
        };
        with_links(next, nodes, source, targets, k + 1)
    }
}

/// The edges after the links of the posts from the `i`-th on were looked
/// at.
pub open spec fn with_pages(
    edges: Seq<EdgeView>,
    nodes: Seq<NodeView>,
    links: Seq<Seq<Seq<char>>>,
    i: int,
) -> Seq<EdgeView>
    decreases nodes.len() - i,
{
    if i < 0 || i >= nodes.len() || i >= links.len() {
        edges
    } else {
        with_pages(with_links(edges, nodes, nodes[i].id, links[i], 0), nodes, links, i + 1)
    }
}

/// The edges of the graph: those that shared tags give, then those that
/// links give.
pub open spec fn graph_edges(nodes: Seq<NodeView>, links: Seq<Seq<Seq<char>>>) -> Seq<EdgeView> {
    with_pages(with_tags(Seq::empty(), nodes, all_tags(nodes), 0), nodes, links, 0)
}

/// The graph of the collections.
pub open spec fn graph_of(collections: Seq<CollectionView>) -> GraphView {
    GraphView {
        nodes: graph_nodes(collections),
        edges: graph_edges(graph_nodes(collections), graph_links(collections)),
    }
}

/// No edge joins a post to itself, and no two edges join the same pair.
pub open spec fn simple(edges: Seq<EdgeView>) -> bool {
    &&& forall|a: int| 0 <= a < edges.len() ==> (#[trigger] edges[a]).source != edges[a].target
    &&& forall|a: int, b: int|
        0 <= a < b < edges.len() ==> !joins(#[trigger] edges[b], (#[trigger] edges[a]).source, edges[a].target)
}

/// Both ends of every edge are addresses of nodes.
pub open spec fn anchored(edges: Seq<EdgeView>, nodes: Seq<NodeView>) -> bool {
    forall|a: int|
        0 <= a < edges.len() ==> is_node(nodes, (#[trigger] edges[a]).source) && is_node(
            nodes,
            edges[a].target,
        )
}

/// Adding an edge keeps the edges simple and anchored.
pub proof fn lemma_with_edge(edges: Seq<EdgeView>, edge: EdgeView, nodes: Seq<NodeView>)
    requires
        simple(edges),
        anchored(edges, nodes),
        is_node(nodes, edge.source),
        is_node(nodes, edge.target),
    ensures
        simple(with_edge(edges, edge)),
        anchored(with_edge(edges, edge), nodes),
{
    let next = with_edge(edges, edge);
    if next != edges {
        assert forall|a: int, b: int| 0 <= a < b < next.len() implies !joins(
            #[trigger] next[b],
            (#[trigger] next[a]).source,
            next[a].target,
        ) by {
            if b == edges.len() {
                if joins(edge, edges[a].source, edges[a].target) {
                    assert(joins(edges[a], edge.source, edge.target));
                }
            }
        }
    }
}

/// Pairing one node with the rest keeps the edges simple and anchored.
pub proof fn lemma_with_row(edges: Seq<EdgeView>, nodes: Seq<NodeView>, tag: Seq<char>, i: int, j: int)
    requires
        simple(edges),
        anchored(edges, nodes),
    ensures
        simple(with_row(edges, nodes, tag, i, j)),
        anchored(with_row(edges, nodes, tag, i, j), nodes),
    decreases nodes.len() - j,
{
    if !(j < 0 || j >= nodes.len() || i < 0 || i >= nodes.len()) {
        let edge = EdgeView { source: nodes[i].id, target: nodes[j].id, label: tag };
        if nodes[j].tags.contains(tag) {
            lemma_with_edge(edges, edge, nodes);
            lemma_with_row(with_edge(edges, edge), nodes, tag, i, j + 1);
        } else {
            lemma_with_row(edges, nodes, tag, i, j + 1);
        }
    }
}

/// Looking at one tag keeps the edges simple and anchored.
pub proof fn lemma_with_group(edges: Seq<EdgeView>, nodes: Seq<NodeView>, tag: Seq<char>, i: int)
    requires
        simple(edges),
        anchored(edges, nodes),
    ensures
        simple(with_group(edges, nodes, tag, i)),
        anchored(with_group(edges, nodes, tag, i), nodes),
    decreases nodes.len() - i,
{
    if !(i < 0 || i >= nodes.len()) {
        if nodes[i].tags.contains(tag) {
            lemma_with_row(edges, nodes, tag, i, i + 1);
            lemma_with_group(with_row(edges, nodes, tag, i, i + 1), nodes, tag, i + 1);
        } else {
            lemma_with_group(edges, nodes, tag, i + 1);
        }
    }
}

/// Looking at the tags keeps the edges simple and anchored.
pub proof fn lemma_with_tags(edges: Seq<EdgeView>, nodes: Seq<NodeView>, tags: Seq<Seq<char>>, k: int)
    requires
        simple(edges),
        anchored(edges, nodes),
    ensures
        simple(with_tags(edges, nodes, tags, k)),
        anchored(with_tags(edges, nodes, tags, k), nodes),
    decreases tags.len() - k,
{
    if !(k < 0 || k >= tags.len()) {
        if tags.take(k).contains(tags[k]) {
            lemma_with_tags(edges, nodes, tags, k + 1);
        } else {
            lemma_with_group(edges, nodes, tags[k], 0);
            lemma_with_tags(with_group(edges, nodes, tags[k], 0), nodes, tags, k + 1);
        }
    }
}

/// Looking at the links of one post keeps the edges simple and anchored.
pub proof fn lemma_with_links(
    edges: Seq<EdgeView>,
    nodes: Seq<NodeView>,
    source: Seq<char>,
    targets: Seq<Seq<char>>,
    k: int,
)
    requires
        simple(edges),
        anchored(edges, nodes),
        is_node(nodes, source),
    ensures
        simple(with_links(edges, nodes, source, targets, k)),
        anchored(with_links(edges, nodes, source, targets, k), nodes),
    decreases targets.len() - k,
{
    if !(k < 0 || k >= targets.len()) {
        let edge = EdgeView { source, target: targets[k], label: "link"@ };
        if is_node(nodes, targets[k]) {
            lemma_with_edge(edges, edge, nodes);
            lemma_with_links(with_edge(edges, edge), nodes, source, targets, k + 1);
        } else {
            lemma_with_links(edges, nodes, source, targets, k + 1);
        }
    }
}

/// Looking at the links of the posts keeps the edges simple and anchored.
pub proof fn lemma_with_pages(
    edges: Seq<EdgeView>,
    nodes: Seq<NodeView>,
    links: Seq<Seq<Seq<char>>>,
    i: int,
)
    requires
        simple(edges),
        anchored(edges, nodes),
    ensures
        simple(with_pages(edges, nodes, links, i)),
        anchored(with_pages(edges, nodes, links, i), nodes),
    decreases nodes.len() - i,
{
    if !(i < 0 || i >= nodes.len() || i >= links.len()) {
        lemma_with_links(edges, nodes, nodes[i].id, links[i], 0);
        lemma_with_pages(with_links(edges, nodes, nodes[i].id, links[i], 0), nodes, links, i + 1);
    }
}

/// In the graph of any nodes and links, no two edges join the same pair of
/// posts, in whatever direction, no edge joins a post to itself, and both
/// ends of every edge are nodes. Two posts that share several tags, or
/// that share a tag and link to each other, have one edge.
pub proof fn lemma_graph_simple(nodes: Seq<NodeView>, links: Seq<Seq<Seq<char>>>)
    ensures
        simple(graph_edges(nodes, links)),
        anchored(graph_edges(nodes, links), nodes),
{
    lemma_with_tags(Seq::empty(), nodes, all_tags(nodes), 0);
    lemma_with_pages(with_tags(Seq::empty(), nodes, all_tags(nodes), 0), nodes, links, 0);
}

/// A copy of the strings.
pub fn copy_texts(texts: &Vec<String>) -> (copy: Vec<String>)
    ensures
        text_views(copy@) == text_views(texts@),
{
    let mut copy: Vec<String> = Vec::new();
    let mut i: usize = 0;
    while i < texts.len()
        invariant
            i <= texts.len(),
            copy.len() == i,
            forall|j: int| 0 <= j < i ==> (#[trigger] copy@[j])@ == texts@[j]@,
        decreases texts.len() - i,
    {
        copy.push(texts[i].clone());
        i += 1;
    }
    assert(text_views(copy@) =~= text_views(texts@));
    copy
}

/// Whether one of the strings is `text`.
pub fn holds_text(texts: &Vec<String>, text: &str) -> (found: bool)
    ensures
        found == text_views(texts@).contains(text@),
{
    let mut i: usize = 0;
    while i < texts.len()
        invariant
            i <= texts.len(),
            forall|j: int| 0 <= j < i ==> (#[trigger] texts@[j])@ != text@,
        decreases texts.len() - i,
    {
        if same_text(texts[i].as_str(), text) {
            assert(text_views(texts@)[i as int] == text@);
            return true;
        }
        i += 1;
    }
    assert forall|j: int| 0 <= j < text_views(texts@).len() implies text_views(texts@)[j] != text@ by {
        assert(texts@[j]@ != text@);
    }
    false
}

/// Whether some edge lies between `a` and `b`.
pub fn is_connected(edges: &Vec<GraphEdge>, a: &str, b: &str) -> (found: bool)
    ensures
        found == connected(edge_views(edges@), a@, b@),
{
    let mut k: usize = 0;
    while k < edges.len()
        invariant
            k <= edges.len(),
            forall|j: int| 0 <= j < k ==> !joins((#[trigger] edges@[j])@, a@, b@),
        decreases edges.len() - k,
    {
        let edge = &edges[k];
        let forward = same_text(edge.source.as_str(), a) && same_text(edge.target.as_str(), b);
        let backward = same_text(edge.source.as_str(), b) && same_text(edge.target.as_str(), a);
        if forward || backward {
            assert(joins(edge_views(edges@)[k as int], a@, b@));
            return true;
        }
        k += 1;
    }
    assert forall|j: int| 0 <= j < edge_views(edges@).len() implies !joins(
        #[trigger] edge_views(edges@)[j],
        a@,
        b@,
    ) by {
        assert(!joins(edges@[j]@, a@, b@));
    }
    false
}

/// Whether some node has the address.
pub fn has_node(nodes: &Vec<GraphNode>, id: &str) -> (found: bool)
    ensures
        found == is_node(node_views(nodes@), id@),
{
    let mut i: usize = 0;
    while i < nodes.len()
        invariant
            i <= nodes.len(),
            forall|j: int| 0 <= j < i ==> (#[trigger] nodes@[j])@.id != id@,
        decreases nodes.len() - i,
    {
        if same_text(nodes[i].id.as_str(), id) {
            assert(node_views(nodes@)[i as int].id == id@);
            return true;
        }
        i += 1;
    }
    assert forall|j: int| 0 <= j < node_views(nodes@).len() implies (#[trigger] node_views(
        nodes@,
    )[j]).id != id@ by {
        assert(nodes@[j]@.id != id@);
    }
    false
}

/// Adds an edge, unless it would join a post to itself or its two ends are
/// connected already.
pub fn add_edge(edges: &mut Vec<GraphEdge>, source: &str, target: &str, label: &str)
    ensures
        edge_views(final(edges)@) == with_edge(
            edge_views(old(edges)@),
            EdgeView { source: source@, target: target@, label: label@ },
        ),
{
    if same_text(source, target) {
        return ;
    }
    if is_connected(edges, source, target) {
        return ;
    }
    let edge = GraphEdge {
        source: String::from_str(source),
        target: String::from_str(target),
        label: String::from_str(label),
    };
    let ghost before = edge_views(edges@);
    edges.push(edge);
    assert(edge_views(edges@) =~= before.push(edge@));
}

/// Pairs node `i` with each later node that has the tag.
fn add_row(edges: &mut Vec<GraphEdge>, nodes: &Vec<GraphNode>, tag: &str, i: usize)
    requires
        i < nodes.len(),
    ensures
        edge_views(final(edges)@) == with_row(
            edge_views(old(edges)@),
            node_views(nodes@),
            tag@,
            i as int,
            i + 1,
        ),
{
    let ghost views = node_views(nodes@);
    let mut j: usize = i + 1;
    while j < nodes.len()
        invariant
            i < j <= nodes.len(),
            views == node_views(nodes@),
            with_row(edge_views(edges@), views, tag@, i as int, j as int) == with_row(
                edge_views(old(edges)@),
                views,
                tag@,
                i as int,
                i + 1,
            ),
        decreases nodes.len() - j,
    {
        assert(views[j as int] == nodes@[j as int]@);
        assert(views[i as int] == nodes@[i as int]@);
        if holds_text(&nodes[j].tags, tag) {
            add_edge(edges, nodes[i].id.as_str(), nodes[j].id.as_str(), tag);
        }
        j += 1;
    }
}

/// Looks at one tag: every pair of nodes that have it.
fn add_group(edges: &mut Vec<GraphEdge>, nodes: &Vec<GraphNode>, tag: &str)
    ensures
        edge_views(final(edges)@) == with_group(edge_views(old(edges)@), node_views(nodes@), tag@, 0),
{
    let ghost views = node_views(nodes@);
    let mut i: usize = 0;
    while i < nodes.len()
        invariant
            i <= nodes.len(),
            views == node_views(nodes@),
            with_group(edge_views(edges@), views, tag@, i as int) == with_group(
                edge_views(old(edges)@),
                views,
                tag@,
                0,
            ),
        decreases nodes.len() - i,
    {
        assert(views[i as int] == nodes@[i as int]@);
        if holds_text(&nodes[i].tags, tag) {
            add_row(edges, nodes, tag, i);
        }
        i += 1;
    }
}

/// The tags of the nodes, node after node.
fn collect_tags(nodes: &Vec<GraphNode>) -> (tags: Vec<String>)
    ensures
        text_views(tags@) == all_tags(node_views(nodes@)),
{
    let ghost views = node_views(nodes@);
    let mut tags: Vec<String> = Vec::new();
    let mut i: usize = 0;
    while i < nodes.len()
        invariant
            i <= nodes.len(),
            views == node_views(nodes@),
            text_views(tags@) == all_tags(views.take(i as int)),
        decreases nodes.len() - i,
    {
        assert(views.take(i + 1).drop_last() =~= views.take(i as int));
        assert(views.take(i + 1).last() == nodes@[i as int]@);
        let ghost before = text_views(tags@);
        let node_tags = &nodes[i].tags;
        let mut k: usize = 0;
        while k < node_tags.len()
            invariant
                k <= node_tags.len(),
                text_views(tags@) == before + text_views(node_tags@).take(k as int),
            decreases node_tags.len() - k,
        {
            let ghost so_far = text_views(tags@);
            tags.push(node_tags[k].clone());
            assert(text_views(tags@) =~= so_far.push(node_tags@[k as int]@));
            assert(text_views(node_tags@).take(k + 1) =~= text_views(node_tags@).take(k as int).push(
                node_tags@[k as int]@,
            ));
            k += 1;
        }
        assert(text_views(node_tags@).take(node_tags.len() as int) =~= text_views(node_tags@));
        i += 1;
    }
    assert(views.take(nodes.len() as int) =~= views);
    tags
}

/// Whether the `k`-th string stands among those before it.
fn seen_before(tags: &Vec<String>, k: usize) -> (seen: bool)
    requires
        k < tags.len(),
    ensures
        seen == text_views(tags@).take(k as int).contains(text_views(tags@)[k as int]),
{
    let ghost views = text_views(tags@);
    let mut j: usize = 0;
    while j < k
        invariant
            j <= k < tags.len(),
            views == text_views(tags@),
            forall|m: int| 0 <= m < j ==> #[trigger] views[m] != views[k as int],
        decreases k - j,
    {
        if same_text(tags[j].as_str(), tags[k].as_str()) {
            assert(views.take(k as int)[j as int] == views[k as int]);
            return true;
        }
        j += 1;
    }
    assert forall|m: int| 0 <= m < views.take(k as int).len() implies views.take(k as int)[m]
        != views[k as int] by {
        assert(views[m] != views[k as int]);
    }
    false
}

/// The edges that shared tags give.
fn add_tag_edges(edges: &mut Vec<GraphEdge>, nodes: &Vec<GraphNode>)
    ensures
        edge_views(final(edges)@) == with_tags(
            edge_views(old(edges)@),
            node_views(nodes@),
            all_tags(node_views(nodes@)),
            0,
        ),
{
    let tags = collect_tags(nodes);
    let ghost views = node_views(nodes@);
    let ghost tag_views = text_views(tags@);
    let mut k: usize = 0;
    while k < tags.len()
        invariant
            k <= tags.len(),
            views == node_views(nodes@),
            tag_views == text_views(tags@),
            with_tags(edge_views(edges@), views, tag_views, k as int) == with_tags(
                edge_views(old(edges)@),
                views,
                tag_views,
                0,
            ),
        decreases tags.len() - k,
    {
        if !seen_before(&tags, k) {
            add_group(edges, nodes, tags[k].as_str());
        }
        k += 1;
    }
}

/// The edges that the links of one post give.
fn add_link_edges(edges: &mut Vec<GraphEdge>, nodes: &Vec<GraphNode>, source: &str, targets: &Vec<String>)
    ensures
        edge_views(final(edges)@) == with_links(
            edge_views(old(edges)@),
            node_views(nodes@),
            source@,
            text_views(targets@),
            0,
        ),
{
    let ghost views = node_views(nodes@);
    let ghost target_views = text_views(targets@);
    let mut k: usize = 0;
    while k < targets.len()
        invariant
            k <= targets.len(),
            views == node_views(nodes@),
            target_views == text_views(targets@),
            with_links(edge_views(edges@), views, source@, target_views, k as int) == with_links(
                edge_views(old(edges)@),
                views,
                source@,
                target_views,
                0,
            ),
        decreases targets.len() - k,
    {
        if has_node(nodes, targets[k].as_str()) {
            add_edge(edges, source, targets[k].as_str(), "link");
        }
        k += 1;
    }
}

/// The edges between the nodes: an edge with the tag as label for two nodes
/// that share a tag, an edge with the label `link` from a node to the node
/// that one of its links names. `links` holds for each node the addresses
/// that its post links to.
///
/// A pair of nodes gets one edge at most, the first that is found: the
/// tags are looked at in the order in which they first occur, each over the
/// pairs of nodes in their order; then the links, node after node.
pub fn connect(nodes: &Vec<GraphNode>, links: &Vec<Vec<String>>) -> (edges: Vec<GraphEdge>)
    ensures
        edge_views(edges@) == graph_edges(node_views(nodes@), link_views(links@)),
        simple(edge_views(edges@)),
        anchored(edge_views(edges@), node_views(nodes@)),
{
    let ghost views = node_views(nodes@);
    let ghost all_links = link_views(links@);
    let mut edges: Vec<GraphEdge> = Vec::new();
    assert(edge_views(edges@) =~= Seq::<EdgeView>::empty());
    add_tag_edges(&mut edges, nodes);
    let ghost tagged = edge_views(edges@);
    let mut i: usize = 0;
    while i < nodes.len() && i < links.len()
        invariant
            i <= nodes.len(),
            i <= links.len(),
            views == node_views(nodes@),
            all_links == link_views(links@),
            with_pages(edge_views(edges@), views, all_links, i as int) == with_pages(
                tagged,
                views,
                all_links,
                0,
            ),
        decreases nodes.len() - i,
    {
        assert(views[i as int] == nodes@[i as int]@);
        assert(all_links[i as int] == text_views(links@[i as int]@));
        add_link_edges(&mut edges, nodes, nodes[i].id.as_str(), &links[i]);
        i += 1;
    }
    proof {
        lemma_graph_simple(views, all_links);
    }
    edges
}

/// The node of a post of the given category.
pub fn make_node(kind: PostType, post: &Post) -> (node: GraphNode)
    ensures
        node@ == node_of(kind, post@),
{
    let id = kind.href(&post.metadata);
    let href = id.clone();
    GraphNode { id, title: post.metadata.title.clone(), href, tags: copy_texts(&post.metadata.tags) }
}

/// Builds the graph of the given collections.
///
/// Every post gives a node whose address is `/`, the segment of its
/// category, `/`, the slug of its title. Two posts that share a tag are
/// joined by an edge with the tag as label; a post that links to the
/// address of another is joined to it by an edge with the label `link`.
/// No post is joined to itself, and no pair of posts is joined twice: the
/// edge that is found first stays.
pub fn build_graph(collections: &Vec<PostCollection>) -> (graph: GraphData)
    ensures
        graph@ == graph_of(collection_views(collections@)),
        simple(graph@.edges),
        anchored(graph@.edges, graph@.nodes),
{
    let ghost views = collection_views(collections@);
    let mut nodes: Vec<GraphNode> = Vec::new();
    let mut links: Vec<Vec<String>> = Vec::new();
    let mut c: usize = 0;
    assert(node_views(nodes@) =~= graph_nodes(views.take(0)));
    assert(link_views(links@) =~= graph_links(views.take(0)));
    while c < collections.len()
        invariant
            c <= collections.len(),
            views == collection_views(collections@),
            node_views(nodes@) == graph_nodes(views.take(c as int)),
            link_views(links@) == graph_links(views.take(c as int)),
        decreases collections.len() - c,
    {
        assert(views.take(c + 1).drop_last() =~= views.take(c as int));
        assert(views.take(c + 1).last() == collections@[c as int]@);
        let collection = &collections[c];
        let ghost node_base = node_views(nodes@);
        let ghost link_base = link_views(links@);
        let ghost posts = post_views(collection.posts@);
        let mut k: usize = 0;
        assert(node_views(nodes@) =~= node_base + collection_nodes(collection@, 0));
        assert(link_views(links@) =~= link_base + collection_links(collection@, 0));
        while k < collection.posts.len()
            invariant
                k <= collection.posts.len(),
                posts == post_views(collection.posts@),
                node_views(nodes@) == node_base + collection_nodes(collection@, k as int),
                link_views(links@) == link_base + collection_links(collection@, k as int),
            decreases collection.posts.len() - k,
        {
            let post = &collection.posts[k];
            assert(posts[k as int] == post@);
            let node = make_node(collection.kind, post);
            let found = extract_links(post.html.as_str());
            let ghost nodes_before = node_views(nodes@);
            let ghost links_before = link_views(links@);
            nodes.push(node);
            links.push(found);
            assert(node_views(nodes@) =~= nodes_before.push(node@));
            assert(link_views(links@) =~= links_before.push(text_views(found@)));
            assert(node_views(nodes@) =~= node_base + collection_nodes(collection@, k + 1));
            assert(link_views(links@) =~= link_base + collection_links(collection@, k + 1));
            k += 1;
        }
        c += 1;
    }
    assert(views.take(collections.len() as int) =~= views);
    let edges = connect(&nodes, &links);
    GraphData { nodes, edges }
}

} // verus!
