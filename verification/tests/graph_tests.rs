use itehax_website::focus::filter_graph;
use itehax_website::focus::graph_view;
use itehax_website::graph::build_graph;
use itehax_website::graph::connect;
use itehax_website::graph::GraphData;
use itehax_website::graph::GraphEdge;
use itehax_website::graph::GraphNode;
use itehax_website::graph::PostCollection;
use itehax_website::links::extract_links;
use itehax_website::posts::parse_post_content;
use itehax_website::posts::Post;
use itehax_website::posts::PostType;

fn post(title: &str, tags: &[&str], body: &str) -> Post {
    let mut header = format!(
        "---\nimage_path: /i.png\ntitle: {}\ndate: 2024-01-01\ndescription: d\nexternal_link: https://example.org\n",
        title
    );
    if !tags.is_empty() {
        header.push_str("tags:\n");
        for tag in tags {
            header.push_str(&format!("  - {}\n", tag));
        }
    }
    header.push_str("---\n");
    header.push_str(body);
    parse_post_content(&header).unwrap()
}

fn node(id: &str, tags: &[&str]) -> GraphNode {
    GraphNode {
        id: id.to_string(),
        title: id.to_string(),
        href: id.to_string(),
        tags: tags.iter().map(|t| t.to_string()).collect(),
    }
}

fn edge(source: &str, target: &str, label: &str) -> GraphEdge {
    GraphEdge { source: source.to_string(), target: target.to_string(), label: label.to_string() }
}

fn no_links(count: usize) -> Vec<Vec<String>> {
    vec![Vec::new(); count]
}

#[test]
fn two_shared_tags_give_one_edge() {
    let nodes = vec![node("/blog/a", &["rust", "web"]), node("/blog/b", &["web", "rust"])];
    let edges = connect(&nodes, &no_links(2));
    assert_eq!(edges, vec![edge("/blog/a", "/blog/b", "rust")]);
}

#[test]
fn tags_are_taken_in_order_of_first_occurrence() {
    let nodes = vec![
        node("/blog/a", &["t1"]),
        node("/blog/b", &["t2", "t1"]),
        node("/blog/c", &["t2", "t1"]),
        node("/blog/d", &["t3"]),
    ];
    let edges = connect(&nodes, &no_links(4));
    assert_eq!(
        edges,
        vec![
            edge("/blog/a", "/blog/b", "t1"),
            edge("/blog/a", "/blog/c", "t1"),
            edge("/blog/b", "/blog/c", "t1"),
        ]
    );
}

#[test]
fn tag_with_one_member_gives_no_edge() {
    let nodes = vec![node("/blog/a", &["solo"]), node("/blog/b", &["other"])];
    assert!(connect(&nodes, &no_links(2)).is_empty());
    assert!(connect(&Vec::new(), &Vec::new()).is_empty());
}

#[test]
fn repeated_tag_on_one_node_gives_no_self_edge() {
    let nodes = vec![node("/blog/a", &["x", "x"]), node("/blog/b", &["x"])];
    assert_eq!(connect(&nodes, &no_links(2)), vec![edge("/blog/a", "/blog/b", "x")]);
}

#[test]
fn links_give_edges_to_known_nodes_only() {
    let nodes = vec![node("/blog/a", &[]), node("/blog/b", &[]), node("/writing/c", &[])];
    let links = vec![
        vec!["/blog/b".to_string(), "/blog/missing".to_string(), "/blog/a".to_string()],
        vec!["/blog/a".to_string(), "/writing/c".to_string()],
        Vec::new(),
    ];
    let edges = connect(&nodes, &links);
    assert_eq!(
        edges,
        vec![edge("/blog/a", "/blog/b", "link"), edge("/blog/b", "/writing/c", "link")]
    );
}

#[test]
fn link_does_not_replace_a_tag_edge() {
    let nodes = vec![node("/blog/a", &["rust"]), node("/blog/b", &["rust"])];
    let links = vec![vec!["/blog/b".to_string()], vec!["/blog/a".to_string()]];
    assert_eq!(connect(&nodes, &links), vec![edge("/blog/a", "/blog/b", "rust")]);
}

#[test]
fn links_are_read_from_html() {
    let html = "<p><a href=\"/blog/first-post\">one</a> <a href=\"https://example.org/blog/x\">out</a> <a href=\"/about\">about</a> <a href=\"/notes/n-1\" title=\"t\">two</a> <a href=\"/blog/\">empty</a> <a href=\"/blog/first-post\">again</a> <a href=\"/projects/p\">three</a><a href=\"/books/b\">b</a><a href=\"/writing/w\">w</a></p>";
    assert_eq!(
        extract_links(html),
        vec!["/blog/first-post", "/notes/n-1", "/blog/first-post", "/projects/p", "/books/b", "/writing/w"]
    );
    assert!(extract_links("").is_empty());
    assert!(extract_links("<a href=\"/blog/unclosed").is_empty());
}

#[test]
fn graph_of_collections() {
    let blog = PostCollection {
        kind: PostType::Blog,
        posts: vec![
            post("Alpha", &["rust", "web"], "See [beta](/blog/beta) and [gamma](/writing/gamma).\n"),
            post("Beta", &["web", "rust"], "Myself: [beta](/blog/beta).\n"),
        ],
    };
    let writing = PostCollection {
        kind: PostType::Writing,
        posts: vec![post("Gamma", &["poetry"], "Back to [alpha](/blog/alpha), [nowhere](/blog/nowhere).\n")],
    };
    let graph = build_graph(&vec![blog, writing]);
    let ids: Vec<&str> = graph.nodes.iter().map(|n| n.id.as_str()).collect();
    assert_eq!(ids, vec!["/blog/alpha", "/blog/beta", "/writing/gamma"]);
    assert_eq!(graph.nodes[0].title, "Alpha");
    assert_eq!(graph.nodes[0].href, "/blog/alpha");
    assert_eq!(graph.nodes[0].tags, vec!["rust", "web"]);
    assert_eq!(
        graph.edges,
        vec![
            edge("/blog/alpha", "/blog/beta", "rust"),
            edge("/blog/alpha", "/writing/gamma", "link"),
        ]
    );
}

#[test]
fn graph_of_nothing_is_empty() {
    let graph = build_graph(&Vec::new());
    assert!(graph.nodes.is_empty());
    assert!(graph.edges.is_empty());
    let empty = build_graph(&vec![PostCollection { kind: PostType::Blog, posts: Vec::new() }]);
    assert!(empty.nodes.is_empty());
}

fn star() -> GraphData {
    GraphData {
        nodes: vec![
            node("/blog/hub", &[]),
            node("/blog/a", &[]),
            node("/blog/b", &[]),
            node("/blog/far", &[]),
            node("/blog/lonely", &[]),
            node("/blog/pair", &[]),
        ],
        edges: vec![
            edge("/blog/hub", "/blog/a", "x"),
            edge("/blog/b", "/blog/hub", "link"),
            edge("/blog/a", "/blog/b", "y"),
            edge("/blog/a", "/blog/far", "z"),
            edge("/blog/far", "/blog/pair", "w"),
        ],
    }
}

#[test]
fn neighbourhood_holds_the_post_its_neighbours_and_their_edges() {
    let around = filter_graph(&star(), "/blog/hub");
    let ids: Vec<&str> = around.nodes.iter().map(|n| n.id.as_str()).collect();
    assert_eq!(ids, vec!["/blog/hub", "/blog/a", "/blog/b"]);
    assert_eq!(
        around.edges,
        vec![
            edge("/blog/hub", "/blog/a", "x"),
            edge("/blog/b", "/blog/hub", "link"),
            edge("/blog/a", "/blog/b", "y"),
        ]
    );
    let shown = graph_view(&star(), "/blog/hub").unwrap();
    assert_eq!(shown, around);
}

#[test]
fn post_without_neighbours_shows_no_graph() {
    assert_eq!(graph_view(&star(), "/blog/lonely"), None);
    let alone = filter_graph(&star(), "/blog/lonely");
    assert_eq!(alone.nodes.len(), 1);
    assert!(alone.edges.is_empty());
    assert_eq!(graph_view(&star(), "/blog/unknown"), None);
}

#[test]
fn post_with_one_neighbour_keeps_two_nodes() {
    let shown = graph_view(&star(), "/blog/pair").unwrap();
    let ids: Vec<&str> = shown.nodes.iter().map(|n| n.id.as_str()).collect();
    assert_eq!(ids, vec!["/blog/far", "/blog/pair"]);
    assert_eq!(shown.edges, vec![edge("/blog/far", "/blog/pair", "w")]);
}

#[test]
fn without_target_the_whole_graph_is_shown() {
    assert_eq!(graph_view(&star(), "").unwrap(), star());
}
