use itehax_website::error::ContentError;
use itehax_website::feed::build_rss_xml;
use itehax_website::feed::feed_item;
use itehax_website::graph::PostCollection;
use itehax_website::posts::parse_post_content;
use itehax_website::posts::Post;
use itehax_website::posts::PostType;

const HEAD: &str = "<?xml version=\"1.0\" encoding=\"utf-8\"?>\n<rss version=\"2.0\" xmlns:atom=\"http://www.w3.org/2005/Atom\">\n<channel><title>Itehax</title>\n<link>https://itehax.com</link>\n<description>Itehax website, coding, hacking, reading and much more.</description>\n<language>en-us</language>\n<atom:link href=\"https://itehax.com/rss.xml\" rel=\"self\" type=\"application/rss+xml\"/>";

fn dated(title: &str, date: &str) -> Post {
    let content = format!(
        "---\nimage_path: /i.png\ntitle: {}\ndate: {}\ndescription: About {}\nexternal_link: https://example.org\n---\nbody\n",
        title, date, title
    );
    parse_post_content(&content).unwrap()
}

#[test]
fn item_of_a_post() {
    let post = dated("Hello World", "2024-03-09");
    assert_eq!(
        feed_item(&post.metadata, PostType::Blog).unwrap(),
        "<item><title>Hello World</title><link>https://itehax.com/blog/hello-world</link><description>About Hello World</description><language>en-us</language><pubDate>Sat, 09 Mar 2024 16:00:10 GMT</pubDate><guid isPermaLink=\"false\">hello-world</guid></item>"
    );
}

#[test]
fn item_needs_a_date() {
    let post = dated("Undated", "soon");
    assert_eq!(feed_item(&post.metadata, PostType::Blog).unwrap_err(), ContentError::InvalidDate);
}

#[test]
fn feed_of_two_categories() {
    let collections = vec![
        PostCollection { kind: PostType::Blog, posts: vec![dated("A", "2024-01-01"), dated("B", "2023-12-31")] },
        PostCollection { kind: PostType::Book, posts: vec![dated("C", "2000-02-29")] },
    ];
    let expected = format!(
        "{}{}{}{}</channel></rss>",
        HEAD,
        "<item><title>A</title><link>https://itehax.com/blog/a</link><description>About A</description><language>en-us</language><pubDate>Mon, 01 Jan 2024 16:00:10 GMT</pubDate><guid isPermaLink=\"false\">a</guid></item>",
        "<item><title>B</title><link>https://itehax.com/blog/b</link><description>About B</description><language>en-us</language><pubDate>Sun, 31 Dec 2023 16:00:10 GMT</pubDate><guid isPermaLink=\"false\">b</guid></item>",
        "<item><title>C</title><link>https://itehax.com/books/c</link><description>About C</description><language>en-us</language><pubDate>Tue, 29 Feb 2000 16:00:10 GMT</pubDate><guid isPermaLink=\"false\">c</guid></item>"
    );
    assert_eq!(build_rss_xml(&collections).unwrap(), expected);
}

#[test]
fn empty_feed_has_no_items() {
    assert_eq!(build_rss_xml(&Vec::new()).unwrap(), format!("{}</channel></rss>", HEAD));
}

#[test]
fn feed_fails_on_an_unreadable_date() {
    let collections = vec![
        PostCollection { kind: PostType::Blog, posts: vec![dated("A", "2024-01-01")] },
        PostCollection { kind: PostType::Book, posts: vec![dated("C", "2000-02-30"), dated("D", "2000-02-01")] },
    ];
    assert_eq!(build_rss_xml(&collections).unwrap_err(), ContentError::InvalidDate);
}
