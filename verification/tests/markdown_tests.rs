use itehax_website::markdown::heading_markup;
use itehax_website::markdown::headings;
use itehax_website::markdown::render_markdown;
use itehax_website::markdown::table_of_contents;
use itehax_website::markdown::MarkdownEvent;

#[test]
fn toc_holds_only_second_level_headings() {
    let body = "# Top\n\nintro\n\n## First Part\n\ntext\n\n## Second Part\n\n### Detail\n\nmore\n";
    let (_, toc) = render_markdown(body);
    assert_eq!(toc.len(), 2);
    assert_eq!(toc[0].id, "first-part");
    assert_eq!(toc[0].text, "First Part");
    assert_eq!(toc[0].level, 2);
    assert_eq!(toc[1].id, "second-part");
    assert_eq!(toc[1].text, "Second Part");
    assert_eq!(toc[1].level, 2);
}

#[test]
fn every_heading_carries_its_anchor() {
    let body = "# Top\n\nintro\n\n## Setup & Config!\n\ntext\n\n### Detail\n";
    let (html, _) = render_markdown(body);
    assert_eq!(
        html,
        "<h1 id=\"top\">Top</h1>\n<p>intro</p>\n<h2 id=\"setup-config\">Setup &amp; Config!</h2>\n<p>text</p>\n<h3 id=\"detail\">Detail</h3>\n"
    );
}

#[test]
fn text_without_headings_is_rendered_as_it_stands() {
    let (html, toc) = render_markdown("hello *world*\n\n- a\n- b\n");
    assert_eq!(html, "<p>hello <em>world</em></p>\n<ul>\n<li>a</li>\n<li>b</li>\n</ul>\n");
    assert!(toc.is_empty());
}

#[test]
fn empty_body_renders_to_nothing() {
    let (html, toc) = render_markdown("");
    assert_eq!(html, "");
    assert!(toc.is_empty());
}

#[test]
fn repeated_heading_text_repeats_the_anchor() {
    let (html, toc) = render_markdown("## Notes\n\na\n\n## Notes\n\nb\n");
    assert_eq!(
        html,
        "<h2 id=\"notes\">Notes</h2>\n<p>a</p>\n<h2 id=\"notes\">Notes</h2>\n<p>b</p>\n"
    );
    assert_eq!(toc.len(), 2);
    assert_eq!(toc[0].id, "notes");
    assert_eq!(toc[1].id, "notes");
}

#[test]
fn heading_keeps_inline_markup_and_code_counts_as_text() {
    let (html, toc) = render_markdown("## Using `cargo` *fast*\n");
    assert_eq!(html, "<h2 id=\"using-cargo-fast\">Using <code>cargo</code> <em>fast</em></h2>\n");
    assert_eq!(toc.len(), 1);
    assert_eq!(toc[0].text, "Using cargo fast");
}

#[test]
fn heading_inside_a_quote_is_found() {
    let (html, toc) = render_markdown("> ## Quoted\n>\n> text\n");
    assert_eq!(
        html,
        "<blockquote>\n<h2 id=\"quoted\">Quoted</h2>\n<p>text</p>\n</blockquote>\n"
    );
    assert_eq!(toc.len(), 1);
}

#[test]
fn malformed_markup_degrades_to_text() {
    let (html, _) = render_markdown("a [broken link( and **unclosed\n");
    assert_eq!(html, "<p>a [broken link( and **unclosed</p>\n");
}

#[test]
fn headings_of_a_hand_written_stream() {
    let events = vec![
        MarkdownEvent::Other,
        MarkdownEvent::HeadingStart(1),
        MarkdownEvent::Text("One".to_string()),
        MarkdownEvent::HeadingEnd,
        MarkdownEvent::Other,
        MarkdownEvent::HeadingStart(2),
        MarkdownEvent::Text("Two ".to_string()),
        MarkdownEvent::Other,
        MarkdownEvent::Code("x".to_string()),
        MarkdownEvent::HeadingEnd,
        MarkdownEvent::HeadingStart(2),
        MarkdownEvent::Text("never closed".to_string()),
    ];
    let spans = headings(&events);
    assert_eq!(spans.len(), 2);
    assert_eq!((spans[0].level, spans[0].start, spans[0].end), (1, 1, 3));
    assert_eq!(spans[0].text, "One");
    assert_eq!((spans[1].level, spans[1].start, spans[1].end), (2, 5, 9));
    assert_eq!(spans[1].text, "Two x");
    let toc = table_of_contents(&spans);
    assert_eq!(toc.len(), 1);
    assert_eq!(toc[0].id, "two-x");
    assert_eq!(toc[0].text, "Two x");
}

#[test]
fn stream_without_headings_has_no_spans() {
    let events = vec![MarkdownEvent::Other, MarkdownEvent::HeadingEnd, MarkdownEvent::Text("t".to_string())];
    assert!(headings(&events).is_empty());
    assert!(headings(&Vec::new()).is_empty());
}

fn reference_html(body: &str) -> String {
    let mut html = String::new();
    let parser = pulldown_cmark::Parser::new_ext(body, pulldown_cmark::Options::ENABLE_HEADING_ATTRIBUTES);
    pulldown_cmark::html::push_html(&mut html, parser);
    html
}

#[test]
fn document_without_headings_matches_the_renderer() {
    let body = "Some *text* with `code` and a [link](/blog/x \"t\").\n\n> quote\n\n1. one\n2. two\n\n```rust\nfn main() {}\n```\n\n![alt *text*](/img.png)\n\n---\n\nlast <b>inline</b>\n";
    let (html, toc) = render_markdown(body);
    assert_eq!(html, reference_html(body));
    assert!(html.contains("<pre><code class=\"language-rust\">"));
    assert!(toc.is_empty());
}

#[test]
fn headings_differ_from_the_renderer_only_by_their_anchor() {
    let body = "intro\n\n## First Part\n\ntext\n\nSecond\n------\n\nmore\n\n### Third `x`\n";
    let (html, toc) = render_markdown(body);
    let expected = reference_html(body)
        .replace("<h2>First Part</h2>", "<h2 id=\"first-part\">First Part</h2>")
        .replace("<h2>Second</h2>", "<h2 id=\"second\">Second</h2>")
        .replace("<h3>Third <code>x</code></h3>", "<h3 id=\"third-x\">Third <code>x</code></h3>");
    assert_eq!(html, expected);
    assert_eq!(toc.len(), 2);
    assert_eq!(toc[1].id, "second");
}

#[test]
fn heading_attributes_do_not_reach_the_text() {
    let (html, toc) = render_markdown("## Install {#setup .big}\n\ntext\n");
    assert_eq!(html, "<h2 id=\"install\">Install</h2>\n<p>text</p>\n");
    assert_eq!(toc[0].text, "Install");
}

#[test]
fn heading_with_image_and_link() {
    let (html, toc) = render_markdown("## See [the docs](/blog/docs) ![logo](/l.png)\n");
    assert_eq!(
        html,
        "<h2 id=\"see-the-docs-logo\">See <a href=\"/blog/docs\">the docs</a> <img src=\"/l.png\" alt=\"logo\" /></h2>\n"
    );
    assert_eq!(toc[0].text, "See the docs logo");
}

#[test]
fn headings_in_a_row_and_at_the_end() {
    let (html, toc) = render_markdown("## A\n## B\n\ntext\n\n## C");
    assert_eq!(
        html,
        "<h2 id=\"a\">A</h2>\n<h2 id=\"b\">B</h2>\n<p>text</p>\n<h2 id=\"c\">C</h2>\n"
    );
    assert_eq!(toc.len(), 3);
}

#[test]
fn empty_heading_has_an_empty_anchor() {
    let (html, toc) = render_markdown("##\n\ntext\n");
    assert_eq!(html, "<h2 id=\"\"></h2>\n<p>text</p>\n");
    assert_eq!(toc.len(), 1);
    assert_eq!(toc[0].id, "");
    assert_eq!(toc[0].text, "");
}

#[test]
fn heading_markup_of_each_level() {
    assert_eq!(heading_markup(1, "a", "A"), "<h1 id=\"a\">A</h1>\n");
    assert_eq!(heading_markup(6, "x-y", "<em>X</em> y"), "<h6 id=\"x-y\"><em>X</em> y</h6>\n");
    assert_eq!(heading_markup(3, "", ""), "<h3 id=\"\"></h3>\n");
}
