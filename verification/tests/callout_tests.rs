use itehax_website::callouts::rewrite_callouts;
use itehax_website::markdown::render_markdown;

const AUTHOR_OPEN: &str = "<div class=\"callout callout-author\"><img class=\"callout-avatar\" src=\"https://github.com/itehax.png\" alt=\"author\"/><p>";
const TERMINAL_OPEN: &str = "<div class=\"terminal-panel\"><div class=\"terminal-bar\"><span class=\"terminal-dot\"></span><span class=\"terminal-dot\"></span><span class=\"terminal-dot\"></span><span class=\"terminal-title\">";

#[test]
fn code_marker_without_title_has_no_header() {
    let html = "<blockquote>\n<p>[!code]</p>\n</blockquote>\n<pre><code>let x = 1;\n</code></pre>\n";
    assert_eq!(
        rewrite_callouts(html),
        "<div class=\"code-panel\"><pre><code>let x = 1;\n</code></pre></div>\n"
    );
}

#[test]
fn code_marker_with_title_has_header() {
    let html = "<blockquote>\n<p>[!code main.rs]</p>\n</blockquote>\n<pre><code class=\"language-rust\">fn main() {}\n</code></pre>\n";
    assert_eq!(
        rewrite_callouts(html),
        "<div class=\"code-panel\"><div class=\"code-panel-title\">main.rs</div><pre><code class=\"language-rust\">fn main() {}\n</code></pre></div>\n"
    );
}

#[test]
fn code_marker_without_code_block_is_left_alone() {
    let html = "<blockquote>\n<p>[!code main.rs]</p>\n</blockquote>\n<p>no code here</p>\n<pre><code>x\n</code></pre>\n";
    assert_eq!(rewrite_callouts(html), html);
}

#[test]
fn author_note_is_rewritten() {
    let html = "<p>before</p>\n<blockquote>\n<p>[!author] I wrote this.</p>\n</blockquote>\n<p>after</p>\n";
    let expected = format!("<p>before</p>\n{}I wrote this.</p></div>\n<p>after</p>\n", AUTHOR_OPEN);
    assert_eq!(rewrite_callouts(html), expected);
}

#[test]
fn author_note_with_second_paragraph_is_left_alone() {
    let html = "<blockquote>\n<p>[!author] one</p>\n<p>two</p>\n</blockquote>\n";
    assert_eq!(rewrite_callouts(html), html);
}

#[test]
fn terminal_title_defaults() {
    let html = "<blockquote>\n<p>[!term]</p>\n</blockquote>\n<pre><code>ls\n</code></pre>\n";
    let expected = format!("{}terminal</span></div><pre><code>ls\n</code></pre></div>\n", TERMINAL_OPEN);
    assert_eq!(rewrite_callouts(html), expected);
}

#[test]
fn terminal_long_keyword_and_title() {
    let html = "<blockquote>\n<p>[!terminal  build log ]</p>\n</blockquote>\n\n<pre><code>make\n</code></pre>\n";
    let expected = format!("{}build log</span></div><pre><code>make\n</code></pre></div>\n", TERMINAL_OPEN);
    assert_eq!(rewrite_callouts(html), expected);
    let short = "<blockquote>\n<p>[!term zsh]</p>\n</blockquote>\n<pre><code>make\n</code></pre>\n";
    let expected_short = format!("{}zsh</span></div><pre><code>make\n</code></pre></div>\n", TERMINAL_OPEN);
    assert_eq!(rewrite_callouts(short), expected_short);
}

#[test]
fn unknown_marker_stays_literal() {
    let html = "<blockquote>\n<p>[!codex]</p>\n</blockquote>\n<pre><code>x\n</code></pre>\n";
    assert_eq!(rewrite_callouts(html), html);
    let other = "<blockquote>\n<p>[!note] hi</p>\n</blockquote>\n";
    assert_eq!(rewrite_callouts(other), other);
    let bare = "<p>[!code] in a plain paragraph</p>\n<pre><code>x\n</code></pre>\n";
    assert_eq!(rewrite_callouts(bare), bare);
}

#[test]
fn several_panels_in_one_document() {
    let html = "<blockquote>\n<p>[!code a.rs]</p>\n</blockquote>\n<pre><code>a\n</code></pre>\n<p>mid</p>\n<blockquote>\n<p>[!term]</p>\n</blockquote>\n<pre><code>b\n</code></pre>\n<blockquote>\n<p>[!author] me</p>\n</blockquote>\n";
    let expected = format!(
        "<div class=\"code-panel\"><div class=\"code-panel-title\">a.rs</div><pre><code>a\n</code></pre></div>\n<p>mid</p>\n{}terminal</span></div><pre><code>b\n</code></pre></div>\n{}me</p></div>\n",
        TERMINAL_OPEN, AUTHOR_OPEN
    );
    assert_eq!(rewrite_callouts(html), expected);
}

#[test]
fn rewriting_twice_changes_nothing_more() {
    let html = "<blockquote>\n<p>[!code a.rs]</p>\n</blockquote>\n<pre><code>a\n</code></pre>\n<blockquote>\n<p>[!term]</p>\n</blockquote>\n<pre><code>b\n</code></pre>\n<blockquote>\n<p>[!author] me</p>\n</blockquote>\n";
    let once = rewrite_callouts(html);
    assert!(!once.contains("[!"));
    assert_eq!(rewrite_callouts(&once), once);
}

#[test]
fn text_without_markers_is_unchanged() {
    let html = "<p>plain</p>\n<blockquote>\n<p>quoted</p>\n</blockquote>\n";
    assert_eq!(rewrite_callouts(html), html);
    assert_eq!(rewrite_callouts(""), "");
}

#[test]
fn rendered_markdown_panels() {
    let body = "> [!code main.rs]\n\n```rust\nfn main() {}\n```\n\n> [!code]\n\n```\nplain\n```\n\n> [!code]\n\ntext, not code\n";
    let (html, _) = render_markdown(body);
    let out = rewrite_callouts(&html);
    assert_eq!(
        out,
        "<div class=\"code-panel\"><div class=\"code-panel-title\">main.rs</div><pre><code class=\"language-rust\">fn main() {}\n</code></pre></div>\n<div class=\"code-panel\"><pre><code>plain\n</code></pre></div>\n<blockquote>\n<p>[!code]</p>\n</blockquote>\n<p>text, not code</p>\n"
    );
}
