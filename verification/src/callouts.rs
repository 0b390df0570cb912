//! Callouts and panels: block quotes that open with a reserved marker are
//! rewritten into styled fragments.
//!
//! Three markers are known. `[!author]` turns the quote into an author's
//! note. `[!code <title>]` and `[!term <title>]` (or `[!terminal <title>]`)
//! wrap the code block that directly follows the quote into a panel. The
//! rewriter works on rendered HTML, where a quote reads
//! `<blockquote>`, blanks, `<p>`, the paragraph, `</p>`, blanks,
//! `</blockquote>`, and a code block runs from `<pre>` to the first
//! `</pre>`.

use vstd::prelude::*;
use crate::text::chars_of;
use crate::text::find;
use crate::text::find_from;
use crate::text::has_at;
use crate::text::lemma_find_from;
use crate::text::lemma_skip_blanks;
use crate::text::matches_at;
use crate::text::push_range;
use crate::text::push_text;
use crate::text::skip_blank_run;
use crate::text::skip_blanks;
use crate::text::string_of;
use crate::text::trimmed;
use crate::text::trimmed_range;

verus! {

/// The three rewrites, in the order in which they are applied.
#[derive(Clone, Copy, PartialEq, Eq, Debug)]
pub enum PanelKind {
    Author,
    Code,
    Terminal,
}

/// A place where a rewrite applies: where the matched markup ends, and
/// what is written in its stead.
pub ghost struct Callout {
    pub end: int,
    pub html: Seq<char>,
}

/// Where the paragraph of a block quote that opens at `i` begins.
pub open spec fn quote_open(s: Seq<char>, i: int) -> Option<int> {
    if matches_at(s, i, "<blockquote>"@) {
        let p = skip_blanks(s, i + "<blockquote>"@.len());
        if matches_at(s, p, "<p>"@) {
            Some(p + "<p>"@.len())
        } else {
            None
        }
    } else {
        None
    }
}

/// Where a block quote ends whose only paragraph closes at `k`.
pub open spec fn quote_close(s: Seq<char>, k: int) -> Option<int> {
    if matches_at(s, k, "</p>"@) {
        let q = skip_blanks(s, k + "</p>"@.len());
        if matches_at(s, q, "</blockquote>"@) {
            Some(q + "</blockquote>"@.len())
        } else {
            None
        }
    } else {
        None
    }
}

/// The code block that follows index `e` with nothing but blanks between:
/// where it starts and where it ends.
pub open spec fn code_block(s: Seq<char>, e: int) -> Option<(int, int)> {
    let a = skip_blanks(s, e);
    if matches_at(s, a, "<pre>"@) {
        match find_from(s, "</pre>"@, a + "<pre>"@.len()) {
            Some(c) => Some((a, c + "</pre>"@.len())),
            None => None,
        }
    } else {
        None
    }
}

/// A marker with a title at `p`: the keyword, then either nothing or a
/// space and a title, then `]`. Gives the title as written and the index
/// after the `]`.
pub open spec fn marker_title(s: Seq<char>, p: int, keyword: Seq<char>) -> Option<(Seq<char>, int)> {
    if matches_at(s, p, keyword) {
        match find_from(s, "]"@, p + keyword.len()) {
            Some(r) => {
                let raw = s.subrange(p + keyword.len(), r);
                if raw.len() == 0 || raw[0] == ' ' {
                    Some((raw, r + 1))
                } else {
                    None
                }
            },
            None => None,
        }
    } else {
        None
    }
}

/// The fragment that stands for an author's note.
pub open spec fn author_html(text: Seq<char>) -> Seq<char> {
    "<div class=\"callout callout-author\"><img class=\"callout-avatar\" src=\"https://github.com/itehax.png\" alt=\"author\"/><p>"@
        + text + "</p></div>"@
}

/// The fragment that stands for a code panel; the header is left out when
/// the title is empty.
pub open spec fn code_html(title: Seq<char>, block: Seq<char>) -> Seq<char> {
    if title.len() == 0 {
        "<div class=\"code-panel\">"@ + block + "</div>"@
    } else {
        "<div class=\"code-panel\"><div class=\"code-panel-title\">"@ + title + "</div>"@ + block
            + "</div>"@
    }
}

/// The fragment that stands for a terminal panel; an empty title reads
/// `terminal`.
pub open spec fn terminal_html(title: Seq<char>, block: Seq<char>) -> Seq<char> {
    let shown = if title.len() == 0 {
        "terminal"@
    } else {
        title
    };
    "<div class=\"terminal-panel\"><div class=\"terminal-bar\"><span class=\"terminal-dot\"></span><span class=\"terminal-dot\"></span><span class=\"terminal-dot\"></span><span class=\"terminal-title\">"@
        + shown + "</span></div>"@ + block + "</div>"@
}

/// An author's note at `i`: a block quote whose only paragraph opens with
/// `[!author]`.
pub open spec fn author_at(s: Seq<char>, i: int) -> Option<Callout> {
    match quote_open(s, i) {
        Some(p) => if matches_at(s, p, "[!author]"@) {
            let t = p + "[!author]"@.len();
            match find_from(s, "</p>"@, t) {
                Some(k) => match quote_close(s, k) {
                    Some(e) => Some(Callout { end: e, html: author_html(trimmed(s.subrange(t, k))) }),
                    None => None,
                },
                None => None,
            }
        } else {
            None
        },
        None => None,
    }
}

/// The title of a panel marker of the given kind at `p`, and the index
/// after the marker.
pub open spec fn panel_marker(s: Seq<char>, p: int, kind: PanelKind) -> Option<(Seq<char>, int)> {
    match kind {
        PanelKind::Author => None,
        PanelKind::Code => marker_title(s, p, "[!code"@),
        PanelKind::Terminal => match marker_title(s, p, "[!terminal"@) {
            Some(found) => Some(found),
            None => marker_title(s, p, "[!term"@),
        },
    }
}

/// A panel at `i`: a block quote that holds a panel marker and nothing
/// else, directly followed by a code block.
pub open spec fn panel_at(s: Seq<char>, i: int, kind: PanelKind) -> Option<Callout> {
    match quote_open(s, i) {
        Some(p) => match panel_marker(s, p, kind) {
            Some((raw, after)) => match quote_close(s, after) {
                Some(e) => match code_block(s, e) {
                    Some((a, b)) => {
                        let title = trimmed(raw);
                        let block = s.subrange(a, b);
                        Some(
                            Callout {
                                end: b,
                                html: if kind == PanelKind::Code {
                                    code_html(title, block)
                                } else {
                                    terminal_html(title, block)
                                },
                            },
                        )
                    },
                    None => None,
                },
                None => None,
            },
            None => None,
        },
        None => None,
    }
}

/// The rewrite of the given kind that applies at index `i`, if one does.
pub open spec fn callout_at(s: Seq<char>, i: int, kind: PanelKind) -> Option<Callout> {
    match kind {
        PanelKind::Author => author_at(s, i),
        _ => panel_at(s, i, kind),
    }
}

/// The text from index `i` on with every rewrite of the given kind done,
/// scanning from left to right: where a rewrite applies, its fragment is
/// written and the scan goes on behind the matched markup; elsewhere the
/// character is copied.
pub open spec fn rewrite_from(s: Seq<char>, i: int, kind: PanelKind) -> Seq<char>
    decreases s.len() - i,
{
    if i < 0 || i >= s.len() {
        Seq::empty()
    } else {
        match callout_at(s, i, kind) {
            Some(c) => if i < c.end <= s.len() {
                c.html + rewrite_from(s, c.end, kind)
            } else {
                seq![s[i]] + rewrite_from(s, i + 1, kind)
            },
            None => seq![s[i]] + rewrite_from(s, i + 1, kind),
        }
    }
}

/// The text after all three rewrites: author's notes first, then code
/// panels, then terminal panels.
pub open spec fn rewritten(s: Seq<char>) -> Seq<char> {
    rewrite_from(
        rewrite_from(rewrite_from(s, 0, PanelKind::Author), 0, PanelKind::Code),
        0,
        PanelKind::Terminal,
    )
}

/// A rewrite covers at least the opening tag of its block quote and ends
/// inside the text.
pub proof fn lemma_callout_bounds(s: Seq<char>, i: int, kind: PanelKind)
    requires
        0 <= i,
    ensures
        match callout_at(s, i, kind) {
            Some(c) => i < c.end <= s.len(),
            None => true,
        },
{
    reveal_strlit("<blockquote>");
    reveal_strlit("<p>");
    reveal_strlit("</p>");
    reveal_strlit("</blockquote>");
    reveal_strlit("<pre>");
    reveal_strlit("</pre>");
    reveal_strlit("]");
    match quote_open(s, i) {
        Some(p) => {
            lemma_skip_blanks(s, i + "<blockquote>"@.len());
            match kind {
                PanelKind::Author => {
                    if matches_at(s, p, "[!author]"@) {
                        let t = p + "[!author]"@.len();
                        lemma_find_from(s, "</p>"@, t);
                        match find_from(s, "</p>"@, t) {
                            Some(k) => {
                                lemma_skip_blanks(s, k + "</p>"@.len());
                            },
                            None => {},
                        }
                    }
                },
                _ => {
                    match panel_marker(s, p, kind) {
                        Some((raw, after)) => {
                            lemma_find_from(s, "]"@, p + "[!code"@.len());
                            lemma_find_from(s, "]"@, p + "[!term"@.len());
                            lemma_find_from(s, "]"@, p + "[!terminal"@.len());
                            match quote_close(s, after) {
                                Some(e) => {
                                    lemma_skip_blanks(s, after + "</p>"@.len());
                                    lemma_skip_blanks(s, e);
                                    let a = skip_blanks(s, e);
                                    lemma_find_from(s, "</pre>"@, a + "<pre>"@.len());
                                },
                                None => {},
                            }
                        },
                        None => {},
                    }
                },
            }
        },
        None => {},
    }
}

/// Some paragraph of the text opens with `[!`: a marker stands where a
/// rewrite would look for it.
pub open spec fn has_marker(s: Seq<char>) -> bool {
    exists|i: int| matches_at(s, i, "<p>[!"@)
}

/// No rewrite applies to a text in which no paragraph opens with `[!`.
pub proof fn lemma_no_marker_no_callout(s: Seq<char>, i: int, kind: PanelKind)
    requires
        !has_marker(s),
    ensures
        callout_at(s, i, kind) is None,
{
    reveal_strlit("[!author]");
    reveal_strlit("[!code");
    reveal_strlit("[!term");
    reveal_strlit("[!terminal");
    reveal_strlit("<p>");
    reveal_strlit("<p>[!");
    match quote_open(s, i) {
        Some(p) => {
            let found = matches_at(s, p, "[!author]"@) || matches_at(s, p, "[!code"@) || matches_at(
                s,
                p,
                "[!term"@,
            ) || matches_at(s, p, "[!terminal"@);
            if found {
                assert(s[p] == '[' && s[p + 1] == '!') by {
                    if matches_at(s, p, "[!author]"@) {
                        assert(s.subrange(p, p + "[!author]"@.len())[0] == '[');
                        assert(s.subrange(p, p + "[!author]"@.len())[1] == '!');
                    } else if matches_at(s, p, "[!code"@) {
                        assert(s.subrange(p, p + "[!code"@.len())[0] == '[');
                        assert(s.subrange(p, p + "[!code"@.len())[1] == '!');
                    } else if matches_at(s, p, "[!term"@) {
                        assert(s.subrange(p, p + "[!term"@.len())[0] == '[');
                        assert(s.subrange(p, p + "[!term"@.len())[1] == '!');
                    } else {
                        assert(s.subrange(p, p + "[!terminal"@.len())[0] == '[');
                        assert(s.subrange(p, p + "[!terminal"@.len())[1] == '!');
                    }
                }
                let open = s.subrange(p - 3, p);
                assert(open == "<p>"@);
                assert(open[0] == '<' && open[1] == 'p' && open[2] == '>');
                assert(s.subrange(p - 3, p + 2) =~= "<p>[!"@);
                assert(matches_at(s, p - 3, "<p>[!"@));
            }
        },
        None => {},
    }
}

/// A pass over a text in which no paragraph opens with `[!` copies it.
pub proof fn lemma_no_marker_unchanged(s: Seq<char>, i: int, kind: PanelKind)
    requires
        0 <= i <= s.len(),
        !has_marker(s),
    ensures
        rewrite_from(s, i, kind) == s.subrange(i, s.len() as int),
    decreases s.len() - i,
{
    if i < s.len() {
        lemma_no_marker_no_callout(s, i, kind);
        lemma_no_marker_unchanged(s, i + 1, kind);
        assert(seq![s[i]] + s.subrange(i + 1, s.len() as int) =~= s.subrange(i, s.len() as int));
    } else {
        assert(s.subrange(i, s.len() as int) =~= Seq::<char>::empty());
    }
}

/// Rewriting is idempotent on finished output: where no paragraph of the
/// rewritten text opens with `[!` any more, rewriting it again changes
/// nothing.
pub proof fn lemma_rewrite_idempotent(html: Seq<char>)
    requires
        !has_marker(rewritten(html)),
    ensures
        rewritten(rewritten(html)) == rewritten(html),
{
    let once = rewritten(html);
    lemma_no_marker_unchanged(once, 0, PanelKind::Author);
    assert(once.subrange(0, once.len() as int) =~= once);
    lemma_no_marker_unchanged(once, 0, PanelKind::Code);
    lemma_no_marker_unchanged(once, 0, PanelKind::Terminal);
}

/// The pieces of markup that the scanner looks for, as characters.
pub struct Markup {
    pub quote_open: Vec<char>,
    pub quote_close: Vec<char>,
    pub para_open: Vec<char>,
    pub para_close: Vec<char>,
    pub pre_open: Vec<char>,
    pub pre_close: Vec<char>,
    pub bracket: Vec<char>,
    pub author: Vec<char>,
    pub code: Vec<char>,
    pub term: Vec<char>,
    pub terminal: Vec<char>,
}

impl Markup {
    /// Each field holds the piece of markup it is named after.
    pub open spec fn wf(&self) -> bool {
        &&& self.quote_open@ == "<blockquote>"@
        &&& self.quote_close@ == "</blockquote>"@
        &&& self.para_open@ == "<p>"@
        &&& self.para_close@ == "</p>"@
        &&& self.pre_open@ == "<pre>"@
        &&& self.pre_close@ == "</pre>"@
        &&& self.bracket@ == "]"@
        &&& self.author@ == "[!author]"@
        &&& self.code@ == "[!code"@
        &&& self.term@ == "[!term"@
        &&& self.terminal@ == "[!terminal"@
    }

    /// The markup that rendered Markdown uses.
    pub fn new() -> (markup: Markup)
        ensures
            markup.wf(),
    {
        Markup {
            quote_open: chars_of("<blockquote>"),
            quote_close: chars_of("</blockquote>"),
            para_open: chars_of("<p>"),
            para_close: chars_of("</p>"),
            pre_open: chars_of("<pre>"),
            pre_close: chars_of("</pre>"),
            bracket: chars_of("]"),
            author: chars_of("[!author]"),
            code: chars_of("[!code"),
            term: chars_of("[!term"),
            terminal: chars_of("[!terminal"),
        }
    }
}

/// A rewrite found by the scanner: where the matched markup ends, and the
/// fragment to write.
pub struct Rewrite {
    pub end: usize,
    pub html: Vec<char>,
}

impl View for Rewrite {
    type V = Callout;

    open spec fn view(&self) -> Callout {
        Callout { end: self.end as int, html: self.html@ }
    }
}

/// What the scanner found is the rewrite that was to be found.
pub open spec fn same_callout(found: Option<Rewrite>, expected: Option<Callout>) -> bool {
    match found {
        Some(rewrite) => expected == Some(rewrite@),
        None => expected is None,
    }
}

/// Where the paragraph of a block quote that opens at `i` begins.
fn find_quote_open(s: &Vec<char>, i: usize, markup: &Markup) -> (found: Option<usize>)
    requires
        markup.wf(),
    ensures
        match found {
            Some(p) => quote_open(s@, i as int) == Some(p as int) && i < p <= s.len(),
            None => quote_open(s@, i as int) is None,
        },
{
    proof {
        reveal_strlit("<blockquote>");
        reveal_strlit("<p>");
    }
    if !has_at(s, i, &markup.quote_open) {
        return None;
    }
    let p = skip_blank_run(s, i + markup.quote_open.len());
    if has_at(s, p, &markup.para_open) {
        Some(p + markup.para_open.len())
    } else {
        None
    }
}

/// Where a block quote ends whose only paragraph closes at `k`.
fn find_quote_close(s: &Vec<char>, k: usize, markup: &Markup) -> (found: Option<usize>)
    requires
        markup.wf(),
    ensures
        match found {
            Some(e) => quote_close(s@, k as int) == Some(e as int) && k < e <= s.len(),
            None => quote_close(s@, k as int) is None,
        },
{
    proof {
        reveal_strlit("</p>");
        reveal_strlit("</blockquote>");
    }
    if !has_at(s, k, &markup.para_close) {
        return None;
    }
    let q = skip_blank_run(s, k + markup.para_close.len());
    if has_at(s, q, &markup.quote_close) {
        Some(q + markup.quote_close.len())
    } else {
        None
    }
}

/// The code block that follows index `e` with nothing but blanks between.
fn find_code_block(s: &Vec<char>, e: usize, markup: &Markup) -> (found: Option<(usize, usize)>)
    requires
        markup.wf(),
        e <= s.len(),
    ensures
        match found {
            Some((a, b)) => code_block(s@, e as int) == Some((a as int, b as int)) && e <= a < b
                <= s.len(),
            None => code_block(s@, e as int) is None,
        },
{
    proof {
        reveal_strlit("<pre>");
        reveal_strlit("</pre>");
    }
    let a = skip_blank_run(s, e);
    if !has_at(s, a, &markup.pre_open) {
        return None;
    }
    proof {
        lemma_find_from(s@, "</pre>"@, a + "<pre>"@.len());
    }
    match find(s, &markup.pre_close, a + markup.pre_open.len()) {
        Some(c) => Some((a, c + markup.pre_close.len())),
        None => None,
    }
}

/// A marker with a title at `p`: where the title as written starts and
/// ends, and the index after the `]`.
fn find_marker_title(s: &Vec<char>, p: usize, keyword: &Vec<char>, markup: &Markup) -> (found: Option<
    (usize, usize),
>)
    requires
        markup.wf(),
    ensures
        match found {
            Some((from, to)) => marker_title(s@, p as int, keyword@) == Some(
                (s@.subrange(from as int, to as int), to + 1),
            ) && p <= from <= to < s.len() && from == p + keyword.len(),
            None => marker_title(s@, p as int, keyword@) is None,
        },
{
    proof {
        reveal_strlit("]");
    }
    if !has_at(s, p, keyword) {
        return None;
    }
    let from = p + keyword.len();
    proof {
        lemma_find_from(s@, "]"@, from as int);
    }
    match find(s, &markup.bracket, from) {
        Some(to) => {
            assert(s@.subrange(from as int, to as int).len() == to - from);
            if to == from || s[from] == ' ' {
                Some((from, to))
            } else {
                None
            }
        },
        None => None,
    }
}

/// Appends the fragment of an author's note.
fn push_author(out: &mut Vec<char>, text: &Vec<char>)
    ensures
        final(out)@ == old(out)@ + author_html(text@),
{
    push_text(
        out,
        "<div class=\"callout callout-author\"><img class=\"callout-avatar\" src=\"https://github.com/itehax.png\" alt=\"author\"/><p>",
    );
    push_range(out, text, 0, text.len());
    push_text(out, "</p></div>");
    assert(text@.subrange(0, text@.len() as int) =~= text@);
    assert(out@ =~= old(out)@ + author_html(text@));
}

/// Appends the fragment of a code panel around the code block that `s`
/// holds from `a` up to `b`.
fn push_code_panel(out: &mut Vec<char>, title: &Vec<char>, s: &Vec<char>, a: usize, b: usize)
    requires
        a <= b <= s.len(),
    ensures
        final(out)@ == old(out)@ + code_html(title@, s@.subrange(a as int, b as int)),
{
    if title.len() == 0 {
        push_text(out, "<div class=\"code-panel\">");
    } else {
        push_text(out, "<div class=\"code-panel\"><div class=\"code-panel-title\">");
        push_range(out, title, 0, title.len());
        push_text(out, "</div>");
        assert(title@.subrange(0, title@.len() as int) =~= title@);
    }
    push_range(out, s, a, b);
    push_text(out, "</div>");
    assert(out@ =~= old(out)@ + code_html(title@, s@.subrange(a as int, b as int)));
}

/// Appends the fragment of a terminal panel around the code block that `s`
/// holds from `a` up to `b`.
fn push_terminal_panel(out: &mut Vec<char>, title: &Vec<char>, s: &Vec<char>, a: usize, b: usize)
    requires
        a <= b <= s.len(),
    ensures
        final(out)@ == old(out)@ + terminal_html(title@, s@.subrange(a as int, b as int)),
{
    push_text(
        out,
        "<div class=\"terminal-panel\"><div class=\"terminal-bar\"><span class=\"terminal-dot\"></span><span class=\"terminal-dot\"></span><span class=\"terminal-dot\"></span><span class=\"terminal-title\">",
    );
    if title.len() == 0 {
        push_text(out, "terminal");
    } else {
        push_range(out, title, 0, title.len());
        assert(title@.subrange(0, title@.len() as int) =~= title@);
    }
    push_text(out, "</span></div>");
    push_range(out, s, a, b);
    push_text(out, "</div>");
    assert(out@ =~= old(out)@ + terminal_html(title@, s@.subrange(a as int, b as int)));
}

/// The author's note at `i`, if there is one.
fn find_author(s: &Vec<char>, i: usize, markup: &Markup) -> (found: Option<Rewrite>)
    requires
        markup.wf(),
    ensures
        same_callout(found, author_at(s@, i as int)),
{
    proof {
        reveal_strlit("[!author]");
    }
    let p = match find_quote_open(s, i, markup) {
        Some(p) => p,
        None => {
            return None;
        },
    };
    if !has_at(s, p, &markup.author) {
        return None;
    }
    let t = p + markup.author.len();
    proof {
        lemma_find_from(s@, "</p>"@, t as int);
    }
    let k = match find(s, &markup.para_close, t) {
        Some(k) => k,
        None => {
            return None;
        },
    };
    let e = match find_quote_close(s, k, markup) {
        Some(e) => e,
        None => {
            return None;
        },
    };
    let text = trimmed_range(s, t, k);
    let mut html: Vec<char> = Vec::new();
    push_author(&mut html, &text);
    assert(html@ =~= author_html(text@));
    Some(Rewrite { end: e, html })
}

/// The title of a panel marker of the given kind at `p`.
fn find_panel_marker(s: &Vec<char>, p: usize, kind: PanelKind, markup: &Markup) -> (found: Option<
    (usize, usize),
>)
    requires
        markup.wf(),
    ensures
        match found {
            Some((from, to)) => panel_marker(s@, p as int, kind) == Some(
                (s@.subrange(from as int, to as int), to + 1),
            ) && p <= from <= to < s.len(),
            None => panel_marker(s@, p as int, kind) is None,
        },
{
    match kind {
        PanelKind::Author => None,
        PanelKind::Code => find_marker_title(s, p, &markup.code, markup),
        PanelKind::Terminal => match find_marker_title(s, p, &markup.terminal, markup) {
            Some(found) => Some(found),
            None => find_marker_title(s, p, &markup.term, markup),
        },
    }
}

/// The panel of the given kind at `i`, if there is one.
fn find_panel(s: &Vec<char>, i: usize, kind: PanelKind, markup: &Markup) -> (found: Option<Rewrite>)
    requires
        markup.wf(),
    ensures
        same_callout(found, panel_at(s@, i as int, kind)),
{
    let p = match find_quote_open(s, i, markup) {
        Some(p) => p,
        None => {
            return None;
        },
    };
    let (from, to) = match find_panel_marker(s, p, kind, markup) {
        Some(title) => title,
        None => {
            return None;
        },
    };
    let e = match find_quote_close(s, to + 1, markup) {
        Some(e) => e,
        None => {
            return None;
        },
    };
    let (a, b) = match find_code_block(s, e, markup) {
        Some(block) => block,
        None => {
            return None;
        },
    };
    let title = trimmed_range(s, from, to);
    let mut html: Vec<char> = Vec::new();
    match kind {
        PanelKind::Code => {
            push_code_panel(&mut html, &title, s, a, b);
            assert(html@ =~= code_html(title@, s@.subrange(a as int, b as int)));
        },
        _ => {
            push_terminal_panel(&mut html, &title, s, a, b);
            assert(html@ =~= terminal_html(title@, s@.subrange(a as int, b as int)));
        },
    }
    Some(Rewrite { end: b, html })
}

/// The rewrite of the given kind that applies at index `i`, if one does.
pub fn find_callout(s: &Vec<char>, i: usize, kind: PanelKind, markup: &Markup) -> (found: Option<
    Rewrite,
>)
    requires
        markup.wf(),
    ensures
        same_callout(found, callout_at(s@, i as int, kind)),
{
    match kind {
        PanelKind::Author => find_author(s, i, markup),
        _ => find_panel(s, i, kind, markup),
    }
}

/// One pass over the text: every rewrite of the given kind, from left to
/// right, without overlap.
pub fn rewrite_pass(s: &Vec<char>, kind: PanelKind, markup: &Markup) -> (out: Vec<char>)
    requires
        markup.wf(),
    ensures
        out@ == rewrite_from(s@, 0, kind),
{
    let mut out: Vec<char> = Vec::new();
    let mut i: usize = 0;
    while i < s.len()
        invariant
            i <= s.len(),
            markup.wf(),
            out@ + rewrite_from(s@, i as int, kind) == rewrite_from(s@, 0, kind),
        decreases s.len() - i,
    {
        let ghost before = out@;
        proof {
            lemma_callout_bounds(s@, i as int, kind);
        }
        match find_callout(s, i, kind, markup) {
            Some(rewrite) => {
                push_range(&mut out, &rewrite.html, 0, rewrite.html.len());
                assert(rewrite.html@.subrange(0, rewrite.html@.len() as int) =~= rewrite.html@);
                assert(out@ + rewrite_from(s@, rewrite.end as int, kind) =~= before + (rewrite.html@
                    + rewrite_from(s@, rewrite.end as int, kind)));
                i = rewrite.end;
            },
            None => {
                out.push(s[i]);
                assert(out@ + rewrite_from(s@, i + 1, kind) =~= before + (seq![s@[i as int]]
                    + rewrite_from(s@, i + 1, kind)));
                i += 1;
            },
        }
    }
    assert(out@ + Seq::<char>::empty() =~= out@);
    out
}

/// Rewrites the callouts and panels of rendered HTML.
///
/// Author's notes are rewritten first, then code panels, then terminal
/// panels. A marker that fits none of the three patterns, and a panel
/// marker that no code block follows directly, stay as they are.
pub fn rewrite_callouts(html: &str) -> (out: String)
    ensures
        out@ == rewritten(html@),
{
    let markup = Markup::new();
    let source = chars_of(html);
    let first = rewrite_pass(&source, PanelKind::Author, &markup);
    let second = rewrite_pass(&first, PanelKind::Code, &markup);
    let third = rewrite_pass(&second, PanelKind::Terminal, &markup);
    string_of(&third)
}

} // verus!
