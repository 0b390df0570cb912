//! Markdown bodies: the event stream of the parser, the headings found in
//! it, their anchors, the table of contents and the final HTML.
//!
//! Parsing and HTML generation are `pulldown_cmark`'s. The library reads the
//! event stream as a sequence of plain [`MarkdownEvent`] values, decides
//! where the headings are, and writes each heading itself so that it carries
//! its anchor. Everything between two headings is rendered by
//! `pulldown_cmark` unchanged.

use vstd::prelude::*;
use vstd::string::StringExecFns;
use crate::slug::slug_of;
use crate::slug::slugify;
use crate::text::push_text;
use crate::text::string_of;

verus! {

/// What the library reads of one parser event.
#[derive(Clone, Debug, PartialEq, Eq)]
pub enum MarkdownEvent {
    /// A heading opens; the number is its level, 1 to 6.
    HeadingStart(u8),
    /// The heading that was opened last closes.
    HeadingEnd,
    /// Literal text.
    Text(String),
    /// Inline code.
    Code(String),
    /// Any other event.
    Other,
}

/// The mathematical value of a [`MarkdownEvent`].
pub ghost enum EventView {
    HeadingStart(u8),
    HeadingEnd,
    Text(Seq<char>),
    Code(Seq<char>),
    Other,
}

impl View for MarkdownEvent {
    type V = EventView;

    open spec fn view(&self) -> EventView {
        match self {
            MarkdownEvent::HeadingStart(level) => EventView::HeadingStart(*level),
            MarkdownEvent::HeadingEnd => EventView::HeadingEnd,
            MarkdownEvent::Text(text) => EventView::Text(text@),
            MarkdownEvent::Code(text) => EventView::Code(text@),
            MarkdownEvent::Other => EventView::Other,
        }
    }
}

/// The values of a sequence of events.
pub open spec fn event_views(events: Seq<MarkdownEvent>) -> Seq<EventView> {
    events.map_values(|e: MarkdownEvent| e@)
}

/// One heading of a document: where it opens and closes in the event
/// stream, and the literal text between.
#[derive(Clone, Debug, PartialEq, Eq)]
pub struct HeadingSpan {
    pub level: u8,
    pub start: usize,
    pub end: usize,
    pub text: String,
}

/// The mathematical value of a [`HeadingSpan`].
pub ghost struct SpanView {
    pub level: u8,
    pub start: int,
    pub end: int,
    pub text: Seq<char>,
}

impl View for HeadingSpan {
    type V = SpanView;

    open spec fn view(&self) -> SpanView {
        SpanView { level: self.level, start: self.start as int, end: self.end as int, text: self.text@ }
    }
}

/// The values of a sequence of spans.
pub open spec fn span_views(spans: Seq<HeadingSpan>) -> Seq<SpanView> {
    spans.map_values(|s: HeadingSpan| s@)
}

/// One line of the table of contents.
#[derive(Clone, Debug, PartialEq, Eq)]
pub struct TocEntry {
    pub id: String,
    pub text: String,
    pub level: u8,
}

/// The mathematical value of a [`TocEntry`].
pub ghost struct TocEntryView {
    pub id: Seq<char>,
    pub text: Seq<char>,
    pub level: u8,
}

impl View for TocEntry {
    type V = TocEntryView;

    open spec fn view(&self) -> TocEntryView {
        TocEntryView { id: self.id@, text: self.text@, level: self.level }
    }
}

/// The values of a sequence of entries.
pub open spec fn toc_views(entries: Seq<TocEntry>) -> Seq<TocEntryView> {
    entries.map_values(|e: TocEntry| e@)
}

/// The events that `pulldown_cmark` yields for a Markdown text, with heading
/// attributes enabled, each reduced to a [`MarkdownEvent`].
pub uninterp spec fn parsed_events(body: Seq<char>) -> Seq<EventView>;

/// The HTML that `pulldown_cmark` writes for the events of a Markdown text
/// from index `from` up to index `to`.
pub uninterp spec fn rendered_events(body: Seq<char>, from: int, to: int) -> Seq<char>;

/// Every heading level in the stream is between 1 and 6.
pub open spec fn levels_valid(events: Seq<EventView>) -> bool {
    forall|i: int|
        0 <= i < events.len() ==> match #[trigger] events[i] {
            EventView::HeadingStart(level) => 1 <= level <= 6,
            _ => true,
        }
}

/// Runs `pulldown_cmark::Parser` with heading attributes enabled over the
/// text and reduces each event to what the library reads of it. The parser
/// is a function of the text; a heading level is one of six variants,
/// numbered 1 to 6.
#[verifier::external_body]
fn parse_events(body: &str) -> (events: Vec<MarkdownEvent>)
    ensures
        event_views(events@) == parsed_events(body@),
        levels_valid(event_views(events@)),
{
    pulldown_cmark::Parser::new_ext(body, pulldown_cmark::Options::ENABLE_HEADING_ATTRIBUTES)
        .map(|event| match event {
            pulldown_cmark::Event::Start(pulldown_cmark::Tag::Heading(level, _, _)) => {
                MarkdownEvent::HeadingStart(level as u8)
            },
            pulldown_cmark::Event::End(pulldown_cmark::Tag::Heading(..)) => MarkdownEvent::HeadingEnd,
            pulldown_cmark::Event::Text(text) => MarkdownEvent::Text(text.into_string()),
            pulldown_cmark::Event::Code(text) => MarkdownEvent::Code(text.into_string()),
            _ => MarkdownEvent::Other,
        })
        .collect()
}

/// Runs `pulldown_cmark::html::push_html` over the events of the text from
/// index `from` up to index `to`, parsed as in [`parse_events`]. The HTML
/// is a function of the text and the two indices.
#[verifier::external_body]
fn render_events(body: &str, from: usize, to: usize) -> (html: String)
    ensures
        html@ == rendered_events(body@, from as int, to as int),
{
    let mut html = String::new();
    let parser = pulldown_cmark::Parser::new_ext(body, pulldown_cmark::Options::ENABLE_HEADING_ATTRIBUTES);
    pulldown_cmark::html::push_html(&mut html, parser.take(to).skip(from));
    html
}

/// Index of the first event at `i` or later that opens a heading
/// (`closing` false) or closes one (`closing` true).
pub open spec fn next_mark(events: Seq<EventView>, i: int, closing: bool) -> Option<int>
    decreases events.len() - i,
{
    if i < 0 || i >= events.len() {
        None
    } else if !closing && events[i] is HeadingStart {
        Some(i)
    } else if closing && events[i] is HeadingEnd {
        Some(i)
    } else {
        next_mark(events, i + 1, closing)
    }
}

/// The literal text of the events from `i` up to `end`: what the text and
/// inline-code events hold, in order.
pub open spec fn text_between(events: Seq<EventView>, i: int, end: int) -> Seq<char>
    decreases end - i,
{
    if i < 0 || i >= end || end > events.len() {
        Seq::empty()
    } else {
        let piece = match events[i] {
            EventView::Text(text) => text,
            EventView::Code(text) => text,
            _ => Seq::empty(),
        };
        piece + text_between(events, i + 1, end)
    }
}

/// The first heading at `from` or later: the first event that opens a
/// heading, together with the first closing event after it. A heading that
/// never closes is no heading.
pub open spec fn next_heading(events: Seq<EventView>, from: int) -> Option<SpanView> {
    match next_mark(events, from, false) {
        None => None,
        Some(start) => match next_mark(events, start + 1, true) {
            None => None,
            Some(end) => Some(
                SpanView {
                    level: events[start]->HeadingStart_0,
                    start,
                    end,
                    text: text_between(events, start + 1, end),
                },
            ),
        },
    }
}

/// The headings of the stream from `from` on, in document order.
pub open spec fn headings_from(events: Seq<EventView>, from: int) -> Seq<SpanView>
    decreases events.len() - from,
{
    match next_heading(events, from) {
        None => Seq::empty(),
        Some(span) => if from <= span.end < events.len() {
            seq![span] + headings_from(events, span.end + 1)
        } else {
            Seq::empty()
        },
    }
}

/// The table of contents of a list of headings: one entry for each heading
/// of level 2, in the same order, with the slug of its text as anchor.
pub open spec fn toc_of(spans: Seq<SpanView>) -> Seq<TocEntryView>
    decreases spans.len(),
{
    if spans.len() == 0 {
        Seq::empty()
    } else {
        let rest = toc_of(spans.drop_last());
        let span = spans.last();
        if span.level == 2 {
            rest.push(toc_entry(span))
        } else {
            rest
        }
    }
}

/// The entry that a heading of level 2 gives.
pub open spec fn toc_entry(span: SpanView) -> TocEntryView {
    TocEntryView { id: slug_of(span.text), text: span.text, level: 2 }
}

/// The table of contents holds the headings of level 2 and no others, in
/// document order.
pub proof fn lemma_toc_scope(spans: Seq<SpanView>)
    ensures
        toc_of(spans) == spans.filter(|s: SpanView| s.level == 2).map_values(
            |s: SpanView| toc_entry(s),
        ),
    decreases spans.len(),
{
    reveal(Seq::filter);
    let second = |s: SpanView| s.level == 2;
    let entry = |s: SpanView| toc_entry(s);
    if spans.len() > 0 {
        lemma_toc_scope(spans.drop_last());
        let kept = spans.drop_last().filter(second);
        if spans.last().level == 2 {
            assert(kept.push(spans.last()).map_values(entry) =~= kept.map_values(entry).push(
                toc_entry(spans.last()),
            ));
        }
    } else {
        assert(spans.filter(second).map_values(entry) =~= Seq::<TocEntryView>::empty());
    }
}

/// The digit that names a heading level in its tag.
pub open spec fn level_digit(level: u8) -> char {
    if level == 1 {
        '1'
    } else if level == 2 {
        '2'
    } else if level == 3 {
        '3'
    } else if level == 4 {
        '4'
    } else if level == 5 {
        '5'
    } else {
        '6'
    }
}

/// A heading as it is written: its tag with the anchor as `id`, around the
/// HTML of what the heading holds.
pub open spec fn heading_html(level: u8, id: Seq<char>, inner: Seq<char>) -> Seq<char> {
    "<h"@ + seq![level_digit(level)] + " id=\""@ + id + "\">"@ + inner + "</h"@ + seq![
        level_digit(level),
    ] + ">\n"@
}

/// The HTML of the events from `from` up to `to`; nothing where the range
/// is empty.
pub open spec fn run_html(body: Seq<char>, from: int, to: int) -> Seq<char> {
    if from < to {
        rendered_events(body, from, to)
    } else {
        Seq::empty()
    }
}

/// The HTML of a document from event `from` on, given its headings from
/// the `k`-th on: the events before each heading as the parser's renderer
/// writes them, then the heading with its anchor, and after the last
/// heading the remaining events.
pub open spec fn html_from(body: Seq<char>, spans: Seq<SpanView>, k: int, from: int, count: int) -> Seq<
    char,
>
    decreases spans.len() - k,
{
    if k < 0 || k >= spans.len() {
        run_html(body, from, count)
    } else {
        let span = spans[k];
        run_html(body, from, span.start) + heading_html(
            span.level,
            slug_of(span.text),
            run_html(body, span.start + 1, span.end),
        ) + html_from(body, spans, k + 1, span.end + 1, count)
    }
}

/// The HTML of a Markdown text.
pub open spec fn markdown_html(body: Seq<char>) -> Seq<char> {
    let events = parsed_events(body);
    html_from(body, headings_from(events, 0), 0, 0, events.len() as int)
}

/// The table of contents of a Markdown text.
pub open spec fn markdown_toc(body: Seq<char>) -> Seq<TocEntryView> {
    toc_of(headings_from(parsed_events(body), 0))
}

/// What `next_mark` finds lies at or after `i`, inside the stream, and is
/// an event of the kind asked for.
pub proof fn lemma_next_mark(events: Seq<EventView>, i: int, closing: bool)
    requires
        0 <= i,
    ensures
        match next_mark(events, i, closing) {
            Some(j) => i <= j < events.len() && (if closing {
                events[j] is HeadingEnd
            } else {
                events[j] is HeadingStart
            }),
            None => true,
        },
    decreases events.len() - i,
{
    if i < events.len() {
        if !closing && events[i] is HeadingStart {
        } else if closing && events[i] is HeadingEnd {
        } else {
            lemma_next_mark(events, i + 1, closing);
        }
    }
}

/// Index of the first event at `from` or later that opens or closes a
/// heading.
fn find_mark(events: &Vec<MarkdownEvent>, from: usize, closing: bool) -> (found: Option<usize>)
    ensures
        match found {
            Some(j) => next_mark(event_views(events@), from as int, closing) == Some(j as int)
                && from <= j < events.len(),
            None => next_mark(event_views(events@), from as int, closing) is None,
        },
{
    let mut i: usize = from;
    while i < events.len()
        invariant
            from <= i,
            next_mark(event_views(events@), from as int, closing) == next_mark(
                event_views(events@),
                i as int,
                closing,
            ),
        decreases events.len() - i,
    {
        assert(event_views(events@)[i as int] == events@[i as int]@);
        let hit = match &events[i] {
            MarkdownEvent::HeadingStart(_) => !closing,
            MarkdownEvent::HeadingEnd => closing,
            _ => false,
        };
        if hit {
            return Some(i);
        }
        i += 1;
    }
    None
}

/// The literal text of the events from `from` up to `end`.
fn collect_text(events: &Vec<MarkdownEvent>, from: usize, end: usize) -> (text: String)
    requires
        from <= end <= events.len(),
    ensures
        text@ == text_between(event_views(events@), from as int, end as int),
{
    let ghost views = event_views(events@);
    let mut text = String::new();
    let mut i: usize = end;
    while i > from
        invariant
            from <= i <= end,
            end <= events.len(),
            views == event_views(events@),
            text@ == text_between(views, i as int, end as int),
        decreases i,
    {
        i -= 1;
        assert(views[i as int] == events@[i as int]@);
        match &events[i] {
            MarkdownEvent::Text(piece) => {
                text = piece.clone().concat(text.as_str());
            },
            MarkdownEvent::Code(piece) => {
                text = piece.clone().concat(text.as_str());
            },
            _ => {
                assert(Seq::<char>::empty() + text@ =~= text@);
            },
        }
    }
    text
}

/// The headings of an event stream, in document order.
///
/// A heading runs from an event that opens one to the first closing event
/// after it; its text is what the text and inline-code events between the
/// two hold. An opening event that no closing event follows starts no
/// heading.
pub fn headings(events: &Vec<MarkdownEvent>) -> (spans: Vec<HeadingSpan>)
    ensures
        span_views(spans@) == headings_from(event_views(events@), 0),
{
    let ghost views = event_views(events@);
    let mut spans: Vec<HeadingSpan> = Vec::new();
    let mut from: usize = 0;
    loop
        invariant
            from <= events.len(),
            views == event_views(events@),
            span_views(spans@) + headings_from(views, from as int) == headings_from(views, 0),
        decreases events.len() - from,
    {
        let start = match find_mark(events, from, false) {
            Some(start) => start,
            None => {
                assert(span_views(spans@) + Seq::<SpanView>::empty() =~= span_views(spans@));
                return spans;
            },
        };
        let end = match find_mark(events, start + 1, true) {
            Some(end) => end,
            None => {
                assert(span_views(spans@) + Seq::<SpanView>::empty() =~= span_views(spans@));
                return spans;
            },
        };
        proof {
            lemma_next_mark(views, from as int, false);
        }
        assert(views[start as int] == events@[start as int]@);
        let level = match &events[start] {
            MarkdownEvent::HeadingStart(level) => *level,
            _ => 0,
        };
        let text = collect_text(events, start + 1, end);
        let span = HeadingSpan { level, start, end, text };
        assert(next_heading(views, from as int) == Some(span@));
        let ghost before = span_views(spans@);
        spans.push(span);
        assert(span_views(spans@) =~= before.push(span@));
        assert(before + (seq![span@] + headings_from(views, end + 1)) =~= before.push(span@)
            + headings_from(views, end + 1));
        from = end + 1;
    }
}

/// The table of contents of a list of headings: the headings of level 2,
/// in the same order, each with the slug of its text as anchor.
pub fn table_of_contents(spans: &Vec<HeadingSpan>) -> (toc: Vec<TocEntry>)
    ensures
        toc_views(toc@) == toc_of(span_views(spans@)),
{
    let ghost views = span_views(spans@);
    let mut toc: Vec<TocEntry> = Vec::new();
    let mut k: usize = 0;
    while k < spans.len()
        invariant
            k <= spans.len(),
            views == span_views(spans@),
            toc_views(toc@) == toc_of(views.take(k as int)),
        decreases spans.len() - k,
    {
        assert(views.take(k + 1).drop_last() =~= views.take(k as int));
        assert(views.take(k + 1).last() == spans@[k as int]@);
        if spans[k].level == 2 {
            let text = spans[k].text.clone();
            let id = slugify(text.as_str());
            let ghost before = toc_views(toc@);
            let entry = TocEntry { id, text, level: 2 };
            toc.push(entry);
            assert(toc_views(toc@) =~= before.push(entry@));
        }
        k += 1;
    }
    assert(views.take(spans.len() as int) =~= views);
    toc
}

/// The digit that names a heading level in its tag.
fn digit_of(level: u8) -> (digit: char)
    requires
        1 <= level <= 6,
    ensures
        digit == level_digit(level),
{
    if level == 1 {
        '1'
    } else if level == 2 {
        '2'
    } else if level == 3 {
        '3'
    } else if level == 4 {
        '4'
    } else if level == 5 {
        '5'
    } else {
        '6'
    }
}

/// The HTML of the events from `from` up to `to`.
fn render_run(body: &str, from: usize, to: usize) -> (html: String)
    ensures
        html@ == run_html(body@, from as int, to as int),
{
    if from < to {
        render_events(body, from, to)
    } else {
        String::new()
    }
}

/// Writes a heading: its tag with the anchor as `id`, around the HTML of
/// what the heading holds, and a line break after it.
pub fn heading_markup(level: u8, id: &str, inner: &str) -> (html: String)
    requires
        1 <= level <= 6,
    ensures
        html@ == heading_html(level, id@, inner@),
{
    let digit = digit_of(level);
    let mut out: Vec<char> = Vec::new();
    push_text(&mut out, "<h");
    out.push(digit);
    push_text(&mut out, " id=\"");
    push_text(&mut out, id);
    push_text(&mut out, "\">");
    push_text(&mut out, inner);
    push_text(&mut out, "</h");
    out.push(digit);
    push_text(&mut out, ">\n");
    assert(out@ =~= heading_html(level, id@, inner@));
    string_of(&out)
}

/// Each span lies inside the stream and opens at an event that opens a
/// heading of the span's level.
pub open spec fn spans_inside(spans: Seq<SpanView>, events: Seq<EventView>) -> bool {
    forall|k: int|
        0 <= k < spans.len() ==> 0 <= (#[trigger] spans[k]).start < spans[k].end < events.len()
            && events[spans[k].start] == EventView::HeadingStart(spans[k].level)
}

/// The headings of a stream lie inside it.
pub proof fn lemma_headings_inside(events: Seq<EventView>, from: int)
    requires
        0 <= from,
    ensures
        spans_inside(headings_from(events, from), events),
    decreases events.len() - from,
{
    match next_heading(events, from) {
        None => {},
        Some(span) => {
            lemma_next_mark(events, from, false);
            lemma_next_mark(events, span.start + 1, true);
            if from <= span.end < events.len() {
                lemma_headings_inside(events, span.end + 1);
            }
        },
    }
}

/// Renders a Markdown text to HTML and collects its table of contents.
///
/// Every heading is written with an `id` derived from its text; two
/// headings with the same text get the same `id`. The table of contents
/// lists the headings of level 2 in document order. Everything that is not
/// a heading is rendered by `pulldown_cmark` as it stands.
///
/// Each stretch between two headings is rendered by a pass of its own over
/// the text, so the time taken grows with the number of headings times the
/// length of the text.
pub fn render_markdown(body: &str) -> (rendered: (String, Vec<TocEntry>))
    ensures
        rendered.0@ == markdown_html(body@),
        toc_views(rendered.1@) == markdown_toc(body@),
{
    let events = parse_events(body);
    let spans = headings(&events);
    let toc = table_of_contents(&spans);
    let ghost views = span_views(spans@);
    let ghost parsed = parsed_events(body@);
    let ghost count = events.len() as int;
    proof {
        lemma_headings_inside(parsed, 0);
        assert(parsed.len() == events@.len());
    }
    let mut out: Vec<char> = Vec::new();
    let mut from: usize = 0;
    let mut k: usize = 0;
    while k < spans.len()
        invariant
            k <= spans.len(),
            views == span_views(spans@),
            count == events.len(),
            count == parsed.len(),
            spans_inside(views, parsed),
            levels_valid(parsed),
            out@ + html_from(body@, views, k as int, from as int, count) == html_from(
                body@,
                views,
                0,
                0,
                count,
            ),
        decreases spans.len() - k,
    {
        let span = &spans[k];
        assert(views[k as int] == span@);
        let ghost before = out@;
        assert(parsed[span.start as int] is HeadingStart);
        let lead = render_run(body, from, span.start);
        let id = slugify(span.text.as_str());
        let inner = render_run(body, span.start + 1, span.end);
        let heading = heading_markup(span.level, id.as_str(), inner.as_str());
        push_text(&mut out, lead.as_str());
        push_text(&mut out, heading.as_str());
        assert(out@ + html_from(body@, views, k + 1, span.end + 1, count) =~= before + html_from(
            body@,
            views,
            k as int,
            from as int,
            count,
        ));
        from = span.end + 1;
        k += 1;
    }
    let tail = render_run(body, from, events.len());
    push_text(&mut out, tail.as_str());
    (string_of(&out), toc)
}

} // verus!
