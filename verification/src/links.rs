//! Links from one post to another, as they stand in rendered HTML.
//!
//! A link is an attribute `href="/<category>/<slug>"` whose category is one
//! of the site's and whose slug is not empty.

use vstd::prelude::*;
use crate::metadata::text_views;
use crate::posts::category_prefix;
use crate::posts::PostType;
use crate::text::chars_of;
use crate::text::find;
use crate::text::find_from;
use crate::text::has_at;
use crate::text::lemma_find_from;
use crate::text::matches_at;
use crate::text::push_range;
use crate::text::string_of;

verus! {

/// The address lies in the given category and names a post.
pub open spec fn routes_to(target: Seq<char>, kind: PostType) -> bool {
    matches_at(target, 0, category_prefix(kind)) && target.len() > category_prefix(kind).len()
}

/// The address lies in one of the site's categories and names a post.
pub open spec fn is_routable(target: Seq<char>) -> bool {
    routes_to(target, PostType::Blog) || routes_to(target, PostType::Writing) || routes_to(
        target,
        PostType::Project,
    ) || routes_to(target, PostType::Book) || routes_to(target, PostType::Notes)
}

/// The link that starts at index `i`: its address and the index after its
/// closing quote.
pub open spec fn link_at(html: Seq<char>, i: int) -> Option<(Seq<char>, int)> {
    if matches_at(html, i, "href=\""@) {
        let start = i + "href=\""@.len();
        match find_from(html, "\""@, start) {
            Some(q) => {
                let target = html.subrange(start, q);
                if is_routable(target) {
                    Some((target, q + 1))
                } else {
                    None
                }
            },
            None => None,
        }
    } else {
        None
    }
}

/// The addresses of the links from index `i` on, in the order in which
/// they stand.
pub open spec fn links_from(html: Seq<char>, i: int) -> Seq<Seq<char>>
    decreases html.len() - i,
{
    if i < 0 || i >= html.len() {
        Seq::empty()
    } else {
        match link_at(html, i) {
            Some((target, end)) => if i < end <= html.len() {
                seq![target] + links_from(html, end)
            } else {
                links_from(html, i + 1)
            },
            None => links_from(html, i + 1),
        }
    }
}

/// The markup that the scanner looks for, as characters.
pub struct LinkMarkup {
    pub attribute: Vec<char>,
    pub quote: Vec<char>,
    pub blog: Vec<char>,
    pub writing: Vec<char>,
    pub project: Vec<char>,
    pub book: Vec<char>,
    pub notes: Vec<char>,
}

impl LinkMarkup {
    /// Each field holds the piece of markup it is named after.
    pub open spec fn wf(&self) -> bool {
        &&& self.attribute@ == "href=\""@
        &&& self.quote@ == "\""@
        &&& self.blog@ == category_prefix(PostType::Blog)
        &&& self.writing@ == category_prefix(PostType::Writing)
        &&& self.project@ == category_prefix(PostType::Project)
        &&& self.book@ == category_prefix(PostType::Book)
        &&& self.notes@ == category_prefix(PostType::Notes)
    }

    /// The markup of links between posts.
    pub fn new() -> (markup: LinkMarkup)
        ensures
            markup.wf(),
    {
        LinkMarkup {
            attribute: chars_of("href=\""),
            quote: chars_of("\""),
            blog: PostType::Blog.prefix(),
            writing: PostType::Writing.prefix(),
            project: PostType::Project.prefix(),
            book: PostType::Book.prefix(),
            notes: PostType::Notes.prefix(),
        }
    }
}

/// Whether the address starts with the prefix and goes on after it.
fn routes(target: &Vec<char>, prefix: &Vec<char>) -> (b: bool)
    ensures
        b == (matches_at(target@, 0, prefix@) && target@.len() > prefix@.len()),
{
    has_at(target, 0, prefix) && target.len() > prefix.len()
}

/// The link that starts at index `i`, if one does.
fn find_link(html: &Vec<char>, i: usize, markup: &LinkMarkup) -> (found: Option<(Vec<char>, usize)>)
    requires
        markup.wf(),
    ensures
        match found {
            Some((target, end)) => link_at(html@, i as int) == Some((target@, end as int)) && i
                < end <= html.len(),
            None => link_at(html@, i as int) is None,
        },
{
    proof {
        reveal_strlit("href=\"");
        reveal_strlit("\"");
    }
    if !has_at(html, i, &markup.attribute) {
        return None;
    }
    let start = i + markup.attribute.len();
    proof {
        lemma_find_from(html@, "\""@, start as int);
    }
    let q = match find(html, &markup.quote, start) {
        Some(q) => q,
        None => {
            return None;
        },
    };
    let mut target: Vec<char> = Vec::new();
    push_range(&mut target, html, start, q);
    assert(target@ =~= html@.subrange(start as int, q as int));
    if routes(&target, &markup.blog) || routes(&target, &markup.writing) || routes(
        &target,
        &markup.project,
    ) || routes(&target, &markup.book) || routes(&target, &markup.notes) {
        Some((target, q + 1))
    } else {
        None
    }
}

/// The addresses of the links to posts that the HTML holds, in the order in
/// which they stand. An address that stands twice is listed twice.
pub fn extract_links(html: &str) -> (links: Vec<String>)
    ensures
        text_views(links@) == links_from(html@, 0),
{
    let markup = LinkMarkup::new();
    let chars = chars_of(html);
    let mut links: Vec<String> = Vec::new();
    let mut i: usize = 0;
    while i < chars.len()
        invariant
            i <= chars.len(),
            markup.wf(),
            chars@ == html@,
            text_views(links@) + links_from(chars@, i as int) == links_from(chars@, 0),
        decreases chars.len() - i,
    {
        match find_link(&chars, i, &markup) {
            Some((target, end)) => {
                let ghost before = text_views(links@);
                let link = string_of(&target);
                links.push(link);
                assert(text_views(links@) =~= before.push(target@));
                assert(before.push(target@) + links_from(chars@, end as int) =~= before + (
                seq![target@] + links_from(chars@, end as int)));
                i = end;
            },
            None => {
                i += 1;
            },
        }
    }
    assert(text_views(links@) + Seq::<Seq<char>>::empty() =~= text_views(links@));
    links
}

} // verus!
