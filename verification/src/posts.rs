//! Posts and the collections they form.
//!
//! A post is made from the text of one document: its header gives the
//! metadata, its body is rendered to HTML with anchors and a table of
//! contents, and the callouts of the HTML are rewritten. A collection is the
//! posts of one category, newest first.

use vstd::prelude::*;
use crate::callouts::rewrite_callouts;
use crate::callouts::rewritten;
use crate::error::ContentError;
use crate::markdown::markdown_html;
use crate::markdown::markdown_toc;
use crate::markdown::render_markdown;
use crate::markdown::toc_views;
use crate::markdown::TocEntry;
use crate::markdown::TocEntryView;
use crate::metadata::front_matter;
use crate::metadata::header_fields;
use crate::metadata::metadata_from_fields;
use crate::metadata::metadata_of;
use crate::metadata::read_fields;
use crate::metadata::split_front_matter;
use crate::metadata::MetadataView;
use crate::metadata::PostMetadata;
use crate::order::arranged;
use crate::order::newest_first;
use crate::order::sort_newest_first;
use crate::slug::slug_of;
use crate::text::chars_of;
use crate::text::has_at;
use crate::text::matches_at;
use crate::text::push_text;
use crate::text::same_text;
use crate::text::string_of;

verus! {

/// The categories of the site.
#[derive(Clone, Copy, PartialEq, Eq, Hash, Debug)]
pub enum PostType {
    Blog,
    Writing,
    Project,
    Book,
    Notes,
}

/// The segment that stands for a category in an address.
pub open spec fn category_path(kind: PostType) -> Seq<char> {
    match kind {
        PostType::Blog => "blog"@,
        PostType::Writing => "writing"@,
        PostType::Project => "projects"@,
        PostType::Book => "books"@,
        PostType::Notes => "notes"@,
    }
}

/// The directory that holds the documents of a category.
pub open spec fn category_directory(kind: PostType) -> Seq<char> {
    match kind {
        PostType::Blog => "posts/blog"@,
        PostType::Writing => "posts/writing"@,
        PostType::Project => "posts/projects"@,
        PostType::Book => "posts/books"@,
        PostType::Notes => "posts/notes"@,
    }
}

/// The start of every address in a category: `/`, the category's segment,
/// `/`.
pub open spec fn category_prefix(kind: PostType) -> Seq<char> {
    "/"@ + category_path(kind) + "/"@
}

/// The address of a post: `/`, the category's segment, `/`, the slug of the
/// title.
pub open spec fn href_of(kind: PostType, title: Seq<char>) -> Seq<char> {
    category_prefix(kind) + slug_of(title)
}

impl PostType {
    /// The start of every address in the category.
    pub fn prefix(&self) -> (prefix: Vec<char>)
        ensures
            prefix@ == category_prefix(*self),
    {
        let mut prefix: Vec<char> = Vec::new();
        push_text(&mut prefix, "/");
        push_text(&mut prefix, self.path());
        push_text(&mut prefix, "/");
        assert(prefix@ =~= category_prefix(*self));
        prefix
    }

    /// The address of the post with the given metadata in the category.
    pub fn href(&self, metadata: &PostMetadata) -> (href: String)
        ensures
            href@ == href_of(*self, metadata@.title),
    {
        let mut chars = self.prefix();
        let slug = metadata.create_href();
        push_text(&mut chars, slug.as_str());
        string_of(&chars)
    }

    /// The segment that stands for the category in an address.
    pub fn path(&self) -> (segment: &'static str)
        ensures
            segment@ == category_path(*self),
    {
        match self {
            PostType::Blog => "blog",
            PostType::Writing => "writing",
            PostType::Project => "projects",
            PostType::Book => "books",
            PostType::Notes => "notes",
        }
    }

    /// The directory that holds the documents of the category.
    pub fn directory(&self) -> (dir: &'static str)
        ensures
            dir@ == category_directory(*self),
    {
        match self {
            PostType::Blog => "posts/blog",
            PostType::Writing => "posts/writing",
            PostType::Project => "posts/projects",
            PostType::Book => "posts/books",
            PostType::Notes => "posts/notes",
        }
    }
}

/// The name is that of a document: it ends with `.md`, and something
/// stands before that.
pub open spec fn is_document_name(name: Seq<char>) -> bool {
    name.len() > ".md"@.len() && matches_at(name, name.len() - ".md"@.len(), ".md"@)
}

/// Whether a file of the given name is a document of its category. Files
/// with other names are passed over when a category is loaded.
pub fn is_document_file(name: &str) -> (b: bool)
    ensures
        b == is_document_name(name@),
{
    let chars = chars_of(name);
    let ending = chars_of(".md");
    chars.len() > ending.len() && has_at(&chars, chars.len() - ending.len(), &ending)
}

/// One document, ready to be shown.
#[derive(Clone, Debug)]
pub struct Post {
    pub metadata: PostMetadata,
    pub html: String,
    pub toc: Vec<TocEntry>,
}

/// The mathematical value of a [`Post`].
pub ghost struct PostView {
    pub metadata: MetadataView,
    pub html: Seq<char>,
    pub toc: Seq<TocEntryView>,
}

impl View for Post {
    type V = PostView;

    open spec fn view(&self) -> PostView {
        PostView { metadata: self.metadata@, html: self.html@, toc: toc_views(self.toc@) }
    }
}

/// The values of a sequence of posts.
pub open spec fn post_views(posts: Seq<Post>) -> Seq<PostView> {
    posts.map_values(|p: Post| p@)
}

impl Post {
    /// A post of the given parts.
    pub fn new(metadata: PostMetadata, html: String, toc: Vec<TocEntry>) -> (post: Post)
        ensures
            post.metadata == metadata,
            post.html == html,
            post.toc == toc,
    {
        Post { metadata, html, toc }
    }
}

/// The post that a document gives: the metadata of its header, and its
/// body rendered with anchors and with its callouts rewritten. `None` where
/// the header is malformed.
pub open spec fn parsed_post(content: Seq<char>) -> Option<PostView> {
    let (matter, body) = split_front_matter(content);
    match metadata_of(header_fields(matter)) {
        Some(metadata) => Some(
            PostView { metadata, html: rewritten(markdown_html(body)), toc: markdown_toc(body) },
        ),
        None => None,
    }
}

/// Makes a post from the text of a document.
///
/// Fails with `MalformedDocument` where the header is absent, cannot be
/// read or lacks a required field, and never otherwise: whatever the body
/// holds is rendered.
pub fn parse_post_content(content: &str) -> (result: Result<Post, ContentError>)
    ensures
        match result {
            Ok(post) => parsed_post(content@) == Some(post@),
            Err(error) => parsed_post(content@) is None && error == ContentError::MalformedDocument,
        },
{
    let (matter, body) = front_matter(content);
    let metadata = match metadata_from_fields(read_fields(matter.as_str())) {
        Ok(metadata) => metadata,
        Err(error) => {
            return Err(error);
        },
    };
    let (rendered, toc) = render_markdown(body.as_str());
    let html = rewrite_callouts(rendered.as_str());
    Ok(Post::new(metadata, html, toc))
}

/// The day number of a date written `YYYY-MM-DD`, as `chrono` reads it:
/// days of the proleptic Gregorian calendar, counted from 1 January of
/// year 1 as day 1. `None` where the text is no such date.
pub uninterp spec fn date_days(date: Seq<char>) -> Option<i32>;

/// Reads the date with `chrono::NaiveDate::parse_from_str` and the format
/// `%Y-%m-%d`, and numbers the day with `Datelike::num_days_from_ce`. The
/// result is a function of the text; a later date has a greater number.
#[verifier::external_body]
pub(crate) fn parse_date(date: &str) -> (days: Option<i32>)
    ensures
        days == date_days(date@),
{
    match chrono::NaiveDate::parse_from_str(date, "%Y-%m-%d") {
        Ok(day) => Some(chrono::Datelike::num_days_from_ce(&day)),
        Err(_) => None,
    }
}

/// The day numbers of the posts' dates, if every date can be read.
pub open spec fn date_keys(posts: Seq<PostView>) -> Option<Seq<i32>> {
    if forall|i: int| 0 <= i < posts.len() ==> date_days((#[trigger] posts[i]).metadata.date) is Some {
        Some(Seq::new(posts.len(), |i: int| date_days(posts[i].metadata.date)->Some_0))
    } else {
        None
    }
}

/// The posts newest first, posts of one day in the order given; `None`
/// where the date of a post cannot be read.
pub open spec fn newest_posts(posts: Seq<PostView>) -> Option<Seq<PostView>> {
    match date_keys(posts) {
        Some(keys) => Some(arranged(posts, newest_first(keys))),
        None => None,
    }
}

/// Reads the dates of the posts.
fn read_keys(posts: &Vec<Post>) -> (keys: Option<Vec<i32>>)
    ensures
        match keys {
            Some(list) => date_keys(post_views(posts@)) == Some(list@),
            None => date_keys(post_views(posts@)) is None,
        },
{
    let ghost views = post_views(posts@);
    let mut keys: Vec<i32> = Vec::new();
    let mut i: usize = 0;
    while i < posts.len()
        invariant
            i <= posts.len(),
            views == post_views(posts@),
            keys.len() == i,
            forall|j: int| 0 <= j < i ==> date_days((#[trigger] views[j]).metadata.date) == Some(keys@[j]),
        decreases posts.len() - i,
    {
        assert(views[i as int] == posts@[i as int]@);
        match parse_date(posts[i].metadata.date.as_str()) {
            Some(days) => {
                keys.push(days);
            },
            None => {
                assert(date_days(views[i as int].metadata.date) is None);
                return None;
            },
        }
        i += 1;
    }
    assert(date_keys(views)->Some_0 =~= keys@);
    Some(keys)
}

/// Puts the posts of a category in order, the most recent first. Posts of
/// the same day keep the order in which they were given.
///
/// Fails with `InvalidDate` where the date of any post is no calendar date
/// written `YYYY-MM-DD`, and never otherwise.
pub fn sort_posts(posts: Vec<Post>) -> (result: Result<Vec<Post>, ContentError>)
    ensures
        match result {
            Ok(sorted) => newest_posts(post_views(posts@)) == Some(post_views(sorted@)),
            Err(error) => newest_posts(post_views(posts@)) is None && error
                == ContentError::InvalidDate,
        },
{
    let keys = match read_keys(&posts) {
        Some(keys) => keys,
        None => {
            return Err(ContentError::InvalidDate);
        },
    };
    let sorted = sort_newest_first(posts, &keys);
    assert(post_views(sorted@) =~= arranged(post_views(posts@), newest_first(keys@))) by {
        crate::order::lemma_newest_first(keys@, 0);
    }
    Ok(sorted)
}

/// The posts of the documents whose header is well formed, in the order of
/// the documents.
pub open spec fn surviving_posts(contents: Seq<Seq<char>>) -> Seq<PostView>
    decreases contents.len(),
{
    if contents.len() == 0 {
        Seq::empty()
    } else {
        let before = surviving_posts(contents.drop_last());
        match parsed_post(contents.last()) {
            Some(post) => before.push(post),
            None => before,
        }
    }
}

/// A document with a malformed header takes nothing down with it: the
/// posts of a category are the same with the document and without it.
pub proof fn lemma_malformed_ignored(before: Seq<Seq<char>>, bad: Seq<char>, after: Seq<Seq<char>>)
    requires
        parsed_post(bad) is None,
    ensures
        surviving_posts(before + seq![bad] + after) == surviving_posts(before + after),
    decreases after.len(),
{
    if after.len() == 0 {
        assert(before + seq![bad] + after =~= before.push(bad));
        assert(before.push(bad).drop_last() =~= before);
        assert(before + after =~= before);
    } else {
        let with = before + seq![bad] + after;
        let without = before + after;
        assert(with.drop_last() =~= before + seq![bad] + after.drop_last());
        assert(without.drop_last() =~= before + after.drop_last());
        assert(with.last() == after.last());
        assert(without.last() == after.last());
        lemma_malformed_ignored(before, bad, after.drop_last());
    }
}

/// The values of a list of strings.
pub open spec fn content_views(contents: Seq<String>) -> Seq<Seq<char>> {
    contents.map_values(|c: String| c@)
}

/// Makes the collection of a category from the texts of its documents.
///
/// A document with a malformed header is left out; the others still load.
/// The posts come newest first, posts of one day in the order of their
/// documents. Fails with `InvalidDate` where the date of a post that was
/// not left out cannot be read, and never otherwise.
pub fn process_posts(contents: &Vec<String>) -> (result: Result<Vec<Post>, ContentError>)
    ensures
        match result {
            Ok(posts) => newest_posts(surviving_posts(content_views(contents@))) == Some(
                post_views(posts@),
            ),
            Err(error) => newest_posts(surviving_posts(content_views(contents@))) is None && error
                == ContentError::InvalidDate,
        },
{
    let ghost texts = content_views(contents@);
    let mut posts: Vec<Post> = Vec::new();
    let mut i: usize = 0;
    while i < contents.len()
        invariant
            i <= contents.len(),
            texts == content_views(contents@),
            post_views(posts@) == surviving_posts(texts.take(i as int)),
        decreases contents.len() - i,
    {
        assert(texts.take(i + 1).drop_last() =~= texts.take(i as int));
        assert(texts.take(i + 1).last() == contents@[i as int]@);
        match parse_post_content(contents[i].as_str()) {
            Ok(post) => {
                let ghost before = post_views(posts@);
                posts.push(post);
                assert(post_views(posts@) =~= before.push(post@));
            },
            Err(_) => {},
        }
        i += 1;
    }
    assert(texts.take(contents.len() as int) =~= texts);
    sort_posts(posts)
}

/// The indices of the documents whose header is malformed, in rising
/// order.
pub open spec fn dropped_indices(contents: Seq<Seq<char>>) -> Seq<int>
    decreases contents.len(),
{
    if contents.len() == 0 {
        Seq::empty()
    } else {
        let before = dropped_indices(contents.drop_last());
        if parsed_post(contents.last()) is None {
            before.push(contents.len() - 1)
        } else {
            before
        }
    }
}

/// Tells which documents `process_posts` leaves out: the index of every
/// document whose header is malformed, so that the caller can name the
/// files in its log.
pub fn dropped_documents(contents: &Vec<String>) -> (dropped: Vec<usize>)
    ensures
        dropped@.map_values(|i: usize| i as int) == dropped_indices(content_views(contents@)),
{
    let ghost texts = content_views(contents@);
    let mut dropped: Vec<usize> = Vec::new();
    let mut i: usize = 0;
    while i < contents.len()
        invariant
            i <= contents.len(),
            texts == content_views(contents@),
            dropped@.map_values(|i: usize| i as int) == dropped_indices(texts.take(i as int)),
        decreases contents.len() - i,
    {
        assert(texts.take(i + 1).drop_last() =~= texts.take(i as int));
        assert(texts.take(i + 1).last() == contents@[i as int]@);
        match parse_post_content(contents[i].as_str()) {
            Ok(_) => {},
            Err(_) => {
                let ghost before = dropped@.map_values(|i: usize| i as int);
                dropped.push(i);
                assert(dropped@.map_values(|i: usize| i as int) =~= before.push(i as int));
            },
        }
        i += 1;
    }
    assert(texts.take(contents.len() as int) =~= texts);
    dropped
}

/// Index of the first post whose slug is `slug`.
pub open spec fn post_index(posts: Seq<PostView>, slug: Seq<char>, from: int) -> Option<int>
    decreases posts.len() - from,
{
    if from < 0 || from >= posts.len() {
        None
    } else if slug_of(posts[from].metadata.title) == slug {
        Some(from)
    } else {
        post_index(posts, slug, from + 1)
    }
}

/// Looks a post up by its slug. Where several posts have the slug, the
/// first is found.
///
/// Fails with `DocumentNotFound` where no post has the slug.
pub fn find_post<'a>(posts: &'a Vec<Post>, slug: &str) -> (result: Result<&'a Post, ContentError>)
    ensures
        match result {
            Ok(post) => match post_index(post_views(posts@), slug@, 0) {
                Some(i) => 0 <= i < posts.len() && *post == posts@[i],
                None => false,
            },
            Err(error) => post_index(post_views(posts@), slug@, 0) is None && error
                == ContentError::DocumentNotFound,
        },
{
    let ghost views = post_views(posts@);
    let mut i: usize = 0;
    while i < posts.len()
        invariant
            i <= posts.len(),
            views == post_views(posts@),
            post_index(views, slug@, 0) == post_index(views, slug@, i as int),
        decreases posts.len() - i,
    {
        assert(views[i as int] == posts@[i as int]@);
        let href = posts[i].metadata.create_href();
        if same_text(href.as_str(), slug) {
            return Ok(&posts[i]);
        }
        i += 1;
    }
    Err(ContentError::DocumentNotFound)
}

} // verus!
