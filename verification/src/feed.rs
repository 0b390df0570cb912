//! The RSS feed of the site: one item for each post.

use vstd::prelude::*;
use vstd::string::StringExecFns;
use crate::error::ContentError;
use crate::graph::collection_views;
use crate::graph::CollectionView;
use crate::graph::PostCollection;
use crate::metadata::item_view;
use crate::metadata::MetadataView;
use crate::metadata::PostMetadata;
use crate::posts::category_path;
use crate::posts::date_days;
use crate::posts::parse_date;
use crate::posts::post_views;
use crate::posts::PostType;
use crate::slug::slug_of;

verus! {

/// The publication date of a feed item for the day with the given number,
/// as `chrono` writes it: day of the week, day, month and year, and a fixed
/// time of day. `None` where no date that `chrono` can hold has the number.
pub uninterp spec fn feed_date(days: i32) -> Option<Seq<char>>;

/// Makes the date with `chrono::NaiveDate::from_num_days_from_ce_opt` and
/// writes it with `NaiveDate::format` and the format
/// `%a, %d %b %Y 16:00:10 GMT`. The result is a function of the number.
#[verifier::external_body]
fn format_feed_date(days: i32) -> (text: Option<String>)
    ensures
        item_view(text) == feed_date(days),
{
    match chrono::NaiveDate::from_num_days_from_ce_opt(days) {
        Some(day) => Some(day.format("%a, %d %b %Y 16:00:10 GMT").to_string()),
        None => None,
    }
}

/// What opens the feed.
pub open spec fn feed_head() -> Seq<char> {
    "<?xml version=\"1.0\" encoding=\"utf-8\"?>\n<rss version=\"2.0\" xmlns:atom=\"http://www.w3.org/2005/Atom\">\n<channel><title>Itehax</title>\n<link>https://itehax.com</link>\n<description>Itehax website, coding, hacking, reading and much more.</description>\n<language>en-us</language>\n<atom:link href=\"https://itehax.com/rss.xml\" rel=\"self\" type=\"application/rss+xml\"/>"@
}

/// What closes the feed.
pub open spec fn feed_tail() -> Seq<char> {
    "</channel></rss>"@
}

/// An item of the feed: title, link, description, language, publication
/// date, and the slug as identifier. The link leads to the slug in the
/// category with the given segment.
pub open spec fn item_xml(
    title: Seq<char>,
    segment: Seq<char>,
    slug: Seq<char>,
    description: Seq<char>,
    date: Seq<char>,
) -> Seq<char> {
    "<item><title>"@ + title + "</title><link>https://itehax.com/"@ + segment + "/"@ + slug
        + "</link><description>"@ + description
        + "</description><language>en-us</language><pubDate>"@ + date
        + "</pubDate><guid isPermaLink=\"false\">"@ + slug + "</guid></item>"@
}

/// The item of a post; `None` where its date cannot be read or written.
pub open spec fn item_of(metadata: MetadataView, kind: PostType) -> Option<Seq<char>> {
    match date_days(metadata.date) {
        Some(days) => match feed_date(days) {
            Some(date) => Some(
                item_xml(
                    metadata.title,
                    category_path(kind),
                    slug_of(metadata.title),
                    metadata.description,
                    date,
                ),
            ),
            None => None,
        },
        None => None,
    }
}

/// The items of the first `k` posts of a collection, one after the other;
/// `None` where the date of one of them cannot be read.
pub open spec fn collection_items(collection: CollectionView, k: int) -> Option<Seq<char>>
    decreases k,
{
    if k <= 0 || k > collection.posts.len() {
        Some(Seq::empty())
    } else {
        match (
            collection_items(collection, k - 1),
            item_of(collection.posts[k - 1].metadata, collection.kind),
        ) {
            (Some(before), Some(item)) => Some(before + item),
            _ => None,
        }
    }
}

/// The items of the collections, one after the other; `None` where the
/// date of a post cannot be read.
pub open spec fn feed_items(collections: Seq<CollectionView>) -> Option<Seq<char>>
    decreases collections.len(),
{
    if collections.len() == 0 {
        Some(Seq::empty())
    } else {
        match (
            feed_items(collections.drop_last()),
            collection_items(collections.last(), collections.last().posts.len() as int),
        ) {
            (Some(before), Some(items)) => Some(before + items),
            _ => None,
        }
    }
}

/// The feed of the collections; `None` where the date of a post cannot be
/// read.
pub open spec fn feed_xml(collections: Seq<CollectionView>) -> Option<Seq<char>> {
    match feed_items(collections) {
        Some(items) => Some(feed_head() + items + feed_tail()),
        None => None,
    }
}

/// Writes one item of the feed.
pub fn write_item(title: &str, segment: &str, slug: &str, description: &str, date: &str) -> (item: String)
    ensures
        item@ == item_xml(title@, segment@, slug@, description@, date@),
{
    String::from_str("<item><title>").concat(title).concat("</title><link>https://itehax.com/").concat(
        segment,
    ).concat("/").concat(slug).concat("</link><description>").concat(description).concat(
        "</description><language>en-us</language><pubDate>",
    ).concat(date).concat("</pubDate><guid isPermaLink=\"false\">").concat(slug).concat(
        "</guid></item>",
    )
}

/// The feed item of a post of the given category.
///
/// Fails with `InvalidDate` where the date of the post is no calendar date
/// written `YYYY-MM-DD`, and never otherwise.
pub fn feed_item(metadata: &PostMetadata, kind: PostType) -> (result: Result<String, ContentError>)
    ensures
        match result {
            Ok(item) => item_of(metadata@, kind) == Some(item@),
            Err(error) => item_of(metadata@, kind) is None && error == ContentError::InvalidDate,
        },
{
    let days = match parse_date(metadata.date.as_str()) {
        Some(days) => days,
        None => {
            return Err(ContentError::InvalidDate);
        },
    };
    let date = match format_feed_date(days) {
        Some(date) => date,
        None => {
            return Err(ContentError::InvalidDate);
        },
    };
    let slug = metadata.create_href();
    let item = write_item(
        metadata.title.as_str(),
        kind.path(),
        slug.as_str(),
        metadata.description.as_str(),
        date.as_str(),
    );
    Ok(item)
}

/// Writes the RSS feed of the given collections: the channel, then one
/// item for each post, collection after collection.
///
/// Fails with `InvalidDate` where the date of any post is no calendar date
/// written `YYYY-MM-DD`, and never otherwise.
pub fn build_rss_xml(collections: &Vec<PostCollection>) -> (result: Result<String, ContentError>)
    ensures
        match result {
            Ok(xml) => feed_xml(collection_views(collections@)) == Some(xml@),
            Err(error) => feed_xml(collection_views(collections@)) is None && error
                == ContentError::InvalidDate,
        },
{
    let ghost views = collection_views(collections@);
    let mut items = String::new();
    let mut c: usize = 0;
    while c < collections.len()
        invariant
            c <= collections.len(),
            views == collection_views(collections@),
            feed_items(views.take(c as int)) == Some(items@),
        decreases collections.len() - c,
    {
        assert(views.take(c + 1).drop_last() =~= views.take(c as int));
        assert(views.take(c + 1).last() == collections@[c as int]@);
        let collection = &collections[c];
        let ghost base = items@;
        let ghost posts = post_views(collection.posts@);
        let mut k: usize = 0;
        assert(base + Seq::<char>::empty() =~= base);
        while k < collection.posts.len()
            invariant
                k <= collection.posts.len(),
                c < collections.len(),
                views == collection_views(collections@),
                collection@ == views[c as int],
                feed_items(views.take(c as int)) == Some(base),
                posts == post_views(collection.posts@),
                match collection_items(collection@, k as int) {
                    Some(so_far) => items@ == base + so_far,
                    None => false,
                },
            decreases collection.posts.len() - k,
        {
            let post = &collection.posts[k];
            assert(posts[k as int] == post@);
            let ghost so_far = collection_items(collection@, k as int)->Some_0;
            match feed_item(&post.metadata, collection.kind) {
                Ok(item) => {
                    items.append(item.as_str());
                    assert(items@ =~= base + (so_far + item@));
                },
                Err(error) => {
                    proof {
                        lemma_items_fail(collection@, k as int + 1, collection.posts.len() as int);
                        lemma_feed_fails(views, c as int + 1, collections.len() as int);
                        assert(views.take(collections.len() as int) =~= views);
                    }
                    return Err(error);
                },
            }
            k += 1;
        }
        c += 1;
    }
    assert(views.take(collections.len() as int) =~= views);
    let xml = String::from_str(
        "<?xml version=\"1.0\" encoding=\"utf-8\"?>\n<rss version=\"2.0\" xmlns:atom=\"http://www.w3.org/2005/Atom\">\n<channel><title>Itehax</title>\n<link>https://itehax.com</link>\n<description>Itehax website, coding, hacking, reading and much more.</description>\n<language>en-us</language>\n<atom:link href=\"https://itehax.com/rss.xml\" rel=\"self\" type=\"application/rss+xml\"/>",
    ).concat(items.as_str()).concat("</channel></rss>");
    Ok(xml)
}

/// Once the items of a collection cannot be written up to some post, they
/// cannot be written up to any later one.
proof fn lemma_items_fail(collection: CollectionView, k: int, n: int)
    requires
        0 < k <= n <= collection.posts.len(),
        collection_items(collection, k) is None,
    ensures
        collection_items(collection, n) is None,
    decreases n - k,
{
    if k < n {
        lemma_items_fail(collection, k, n - 1);
    }
}

/// Once the items of the first collections cannot be written, the feed
/// cannot.
proof fn lemma_feed_fails(collections: Seq<CollectionView>, c: int, n: int)
    requires
        0 < c <= n <= collections.len(),
        feed_items(collections.take(c)) is None,
    ensures
        feed_items(collections.take(n)) is None,
    decreases n - c,
{
    if c < n {
        lemma_feed_fails(collections, c, n - 1);
        assert(collections.take(n).drop_last() =~= collections.take(n - 1));
    }
}

} // verus!
