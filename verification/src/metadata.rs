//! The header of a document: a YAML block between `---` lines, read into a
//! typed record.
//!
//! Splitting the header from the body and reading YAML are `gray_matter`'s.
//! The library asks for each field by its key, and decides from what it
//! gets whether the header is complete.

use vstd::prelude::*;
use crate::error::ContentError;
use crate::slug::slug_of;
use crate::slug::slugify;

verus! {

/// What the header holds under one key.
#[derive(Clone, Debug, PartialEq, Eq)]
pub enum HeaderField {
    /// The key is absent, or the header is no mapping at all.
    Missing,
    /// The key is there without a value.
    Null,
    /// A string.
    Text(String),
    /// A list; an item that is a string is `Some`, any other item `None`.
    List(Vec<Option<String>>),
    /// A value of any other kind.
    Other,
}

/// The mathematical value of a [`HeaderField`].
pub ghost enum FieldView {
    Missing,
    Null,
    Text(Seq<char>),
    List(Seq<Option<Seq<char>>>),
    Other,
}

/// The value of a list item.
pub open spec fn item_view(item: Option<String>) -> Option<Seq<char>> {
    match item {
        Some(text) => Some(text@),
        None => None,
    }
}

impl View for HeaderField {
    type V = FieldView;

    open spec fn view(&self) -> FieldView {
        match self {
            HeaderField::Missing => FieldView::Missing,
            HeaderField::Null => FieldView::Null,
            HeaderField::Text(text) => FieldView::Text(text@),
            HeaderField::List(items) => FieldView::List(
                items@.map_values(|item: Option<String>| item_view(item)),
            ),
            HeaderField::Other => FieldView::Other,
        }
    }
}

/// The fields of a header that the library knows, as read.
#[derive(Clone, Debug, PartialEq, Eq)]
pub struct HeaderFields {
    pub image_path: HeaderField,
    pub title: HeaderField,
    pub date: HeaderField,
    pub description: HeaderField,
    pub external_link: HeaderField,
    pub seo_title: HeaderField,
    pub seo_description: HeaderField,
    pub seo_image: HeaderField,
    pub seo_keywords: HeaderField,
    pub tags: HeaderField,
}

/// The mathematical value of [`HeaderFields`].
pub ghost struct HeaderFieldsView {
    pub image_path: FieldView,
    pub title: FieldView,
    pub date: FieldView,
    pub description: FieldView,
    pub external_link: FieldView,
    pub seo_title: FieldView,
    pub seo_description: FieldView,
    pub seo_image: FieldView,
    pub seo_keywords: FieldView,
    pub tags: FieldView,
}

impl View for HeaderFields {
    type V = HeaderFieldsView;

    open spec fn view(&self) -> HeaderFieldsView {
        HeaderFieldsView {
            image_path: self.image_path@,
            title: self.title@,
            date: self.date@,
            description: self.description@,
            external_link: self.external_link@,
            seo_title: self.seo_title@,
            seo_description: self.seo_description@,
            seo_image: self.seo_image@,
            seo_keywords: self.seo_keywords@,
            tags: self.tags@,
        }
    }
}

/// The metadata of a post.
#[derive(Clone, Debug, PartialEq, Eq)]
pub struct PostMetadata {
    pub image_path: String,
    pub title: String,
    /// The publication date, written `YYYY-MM-DD`.
    pub date: String,
    pub description: String,
    pub external_link: String,
    pub seo_title: Option<String>,
    pub seo_description: Option<String>,
    pub seo_image: Option<String>,
    pub seo_keywords: Option<String>,
    pub tags: Vec<String>,
}

/// The mathematical value of [`PostMetadata`].
pub ghost struct MetadataView {
    pub image_path: Seq<char>,
    pub title: Seq<char>,
    pub date: Seq<char>,
    pub description: Seq<char>,
    pub external_link: Seq<char>,
    pub seo_title: Option<Seq<char>>,
    pub seo_description: Option<Seq<char>>,
    pub seo_image: Option<Seq<char>>,
    pub seo_keywords: Option<Seq<char>>,
    pub tags: Seq<Seq<char>>,
}

/// The values of a list of strings.
pub open spec fn text_views(texts: Seq<String>) -> Seq<Seq<char>> {
    texts.map_values(|t: String| t@)
}

impl View for PostMetadata {
    type V = MetadataView;

    open spec fn view(&self) -> MetadataView {
        MetadataView {
            image_path: self.image_path@,
            title: self.title@,
            date: self.date@,
            description: self.description@,
            external_link: self.external_link@,
            seo_title: item_view(self.seo_title),
            seo_description: item_view(self.seo_description),
            seo_image: item_view(self.seo_image),
            seo_keywords: item_view(self.seo_keywords),
            tags: text_views(self.tags@),
        }
    }
}

impl PostMetadata {
    /// The slug of the post: the last segment of its address.
    pub fn create_href(&self) -> (href: String)
        ensures
            href@ == slug_of(self.title@),
    {
        slugify(self.title.as_str())
    }
}

/// The raw header and the body of a document, as `gray_matter` splits them
/// with `---` as delimiter. The header is empty where the document has
/// none.
pub uninterp spec fn split_front_matter(content: Seq<char>) -> (Seq<char>, Seq<char>);

/// What a header, read as YAML by `gray_matter`, holds under a key.
pub uninterp spec fn yaml_field(matter: Seq<char>, key: Seq<char>) -> FieldView;

/// Runs `gray_matter::Matter::parse` with the YAML engine and the default
/// delimiter, and hands back the raw header (`matter`) and the body
/// (`content`) of the result. Both are functions of the document.
#[verifier::external_body]
pub(crate) fn front_matter(content: &str) -> (parts: (String, String))
    ensures
        (parts.0@, parts.1@) == split_front_matter(content@),
{
    let parsed = gray_matter::Matter::<gray_matter::engine::YAML>::new().parse(content);
    (parsed.matter, parsed.content)
}

/// Reads the header with `gray_matter`'s YAML engine and looks the key up
/// in the mapping that it gives (`Pod::as_hashmap`). The result is a
/// function of the header and the key.
#[verifier::external_body]
pub(crate) fn read_field(matter: &str, key: &str) -> (field: HeaderField)
    ensures
        field@ == yaml_field(matter@, key@),
{
    let data = <gray_matter::engine::YAML as gray_matter::engine::Engine>::parse(matter);
    match data.as_hashmap().ok().and_then(|mut fields| fields.remove(key)) {
        None => HeaderField::Missing,
        Some(gray_matter::Pod::Null) => HeaderField::Null,
        Some(gray_matter::Pod::String(text)) => HeaderField::Text(text),
        Some(gray_matter::Pod::Array(items)) => HeaderField::List(
            items.into_iter().map(|item| item.as_string().ok()).collect(),
        ),
        Some(_) => HeaderField::Other,
    }
}

/// The fields of a raw header.
pub open spec fn header_fields(matter: Seq<char>) -> HeaderFieldsView {
    HeaderFieldsView {
        image_path: yaml_field(matter, "image_path"@),
        title: yaml_field(matter, "title"@),
        date: yaml_field(matter, "date"@),
        description: yaml_field(matter, "description"@),
        external_link: yaml_field(matter, "external_link"@),
        seo_title: yaml_field(matter, "seo_title"@),
        seo_description: yaml_field(matter, "seo_description"@),
        seo_image: yaml_field(matter, "seo_image"@),
        seo_keywords: yaml_field(matter, "seo_keywords"@),
        tags: yaml_field(matter, "tags"@),
    }
}

/// Reads the known fields of a raw header. Keys that the library does not
/// know are never asked for.
pub(crate) fn read_fields(matter: &str) -> (fields: HeaderFields)
    ensures
        fields@ == header_fields(matter@),
{
    HeaderFields {
        image_path: read_field(matter, "image_path"),
        title: read_field(matter, "title"),
        date: read_field(matter, "date"),
        description: read_field(matter, "description"),
        external_link: read_field(matter, "external_link"),
        seo_title: read_field(matter, "seo_title"),
        seo_description: read_field(matter, "seo_description"),
        seo_image: read_field(matter, "seo_image"),
        seo_keywords: read_field(matter, "seo_keywords"),
        tags: read_field(matter, "tags"),
    }
}

/// A required field: it must hold a string.
pub open spec fn required_text(field: FieldView) -> Option<Seq<char>> {
    match field {
        FieldView::Text(text) => Some(text),
        _ => None,
    }
}

/// An optional field: absent or without a value it is `None`; otherwise it
/// must hold a string.
pub open spec fn optional_text(field: FieldView) -> Option<Option<Seq<char>>> {
    match field {
        FieldView::Missing => Some(None),
        FieldView::Null => Some(None),
        FieldView::Text(text) => Some(Some(text)),
        _ => None,
    }
}

/// The tags: absent or without a value they are empty; otherwise the field
/// must hold a list of strings.
pub open spec fn tag_list(field: FieldView) -> Option<Seq<Seq<char>>> {
    match field {
        FieldView::Missing => Some(Seq::empty()),
        FieldView::Null => Some(Seq::empty()),
        FieldView::List(items) => if forall|i: int| 0 <= i < items.len() ==> (#[trigger] items[i]) is Some {
            Some(items.map_values(|item: Option<Seq<char>>| item->Some_0))
        } else {
            None
        },
        _ => None,
    }
}

/// The metadata that a header gives, if it is complete and every field has
/// the kind of value that it must have.
pub open spec fn metadata_of(fields: HeaderFieldsView) -> Option<MetadataView> {
    if required_text(fields.image_path) is Some && required_text(fields.title) is Some
        && required_text(fields.date) is Some && required_text(fields.description) is Some
        && required_text(fields.external_link) is Some && optional_text(fields.seo_title) is Some
        && optional_text(fields.seo_description) is Some && optional_text(fields.seo_image) is Some
        && optional_text(fields.seo_keywords) is Some && tag_list(fields.tags) is Some {
        Some(
            MetadataView {
                image_path: required_text(fields.image_path)->Some_0,
                title: required_text(fields.title)->Some_0,
                date: required_text(fields.date)->Some_0,
                description: required_text(fields.description)->Some_0,
                external_link: required_text(fields.external_link)->Some_0,
                seo_title: optional_text(fields.seo_title)->Some_0,
                seo_description: optional_text(fields.seo_description)->Some_0,
                seo_image: optional_text(fields.seo_image)->Some_0,
                seo_keywords: optional_text(fields.seo_keywords)->Some_0,
                tags: tag_list(fields.tags)->Some_0,
            },
        )
    } else {
        None
    }
}

/// Takes the string out of a required field.
fn take_required(field: HeaderField) -> (text: Option<String>)
    ensures
        item_view(text) == required_text(field@),
{
    match field {
        HeaderField::Text(text) => Some(text),
        _ => None,
    }
}

/// Takes the string out of an optional field.
fn take_optional(field: HeaderField) -> (text: Option<Option<String>>)
    ensures
        match text {
            Some(inner) => optional_text(field@) == Some(item_view(inner)),
            None => optional_text(field@) is None,
        },
{
    match field {
        HeaderField::Missing => Some(None),
        HeaderField::Null => Some(None),
        HeaderField::Text(text) => Some(Some(text)),
        _ => None,
    }
}

/// The strings of a list, in order, if every item is a string.
fn all_strings(items: Vec<Option<String>>) -> (strings: Option<Vec<String>>)
    ensures
        match strings {
            Some(list) => list.len() == items.len() && forall|i: int|
                0 <= i < items.len() ==> item_view(#[trigger] items@[i]) == Some(list@[i]@),
            None => exists|i: int| 0 <= i < items.len() && (#[trigger] items@[i]) is None,
        },
{
    let ghost given = items@;
    let mut rest = items;
    let mut reversed: Vec<String> = Vec::new();
    let mut complete = true;
    while complete && rest.len() > 0
        invariant
            rest.len() <= given.len(),
            complete ==> reversed.len() == given.len() - rest.len(),
            forall|i: int| 0 <= i < rest.len() ==> #[trigger] rest@[i] == given[i],
            complete ==> forall|i: int|
                0 <= i < reversed.len() ==> item_view(given[given.len() - 1 - i]) == Some(
                    (#[trigger] reversed@[i])@,
                ),
            !complete ==> exists|i: int| 0 <= i < given.len() && (#[trigger] given[i]) is None,
        decreases rest.len(),
    {
        match rest.pop() {
            Some(Some(text)) => {
                reversed.push(text);
            },
            _ => {
                assert(given[rest.len() as int] is None);
                complete = false;
            },
        }
    }
    if !complete {
        return None;
    }
    let mut strings: Vec<String> = Vec::new();
    while reversed.len() > 0
        invariant
            reversed.len() + strings.len() == given.len(),
            forall|i: int|
                0 <= i < reversed.len() ==> item_view(given[given.len() - 1 - i]) == Some(
                    (#[trigger] reversed@[i])@,
                ),
            forall|i: int|
                0 <= i < strings.len() ==> item_view(given[i]) == Some((#[trigger] strings@[i])@),
        decreases reversed.len(),
    {
        match reversed.pop() {
            Some(text) => {
                strings.push(text);
            },
            None => {},
        }
    }
    Some(strings)
}

/// Takes the tags out of their field.
fn take_tags(field: HeaderField) -> (tags: Option<Vec<String>>)
    ensures
        match tags {
            Some(list) => tag_list(field@) == Some(text_views(list@)),
            None => tag_list(field@) is None,
        },
{
    match field {
        HeaderField::Missing => {
            assert(text_views(Seq::<String>::empty()) =~= Seq::<Seq<char>>::empty());
            Some(Vec::new())
        },
        HeaderField::Null => {
            assert(text_views(Seq::<String>::empty()) =~= Seq::<Seq<char>>::empty());
            Some(Vec::new())
        },
        HeaderField::List(items) => {
            let ghost views = items@.map_values(|item: Option<String>| item_view(item));
            match all_strings(items) {
                Some(list) => {
                    assert forall|i: int| 0 <= i < views.len() implies (#[trigger] views[i]) is Some by {
                        assert(item_view(items@[i]) == Some(list@[i]@));
                    }
                    assert(text_views(list@) =~= views.map_values(
                        |item: Option<Seq<char>>| item->Some_0,
                    )) by {
                        assert forall|i: int| 0 <= i < views.len() implies text_views(list@)[i]
                            == views[i]->Some_0 by {
                            assert(item_view(items@[i]) == Some(list@[i]@));
                        }
                    }
                    Some(list)
                },
                None => {
                    let ghost bad = choose|i: int| 0 <= i < items.len() && (#[trigger] items@[i]) is None;
                    assert(views[bad] is None);
                    None
                },
            }
        },
        _ => None,
    }
}

/// Builds the metadata of a post from the fields of its header.
///
/// Image path, title, date, description and external link are required and
/// must be strings. The four SEO fields may be absent. The tags may be
/// absent, and are then empty. A header that does not meet this is
/// malformed.
pub fn metadata_from_fields(fields: HeaderFields) -> (result: Result<PostMetadata, ContentError>)
    ensures
        match result {
            Ok(metadata) => metadata_of(fields@) == Some(metadata@),
            Err(error) => metadata_of(fields@) is None && error == ContentError::MalformedDocument,
        },
{
    let HeaderFields {
        image_path,
        title,
        date,
        description,
        external_link,
        seo_title,
        seo_description,
        seo_image,
        seo_keywords,
        tags,
    } = fields;
    let image_path = match take_required(image_path) {
        Some(text) => text,
        None => {
            return Err(ContentError::MalformedDocument);
        },
    };
    let title = match take_required(title) {
        Some(text) => text,
        None => {
            return Err(ContentError::MalformedDocument);
        },
    };
    let date = match take_required(date) {
        Some(text) => text,
        None => {
            return Err(ContentError::MalformedDocument);
        },
    };
    let description = match take_required(description) {
        Some(text) => text,
        None => {
            return Err(ContentError::MalformedDocument);
        },
    };
    let external_link = match take_required(external_link) {
        Some(text) => text,
        None => {
            return Err(ContentError::MalformedDocument);
        },
    };
    let seo_title = match take_optional(seo_title) {
        Some(text) => text,
        None => {
            return Err(ContentError::MalformedDocument);
        },
    };
    let seo_description = match take_optional(seo_description) {
        Some(text) => text,
        None => {
            return Err(ContentError::MalformedDocument);
        },
    };
    let seo_image = match take_optional(seo_image) {
        Some(text) => text,
        None => {
            return Err(ContentError::MalformedDocument);
        },
    };
    let seo_keywords = match take_optional(seo_keywords) {
        Some(text) => text,
        None => {
            return Err(ContentError::MalformedDocument);
        },
    };
    let tags = match take_tags(tags) {
        Some(list) => list,
        None => {
            return Err(ContentError::MalformedDocument);
        },
    };
    Ok(
        PostMetadata {
            image_path,
            title,
            date,
            description,
            external_link,
            seo_title,
            seo_description,
            seo_image,
            seo_keywords,
            tags,
        },
    )
}

} // verus!
