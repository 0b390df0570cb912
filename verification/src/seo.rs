//! What a post tells search engines and link previews, and where its card
//! leads.

use vstd::prelude::*;
use vstd::string::StringExecFns;
use crate::metadata::MetadataView;
use crate::metadata::PostMetadata;
use crate::posts::category_path;
use crate::posts::href_of;
use crate::posts::PostType;
use crate::slug::slug_of;

verus! {

/// The values of the SEO tags of a post.
#[derive(Clone, Debug, PartialEq, Eq)]
pub struct SeoTags {
    pub title: String,
    pub description: String,
    pub image: String,
    pub url: String,
    pub keywords: Option<String>,
}

/// The mathematical value of [`SeoTags`].
pub ghost struct SeoView {
    pub title: Seq<char>,
    pub description: Seq<char>,
    pub image: Seq<char>,
    pub url: Seq<char>,
    pub keywords: Option<Seq<char>>,
}

impl View for SeoTags {
    type V = SeoView;

    open spec fn view(&self) -> SeoView {
        SeoView {
            title: self.title@,
            description: self.description@,
            image: self.image@,
            url: self.url@,
            keywords: match self.keywords {
                Some(words) => Some(words@),
                None => None,
            },
        }
    }
}

/// The SEO tags of a post: each SEO field of the header where it is given,
/// and else what the post's own fields give. The title falls back to the
/// post's title with the author's name, the description to the post's
/// description, the image to the post's image on the site. The address is
/// the canonical one of the post.
pub open spec fn seo_of(metadata: MetadataView, kind: PostType) -> SeoView {
    SeoView {
        title: match metadata.seo_title {
            Some(title) => title,
            None => metadata.title + " | Edoardo D'Errico"@,
        },
        description: match metadata.seo_description {
            Some(description) => description,
            None => metadata.description,
        },
        image: match metadata.seo_image {
            Some(image) => image,
            None => "https://edoardoderrico.com"@ + metadata.image_path,
        },
        url: "https://edoardoderrico.com/"@ + category_path(kind) + "/"@ + slug_of(metadata.title),
        keywords: metadata.seo_keywords,
    }
}

/// The SEO tags of a post of the given category.
pub fn seo_tags(metadata: &PostMetadata, kind: PostType) -> (tags: SeoTags)
    ensures
        tags@ == seo_of(metadata@, kind),
{
    let title = match &metadata.seo_title {
        Some(title) => title.clone(),
        None => metadata.title.clone().concat(" | Edoardo D'Errico"),
    };
    let description = match &metadata.seo_description {
        Some(description) => description.clone(),
        None => metadata.description.clone(),
    };
    let image = match &metadata.seo_image {
        Some(image) => image.clone(),
        None => String::from_str("https://edoardoderrico.com").concat(metadata.image_path.as_str()),
    };
    let slug = metadata.create_href();
    let url = String::from_str("https://edoardoderrico.com/").concat(kind.path()).concat("/").concat(
        slug.as_str(),
    );
    let keywords = match &metadata.seo_keywords {
        Some(words) => Some(words.clone()),
        None => None,
    };
    SeoTags { title, description, image, url, keywords }
}

/// Where the card of a post leads: for projects and notes to the external
/// link of the post, for the other categories to the post itself.
pub open spec fn card_target(metadata: MetadataView, kind: PostType) -> Seq<char> {
    if kind == PostType::Project || kind == PostType::Notes {
        metadata.external_link
    } else {
        href_of(kind, metadata.title)
    }
}

/// Where the card of a post of the given category leads.
pub fn card_href(metadata: &PostMetadata, kind: PostType) -> (href: String)
    ensures
        href@ == card_target(metadata@, kind),
{
    match kind {
        PostType::Project => metadata.external_link.clone(),
        PostType::Notes => metadata.external_link.clone(),
        _ => kind.href(metadata),
    }
}

} // verus!
