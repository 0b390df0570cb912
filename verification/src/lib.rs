//! Content pipeline of a small publishing site: front matter, Markdown
//! rendering with heading anchors, callout panels, post collections and the
//! graph that relates posts to each other.

pub mod callouts;
pub mod connectivity;
pub mod error;
pub mod feed;
pub mod focus;
pub mod graph;
pub mod links;
pub mod markdown;
pub mod metadata;
pub mod order;
pub mod posts;
pub mod seo;
pub mod slug;
pub mod text;
