//! The ways in which loading content can fail.

use vstd::prelude::*;

verus! {

/// Why a document or a category could not be had.
#[derive(Clone, Copy, PartialEq, Eq, Debug)]
pub enum ContentError {
    /// The header of a document is absent, cannot be read, or lacks a
    /// required field. The document is dropped; its category still loads.
    MalformedDocument,
    /// The publication date of a document is no calendar date. The
    /// category cannot be put in order and fails to load.
    InvalidDate,
    /// The directory of a category is missing or cannot be read.
    DirectoryUnavailable,
    /// No document of the category has the slug asked for.
    DocumentNotFound,
}

impl ContentError {
    /// A short description of the error.
    pub fn message(&self) -> (text: &'static str)
        ensures
            text@ == match *self {
                ContentError::MalformedDocument => "malformed document header"@,
                ContentError::InvalidDate => "invalid publication date"@,
                ContentError::DirectoryUnavailable => "content directory unavailable"@,
                ContentError::DocumentNotFound => "document not found"@,
            },
    {
        match self {
            ContentError::MalformedDocument => "malformed document header",
            ContentError::InvalidDate => "invalid publication date",
            ContentError::DirectoryUnavailable => "content directory unavailable",
            ContentError::DocumentNotFound => "document not found",
        }
    }
}

} // verus!
