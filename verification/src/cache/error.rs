//! Errors of the thumbnail cache pipeline.

use crate::text::concat;
use vstd::prelude::*;

verus! {

#[derive(Debug)]
pub enum ThumbError {
    /// Source image not found (storage key missing, VFS path gone, HTTP 404, …)
    SourceNotFound(String),
    /// Storage read/write failure
    Storage(String),
    /// VFS read failure
    Vfs(String),
    /// HTTP fetch failure
    Http(String),
    /// Image resize / encode failure
    Generate(String),
}

/// The human-readable text of an error.
pub open spec fn thumb_error_text(e: ThumbError) -> Seq<char> {
    match e {
        ThumbError::SourceNotFound(s) => "thumbnail source not found: "@ + s@,
        ThumbError::Storage(s) => "storage error: "@ + s@,
        ThumbError::Vfs(s) => "vfs error: "@ + s@,
        ThumbError::Http(s) => "http fetch error: "@ + s@,
        ThumbError::Generate(s) => "thumbnail generate error: "@ + s@,
    }
}

impl ThumbError {
    /// The human-readable text of the error.
    pub fn message(&self) -> (r: String)
        ensures
            r@ == thumb_error_text(*self),
    {
        match self {
            ThumbError::SourceNotFound(s) => concat(String::from_str("thumbnail source not found: "), s.as_str()),
            ThumbError::Storage(s) => concat(String::from_str("storage error: "), s.as_str()),
            ThumbError::Vfs(s) => concat(String::from_str("vfs error: "), s.as_str()),
            ThumbError::Http(s) => concat(String::from_str("http fetch error: "), s.as_str()),
            ThumbError::Generate(s) => concat(String::from_str("thumbnail generate error: "), s.as_str()),
        }
    }
}

} // verus!
