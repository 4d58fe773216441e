//! The error taxonomy of the viewer.

use vstd::prelude::*;

verus! {

/// Every failure a viewer operation can surface.
///
/// `IoError` and `DecodeError` come out of the loading pipeline,
/// `EncodeError` out of re-encoding, `OutOfBounds` from an invalid page or
/// scene index, `NotLoaded` from an operation attempted before a collection
/// exists, and `CollectionError` from an invalid collection handed to the
/// library.
#[derive(Clone, Copy, Debug, PartialEq, Eq, Structural)]
pub enum ViewerError {
    IoError,
    DecodeError,
    EncodeError,
    OutOfBounds,
    NotLoaded,
    CollectionError,
}

/// The descriptive string of each error.
pub open spec fn message_spec(e: ViewerError) -> Seq<char> {
    match e {
        ViewerError::IoError => "failed to read file"@,
        ViewerError::DecodeError => "failed to decode image data"@,
        ViewerError::EncodeError => "failed to encode image"@,
        ViewerError::OutOfBounds => "index out of bounds"@,
        ViewerError::NotLoaded => "no scene loaded"@,
        ViewerError::CollectionError => "invalid scene collection"@,
    }
}

impl ViewerError {
    /// A short description, in place of `Display`.
    pub fn message(&self) -> (r: &'static str)
        ensures
            r@ == message_spec(*self),
            r@.len() > 0,
    {
        proof {
            reveal_strlit("failed to read file");
            reveal_strlit("failed to decode image data");
            reveal_strlit("failed to encode image");
            reveal_strlit("index out of bounds");
            reveal_strlit("no scene loaded");
            reveal_strlit("invalid scene collection");
        }
        match self {
            ViewerError::IoError => "failed to read file",
            ViewerError::DecodeError => "failed to decode image data",
            ViewerError::EncodeError => "failed to encode image",
            ViewerError::OutOfBounds => "index out of bounds",
            ViewerError::NotLoaded => "no scene loaded",
            ViewerError::CollectionError => "invalid scene collection",
        }
    }
}

} // verus!
