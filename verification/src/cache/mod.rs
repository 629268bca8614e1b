//! The thumbnail cache pipeline:
//!
//! - look the thumbnail up in the cache storage; a hit is returned at once;
//! - on a miss, fetch the original from its `ThumbOrigin` (storage key, VFS
//!   file, local file or HTTP URL);
//! - resize and encode it;
//! - write it back to the cache storage without waiting, and return it.
//!
//! The I/O is the caller's; this module decides what to do next.

pub mod error;
pub mod origin;
pub mod service;

pub use error::ThumbError;
pub use origin::ThumbOrigin;
pub use service::ThumbnailService;
