//! Where the original image bytes come from.

use vstd::prelude::*;

verus! {

/// Where the original image bytes come from.
///
/// The caller resolves the entity to a `ThumbOrigin` before asking for a
/// thumbnail. `R` is the handle of the byte reader of a VFS mount.
pub enum ThumbOrigin<R> {
    /// Original is already in the thumbnail storage; `key` is its storage key
    /// (e.g. `library-images/movies/{id}/poster.jpg`).
    Storage { key: String },
    /// Original lives in a VFS mount (local disk, SFTP, SMB, …), read through
    /// the pre-resolved `reader`.
    Vfs { reader: R, path: String },
    /// Original is a file on the local filesystem (absolute path).
    LocalFile { abs_path: String },
    /// Original is at an external HTTP(S) URL. The raw bytes are cached in
    /// storage at `ext-cache/{sha256(url)}.{ext}` on first fetch.
    Http { url: String, ext: String },
}

} // verus!
