//! Output formats of the thumbnail encoder, and the arguments handed to
//! libvips for a thumbnail and for saving it.

use crate::text::{
    ascii_lower, chars_equal, chars_of, concat, decimal, decimal_text, is_ascii_text, to_lowercase,
    unicode_lowercase,
};
use vstd::prelude::*;

verus! {

/// Encoding of a generated thumbnail.
#[derive(Debug, Clone, Copy, PartialEq, Eq, Structural)]
pub enum OutputFormat {
    Webp,
    Jpeg,
    Png,
}

impl Default for OutputFormat {
    fn default() -> (r: Self)
        ensures
            r == OutputFormat::Webp,
    {
        OutputFormat::Webp
    }
}

/// MIME type of a format.
pub open spec fn mime_of(f: OutputFormat) -> Seq<char> {
    match f {
        OutputFormat::Webp => "image/webp"@,
        OutputFormat::Jpeg => "image/jpeg"@,
        OutputFormat::Png => "image/png"@,
    }
}

/// File extension of a format.
pub open spec fn ext_of(f: OutputFormat) -> Seq<char> {
    match f {
        OutputFormat::Webp => "webp"@,
        OutputFormat::Jpeg => "jpg"@,
        OutputFormat::Png => "png"@,
    }
}

/// The format named by an already lowercased extension: `jpeg` and `jpg` are
/// JPEG, `png` is PNG, anything else is WebP.
pub open spec fn format_for_lower_ext(lower: Seq<char>) -> OutputFormat {
    if lower == seq!['j', 'p', 'e', 'g'] || lower == seq!['j', 'p', 'g'] {
        OutputFormat::Jpeg
    } else if lower == seq!['p', 'n', 'g'] {
        OutputFormat::Png
    } else {
        OutputFormat::Webp
    }
}

impl OutputFormat {
    pub fn mime_type(&self) -> (r: &'static str)
        ensures
            r@ == mime_of(*self),
    {
        match self {
            OutputFormat::Webp => "image/webp",
            OutputFormat::Jpeg => "image/jpeg",
            OutputFormat::Png => "image/png",
        }
    }

    pub fn ext(&self) -> (r: &'static str)
        ensures
            r@ == ext_of(*self),
    {
        match self {
            OutputFormat::Webp => "webp",
            OutputFormat::Jpeg => "jpg",
            OutputFormat::Png => "png",
        }
    }

    /// The format named by an extension, in any letter case.
    pub fn from_ext(s: &str) -> (r: Self)
        ensures
            r == format_for_lower_ext(unicode_lowercase(s@)),
            is_ascii_text(s@) ==> r == format_for_lower_ext(ascii_lower(s@)),
    {
        let lower = to_lowercase(s);
        Self::from_lower_ext(lower.as_str())
    }

    /// The format named by an already lowercased extension.
    pub fn from_lower_ext(lower: &str) -> (r: Self)
        ensures
            r == format_for_lower_ext(lower@),
    {
        let v = chars_of(lower);
        if chars_equal(&v, &['j', 'p', 'e', 'g']) || chars_equal(&v, &['j', 'p', 'g']) {
            OutputFormat::Jpeg
        } else if chars_equal(&v, &['p', 'n', 'g']) {
            OutputFormat::Png
        } else {
            OutputFormat::Webp
        }
    }
}

/// Size handed to libvips for a requested dimension: 0 (no constraint) means
/// 32767, anything else is passed as a C `int`.
pub open spec fn vips_size_of(n: u32) -> i32 {
    if n == 0 {
        32767
    } else {
        n as i32
    }
}

/// Size handed to libvips for a requested dimension.
pub fn vips_size(n: u32) -> (r: i32)
    ensures
        r == vips_size_of(n),
{
    if n == 0 {
        32767
    } else {
        n as i32
    }
}

/// Arguments of one libvips thumbnail call: the target width and, when a
/// height was requested, the target height (then only shrinking is allowed).
pub struct VipsThumbnailArgs {
    pub width: i32,
    pub height: Option<i32>,
}

/// The libvips thumbnail arguments for a requested `width` x `height`
/// (`height == 0` keeps the aspect ratio).
pub fn vips_thumbnail_args(width: u32, height: u32) -> (a: VipsThumbnailArgs)
    ensures
        a.width == vips_size_of(width),
        a.height == (if height == 0 { None } else { Some(vips_size_of(height)) }),
{
    let w = vips_size(width);
    if height == 0 {
        VipsThumbnailArgs { width: w, height: None }
    } else {
        VipsThumbnailArgs { width: w, height: Some(vips_size(height)) }
    }
}

/// Save options libvips reads from the suffix of the target file name.
pub open spec fn save_options(f: OutputFormat) -> Seq<char> {
    match f {
        OutputFormat::Webp => "[Q=80,effort=4]"@,
        OutputFormat::Jpeg => "[Q=82]"@,
        OutputFormat::Png => Seq::empty(),
    }
}

/// The name libvips saves an encoded thumbnail to: the temporary file with
/// the format's save options appended.
pub fn encode_target(tmp_path: &str, format: OutputFormat) -> (r: String)
    ensures
        r@ == tmp_path@ + save_options(format),
{
    let base = String::from_str(tmp_path);
    match format {
        OutputFormat::Webp => concat(base, "[Q=80,effort=4]"),
        OutputFormat::Jpeg => concat(base, "[Q=82]"),
        OutputFormat::Png => {
            assert(base@ + save_options(format) =~= base@);
            base
        },
    }
}

/// `{prefix}_{pid}_{nanos}.{ext}`: a temporary file name unique to a process
/// and an instant.
pub open spec fn temp_name_of(prefix: Seq<char>, pid: nat, nanos: nat, ext: Seq<char>) -> Seq<char> {
    prefix + seq!['_'] + decimal_text(pid) + seq!['_'] + decimal_text(nanos) + seq!['.'] + ext
}

/// `{prefix}_{pid}_{nanos}.{ext}`.
pub fn temp_file_name(prefix: &str, pid: u32, nanos: u128, ext: &str) -> (r: String)
    ensures
        r@ == temp_name_of(prefix@, pid as nat, nanos as nat, ext@),
{
    let mut r = String::from_str(prefix);
    r = concat(r, "_");
    let p = decimal(pid as u128);
    r = concat(r, p.as_str());
    r = concat(r, "_");
    let n = decimal(nanos);
    r = concat(r, n.as_str());
    r = concat(r, ".");
    r = concat(r, ext);
    proof {
        reveal_strlit("_");
        reveal_strlit(".");
    }
    r
}

/// Name of the temporary file an encoded thumbnail is written to.
pub fn encode_temp_name(pid: u32, nanos: u128, format: OutputFormat) -> (r: String)
    ensures
        r@ == temp_name_of("tokimo_enc"@, pid as nat, nanos as nat, ext_of(format)),
{
    temp_file_name("tokimo_enc", pid, nanos, format.ext())
}

/// A format's own extension names it again: reading `ext()` back with
/// `from_lower_ext`, or with `from_ext` (the extension is ASCII and already
/// lowercase), gives the same format.
pub proof fn lemma_ext_names_its_format(f: OutputFormat)
    ensures
        format_for_lower_ext(ext_of(f)) == f,
        is_ascii_text(ext_of(f)),
        ascii_lower(ext_of(f)) == ext_of(f),
{
    reveal_strlit("webp");
    reveal_strlit("jpg");
    reveal_strlit("png");
    assert("webp"@ =~= seq!['w', 'e', 'b', 'p']);
    assert("jpg"@ =~= seq!['j', 'p', 'g']);
    assert("png"@ =~= seq!['p', 'n', 'g']);
    assert(ascii_lower(seq!['w', 'e', 'b', 'p']) =~= seq!['w', 'e', 'b', 'p']);
    assert(ascii_lower(seq!['j', 'p', 'g']) =~= seq!['j', 'p', 'g']);
    assert(ascii_lower(seq!['p', 'n', 'g']) =~= seq!['p', 'n', 'g']);
    assert(seq!['w', 'e', 'b', 'p'] != seq!['j', 'p', 'e', 'g']);
    assert(seq!['w', 'e', 'b', 'p'][0] != seq!['j', 'p', 'g'][0]);
    assert(seq!['w', 'e', 'b', 'p'][0] != seq!['p', 'n', 'g'][0]);
    assert(seq!['p', 'n', 'g'][0] != seq!['j', 'p', 'g'][0]);
    assert(seq!['p', 'n', 'g'].len() != seq!['j', 'p', 'e', 'g'].len());
}

} // verus!
