//! Decisions of the resize pipeline: which decoder an extension calls for,
//! how an extension is cleaned for matching and for temporary files, and the
//! argument lists handed to ffmpeg.

use crate::text::{
    ascii_lower, chars_equal, chars_of, concat, decimal, decimal_text, is_ascii_text, push_char,
    to_lowercase,
};
use crate::raw_preview::{extract_raw_preview, is_raw_with_preview, raw_extensions, raw_preview};
use crate::text::unicode_lowercase;
use crate::vips::{temp_file_name, temp_name_of, OutputFormat};
use vstd::prelude::*;

verus! {

/// An ASCII letter or digit.
pub open spec fn is_ascii_alnum(c: char) -> bool {
    ('0' <= c <= '9') || ('a' <= c <= 'z') || ('A' <= c <= 'Z')
}

/// The ASCII letters and digits of `s`, in order.
pub open spec fn alnum_only(s: Seq<char>) -> Seq<char>
    decreases s.len(),
{
    if s.len() == 0 {
        s
    } else if is_ascii_alnum(s.last()) {
        alnum_only(s.drop_last()).push(s.last())
    } else {
        alnum_only(s.drop_last())
    }
}

/// The form of an extension used for matching: its ASCII letters and digits,
/// lowercased. (Quotes, backslashes, back-ticks, dots and white space around
/// it are dropped along with every other non-alphanumeric character.)
pub open spec fn match_form(ext: Seq<char>) -> Seq<char> {
    ascii_lower(alnum_only(ext))
}

/// The form of an extension used for a temporary file: its ASCII letters and
/// digits, or `bin` when it has none.
pub open spec fn temp_form(ext: Seq<char>) -> Seq<char> {
    if alnum_only(ext).len() == 0 {
        "bin"@
    } else {
        alnum_only(ext)
    }
}

proof fn lemma_alnum_only_ascii(s: Seq<char>)
    ensures
        is_ascii_text(alnum_only(s)),
    decreases s.len(),
{
    if s.len() > 0 {
        lemma_alnum_only_ascii(s.drop_last());
    }
}

/// The ASCII letters and digits of `ext`.
fn alnum_chars(ext: &str) -> (r: String)
    ensures
        r@ == alnum_only(ext@),
{
    let v = chars_of(ext);
    let mut r = String::new();
    let mut i: usize = 0;
    while i < v.len()
        invariant
            i <= v@.len(),
            v@ == ext@,
            r@ == alnum_only(v@.take(i as int)),
        decreases v@.len() - i,
    {
        let c = v[i];
        assert(v@.take(i + 1).drop_last() =~= v@.take(i as int));
        if ('0' <= c && c <= '9') || ('a' <= c && c <= 'z') || ('A' <= c && c <= 'Z') {
            push_char(&mut r, c);
        }
        i = i + 1;
    }
    assert(v@.take(v@.len() as int) =~= v@);
    r
}

/// Normalise an extension for matching: keep its ASCII letters and digits,
/// lowercased.
pub fn ext_for_match(ext: &str) -> (r: String)
    ensures
        r@ == match_form(ext@),
{
    let cleaned = alnum_chars(ext);
    proof {
        lemma_alnum_only_ascii(ext@);
    }
    to_lowercase(cleaned.as_str())
}

/// Normalise an extension for a temporary file name: its ASCII letters and
/// digits, or `bin` when there are none.
pub fn ext_for_temp_path(ext: &str) -> (r: String)
    ensures
        r@ == temp_form(ext@),
{
    let cleaned = alnum_chars(ext);
    if cleaned.as_str().is_empty() {
        String::from_str("bin")
    } else {
        cleaned
    }
}

pub open spec fn heic_forms() -> Seq<Seq<char>> {
    seq![seq!['h', 'e', 'i', 'c'], seq!['h', 'e', 'i', 'f']]
}

/// Extensions whose images only ffmpeg decodes.
pub open spec fn ffmpeg_forms() -> Seq<Seq<char>> {
    seq![seq!['h', 'e', 'i', 'c'], seq!['h', 'e', 'i', 'f'], seq!['a', 'v', 'i', 'f']]
}

/// Whether an extension names HEIC/HEIF.
pub fn is_heic_ext(ext: &str) -> (r: bool)
    ensures
        r == heic_forms().contains(match_form(ext@)),
{
    let m = ext_for_match(ext);
    let v = chars_of(m.as_str());
    let r = chars_equal(&v, &['h', 'e', 'i', 'c']) || chars_equal(&v, &['h', 'e', 'i', 'f']);
    proof {
        let f = heic_forms();
        if f.contains(v@) {
            let k = choose|k: int| 0 <= k < f.len() && f[k] == v@;
            if k == 0 {
                assert(v@ =~= seq!['h', 'e', 'i', 'c']);
            } else {
                assert(v@ =~= seq!['h', 'e', 'i', 'f']);
            }
        }
        if r {
            if v@ == seq!['h', 'e', 'i', 'c'] {
                assert(f[0] == v@);
            } else {
                assert(f[1] == v@);
            }
        }
    }
    r
}

/// Whether an extension names a format that only ffmpeg decodes (HEIC, HEIF,
/// AVIF).
pub fn needs_ffmpeg_fallback(ext: &str) -> (r: bool)
    ensures
        r == ffmpeg_forms().contains(match_form(ext@)),
{
    let m = ext_for_match(ext);
    let v = chars_of(m.as_str());
    let r = chars_equal(&v, &['h', 'e', 'i', 'c']) || chars_equal(&v, &['h', 'e', 'i', 'f'])
        || chars_equal(&v, &['a', 'v', 'i', 'f']);
    proof {
        let f = ffmpeg_forms();
        if f.contains(v@) {
            let k = choose|k: int| 0 <= k < f.len() && f[k] == v@;
            if k == 0 {
                assert(v@ =~= seq!['h', 'e', 'i', 'c']);
            } else if k == 1 {
                assert(v@ =~= seq!['h', 'e', 'i', 'f']);
            } else {
                assert(v@ =~= seq!['a', 'v', 'i', 'f']);
            }
        }
        if r {
            if v@ == seq!['h', 'e', 'i', 'c'] {
                assert(f[0] == v@);
            } else if v@ == seq!['h', 'e', 'i', 'f'] {
                assert(f[1] == v@);
            } else {
                assert(f[2] == v@);
            }
        }
    }
    r
}

/// What `Path::extension` yields for a path, as text.
pub uninterp spec fn path_extension_of(path: Seq<char>) -> Option<Seq<char>>;

/// The extension of a path as text, empty when it has none.
pub open spec fn path_ext(path: Seq<char>) -> Seq<char> {
    match path_extension_of(path) {
        Some(e) => e,
        None => Seq::empty(),
    }
}

/// The extension of a path (`std::path::Path::extension`), as text. The
/// result is named by [`path_extension_of`]; the contract also states the
/// documented case that a path without any `.` has no extension.
#[verifier::external_body]
fn path_extension_text(path: &str) -> (r: Option<String>)
    ensures
        opt_chars(r) == path_extension_of(path@),
        !path@.contains('.') ==> r is None,
{
    std::path::Path::new(path).extension().map(|e| e.to_string_lossy().into_owned())
}

/// The text of an optional string.
pub open spec fn opt_chars(o: Option<String>) -> Option<Seq<char>> {
    match o {
        Some(s) => Some(s@),
        None => None,
    }
}

/// The extension of a path, or the empty text when it has none.
pub fn path_extension(path: &str) -> (r: String)
    ensures
        r@ == path_ext(path@),
        !path@.contains('.') ==> r@ == Seq::<char>::empty(),
{
    match path_extension_text(path) {
        Some(e) => e,
        None => String::new(),
    }
}

/// Whether a path's extension names HEIC/HEIF.
pub fn is_heic_path(path: &str) -> (r: bool)
    ensures
        r == heic_forms().contains(match_form(path_ext(path@))),
{
    let ext = path_extension(path);
    is_heic_ext(ext.as_str())
}

/// Quality setting handed to the ffmpeg image encoder for a format.
pub open spec fn ffi_quality_of(f: OutputFormat) -> u8 {
    match f {
        OutputFormat::Webp => 80,
        OutputFormat::Jpeg => 3,
        OutputFormat::Png => 0,
    }
}

/// Quality setting handed to the ffmpeg image encoder for a format.
pub fn ffmpeg_ffi_quality(format: OutputFormat) -> (q: u8)
    ensures
        q == ffi_quality_of(format),
{
    match format {
        OutputFormat::Webp => 80,
        OutputFormat::Jpeg => 3,
        OutputFormat::Png => 0,
    }
}

/// Target width handed to the ffmpeg image decoder: none for 0.
pub fn ffmpeg_ffi_width(width: u32) -> (r: Option<u32>)
    ensures
        r == (if width > 0 { Some(width) } else { None }),
{
    if width > 0 {
        Some(width)
    } else {
        None
    }
}

/// File-name hint given to the ffmpeg decoder for in-memory bytes:
/// `input.{ext}` with the extension cleaned as for a temporary file.
pub fn ffmpeg_filename_hint(ext: &str) -> (r: String)
    ensures
        r@ == "input."@ + temp_form(ext@),
{
    let e = ext_for_temp_path(ext);
    concat(String::from_str("input."), e.as_str())
}

/// Name of a temporary file for in-memory bytes that are handed to a file
/// decoder: `{prefix}_{pid}_{nanos}.{ext}` with the extension cleaned.
pub fn bytes_temp_name(prefix: &str, pid: u32, nanos: u128, ext: &str) -> (r: String)
    ensures
        r@ == temp_name_of(prefix@, pid as nat, nanos as nat, temp_form(ext@)),
{
    let e = ext_for_temp_path(ext);
    temp_file_name(prefix, pid, nanos, e.as_str())
}

/// The texts of a list of strings.
pub open spec fn texts(v: Seq<String>) -> Seq<Seq<char>> {
    v.map_values(|s: String| s@)
}

/// The ffmpeg `scale` filter for a requested size (a 0 side keeps the aspect
/// ratio; both 0 means no scaling).
pub open spec fn scale_filter(width: u32, height: u32) -> Option<Seq<char>> {
    if width == 0 && height == 0 {
        None
    } else if width == 0 {
        Some("scale=-1:"@ + decimal_text(height as nat))
    } else if height == 0 {
        Some("scale="@ + decimal_text(width as nat) + ":-1"@)
    } else {
        Some("scale="@ + decimal_text(width as nat) + ":"@ + decimal_text(height as nat))
    }
}

/// Encoder arguments for a format.
pub open spec fn codec_args(f: OutputFormat) -> Seq<Seq<char>> {
    match f {
        OutputFormat::Webp => seq!["-vcodec"@, "libwebp"@, "-quality"@, "80"@],
        OutputFormat::Jpeg => seq!["-vcodec"@, "mjpeg"@, "-q:v"@, "3"@],
        OutputFormat::Png => seq!["-vcodec"@, "png"@],
    }
}

/// The ffmpeg command-line arguments that decode `source`, scale it and
/// write one encoded image to standard output. A HEIC/HEIF source (`heic`)
/// is read through its first tile grid.
pub open spec fn ffmpeg_args_of(source: Seq<char>, heic: bool, width: u32, height: u32, f: OutputFormat) -> Seq<
    Seq<char>,
> {
    let scale = scale_filter(width, height);
    let head = seq!["-hide_banner"@, "-loglevel"@, "error"@, "-y"@, "-i"@, source];
    let middle = if heic {
        let sc = match scale {
            Some(x) => x,
            None => "scale=-1:-1"@,
        };
        seq!["-filter_complex"@, "[0:g:0]"@ + sc + "[out]"@, "-map"@, "[out]"@]
    } else {
        seq!["-frames:v"@, "1"@] + match scale {
            Some(x) => seq!["-vf"@, x],
            None => Seq::empty(),
        }
    };
    head + middle + codec_args(f) + seq!["-f"@, "image2pipe"@, "pipe:1"@]
}

fn lit(s: &str) -> (r: String)
    ensures
        r@ == s@,
{
    String::from_str(s)
}

/// The ffmpeg `scale` filter for a requested size.
pub fn ffmpeg_scale_filter(width: u32, height: u32) -> (r: Option<String>)
    ensures
        match scale_filter(width, height) {
            Some(x) => r matches Some(s) && s@ == x,
            None => r is None,
        },
{
    if width == 0 && height == 0 {
        None
    } else if width == 0 {
        let h = decimal(height as u128);
        Some(concat(lit("scale=-1:"), h.as_str()))
    } else if height == 0 {
        let w = decimal(width as u128);
        Some(concat(concat(lit("scale="), w.as_str()), ":-1"))
    } else {
        let w = decimal(width as u128);
        let h = decimal(height as u128);
        Some(concat(concat(concat(lit("scale="), w.as_str()), ":"), h.as_str()))
    }
}

/// The ffmpeg command-line arguments that decode `source_path`, scale it to
/// `width` x `height` and write one image in `format` to standard output.
pub fn ffmpeg_cli_args(source_path: &str, width: u32, height: u32, format: OutputFormat) -> (v: Vec<
    String,
>)
    ensures
        texts(v@) == ffmpeg_args_of(
            source_path@,
            heic_forms().contains(match_form(path_ext(source_path@))),
            width,
            height,
            format,
        ),
{
    let heic = is_heic_path(source_path);
    let scale = ffmpeg_scale_filter(width, height);
    let mut v: Vec<String> = Vec::new();
    v.push(lit("-hide_banner"));
    v.push(lit("-loglevel"));
    v.push(lit("error"));
    v.push(lit("-y"));
    v.push(lit("-i"));
    v.push(lit(source_path));
    if heic {
        let sc = match scale {
            Some(x) => x,
            None => lit("scale=-1:-1"),
        };
        let filter = concat(concat(lit("[0:g:0]"), sc.as_str()), "[out]");
        v.push(lit("-filter_complex"));
        v.push(filter);
        v.push(lit("-map"));
        v.push(lit("[out]"));
    } else {
        v.push(lit("-frames:v"));
        v.push(lit("1"));
        match scale {
            Some(x) => {
                v.push(lit("-vf"));
                v.push(x);
            },
            None => {},
        }
    }
    match format {
        OutputFormat::Webp => {
            v.push(lit("-vcodec"));
            v.push(lit("libwebp"));
            v.push(lit("-quality"));
            v.push(lit("80"));
        },
        OutputFormat::Jpeg => {
            v.push(lit("-vcodec"));
            v.push(lit("mjpeg"));
            v.push(lit("-q:v"));
            v.push(lit("3"));
        },
        OutputFormat::Png => {
            v.push(lit("-vcodec"));
            v.push(lit("png"));
        },
    }
    v.push(lit("-f"));
    v.push(lit("image2pipe"));
    v.push(lit("pipe:1"));
    proof {
        let expected = ffmpeg_args_of(
            source_path@,
            heic_forms().contains(match_form(path_ext(source_path@))),
            width,
            height,
            format,
        );
        assert(texts(v@) =~= expected);
    }
    v
}

/// Which decoders a source calls for, judged by its extension.
pub struct SourceDecoders {
    /// HEIC/HEIF: decoded by ffmpeg first.
    pub heic: bool,
    /// A TIFF-based RAW format whose embedded JPEG preview is used.
    pub raw_preview: bool,
    /// A format that only ffmpeg decodes, tried when libvips fails.
    pub ffmpeg_fallback: bool,
}

/// Which decoders a source with extension `ext` calls for.
pub fn classify_extension(ext: &str) -> (d: SourceDecoders)
    ensures
        d.heic == heic_forms().contains(match_form(ext@)),
        d.raw_preview == raw_extensions().contains(unicode_lowercase(ext@)),
        is_ascii_text(ext@) ==> d.raw_preview == raw_extensions().contains(ascii_lower(ext@)),
        d.ffmpeg_fallback == ffmpeg_forms().contains(match_form(ext@)),
{
    SourceDecoders {
        heic: is_heic_ext(ext),
        raw_preview: is_raw_with_preview(ext),
        ffmpeg_fallback: needs_ffmpeg_fallback(ext),
    }
}

/// Which decoders the file at `path` calls for, judged by its extension.
pub fn classify_source(path: &str) -> (d: SourceDecoders)
    ensures
        d.heic == heic_forms().contains(match_form(path_ext(path@))),
        d.raw_preview == raw_extensions().contains(unicode_lowercase(path_ext(path@))),
        d.ffmpeg_fallback == ffmpeg_forms().contains(match_form(path_ext(path@))),
{
    let ext = path_extension(path);
    classify_extension(ext.as_str())
}

// ── the resize pipelines ─────────────────────────────────────────────────────

/// How a resize ends.
pub enum ResizeOutcome<E> {
    /// The encoded thumbnail.
    Encoded(Vec<u8>),
    /// An error of the `image` crate, or of writing a temporary file.
    Failed(E),
    /// The error text of the ffmpeg binary.
    External(String),
}

/// Where a resize of a source file stands.
pub enum FileResizePhase {
    Start,
    /// The ffmpeg library is decoding the source.
    AwaitingLibrary,
    /// The ffmpeg binary is decoding the source.
    AwaitingFfmpeg,
    /// The source file is being read for its embedded preview.
    AwaitingSource,
    /// libvips is resizing the embedded JPEG preview held here.
    AwaitingPreviewVips(Vec<u8>),
    /// The `image` crate is decoding the embedded JPEG preview.
    AwaitingPreviewDecode,
    /// libvips is resizing the source file.
    AwaitingVipsFile,
    /// The `image` crate is decoding the source file.
    AwaitingDecodeFile,
    Finished,
}

/// What happened since the last step of a source-file resize.
pub enum FileResizeEvent<E> {
    Begin,
    /// What the ffmpeg library, libvips or the ffmpeg binary produced, or
    /// its error text.
    Encoded(Result<Vec<u8>, String>),
    /// The bytes of the source file, or `None` when it could not be read.
    SourceRead(Option<Vec<u8>>),
    /// What the `image` crate made of the preview: `None` when it could not
    /// decode it, else the outcome of orienting, resizing and encoding it.
    PreviewDecoded(Option<Result<Vec<u8>, E>>),
    /// What the `image` crate made of the source file.
    FileDecoded(Result<Vec<u8>, E>),
}

/// What to do next in a source-file resize.
pub enum FileResizeAction<E> {
    /// Decode and resize the source with the ffmpeg library.
    DecodeWithLibrary,
    /// Decode and resize the source with the ffmpeg binary.
    RunFfmpeg,
    /// Read the whole source file.
    ReadSource,
    /// Resize these bytes (the embedded JPEG preview) with libvips.
    VipsBuffer(Vec<u8>),
    /// Decode these bytes (the embedded JPEG preview) as JPEG with the
    /// `image` crate, apply the source's EXIF orientation, shrink it to the
    /// requested width when wider, and encode it.
    DecodePreview(Vec<u8>),
    /// Resize the source file with libvips.
    VipsFile,
    /// Decode, orient, resize and encode the source file with the `image`
    /// crate.
    DecodeFile,
    /// The resize is over.
    Respond(ResizeOutcome<E>),
    Nothing,
}

/// The phases a resize of a HEIC/HEIF file passes through.
pub open spec fn heic_phase(p: FileResizePhase) -> bool {
    p is Start || p is AwaitingLibrary || p is AwaitingVipsFile || p is AwaitingFfmpeg || p is Finished
}

/// An action that reads the file for an embedded preview or hands it to the
/// `image` crate.
pub open spec fn uses_preview_or_image_crate<E>(a: FileResizeAction<E>) -> bool {
    a is ReadSource || a is VipsBuffer || a is DecodePreview || a is DecodeFile
}

/// Next step of resizing a source file whose extension calls for `d`.
///
/// HEIC/HEIF goes to the ffmpeg library first and, when that fails, to
/// libvips, then to the ffmpeg binary; it never reaches the `image` crate. A
/// RAW file is read and its largest embedded JPEG preview (see
/// `extract_raw_preview`) resized with libvips, else decoded with the
/// `image` crate; a file without a usable preview goes on like any other.
/// Any other file is resized with libvips, and when that fails, with the
/// ffmpeg binary for HEIC/HEIF and the formats only ffmpeg decodes, else
/// with the `image` crate. The first decoder that succeeds is answered unchanged. An event
/// that does not belong to the phase changes nothing.
pub fn file_resize_step<E>(d: &SourceDecoders, phase: FileResizePhase, event: FileResizeEvent<E>) -> (r: (
    FileResizePhase,
    FileResizeAction<E>,
))
    ensures
        d.heic && heic_phase(phase) ==> heic_phase(r.0) && !uses_preview_or_image_crate(r.1),
        match (phase, event) {
            (FileResizePhase::Start, FileResizeEvent::Begin) => if d.heic {
                r.0 == FileResizePhase::AwaitingLibrary && r.1 is DecodeWithLibrary
            } else if d.raw_preview {
                r.0 == FileResizePhase::AwaitingSource && r.1 is ReadSource
            } else {
                r.0 == FileResizePhase::AwaitingVipsFile && r.1 is VipsFile
            },
            (FileResizePhase::AwaitingLibrary, FileResizeEvent::Encoded(Ok(b))) => {
                &&& r.0 == FileResizePhase::Finished
                &&& r.1 matches FileResizeAction::Respond(ResizeOutcome::Encoded(x))
                &&& x == b
            },
            (FileResizePhase::AwaitingLibrary, FileResizeEvent::Encoded(Err(_))) => {
                r.0 == FileResizePhase::AwaitingVipsFile && r.1 is VipsFile
            },
            (FileResizePhase::AwaitingFfmpeg, FileResizeEvent::Encoded(Ok(b))) => {
                &&& r.0 == FileResizePhase::Finished
                &&& r.1 matches FileResizeAction::Respond(ResizeOutcome::Encoded(x))
                &&& x == b
            },
            (FileResizePhase::AwaitingFfmpeg, FileResizeEvent::Encoded(Err(m))) => {
                &&& r.0 == FileResizePhase::Finished
                &&& r.1 matches FileResizeAction::Respond(ResizeOutcome::External(x))
                &&& x == m
            },
            (FileResizePhase::AwaitingSource, FileResizeEvent::SourceRead(Some(data))) => match raw_preview(
                data@,
            ) {
                Some(p) => {
                    &&& r.0 matches FileResizePhase::AwaitingPreviewVips(q)
                    &&& q@ == p
                    &&& r.1 matches FileResizeAction::VipsBuffer(x)
                    &&& x@ == p
                },
                None => r.0 == FileResizePhase::AwaitingVipsFile && r.1 is VipsFile,
            },
            (FileResizePhase::AwaitingSource, FileResizeEvent::SourceRead(None)) => {
                r.0 == FileResizePhase::AwaitingVipsFile && r.1 is VipsFile
            },
            (FileResizePhase::AwaitingPreviewVips(_), FileResizeEvent::Encoded(Ok(b))) => {
                &&& r.0 == FileResizePhase::Finished
                &&& r.1 matches FileResizeAction::Respond(ResizeOutcome::Encoded(x))
                &&& x == b
            },
            (FileResizePhase::AwaitingPreviewVips(p), FileResizeEvent::Encoded(Err(_))) => {
                &&& r.0 == FileResizePhase::AwaitingPreviewDecode
                &&& r.1 matches FileResizeAction::DecodePreview(x)
                &&& x == p
            },
            (FileResizePhase::AwaitingPreviewDecode, FileResizeEvent::PreviewDecoded(Some(Ok(b)))) => {
                &&& r.0 == FileResizePhase::Finished
                &&& r.1 matches FileResizeAction::Respond(ResizeOutcome::Encoded(x))
                &&& x == b
            },
            (FileResizePhase::AwaitingPreviewDecode, FileResizeEvent::PreviewDecoded(Some(Err(e)))) => {
                &&& r.0 == FileResizePhase::Finished
                &&& r.1 matches FileResizeAction::Respond(ResizeOutcome::Failed(x))
                &&& x == e
            },
            (FileResizePhase::AwaitingPreviewDecode, FileResizeEvent::PreviewDecoded(None)) => {
                r.0 == FileResizePhase::AwaitingVipsFile && r.1 is VipsFile
            },
            (FileResizePhase::AwaitingVipsFile, FileResizeEvent::Encoded(Ok(b))) => {
                &&& r.0 == FileResizePhase::Finished
                &&& r.1 matches FileResizeAction::Respond(ResizeOutcome::Encoded(x))
                &&& x == b
            },
            (FileResizePhase::AwaitingVipsFile, FileResizeEvent::Encoded(Err(_))) => if d.heic
                || d.ffmpeg_fallback {
                r.0 == FileResizePhase::AwaitingFfmpeg && r.1 is RunFfmpeg
            } else {
                r.0 == FileResizePhase::AwaitingDecodeFile && r.1 is DecodeFile
            },
            (FileResizePhase::AwaitingDecodeFile, FileResizeEvent::FileDecoded(Ok(b))) => {
                &&& r.0 == FileResizePhase::Finished
                &&& r.1 matches FileResizeAction::Respond(ResizeOutcome::Encoded(x))
                &&& x == b
            },
            (FileResizePhase::AwaitingDecodeFile, FileResizeEvent::FileDecoded(Err(e))) => {
                &&& r.0 == FileResizePhase::Finished
                &&& r.1 matches FileResizeAction::Respond(ResizeOutcome::Failed(x))
                &&& x == e
            },
            _ => r.0 == phase && r.1 is Nothing,
        },
{
    match (phase, event) {
        (FileResizePhase::Start, FileResizeEvent::Begin) => {
            if d.heic {
                (FileResizePhase::AwaitingLibrary, FileResizeAction::DecodeWithLibrary)
            } else if d.raw_preview {
                (FileResizePhase::AwaitingSource, FileResizeAction::ReadSource)
            } else {
                (FileResizePhase::AwaitingVipsFile, FileResizeAction::VipsFile)
            }
        },
        (FileResizePhase::AwaitingLibrary, FileResizeEvent::Encoded(Ok(b))) => (
            FileResizePhase::Finished,
            FileResizeAction::Respond(ResizeOutcome::Encoded(b)),
        ),
        (FileResizePhase::AwaitingLibrary, FileResizeEvent::Encoded(Err(_))) => (
            FileResizePhase::AwaitingVipsFile,
            FileResizeAction::VipsFile,
        ),
        (FileResizePhase::AwaitingFfmpeg, FileResizeEvent::Encoded(Ok(b))) => (
            FileResizePhase::Finished,
            FileResizeAction::Respond(ResizeOutcome::Encoded(b)),
        ),
        (FileResizePhase::AwaitingFfmpeg, FileResizeEvent::Encoded(Err(m))) => (
            FileResizePhase::Finished,
            FileResizeAction::Respond(ResizeOutcome::External(m)),
        ),
        (FileResizePhase::AwaitingSource, FileResizeEvent::SourceRead(Some(data))) => {
            match extract_raw_preview(data.as_slice()) {
                Some(p) => {
                    let q = p.clone();
                    (FileResizePhase::AwaitingPreviewVips(q), FileResizeAction::VipsBuffer(p))
                },
                None => (FileResizePhase::AwaitingVipsFile, FileResizeAction::VipsFile),
            }
        },
        (FileResizePhase::AwaitingSource, FileResizeEvent::SourceRead(None)) => (
            FileResizePhase::AwaitingVipsFile,
            FileResizeAction::VipsFile,
        ),
        (FileResizePhase::AwaitingPreviewVips(_), FileResizeEvent::Encoded(Ok(b))) => (
            FileResizePhase::Finished,
            FileResizeAction::Respond(ResizeOutcome::Encoded(b)),
        ),
        (FileResizePhase::AwaitingPreviewVips(p), FileResizeEvent::Encoded(Err(_))) => (
            FileResizePhase::AwaitingPreviewDecode,
            FileResizeAction::DecodePreview(p),
        ),
        (FileResizePhase::AwaitingPreviewDecode, FileResizeEvent::PreviewDecoded(Some(Ok(b)))) => (
            FileResizePhase::Finished,
            FileResizeAction::Respond(ResizeOutcome::Encoded(b)),
        ),
        (FileResizePhase::AwaitingPreviewDecode, FileResizeEvent::PreviewDecoded(Some(Err(e)))) => (
            FileResizePhase::Finished,
            FileResizeAction::Respond(ResizeOutcome::Failed(e)),
        ),
        (FileResizePhase::AwaitingPreviewDecode, FileResizeEvent::PreviewDecoded(None)) => (
            FileResizePhase::AwaitingVipsFile,
            FileResizeAction::VipsFile,
        ),
        (FileResizePhase::AwaitingVipsFile, FileResizeEvent::Encoded(Ok(b))) => (
            FileResizePhase::Finished,
            FileResizeAction::Respond(ResizeOutcome::Encoded(b)),
        ),
        (FileResizePhase::AwaitingVipsFile, FileResizeEvent::Encoded(Err(_))) => {
            if d.heic || d.ffmpeg_fallback {
                (FileResizePhase::AwaitingFfmpeg, FileResizeAction::RunFfmpeg)
            } else {
                (FileResizePhase::AwaitingDecodeFile, FileResizeAction::DecodeFile)
            }
        },
        (FileResizePhase::AwaitingDecodeFile, FileResizeEvent::FileDecoded(Ok(b))) => (
            FileResizePhase::Finished,
            FileResizeAction::Respond(ResizeOutcome::Encoded(b)),
        ),
        (FileResizePhase::AwaitingDecodeFile, FileResizeEvent::FileDecoded(Err(e))) => (
            FileResizePhase::Finished,
            FileResizeAction::Respond(ResizeOutcome::Failed(e)),
        ),
        (p, _) => (p, FileResizeAction::Nothing),
    }
}

/// Prefix of the temporary file in-memory bytes are written to when libvips
/// cannot read them from memory.
pub open spec fn vips_spill_prefix() -> Seq<char> {
    "tokimo_vips"@
}

/// Where a resize of in-memory bytes stands.
pub enum BytesResizePhase {
    Start,
    /// The ffmpeg library is decoding the bytes.
    AwaitingLibrary,
    /// libvips is resizing the bytes in memory.
    AwaitingVipsBuffer,
    /// The bytes are being written to a temporary file for libvips.
    AwaitingSpill,
    /// libvips is resizing the temporary file.
    AwaitingVipsTemp,
    /// The ffmpeg binary is decoding the temporary file.
    AwaitingFfmpegTemp,
    /// The `image` crate is decoding the bytes.
    AwaitingDecode,
    Finished,
}

/// What happened since the last step of an in-memory resize.
pub enum BytesResizeEvent<E> {
    Begin,
    /// What the ffmpeg library, libvips or the ffmpeg binary produced, or
    /// its error text.
    Encoded(Result<Vec<u8>, String>),
    /// Whether the temporary file was written, or the error of writing it.
    Spilled(Result<(), E>),
    /// What the `image` crate made of the bytes.
    Decoded(Result<Vec<u8>, E>),
}

/// What to do next in an in-memory resize.
pub enum BytesResizeAction<E> {
    /// Decode and resize the bytes with the ffmpeg library, naming them
    /// with `ffmpeg_filename_hint`.
    DecodeWithLibrary,
    /// Write the bytes to a temporary file named by `bytes_temp_name` with
    /// this prefix.
    Spill(&'static str),
    /// Resize the bytes in memory with libvips.
    VipsBuffer,
    /// Resize the temporary file with libvips.
    VipsTemp,
    /// Decode and resize the temporary file with the ffmpeg binary.
    RunFfmpegOnTemp,
    /// Remove the temporary file when `remove_temp`, then decode, orient,
    /// resize and encode the bytes with the `image` crate.
    Decode { remove_temp: bool },
    /// Remove the temporary file when `remove_temp`; the resize is over.
    Respond { outcome: ResizeOutcome<E>, remove_temp: bool },
    Nothing,
}

/// The phases in which a temporary file of the bytes exists.
pub open spec fn holds_temp(p: BytesResizePhase) -> bool {
    p is AwaitingVipsTemp || p is AwaitingFfmpegTemp
}

/// An action that removes the temporary file.
pub open spec fn removes_temp<E>(a: BytesResizeAction<E>) -> bool {
    ||| a matches BytesResizeAction::Decode { remove_temp } && remove_temp
    ||| a matches BytesResizeAction::Respond { remove_temp, .. } && remove_temp
}

/// Next step of resizing in-memory bytes whose extension calls for `d`.
///
/// HEIC/HEIF goes to the ffmpeg library first and, when that fails, on like
/// any other format. Bytes are resized by libvips in memory, else by libvips
/// from a temporary file, else (for HEIC/HEIF and the formats only ffmpeg
/// decodes) by the ffmpeg binary from that file; when
/// nothing else serves, or the temporary file cannot be written, the
/// `image` crate decodes the bytes. The first decoder that succeeds is
/// answered unchanged, and a temporary file that was written is removed
/// before the resize moves on or ends. An event that does not belong to the
/// phase changes nothing.
pub fn bytes_resize_step<E>(d: &SourceDecoders, phase: BytesResizePhase, event: BytesResizeEvent<E>) -> (r: (
    BytesResizePhase,
    BytesResizeAction<E>,
))
    ensures
        holds_temp(r.0) ==> holds_temp(phase) || event matches BytesResizeEvent::Spilled(Ok(_)),
        holds_temp(phase) && !holds_temp(r.0) ==> removes_temp(r.1),
        !holds_temp(phase) ==> !removes_temp(r.1),
        match (phase, event) {
            (BytesResizePhase::Start, BytesResizeEvent::Begin) => if d.heic {
                r.0 == BytesResizePhase::AwaitingLibrary && r.1 is DecodeWithLibrary
            } else {
                r.0 == BytesResizePhase::AwaitingVipsBuffer && r.1 is VipsBuffer
            },
            (BytesResizePhase::AwaitingLibrary, BytesResizeEvent::Encoded(Ok(b))) => {
                &&& r.0 == BytesResizePhase::Finished
                &&& r.1 matches BytesResizeAction::Respond { outcome: ResizeOutcome::Encoded(x), remove_temp }
                &&& x == b
                &&& !remove_temp
            },
            (BytesResizePhase::AwaitingLibrary, BytesResizeEvent::Encoded(Err(_))) => {
                r.0 == BytesResizePhase::AwaitingVipsBuffer && r.1 is VipsBuffer
            },
            (BytesResizePhase::AwaitingVipsBuffer, BytesResizeEvent::Encoded(Ok(b))) => {
                &&& r.0 == BytesResizePhase::Finished
                &&& r.1 matches BytesResizeAction::Respond { outcome: ResizeOutcome::Encoded(x), remove_temp }
                &&& x == b
                &&& !remove_temp
            },
            (BytesResizePhase::AwaitingVipsBuffer, BytesResizeEvent::Encoded(Err(_))) => {
                &&& r.0 == BytesResizePhase::AwaitingSpill
                &&& r.1 matches BytesResizeAction::Spill(prefix)
                &&& prefix@ == vips_spill_prefix()
            },
            (BytesResizePhase::AwaitingSpill, BytesResizeEvent::Spilled(Ok(()))) => {
                r.0 == BytesResizePhase::AwaitingVipsTemp && r.1 is VipsTemp
            },
            (BytesResizePhase::AwaitingSpill, BytesResizeEvent::Spilled(Err(_))) => {
                r.0 == BytesResizePhase::AwaitingDecode && r.1 == (BytesResizeAction::Decode::<E> {
                    remove_temp: false,
                })
            },
            (BytesResizePhase::AwaitingVipsTemp, BytesResizeEvent::Encoded(Ok(b))) => {
                &&& r.0 == BytesResizePhase::Finished
                &&& r.1 matches BytesResizeAction::Respond { outcome: ResizeOutcome::Encoded(x), remove_temp }
                &&& x == b
                &&& remove_temp
            },
            (BytesResizePhase::AwaitingVipsTemp, BytesResizeEvent::Encoded(Err(_))) => if d.heic
                || d.ffmpeg_fallback {
                r.0 == BytesResizePhase::AwaitingFfmpegTemp && r.1 is RunFfmpegOnTemp
            } else {
                r.0 == BytesResizePhase::AwaitingDecode && r.1 == (BytesResizeAction::Decode::<E> {
                    remove_temp: true,
                })
            },
            (BytesResizePhase::AwaitingFfmpegTemp, BytesResizeEvent::Encoded(Ok(b))) => {
                &&& r.0 == BytesResizePhase::Finished
                &&& r.1 matches BytesResizeAction::Respond { outcome: ResizeOutcome::Encoded(x), remove_temp }
                &&& x == b
                &&& remove_temp
            },
            (BytesResizePhase::AwaitingFfmpegTemp, BytesResizeEvent::Encoded(Err(m))) => {
                &&& r.0 == BytesResizePhase::Finished
                &&& r.1 matches BytesResizeAction::Respond { outcome: ResizeOutcome::External(x), remove_temp }
                &&& x == m
                &&& remove_temp
            },
            (BytesResizePhase::AwaitingDecode, BytesResizeEvent::Decoded(Ok(b))) => {
                &&& r.0 == BytesResizePhase::Finished
                &&& r.1 matches BytesResizeAction::Respond { outcome: ResizeOutcome::Encoded(x), remove_temp }
                &&& x == b
                &&& !remove_temp
            },
            (BytesResizePhase::AwaitingDecode, BytesResizeEvent::Decoded(Err(e))) => {
                &&& r.0 == BytesResizePhase::Finished
                &&& r.1 matches BytesResizeAction::Respond { outcome: ResizeOutcome::Failed(x), remove_temp }
                &&& x == e
                &&& !remove_temp
            },
            _ => r.0 == phase && r.1 is Nothing,
        },
{
    proof {
        reveal_strlit("tokimo_vips");
    }
    match (phase, event) {
        (BytesResizePhase::Start, BytesResizeEvent::Begin) => {
            if d.heic {
                (BytesResizePhase::AwaitingLibrary, BytesResizeAction::DecodeWithLibrary)
            } else {
                (BytesResizePhase::AwaitingVipsBuffer, BytesResizeAction::VipsBuffer)
            }
        },
        (BytesResizePhase::AwaitingLibrary, BytesResizeEvent::Encoded(Ok(b))) => (
            BytesResizePhase::Finished,
            BytesResizeAction::Respond { outcome: ResizeOutcome::Encoded(b), remove_temp: false },
        ),
        (BytesResizePhase::AwaitingLibrary, BytesResizeEvent::Encoded(Err(_))) => (
            BytesResizePhase::AwaitingVipsBuffer,
            BytesResizeAction::VipsBuffer,
        ),
        (BytesResizePhase::AwaitingVipsBuffer, BytesResizeEvent::Encoded(Ok(b))) => (
            BytesResizePhase::Finished,
            BytesResizeAction::Respond { outcome: ResizeOutcome::Encoded(b), remove_temp: false },
        ),
        (BytesResizePhase::AwaitingVipsBuffer, BytesResizeEvent::Encoded(Err(_))) => (
            BytesResizePhase::AwaitingSpill,
            BytesResizeAction::Spill("tokimo_vips"),
        ),
        (BytesResizePhase::AwaitingSpill, BytesResizeEvent::Spilled(Ok(()))) => (
            BytesResizePhase::AwaitingVipsTemp,
            BytesResizeAction::VipsTemp,
        ),
        (BytesResizePhase::AwaitingSpill, BytesResizeEvent::Spilled(Err(_))) => (
            BytesResizePhase::AwaitingDecode,
            BytesResizeAction::Decode { remove_temp: false },
        ),
        (BytesResizePhase::AwaitingVipsTemp, BytesResizeEvent::Encoded(Ok(b))) => (
            BytesResizePhase::Finished,
            BytesResizeAction::Respond { outcome: ResizeOutcome::Encoded(b), remove_temp: true },
        ),
        (BytesResizePhase::AwaitingVipsTemp, BytesResizeEvent::Encoded(Err(_))) => {
            if d.heic || d.ffmpeg_fallback {
                (BytesResizePhase::AwaitingFfmpegTemp, BytesResizeAction::RunFfmpegOnTemp)
            } else {
                (BytesResizePhase::AwaitingDecode, BytesResizeAction::Decode { remove_temp: true })
            }
        },
        (BytesResizePhase::AwaitingFfmpegTemp, BytesResizeEvent::Encoded(Ok(b))) => (
            BytesResizePhase::Finished,
            BytesResizeAction::Respond { outcome: ResizeOutcome::Encoded(b), remove_temp: true },
        ),
        (BytesResizePhase::AwaitingFfmpegTemp, BytesResizeEvent::Encoded(Err(m))) => (
            BytesResizePhase::Finished,
            BytesResizeAction::Respond { outcome: ResizeOutcome::External(m), remove_temp: true },
        ),
        (BytesResizePhase::AwaitingDecode, BytesResizeEvent::Decoded(Ok(b))) => (
            BytesResizePhase::Finished,
            BytesResizeAction::Respond { outcome: ResizeOutcome::Encoded(b), remove_temp: false },
        ),
        (BytesResizePhase::AwaitingDecode, BytesResizeEvent::Decoded(Err(e))) => (
            BytesResizePhase::Finished,
            BytesResizeAction::Respond { outcome: ResizeOutcome::Failed(e), remove_temp: false },
        ),
        (p, _) => (p, BytesResizeAction::Nothing),
    }
}

/// What a finished run of the ffmpeg binary yields: its standard output when
/// it exited successfully and wrote something, else the error
/// `ffmpeg exited with {status}: {stderr}` (the standard error as given,
/// already trimmed).
pub fn ffmpeg_run_result(success: bool, stdout: Vec<u8>, status: &str, stderr: &str) -> (r: Result<
    Vec<u8>,
    String,
>)
    ensures
        if success && stdout@.len() > 0 {
            r matches Ok(out) && out == stdout
        } else {
            r matches Err(m) && m@ == "ffmpeg exited with "@ + status@ + ": "@ + stderr@
        },
{
    if success && stdout.len() > 0 {
        Ok(stdout)
    } else {
        Err(concat(concat(concat(String::from_str("ffmpeg exited with "), status), ": "), stderr))
    }
}

} // verus!
