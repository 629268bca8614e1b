//! Cache keys, fetch plans and the step function of the thumbnail service.

use crate::cache::error::ThumbError;
use crate::cache::origin::ThumbOrigin;
use crate::text::{chars_of, concat, decimal, decimal_text, push_char};
use crate::vips::{ext_of, mime_of, OutputFormat};
use vstd::prelude::*;
use vstd::string::StringSliceAdditionalSpecFns;
use vstd::utf8::encode_utf8;

verus! {

#[verifier::external_type_specification]
#[verifier::external_body]
pub struct ExPathBuf(std::path::PathBuf);

/// Thumbnail service: the cache storage, the thumbnail generator and the
/// optional ffmpeg binary that generation may fall back to.
///
/// `S` and `G` are shared handles (e.g. `Arc`s), so the service can be
/// cloned cheaply and handed to spawned tasks.
#[derive(Clone)]
pub struct ThumbnailService<S, G> {
    storage: S,
    generator: G,
    ffmpeg_bin: Option<std::path::PathBuf>,
}

/// `{ext}` for a `w` x `h` thumbnail: `.{w}x{h}.{ext}`.
pub open spec fn size_suffix(w: u32, h: u32, format: OutputFormat) -> Seq<char> {
    "."@ + decimal_text(w as nat) + "x"@ + decimal_text(h as nat) + "."@ + ext_of(format)
}

/// The key a thumbnail of an entity is cached under:
/// `thumbs/{entity_type}/{entity_id}.{w}x{h}.{ext}`.
pub open spec fn entity_cache_key(
    entity_type: Seq<char>,
    entity_id: Seq<char>,
    w: u32,
    h: u32,
    format: OutputFormat,
) -> Seq<char> {
    "thumbs/"@ + entity_type + "/"@ + entity_id + size_suffix(w, h, format)
}

/// The key a thumbnail of a stored original is cached under, next to the
/// original: `{original_key}.{w}x{h}.{ext}`.
pub open spec fn storage_cache_key(original_key: Seq<char>, w: u32, h: u32, format: OutputFormat) -> Seq<
    char,
> {
    original_key + size_suffix(w, h, format)
}

/// The text after the last `.` of `s` (all of `s` when it has none).
pub open spec fn last_segment(s: Seq<char>) -> Seq<char>
    decreases s.len(),
{
    if s.len() == 0 {
        s
    } else if s.last() == '.' {
        Seq::empty()
    } else {
        last_segment(s.drop_last()).push(s.last())
    }
}

/// One hexadecimal digit, lowercase.
pub open spec fn hex_digit(n: int) -> char {
    if n < 10 {
        ((48 + n) as u8) as char
    } else {
        ((87 + n) as u8) as char
    }
}

/// Lowercase hexadecimal text of some bytes, two digits per byte, high
/// nibble first.
pub open spec fn lower_hex(b: Seq<u8>) -> Seq<char>
    decreases b.len(),
{
    if b.len() == 0 {
        Seq::empty()
    } else {
        lower_hex(b.drop_last()) + seq![hex_digit((b.last() / 16) as int), hex_digit((b.last() % 16) as int)]
    }
}

/// The SHA-256 digest of some bytes.
pub uninterp spec fn sha256_of(data: Seq<u8>) -> Seq<u8>;

/// SHA-256 digest of `data` (`sha2::Sha256::digest`). The result is named by
/// [`sha256_of`]; the contract also states that it is 32 bytes long.
#[verifier::external_body]
fn sha256_digest(data: &[u8]) -> (r: Vec<u8>)
    ensures
        r@ == sha256_of(data@),
        r@.len() == 32,
{
    <sha2::Sha256 as sha2::Digest>::digest(data).to_vec()
}

/// Lowercase hexadecimal encoding of `data` (`hex::encode`).
#[verifier::external_body]
fn hex_encode(data: &[u8]) -> (r: String)
    ensures
        r@ == lower_hex(data@),
{
    hex::encode(data)
}

/// Key under which the raw bytes fetched from `url` are cached:
/// `ext-cache/{sha256(url) in hex}.{ext}`.
pub open spec fn http_cache_key_of(url: Seq<char>, ext: Seq<char>) -> Seq<char> {
    "ext-cache/"@ + lower_hex(sha256_of(encode_utf8(url))) + "."@ + ext
}

/// How the original bytes of an origin are fetched, with the extension that
/// names their format.
pub enum FetchPlan<R> {
    /// Read `key` from the storage; a miss is `SourceNotFound(key)`.
    Storage { key: String, ext: String },
    /// Read `path` whole through `reader`; a failure is `Vfs(detail)`.
    Vfs { reader: R, path: String, ext: String },
    /// Read the local file `path`; a failure is [`local_read_error`].
    LocalFile { path: String, ext: String },
    /// Fetch `url`, going through the raw-bytes cache at `cache_key` (see
    /// [`http_step`]).
    Http { url: String, ext: String, cache_key: String },
}

/// Where one thumbnail request stands.
#[derive(PartialEq, Eq, Structural)]
pub enum GeneratePhase {
    Start,
    AwaitingCache,
    AwaitingOrigin,
    AwaitingThumbnail,
    Finished,
}

/// What the caller reports back to the step function.
pub enum GenerateEvent {
    /// The request starts.
    Begin,
    /// The result of looking the thumbnail up in the cache.
    CacheLookup(Option<Vec<u8>>),
    /// The original bytes and their extension, or why they could not be read.
    OriginFetched(Result<(Vec<u8>, String), ThumbError>),
    /// The encoded thumbnail, or the text of the generator's error.
    ThumbnailEncoded(Result<Vec<u8>, String>),
}

/// What the caller does next.
pub enum GenerateAction {
    /// Look the thumbnail up in the cache under this key.
    LookupCache(String),
    /// Fetch the original bytes.
    FetchOrigin,
    /// Resize and encode the original bytes, whose format `ext` names.
    Encode { raw: Vec<u8>, ext: String },
    /// Answer the request.
    Respond(Result<Vec<u8>, ThumbError>),
    /// Write `bytes` to the cache under `key` with content type `mime`,
    /// without waiting, and answer the request with them.
    StoreAndRespond { key: String, bytes: Vec<u8>, mime: String },
    /// The event does not belong to this phase: do nothing.
    Nothing,
}

/// A success status (2xx).
pub open spec fn is_success_status(code: u16) -> bool {
    200 <= code <= 299
}

/// Where one raw-bytes fetch from an HTTP URL stands.
#[derive(PartialEq, Eq, Structural)]
pub enum HttpPhase {
    Start,
    AwaitingCache,
    AwaitingResponse,
    AwaitingBody,
    Finished,
}

/// What the caller reports back during an HTTP fetch.
pub enum HttpEvent {
    Begin,
    /// The result of looking the raw bytes up in the cache.
    CacheLookup(Option<Vec<u8>>),
    /// The response arrived: its status code and the status as text (e.g.
    /// `404 Not Found`); or the text of the request's error.
    Response(Result<(u16, String), String>),
    /// The response body, or the text of the error reading it.
    Body(Result<Vec<u8>, String>),
}

/// What the caller does next during an HTTP fetch.
pub enum HttpAction {
    /// Look the raw bytes up in the cache under this key.
    LookupCache(String),
    /// Send the GET request.
    Request,
    /// Read the response body.
    ReadBody,
    /// Finish with the bytes and their extension, or with an error.
    Respond(Result<(Vec<u8>, String), ThumbError>),
    /// Write `bytes` to the cache under `key` with content type `mime`,
    /// without waiting, and finish with them and `ext`.
    StoreAndRespond { key: String, bytes: Vec<u8>, mime: String, ext: String },
    Nothing,
}

/// The state of one HTTP fetch.
pub struct HttpFetch {
    pub url: String,
    pub ext: String,
    pub cache_key: String,
}

/// The state of one thumbnail request.
pub struct GenerateJob {
    pub cache_key: String,
    pub format: OutputFormat,
}

/// `{w}x{h}.{ext}` with the leading dot.
fn size_suffix_text(w: u32, h: u32, format: OutputFormat) -> (r: String)
    ensures
        r@ == size_suffix(w, h, format),
{
    let ws = decimal(w as u128);
    let hs = decimal(h as u128);
    let r = concat(concat(concat(concat(String::from_str("."), ws.as_str()), "x"), hs.as_str()), ".");
    let r = concat(r, format.ext());
    proof {
        assert(r@ =~= size_suffix(w, h, format));
    }
    r
}

/// The text after the last `.` of `s` (all of `s` when it has none), the
/// format hint of a stored or fetched original.
pub fn origin_extension(s: &str) -> (r: String)
    ensures
        r@ == last_segment(s@),
{
    let v = chars_of(s);
    let mut r = String::new();
    let mut i: usize = 0;
    while i < v.len()
        invariant
            i <= v@.len(),
            v@ == s@,
            r@ == last_segment(v@.take(i as int)),
        decreases v@.len() - i,
    {
        let c = v[i];
        assert(v@.take(i + 1).drop_last() =~= v@.take(i as int));
        if c == '.' {
            r = String::new();
        } else {
            push_char(&mut r, c);
        }
        i = i + 1;
    }
    assert(v@.take(v@.len() as int) =~= v@);
    r
}

/// Key under which the raw bytes fetched from `url` are cached.
pub fn http_cache_key(url: &str, ext: &str) -> (r: String)
    ensures
        r@ == http_cache_key_of(url@, ext@),
{
    let digest = sha256_digest(url.as_bytes());
    let hash = hex_encode(digest.as_slice());
    let r = concat(concat(concat(String::from_str("ext-cache/"), hash.as_str()), "."), ext);
    proof {
        assert(r@ =~= http_cache_key_of(url@, ext@));
    }
    r
}

/// The error for a local file that could not be read:
/// `Vfs("local read {path}: {detail}")`.
pub fn local_read_error(path: &str, detail: &str) -> (e: ThumbError)
    ensures
        e matches ThumbError::Vfs(m) && (m@ == "local read "@ + path@ + ": "@ + detail@),
{
    ThumbError::Vfs(concat(concat(concat(String::from_str("local read "), path), ": "), detail))
}

/// The error for an HTTP response whose status is not a success:
/// `Http("HTTP {status} for {url}")`.
pub fn http_status_error(status: &str, url: &str) -> (e: ThumbError)
    ensures
        e matches ThumbError::Http(m) && (m@ == "HTTP "@ + status@ + " for "@ + url@),
{
    ThumbError::Http(concat(concat(concat(String::from_str("HTTP "), status), " for "), url))
}

/// The outcome of reading an original from the storage: its bytes, or
/// `SourceNotFound(key)` when the key is missing.
pub fn storage_fetch_result(key: String, ext: String, got: Option<Vec<u8>>) -> (r: Result<
    (Vec<u8>, String),
    ThumbError,
>)
    ensures
        match got {
            Some(b) => r matches Ok((b2, e)) && b2 == b && e == ext,
            None => r matches Err(ThumbError::SourceNotFound(k)) && k == key,
        },
{
    match got {
        Some(b) => Ok((b, ext)),
        None => Err(ThumbError::SourceNotFound(key)),
    }
}

/// The outcome of reading an original through a VFS reader: its bytes, or
/// `Vfs(detail)`.
pub fn vfs_fetch_result(ext: String, got: Result<Vec<u8>, String>) -> (r: Result<(Vec<u8>, String), ThumbError>)
    ensures
        match got {
            Ok(b) => r matches Ok((b2, e)) && b2 == b && e == ext,
            Err(d) => r matches Err(ThumbError::Vfs(d2)) && d2 == d,
        },
{
    match got {
        Ok(b) => Ok((b, ext)),
        Err(d) => Err(ThumbError::Vfs(d)),
    }
}

/// Why a local file could not be read: whether the file does not exist, and
/// the I/O error's text.
pub struct LocalReadFailure {
    pub not_found: bool,
    pub detail: String,
}

/// The outcome of reading an original from a local file: its bytes;
/// `SourceNotFound(path)` when the file does not exist; else
/// [`local_read_error`] with the I/O error's text.
pub fn local_fetch_result(path: &str, ext: String, got: Result<Vec<u8>, LocalReadFailure>) -> (r: Result<
    (Vec<u8>, String),
    ThumbError,
>)
    ensures
        match got {
            Ok(b) => r matches Ok((b2, e)) && b2 == b && e == ext,
            Err(f) => if f.not_found {
                r matches Err(ThumbError::SourceNotFound(p)) && p@ == path@
            } else {
                r matches Err(ThumbError::Vfs(m)) && (m@ == "local read "@ + path@ + ": "@ + f.detail@)
            },
        },
{
    match got {
        Ok(b) => Ok((b, ext)),
        Err(f) => if f.not_found {
            Err(ThumbError::SourceNotFound(String::from_str(path)))
        } else {
            Err(local_read_error(path, f.detail.as_str()))
        },
    }
}

/// How to fetch the original bytes of `origin`. The extension is the text
/// after the last `.` of the storage key, VFS path or local path; an HTTP
/// origin names its own.
pub fn plan_fetch<R>(origin: ThumbOrigin<R>) -> (p: FetchPlan<R>)
    ensures
        match origin {
            ThumbOrigin::Storage { key } => {
                &&& p matches FetchPlan::Storage { key: k, ext }
                &&& k@ == key@
                &&& ext@ == last_segment(key@)
            },
            ThumbOrigin::Vfs { reader, path } => {
                &&& p matches FetchPlan::Vfs { reader: r, path: q, ext }
                &&& r == reader
                &&& q@ == path@
                &&& ext@ == last_segment(path@)
            },
            ThumbOrigin::LocalFile { abs_path } => {
                &&& p matches FetchPlan::LocalFile { path: q, ext }
                &&& q@ == abs_path@
                &&& ext@ == last_segment(abs_path@)
            },
            ThumbOrigin::Http { url, ext } => {
                &&& p matches FetchPlan::Http { url: u, ext: e, cache_key }
                &&& u@ == url@
                &&& e@ == ext@
                &&& cache_key@ == http_cache_key_of(url@, ext@)
            },
        },
{
    match origin {
        ThumbOrigin::Storage { key } => {
            let ext = origin_extension(key.as_str());
            FetchPlan::Storage { key, ext }
        },
        ThumbOrigin::Vfs { reader, path } => {
            let ext = origin_extension(path.as_str());
            FetchPlan::Vfs { reader, path, ext }
        },
        ThumbOrigin::LocalFile { abs_path } => {
            let ext = origin_extension(abs_path.as_str());
            FetchPlan::LocalFile { path: abs_path, ext }
        },
        ThumbOrigin::Http { url, ext } => {
            let cache_key = http_cache_key(url.as_str(), ext.as_str());
            FetchPlan::Http { url, ext, cache_key }
        },
    }
}

/// Next step of a thumbnail request, from its phase and the latest event.
///
/// A cache hit is answered unchanged and nothing is fetched; a failed fetch
/// is answered with its error; a failed encode with `Generate`; a fresh
/// thumbnail is written back under the very key it was looked up under, with
/// the format's MIME type, and answered. An event that does not belong to the
/// phase changes nothing.
pub fn generate_step(job: &GenerateJob, phase: GeneratePhase, event: GenerateEvent) -> (r: (
    GeneratePhase,
    GenerateAction,
))
    ensures
        match (phase, event) {
            (GeneratePhase::Start, GenerateEvent::Begin) => {
                &&& r.0 == GeneratePhase::AwaitingCache
                &&& r.1 matches GenerateAction::LookupCache(k)
                &&& k@ == job.cache_key@
            },
            (GeneratePhase::AwaitingCache, GenerateEvent::CacheLookup(Some(b))) => {
                &&& r.0 == GeneratePhase::Finished
                &&& r.1 matches GenerateAction::Respond(Ok(x))
                &&& x@ == b@
            },
            (GeneratePhase::AwaitingCache, GenerateEvent::CacheLookup(None)) => {
                &&& r.0 == GeneratePhase::AwaitingOrigin
                &&& r.1 is FetchOrigin
            },
            (GeneratePhase::AwaitingOrigin, GenerateEvent::OriginFetched(Err(e))) => {
                &&& r.0 == GeneratePhase::Finished
                &&& r.1 matches GenerateAction::Respond(Err(e2))
                &&& e2 == e
            },
            (GeneratePhase::AwaitingOrigin, GenerateEvent::OriginFetched(Ok((raw, ext)))) => {
                &&& r.0 == GeneratePhase::AwaitingThumbnail
                &&& r.1 matches GenerateAction::Encode { raw: raw2, ext: ext2 }
                &&& raw2@ == raw@
                &&& ext2@ == ext@
            },
            (GeneratePhase::AwaitingThumbnail, GenerateEvent::ThumbnailEncoded(Err(m))) => {
                &&& r.0 == GeneratePhase::Finished
                &&& r.1 matches GenerateAction::Respond(Err(ThumbError::Generate(m2)))
                &&& m2@ == m@
            },
            (GeneratePhase::AwaitingThumbnail, GenerateEvent::ThumbnailEncoded(Ok(b))) => {
                &&& r.0 == GeneratePhase::Finished
                &&& r.1 matches GenerateAction::StoreAndRespond { key, bytes, mime }
                &&& key@ == job.cache_key@
                &&& bytes@ == b@
                &&& mime@ == mime_of(job.format)
            },
            _ => r.0 == phase && r.1 is Nothing,
        },
{
    match (phase, event) {
        (GeneratePhase::Start, GenerateEvent::Begin) => (
            GeneratePhase::AwaitingCache,
            GenerateAction::LookupCache(job.cache_key.clone()),
        ),
        (GeneratePhase::AwaitingCache, GenerateEvent::CacheLookup(Some(b))) => (
            GeneratePhase::Finished,
            GenerateAction::Respond(Ok(b)),
        ),
        (GeneratePhase::AwaitingCache, GenerateEvent::CacheLookup(None)) => (
            GeneratePhase::AwaitingOrigin,
            GenerateAction::FetchOrigin,
        ),
        (GeneratePhase::AwaitingOrigin, GenerateEvent::OriginFetched(Err(e))) => (
            GeneratePhase::Finished,
            GenerateAction::Respond(Err(e)),
        ),
        (GeneratePhase::AwaitingOrigin, GenerateEvent::OriginFetched(Ok((raw, ext)))) => (
            GeneratePhase::AwaitingThumbnail,
            GenerateAction::Encode { raw, ext },
        ),
        (GeneratePhase::AwaitingThumbnail, GenerateEvent::ThumbnailEncoded(Err(m))) => (
            GeneratePhase::Finished,
            GenerateAction::Respond(Err(ThumbError::Generate(m))),
        ),
        (GeneratePhase::AwaitingThumbnail, GenerateEvent::ThumbnailEncoded(Ok(b))) => (
            GeneratePhase::Finished,
            GenerateAction::StoreAndRespond {
                key: job.cache_key.clone(),
                bytes: b,
                mime: String::from_str(job.format.mime_type()),
            },
        ),
        (p, _) => (p, GenerateAction::Nothing),
    }
}

/// Next step of a raw-bytes fetch from an HTTP URL, from its phase and the
/// latest event.
///
/// Bytes found in the cache are returned unchanged and nothing is
/// requested; a failed request or body read is `Http(error text)`; a 404 is
/// `SourceNotFound(url)`; any other status that is not a success (2xx) is
/// `Http("HTTP {status} for {url}")`; nothing is written to the cache for
/// them. Bytes fetched
/// anew are written to the cache under the fetch's key with content type
/// `image/{ext}`, and returned.
pub fn http_step(fetch: &HttpFetch, phase: HttpPhase, event: HttpEvent) -> (r: (HttpPhase, HttpAction))
    ensures
        match (phase, event) {
            (HttpPhase::Start, HttpEvent::Begin) => {
                &&& r.0 == HttpPhase::AwaitingCache
                &&& r.1 matches HttpAction::LookupCache(k)
                &&& k@ == fetch.cache_key@
            },
            (HttpPhase::AwaitingCache, HttpEvent::CacheLookup(Some(b))) => {
                &&& r.0 == HttpPhase::Finished
                &&& r.1 matches HttpAction::Respond(Ok((x, e)))
                &&& x@ == b@
                &&& e@ == fetch.ext@
            },
            (HttpPhase::AwaitingCache, HttpEvent::CacheLookup(None)) => {
                &&& r.0 == HttpPhase::AwaitingResponse
                &&& r.1 is Request
            },
            (HttpPhase::AwaitingResponse, HttpEvent::Response(Err(m))) => {
                &&& r.0 == HttpPhase::Finished
                &&& r.1 matches HttpAction::Respond(Err(ThumbError::Http(m2)))
                &&& m2@ == m@
            },
            (HttpPhase::AwaitingResponse, HttpEvent::Response(Ok((code, status)))) => if is_success_status(
                code,
            ) {
                &&& r.0 == HttpPhase::AwaitingBody
                &&& r.1 is ReadBody
            } else if code == 404 {
                &&& r.0 == HttpPhase::Finished
                &&& r.1 matches HttpAction::Respond(Err(ThumbError::SourceNotFound(u)))
                &&& u@ == fetch.url@
            } else {
                &&& r.0 == HttpPhase::Finished
                &&& r.1 matches HttpAction::Respond(Err(ThumbError::Http(m2)))
                &&& m2@ == "HTTP "@ + status@ + " for "@ + fetch.url@
            },
            (HttpPhase::AwaitingBody, HttpEvent::Body(Err(m))) => {
                &&& r.0 == HttpPhase::Finished
                &&& r.1 matches HttpAction::Respond(Err(ThumbError::Http(m2)))
                &&& m2@ == m@
            },
            (HttpPhase::AwaitingBody, HttpEvent::Body(Ok(b))) => {
                &&& r.0 == HttpPhase::Finished
                &&& r.1 matches HttpAction::StoreAndRespond { key, bytes, mime, ext }
                &&& key@ == fetch.cache_key@
                &&& bytes@ == b@
                &&& mime@ == "image/"@ + fetch.ext@
                &&& ext@ == fetch.ext@
            },
            _ => r.0 == phase && r.1 is Nothing,
        },
{
    match (phase, event) {
        (HttpPhase::Start, HttpEvent::Begin) => (
            HttpPhase::AwaitingCache,
            HttpAction::LookupCache(fetch.cache_key.clone()),
        ),
        (HttpPhase::AwaitingCache, HttpEvent::CacheLookup(Some(b))) => (
            HttpPhase::Finished,
            HttpAction::Respond(Ok((b, fetch.ext.clone()))),
        ),
        (HttpPhase::AwaitingCache, HttpEvent::CacheLookup(None)) => (
            HttpPhase::AwaitingResponse,
            HttpAction::Request,
        ),
        (HttpPhase::AwaitingResponse, HttpEvent::Response(Err(m))) => (
            HttpPhase::Finished,
            HttpAction::Respond(Err(ThumbError::Http(m))),
        ),
        (HttpPhase::AwaitingResponse, HttpEvent::Response(Ok((code, status)))) => {
            if 200 <= code && code <= 299 {
                (HttpPhase::AwaitingBody, HttpAction::ReadBody)
            } else if code == 404 {
                (HttpPhase::Finished, HttpAction::Respond(Err(ThumbError::SourceNotFound(fetch.url.clone()))))
            } else {
                (
                    HttpPhase::Finished,
                    HttpAction::Respond(Err(http_status_error(status.as_str(), fetch.url.as_str()))),
                )
            }
        },
        (HttpPhase::AwaitingBody, HttpEvent::Body(Err(m))) => (
            HttpPhase::Finished,
            HttpAction::Respond(Err(ThumbError::Http(m))),
        ),
        (HttpPhase::AwaitingBody, HttpEvent::Body(Ok(b))) => (
            HttpPhase::Finished,
            HttpAction::StoreAndRespond {
                key: fetch.cache_key.clone(),
                bytes: b,
                mime: concat(String::from_str("image/"), fetch.ext.as_str()),
                ext: fetch.ext.clone(),
            },
        ),
        (p, _) => (p, HttpAction::Nothing),
    }
}

impl<S, G> ThumbnailService<S, G> {
    /// The cache storage held.
    pub closed spec fn storage_of(self) -> S {
        self.storage
    }

    /// The thumbnail generator held.
    pub closed spec fn generator_of(self) -> G {
        self.generator
    }

    /// The ffmpeg binary held.
    pub closed spec fn ffmpeg_bin_of(self) -> Option<std::path::PathBuf> {
        self.ffmpeg_bin
    }

    pub fn new(storage: S, generator: G, ffmpeg_bin: Option<std::path::PathBuf>) -> (s: Self)
        ensures
            s.storage_of() == storage,
            s.generator_of() == generator,
            s.ffmpeg_bin_of() == ffmpeg_bin,
    {
        ThumbnailService { storage, generator, ffmpeg_bin }
    }

    /// The cache storage.
    pub fn storage(&self) -> (r: &S)
        ensures
            *r == self.storage_of(),
    {
        &self.storage
    }

    /// The thumbnail generator.
    pub fn generator(&self) -> (r: &G)
        ensures
            *r == self.generator_of(),
    {
        &self.generator
    }

    /// The ffmpeg binary that generation may fall back to.
    pub fn ffmpeg_bin(&self) -> (r: &Option<std::path::PathBuf>)
        ensures
            *r == self.ffmpeg_bin_of(),
    {
        &self.ffmpeg_bin
    }

    /// Derive the cache key for a thumbnail:
    /// `thumbs/{entity_type}/{entity_id}.{w}x{h}.{ext}` (`h = 0` is a
    /// proportional resize to width `w`).
    pub fn cache_key(entity_type: &str, entity_id: &str, w: u32, h: u32, format: OutputFormat) -> (r:
        String)
        ensures
            r@ == entity_cache_key(entity_type@, entity_id@, w, h, format),
    {
        let suffix = size_suffix_text(w, h, format);
        let r = concat(
            concat(concat(String::from_str("thumbs/"), entity_type), "/"),
            entity_id,
        );
        let r = concat(r, suffix.as_str());
        proof {
            assert(r@ =~= entity_cache_key(entity_type@, entity_id@, w, h, format));
        }
        r
    }

    /// Cache key for a thumbnail of a stored original, co-located with it:
    /// `{original_key}.{w}x{h}.{ext}`.
    pub fn storage_cache_key(original_key: &str, w: u32, h: u32, format: OutputFormat) -> (r: String)
        ensures
            r@ == storage_cache_key(original_key@, w, h, format),
    {
        let suffix = size_suffix_text(w, h, format);
        let r = concat(String::from_str(original_key), suffix.as_str());
        proof {
            assert(r@ =~= storage_cache_key(original_key@, w, h, format));
        }
        r
    }
}

} // verus!
