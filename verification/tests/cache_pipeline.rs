use tokimo_package_image::cache::service::{
    generate_step, http_cache_key, http_status_error, http_step, local_fetch_result, local_read_error,
    origin_extension, LocalReadFailure,
    plan_fetch, FetchPlan, GenerateAction, GenerateEvent, GenerateJob, GeneratePhase, HttpAction,
    HttpEvent, HttpFetch, HttpPhase,
};
use tokimo_package_image::{OutputFormat, ThumbError, ThumbOrigin, ThumbnailService};

#[test]
fn cache_keys() {
    assert_eq!(
        ThumbnailService::<(), ()>::cache_key("movie", "42", 320, 0, OutputFormat::Webp),
        "thumbs/movie/42.320x0.webp"
    );
    assert_eq!(
        ThumbnailService::<(), ()>::storage_cache_key("library-images/p.jpg", 64, 48, OutputFormat::Png),
        "library-images/p.jpg.64x48.png"
    );
}

#[test]
fn service_holds_its_parts() {
    let s = ThumbnailService::new(1u8, "gen", None);
    assert_eq!(*s.storage(), 1u8);
    assert_eq!(*s.generator(), "gen");
    assert!(s.ffmpeg_bin().is_none());
}

#[test]
fn error_messages() {
    assert_eq!(ThumbError::SourceNotFound("k".into()).message(), "thumbnail source not found: k");
    assert_eq!(ThumbError::Storage("s".into()).message(), "storage error: s");
    assert_eq!(ThumbError::Vfs("v".into()).message(), "vfs error: v");
    assert_eq!(ThumbError::Http("h".into()).message(), "http fetch error: h");
    assert_eq!(ThumbError::Generate("g".into()).message(), "thumbnail generate error: g");
    match local_read_error("/a.jpg", "gone") {
        ThumbError::Vfs(m) => assert_eq!(m, "local read /a.jpg: gone"),
        _ => panic!("wrong variant"),
    }
    match http_status_error("404 Not Found", "http://x/y.png") {
        ThumbError::Http(m) => assert_eq!(m, "HTTP 404 Not Found for http://x/y.png"),
        _ => panic!("wrong variant"),
    }
}

#[test]
fn origin_extensions() {
    assert_eq!(origin_extension("a/b/poster.jpg"), "jpg");
    assert_eq!(origin_extension("a.tar.gz"), "gz");
    assert_eq!(origin_extension("noext"), "noext");
    assert_eq!(origin_extension("dir.d/file."), "");
}

#[test]
fn http_cache_key_hashes_the_url() {
    // SHA-256 of "abc".
    assert_eq!(
        http_cache_key("abc", "png"),
        "ext-cache/ba7816bf8f01cfea414140de5dae2223b00361a396177a9cb410ff61f20015ad.png"
    );
}

#[test]
fn fetch_plans() {
    match plan_fetch::<()>(ThumbOrigin::Storage { key: "x/y.webp".into() }) {
        FetchPlan::Storage { key, ext } => assert_eq!((key.as_str(), ext.as_str()), ("x/y.webp", "webp")),
        _ => panic!("wrong plan"),
    }
    match plan_fetch(ThumbOrigin::Vfs { reader: 5u8, path: "/m/a.PNG".into() }) {
        FetchPlan::Vfs { reader, path, ext } => {
            assert_eq!((reader, path.as_str(), ext.as_str()), (5u8, "/m/a.PNG", "PNG"))
        }
        _ => panic!("wrong plan"),
    }
    match plan_fetch::<()>(ThumbOrigin::LocalFile { abs_path: "/m/b.heic".into() }) {
        FetchPlan::LocalFile { path, ext } => assert_eq!((path.as_str(), ext.as_str()), ("/m/b.heic", "heic")),
        _ => panic!("wrong plan"),
    }
    match plan_fetch::<()>(ThumbOrigin::Http { url: "abc".into(), ext: "png".into() }) {
        FetchPlan::Http { url, ext, cache_key } => {
            assert_eq!((url.as_str(), ext.as_str()), ("abc", "png"));
            assert!(cache_key.starts_with("ext-cache/ba7816bf"));
        }
        _ => panic!("wrong plan"),
    }
}

fn job() -> GenerateJob {
    GenerateJob { cache_key: "thumbs/a/1.10x0.webp".into(), format: OutputFormat::Webp }
}

#[test]
fn generate_cache_hit_is_returned() {
    let j = job();
    let (p, a) = generate_step(&j, GeneratePhase::Start, GenerateEvent::Begin);
    assert!(p == GeneratePhase::AwaitingCache);
    match a {
        GenerateAction::LookupCache(k) => assert_eq!(k, "thumbs/a/1.10x0.webp"),
        _ => panic!("expected lookup"),
    }
    let (p, a) = generate_step(&j, p, GenerateEvent::CacheLookup(Some(vec![1, 2])));
    assert!(p == GeneratePhase::Finished);
    match a {
        GenerateAction::Respond(Ok(b)) => assert_eq!(b, vec![1, 2]),
        _ => panic!("expected response"),
    }
}

#[test]
fn generate_miss_fetch_encode_store() {
    let j = job();
    let (p, _) = generate_step(&j, GeneratePhase::Start, GenerateEvent::Begin);
    let (p, a) = generate_step(&j, p, GenerateEvent::CacheLookup(None));
    assert!(p == GeneratePhase::AwaitingOrigin);
    assert!(matches!(a, GenerateAction::FetchOrigin));
    let (p, a) = generate_step(&j, p, GenerateEvent::OriginFetched(Ok((vec![9], "jpg".into()))));
    assert!(p == GeneratePhase::AwaitingThumbnail);
    match a {
        GenerateAction::Encode { raw, ext } => assert_eq!((raw, ext.as_str()), (vec![9], "jpg")),
        _ => panic!("expected encode"),
    }
    let (p, a) = generate_step(&j, p, GenerateEvent::ThumbnailEncoded(Ok(vec![7, 7])));
    assert!(p == GeneratePhase::Finished);
    match a {
        GenerateAction::StoreAndRespond { key, bytes, mime } => {
            assert_eq!(key, "thumbs/a/1.10x0.webp");
            assert_eq!(bytes, vec![7, 7]);
            assert_eq!(mime, "image/webp");
        }
        _ => panic!("expected store"),
    }
}

#[test]
fn generate_errors() {
    let j = job();
    let (p, a) = generate_step(
        &j,
        GeneratePhase::AwaitingOrigin,
        GenerateEvent::OriginFetched(Err(ThumbError::SourceNotFound("k".into()))),
    );
    assert!(p == GeneratePhase::Finished);
    assert!(matches!(a, GenerateAction::Respond(Err(ThumbError::SourceNotFound(ref k))) if k == "k"));
    let (_, a) = generate_step(&j, GeneratePhase::AwaitingThumbnail, GenerateEvent::ThumbnailEncoded(Err("boom".into())));
    assert!(matches!(a, GenerateAction::Respond(Err(ThumbError::Generate(ref m))) if m == "boom"));
    let (p, a) = generate_step(&j, GeneratePhase::Finished, GenerateEvent::Begin);
    assert!(p == GeneratePhase::Finished);
    assert!(matches!(a, GenerateAction::Nothing));
}

fn fetch() -> HttpFetch {
    HttpFetch { url: "http://h/p.png".into(), ext: "png".into(), cache_key: "ext-cache/k.png".into() }
}

#[test]
fn http_fetch_steps() {
    let f = fetch();
    let (p, a) = http_step(&f, HttpPhase::Start, HttpEvent::Begin);
    assert!(p == HttpPhase::AwaitingCache);
    assert!(matches!(a, HttpAction::LookupCache(ref k) if k == "ext-cache/k.png"));
    let (p2, a) = http_step(&f, p, HttpEvent::CacheLookup(Some(vec![3])));
    assert!(p2 == HttpPhase::Finished);
    assert!(matches!(a, HttpAction::Respond(Ok((ref b, ref e))) if *b == vec![3] && e == "png"));
    let (p, a) = http_step(&f, HttpPhase::AwaitingCache, HttpEvent::CacheLookup(None));
    assert!(p == HttpPhase::AwaitingResponse);
    assert!(matches!(a, HttpAction::Request));
    let (p3, a) = http_step(&f, p, HttpEvent::Response(Ok((404, "404 Not Found".into()))));
    assert!(p3 == HttpPhase::Finished);
    assert!(matches!(a, HttpAction::Respond(Err(ThumbError::SourceNotFound(ref u))) if u == "http://h/p.png"));
    let (_, a) = http_step(&f, HttpPhase::AwaitingResponse, HttpEvent::Response(Ok((500, "500 Internal Server Error".into()))));
    assert!(matches!(a, HttpAction::Respond(Err(ThumbError::Http(ref m))) if m == "HTTP 500 Internal Server Error for http://h/p.png"));
    let (p, a) = http_step(&f, HttpPhase::AwaitingResponse, HttpEvent::Response(Ok((204, "204 No Content".into()))));
    assert!(p == HttpPhase::AwaitingBody);
    let (p, a) = http_step(&f, HttpPhase::AwaitingResponse, HttpEvent::Response(Ok((200, "200 OK".into()))));
    assert!(p == HttpPhase::AwaitingBody);
    assert!(matches!(a, HttpAction::ReadBody));
    let (_, a) = http_step(&f, p, HttpEvent::Body(Ok(vec![1, 2, 3])));
    match a {
        HttpAction::StoreAndRespond { key, bytes, mime, ext } => {
            assert_eq!((key.as_str(), mime.as_str(), ext.as_str()), ("ext-cache/k.png", "image/png", "png"));
            assert_eq!(bytes, vec![1, 2, 3]);
        }
        _ => panic!("expected store"),
    }
    let (_, a) = http_step(&f, HttpPhase::AwaitingResponse, HttpEvent::Response(Err("dns".into())));
    assert!(matches!(a, HttpAction::Respond(Err(ThumbError::Http(ref m))) if m == "dns"));
    let (_, a) = http_step(&f, HttpPhase::AwaitingBody, HttpEvent::Body(Err("reset".into())));
    assert!(matches!(a, HttpAction::Respond(Err(ThumbError::Http(ref m))) if m == "reset"));
}

#[test]
fn local_fetch_outcomes() {
    let ok = local_fetch_result("/x/a.png", "png".into(), Ok(vec![1]));
    assert!(matches!(ok, Ok((ref b, ref e)) if *b == vec![1] && e == "png"));
    let missing = local_fetch_result(
        "/x/a.png",
        "png".into(),
        Err(LocalReadFailure { not_found: true, detail: "No such file".into() }),
    );
    assert!(matches!(missing, Err(ThumbError::SourceNotFound(ref p)) if p == "/x/a.png"));
    let denied = local_fetch_result(
        "/x/a.png",
        "png".into(),
        Err(LocalReadFailure { not_found: false, detail: "denied".into() }),
    );
    assert!(matches!(denied, Err(ThumbError::Vfs(ref m)) if m == "local read /x/a.png: denied"));
}
