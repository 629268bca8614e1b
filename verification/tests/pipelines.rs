use tokimo_package_image::resize::{
    bytes_resize_step, classify_extension, classify_source, file_resize_step, BytesResizeAction,
    BytesResizeEvent, BytesResizePhase, FileResizeAction, FileResizeEvent, FileResizePhase, ResizeOutcome,
};
use tokimo_package_image::thumbnail::{
    generator_step, GeneratorAction, GeneratorEvent, GeneratorJob, GeneratorPhase, GeneratorSource,
};
use tokimo_package_image::OutputFormat;

/// A little-endian TIFF with one IFD describing a 4x3 JPEG stream of
/// `jpeg.len()` bytes stored right after the IFD.
fn tiff_with_preview(jpeg: &[u8]) -> Vec<u8> {
    let entries: [(u16, u16, u32, u32); 5] = [
        (0x0100, 4, 1, 4),
        (0x0101, 4, 1, 3),
        (0x0103, 3, 1, 7),
        (0x0201, 4, 1, 8 + 2 + 5 * 12 + 4),
        (0x0202, 4, 1, jpeg.len() as u32),
    ];
    let mut v = vec![b'I', b'I', 42, 0, 8, 0, 0, 0];
    v.extend_from_slice(&(entries.len() as u16).to_le_bytes());
    for (tag, typ, cnt, val) in entries {
        v.extend_from_slice(&tag.to_le_bytes());
        v.extend_from_slice(&typ.to_le_bytes());
        v.extend_from_slice(&cnt.to_le_bytes());
        if typ == 3 {
            v.extend_from_slice(&(val as u16).to_le_bytes());
            v.extend_from_slice(&[0, 0]);
        } else {
            v.extend_from_slice(&val.to_le_bytes());
        }
    }
    v.extend_from_slice(&[0, 0, 0, 0]);
    v.extend_from_slice(jpeg);
    v
}

type FileEvent = FileResizeEvent<String>;

#[test]
fn extension_classes() {
    let d = classify_extension(".HEIC");
    assert!(d.heic && d.ffmpeg_fallback && !d.raw_preview);
    let d = classify_extension("NEF");
    assert!(!d.heic && !d.ffmpeg_fallback && d.raw_preview);
    let d = classify_extension("avif");
    assert!(!d.heic && d.ffmpeg_fallback && !d.raw_preview);
    let d = classify_extension("jpg");
    assert!(!d.heic && !d.ffmpeg_fallback && !d.raw_preview);
}

#[test]
fn file_resize_raw_preview_path() {
    let d = classify_source("/photos/shot.dng");
    let (p, a) = file_resize_step(&d, FileResizePhase::Start, FileEvent::Begin);
    assert!(matches!(p, FileResizePhase::AwaitingSource) && matches!(a, FileResizeAction::ReadSource));

    let jpeg = vec![0xFF, 0xD8, 1, 2, 3, 0xFF, 0xD9];
    let (p, a) = file_resize_step(&d, p, FileEvent::SourceRead(Some(tiff_with_preview(&jpeg))));
    assert!(matches!(&a, FileResizeAction::VipsBuffer(x) if *x == jpeg));
    assert!(matches!(&p, FileResizePhase::AwaitingPreviewVips(x) if *x == jpeg));

    let (p, a) = file_resize_step(&d, p, FileEvent::Encoded(Err("no vips".to_string())));
    assert!(matches!(&a, FileResizeAction::DecodePreview(x) if *x == jpeg));

    let (p, a) = file_resize_step(&d, p, FileEvent::PreviewDecoded(None));
    assert!(matches!(a, FileResizeAction::VipsFile));

    let (p, a) = file_resize_step(&d, p, FileEvent::Encoded(Err("no vips".to_string())));
    assert!(matches!(p, FileResizePhase::AwaitingDecodeFile) && matches!(a, FileResizeAction::DecodeFile));

    let (p, a) = file_resize_step(&d, p, FileEvent::FileDecoded(Ok(vec![9, 9])));
    assert!(matches!(p, FileResizePhase::Finished));
    assert!(matches!(a, FileResizeAction::Respond(ResizeOutcome::Encoded(x)) if x == vec![9, 9]));
}

#[test]
fn file_resize_raw_without_preview_goes_to_vips() {
    let d = classify_source("/photos/shot.cr2");
    let (p, _) = file_resize_step(&d, FileResizePhase::Start, FileEvent::Begin);
    let (p, a) = file_resize_step(&d, p, FileEvent::SourceRead(Some(b"not a tiff".to_vec())));
    assert!(matches!(p, FileResizePhase::AwaitingVipsFile) && matches!(a, FileResizeAction::VipsFile));
    let (_, a) = file_resize_step(&d, FileResizePhase::AwaitingSource, FileEvent::SourceRead(None));
    assert!(matches!(a, FileResizeAction::VipsFile));
}

#[test]
fn file_resize_preview_success_and_errors() {
    let d = classify_source("x.arw");
    let jpeg = vec![1, 2, 3];
    let (_, a) = file_resize_step(&d, FileResizePhase::AwaitingPreviewVips(jpeg.clone()), FileEvent::Encoded(Ok(vec![7])));
    assert!(matches!(a, FileResizeAction::Respond(ResizeOutcome::Encoded(x)) if x == vec![7]));
    let (_, a) = file_resize_step(
        &d,
        FileResizePhase::AwaitingPreviewDecode,
        FileEvent::PreviewDecoded(Some(Err("bad encode".to_string()))),
    );
    assert!(matches!(a, FileResizeAction::Respond(ResizeOutcome::Failed(e)) if e == "bad encode"));
}

#[test]
fn file_resize_heic_path() {
    let d = classify_source("/photos/IMG_0001.HEIC");
    let (p, a) = file_resize_step(&d, FileResizePhase::Start, FileEvent::Begin);
    assert!(matches!(a, FileResizeAction::DecodeWithLibrary));
    let (p, a) = file_resize_step(&d, p, FileEvent::Encoded(Err("ffi".to_string())));
    assert!(matches!(a, FileResizeAction::VipsFile));
    let (p2, a) = file_resize_step(&d, p, FileEvent::Encoded(Ok(vec![4])));
    assert!(matches!(p2, FileResizePhase::Finished));
    assert!(matches!(a, FileResizeAction::Respond(ResizeOutcome::Encoded(x)) if x == vec![4]));
    let (p, a) = file_resize_step(&d, FileResizePhase::AwaitingVipsFile, FileEvent::Encoded(Err("vips".to_string())));
    assert!(matches!(a, FileResizeAction::RunFfmpeg));
    let (p, a) = file_resize_step(&d, p, FileEvent::Encoded(Err("boom".to_string())));
    assert!(matches!(p, FileResizePhase::Finished));
    assert!(matches!(a, FileResizeAction::Respond(ResizeOutcome::External(m)) if m == "boom"));

    let (_, a) = file_resize_step(&d, FileResizePhase::AwaitingLibrary, FileEvent::Encoded(Ok(vec![5])));
    assert!(matches!(a, FileResizeAction::Respond(ResizeOutcome::Encoded(x)) if x == vec![5]));
}

#[test]
fn file_resize_plain_and_ffmpeg_formats() {
    let d = classify_source("/photos/a.png");
    let (p, a) = file_resize_step(&d, FileResizePhase::Start, FileEvent::Begin);
    assert!(matches!(a, FileResizeAction::VipsFile));
    let (_, a) = file_resize_step(&d, p, FileEvent::Encoded(Ok(vec![1])));
    assert!(matches!(a, FileResizeAction::Respond(ResizeOutcome::Encoded(x)) if x == vec![1]));

    let d = classify_source("/photos/a.avif");
    let (_, a) = file_resize_step(&d, FileResizePhase::AwaitingVipsFile, FileEvent::Encoded(Err("x".to_string())));
    assert!(matches!(a, FileResizeAction::RunFfmpeg));
}

#[test]
fn file_resize_ignores_foreign_events() {
    let d = classify_source("a.jpg");
    let (p, a) = file_resize_step(&d, FileResizePhase::AwaitingVipsFile, FileEvent::SourceRead(None));
    assert!(matches!(p, FileResizePhase::AwaitingVipsFile) && matches!(a, FileResizeAction::Nothing));
    let (p, a) = file_resize_step(&d, FileResizePhase::Finished, FileEvent::Begin);
    assert!(matches!(p, FileResizePhase::Finished) && matches!(a, FileResizeAction::Nothing));
}

type BytesEvent = BytesResizeEvent<String>;

#[test]
fn bytes_resize_spill_path() {
    let d = classify_extension("jpg");
    let (p, a) = bytes_resize_step(&d, BytesResizePhase::Start, BytesEvent::Begin);
    assert!(matches!(a, BytesResizeAction::VipsBuffer));
    let (p, a) = bytes_resize_step(&d, p, BytesEvent::Encoded(Err("buffer".to_string())));
    assert!(matches!(a, BytesResizeAction::Spill("tokimo_vips")));
    let (p, a) = bytes_resize_step(&d, p, BytesEvent::Spilled(Ok(())));
    assert!(matches!(a, BytesResizeAction::VipsTemp));
    let (p, a) = bytes_resize_step(&d, p, BytesEvent::Encoded(Err("file".to_string())));
    assert!(matches!(a, BytesResizeAction::Decode { remove_temp: true }));
    let (p, a) = bytes_resize_step(&d, p, BytesEvent::Decoded(Ok(vec![3])));
    assert!(matches!(p, BytesResizePhase::Finished));
    assert!(matches!(a, BytesResizeAction::Respond { outcome: ResizeOutcome::Encoded(x), remove_temp: false } if x == vec![3]));
}

#[test]
fn bytes_resize_unwritable_temp_goes_to_decoder() {
    let d = classify_extension("png");
    let (_, a) = bytes_resize_step(&d, BytesResizePhase::AwaitingSpill, BytesEvent::Spilled(Err("disk".to_string())));
    assert!(matches!(a, BytesResizeAction::Decode { remove_temp: false }));
    let (_, a) = bytes_resize_step(&d, BytesResizePhase::AwaitingDecode, BytesEvent::Decoded(Err("bad".to_string())));
    assert!(matches!(a, BytesResizeAction::Respond { outcome: ResizeOutcome::Failed(e), remove_temp: false } if e == "bad"));
    let (_, a) = bytes_resize_step(&d, BytesResizePhase::AwaitingVipsTemp, BytesEvent::Encoded(Ok(vec![4])));
    assert!(matches!(a, BytesResizeAction::Respond { outcome: ResizeOutcome::Encoded(x), remove_temp: true } if x == vec![4]));
}

#[test]
fn bytes_resize_ffmpeg_formats() {
    let d = classify_extension("AVIF");
    let (p, a) = bytes_resize_step(&d, BytesResizePhase::AwaitingVipsTemp, BytesEvent::Encoded(Err("x".to_string())));
    assert!(matches!(a, BytesResizeAction::RunFfmpegOnTemp));
    let (_, a) = bytes_resize_step(&d, p, BytesEvent::Encoded(Err("ffmpeg exited".to_string())));
    assert!(matches!(a, BytesResizeAction::Respond { outcome: ResizeOutcome::External(m), remove_temp: true } if m == "ffmpeg exited"));
}

#[test]
fn bytes_resize_heic_path() {
    let d = classify_extension("heif");
    let (p, a) = bytes_resize_step(&d, BytesResizePhase::Start, BytesEvent::Begin);
    assert!(matches!(a, BytesResizeAction::DecodeWithLibrary));
    let (p, a) = bytes_resize_step(&d, p, BytesEvent::Encoded(Err("ffi".to_string())));
    assert!(matches!(a, BytesResizeAction::VipsBuffer));
    let (p, a) = bytes_resize_step(&d, p, BytesEvent::Encoded(Err("buffer".to_string())));
    assert!(matches!(a, BytesResizeAction::Spill("tokimo_vips")));
    let (p, a) = bytes_resize_step(&d, p, BytesEvent::Spilled(Ok(())));
    assert!(matches!(a, BytesResizeAction::VipsTemp));
    let (p, a) = bytes_resize_step(&d, p, BytesEvent::Encoded(Err("file".to_string())));
    assert!(matches!(a, BytesResizeAction::RunFfmpegOnTemp));
    let (_, a) = bytes_resize_step(&d, p, BytesEvent::Encoded(Ok(vec![8])));
    assert!(matches!(a, BytesResizeAction::Respond { outcome: ResizeOutcome::Encoded(x), remove_temp: true } if x == vec![8]));
}

type GenEvent = GeneratorEvent<String>;

#[test]
fn generator_jobs() {
    let j = GeneratorJob::for_bytes("p1", "JPG", OutputFormat::Png, false);
    assert!(matches!(&j.source, GeneratorSource::InMemory(e) if e == "jpg"));
    let j = GeneratorJob::for_bytes("p1", "xyz", OutputFormat::Png, true);
    assert!(matches!(&j.source, GeneratorSource::Spilled(n) if n == "tokimo_thumb_p1.xyz"));
    assert!(j.has_ffmpeg);
    let j = GeneratorJob::for_file(OutputFormat::Jpeg, false);
    assert!(matches!(j.source, GeneratorSource::File));
}

#[test]
fn generator_in_memory() {
    let j = GeneratorJob::for_bytes("p1", "webp", OutputFormat::Webp, false);
    let (p, a) = generator_step(&j, GeneratorPhase::Start, GenEvent::Begin);
    assert!(matches!(a, GeneratorAction::AcquireSlot));
    let (p, a) = generator_step(&j, p, GenEvent::Slot(Ok(())));
    assert!(matches!(&a, GeneratorAction::ResizeInMemory(e) if e == "webp"));
    let (p, a) = generator_step(&j, p, GenEvent::Resized(Ok(Ok(vec![1, 2]))));
    assert!(matches!(p, GeneratorPhase::Finished));
    assert!(matches!(a, GeneratorAction::Respond { result: Ok((b, "image/webp")), remove_temp: false } if b == vec![1, 2]));
}

#[test]
fn generator_spilled_with_ffmpeg_fallback() {
    let j = GeneratorJob::for_bytes("p9", "xyz", OutputFormat::Jpeg, true);
    let (p, _) = generator_step(&j, GeneratorPhase::Start, GenEvent::Begin);
    let (p, a) = generator_step(&j, p, GenEvent::Slot(Ok(())));
    assert!(matches!(&a, GeneratorAction::Spill(n) if n == "tokimo_thumb_p9.xyz"));
    let (p, a) = generator_step(&j, p, GenEvent::Spilled(Ok(())));
    assert!(matches!(a, GeneratorAction::ResizeFile));
    let (p, a) = generator_step(&j, p, GenEvent::Resized(Ok(Err("vips".to_string()))));
    assert!(matches!(a, GeneratorAction::RunFfmpeg));
    let (_, a) = generator_step(&j, p, GenEvent::Resized(Ok(Ok(vec![6]))));
    assert!(matches!(a, GeneratorAction::Respond { result: Ok((b, "image/jpeg")), remove_temp: true } if b == vec![6]));
}

#[test]
fn generator_errors() {
    let j = GeneratorJob::for_file(OutputFormat::Png, false);
    let (_, a) = generator_step(&j, GeneratorPhase::AwaitingSlot, GenEvent::Slot(Err("closed".to_string())));
    assert!(matches!(a, GeneratorAction::Respond { result: Err(e), remove_temp: false } if e == "closed"));
    let (_, a) = generator_step(&j, GeneratorPhase::AwaitingFileResize, GenEvent::Resized(Ok(Err("bad".to_string()))));
    assert!(matches!(a, GeneratorAction::Respond { result: Err(e), remove_temp: false } if e == "bad"));

    let j = GeneratorJob::for_bytes("p", "raw", OutputFormat::Png, true);
    let (_, a) = generator_step(&j, GeneratorPhase::AwaitingFileResize, GenEvent::Resized(Err("join".to_string())));
    assert!(matches!(a, GeneratorAction::Respond { result: Err(e), remove_temp: false } if e == "join"));
    let (_, a) = generator_step(&j, GeneratorPhase::AwaitingSpill, GenEvent::Spilled(Err("disk".to_string())));
    assert!(matches!(a, GeneratorAction::Respond { result: Err(e), remove_temp: false } if e == "disk"));
    let (_, a) = generator_step(&j, GeneratorPhase::AwaitingFfmpeg, GenEvent::Resized(Ok(Err("ff".to_string()))));
    assert!(matches!(a, GeneratorAction::Respond { result: Err(e), remove_temp: true } if e == "ff"));
}
