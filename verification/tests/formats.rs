use tokimo_package_image::resize::{
    bytes_temp_name, ext_for_match, ffmpeg_run_result, ext_for_temp_path, ffmpeg_cli_args, ffmpeg_ffi_quality,
    ffmpeg_ffi_width, ffmpeg_filename_hint, ffmpeg_scale_filter, is_heic_ext, is_heic_path,
    needs_ffmpeg_fallback, classify_source,
};
use tokimo_package_image::thumbnail::{is_memory_decodable, is_memory_decodable_lower, max_concurrent, spill_file_name};
use tokimo_package_image::vips::{
    encode_target, encode_temp_name, temp_file_name, vips_size, vips_thumbnail_args,
};
use tokimo_package_image::OutputFormat;

#[test]
fn mime_types_and_extensions() {
    assert_eq!(OutputFormat::Webp.mime_type(), "image/webp");
    assert_eq!(OutputFormat::Jpeg.mime_type(), "image/jpeg");
    assert_eq!(OutputFormat::Png.mime_type(), "image/png");
    assert_eq!(OutputFormat::Webp.ext(), "webp");
    assert_eq!(OutputFormat::Jpeg.ext(), "jpg");
    assert_eq!(OutputFormat::Png.ext(), "png");
    assert_eq!(OutputFormat::default(), OutputFormat::Webp);
}

#[test]
fn format_from_extension() {
    assert_eq!(OutputFormat::from_ext("JPEG"), OutputFormat::Jpeg);
    assert_eq!(OutputFormat::from_ext("jpg"), OutputFormat::Jpeg);
    assert_eq!(OutputFormat::from_ext("PnG"), OutputFormat::Png);
    assert_eq!(OutputFormat::from_ext("gif"), OutputFormat::Webp);
    assert_eq!(OutputFormat::from_ext(""), OutputFormat::Webp);
    assert_eq!(OutputFormat::from_lower_ext("PNG"), OutputFormat::Webp);
}

#[test]
fn extension_names_its_format() {
    for f in [OutputFormat::Webp, OutputFormat::Jpeg, OutputFormat::Png] {
        assert_eq!(OutputFormat::from_lower_ext(f.ext()), f);
        assert_eq!(OutputFormat::from_ext(f.ext()), f);
    }
}

#[test]
fn vips_sizes() {
    assert_eq!(vips_size(0), 32767);
    assert_eq!(vips_size(200), 200);
    assert_eq!(vips_size(u32::MAX), -1);
    let a = vips_thumbnail_args(160, 0);
    assert_eq!((a.width, a.height), (160, None));
    let a = vips_thumbnail_args(0, 120);
    assert_eq!((a.width, a.height), (32767, Some(120)));
}

#[test]
fn encode_targets_and_temp_names() {
    assert_eq!(encode_target("/tmp/a.webp", OutputFormat::Webp), "/tmp/a.webp[Q=80,effort=4]");
    assert_eq!(encode_target("/tmp/a.jpg", OutputFormat::Jpeg), "/tmp/a.jpg[Q=82]");
    assert_eq!(encode_target("/tmp/a.png", OutputFormat::Png), "/tmp/a.png");
    assert_eq!(temp_file_name("tokimo_vips", 42, 1234567890123, "png"), "tokimo_vips_42_1234567890123.png");
    assert_eq!(encode_temp_name(0, 0, OutputFormat::Jpeg), "tokimo_enc_0_0.jpg");
    assert_eq!(
        bytes_temp_name("tokimo_heic_thumb", 7, 10, " .\"HEIC\" "),
        "tokimo_heic_thumb_7_10.HEIC"
    );
    assert_eq!(bytes_temp_name("tokimo_vips", 7, 10, "..."), "tokimo_vips_7_10.bin");
}

#[test]
fn extension_normalisation() {
    assert_eq!(ext_for_match(" .\"HEIC\" "), "heic");
    assert_eq!(ext_for_match("`.Heif`"), "heif");
    assert_eq!(ext_for_match("j-p_g"), "jpg");
    assert_eq!(ext_for_match(""), "");
    assert_eq!(ext_for_temp_path("'.JPG'"), "JPG");
    assert_eq!(ext_for_temp_path("\\"), "bin");
}

#[test]
fn decoder_choice() {
    assert!(is_heic_ext("HEIC"));
    assert!(is_heic_ext(".heif"));
    assert!(!is_heic_ext("avif"));
    assert!(needs_ffmpeg_fallback("AVIF"));
    assert!(needs_ffmpeg_fallback("heic"));
    assert!(!needs_ffmpeg_fallback("png"));
    assert!(is_heic_path("/photos/IMG_0001.HEIC"));
    assert!(!is_heic_path("/photos/IMG_0001.jpg"));
    assert!(!is_heic_path("/photos/heic"));
    let d = classify_source("/a/b.tar.HEIF");
    assert!(d.heic && d.ffmpeg_fallback && !d.raw_preview);
    let d = classify_source("/a/b.DNG");
    assert!(!d.heic && !d.ffmpeg_fallback && d.raw_preview);
    let d = classify_source("/a/b.avif");
    assert!(!d.heic && d.ffmpeg_fallback && !d.raw_preview);
    let d = classify_source("/a/.heic");
    assert!(!d.heic && !d.ffmpeg_fallback && !d.raw_preview);
    let d = classify_source("/a/heic");
    assert!(!d.heic && !d.ffmpeg_fallback && !d.raw_preview);
}

#[test]
fn ffmpeg_decoder_settings() {
    assert_eq!(ffmpeg_ffi_quality(OutputFormat::Webp), 80);
    assert_eq!(ffmpeg_ffi_quality(OutputFormat::Jpeg), 3);
    assert_eq!(ffmpeg_ffi_quality(OutputFormat::Png), 0);
    assert_eq!(ffmpeg_ffi_width(0), None);
    assert_eq!(ffmpeg_ffi_width(320), Some(320));
    assert_eq!(ffmpeg_filename_hint("HEIC"), "input.HEIC");
    assert_eq!(ffmpeg_filename_hint(""), "input.bin");
}

#[test]
fn ffmpeg_scale_filters() {
    assert_eq!(ffmpeg_scale_filter(0, 0), None);
    assert_eq!(ffmpeg_scale_filter(0, 90).as_deref(), Some("scale=-1:90"));
    assert_eq!(ffmpeg_scale_filter(320, 0).as_deref(), Some("scale=320:-1"));
    assert_eq!(ffmpeg_scale_filter(320, 240).as_deref(), Some("scale=320:240"));
}

#[test]
fn ffmpeg_command_lines() {
    let args = ffmpeg_cli_args("/x/a.png", 320, 0, OutputFormat::Webp);
    assert_eq!(
        args,
        vec![
            "-hide_banner", "-loglevel", "error", "-y", "-i", "/x/a.png", "-frames:v", "1", "-vf",
            "scale=320:-1", "-vcodec", "libwebp", "-quality", "80", "-f", "image2pipe", "pipe:1",
        ]
    );
    let args = ffmpeg_cli_args("/x/a.heic", 0, 0, OutputFormat::Jpeg);
    assert_eq!(
        args,
        vec![
            "-hide_banner", "-loglevel", "error", "-y", "-i", "/x/a.heic", "-filter_complex",
            "[0:g:0]scale=-1:-1[out]", "-map", "[out]", "-vcodec", "mjpeg", "-q:v", "3", "-f",
            "image2pipe", "pipe:1",
        ]
    );
    let args = ffmpeg_cli_args("/x/a.avif", 0, 0, OutputFormat::Png);
    assert_eq!(
        args,
        vec![
            "-hide_banner", "-loglevel", "error", "-y", "-i", "/x/a.avif", "-frames:v", "1",
            "-vcodec", "png", "-f", "image2pipe", "pipe:1",
        ]
    );
}

#[test]
fn concurrency_limits() {
    assert_eq!(max_concurrent(0), 2);
    assert_eq!(max_concurrent(3), 2);
    assert_eq!(max_concurrent(4), 2);
    assert_eq!(max_concurrent(9), 4);
    assert_eq!(max_concurrent(64), 32);
}

#[test]
fn memory_decodable_extensions() {
    let (hit, lower) = is_memory_decodable("JPG");
    assert!(hit);
    assert_eq!(lower, "jpg");
    assert!(is_memory_decodable("Tiff").0);
    assert!(!is_memory_decodable("xyz").0);
    assert!(!is_memory_decodable("heic").0);
    assert!(!is_memory_decodable_lower("PNG"));
    assert_eq!(spill_file_name("photo-1", "xyz"), "tokimo_thumb_photo-1.xyz");
}

#[test]
fn ffmpeg_run_outcomes() {
    assert_eq!(ffmpeg_run_result(true, vec![1, 2], "exit status: 0", ""), Ok(vec![1, 2]));
    assert_eq!(
        ffmpeg_run_result(true, vec![], "exit status: 0", "").unwrap_err(),
        "ffmpeg exited with exit status: 0: "
    );
    assert_eq!(
        ffmpeg_run_result(false, vec![9], "exit status: 1", "bad input").unwrap_err(),
        "ffmpeg exited with exit status: 1: bad input"
    );
}
