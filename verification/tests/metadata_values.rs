use std::io::Cursor;

use tokimo_package_image::exif::extract_exif_record;
use tokimo_package_image::metadata::{
    dimensions_from_exif, dimensions_of, first_reading, get_image_dimensions_from_bytes, mtime_as_date,
    normalize_creation_time, pick_creation_time, positive_dimensions, signed_dimensions,
};

fn png_bytes(w: u32, h: u32) -> Vec<u8> {
    let img = image::RgbImage::new(w, h);
    let mut out = Cursor::new(Vec::new());
    img.write_to(&mut out, image::ImageFormat::Png).unwrap();
    out.into_inner()
}


/// A little-endian TIFF whose only content is an Exif IFD with
/// `PixelXDimension` (SHORT) and `PixelYDimension` (LONG): no image the
/// `image` crate can read, but EXIF dimensions.
fn exif_only_tiff(x: u16, y: u32) -> Vec<u8> {
    let mut b = vec![b'I', b'I', 42, 0, 8, 0, 0, 0];
    // IFD0 at 8: one entry, ExifIFDPointer -> 26.
    b.extend_from_slice(&[1, 0]);
    b.extend_from_slice(&[0x69, 0x87, 4, 0, 1, 0, 0, 0, 26, 0, 0, 0]);
    b.extend_from_slice(&[0, 0, 0, 0]);
    // Exif IFD at 26: two entries.
    b.extend_from_slice(&[2, 0]);
    b.extend_from_slice(&[0x02, 0xa0, 3, 0, 1, 0, 0, 0]);
    b.extend_from_slice(&x.to_le_bytes());
    b.extend_from_slice(&[0, 0]);
    b.extend_from_slice(&[0x03, 0xa0, 4, 0, 1, 0, 0, 0]);
    b.extend_from_slice(&y.to_le_bytes());
    b.extend_from_slice(&[0, 0, 0, 0]);
    b
}

#[test]
fn bytes_dimensions_from_header() {
    assert_eq!(get_image_dimensions_from_bytes(&png_bytes(123, 77)), Some((123, 77)));
}

#[test]
fn bytes_dimensions_fall_back_to_exif() {
    let record = extract_exif_record(&exif_only_tiff(640, 480)).unwrap();
    assert_eq!((record.width, record.height), (Some(640), Some(480)));
    assert_eq!(get_image_dimensions_from_bytes(&exif_only_tiff(640, 480)), Some((640, 480)));
    assert_eq!(get_image_dimensions_from_bytes(&exif_only_tiff(0, 480)), None);
}

#[test]
fn dimensions_from_header_or_exif() {
    assert_eq!(dimensions_of(Some((5, u32::MAX)), Some(1), Some(1)), Some((5, -1)));
    assert_eq!(dimensions_of(None, Some(640), Some(480)), Some((640, 480)));
    assert_eq!(dimensions_of(None, Some(640), None), None);
    assert_eq!(dimensions_of(None, Some(0), Some(480)), None);
}

#[test]
fn no_exif_in_garbage() {
    assert!(extract_exif_record(b"not an image at all -- nothing to decode here").is_none());
}

#[test]
fn exif_dimensions_need_both_positive() {
    assert_eq!(dimensions_from_exif(Some(4000), Some(3000)), Some((4000, 3000)));
    assert_eq!(dimensions_from_exif(Some(4000), None), None);
    assert_eq!(dimensions_from_exif(Some(0), Some(3000)), None);
    assert_eq!(dimensions_from_exif(Some(-1), Some(3000)), None);
    assert_eq!(signed_dimensions(5, u32::MAX), (5, -1));
    assert_eq!(positive_dimensions(3, 4), Some((3, 4)));
    assert_eq!(positive_dimensions(3, 0), None);
}

#[test]
fn mtime_text() {
    assert_eq!(mtime_as_date(0, 0).as_deref(), Some("1970-01-01 00:00:00"));
    assert_eq!(mtime_as_date(1431648000, 500).as_deref(), Some("2015-05-15 00:00:00"));
    assert_eq!(mtime_as_date(-1, 0).as_deref(), Some("1969-12-31 23:59:59"));
    assert_eq!(mtime_as_date(i64::MAX, 0), None);
    assert_eq!(mtime_as_date(253402300799, 999_999_999).as_deref(), Some("9999-12-31 23:59:59"));
    assert_eq!(mtime_as_date(-62167219200, 0).as_deref(), Some("0000-01-01 00:00:00"));
}

#[test]
fn creation_time_forms() {
    assert_eq!(
        normalize_creation_time("2024-01-02T03:04:05.000000Z").as_deref(),
        Some("2024-01-02 03:04:05")
    );
    assert_eq!(
        normalize_creation_time("2024-01-02T03:04:05+08:00").as_deref(),
        Some("2024-01-02 03:04:05")
    );
    assert_eq!(normalize_creation_time("2024-01-02T03:04:05").as_deref(), Some("2024-01-02 03:04:05"));
    assert_eq!(normalize_creation_time("yesterday"), None);
}

#[test]
fn creation_time_tag_order() {
    let s = |x: &str| Some(x.to_string());
    assert_eq!(pick_creation_time(s("a"), s("b"), s("c")), s("a"));
    assert_eq!(pick_creation_time(None, s("b"), s("c")), s("b"));
    assert_eq!(pick_creation_time(None, None, s("c")), s("c"));
    assert_eq!(pick_creation_time(None, None, None), None);
    assert_eq!(first_reading(None, None, s("z")), s("z"));
}
