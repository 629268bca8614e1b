use tokimo_package_image::exif::{
    exif_record, is_negative_reference, keep_raw_tag, trim_quotes, ExifField, ExifValue,
};
use tokimo_package_image::text::{ascii_string, decimal};

#[test]
fn quotes_are_trimmed() {
    assert_eq!(trim_quotes("\"Canon\""), "Canon");
    assert_eq!(trim_quotes("\"\"EOS \"R\"\"\""), "EOS \"R");
    assert_eq!(trim_quotes("\"\"\""), "");
    assert_eq!(trim_quotes("plain"), "plain");
}

#[test]
fn raw_tags_kept() {
    assert!(keep_raw_tag("1/125"));
    assert!(!keep_raw_tag("(Binary data 12 bytes)"));
    assert!(keep_raw_tag("(Binar"));
    assert!(!keep_raw_tag(&"x".repeat(500)));
    assert!(keep_raw_tag(&"x".repeat(499)));
    assert!(!keep_raw_tag(&"é".repeat(250)));
}

#[test]
fn hemispheres() {
    assert!(is_negative_reference("S", 'S'));
    assert!(!is_negative_reference("N", 'S'));
    assert!(is_negative_reference("\"W\"", 'W'));
    assert!(!is_negative_reference("", 'W'));
}

fn field(ifd: u16, name: &str, display: &str, value: ExifValue) -> ExifField {
    ExifField { ifd, name: name.to_string(), display: display.to_string(), value }
}

#[test]
fn record_from_fields() {
    let fields = vec![
        field(0, "Make", "\"Canon\"", ExifValue::Other),
        field(0, "DateTime", "2020-01-01 00:00:00", ExifValue::Other),
        field(0, "DateTimeOriginal", "2021-02-03 04:05:06", ExifValue::Other),
        field(0, "FocalLength", "50 mm", ExifValue::Rational(vec![(50, 1)])),
        field(0, "FNumber", "f/0", ExifValue::Rational(vec![(28, 0)])),
        field(0, "PhotographicSensitivity", "400", ExifValue::Short(vec![400])),
        field(0, "PixelXDimension", "4000", ExifValue::Long(vec![4000])),
        field(0, "PixelYDimension", "3000", ExifValue::Short(vec![3000])),
        field(0, "GPSLatitude", "..", ExifValue::Rational(vec![(10, 1), (30, 1), (0, 1)])),
        field(0, "GPSLatitudeRef", "S", ExifValue::Other),
        field(0, "GPSLongitude", "..", ExifValue::Rational(vec![(1, 1), (2, 1)])),
        field(0, "GPSLongitudeRef", "W", ExifValue::Other),
        field(0, "ExposureBiasValue", "-1/3 EV", ExifValue::SRational(vec![(-1, 3)])),
        field(1, "Orientation", "row 0 at top", ExifValue::Short(vec![1])),
        field(0, "Orientation", "row 0 at right", ExifValue::Short(vec![6])),
        field(0, "Orientation", "row 0 at bottom", ExifValue::Short(vec![3])),
        field(0, "MakerNote", "(Binary data 12 bytes)", ExifValue::Other),
        field(1, "Make", "\"Nikon\"", ExifValue::Other),
    ];
    let r = exif_record(&fields);
    assert_eq!(r.taken_at.as_deref(), Some("2021-02-03 04:05:06"));
    assert_eq!(r.camera_make.as_deref(), Some("Canon"));
    assert_eq!(r.camera_model, None);
    assert_eq!(r.focal_length, Some((50, 1)));
    assert_eq!(r.aperture, None);
    assert_eq!(r.iso, Some(400));
    assert_eq!((r.width, r.height), (Some(4000), Some(3000)));
    assert_eq!(r.orientation, Some(3));
    let lat = r.gps_latitude.unwrap();
    assert_eq!((lat.degrees, lat.minutes, lat.seconds, lat.negative), ((10, 1), (30, 1), (0, 1), true));
    assert!(r.gps_longitude.is_none());
    assert_eq!(r.exposure_compensation, Some((-1, 3)));
    let mut tags = r.raw_tags.clone();
    tags.sort();
    assert_eq!(tags.len(), 14);
    assert!(tags.contains(&("Make".to_string(), "\"Nikon\"".to_string())));
    assert!(tags.contains(&("Orientation".to_string(), "row 0 at bottom".to_string())));
    assert!(!tags.iter().any(|(k, _)| k == "MakerNote"));
}

#[test]
fn record_takes_date_time_when_original_is_missing() {
    let r = exif_record(&vec![field(0, "DateTime", "2020-01-01 00:00:00", ExifValue::Other)]);
    assert_eq!(r.taken_at.as_deref(), Some("2020-01-01 00:00:00"));
    assert!(exif_record(&vec![]).taken_at.is_none());
}

#[test]
fn decimal_and_ascii() {
    assert_eq!(decimal(0), "0");
    assert_eq!(decimal(1234567890), "1234567890");
    assert_eq!(decimal(u128::MAX), u128::MAX.to_string());
    assert_eq!(ascii_string(&vec![b'a', b'-', b'1']), "a-1");
}
