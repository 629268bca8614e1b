use tokimo_package_image::extract_date_from_filename;
use tokimo_package_image::metadata::parse_compact_datetime;

fn date(name: &str) -> Option<String> {
    extract_date_from_filename(name)
}

#[test]
fn screenshot_dash_time() {
    assert_eq!(date("Screenshot_20220101-235959.jpg").as_deref(), Some("2022-01-01 23:59:59"));
}

#[test]
fn iso_with_t_and_colons() {
    assert_eq!(date("scan 2021-03-04T05:06:07.png").as_deref(), Some("2021-03-04 05:06:07"));
}

#[test]
fn iso_with_space_separator() {
    assert_eq!(date("shot 2021-03-04 05-06-07.png").as_deref(), Some("2021-03-04 05:06:07"));
}

#[test]
fn iso_with_bad_time_falls_back_to_midnight() {
    assert_eq!(date("x_2021-03-04_05-0a-07.png").as_deref(), Some("2021-03-04 00:00:00"));
    assert_eq!(date("x_2021-03-04-05-06-07.png").as_deref(), Some("2021-03-04 00:00:00"));
}

#[test]
fn iso_out_of_range_is_skipped() {
    assert_eq!(date("1969-01-01_and_2020-02-03.jpg").as_deref(), Some("2020-02-03 00:00:00"));
    assert!(date("2020-13-01.jpg").is_none());
    assert!(date("2020-12-32.jpg").is_none());
}

#[test]
fn compact_wins_over_iso() {
    assert_eq!(
        date("2020-01-01_20210203040506.jpg").as_deref(),
        Some("2021-02-03 04:05:06")
    );
}

#[test]
fn compact_with_invalid_date_is_skipped() {
    assert_eq!(
        date("20211301040506_20210203040506.jpg").as_deref(),
        Some("2021-02-03 04:05:06")
    );
}

#[test]
fn eight_digits_without_time_is_midnight() {
    assert_eq!(date("IMG_20230815.jpg").as_deref(), Some("2023-08-15 00:00:00"));
    assert_eq!(date("IMG_20230815_ab.jpg").as_deref(), Some("2023-08-15 00:00:00"));
}

#[test]
fn eight_digits_with_dashed_time() {
    assert_eq!(date("IMG_20230815_14-23-59.jpg").as_deref(), Some("2023-08-15 14:23:59"));
}

#[test]
fn extension_is_ignored_and_dots_split_only_the_last() {
    assert_eq!(date("a.2023-08-15.b.jpg").as_deref(), Some("2023-08-15 00:00:00"));
    assert!(date("name.2023-08-15").is_none());
}

#[test]
fn non_ascii_names_are_scanned_by_bytes() {
    assert_eq!(date("截图_20230815_142359.png").as_deref(), Some("2023-08-15 14:23:59"));
    assert_eq!(date("照片2024-12-31.heic").as_deref(), Some("2024-12-31 00:00:00"));
}

#[test]
fn empty_and_plain_names() {
    assert!(date("").is_none());
    assert!(date(".jpg").is_none());
    assert!(date("2023").is_none());
}

#[test]
fn every_found_date_is_normalized() {
    for name in [
        "PixPin_2024-05-17_09-12-30.png",
        "578080_20260120004259_1.png",
        "IMG_20230815_142359.jpg",
        "photo-2024-12-31.heic",
        "Screenshot_20220101-235959.jpg",
    ] {
        let d = date(name).unwrap();
        let b = d.as_bytes();
        assert_eq!(b.len(), 19);
        assert_eq!((b[4], b[7], b[10], b[13], b[16]), (b'-', b'-', b' ', b':', b':'));
        let year: u32 = d[0..4].parse().unwrap();
        assert!((1970..=2100).contains(&year));
    }
}

#[test]
fn normalized_text_reads_back_as_itself() {
    for name in ["IMG_20230815_142359.jpg", "PixPin_2024-05-17_09-12-30.png", "photo-2024-12-31.heic"] {
        let d = date(name).unwrap();
        assert_eq!(date(&d), Some(d.clone()));
    }
    assert_eq!(date("2024-05-17 09:12:30").as_deref(), Some("2024-05-17 09:12:30"));
}

#[test]
fn compact_stamps() {
    assert_eq!(parse_compact_datetime(b"20260120004259").as_deref(), Some("2026-01-20 00:42:59"));
    assert_eq!(parse_compact_datetime(b"21001231235959").as_deref(), Some("2100-12-31 23:59:59"));
    assert_eq!(parse_compact_datetime(b"19691231235959"), None);
    assert_eq!(parse_compact_datetime(b"20211301040506"), None);
    assert_eq!(parse_compact_datetime(b"20210100040506"), None);
}

#[test]
fn names_cut_inside_a_character_give_none() {
    // The time after the ISO date would end inside `é`.
    assert!(date("2024-05-17_09-12-3é.png").is_none());
    // The time piece after an eight-digit date would be cut inside `é`.
    assert!(date("IMG_20230815_12345é.jpg").is_none());
    // Whole characters are fine.
    assert_eq!(date("2024-05-17_09-12-30é.png").as_deref(), Some("2024-05-17 09:12:30"));
}

#[test]
fn only_the_text_before_the_last_dot_matters() {
    for stem in ["IMG_20230815_142359", "photo-2024-12-31", "random", "截图_20230815_142359"] {
        assert_eq!(date(&format!("{stem}.jpg")), date(&format!("{stem}.HEIC")));
        assert_eq!(date(&format!("{stem}.")), date(&format!("{stem}.2020-01-01_x")));
    }
}

#[test]
fn dashed_form_needs_six_time_digits() {
    assert!(date("a_20220101-xyz.jpg").is_none());
    assert!(date("a_20220101-2359.jpg").is_none());
    assert_eq!(date("a_20220101-235959.jpg").as_deref(), Some("2022-01-01 23:59:59"));
}
