use tokimo_package_image::raw_preview::{
    extract_raw_preview, is_raw_extension, is_raw_with_preview, parse_ifd, read_value, read_values,
    ByteOrder, JpegCandidate,
};

/// One IFD entry: tag, type, count, value (stored inline, little or big endian).
type Entry = (u16, u16, u32, u32);

fn put16(v: &mut Vec<u8>, x: u16, big: bool) {
    if big {
        v.extend_from_slice(&x.to_be_bytes());
    } else {
        v.extend_from_slice(&x.to_le_bytes());
    }
}

fn put32(v: &mut Vec<u8>, x: u32, big: bool) {
    if big {
        v.extend_from_slice(&x.to_be_bytes());
    } else {
        v.extend_from_slice(&x.to_le_bytes());
    }
}

/// Appends an IFD with the given entries and next-IFD offset at the end of `v`.
fn put_ifd(v: &mut Vec<u8>, entries: &[Entry], next: u32, big: bool) {
    put16(v, entries.len() as u16, big);
    for &(tag, typ, cnt, val) in entries {
        put16(v, tag, big);
        put16(v, typ, big);
        put32(v, cnt, big);
        if typ == 3 && cnt == 1 {
            put16(v, val as u16, big);
            put16(v, 0, big);
        } else {
            put32(v, val, big);
        }
    }
    put32(v, next, big);
}

fn header(big: bool, first_ifd: u32) -> Vec<u8> {
    let mut v = if big { b"MM".to_vec() } else { b"II".to_vec() };
    put16(&mut v, 42, big);
    put32(&mut v, first_ifd, big);
    v
}

fn ifd_len(n: usize) -> usize {
    2 + 12 * n + 4
}

fn jpeg_entries(w: u32, h: u32, off: u32, len: u32) -> Vec<Entry> {
    vec![
        (0x0100, 4, 1, w),
        (0x0101, 4, 1, h),
        (0x0103, 3, 1, 7),
        (0x0201, 4, 1, off),
        (0x0202, 4, 1, len),
    ]
}

#[test]
fn single_ifd_preview() {
    let data_off = (8 + ifd_len(5)) as u32;
    let mut v = header(false, 8);
    put_ifd(&mut v, &jpeg_entries(100, 50, data_off, 4), 0, false);
    v.extend_from_slice(&[0xFF, 0xD8, 0xFF, 0xD9]);
    assert_eq!(extract_raw_preview(&v), Some(vec![0xFF, 0xD8, 0xFF, 0xD9]));
}

#[test]
fn big_endian_preview() {
    let data_off = (8 + ifd_len(5)) as u32;
    let mut v = header(true, 8);
    put_ifd(&mut v, &jpeg_entries(100, 50, data_off, 3), 0, true);
    v.extend_from_slice(&[1, 2, 3]);
    assert_eq!(extract_raw_preview(&v), Some(vec![1, 2, 3]));
}

#[test]
fn largest_of_chained_ifds_wins() {
    let second = (8 + ifd_len(5)) as u32;
    let data = second + ifd_len(5) as u32;
    let mut v = header(false, 8);
    put_ifd(&mut v, &jpeg_entries(10, 10, data, 2), second, false);
    put_ifd(&mut v, &jpeg_entries(200, 100, data + 2, 3), 0, false);
    v.extend_from_slice(&[7, 7, 9, 9, 9]);
    assert_eq!(extract_raw_preview(&v), Some(vec![9, 9, 9]));
}

#[test]
fn sub_ifd_preview_is_found() {
    // Main IFD: no JPEG, one SubIFD. SubIFD: a 640x480 JPEG.
    let sub = (8 + ifd_len(1)) as u32;
    let data = sub + ifd_len(5) as u32;
    let mut v = header(false, 8);
    put_ifd(&mut v, &[(0x014A, 4, 1, sub)], 0, false);
    put_ifd(&mut v, &jpeg_entries(640, 480, data, 2), 0, false);
    v.extend_from_slice(&[5, 6]);
    assert_eq!(extract_raw_preview(&v), Some(vec![5, 6]));
}

#[test]
fn equal_pixels_longer_stream_wins_then_first() {
    let second = (8 + ifd_len(5)) as u32;
    let third = second + ifd_len(5) as u32;
    let data = third + ifd_len(5) as u32;
    let mut v = header(false, 8);
    put_ifd(&mut v, &jpeg_entries(10, 10, data, 2), second, false);
    put_ifd(&mut v, &jpeg_entries(10, 10, data + 2, 3), third, false);
    put_ifd(&mut v, &jpeg_entries(10, 10, data + 5, 3), 0, false);
    v.extend_from_slice(&[1, 1, 2, 2, 2, 3, 3, 3]);
    assert_eq!(extract_raw_preview(&v), Some(vec![2, 2, 2]));
}

#[test]
fn strip_based_old_jpeg_preview() {
    let data_off = (8 + ifd_len(4)) as u32;
    let mut v = header(false, 8);
    put_ifd(
        &mut v,
        &[(0x0100, 3, 1, 4), (0x0103, 3, 1, 6), (0x0111, 4, 1, data_off), (0x0117, 4, 1, 2)],
        0,
        false,
    );
    v.extend_from_slice(&[0xAA, 0xBB]);
    assert_eq!(extract_raw_preview(&v), Some(vec![0xAA, 0xBB]));
}

#[test]
fn rejects_non_tiff_and_bad_candidates() {
    assert_eq!(extract_raw_preview(b"II*"), None);
    assert_eq!(extract_raw_preview(b"XX*\0\x08\0\0\0"), None);
    assert_eq!(extract_raw_preview(b"II+\0\x08\0\0\0"), None);
    // No JPEG compression.
    let mut v = header(false, 8);
    put_ifd(&mut v, &[(0x0103, 3, 1, 1)], 0, false);
    assert_eq!(extract_raw_preview(&v), None);
    // Stream past the end of the file.
    let mut v = header(false, 8);
    put_ifd(&mut v, &jpeg_entries(1, 1, 60, 100), 0, false);
    assert_eq!(extract_raw_preview(&v), None);
    // One-byte stream.
    let data_off = (8 + ifd_len(5)) as u32;
    let mut v = header(false, 8);
    put_ifd(&mut v, &jpeg_entries(1, 1, data_off, 1), 0, false);
    v.push(0xFF);
    assert_eq!(extract_raw_preview(&v), None);
}

#[test]
fn byte_order_reads() {
    let b = [0x01, 0x02, 0x03, 0x04];
    assert_eq!(ByteOrder::Little.u16(&b, 0), Some(0x0201));
    assert_eq!(ByteOrder::Big.u16(&b, 2), Some(0x0304));
    assert_eq!(ByteOrder::Little.u32(&b, 0), Some(0x04030201));
    assert_eq!(ByteOrder::Big.u32(&b, 0), Some(0x01020304));
    assert_eq!(ByteOrder::Big.u16(&b, 3), None);
    assert_eq!(ByteOrder::Big.u32(&b, 1), None);
    assert_eq!(ByteOrder::Big.u32(&b, usize::MAX), None);
}

#[test]
fn value_reads() {
    let b = [9, 0x34, 0x12, 0, 0, 8, 0, 0, 0, 0xAA, 0xBB, 0xCC, 0xDD];
    assert_eq!(read_value(&b, ByteOrder::Little, 1, 0), Some(9));
    assert_eq!(read_value(&b, ByteOrder::Little, 3, 1), Some(0x1234));
    assert_eq!(read_value(&b, ByteOrder::Little, 4, 9), Some(0xDDCCBBAA));
    assert_eq!(read_value(&b, ByteOrder::Little, 4, 10), None);
    // Two shorts fit inline.
    assert_eq!(read_values(&b, ByteOrder::Little, 3, 1, 2), Some(vec![0x1234, 0]));
    // Up to four bytes are inline; five lie at the offset stored in the value field (9).
    let c = [9, 0, 0, 0, 0xAA, 0xBB, 0xCC, 0xDD, 0, 1, 2, 3, 4, 5];
    assert_eq!(read_values(&c, ByteOrder::Little, 1, 0, 4), Some(vec![9, 0, 0, 0]));
    assert_eq!(read_values(&c, ByteOrder::Little, 1, 0, 5), Some(vec![1, 2, 3, 4, 5]));
    assert_eq!(read_values(&c, ByteOrder::Little, 1, 0, 6), None);
    assert_eq!(read_values(&c, ByteOrder::Little, 4, 0, 0), Some(vec![]));
}

#[test]
fn parse_ifd_reports_candidate_subs_and_next() {
    let data_off = (8 + ifd_len(6)) as u32;
    let mut entries = jpeg_entries(3, 2, data_off, 2);
    entries.push((0x014A, 4, 1, 1234));
    let mut v = header(false, 8);
    put_ifd(&mut v, &entries, 77, false);
    v.extend_from_slice(&[1, 2]);
    let mut cands: Vec<JpegCandidate> = Vec::new();
    let mut subs: Vec<usize> = Vec::new();
    let next = parse_ifd(&v, ByteOrder::Little, 8, &mut cands, &mut subs);
    assert_eq!(next, Some(77));
    assert_eq!(subs, vec![1234]);
    assert_eq!(cands.len(), 1);
    assert_eq!((cands[0].offset, cands[0].length, cands[0].pixels), (data_off as usize, 2, 6));
    // An IFD that does not fit reads nothing.
    let mut cands2: Vec<JpegCandidate> = Vec::new();
    let mut subs2: Vec<usize> = Vec::new();
    assert_eq!(parse_ifd(&v[..20], ByteOrder::Little, 8, &mut cands2, &mut subs2), None);
    assert!(cands2.is_empty() && subs2.is_empty());
}

#[test]
fn raw_extensions() {
    assert!(is_raw_with_preview("DNG"));
    assert!(is_raw_with_preview("cr3"));
    assert!(is_raw_with_preview("Nef"));
    assert!(!is_raw_with_preview("jpg"));
    assert!(!is_raw_with_preview(""));
    assert!(is_raw_extension("arw"));
    assert!(!is_raw_extension("ARW"));
}

#[test]
fn zero_values_always_read() {
    let buf = [0u8; 4];
    assert_eq!(read_values(&buf, ByteOrder::Little, 4, 100, 0), Some(vec![]));
    assert_eq!(read_values(&buf, ByteOrder::Big, 3, 2, 1), Some(vec![0]));
    assert_eq!(read_values(&buf, ByteOrder::Big, 3, 3, 1), None);
}
