//! Recovering a capture date from an image's file name.
//!
//! Supported patterns:
//!   - `PixPin_YYYY-MM-DD_HH-MM-SS.ext`
//!   - `NNNNNN_YYYYMMDDHHMMSS_N.ext` (e.g. `578080_20260120004259_1.png`)
//!   - `IMG_YYYYMMDD_HHMMSS.ext`
//!   - `Screenshot_YYYYMMDD-HHMMSS.ext`
//!   - any file name containing `YYYY-MM-DD`, optionally followed by `_HH-MM-SS`
//!
//! The result is always normalised to `"YYYY-MM-DD HH:MM:SS"`.
//!
//! The scan works on the UTF-8 bytes of the name. Every byte it inspects or
//! copies is ASCII, except for the two places where the scan cuts a piece of
//! the name at a byte position that may fall inside a multi-byte character;
//! such a name yields no date (see [`DateScan::Fault`]).

use crate::exif::{dimension_of, exif_fields_of, extract_exif_record, primary_field};
use crate::text::{all_digits, ascii_string, ascii_text, copy_range, is_digit};
use vstd::prelude::*;
use vstd::string::StringSliceAdditionalSpecFns;
use vstd::utf8::{encode_scalar, encode_utf8};

verus! {

/// What the file-name scan yields.
pub enum DateScan {
    /// A date was recognised; the bytes of the normalised text.
    Found(Seq<u8>),
    /// No pattern matched.
    Missing,
    /// The scan would cut a multi-byte character in two; the name yields no
    /// date.
    Fault,
}

// ── byte constants ──────────────────────────────────────────────────────────

pub open spec fn dot() -> u8 { 46u8 }
pub open spec fn underscore() -> u8 { 95u8 }
pub open spec fn dash() -> u8 { 45u8 }
pub open spec fn colon() -> u8 { 58u8 }
pub open spec fn space() -> u8 { 32u8 }
pub open spec fn letter_t() -> u8 { 84u8 }

// ── the model ───────────────────────────────────────────────────────────────

/// Value of the two decimal digits at `s[i]`, `s[i + 1]`.
pub open spec fn num2(s: Seq<u8>, i: int) -> int {
    (s[i] - 48) * 10 + (s[i + 1] - 48)
}

/// Value of the four decimal digits starting at `s[i]`.
pub open spec fn num4(s: Seq<u8>, i: int) -> int {
    num2(s, i) * 100 + num2(s, i + 2)
}

/// The calendar bounds every recognised date must meet.
pub open spec fn in_calendar(year: int, month: int, day: int) -> bool {
    1970 <= year <= 2100 && 1 <= month <= 12 && 1 <= day <= 31
}

/// Eight digits `YYYYMMDD` that name an acceptable date.
pub open spec fn date_digits_ok(d: Seq<u8>) -> bool {
    d.len() == 8 && all_digits(d) && in_calendar(num4(d, 0), num2(d, 4), num2(d, 6))
}

/// `YYYYMMDD` and `HHMMSS` laid out as `YYYY-MM-DD HH:MM:SS`.
pub open spec fn stamp(date: Seq<u8>, clock: Seq<u8>) -> Seq<u8> {
    seq![
        date[0], date[1], date[2], date[3], dash(), date[4], date[5], dash(), date[6], date[7],
        space(),
        clock[0], clock[1], colon(), clock[2], clock[3], colon(), clock[4], clock[5],
    ]
}

/// The clock digits of midnight.
pub open spec fn midnight() -> Seq<u8> {
    seq![48u8, 48u8, 48u8, 48u8, 48u8, 48u8]
}

/// Index of the last `.` in `s`, or -1.
pub open spec fn last_dot(s: Seq<u8>) -> int
    decreases s.len(),
{
    if s.len() == 0 {
        -1
    } else if s.last() == dot() {
        s.len() - 1
    } else {
        last_dot(s.drop_last())
    }
}

/// The name without its final `.extension`.
pub open spec fn stem_of(name: Seq<u8>) -> Seq<u8> {
    let d = last_dot(name);
    if d < 0 {
        name
    } else {
        name.take(d)
    }
}

/// The pieces of `s` between underscores (an empty `s` is one empty piece).
pub open spec fn split_underscore(s: Seq<u8>) -> Seq<Seq<u8>>
    decreases s.len(),
{
    if s.len() == 0 {
        seq![Seq::<u8>::empty()]
    } else {
        let p = split_underscore(s.drop_last());
        if s.last() == underscore() {
            p.push(Seq::<u8>::empty())
        } else {
            p.update(p.len() - 1, p.last().push(s.last()))
        }
    }
}

/// A 14-digit `YYYYMMDDHHMMSS` piece with an acceptable date.
pub open spec fn is_compact_stamp(p: Seq<u8>) -> bool {
    p.len() == 14 && all_digits(p) && date_digits_ok(p.take(8))
}

/// The first piece, from `parts[k]` on, that is a compact stamp.
pub open spec fn first_compact(parts: Seq<Seq<u8>>, k: int) -> Option<Seq<u8>>
    decreases parts.len() - k,
{
    if k < 0 || k >= parts.len() {
        None
    } else if is_compact_stamp(parts[k]) {
        Some(stamp(parts[k].take(8), parts[k].subrange(8, 14)))
    } else {
        first_compact(parts, k + 1)
    }
}

/// The eight date digits of an ISO date `YYYY-MM-DD` at `s[i]`.
pub open spec fn iso_digits(s: Seq<u8>, i: int) -> Seq<u8> {
    s.subrange(i, i + 4) + s.subrange(i + 5, i + 7) + s.subrange(i + 8, i + 10)
}

/// `s[i..i + 10]` is an ISO date with an acceptable value.
pub open spec fn iso_date_at(s: Seq<u8>, i: int) -> bool {
    &&& 0 <= i
    &&& i + 10 <= s.len()
    &&& s[i + 4] == dash()
    &&& s[i + 7] == dash()
    &&& date_digits_ok(iso_digits(s, i))
}

/// `s` with every `-` turned into `:`.
pub open spec fn dash_to_colon(s: Seq<u8>) -> Seq<u8> {
    s.map_values(|b: u8| if b == dash() { colon() } else { b })
}

/// Number of ASCII digits in `s`.
pub open spec fn digit_count(s: Seq<u8>) -> nat
    decreases s.len(),
{
    if s.len() == 0 {
        0
    } else {
        digit_count(s.drop_last()) + if is_digit(s.last()) { 1nat } else { 0nat }
    }
}

/// A UTF-8 continuation byte (`10xxxxxx`).
pub open spec fn is_continuation(b: u8) -> bool {
    0x80 <= b <= 0xbf
}

/// Position `k` of the UTF-8 text `s` starts a character or is its end.
pub open spec fn byte_boundary(s: Seq<u8>, k: int) -> bool {
    k == s.len() || (0 <= k < s.len() && !is_continuation(s[k]))
}

/// Separator allowed between an ISO date and its time.
pub open spec fn is_time_separator(b: u8) -> bool {
    b == underscore() || b == space() || b == letter_t()
}

/// Result for an ISO date found at `s[i]`: with the time `HH-MM-SS` (or
/// `HH:MM:SS`) that follows it, else at midnight.
pub open spec fn iso_outcome(s: Seq<u8>, i: int) -> DateScan {
    let date = iso_digits(s, i);
    if i + 19 <= s.len() && is_time_separator(s[i + 10]) {
        if !byte_boundary(s, i + 19) {
            DateScan::Fault
        } else {
            let t = dash_to_colon(s.subrange(i + 11, i + 19));
            if t[2] == colon() && t[5] == colon() && digit_count(t) == 6 {
                DateScan::Found(stamp(date, seq![t[0], t[1], t[3], t[4], t[6], t[7]]))
            } else {
                DateScan::Found(stamp(date, midnight()))
            }
        }
    } else {
        DateScan::Found(stamp(date, midnight()))
    }
}

/// Scan for the first ISO date at or after position `i`.
pub open spec fn iso_scan(s: Seq<u8>, i: int) -> DateScan
    decreases s.len() - i,
{
    if i < 0 || i + 10 > s.len() {
        DateScan::Missing
    } else if iso_date_at(s, i) {
        iso_outcome(s, i)
    } else {
        iso_scan(s, i + 1)
    }
}

/// `s` without its `-` bytes.
pub open spec fn without_dashes(s: Seq<u8>) -> Seq<u8>
    decreases s.len(),
{
    if s.len() == 0 {
        s
    } else if s.last() == dash() {
        without_dashes(s.drop_last())
    } else {
        without_dashes(s.drop_last()).push(s.last())
    }
}

/// Result for an eight-digit date in `parts[k]`: with the time that the next
/// piece starts with, else at midnight.
pub open spec fn day_outcome(parts: Seq<Seq<u8>>, k: int) -> DateScan {
    let date = parts[k];
    if k + 1 < parts.len() && without_dashes(parts[k + 1]).len() >= 6 {
        let t = without_dashes(parts[k + 1]);
        if !byte_boundary(t, 6) {
            DateScan::Fault
        } else if all_digits(t.take(6)) {
            DateScan::Found(stamp(date, t.take(6)))
        } else {
            DateScan::Found(stamp(date, midnight()))
        }
    } else {
        DateScan::Found(stamp(date, midnight()))
    }
}

/// A piece `YYYYMMDD-HHMMSS` (as in `Screenshot_YYYYMMDD-HHMMSS`): an
/// acceptable eight-digit date, a dash, and six digits of time.
pub open spec fn is_dashed_day(p: Seq<u8>) -> bool {
    p.len() == 15 && p[8] == dash() && date_digits_ok(p.take(8)) && all_digits(p.skip(9))
}

/// Result for a piece `YYYYMMDD-HHMMSS`.
pub open spec fn dashed_day_outcome(p: Seq<u8>) -> DateScan {
    DateScan::Found(stamp(p.take(8), p.skip(9)))
}

/// Scan the pieces from `parts[k]` on for an eight-digit date.
pub open spec fn day_scan(parts: Seq<Seq<u8>>, k: int) -> DateScan
    decreases parts.len() - k,
{
    if k < 0 || k >= parts.len() {
        DateScan::Missing
    } else if date_digits_ok(parts[k]) {
        day_outcome(parts, k)
    } else if is_dashed_day(parts[k]) {
        dashed_day_outcome(parts[k])
    } else {
        day_scan(parts, k + 1)
    }
}

/// What the file name with UTF-8 bytes `name` tells of its date.
pub open spec fn filename_date(name: Seq<u8>) -> DateScan {
    let stem = stem_of(name);
    let parts = split_underscore(stem);
    match first_compact(parts, 0) {
        Some(t) => DateScan::Found(t),
        None => {
            let iso = iso_scan(stem, 0);
            if iso is Missing {
                day_scan(parts, 0)
            } else {
                iso
            }
        },
    }
}

/// A normalised `YYYY-MM-DD HH:MM:SS` text with an acceptable date.
pub open spec fn is_normalized_stamp(t: Seq<u8>) -> bool {
    exists|date: Seq<u8>, clock: Seq<u8>|
        {
            &&& date_digits_ok(date)
            &&& clock.len() == 6
            &&& all_digits(clock)
            &&& t == #[trigger] stamp(date, clock)
        }
}

// ── exec helpers ────────────────────────────────────────────────────────────

/// What one step of the scan found: a date's eight digits and its clock's
/// six, nothing, or a cut inside a multi-byte character.
enum Scan {
    Hit(Vec<u8>, Vec<u8>),
    Miss,
    Cut,
}

/// `res` is what the model's outcome `d` describes.
spec fn scan_matches(d: DateScan, res: Scan) -> bool {
    match d {
        DateScan::Found(t) => res matches Scan::Hit(date, clock) && t == stamp(date@, clock@)
            && date@.len() == 8 && clock@.len() == 6 && all_digits(date@) && all_digits(clock@),
        DateScan::Missing => res is Miss,
        DateScan::Fault => res is Cut,
    }
}

/// Whether `b[start..end]` are all ASCII digits.
fn digits_in(b: &[u8], start: usize, end: usize) -> (r: bool)
    requires
        start <= end <= b@.len(),
    ensures
        r == all_digits(b@.subrange(start as int, end as int)),
{
    let mut i = start;
    while i < end
        invariant
            start <= i <= end <= b@.len(),
            forall|k: int| start <= k < i ==> is_digit(#[trigger] b@[k]),
        decreases end - i,
    {
        if b[i] < 48 || b[i] > 57 {
            assert(!is_digit(b@.subrange(start as int, end as int)[i - start]));
            return false;
        }
        i = i + 1;
    }
    assert forall|k: int| 0 <= k < end - start implies is_digit(
        #[trigger] b@.subrange(start as int, end as int)[k],
    ) by {
        assert(b@.subrange(start as int, end as int)[k] == b@[start + k]);
    }
    true
}

/// Whether eight date digits name an acceptable date.
fn date_ok(d: &Vec<u8>) -> (r: bool)
    requires
        d@.len() == 8,
        all_digits(d@),
    ensures
        r == date_digits_ok(d@),
{
    assert(is_digit(d@[0]) && is_digit(d@[1]) && is_digit(d@[2]) && is_digit(d@[3]));
    assert(is_digit(d@[4]) && is_digit(d@[5]) && is_digit(d@[6]) && is_digit(d@[7]));
    let year: u32 = ((d[0] - 48) as u32) * 1000 + ((d[1] - 48) as u32) * 100 + ((d[2] - 48) as u32)
        * 10 + ((d[3] - 48) as u32);
    let month: u32 = ((d[4] - 48) as u32) * 10 + ((d[5] - 48) as u32);
    let day: u32 = ((d[6] - 48) as u32) * 10 + ((d[7] - 48) as u32);
    assert(year == num4(d@, 0));
    assert(month == num2(d@, 4));
    assert(day == num2(d@, 6));
    1970 <= year && year <= 2100 && 1 <= month && month <= 12 && 1 <= day && day <= 31
}

/// The normalised text for eight date digits and six clock digits.
fn stamp_string(date: &Vec<u8>, clock: &Vec<u8>) -> (res: String)
    requires
        date@.len() == 8,
        clock@.len() == 6,
        all_digits(date@),
        all_digits(clock@),
    ensures
        res@ == ascii_text(stamp(date@, clock@)),
{
    let mut v: Vec<u8> = Vec::new();
    v.push(date[0]);
    v.push(date[1]);
    v.push(date[2]);
    v.push(date[3]);
    v.push(45u8);
    v.push(date[4]);
    v.push(date[5]);
    v.push(45u8);
    v.push(date[6]);
    v.push(date[7]);
    v.push(32u8);
    v.push(clock[0]);
    v.push(clock[1]);
    v.push(58u8);
    v.push(clock[2]);
    v.push(clock[3]);
    v.push(58u8);
    v.push(clock[4]);
    v.push(clock[5]);
    assert(v@ =~= stamp(date@, clock@));
    assert(forall|i: int| 0 <= i < 8 ==> is_digit(#[trigger] date@[i]));
    assert(forall|i: int| 0 <= i < 6 ==> is_digit(#[trigger] clock@[i]));
    ascii_string(&v)
}

/// Length of the name without its final `.extension`.
fn stem_length(name: &[u8]) -> (n: usize)
    ensures
        n <= name@.len(),
        name@.take(n as int) == stem_of(name@),
{
    let mut last: Option<usize> = None;
    let mut i: usize = 0;
    while i < name.len()
        invariant
            i <= name@.len(),
            match last {
                Some(d) => last_dot(name@.take(i as int)) == d as int && d < i,
                None => last_dot(name@.take(i as int)) == -1,
            },
        decreases name@.len() - i,
    {
        assert(name@.take(i + 1).drop_last() =~= name@.take(i as int));
        if name[i] == 46u8 {
            last = Some(i);
        }
        i = i + 1;
    }
    assert(name@.take(name@.len() as int) =~= name@);
    match last {
        Some(d) => d,
        None => name.len(),
    }
}

/// The underscore-separated pieces of `name[..stem_len]`, as index ranges.
fn split_pieces(name: &[u8], stem_len: usize) -> (parts: Vec<(usize, usize)>)
    requires
        stem_len <= name@.len(),
    ensures
        parts@.len() == split_underscore(name@.take(stem_len as int)).len(),
        forall|k: int|
            0 <= k < parts@.len() ==> {
                &&& (#[trigger] parts@[k]).0 <= parts@[k].1 <= stem_len
                &&& name@.subrange(parts@[k].0 as int, parts@[k].1 as int) == split_underscore(
                    name@.take(stem_len as int),
                )[k]
            },
{
    let mut done: Vec<(usize, usize)> = Vec::new();
    let mut cur: usize = 0;
    let mut i: usize = 0;
    while i < stem_len
        invariant
            i <= stem_len <= name@.len(),
            cur <= i,
            done@.len() + 1 == split_underscore(name@.take(i as int)).len(),
            forall|k: int|
                0 <= k < done@.len() ==> {
                    &&& (#[trigger] done@[k]).0 <= done@[k].1 <= i
                    &&& name@.subrange(done@[k].0 as int, done@[k].1 as int) == split_underscore(
                        name@.take(i as int),
                    )[k]
                },
            name@.subrange(cur as int, i as int) == split_underscore(name@.take(i as int)).last(),
        decreases stem_len - i,
    {
        let ghost prev = split_underscore(name@.take(i as int));
        assert(name@.take(i + 1).drop_last() =~= name@.take(i as int));
        assert(name@.take(i + 1).last() == name@[i as int]);
        if name[i] == 95u8 {
            done.push((cur, i));
            cur = i + 1;
            assert(name@.subrange(cur as int, i + 1) =~= Seq::<u8>::empty());
        } else {
            assert(name@.subrange(cur as int, i + 1) =~= name@.subrange(cur as int, i as int).push(
                name@[i as int],
            ));
        }
        i = i + 1;
    }
    done.push((cur, stem_len));
    done
}

/// The normalised text of a 14-digit `YYYYMMDDHHMMSS` stamp, when its date
/// is acceptable (year 1970..=2100, month 1..=12, day 1..=31).
pub fn parse_compact_datetime(s: &[u8]) -> (r: Option<String>)
    requires
        s@.len() == 14,
        all_digits(s@),
    ensures
        match r {
            Some(t) => is_compact_stamp(s@) && t@ == ascii_text(stamp(s@.take(8), s@.subrange(8, 14))),
            None => !is_compact_stamp(s@),
        },
{
    let date = copy_range(s, 0, 8);
    let clock = copy_range(s, 8, 14);
    assert(date@ =~= s@.take(8));
    assert(all_digits(date@)) by {
        assert(forall|i: int| 0 <= i < 8 ==> date@[i] == #[trigger] s@[i]);
    }
    assert(all_digits(clock@)) by {
        assert(forall|i: int| 0 <= i < 6 ==> clock@[i] == #[trigger] s@[i + 8]);
    }
    if date_ok(&date) {
        Some(stamp_string(&date, &clock))
    } else {
        None
    }
}

/// The normalised text of the first piece that is a compact
/// `YYYYMMDDHHMMSS` stamp.
fn find_compact(name: &[u8], parts: &Vec<(usize, usize)>, Ghost(ps): Ghost<Seq<Seq<u8>>>) -> (res:
    Option<String>)
    requires
        parts@.len() == ps.len(),
        forall|k: int|
            0 <= k < parts@.len() ==> {
                &&& (#[trigger] parts@[k]).0 <= parts@[k].1 <= name@.len()
                &&& name@.subrange(parts@[k].0 as int, parts@[k].1 as int) == ps[k]
            },
    ensures
        match first_compact(ps, 0) {
            Some(t) => res matches Some(x) && x@ == ascii_text(t),
            None => res is None,
        },
{
    let mut k: usize = 0;
    while k < parts.len()
        invariant
            k <= parts@.len() == ps.len(),
            first_compact(ps, 0) == first_compact(ps, k as int),
            forall|j: int|
                0 <= j < parts@.len() ==> {
                    &&& (#[trigger] parts@[j]).0 <= parts@[j].1 <= name@.len()
                    &&& name@.subrange(parts@[j].0 as int, parts@[j].1 as int) == ps[j]
                },
        decreases parts@.len() - k,
    {
        let (s, e) = parts[k];
        let ghost p = ps[k as int];
        assert(name@.subrange(s as int, e as int) == p);
        if e - s == 14 && digits_in(name, s, e) {
            let piece = copy_range(name, s, e);
            assert(piece@ =~= p);
            if let Some(t) = parse_compact_datetime(piece.as_slice()) {
                return Some(t);
            }
        }
        k = k + 1;
    }
    None
}

/// The ISO date at `name[i..]`, if there is one, and the time that follows it.
fn iso_at(name: &[u8], stem_len: usize, i: usize) -> (res: Scan)
    requires
        stem_len <= name@.len(),
        i + 10 <= stem_len,
    ensures
        ({
            let stem = name@.take(stem_len as int);
            &&& !iso_date_at(stem, i as int) ==> res is Miss
            &&& iso_date_at(stem, i as int) ==> scan_matches(iso_outcome(stem, i as int), res)
        }),
{
    let ghost stem = name@.take(stem_len as int);
    if !(name[i + 4] == 45u8 && name[i + 7] == 45u8 && digits_in(name, i, i + 4) && digits_in(
        name,
        i + 5,
        i + 7,
    ) && digits_in(name, i + 8, i + 10)) {
        assert(!iso_date_at(stem, i as int)) by {
            if iso_date_at(stem, i as int) {
                let d = iso_digits(stem, i as int);
                assert(forall|k: int| 0 <= k < 4 ==> #[trigger] name@.subrange(i as int, i + 4)[k] == d[k]);
                assert(name@.subrange(i + 5, i + 7)[0] == d[4]);
                assert(name@.subrange(i + 5, i + 7)[1] == d[5]);
                assert(name@.subrange(i + 8, i + 10)[0] == d[6]);
                assert(name@.subrange(i + 8, i + 10)[1] == d[7]);
            }
        }
        return Scan::Miss;
    }
    let mut date = copy_range(name, i, i + 4);
    date.push(name[i + 5]);
    date.push(name[i + 6]);
    date.push(name[i + 8]);
    date.push(name[i + 9]);
    assert(date@ =~= iso_digits(stem, i as int));
    assert(all_digits(date@)) by {
        assert(forall|k: int| 0 <= k < 4 ==> #[trigger] date@[k] == name@.subrange(i as int, i + 4)[k]);
        assert(date@[4] == name@.subrange(i + 5, i + 7)[0]);
        assert(date@[5] == name@.subrange(i + 5, i + 7)[1]);
        assert(date@[6] == name@.subrange(i + 8, i + 10)[0]);
        assert(date@[7] == name@.subrange(i + 8, i + 10)[1]);
    }
    if !date_ok(&date) {
        return Scan::Miss;
    }
    let mut clock = zeros6();
    if stem_len - i >= 19 {
        let sep = name[i + 10];
        if sep == 95u8 || sep == 32u8 || sep == 84u8 {
            if i + 19 < stem_len && 0x80u8 <= name[i + 19] && name[i + 19] <= 0xbfu8 {
                return Scan::Cut;
            }
            // The eight bytes after the separator, `-` read as `:`.
            let ghost t = dash_to_colon(stem.subrange(i + 11, i + 19));
            let c2 = name[i + 13];
            let c5 = name[i + 16];
            let colon_ok = (c2 == 45u8 || c2 == 58u8) && (c5 == 45u8 || c5 == 58u8);
            let d1 = digits_in(name, i + 11, i + 13);
            let d2 = digits_in(name, i + 14, i + 16);
            let d3 = digits_in(name, i + 17, i + 19);
            proof {
                lemma_clock_digit_count(t);
                assert(t[2] == colon() <==> (c2 == 45u8 || c2 == 58u8));
                assert(t[5] == colon() <==> (c5 == 45u8 || c5 == 58u8));
                assert(d1 == (is_digit(t[0]) && is_digit(t[1]))) by {
                    assert(name@.subrange(i + 11, i + 13)[0] == name@[i + 11]);
                    assert(name@.subrange(i + 11, i + 13)[1] == name@[i + 12]);
                }
                assert(d2 == (is_digit(t[3]) && is_digit(t[4]))) by {
                    assert(name@.subrange(i + 14, i + 16)[0] == name@[i + 14]);
                    assert(name@.subrange(i + 14, i + 16)[1] == name@[i + 15]);
                }
                assert(d3 == (is_digit(t[6]) && is_digit(t[7]))) by {
                    assert(name@.subrange(i + 17, i + 19)[0] == name@[i + 17]);
                    assert(name@.subrange(i + 17, i + 19)[1] == name@[i + 18]);
                }
            }
            if colon_ok && d1 && d2 && d3 {
                let mut c: Vec<u8> = Vec::new();
                c.push(name[i + 11]);
                c.push(name[i + 12]);
                c.push(name[i + 14]);
                c.push(name[i + 15]);
                c.push(name[i + 17]);
                c.push(name[i + 18]);
                assert(c@ =~= seq![t[0], t[1], t[3], t[4], t[6], t[7]]);
                assert(all_digits(c@)) by {
                    assert(forall|k: int| 0 <= k < 6 ==> is_digit(#[trigger] c@[k]));
                }
                clock = c;
            }
        }
    }
    Scan::Hit(date, clock)
}

/// First ISO date in `name[..stem_len]` and the time that follows it.
fn find_iso(name: &[u8], stem_len: usize) -> (res: Scan)
    requires
        stem_len <= name@.len(),
    ensures
        scan_matches(iso_scan(name@.take(stem_len as int), 0), res),
{
    let ghost stem = name@.take(stem_len as int);
    let mut i: usize = 0;
    while i <= stem_len && stem_len - i >= 10
        invariant
            stem_len <= name@.len(),
            stem == name@.take(stem_len as int),
            iso_scan(stem, 0) == iso_scan(stem, i as int),
        decreases stem_len - i,
    {
        let found = iso_at(name, stem_len, i);
        match found {
            Scan::Miss => {},
            _ => {
                return found;
            },
        }
        i = i + 1;
    }
    Scan::Miss
}

/// Six zero digits.
fn zeros6() -> (v: Vec<u8>)
    ensures
        v@ == midnight(),
        all_digits(v@),
{
    let mut v: Vec<u8> = Vec::new();
    v.push(48u8);
    v.push(48u8);
    v.push(48u8);
    v.push(48u8);
    v.push(48u8);
    v.push(48u8);
    assert(v@ =~= midnight());
    v
}

/// An eight-byte clock `HH:MM:SS` with colons at 2 and 5 holds six digits
/// exactly when its other bytes are all digits.
proof fn lemma_clock_digit_count(t: Seq<u8>)
    requires
        t.len() == 8,
    ensures
        (t[2] == colon() && t[5] == colon()) ==> (digit_count(t) == 6 <==> (is_digit(t[0])
            && is_digit(t[1]) && is_digit(t[3]) && is_digit(t[4]) && is_digit(t[6]) && is_digit(
            t[7],
        ))),
{
    reveal_with_fuel(digit_count, 9);
    assert(t.drop_last().drop_last().drop_last().drop_last().drop_last().drop_last().drop_last().drop_last()
        =~= Seq::<u8>::empty());
}

/// `b[s..e]` without its `-` bytes.
fn strip_dashes(b: &[u8], s: usize, e: usize) -> (v: Vec<u8>)
    requires
        s <= e <= b@.len(),
    ensures
        v@ == without_dashes(b@.subrange(s as int, e as int)),
{
    let mut v: Vec<u8> = Vec::new();
    let mut i = s;
    while i < e
        invariant
            s <= i <= e <= b@.len(),
            v@ == without_dashes(b@.subrange(s as int, i as int)),
        decreases e - i,
    {
        assert(b@.subrange(s as int, i + 1).drop_last() =~= b@.subrange(s as int, i as int));
        if b[i] != 45u8 {
            v.push(b[i]);
        }
        i = i + 1;
    }
    v
}

/// First piece that is an eight-digit date, with the time that the next
/// piece starts with.
fn find_day(name: &[u8], parts: &Vec<(usize, usize)>, Ghost(ps): Ghost<Seq<Seq<u8>>>) -> (res: Scan)
    requires
        parts@.len() == ps.len(),
        forall|k: int|
            0 <= k < parts@.len() ==> {
                &&& (#[trigger] parts@[k]).0 <= parts@[k].1 <= name@.len()
                &&& name@.subrange(parts@[k].0 as int, parts@[k].1 as int) == ps[k]
            },
    ensures
        scan_matches(day_scan(ps, 0), res),
{
    let mut k: usize = 0;
    while k < parts.len()
        invariant
            k <= parts@.len() == ps.len(),
            day_scan(ps, 0) == day_scan(ps, k as int),
            forall|j: int|
                0 <= j < parts@.len() ==> {
                    &&& (#[trigger] parts@[j]).0 <= parts@[j].1 <= name@.len()
                    &&& name@.subrange(parts@[j].0 as int, parts@[j].1 as int) == ps[j]
                },
        decreases parts@.len() - k,
    {
        let (s, e) = parts[k];
        let ghost p = ps[k as int];
        assert(name@.subrange(s as int, e as int) == p);
        if e - s == 8 && digits_in(name, s, e) {
            let date = copy_range(name, s, e);
            if date_ok(&date) {
                let mut clock = zeros6();
                if k + 1 < parts.len() {
                    let (s2, e2) = parts[k + 1];
                    let t = strip_dashes(name, s2, e2);
                    assert(t@ == without_dashes(ps[k + 1]));
                    if t.len() > 6 && 0x80u8 <= t[6] && t[6] <= 0xbfu8 {
                        return Scan::Cut;
                    }
                    if t.len() >= 6 && digits_in(t.as_slice(), 0, 6) {
                        clock = copy_range(t.as_slice(), 0, 6);
                        assert(t@.subrange(0, 6) =~= t@.take(6));
                    }
                }
                return Scan::Hit(date, clock);
            }
        }
        if e - s == 15 && name[s + 8] == 45u8 && digits_in(name, s, s + 8) && digits_in(name, s + 9, e) {
            let date = copy_range(name, s, s + 8);
            let clock = copy_range(name, s + 9, e);
            assert(date@ =~= p.take(8));
            assert(clock@ =~= p.skip(9));
            assert(all_digits(date@)) by {
                assert(forall|i: int| 0 <= i < 8 ==> date@[i] == #[trigger] name@.subrange(s as int, s + 8)[i]);
            }
            if date_ok(&date) {
                return Scan::Hit(date, clock);
            }
        }
        k = k + 1;
    }
    Scan::Miss
}

/// Try to extract a date/time from a file name using common patterns, and
/// return it normalised as `"YYYY-MM-DD HH:MM:SS"`.
///
/// Patterns are tried in this order: a 14-digit `YYYYMMDDHHMMSS` piece between
/// underscores; an ISO date `YYYY-MM-DD` anywhere in the name, with an
/// optional `_HH-MM-SS`, ` HH:MM:SS` or `THH:MM:SS`; an 8-digit `YYYYMMDD`
/// piece with an optional time at the start of the next piece, or a piece
/// `YYYYMMDD-HHMMSS`. The final
/// extension is ignored. Dates outside years 1970..=2100, months 1..=12 or days
/// 1..=31 are skipped. A name whose time would have to be cut inside a
/// multi-byte character yields `None`.
pub fn extract_date_from_filename(filename: &str) -> (res: Option<String>)
    ensures
        match filename_date(filename.spec_bytes()) {
            DateScan::Found(t) => res matches Some(s) && s@ == ascii_text(t),
            _ => res is None,
        },
{
    let name = filename.as_bytes();
    let stem_len = stem_length(name);
    let ghost stem = name@.take(stem_len as int);
    let parts = split_pieces(name, stem_len);
    let ghost ps = split_underscore(stem);
    proof {
        assert forall|k: int| 0 <= k < parts@.len() implies (#[trigger] parts@[k]).0 <= parts@[k].1
            <= name@.len() by {}
    }
    if let Some(t) = find_compact(name, &parts, Ghost(ps)) {
        return Some(t);
    }
    match find_iso(name, stem_len) {
        Scan::Hit(d, c) => {
            return Some(stamp_string(&d, &c));
        },
        Scan::Cut => {
            return None;
        },
        Scan::Miss => {},
    }
    match find_day(name, &parts, Ghost(ps)) {
        Scan::Hit(d, c) => Some(stamp_string(&d, &c)),
        _ => None,
    }
}

/// Every date the scan recognises is a normalised `YYYY-MM-DD HH:MM:SS` text
/// whose year lies in 1970..=2100, month in 1..=12 and day in 1..=31.
pub proof fn lemma_found_date_is_normalized(name: Seq<u8>)
    ensures
        filename_date(name) matches DateScan::Found(t) ==> is_normalized_stamp(t),
{
    let stem = stem_of(name);
    let parts = split_underscore(stem);
    if let Some(t) = first_compact(parts, 0) {
        lemma_first_compact_normalized(parts, 0);
    } else {
        let iso = iso_scan(stem, 0);
        lemma_iso_scan_normalized(stem, 0);
        if iso is Missing {
            lemma_day_scan_normalized(parts, 0);
        }
    }
}

proof fn lemma_stamp_normalized(date: Seq<u8>, clock: Seq<u8>)
    requires
        date_digits_ok(date),
        clock.len() == 6,
        all_digits(clock),
    ensures
        is_normalized_stamp(stamp(date, clock)),
{
}

proof fn lemma_first_compact_normalized(parts: Seq<Seq<u8>>, k: int)
    ensures
        first_compact(parts, k) matches Some(t) ==> is_normalized_stamp(t),
    decreases parts.len() - k,
{
    if 0 <= k < parts.len() {
        if is_compact_stamp(parts[k]) {
            let p = parts[k];
            assert(all_digits(p.subrange(8, 14))) by {
                assert(forall|i: int| 0 <= i < 6 ==> p.subrange(8, 14)[i] == #[trigger] p[i + 8]);
            }
            lemma_stamp_normalized(p.take(8), p.subrange(8, 14));
        } else {
            lemma_first_compact_normalized(parts, k + 1);
        }
    }
}

proof fn lemma_iso_scan_normalized(s: Seq<u8>, i: int)
    ensures
        iso_scan(s, i) matches DateScan::Found(t) ==> is_normalized_stamp(t),
    decreases s.len() - i,
{
    if 0 <= i && i + 10 <= s.len() {
        if iso_date_at(s, i) {
            let date = iso_digits(s, i);
            assert(all_digits(midnight()));
            lemma_stamp_normalized(date, midnight());
            if i + 19 <= s.len() && is_time_separator(s[i + 10]) && byte_boundary(s, i + 19) {
                let t = dash_to_colon(s.subrange(i + 11, i + 19));
                if t[2] == colon() && t[5] == colon() && digit_count(t) == 6 {
                    lemma_clock_digit_count(t);
                    let c = seq![t[0], t[1], t[3], t[4], t[6], t[7]];
                    assert(all_digits(c));
                    lemma_stamp_normalized(date, c);
                }
            }
        } else {
            lemma_iso_scan_normalized(s, i + 1);
        }
    }
}

proof fn lemma_day_scan_normalized(parts: Seq<Seq<u8>>, k: int)
    ensures
        day_scan(parts, k) matches DateScan::Found(t) ==> is_normalized_stamp(t),
    decreases parts.len() - k,
{
    if 0 <= k < parts.len() {
        if date_digits_ok(parts[k]) {
            assert(all_digits(midnight()));
            lemma_stamp_normalized(parts[k], midnight());
            if k + 1 < parts.len() && without_dashes(parts[k + 1]).len() >= 6 {
                let t = without_dashes(parts[k + 1]);
                if all_digits(t.take(6)) {
                    lemma_stamp_normalized(parts[k], t.take(6));
                }
            }
        } else if is_dashed_day(parts[k]) {
            let p = parts[k];
            lemma_stamp_normalized(p.take(8), p.skip(9));
        } else {
            lemma_day_scan_normalized(parts, k + 1);
        }
    }
}

// ── dates from timestamps and container tags ───────────────────────────────

/// The text of an optional string.
pub open spec fn opt_text(o: Option<String>) -> Option<Seq<char>> {
    match o {
        Some(s) => Some(s@),
        None => None,
    }
}

/// The `strftime` pattern of the normalised date text.
pub open spec fn stamp_pattern() -> Seq<char> {
    "%Y-%m-%d %H:%M:%S"@
}

/// The UTC date text, in [`stamp_pattern`], of the instant `secs` seconds
/// and `nanos` nanoseconds after the Unix epoch, if chrono can represent it.
pub uninterp spec fn utc_text_of(secs: i64, nanos: u32) -> Option<Seq<char>>;

/// The date text, in [`stamp_pattern`] and in the text's own UTC offset, of
/// an RFC 3339 date-time, if chrono parses it.
pub uninterp spec fn rfc3339_text_of(s: Seq<char>) -> Option<Seq<char>>;

/// The date text, in [`stamp_pattern`], of a date-time without offset read
/// with the `strftime` pattern `parse`, if chrono parses it.
pub uninterp spec fn naive_text_of(s: Seq<char>, parse: Seq<char>) -> Option<Seq<char>>;

/// The shape of `YYYY-MM-DD HH:MM:SS`: nineteen characters, `-`, `-`, ` `,
/// `:`, `:` at 4, 7, 10, 13 and 16, and decimal digits elsewhere.
pub open spec fn is_stamp_text(t: Seq<char>) -> bool {
    &&& t.len() == 19
    &&& t[4] == '-' && t[7] == '-' && t[10] == ' ' && t[13] == ':' && t[16] == ':'
    &&& forall|i: int|
        0 <= i < 19 && i != 4 && i != 7 && i != 10 && i != 13 && i != 16 ==> '0' <= #[trigger] t[i]
            <= '9'
}

/// Seconds after the Unix epoch of the instants in years 0 to 9999 (UTC).
pub open spec fn in_four_digit_years(secs: i64) -> bool {
    -62167219200 <= secs <= 253402300799
}

/// `chrono::DateTime::from_timestamp` rendered with `format(pattern)`. The
/// result is named by [`utc_text_of`]; only the normalised pattern is
/// accepted, since chrono panics when rendering with a malformed one. The
/// contract also states what chrono's source shows for instants in years 0
/// to 9999 with fewer than 10^9 nanoseconds: `from_timestamp` gives a date,
/// and `%Y` renders its year zero-padded to four digits, so the text has the
/// shape of [`is_stamp_text`].
#[verifier::external_body]
fn utc_timestamp_text(secs: i64, nanos: u32, pattern: &str) -> (r: Option<String>)
    requires
        pattern@ == stamp_pattern(),
    ensures
        opt_text(r) == utc_text_of(secs, nanos),
        in_four_digit_years(secs) && nanos < 1_000_000_000 ==> (r is Some && is_stamp_text(r.unwrap()@)),
{
    match chrono::DateTime::from_timestamp(secs, nanos) {
        Some(dt) => Some(dt.format(pattern).to_string()),
        None => None,
    }
}

/// `chrono::DateTime::parse_from_rfc3339` rendered with `format(pattern)`.
/// The result is named by [`rfc3339_text_of`].
#[verifier::external_body]
fn rfc3339_text(s: &str, pattern: &str) -> (r: Option<String>)
    requires
        pattern@ == stamp_pattern(),
    ensures
        opt_text(r) == rfc3339_text_of(s@),
{
    match chrono::DateTime::parse_from_rfc3339(s) {
        Ok(dt) => Some(dt.format(pattern).to_string()),
        Err(_) => None,
    }
}

/// `chrono::NaiveDateTime::parse_from_str` rendered with `format(pattern)`.
/// The result is named by [`naive_text_of`].
#[verifier::external_body]
fn naive_text(s: &str, parse: &str, pattern: &str) -> (r: Option<String>)
    requires
        pattern@ == stamp_pattern(),
    ensures
        opt_text(r) == naive_text_of(s@, parse@),
{
    match chrono::NaiveDateTime::parse_from_str(s, parse) {
        Ok(dt) => Some(dt.format(pattern).to_string()),
        Err(_) => None,
    }
}

/// The normalised UTC date text of a file modification time given as
/// seconds and nanoseconds after the Unix epoch.
pub fn mtime_as_date(secs: i64, nanos: u32) -> (r: Option<String>)
    ensures
        opt_text(r) == utc_text_of(secs, nanos),
        in_four_digit_years(secs) && nanos < 1_000_000_000 ==> (r is Some && is_stamp_text(r.unwrap()@)),
{
    utc_timestamp_text(secs, nanos, "%Y-%m-%d %H:%M:%S")
}

/// The first of the readings that succeeded.
pub fn first_reading(a: Option<String>, b: Option<String>, c: Option<String>) -> (r: Option<String>)
    ensures
        r == (if a is Some { a } else if b is Some { b } else { c }),
{
    if a.is_some() {
        a
    } else if b.is_some() {
        b
    } else {
        c
    }
}

/// Normalise a container's creation time: read as RFC 3339, else as
/// `YYYY-MM-DDTHH:MM:SS.fZ`, else as `YYYY-MM-DDTHH:MM:SS`, and render as
/// `YYYY-MM-DD HH:MM:SS`.
pub fn normalize_creation_time(s: &str) -> (r: Option<String>)
    ensures
        opt_text(r) == (if rfc3339_text_of(s@) is Some {
            rfc3339_text_of(s@)
        } else if naive_text_of(s@, "%Y-%m-%dT%H:%M:%S%.fZ"@) is Some {
            naive_text_of(s@, "%Y-%m-%dT%H:%M:%S%.fZ"@)
        } else {
            naive_text_of(s@, "%Y-%m-%dT%H:%M:%S"@)
        }),
{
    let a = rfc3339_text(s, "%Y-%m-%d %H:%M:%S");
    let b = naive_text(s, "%Y-%m-%dT%H:%M:%S%.fZ", "%Y-%m-%d %H:%M:%S");
    let c = naive_text(s, "%Y-%m-%dT%H:%M:%S", "%Y-%m-%d %H:%M:%S");
    first_reading(a, b, c)
}

/// The creation time a media container reports: the format's
/// `creation_time` tag, else its `com.apple.quicktime.creationdate` tag, else
/// the first stream's `creation_time` tag.
pub fn pick_creation_time(
    format_creation: Option<String>,
    format_apple: Option<String>,
    first_stream_creation: Option<String>,
) -> (r: Option<String>)
    ensures
        r == (if format_creation is Some {
            format_creation
        } else if format_apple is Some {
            format_apple
        } else {
            first_stream_creation
        }),
{
    first_reading(format_creation, format_apple, first_stream_creation)
}

// ── image dimensions ────────────────────────────────────────────────────────

/// Reads an image's dimensions from its header with the `image` crate
/// (`ImageReader::new(..).with_guessed_format()?.into_dimensions()`). The
/// crate consults format-detection and decoding hooks that any code of the
/// process may register at run time, so the result is not a function of the
/// bytes alone, and nothing is stated of it.
#[verifier::external_body]
fn header_dimensions(bytes: &[u8]) -> (r: Option<(u32, u32)>) {
    match image::ImageReader::new(std::io::Cursor::new(bytes)).with_guessed_format() {
        Ok(reader) => match reader.into_dimensions() {
            Ok(d) => Some(d),
            Err(_) => None,
        },
        Err(_) => None,
    }
}

/// Pixel dimensions as signed 32-bit values (reinterpreting the bits).
pub fn signed_dimensions(w: u32, h: u32) -> (r: (i32, i32))
    ensures
        r == (w as i32, h as i32),
{
    (w as i32, h as i32)
}

/// A width and height, when both are positive.
pub fn positive_dimensions(w: i32, h: i32) -> (r: Option<(i32, i32)>)
    ensures
        r == (if w > 0 && h > 0 { Some((w, h)) } else { None }),
{
    if w > 0 && h > 0 {
        Some((w, h))
    } else {
        None
    }
}

/// The dimensions EXIF declares: width and height both present and
/// positive.
pub open spec fn exif_dimensions(width: Option<i32>, height: Option<i32>) -> Option<(i32, i32)> {
    match (width, height) {
        (Some(w), Some(h)) => if w > 0 && h > 0 { Some((w, h)) } else { None },
        _ => None,
    }
}

/// The dimensions EXIF `PixelXDimension`/`PixelYDimension` declare, when both
/// are present and positive.
pub fn dimensions_from_exif(width: Option<i32>, height: Option<i32>) -> (r: Option<(i32, i32)>)
    ensures
        r == exif_dimensions(width, height),
{
    match (width, height) {
        (Some(w), Some(h)) => positive_dimensions(w, h),
        _ => None,
    }
}

/// The dimensions of an image: those its header declares, else those its
/// EXIF pixel dimensions declare.
pub open spec fn image_dimensions(
    header: Option<(u32, u32)>,
    exif_width: Option<i32>,
    exif_height: Option<i32>,
) -> Option<(i32, i32)> {
    match header {
        Some((w, h)) => Some((w as i32, h as i32)),
        None => exif_dimensions(exif_width, exif_height),
    }
}

/// The dimensions of an image from the dimensions its header declares (if
/// they could be read) and the EXIF pixel dimensions.
pub fn dimensions_of(header: Option<(u32, u32)>, exif_width: Option<i32>, exif_height: Option<i32>) -> (r:
    Option<(i32, i32)>)
    ensures
        r == image_dimensions(header, exif_width, exif_height),
{
    match header {
        Some((w, h)) => Some(signed_dimensions(w, h)),
        None => dimensions_from_exif(exif_width, exif_height),
    }
}

/// The dimensions the EXIF data in some bytes declares.
pub open spec fn exif_dimensions_of_bytes(bytes: Seq<u8>) -> Option<(i32, i32)> {
    match exif_fields_of(bytes) {
        Some(fs) => exif_dimensions(
            dimension_of(primary_field(fs, "PixelXDimension"@)),
            dimension_of(primary_field(fs, "PixelYDimension"@)),
        ),
        None => None,
    }
}

/// Get image dimensions from raw bytes (header-only read), falling back to
/// the EXIF pixel dimensions when the header cannot be read. What the header
/// read gives is not a function of the bytes (see `header_dimensions`), so
/// the contract says: either some header dimensions, or the EXIF ones.
pub fn get_image_dimensions_from_bytes(bytes: &[u8]) -> (r: Option<(i32, i32)>)
    ensures
        r == exif_dimensions_of_bytes(bytes@) || r is Some,
{
    let header = header_dimensions(bytes);
    match header {
        Some(_) => dimensions_of(header, None, None),
        None => match extract_exif_record(bytes) {
            Some(record) => dimensions_of(None, record.width, record.height),
            None => None,
        },
    }
}

/// Without a `.`, the name is its own stem.
proof fn lemma_last_dot_absent(s: Seq<u8>)
    requires
        forall|i: int| 0 <= i < s.len() ==> s[i] != dot(),
    ensures
        last_dot(s) == -1,
    decreases s.len(),
{
    if s.len() > 0 {
        assert(s.last() == s[s.len() - 1]);
        lemma_last_dot_absent(s.drop_last());
    }
}

/// The last `.` of `s + "." + e`, where `e` has no `.`, is the one between.
proof fn lemma_last_dot_before_ext(s: Seq<u8>, e: Seq<u8>)
    requires
        forall|i: int| 0 <= i < e.len() ==> e[i] != dot(),
    ensures
        last_dot(s + seq![dot()] + e) == s.len(),
    decreases e.len(),
{
    let n = s + seq![dot()] + e;
    if e.len() == 0 {
        assert(n.last() == dot());
    } else {
        assert(n.drop_last() =~= s + seq![dot()] + e.drop_last());
        assert(n.last() == e[e.len() - 1]);
        lemma_last_dot_before_ext(s, e.drop_last());
    }
}

/// A piece without `_` is not split.
proof fn lemma_split_without_underscore(s: Seq<u8>)
    requires
        forall|i: int| 0 <= i < s.len() ==> s[i] != underscore(),
    ensures
        split_underscore(s) == seq![s],
    decreases s.len(),
{
    if s.len() == 0 {
        assert(s =~= Seq::<u8>::empty());
    } else {
        assert(s.last() == s[s.len() - 1]);
        lemma_split_without_underscore(s.drop_last());
        assert(s.drop_last().push(s.last()) =~= s);
        assert(seq![s.drop_last()].update(0, s.drop_last().push(s.last())) =~= seq![s]);
    }
}

/// The extension does not matter: two names that differ only in their final
/// extension (neither of which holds a `.`) yield the same date.
pub proof fn lemma_extension_is_ignored(stem: Seq<u8>, e1: Seq<u8>, e2: Seq<u8>)
    requires
        forall|i: int| 0 <= i < e1.len() ==> e1[i] != dot(),
        forall|i: int| 0 <= i < e2.len() ==> e2[i] != dot(),
    ensures
        filename_date(stem + seq![dot()] + e1) == filename_date(stem + seq![dot()] + e2),
{
    lemma_last_dot_before_ext(stem, e1);
    lemma_last_dot_before_ext(stem, e2);
    assert((stem + seq![dot()] + e1).take(stem.len() as int) =~= stem);
    assert((stem + seq![dot()] + e2).take(stem.len() as int) =~= stem);
}

/// The UTF-8 encoding of two texts one after the other is the encoding of
/// the first followed by that of the second.
proof fn lemma_encode_concat(a: Seq<char>, b: Seq<char>)
    ensures
        encode_utf8(a + b) == encode_utf8(a) + encode_utf8(b),
    decreases a.len(),
{
    if a.len() == 0 {
        assert(a + b =~= b);
    } else {
        assert((a + b)[0] == a[0]);
        assert((a + b).drop_first() =~= a.drop_first() + b);
        lemma_encode_concat(a.drop_first(), b);
    }
}

proof fn lemma_scalar_bytes_not_dot(v: u32)
    by (bit_vector)
    requires
        v != 46,
    ensures
        v <= 0x7F ==> (v & 0x7F) as u8 != 46,
        (0xC0 | ((v >> 6) & 0x1F) as u8) != 46,
        (0xE0 | ((v >> 12) & 0x0F) as u8) != 46,
        (0xF0 | ((v >> 18) & 0x7) as u8) != 46,
        (0x80 | (v & 0x3F) as u8) != 46,
        (0x80 | ((v >> 6) & 0x3F) as u8) != 46,
        (0x80 | ((v >> 12) & 0x3F) as u8) != 46,
{
}

/// A text without `.` encodes to bytes without `.`.
proof fn lemma_encode_without_dot(e: Seq<char>)
    requires
        !e.contains('.'),
    ensures
        forall|i: int| 0 <= i < encode_utf8(e).len() ==> encode_utf8(e)[i] != dot(),
    decreases e.len(),
{
    if e.len() > 0 {
        let c = e[0];
        assert(c != '.') by {
            if c == '.' {
                assert(e.contains('.'));
            }
        }
        assert(!e.drop_first().contains('.')) by {
            if e.drop_first().contains('.') {
                let k = choose|k: int| 0 <= k < e.drop_first().len() && e.drop_first()[k] == '.';
                assert(e[k + 1] == '.');
            }
        }
        lemma_encode_without_dot(e.drop_first());
        assert(c as u32 != 46u32) by {
            if c as u32 == 46u32 {
                vstd::utf8::char_u32_cast(c, 46u32);
                vstd::utf8::char_u32_cast('.', 46u32);
            }
        }
        lemma_scalar_bytes_not_dot(c as u32);
        let head = encode_scalar(c as u32);
        assert(forall|i: int| 0 <= i < head.len() ==> head[i] != dot());
        let all = encode_utf8(e);
        assert(all == head + encode_utf8(e.drop_first()));
        assert forall|i: int| 0 <= i < all.len() implies all[i] != dot() by {
            if i < head.len() {
                assert(all[i] == head[i]);
            } else {
                assert(all[i] == encode_utf8(e.drop_first())[i - head.len()]);
            }
        }
    }
}

/// Only the text before the last `.` matters: two names that differ only in
/// their final extension (neither of which holds a `.`) yield the same date,
/// so [`extract_date_from_filename`] answers them alike.
pub proof fn lemma_extension_is_ignored_in_names(n1: &str, n2: &str, stem: Seq<char>, e1: Seq<char>, e2: Seq<char>)
    requires
        n1@ == stem + seq!['.'] + e1,
        n2@ == stem + seq!['.'] + e2,
        !e1.contains('.'),
        !e2.contains('.'),
    ensures
        filename_date(n1.spec_bytes()) == filename_date(n2.spec_bytes()),
{
    assert(encode_utf8(seq!['.']) =~= seq![dot()]) by {
        assert(seq!['.'][0] as u32 == 46u32);
        assert((46u32 & 0x7F) as u8 == 46u8) by (bit_vector);
        assert(encode_scalar(46u32) =~= seq![46u8]);
        assert(seq!['.'].drop_first() =~= Seq::<char>::empty());
        assert(encode_utf8(Seq::<char>::empty()) =~= Seq::<u8>::empty());
    }
    lemma_encode_concat(stem, seq!['.']);
    lemma_encode_concat(stem + seq!['.'], e1);
    lemma_encode_concat(stem + seq!['.'], e2);
    lemma_encode_without_dot(e1);
    lemma_encode_without_dot(e2);
    let sb = encode_utf8(stem);
    assert(n1.spec_bytes() == sb + seq![dot()] + encode_utf8(e1));
    assert(n2.spec_bytes() == sb + seq![dot()] + encode_utf8(e2));
    lemma_extension_is_ignored(sb, encode_utf8(e1), encode_utf8(e2));
}

proof fn lemma_day_scan_skips(parts: Seq<Seq<u8>>, j: int, k: int)
    requires
        0 <= j <= k < parts.len(),
        forall|i: int| 0 <= i < k ==> !date_digits_ok(#[trigger] parts[i]) && !is_dashed_day(parts[i]),
    ensures
        day_scan(parts, j) == day_scan(parts, k),
    decreases k - j,
{
    if j < k {
        assert(!date_digits_ok(parts[j]) && !is_dashed_day(parts[j]));
        lemma_day_scan_skips(parts, j + 1, k);
    }
}

/// A date piece `YYYYMMDD` followed by a piece whose text, dashes left out,
/// starts with six digits takes exactly those six digits as its time, however
/// long that piece is (`IMG_20230815_142359.jpg`,
/// `PXL_20230815_142359123.jpg`, `IMG_20230815_14-23-59.jpg`), when no
/// earlier pattern applies: no compact 14-digit piece, no ISO date, no earlier
/// date piece.
pub proof fn lemma_time_from_next_piece(name: Seq<u8>, k: int)
    requires
        first_compact(split_underscore(stem_of(name)), 0) is None,
        iso_scan(stem_of(name), 0) is Missing,
        0 <= k,
        k + 1 < split_underscore(stem_of(name)).len(),
        forall|i: int|
            0 <= i < k ==> !date_digits_ok(#[trigger] split_underscore(stem_of(name))[i])
                && !is_dashed_day(split_underscore(stem_of(name))[i]),
        date_digits_ok(split_underscore(stem_of(name))[k]),
        without_dashes(split_underscore(stem_of(name))[k + 1]).len() >= 6,
        all_digits(without_dashes(split_underscore(stem_of(name))[k + 1]).take(6)),
        byte_boundary(without_dashes(split_underscore(stem_of(name))[k + 1]), 6),
    ensures
        filename_date(name) == DateScan::Found(
            stamp(
                split_underscore(stem_of(name))[k],
                without_dashes(split_underscore(stem_of(name))[k + 1]).take(6),
            ),
        ),
{
    let parts = split_underscore(stem_of(name));
    lemma_day_scan_skips(parts, 0, k);
}

/// A normalised date text is recognised as itself: scanning
/// `YYYY-MM-DD HH:MM:SS` (with an acceptable date) gives back that text.
pub proof fn lemma_normalized_stamp_is_fixed_point(date: Seq<u8>, clock: Seq<u8>)
    requires
        date_digits_ok(date),
        clock.len() == 6,
        all_digits(clock),
    ensures
        filename_date(stamp(date, clock)) == DateScan::Found(stamp(date, clock)),
{
    let t = stamp(date, clock);
    assert(forall|i: int| 0 <= i < 8 ==> is_digit(#[trigger] date[i]));
    assert(forall|i: int| 0 <= i < 6 ==> is_digit(#[trigger] clock[i]));
    assert forall|i: int| 0 <= i < t.len() implies t[i] != dot() && t[i] != underscore() by {}
    lemma_last_dot_absent(t);
    assert(stem_of(t) == t);
    lemma_split_without_underscore(t);
    let parts = split_underscore(t);
    assert(!is_compact_stamp(parts[0]));
    assert(first_compact(parts, 1) is None);
    assert(first_compact(parts, 0) is None);
    assert(iso_digits(t, 0) =~= date);
    assert(iso_date_at(t, 0));
    let time = dash_to_colon(t.subrange(11, 19));
    lemma_clock_digit_count(time);
    assert(seq![time[0], time[1], time[3], time[4], time[6], time[7]] =~= clock);
    assert(iso_scan(t, 0) == iso_outcome(t, 0));
}

} // verus!
