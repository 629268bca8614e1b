//! EXIF metadata: the fields `kamadak-exif` reads from an image container,
//! and the record made of them (capture time, camera and lens, exposure,
//! dimensions, GPS position, raw tags). Rationals are kept as
//! `(numerator, denominator)` pairs; dividing them out is left to the caller.

use std::io::Cursor;

use ::exif::Reader;
use ::exif::Value::{Long, Rational, SRational, Short};

use crate::metadata::opt_text;
use crate::text::{chars_equal, chars_of, push_char};
use vstd::prelude::*;
use vstd::utf8::encode_utf8;

verus! {

/// `s` without the leading `c` characters.
pub open spec fn trim_start_char(s: Seq<char>, c: char) -> Seq<char>
    decreases s.len(),
{
    if s.len() > 0 && s[0] == c {
        trim_start_char(s.drop_first(), c)
    } else {
        s
    }
}

/// `s` without the trailing `c` characters.
pub open spec fn trim_end_char(s: Seq<char>, c: char) -> Seq<char>
    decreases s.len(),
{
    if s.len() > 0 && s.last() == c {
        trim_end_char(s.drop_last(), c)
    } else {
        s
    }
}

/// `s` without leading and trailing `c` characters.
pub open spec fn trim_char(s: Seq<char>, c: char) -> Seq<char> {
    trim_end_char(trim_start_char(s, c), c)
}

proof fn lemma_trim_start_index(s: Seq<char>, c: char, i: int)
    requires
        0 <= i <= s.len(),
        forall|k: int| 0 <= k < i ==> s[k] == c,
        i == s.len() || s[i] != c,
    ensures
        trim_start_char(s, c) == s.subrange(i, s.len() as int),
    decreases i,
{
    if i == 0 {
        assert(s.subrange(0, s.len() as int) =~= s);
    } else {
        let t = s.drop_first();
        assert forall|k: int| 0 <= k < i - 1 implies t[k] == c by {
            assert(t[k] == s[k + 1]);
        }
        lemma_trim_start_index(t, c, i - 1);
        assert(t.subrange(i - 1, t.len() as int) =~= s.subrange(i, s.len() as int));
    }
}

proof fn lemma_trim_end_index(s: Seq<char>, c: char, j: int)
    requires
        0 <= j <= s.len(),
        forall|k: int| j <= k < s.len() ==> s[k] == c,
        j == 0 || s[j - 1] != c,
    ensures
        trim_end_char(s, c) == s.take(j),
    decreases s.len() - j,
{
    if j == s.len() {
        assert(s.take(j) =~= s);
    } else {
        let t = s.drop_last();
        lemma_trim_end_index(t, c, j);
        assert(t.take(j) =~= s.take(j));
    }
}

/// `s` without leading and trailing double quotes (`str::trim_matches('"')`).
pub fn trim_quotes(s: &str) -> (r: String)
    ensures
        r@ == trim_char(s@, '"'),
{
    let v = chars_of(s);
    let n = v.len();
    let mut i: usize = 0;
    while i < n && v[i] == '"'
        invariant
            i <= n == v@.len(),
            forall|k: int| 0 <= k < i ==> v@[k] == '"',
        decreases n - i,
    {
        i = i + 1;
    }
    let mut j: usize = n;
    while j > i && v[j - 1] == '"'
        invariant
            i <= j <= n == v@.len(),
            forall|k: int| j <= k < n ==> v@[k] == '"',
        decreases j,
    {
        j = j - 1;
    }
    proof {
        lemma_trim_start_index(v@, '"', i as int);
        let t = v@.subrange(i as int, n as int);
        assert forall|k: int| j - i <= k < t.len() implies t[k] == '"' by {
            assert(t[k] == v@[k + i]);
        }
        if j > i {
            assert(t[j - i - 1] == v@[j - 1]);
        }
        lemma_trim_end_index(t, '"', j - i);
        assert(t.take(j - i) =~= v@.subrange(i as int, j as int));
    }
    let mut r = String::new();
    let mut k = i;
    while k < j
        invariant
            i <= k <= j <= n == v@.len(),
            r@ == v@.subrange(i as int, k as int),
        decreases j - k,
    {
        push_char(&mut r, v[k]);
        assert(v@.subrange(i as int, k + 1) =~= v@.subrange(i as int, k as int).push(v@[k as int]));
        k = k + 1;
    }
    assert(v@ == s@);
    r
}

/// Whether a raw tag's displayed value is kept: it is not a binary blob
/// (`(Binary …`) and is shorter than 500 bytes.
pub open spec fn keeps_raw_value(value: Seq<char>, byte_len: int) -> bool {
    !(value.len() >= 7 && value.take(7) == "(Binary"@) && byte_len < 500
}

/// Whether a raw tag's displayed value is kept in the raw tag map.
pub fn keep_raw_tag(value: &str) -> (r: bool)
    ensures
        r == keeps_raw_value(value@, encode_utf8(value@).len() as int),
{
    let v = chars_of(value);
    let binary = v.len() >= 7 && v[0] == '(' && v[1] == 'B' && v[2] == 'i' && v[3] == 'n' && v[4]
        == 'a' && v[5] == 'r' && v[6] == 'y';
    proof {
        reveal_strlit("(Binary");
        if v@.len() >= 7 {
            if binary {
                assert(v@.take(7) =~= "(Binary"@);
            }
            if v@.take(7) == "(Binary"@ {
                assert(v@.take(7)[0] == '(' && v@.take(7)[1] == 'B' && v@.take(7)[2] == 'i');
                assert(v@.take(7)[3] == 'n' && v@.take(7)[4] == 'a' && v@.take(7)[5] == 'r');
                assert(v@.take(7)[6] == 'y');
            }
        }
    }
    let byte_len = value.as_bytes().len();
    !binary && byte_len < 500
}

/// Whether a GPS reference text (`N`/`S`, `E`/`W`) names the negative
/// hemisphere, given its negative letter: it contains that letter.
pub fn is_negative_reference(ref_text: &str, negative: char) -> (r: bool)
    ensures
        r == ref_text@.contains(negative),
{
    let v = chars_of(ref_text);
    let mut i: usize = 0;
    while i < v.len()
        invariant
            i <= v@.len(),
            v@ == ref_text@,
            forall|k: int| 0 <= k < i ==> v@[k] != negative,
        decreases v@.len() - i,
    {
        if v[i] == negative {
            return true;
        }
        i = i + 1;
    }
    false
}

// ── the fields of an image's EXIF data ────────────────────────────────────────

/// The value of an EXIF field as far as the record reads it: unsigned SHORT
/// and LONG integers, unsigned and signed rationals as `(numerator,
/// denominator)` pairs, or a value of another type.
pub enum ExifValue {
    Short(Vec<u16>),
    Long(Vec<u32>),
    Rational(Vec<(u32, u32)>),
    SRational(Vec<(i32, i32)>),
    Other,
}

/// The model of [`ExifValue`].
pub enum ExifValueView {
    Short(Seq<u16>),
    Long(Seq<u32>),
    Rational(Seq<(u32, u32)>),
    SRational(Seq<(i32, i32)>),
    Other,
}

impl View for ExifValue {
    type V = ExifValueView;

    open spec fn view(&self) -> ExifValueView {
        match self {
            ExifValue::Short(v) => ExifValueView::Short(v@),
            ExifValue::Long(v) => ExifValueView::Long(v@),
            ExifValue::Rational(v) => ExifValueView::Rational(v@),
            ExifValue::SRational(v) => ExifValueView::SRational(v@),
            ExifValue::Other => ExifValueView::Other,
        }
    }
}

/// One EXIF field: the number of the IFD it stands in (0 for the primary
/// image), the name of its tag, its value as displayed, and its value.
pub struct ExifField {
    pub ifd: u16,
    pub name: String,
    pub display: String,
    pub value: ExifValue,
}

/// The model of [`ExifField`].
pub struct ExifFieldView {
    pub ifd: u16,
    pub name: Seq<char>,
    pub display: Seq<char>,
    pub value: ExifValueView,
}

impl View for ExifField {
    type V = ExifFieldView;

    open spec fn view(&self) -> ExifFieldView {
        ExifFieldView { ifd: self.ifd, name: self.name@, display: self.display@, value: self.value@ }
    }
}

/// The models of some fields.
pub open spec fn fields_view(fs: Seq<ExifField>) -> Seq<ExifFieldView> {
    fs.map_values(|f: ExifField| f@)
}

/// The models of some fields, if there are any.
pub open spec fn opt_fields_view(r: Option<Vec<ExifField>>) -> Option<Seq<ExifFieldView>> {
    match r {
        Some(v) => Some(fields_view(v@)),
        None => None,
    }
}

/// The fields, in the order `Exif::fields` gives them, of the EXIF data that
/// `kamadak-exif` finds in an image container's bytes; `None` when it finds
/// none.
pub uninterp spec fn exif_fields_of(bytes: Seq<u8>) -> Option<Seq<ExifFieldView>>;

/// Reads the EXIF data of an image container with `kamadak-exif`
/// (`Reader::read_from_container`) and lists its fields (`Exif::fields`):
/// IFD number, tag name (`Tag`'s `Display`), displayed value
/// (`Field::display_value`), and the value, SHORT, LONG, RATIONAL and
/// SRATIONAL ones kept whole. The result is named by [`exif_fields_of`].
#[verifier::external_body]
pub(crate) fn exif_fields(bytes: &[u8]) -> (r: Option<Vec<ExifField>>)
    ensures
        opt_fields_view(r) == exif_fields_of(bytes@),
{
    let exif = Reader::new().read_from_container(&mut Cursor::new(bytes)).ok()?;
    Some(exif.fields().map(|f| ExifField {
        ifd: f.ifd_num.0,
        name: f.tag.to_string(),
        display: f.display_value().to_string(),
        value: match &f.value {
            Short(v) => ExifValue::Short(v.clone()),
            Long(v) => ExifValue::Long(v.clone()),
            Rational(v) => ExifValue::Rational(v.iter().map(|r| (r.num, r.denom)).collect()),
            SRational(v) => ExifValue::SRational(v.iter().map(|r| (r.num, r.denom)).collect()),
            _ => ExifValue::Other,
        },
    }).collect())
}

// ── the record ──────────────────────────────────────────────────────────────

/// The field of the primary image (IFD 0) whose tag is named `name`: the
/// last such field, as `Exif::get_field` finds it.
pub open spec fn primary_field(fs: Seq<ExifFieldView>, name: Seq<char>) -> Option<ExifFieldView>
    decreases fs.len(),
{
    if fs.len() == 0 {
        None
    } else if fs.last().ifd == 0 && fs.last().name == name {
        Some(fs.last())
    } else {
        primary_field(fs.drop_last(), name)
    }
}

/// The displayed value of a field.
pub open spec fn text_of(f: Option<ExifFieldView>) -> Option<Seq<char>> {
    match f {
        Some(x) => Some(x.display),
        None => None,
    }
}

/// The displayed value of a field without surrounding double quotes.
pub open spec fn quoted_text_of(f: Option<ExifFieldView>) -> Option<Seq<char>> {
    match f {
        Some(x) => Some(trim_char(x.display, '"')),
        None => None,
    }
}

/// The first rational of a RATIONAL field, when its denominator is not 0.
pub open spec fn ratio_of(f: Option<ExifFieldView>) -> Option<(u32, u32)> {
    match f {
        Some(x) => match x.value {
            ExifValueView::Rational(v) => if v.len() > 0 && v[0].1 != 0 { Some(v[0]) } else { None },
            _ => None,
        },
        None => None,
    }
}

/// The first rational of an SRATIONAL field, when its denominator is not 0.
pub open spec fn signed_ratio_of(f: Option<ExifFieldView>) -> Option<(i32, i32)> {
    match f {
        Some(x) => match x.value {
            ExifValueView::SRational(v) => if v.len() > 0 && v[0].1 != 0 { Some(v[0]) } else { None },
            _ => None,
        },
        None => None,
    }
}

/// The first value of a SHORT field.
pub open spec fn short_of(f: Option<ExifFieldView>) -> Option<i32> {
    match f {
        Some(x) => match x.value {
            ExifValueView::Short(v) => if v.len() > 0 { Some(v[0] as i32) } else { None },
            _ => None,
        },
        None => None,
    }
}

/// A pixel dimension: the first value of a LONG field, reinterpreted as a
/// signed 32-bit value, or of a SHORT field.
pub open spec fn dimension_of(f: Option<ExifFieldView>) -> Option<i32> {
    match f {
        Some(x) => match x.value {
            ExifValueView::Long(v) => if v.len() > 0 { Some(v[0] as i32) } else { None },
            ExifValueView::Short(v) => if v.len() > 0 { Some(v[0] as i32) } else { None },
            _ => None,
        },
        None => None,
    }
}

/// A GPS coordinate as stored: degrees, minutes and seconds as rationals,
/// and whether it lies in the southern or western hemisphere.
#[derive(Clone, Copy)]
pub struct GpsCoordinate {
    pub degrees: (u32, u32),
    pub minutes: (u32, u32),
    pub seconds: (u32, u32),
    pub negative: bool,
}

/// The coordinate of a RATIONAL field of at least three values, with a
/// reference field present; negative when the reference's displayed value
/// holds `negative`.
pub open spec fn gps_of(value: Option<ExifFieldView>, reference: Option<ExifFieldView>, negative: char) -> Option<
    GpsCoordinate,
> {
    match (value, reference) {
        (Some(v), Some(r)) => match v.value {
            ExifValueView::Rational(s) => if s.len() >= 3 {
                Some(
                    GpsCoordinate {
                        degrees: s[0],
                        minutes: s[1],
                        seconds: s[2],
                        negative: r.display.contains(negative),
                    },
                )
            } else {
                None
            },
            _ => None,
        },
        _ => None,
    }
}

/// The raw tags: tag name to displayed value for every field (of any IFD)
/// whose displayed value is kept, later fields overriding earlier ones.
pub open spec fn raw_tag_map(fs: Seq<ExifFieldView>) -> Map<Seq<char>, Seq<char>>
    decreases fs.len(),
{
    if fs.len() == 0 {
        Map::empty()
    } else {
        let m = raw_tag_map(fs.drop_last());
        let f = fs.last();
        if keeps_raw_value(f.display, encode_utf8(f.display).len() as int) {
            m.insert(f.name, f.display)
        } else {
            m
        }
    }
}

/// The map an association list stands for, later pairs overriding earlier
/// ones.
pub open spec fn assoc_map(s: Seq<(Seq<char>, Seq<char>)>) -> Map<Seq<char>, Seq<char>>
    decreases s.len(),
{
    if s.len() == 0 {
        Map::empty()
    } else {
        assoc_map(s.drop_last()).insert(s.last().0, s.last().1)
    }
}

/// No key occurs twice.
pub open spec fn distinct_keys(s: Seq<(Seq<char>, Seq<char>)>) -> bool {
    forall|i: int, j: int| 0 <= i < j < s.len() ==> s[i].0 != s[j].0
}

/// The text pairs of an association list.
pub open spec fn pairs_view(v: Seq<(String, String)>) -> Seq<(Seq<char>, Seq<char>)> {
    v.map_values(|p: (String, String)| (p.0@, p.1@))
}

/// The EXIF record of an image, its rationals not divided out.
pub struct ExifRecord {
    pub taken_at: Option<String>,
    pub camera_make: Option<String>,
    pub camera_model: Option<String>,
    pub lens_model: Option<String>,
    pub focal_length: Option<(u32, u32)>,
    pub aperture: Option<(u32, u32)>,
    pub shutter_speed: Option<String>,
    pub iso: Option<i32>,
    pub orientation: Option<i32>,
    pub width: Option<i32>,
    pub height: Option<i32>,
    pub gps_latitude: Option<GpsCoordinate>,
    pub gps_longitude: Option<GpsCoordinate>,
    pub gps_altitude: Option<(u32, u32)>,
    pub focal_length_35mm: Option<i32>,
    pub exposure_mode: Option<String>,
    pub white_balance: Option<String>,
    pub flash: Option<String>,
    pub metering_mode: Option<String>,
    pub scene_type: Option<String>,
    pub software: Option<String>,
    pub exposure_compensation: Option<(i32, i32)>,
    pub color_space: Option<String>,
    /// Tag name and displayed value, each name once.
    pub raw_tags: Vec<(String, String)>,
}

/// The model of [`ExifRecord`].
pub struct ExifRecordView {
    pub taken_at: Option<Seq<char>>,
    pub camera_make: Option<Seq<char>>,
    pub camera_model: Option<Seq<char>>,
    pub lens_model: Option<Seq<char>>,
    pub focal_length: Option<(u32, u32)>,
    pub aperture: Option<(u32, u32)>,
    pub shutter_speed: Option<Seq<char>>,
    pub iso: Option<i32>,
    pub orientation: Option<i32>,
    pub width: Option<i32>,
    pub height: Option<i32>,
    pub gps_latitude: Option<GpsCoordinate>,
    pub gps_longitude: Option<GpsCoordinate>,
    pub gps_altitude: Option<(u32, u32)>,
    pub focal_length_35mm: Option<i32>,
    pub exposure_mode: Option<Seq<char>>,
    pub white_balance: Option<Seq<char>>,
    pub flash: Option<Seq<char>>,
    pub metering_mode: Option<Seq<char>>,
    pub scene_type: Option<Seq<char>>,
    pub software: Option<Seq<char>>,
    pub exposure_compensation: Option<(i32, i32)>,
    pub color_space: Option<Seq<char>>,
    pub raw_tags: Map<Seq<char>, Seq<char>>,
}

impl View for ExifRecord {
    type V = ExifRecordView;

    open spec fn view(&self) -> ExifRecordView {
        ExifRecordView {
            taken_at: opt_text(self.taken_at),
            camera_make: opt_text(self.camera_make),
            camera_model: opt_text(self.camera_model),
            lens_model: opt_text(self.lens_model),
            focal_length: self.focal_length,
            aperture: self.aperture,
            shutter_speed: opt_text(self.shutter_speed),
            iso: self.iso,
            orientation: self.orientation,
            width: self.width,
            height: self.height,
            gps_latitude: self.gps_latitude,
            gps_longitude: self.gps_longitude,
            gps_altitude: self.gps_altitude,
            focal_length_35mm: self.focal_length_35mm,
            exposure_mode: opt_text(self.exposure_mode),
            white_balance: opt_text(self.white_balance),
            flash: opt_text(self.flash),
            metering_mode: opt_text(self.metering_mode),
            scene_type: opt_text(self.scene_type),
            software: opt_text(self.software),
            exposure_compensation: self.exposure_compensation,
            color_space: opt_text(self.color_space),
            raw_tags: assoc_map(pairs_view(self.raw_tags@)),
        }
    }
}

/// The EXIF record the fields `fs` make: the capture time is
/// `DateTimeOriginal`, else `DateTime`; make, model, lens and software have
/// surrounding double quotes trimmed; every value is read from the field of
/// the primary image; the raw tags are those of [`raw_tag_map`].
pub open spec fn exif_record_of(fs: Seq<ExifFieldView>) -> ExifRecordView {
    ExifRecordView {
        taken_at: if primary_field(fs, "DateTimeOriginal"@) is Some {
            text_of(primary_field(fs, "DateTimeOriginal"@))
        } else {
            text_of(primary_field(fs, "DateTime"@))
        },
        camera_make: quoted_text_of(primary_field(fs, "Make"@)),
        camera_model: quoted_text_of(primary_field(fs, "Model"@)),
        lens_model: quoted_text_of(primary_field(fs, "LensModel"@)),
        focal_length: ratio_of(primary_field(fs, "FocalLength"@)),
        aperture: ratio_of(primary_field(fs, "FNumber"@)),
        shutter_speed: text_of(primary_field(fs, "ExposureTime"@)),
        iso: short_of(primary_field(fs, "PhotographicSensitivity"@)),
        orientation: short_of(primary_field(fs, "Orientation"@)),
        width: dimension_of(primary_field(fs, "PixelXDimension"@)),
        height: dimension_of(primary_field(fs, "PixelYDimension"@)),
        gps_latitude: gps_of(primary_field(fs, "GPSLatitude"@), primary_field(fs, "GPSLatitudeRef"@), 'S'),
        gps_longitude: gps_of(primary_field(fs, "GPSLongitude"@), primary_field(fs, "GPSLongitudeRef"@), 'W'),
        gps_altitude: ratio_of(primary_field(fs, "GPSAltitude"@)),
        focal_length_35mm: short_of(primary_field(fs, "FocalLengthIn35mmFilm"@)),
        exposure_mode: text_of(primary_field(fs, "ExposureMode"@)),
        white_balance: text_of(primary_field(fs, "WhiteBalance"@)),
        flash: text_of(primary_field(fs, "Flash"@)),
        metering_mode: text_of(primary_field(fs, "MeteringMode"@)),
        scene_type: text_of(primary_field(fs, "SceneType"@)),
        software: quoted_text_of(primary_field(fs, "Software"@)),
        exposure_compensation: signed_ratio_of(primary_field(fs, "ExposureBiasValue"@)),
        color_space: text_of(primary_field(fs, "ColorSpace"@)),
        raw_tags: raw_tag_map(fs),
    }
}

/// Whether two texts are equal.
fn text_eq(a: &str, b: &str) -> (r: bool)
    ensures
        r == (a@ == b@),
{
    let va = chars_of(a);
    let vb = chars_of(b);
    chars_equal(&va, vb.as_slice())
}

/// The position of the field of the primary image named `name`.
fn find_primary(fields: &Vec<ExifField>, name: &str) -> (r: Option<usize>)
    ensures
        match primary_field(fields_view(fields@), name@) {
            Some(f) => r matches Some(i) && i < fields@.len() && fields@[i as int]@ == f,
            None => r is None,
        },
{
    let ghost fs = fields_view(fields@);
    assert(fs.take(fields@.len() as int) =~= fs);
    let mut j: usize = fields.len();
    while j > 0
        invariant
            j <= fields@.len(),
            fs == fields_view(fields@),
            primary_field(fs, name@) == primary_field(fs.take(j as int), name@),
        decreases j,
    {
        let f = &fields[j - 1];
        assert(fs.take(j as int).drop_last() =~= fs.take(j - 1));
        assert(fs.take(j as int).last() == fields@[j - 1]@);
        if f.ifd == 0 && text_eq(f.name.as_str(), name) {
            return Some(j - 1);
        }
        j = j - 1;
    }
    None
}

/// The field of the primary image named `name`.
fn primary<'a>(fields: &'a Vec<ExifField>, name: &str) -> (r: Option<&'a ExifField>)
    ensures
        match primary_field(fields_view(fields@), name@) {
            Some(f) => r matches Some(x) && x@ == f,
            None => r is None,
        },
{
    match find_primary(fields, name) {
        Some(i) => Some(&fields[i]),
        None => None,
    }
}

fn field_text(f: Option<&ExifField>) -> (r: Option<String>)
    ensures
        opt_text(r) == text_of(match f { Some(x) => Some(x@), None => None }),
{
    match f {
        Some(x) => Some(x.display.clone()),
        None => None,
    }
}

fn field_quoted(f: Option<&ExifField>) -> (r: Option<String>)
    ensures
        opt_text(r) == quoted_text_of(match f { Some(x) => Some(x@), None => None }),
{
    match f {
        Some(x) => Some(trim_quotes(x.display.as_str())),
        None => None,
    }
}

fn field_ratio(f: Option<&ExifField>) -> (r: Option<(u32, u32)>)
    ensures
        r == ratio_of(match f { Some(x) => Some(x@), None => None }),
{
    match f {
        Some(x) => match &x.value {
            ExifValue::Rational(v) => if v.len() > 0 && v[0].1 != 0 { Some(v[0]) } else { None },
            _ => None,
        },
        None => None,
    }
}

fn field_signed_ratio(f: Option<&ExifField>) -> (r: Option<(i32, i32)>)
    ensures
        r == signed_ratio_of(match f { Some(x) => Some(x@), None => None }),
{
    match f {
        Some(x) => match &x.value {
            ExifValue::SRational(v) => if v.len() > 0 && v[0].1 != 0 { Some(v[0]) } else { None },
            _ => None,
        },
        None => None,
    }
}

fn field_short(f: Option<&ExifField>) -> (r: Option<i32>)
    ensures
        r == short_of(match f { Some(x) => Some(x@), None => None }),
{
    match f {
        Some(x) => match &x.value {
            ExifValue::Short(v) => if v.len() > 0 { Some(v[0] as i32) } else { None },
            _ => None,
        },
        None => None,
    }
}

fn field_dimension(f: Option<&ExifField>) -> (r: Option<i32>)
    ensures
        r == dimension_of(match f { Some(x) => Some(x@), None => None }),
{
    match f {
        Some(x) => match &x.value {
            ExifValue::Long(v) => if v.len() > 0 { Some(v[0] as i32) } else { None },
            ExifValue::Short(v) => if v.len() > 0 { Some(v[0] as i32) } else { None },
            _ => None,
        },
        None => None,
    }
}

fn field_gps(value: Option<&ExifField>, reference: Option<&ExifField>, negative: char) -> (r: Option<
    GpsCoordinate,
>)
    ensures
        r == gps_of(
            match value { Some(x) => Some(x@), None => None },
            match reference { Some(x) => Some(x@), None => None },
            negative,
        ),
{
    match (value, reference) {
        (Some(v), Some(rf)) => match &v.value {
            ExifValue::Rational(s) => if s.len() >= 3 {
                Some(
                    GpsCoordinate {
                        degrees: s[0],
                        minutes: s[1],
                        seconds: s[2],
                        negative: is_negative_reference(rf.display.as_str(), negative),
                    },
                )
            } else {
                None
            },
            _ => None,
        },
        _ => None,
    }
}

proof fn lemma_assoc_update(s: Seq<(Seq<char>, Seq<char>)>, j: int, v: Seq<char>)
    requires
        distinct_keys(s),
        0 <= j < s.len(),
    ensures
        assoc_map(s.update(j, (s[j].0, v))) =~= assoc_map(s).insert(s[j].0, v),
    decreases s.len(),
{
    let t = s.update(j, (s[j].0, v));
    if j == s.len() - 1 {
        assert(t.drop_last() =~= s.drop_last());
    } else {
        let d = s.drop_last();
        assert(distinct_keys(d));
        assert(t.drop_last() =~= d.update(j, (d[j].0, v)));
        lemma_assoc_update(d, j, v);
        assert(s.last().0 != s[j].0);
    }
}

/// The position of the pair keyed `key`.
fn find_key(pairs: &Vec<(String, String)>, key: &str) -> (r: Option<usize>)
    ensures
        match r {
            Some(j) => j < pairs@.len() && pairs@[j as int].0@ == key@,
            None => forall|k: int| 0 <= k < pairs@.len() ==> pairs@[k].0@ != key@,
        },
{
    let mut j: usize = 0;
    while j < pairs.len()
        invariant
            j <= pairs@.len(),
            forall|k: int| 0 <= k < j ==> pairs@[k].0@ != key@,
        decreases pairs@.len() - j,
    {
        if text_eq(pairs[j].0.as_str(), key) {
            return Some(j);
        }
        j = j + 1;
    }
    None
}

/// The raw tags of some fields, each name once.
fn raw_tag_list(fields: &Vec<ExifField>) -> (r: Vec<(String, String)>)
    ensures
        assoc_map(pairs_view(r@)) == raw_tag_map(fields_view(fields@)),
        distinct_keys(pairs_view(r@)),
{
    let ghost fs = fields_view(fields@);
    let mut out: Vec<(String, String)> = Vec::new();
    let mut i: usize = 0;
    while i < fields.len()
        invariant
            i <= fields@.len(),
            fs == fields_view(fields@),
            assoc_map(pairs_view(out@)) == raw_tag_map(fs.take(i as int)),
            distinct_keys(pairs_view(out@)),
        decreases fields@.len() - i,
    {
        let f = &fields[i];
        assert(fs.take(i + 1).drop_last() =~= fs.take(i as int));
        assert(fs.take(i + 1).last() == f@);
        if keep_raw_tag(f.display.as_str()) {
            let ghost before = pairs_view(out@);
            let pair = (f.name.clone(), f.display.clone());
            match find_key(&out, f.name.as_str()) {
                Some(j) => {
                    out.set(j, pair);
                    proof {
                        assert(pairs_view(out@) =~= before.update(j as int, (before[j as int].0, f.display@)));
                        lemma_assoc_update(before, j as int, f.display@);
                    }
                },
                None => {
                    out.push(pair);
                    proof {
                        assert(pairs_view(out@) =~= before.push((f.name@, f.display@)));
                        assert(pairs_view(out@).drop_last() =~= before);
                    }
                },
            }
        }
        assert(assoc_map(pairs_view(out@)) =~= raw_tag_map(fs.take(i + 1)));
        i = i + 1;
    }
    assert(fs.take(fields@.len() as int) =~= fs);
    out
}

/// The capture time of some fields: `DateTimeOriginal`, else `DateTime`.
fn field_taken_at(fields: &Vec<ExifField>) -> (r: Option<String>)
    ensures
        opt_text(r) == (if primary_field(fields_view(fields@), "DateTimeOriginal"@) is Some {
            text_of(primary_field(fields_view(fields@), "DateTimeOriginal"@))
        } else {
            text_of(primary_field(fields_view(fields@), "DateTime"@))
        }),
{
    let original = primary(fields, "DateTimeOriginal");
    if original.is_some() {
        field_text(original)
    } else {
        field_text(primary(fields, "DateTime"))
    }
}

/// The EXIF record that some fields make.
pub fn exif_record(fields: &Vec<ExifField>) -> (r: ExifRecord)
    ensures
        r@ == exif_record_of(fields_view(fields@)),
        distinct_keys(pairs_view(r.raw_tags@)),
{
    let ghost fs = fields_view(fields@);
    let taken_at = field_taken_at(fields);
    let camera_make = field_quoted(primary(fields, "Make"));
    let camera_model = field_quoted(primary(fields, "Model"));
    let lens_model = field_quoted(primary(fields, "LensModel"));
    let focal_length = field_ratio(primary(fields, "FocalLength"));
    let aperture = field_ratio(primary(fields, "FNumber"));
    let shutter_speed = field_text(primary(fields, "ExposureTime"));
    let iso = field_short(primary(fields, "PhotographicSensitivity"));
    let orientation = field_short(primary(fields, "Orientation"));
    let width = field_dimension(primary(fields, "PixelXDimension"));
    let height = field_dimension(primary(fields, "PixelYDimension"));
    let gps_latitude = field_gps(primary(fields, "GPSLatitude"), primary(fields, "GPSLatitudeRef"), 'S');
    let gps_longitude = field_gps(primary(fields, "GPSLongitude"), primary(fields, "GPSLongitudeRef"), 'W');
    let gps_altitude = field_ratio(primary(fields, "GPSAltitude"));
    let focal_length_35mm = field_short(primary(fields, "FocalLengthIn35mmFilm"));
    let exposure_mode = field_text(primary(fields, "ExposureMode"));
    let white_balance = field_text(primary(fields, "WhiteBalance"));
    let flash = field_text(primary(fields, "Flash"));
    let metering_mode = field_text(primary(fields, "MeteringMode"));
    let scene_type = field_text(primary(fields, "SceneType"));
    let software = field_quoted(primary(fields, "Software"));
    let exposure_compensation = field_signed_ratio(primary(fields, "ExposureBiasValue"));
    let color_space = field_text(primary(fields, "ColorSpace"));
    let raw_tags = raw_tag_list(fields);
    ExifRecord {
        taken_at,
        camera_make,
        camera_model,
        lens_model,
        focal_length,
        aperture,
        shutter_speed,
        iso,
        orientation,
        width,
        height,
        gps_latitude,
        gps_longitude,
        gps_altitude,
        focal_length_35mm,
        exposure_mode,
        white_balance,
        flash,
        metering_mode,
        scene_type,
        software,
        exposure_compensation,
        color_space,
        raw_tags,
    }
}

/// The EXIF record of an image container's bytes; `None` when
/// `kamadak-exif` finds no EXIF data in them.
pub fn extract_exif_record(bytes: &[u8]) -> (r: Option<ExifRecord>)
    ensures
        match exif_fields_of(bytes@) {
            Some(fs) => r matches Some(x) && x@ == exif_record_of(fs),
            None => r is None,
        },
{
    match exif_fields(bytes) {
        Some(fields) => Some(exif_record(&fields)),
        None => None,
    }
}


/// The hemisphere of a GPS position: the record's latitude is present
/// exactly when the primary image has `GPSLatitude` with at least three
/// rationals and a `GPSLatitudeRef`; it holds those three rationals and is
/// negative (south) exactly when the reference's displayed value holds `S`.
/// Likewise the longitude, negative (west) exactly when `GPSLongitudeRef`'s
/// displayed value holds `W`.
pub proof fn lemma_gps_hemispheres(fs: Seq<ExifFieldView>)
    ensures
        ({
            let lat = primary_field(fs, "GPSLatitude"@);
            let lat_ref = primary_field(fs, "GPSLatitudeRef"@);
            match (lat, lat_ref) {
                (Some(v), Some(rf)) => match v.value {
                    ExifValueView::Rational(q) => if q.len() >= 3 {
                        exif_record_of(fs).gps_latitude matches Some(g) && g.degrees == q[0]
                            && g.minutes == q[1] && g.seconds == q[2] && (g.negative
                            <==> rf.display.contains('S'))
                    } else {
                        exif_record_of(fs).gps_latitude is None
                    },
                    _ => exif_record_of(fs).gps_latitude is None,
                },
                _ => exif_record_of(fs).gps_latitude is None,
            }
        }),
        ({
            let lon = primary_field(fs, "GPSLongitude"@);
            let lon_ref = primary_field(fs, "GPSLongitudeRef"@);
            match (lon, lon_ref) {
                (Some(v), Some(rf)) => match v.value {
                    ExifValueView::Rational(q) => if q.len() >= 3 {
                        exif_record_of(fs).gps_longitude matches Some(g) && g.degrees == q[0]
                            && g.minutes == q[1] && g.seconds == q[2] && (g.negative
                            <==> rf.display.contains('W'))
                    } else {
                        exif_record_of(fs).gps_longitude is None
                    },
                    _ => exif_record_of(fs).gps_longitude is None,
                },
                _ => exif_record_of(fs).gps_longitude is None,
            }
        }),
{
}

} // verus!
