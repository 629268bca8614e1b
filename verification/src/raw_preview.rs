//! Extract embedded JPEG previews from DNG/TIFF-based RAW camera files.
//!
//! DNG files store raw sensor data alongside embedded JPEG previews at
//! various resolutions. This module walks the TIFF IFD chain (and the SubIFDs
//! it names) and returns the largest embedded JPEG, without demosaicing.

use crate::text::{
    ascii_lower, chars_equal, chars_of, copy_range, is_ascii_text, to_lowercase, unicode_lowercase,
};
use vstd::prelude::*;

verus! {

pub const TAG_IMAGE_WIDTH: u16 = 0x0100;
pub const TAG_IMAGE_LENGTH: u16 = 0x0101;
pub const TAG_COMPRESSION: u16 = 0x0103;
pub const TAG_STRIP_OFFSETS: u16 = 0x0111;
pub const TAG_STRIP_BYTE_COUNTS: u16 = 0x0117;
pub const TAG_JPEG_IF_OFFSET: u16 = 0x0201;
pub const TAG_JPEG_IF_BYTE_COUNT: u16 = 0x0202;
pub const TAG_SUB_IFDS: u16 = 0x014A;

pub const COMPRESSION_OLD_JPEG: u16 = 6;
pub const COMPRESSION_JPEG: u16 = 7;

/// Most IFDs followed along the main chain.
pub const MAX_CHAIN_IFDS: usize = 20;

/// Most SubIFD offsets that are queued and visited.
pub const MAX_SUB_IFDS: usize = 50;

/// Byte order of a TIFF file (`II` or `MM`).
#[derive(Clone, Copy)]
pub enum ByteOrder {
    Little,
    Big,
}

/// An embedded JPEG stream: where it lies in the file and the pixel count of
/// the image it encodes.
#[derive(Clone, Copy)]
pub struct JpegCandidate {
    pub offset: usize,
    pub length: usize,
    pub pixels: u64,
}

// ── the model ───────────────────────────────────────────────────────────────

/// The 16-bit value at `buf[off..off + 2]`.
pub open spec fn u16_at(buf: Seq<u8>, bo: ByteOrder, off: int) -> Option<u16> {
    if 0 <= off && off + 2 <= buf.len() {
        Some(
            match bo {
                ByteOrder::Little => (buf[off] + buf[off + 1] * 256) as u16,
                ByteOrder::Big => (buf[off] * 256 + buf[off + 1]) as u16,
            },
        )
    } else {
        None
    }
}

/// The 32-bit value at `buf[off..off + 4]`.
pub open spec fn u32_at(buf: Seq<u8>, bo: ByteOrder, off: int) -> Option<u32> {
    if 0 <= off && off + 4 <= buf.len() {
        Some(
            match bo {
                ByteOrder::Little => (buf[off] + buf[off + 1] * 256 + buf[off + 2] * 65536 + buf[off
                    + 3] * 16777216) as u32,
                ByteOrder::Big => (buf[off] * 16777216 + buf[off + 1] * 65536 + buf[off + 2] * 256
                    + buf[off + 3]) as u32,
            },
        )
    } else {
        None
    }
}

/// Size in bytes of one value of TIFF field type `typ` (BYTE and ASCII are
/// one byte, SHORT two, everything else is read as four).
pub open spec fn elem_size(typ: u16) -> int {
    if typ == 1 || typ == 2 {
        1
    } else if typ == 3 {
        2
    } else {
        4
    }
}

/// One value of type `typ` at `buf[off..]`, widened to 32 bits.
pub open spec fn value_at(buf: Seq<u8>, bo: ByteOrder, typ: u16, off: int) -> Option<u32> {
    if typ == 1 || typ == 2 {
        if 0 <= off < buf.len() {
            Some(buf[off] as u32)
        } else {
            None
        }
    } else if typ == 3 {
        match u16_at(buf, bo, off) {
            Some(v) => Some(v as u32),
            None => None,
        }
    } else {
        u32_at(buf, bo, off)
    }
}

/// Where the `count` values of an entry whose value field is at `val_off`
/// begin: inline when they fit in four bytes, else at the offset stored there.
pub open spec fn values_start(buf: Seq<u8>, bo: ByteOrder, typ: u16, val_off: int, count: int) -> Option<int> {
    if count * elem_size(typ) <= 4 {
        Some(val_off)
    } else {
        match u32_at(buf, bo, val_off) {
            Some(o) => Some(o as int),
            None => None,
        }
    }
}

/// The `count` values of an IFD entry, or `None` when they do not all lie in
/// `buf`. No values are read for a count of 0, so that always succeeds.
pub open spec fn values_at(buf: Seq<u8>, bo: ByteOrder, typ: u16, val_off: int, count: int) -> Option<Seq<u32>> {
    if count == 0 {
        Some(Seq::empty())
    } else {
        values_at_nonzero(buf, bo, typ, val_off, count)
    }
}

/// The `count` values (at least one) of an IFD entry, or `None` when they do
/// not all lie in `buf`.
pub open spec fn values_at_nonzero(buf: Seq<u8>, bo: ByteOrder, typ: u16, val_off: int, count: int) -> Option<Seq<u32>> {
    match values_start(buf, bo, typ, val_off, count) {
        Some(start) => if start + count * elem_size(typ) <= buf.len() {
            Some(Seq::new(count as nat, |i: int| value_at(buf, bo, typ, start + i * elem_size(typ)).unwrap()))
        } else {
            None
        },
        None => None,
    }
}

/// The fields of one IFD read so far, the SubIFD offsets it has named so far,
/// and whether a read has failed.
pub struct IfdScan {
    pub width: u32,
    pub height: u32,
    pub compression: u16,
    pub jpeg_offset: u32,
    pub jpeg_length: u32,
    pub strip_offsets: Seq<u32>,
    pub strip_byte_counts: Seq<u32>,
    pub subs: Seq<usize>,
    pub failed: bool,
}

pub open spec fn empty_scan() -> IfdScan {
    IfdScan {
        width: 0,
        height: 0,
        compression: 0,
        jpeg_offset: 0,
        jpeg_length: 0,
        strip_offsets: Seq::empty(),
        strip_byte_counts: Seq::empty(),
        subs: Seq::empty(),
        failed: false,
    }
}

pub open spec fn failed_scan(s: IfdScan) -> IfdScan {
    IfdScan { failed: true, ..s }
}

/// The effect of the 12-byte IFD entry at `entry` on the scan.
#[verifier::opaque]
pub open spec fn apply_entry(buf: Seq<u8>, bo: ByteOrder, entry: int, s: IfdScan) -> IfdScan {
    match (u16_at(buf, bo, entry), u16_at(buf, bo, entry + 2), u32_at(buf, bo, entry + 4)) {
        (Some(tag), Some(typ), Some(cnt)) => {
            let val_off = entry + 8;
            let one = value_at(buf, bo, typ, val_off);
            let many = values_at(buf, bo, typ, val_off, cnt as int);
            if tag == TAG_IMAGE_WIDTH {
                match one { Some(v) => IfdScan { width: v, ..s }, None => failed_scan(s) }
            } else if tag == TAG_IMAGE_LENGTH {
                match one { Some(v) => IfdScan { height: v, ..s }, None => failed_scan(s) }
            } else if tag == TAG_COMPRESSION {
                match one { Some(v) => IfdScan { compression: (v % 65536) as u16, ..s }, None => failed_scan(s) }
            } else if tag == TAG_JPEG_IF_OFFSET {
                match one { Some(v) => IfdScan { jpeg_offset: v, ..s }, None => failed_scan(s) }
            } else if tag == TAG_JPEG_IF_BYTE_COUNT {
                match one { Some(v) => IfdScan { jpeg_length: v, ..s }, None => failed_scan(s) }
            } else if tag == TAG_STRIP_OFFSETS {
                match many { Some(v) => IfdScan { strip_offsets: v, ..s }, None => failed_scan(s) }
            } else if tag == TAG_STRIP_BYTE_COUNTS {
                match many { Some(v) => IfdScan { strip_byte_counts: v, ..s }, None => failed_scan(s) }
            } else if tag == TAG_SUB_IFDS {
                match many {
                    Some(v) => IfdScan { subs: s.subs + v.map_values(|o: u32| o as usize), ..s },
                    None => failed_scan(s),
                }
            } else {
                s
            }
        },
        _ => failed_scan(s),
    }
}

/// The scan after the first `n` entries of the IFD at `ifd_offset`.
pub open spec fn scan_entries(buf: Seq<u8>, bo: ByteOrder, ifd_offset: int, n: nat) -> IfdScan
    decreases n,
{
    if n == 0 {
        empty_scan()
    } else {
        let prev = scan_entries(buf, bo, ifd_offset, (n - 1) as nat);
        if prev.failed {
            prev
        } else {
            apply_entry(buf, bo, ifd_offset + 2 + (n - 1) * 12, prev)
        }
    }
}

/// `off..off + len` lies within a buffer of `buf_len` bytes.
pub open spec fn fits(off: int, len: int, buf_len: int) -> bool {
    off + len <= buf_len
}

/// The JPEG stream that a completely read IFD describes, if any.
pub open spec fn ifd_candidate(buf_len: int, s: IfdScan) -> Option<JpegCandidate> {
    let pixels = (s.width * s.height) as u64;
    if s.compression == COMPRESSION_JPEG || s.compression == COMPRESSION_OLD_JPEG {
        if s.jpeg_offset > 0 && s.jpeg_length > 0 {
            if fits(s.jpeg_offset as int, s.jpeg_length as int, buf_len) {
                Some(JpegCandidate { offset: s.jpeg_offset as usize, length: s.jpeg_length as usize, pixels })
            } else {
                None
            }
        } else if s.strip_offsets.len() == 1 && s.strip_byte_counts.len() == 1 {
            if fits(s.strip_offsets[0] as int, s.strip_byte_counts[0] as int, buf_len) {
                Some(JpegCandidate {
                    offset: s.strip_offsets[0] as usize,
                    length: s.strip_byte_counts[0] as usize,
                    pixels,
                })
            } else {
                None
            }
        } else {
            None
        }
    } else {
        None
    }
}

/// What reading the IFD at `ifd_offset` yields: the SubIFD offsets it names
/// (also those named before a failed read), the JPEG it describes, and the
/// offset of the next IFD (`None` when the IFD could not be read).
pub struct IfdOutcome {
    pub subs: Seq<usize>,
    pub candidate: Option<JpegCandidate>,
    pub next: Option<usize>,
}

pub open spec fn ifd_outcome(buf: Seq<u8>, bo: ByteOrder, ifd_offset: int) -> IfdOutcome {
    match u16_at(buf, bo, ifd_offset) {
        None => IfdOutcome { subs: Seq::empty(), candidate: None, next: None },
        Some(count) => if ifd_offset + 2 + count * 12 + 4 > buf.len() {
            IfdOutcome { subs: Seq::empty(), candidate: None, next: None }
        } else {
            let s = scan_entries(buf, bo, ifd_offset, count as nat);
            if s.failed {
                IfdOutcome { subs: s.subs, candidate: None, next: None }
            } else {
                IfdOutcome {
                    subs: s.subs,
                    candidate: ifd_candidate(buf.len() as int, s),
                    next: match u32_at(buf, bo, ifd_offset + 2 + count * 12) {
                        Some(n) => Some(n as usize),
                        None => None,
                    },
                }
            }
        },
    }
}

pub open spec fn opt_seq(c: Option<JpegCandidate>) -> Seq<JpegCandidate> {
    match c {
        Some(x) => seq![x],
        None => Seq::empty(),
    }
}

/// Candidates and SubIFD offsets gathered along the main IFD chain starting at
/// `off`, following at most `fuel` IFDs.
pub open spec fn walk_chain(buf: Seq<u8>, bo: ByteOrder, off: int, fuel: nat) -> (Seq<JpegCandidate>, Seq<usize>)
    decreases fuel,
{
    if fuel == 0 || !(0 < off < buf.len()) {
        (Seq::empty(), Seq::empty())
    } else {
        let o = ifd_outcome(buf, bo, off);
        let next = match o.next {
            Some(n) => n as int,
            None => 0,
        };
        let rest = walk_chain(buf, bo, next, (fuel - 1) as nat);
        (opt_seq(o.candidate) + rest.0, o.subs + rest.1)
    }
}

/// `list` with the first elements of `extra` appended, while it has fewer than
/// `MAX_SUB_IFDS` elements.
pub open spec fn append_capped(list: Seq<usize>, extra: Seq<usize>) -> Seq<usize> {
    list + extra.take(capped_count(list.len() as int, extra.len() as int))
}

/// How many of `n` offsets still fit behind `len` queued ones.
pub open spec fn capped_count(len: int, n: int) -> int {
    let room = if len >= MAX_SUB_IFDS { 0 } else { MAX_SUB_IFDS - len };
    if n <= room {
        n
    } else {
        room
    }
}

/// Candidates after visiting the queued SubIFDs from position `i` of `queue`.
pub open spec fn walk_subs(buf: Seq<u8>, bo: ByteOrder, i: int, queue: Seq<usize>, cands: Seq<JpegCandidate>) -> Seq<
    JpegCandidate,
>
    decreases MAX_SUB_IFDS - i,
{
    if i < 0 || i >= queue.len() || i >= MAX_SUB_IFDS {
        cands
    } else {
        let off = queue[i] as int;
        if 0 < off < buf.len() {
            let o = ifd_outcome(buf, bo, off);
            walk_subs(buf, bo, i + 1, append_capped(queue, o.subs), cands + opt_seq(o.candidate))
        } else {
            walk_subs(buf, bo, i + 1, queue, cands)
        }
    }
}

/// `a` encodes a larger image than `b`, or an equally large one in more bytes.
pub open spec fn better(a: JpegCandidate, b: JpegCandidate) -> bool {
    a.pixels > b.pixels || (a.pixels == b.pixels && a.length > b.length)
}

/// The best candidate: the earliest one that no other candidate beats.
pub open spec fn best_of(c: Seq<JpegCandidate>) -> JpegCandidate
    decreases c.len(),
{
    if c.len() <= 1 {
        c[0]
    } else {
        let b = best_of(c.drop_last());
        if better(c.last(), b) {
            c.last()
        } else {
            b
        }
    }
}

pub open spec fn byte_order_of(b0: u8, b1: u8) -> Option<ByteOrder> {
    if b0 == 0x49 && b1 == 0x49 {
        Some(ByteOrder::Little)
    } else if b0 == 0x4D && b1 == 0x4D {
        Some(ByteOrder::Big)
    } else {
        None
    }
}

/// All embedded JPEG streams of a TIFF file, in the order they are found.
pub open spec fn all_candidates(data: Seq<u8>, bo: ByteOrder) -> Seq<JpegCandidate> {
    match u32_at(data, bo, 4) {
        Some(first) => {
            let main = walk_chain(data, bo, first as int, MAX_CHAIN_IFDS as nat);
            walk_subs(data, bo, 0, main.1, main.0)
        },
        None => Seq::empty(),
    }
}

/// The preview that [`extract_raw_preview`] returns for `data`.
pub open spec fn raw_preview(data: Seq<u8>) -> Option<Seq<u8>> {
    if data.len() < 8 {
        None
    } else {
        match byte_order_of(data[0], data[1]) {
            None => None,
            Some(bo) => if u16_at(data, bo, 2) != Some(42u16) {
                None
            } else {
                let c = all_candidates(data, bo);
                if c.len() == 0 {
                    None
                } else {
                    let b = best_of(c);
                    if b.offset + b.length <= data.len() && b.length >= 2 {
                        Some(data.subrange(b.offset as int, b.offset + b.length))
                    } else {
                        None
                    }
                }
            },
        }
    }
}

// ── reading ─────────────────────────────────────────────────────────────────

impl ByteOrder {
    /// The 16-bit value at `buf[off..off + 2]`.
    pub fn u16(self, buf: &[u8], off: usize) -> (r: Option<u16>)
        ensures
            r == u16_at(buf@, self, off as int),
    {
        if off > buf.len() || buf.len() - off < 2 {
            return None;
        }
        let b0 = buf[off] as u16;
        let b1 = buf[off + 1] as u16;
        Some(
            match self {
                ByteOrder::Little => b0 + b1 * 256,
                ByteOrder::Big => b0 * 256 + b1,
            },
        )
    }

    /// The 32-bit value at `buf[off..off + 4]`.
    pub fn u32(self, buf: &[u8], off: usize) -> (r: Option<u32>)
        ensures
            r == u32_at(buf@, self, off as int),
    {
        if off > buf.len() || buf.len() - off < 4 {
            return None;
        }
        let b0 = buf[off] as u32;
        let b1 = buf[off + 1] as u32;
        let b2 = buf[off + 2] as u32;
        let b3 = buf[off + 3] as u32;
        Some(
            match self {
                ByteOrder::Little => b0 + b1 * 256 + b2 * 65536 + b3 * 16777216,
                ByteOrder::Big => b0 * 16777216 + b1 * 65536 + b2 * 256 + b3,
            },
        )
    }
}

fn elem_size_of(typ: u16) -> (r: usize)
    ensures
        r == elem_size(typ),
{
    if typ == 1 || typ == 2 {
        1
    } else if typ == 3 {
        2
    } else {
        4
    }
}

/// One value of type `typ` at `buf[val_off..]`, widened to 32 bits.
pub fn read_value(buf: &[u8], bo: ByteOrder, typ: u16, val_off: usize) -> (r: Option<u32>)
    ensures
        r == value_at(buf@, bo, typ, val_off as int),
{
    if typ == 1 || typ == 2 {
        if val_off < buf.len() {
            Some(buf[val_off] as u32)
        } else {
            None
        }
    } else if typ == 3 {
        match bo.u16(buf, val_off) {
            Some(v) => Some(v as u32),
            None => None,
        }
    } else {
        bo.u32(buf, val_off)
    }
}

proof fn lemma_count_fits(count: int, es: int, room: int, i: int)
    requires
        es == 1 || es == 2 || es == 4,
        0 <= i < count,
        count <= room / es,
        0 <= room,
    ensures
        i * es + es <= room,
        count * es <= room,
{
    assert(count * es <= (room / es) * es) by (nonlinear_arith)
        requires count <= room / es, es > 0;
    assert((room / es) * es <= room) by (nonlinear_arith)
        requires es > 0, room >= 0;
    assert(i * es + es <= count * es) by (nonlinear_arith)
        requires i < count, es > 0;
}

/// The `count` values of an IFD entry whose value field is at `val_off`.
pub fn read_values(buf: &[u8], bo: ByteOrder, typ: u16, val_off: usize, count: usize) -> (r: Option<
    Vec<u32>,
>)
    ensures
        match values_at(buf@, bo, typ, val_off as int, count as int) {
            Some(vs) => r matches Some(v) && v@ == vs,
            None => r is None,
        },
{
    if count == 0 {
        return Some(Vec::new());
    }
    let es = elem_size_of(typ);
    assert(count * es <= 4 <==> count <= 4usize / es) by {
        if es == 1 {
        } else if es == 2 {
        } else {
        }
    }
    let data_off: usize = if count <= 4 / es {
        val_off
    } else {
        match bo.u32(buf, val_off) {
            Some(o) => o as usize,
            None => return None,
        }
    };
    if data_off > buf.len() || count > (buf.len() - data_off) / es {
        proof {
            if data_off <= buf@.len() && data_off + count * es <= buf@.len() {
                assert(count * es <= buf@.len() - data_off);
                assert(count <= (buf@.len() - data_off) / (es as int)) by (nonlinear_arith)
                    requires count * es <= buf@.len() - data_off, es > 0;
            }
        }
        return None;
    }
    let blen = buf.len();
    let ghost room = buf@.len() - data_off;
    let mut values: Vec<u32> = Vec::new();
    let mut i: usize = 0;
    while i < count
        invariant
            i <= count,
            es == elem_size(typ),
            es == 1 || es == 2 || es == 4,
            data_off <= buf@.len(),
            blen == buf@.len(),
            room == buf@.len() - data_off,
            count <= room / (es as int),
            values@ == Seq::new(
                i as nat,
                |k: int| value_at(buf@, bo, typ, data_off + k * elem_size(typ)).unwrap(),
            ),
        decreases count - i,
    {
        proof {
            lemma_count_fits(count as int, es as int, room, i as int);
            assert((i as int) * (es as int) + (es as int) <= room);
        }
        let off = data_off + i * es;
        let v = read_value(buf, bo, typ, off);
        match v {
            Some(x) => values.push(x),
            None => {
                assert(false);
                return None;
            },
        }
        assert(values@ =~= Seq::new(
            (i + 1) as nat,
            |k: int| value_at(buf@, bo, typ, data_off + k * elem_size(typ)).unwrap(),
        ));
        i = i + 1;
    }
    proof {
        if count > 0 {
            lemma_count_fits(count as int, es as int, room, 0);
        }
    }
    Some(values)
}

/// The fields of an IFD read so far.
pub struct IfdFields {
    pub width: u32,
    pub height: u32,
    pub compression: u16,
    pub jpeg_offset: u32,
    pub jpeg_length: u32,
    pub strip_offsets: Vec<u32>,
    pub strip_byte_counts: Vec<u32>,
}

/// `f` holds the fields of the scan `s`.
pub open spec fn fields_match(f: IfdFields, s: IfdScan) -> bool {
    &&& !s.failed
    &&& f.width == s.width
    &&& f.height == s.height
    &&& f.compression == s.compression
    &&& f.jpeg_offset == s.jpeg_offset
    &&& f.jpeg_length == s.jpeg_length
    &&& f.strip_offsets@ == s.strip_offsets
    &&& f.strip_byte_counts@ == s.strip_byte_counts
}

/// Reads the IFD entry at `entry` into `fields`; the SubIFD offsets it names
/// go to `subs`. False when a read fails.
fn read_entry(
    buf: &[u8],
    bo: ByteOrder,
    entry: usize,
    fields: &mut IfdFields,
    subs: &mut Vec<usize>,
    Ghost(prefix): Ghost<Seq<usize>>,
    Ghost(s_in): Ghost<IfdScan>,
) -> (ok: bool)
    requires
        entry + 12 <= buf@.len(),
        fields_match(*old(fields), s_in),
        old(subs)@ == prefix + s_in.subs,
    ensures
        ok == !apply_entry(buf@, bo, entry as int, s_in).failed,
        final(subs)@ == prefix + apply_entry(buf@, bo, entry as int, s_in).subs,
        ok ==> fields_match(*final(fields), apply_entry(buf@, bo, entry as int, s_in)),
{
    reveal(apply_entry);
    let blen = buf.len();
    let tag = match bo.u16(buf, entry) {
        Some(t) => t,
        None => return false,
    };
    let typ = match bo.u16(buf, entry + 2) {
        Some(t) => t,
        None => return false,
    };
    let cnt = match bo.u32(buf, entry + 4) {
        Some(c) => c as usize,
        None => return false,
    };
    let val_off = entry + 8;
    if tag == TAG_IMAGE_WIDTH {
        match read_value(buf, bo, typ, val_off) {
            Some(v) => fields.width = v,
            None => return false,
        }
    } else if tag == TAG_IMAGE_LENGTH {
        match read_value(buf, bo, typ, val_off) {
            Some(v) => fields.height = v,
            None => return false,
        }
    } else if tag == TAG_COMPRESSION {
        match read_value(buf, bo, typ, val_off) {
            Some(v) => fields.compression = (v % 65536) as u16,
            None => return false,
        }
    } else if tag == TAG_JPEG_IF_OFFSET {
        match read_value(buf, bo, typ, val_off) {
            Some(v) => fields.jpeg_offset = v,
            None => return false,
        }
    } else if tag == TAG_JPEG_IF_BYTE_COUNT {
        match read_value(buf, bo, typ, val_off) {
            Some(v) => fields.jpeg_length = v,
            None => return false,
        }
    } else if tag == TAG_STRIP_OFFSETS {
        match read_values(buf, bo, typ, val_off, cnt) {
            Some(v) => fields.strip_offsets = v,
            None => return false,
        }
    } else if tag == TAG_STRIP_BYTE_COUNTS {
        match read_values(buf, bo, typ, val_off, cnt) {
            Some(v) => fields.strip_byte_counts = v,
            None => return false,
        }
    } else if tag == TAG_SUB_IFDS {
        match read_values(buf, bo, typ, val_off, cnt) {
            Some(v) => {
                let ghost before = subs@;
                let mut j: usize = 0;
                while j < v.len()
                    invariant
                        j <= v@.len(),
                        subs@ == before + v@.take(j as int).map_values(|o: u32| o as usize),
                    decreases v@.len() - j,
                {
                    subs.push(v[j] as usize);
                    assert(v@.take(j + 1).map_values(|o: u32| o as usize) =~= v@.take(
                        j as int,
                    ).map_values(|o: u32| o as usize).push(v@[j as int] as usize));
                    j = j + 1;
                }
                assert(v@.take(v@.len() as int) =~= v@);
                assert(subs@ =~= prefix + (s_in.subs + v@.map_values(|o: u32| o as usize)));
            },
            None => return false,
        }
    }
    true
}

/// Once a read of an IFD fails, later entries change nothing.
proof fn lemma_failed_sticks(buf: Seq<u8>, bo: ByteOrder, off: int, n: nat, m: nat)
    requires
        n <= m,
        scan_entries(buf, bo, off, n).failed,
    ensures
        scan_entries(buf, bo, off, m) == scan_entries(buf, bo, off, n),
    decreases m - n,
{
    if n < m {
        lemma_failed_sticks(buf, bo, off, n, (m - 1) as nat);
    }
}

/// Reads the IFD at `ifd_offset`: the JPEG it describes goes to `candidates`,
/// the SubIFD offsets it names to `sub_ifd_offsets`. Returns the offset of the
/// next IFD, or `None` when the IFD cannot be read.
pub fn parse_ifd(
    buf: &[u8],
    bo: ByteOrder,
    ifd_offset: usize,
    candidates: &mut Vec<JpegCandidate>,
    sub_ifd_offsets: &mut Vec<usize>,
) -> (r: Option<usize>)
    ensures
        final(candidates)@ == old(candidates)@ + opt_seq(ifd_outcome(buf@, bo, ifd_offset as int).candidate),
        final(sub_ifd_offsets)@ == old(sub_ifd_offsets)@ + ifd_outcome(buf@, bo, ifd_offset as int).subs,
        r == ifd_outcome(buf@, bo, ifd_offset as int).next,
{
    let ghost out = ifd_outcome(buf@, bo, ifd_offset as int);
    let blen = buf.len();
    let ghost subs0 = sub_ifd_offsets@;
    let count16 = match bo.u16(buf, ifd_offset) {
        Some(c) => c,
        None => {
            assert(sub_ifd_offsets@ =~= subs0 + out.subs);
            assert(candidates@ =~= old(candidates)@ + opt_seq(out.candidate));
            return None;
        },
    };
    let count = count16 as usize;
    if buf.len() - ifd_offset < 6 + count * 12 {
        assert(sub_ifd_offsets@ =~= subs0 + out.subs);
        assert(candidates@ =~= old(candidates)@ + opt_seq(out.candidate));
        return None;
    }
    let mut fields = IfdFields {
        width: 0,
        height: 0,
        compression: 0,
        jpeg_offset: 0,
        jpeg_length: 0,
        strip_offsets: Vec::new(),
        strip_byte_counts: Vec::new(),
    };
    assert(sub_ifd_offsets@ =~= subs0 + empty_scan().subs);
    let mut i: usize = 0;
    while i < count
        invariant
            i <= count,
            count == count16,
            blen == buf@.len(),
            u16_at(buf@, bo, ifd_offset as int) == Some(count16),
            ifd_offset + 6 + count * 12 <= buf@.len(),
            fields_match(fields, scan_entries(buf@, bo, ifd_offset as int, i as nat)),
            sub_ifd_offsets@ == subs0 + scan_entries(buf@, bo, ifd_offset as int, i as nat).subs,
            candidates@ == old(candidates)@,
            subs0 == old(sub_ifd_offsets)@,
            out == ifd_outcome(buf@, bo, ifd_offset as int),
        decreases count - i,
    {
        let ghost s_in = scan_entries(buf@, bo, ifd_offset as int, i as nat);
        let entry = ifd_offset + 2 + i * 12;
        let ok = read_entry(buf, bo, entry, &mut fields, sub_ifd_offsets, Ghost(subs0), Ghost(s_in));
        assert(scan_entries(buf@, bo, ifd_offset as int, (i + 1) as nat) == apply_entry(
            buf@,
            bo,
            entry as int,
            s_in,
        ));
        if !ok {
            proof {
                lemma_failed_sticks(buf@, bo, ifd_offset as int, (i + 1) as nat, count as nat);
                assert(scan_entries(buf@, bo, ifd_offset as int, count as nat).failed);
                assert(out.subs == scan_entries(buf@, bo, ifd_offset as int, count as nat).subs);
                assert(out.subs == apply_entry(buf@, bo, entry as int, s_in).subs);
            }
            assert(candidates@ =~= old(candidates)@ + opt_seq(out.candidate));
            return None;
        }
        i = i + 1;
    }
    let ghost s = scan_entries(buf@, bo, ifd_offset as int, count as nat);
    let is_jpeg = fields.compression == COMPRESSION_JPEG || fields.compression == COMPRESSION_OLD_JPEG;
    let w64 = fields.width as u64;
    let h64 = fields.height as u64;
    assert(w64 * h64 <= u64::MAX) by (nonlinear_arith)
        requires w64 <= u32::MAX, h64 <= u32::MAX;
    let pixels: u64 = w64 * h64;
    if is_jpeg {
        if fields.jpeg_offset > 0 && fields.jpeg_length > 0 {
            let off = fields.jpeg_offset as usize;
            let len = fields.jpeg_length as usize;
            if off <= blen && len <= blen - off {
                candidates.push(JpegCandidate { offset: off, length: len, pixels });
            }
        } else if fields.strip_offsets.len() == 1 && fields.strip_byte_counts.len() == 1 {
            let off = fields.strip_offsets[0] as usize;
            let len = fields.strip_byte_counts[0] as usize;
            if off <= blen && len <= blen - off {
                candidates.push(JpegCandidate { offset: off, length: len, pixels });
            }
        }
    }
    assert(candidates@ =~= old(candidates)@ + opt_seq(ifd_candidate(buf@.len() as int, s)));
    let next_off = ifd_offset + 2 + count * 12;
    match bo.u32(buf, next_off) {
        Some(n) => Some(n as usize),
        None => None,
    }
}

/// Index of the best candidate: the earliest one that no other beats.
fn best_candidate(c: &Vec<JpegCandidate>) -> (b: JpegCandidate)
    requires
        c@.len() > 0,
    ensures
        b == best_of(c@),
{
    let mut best = c[0];
    let mut k: usize = 1;
    assert(c@.take(1).len() == 1);
    while k < c.len()
        invariant
            1 <= k <= c@.len(),
            best == best_of(c@.take(k as int)),
        decreases c@.len() - k,
    {
        let x = c[k];
        assert(c@.take(k + 1).drop_last() =~= c@.take(k as int));
        if x.pixels > best.pixels || (x.pixels == best.pixels && x.length > best.length) {
            best = x;
        }
        k = k + 1;
    }
    assert(c@.take(c@.len() as int) =~= c@);
    best
}

/// Extract the largest embedded JPEG preview from a DNG/TIFF RAW file.
///
/// The main IFD chain is followed for at most `MAX_CHAIN_IFDS` IFDs, then the
/// SubIFDs it names (and those they name, up to `MAX_SUB_IFDS` queued in all)
/// are read. Among the JPEG streams found, the one with the most pixels wins,
/// ties going to the longer stream and then to the one found first.
pub fn extract_raw_preview(data: &[u8]) -> (res: Option<Vec<u8>>)
    ensures
        match raw_preview(data@) {
            Some(p) => res matches Some(v) && v@ == p,
            None => res is None,
        },
{
    if data.len() < 8 {
        return None;
    }
    let bo = if data[0] == 0x49 && data[1] == 0x49 {
        ByteOrder::Little
    } else if data[0] == 0x4D && data[1] == 0x4D {
        ByteOrder::Big
    } else {
        return None;
    };
    match bo.u16(data, 2) {
        Some(v) => {
            if v != 42 {
                return None;
            }
        },
        None => return None,
    }
    let first = match bo.u32(data, 4) {
        Some(o) => o as usize,
        None => return None,
    };
    let ghost main = walk_chain(data@, bo, first as int, MAX_CHAIN_IFDS as nat);
    let mut candidates: Vec<JpegCandidate> = Vec::new();
    let mut sub_ifd_offsets: Vec<usize> = Vec::new();

    // Walk the main IFD chain.
    let mut ifd_offset = first;
    let mut safety: usize = 0;
    assert(candidates@ + main.0 =~= main.0);
    assert(sub_ifd_offsets@ + main.1 =~= main.1);
    while ifd_offset > 0 && ifd_offset < data.len() && safety < MAX_CHAIN_IFDS
        invariant
            safety <= MAX_CHAIN_IFDS,
            main == walk_chain(data@, bo, first as int, MAX_CHAIN_IFDS as nat),
            candidates@ + walk_chain(data@, bo, ifd_offset as int, (MAX_CHAIN_IFDS - safety) as nat).0
                == main.0,
            sub_ifd_offsets@ + walk_chain(data@, bo, ifd_offset as int, (MAX_CHAIN_IFDS - safety) as nat).1
                == main.1,
        decreases MAX_CHAIN_IFDS - safety,
    {
        let ghost c0 = candidates@;
        let ghost s0 = sub_ifd_offsets@;
        let ghost o = ifd_outcome(data@, bo, ifd_offset as int);
        let next = parse_ifd(data, bo, ifd_offset, &mut candidates, &mut sub_ifd_offsets);
        safety = safety + 1;
        ifd_offset = match next {
            Some(n) => n,
            None => 0,
        };
        let ghost rest = walk_chain(data@, bo, ifd_offset as int, (MAX_CHAIN_IFDS - safety) as nat);
        assert(c0 + (opt_seq(o.candidate) + rest.0) =~= candidates@ + rest.0);
        assert(s0 + (o.subs + rest.1) =~= sub_ifd_offsets@ + rest.1);
    }
    assert(candidates@ =~= main.0);
    assert(sub_ifd_offsets@ =~= main.1);

    // Walk the SubIFDs.
    let ghost total = walk_subs(data@, bo, 0, main.1, main.0);
    let mut i: usize = 0;
    while i < sub_ifd_offsets.len() && i < MAX_SUB_IFDS
        invariant
            total == walk_subs(data@, bo, i as int, sub_ifd_offsets@, candidates@),
        decreases MAX_SUB_IFDS - i,
    {
        let off = sub_ifd_offsets[i];
        i = i + 1;
        if off > 0 && off < data.len() {
            let ghost o = ifd_outcome(data@, bo, off as int);
            let ghost queue = sub_ifd_offsets@;
            let mut nested: Vec<usize> = Vec::new();
            let _ = parse_ifd(data, bo, off, &mut candidates, &mut nested);
            assert(nested@ =~= o.subs);
            let mut j: usize = 0;
            while j < nested.len()
                invariant
                    j <= nested@.len(),
                    nested@ == o.subs,
                    sub_ifd_offsets@ == queue + nested@.take(
                        capped_count(queue.len() as int, j as int),
                    ),
                decreases nested@.len() - j,
            {
                if sub_ifd_offsets.len() < MAX_SUB_IFDS {
                    sub_ifd_offsets.push(nested[j]);
                    assert(nested@.take(capped_count(queue.len() as int, j + 1)) =~= nested@.take(
                        capped_count(queue.len() as int, j as int),
                    ).push(nested@[j as int]));
                }
                j = j + 1;
            }
        }
    }
    assert(candidates@ == total);

    if candidates.len() == 0 {
        return None;
    }
    let best = best_candidate(&candidates);
    if best.offset <= data.len() && best.length <= data.len() - best.offset && best.length >= 2 {
        Some(copy_range(data, best.offset, best.offset + best.length))
    } else {
        None
    }
}

/// The lowercase extensions of TIFF-based RAW formats that may hold an
/// embedded JPEG preview.
pub open spec fn raw_extensions() -> Seq<Seq<char>> {
    seq![
        seq!['d', 'n', 'g'],
        seq!['c', 'r', '2'],
        seq!['n', 'e', 'f'],
        seq!['a', 'r', 'w'],
        seq!['o', 'r', 'f'],
        seq!['r', 'w', '2'],
        seq!['p', 'e', 'f'],
        seq!['s', 'r', 'w'],
        seq!['r', 'a', 'f'],
        seq!['c', 'r', '3'],
    ]
}

/// Whether an already lowercased extension names a TIFF-based RAW format.
pub fn is_raw_extension(lower: &str) -> (r: bool)
    ensures
        r == raw_extensions().contains(lower@),
{
    let v = chars_of(lower);
    let hit = chars_equal(&v, &['d', 'n', 'g']) || chars_equal(&v, &['c', 'r', '2']) || chars_equal(
        &v,
        &['n', 'e', 'f'],
    ) || chars_equal(&v, &['a', 'r', 'w']) || chars_equal(&v, &['o', 'r', 'f']) || chars_equal(
        &v,
        &['r', 'w', '2'],
    ) || chars_equal(&v, &['p', 'e', 'f']) || chars_equal(&v, &['s', 'r', 'w']) || chars_equal(
        &v,
        &['r', 'a', 'f'],
    ) || chars_equal(&v, &['c', 'r', '3']);
    proof {
        let e = raw_extensions();
        if raw_extensions().contains(lower@) {
            let k = choose|k: int| 0 <= k < e.len() && e[k] == lower@;
            assert(hit) by {
                if k == 0 { assert(v@ =~= seq!['d', 'n', 'g']); }
                else if k == 1 { assert(v@ =~= seq!['c', 'r', '2']); }
                else if k == 2 { assert(v@ =~= seq!['n', 'e', 'f']); }
                else if k == 3 { assert(v@ =~= seq!['a', 'r', 'w']); }
                else if k == 4 { assert(v@ =~= seq!['o', 'r', 'f']); }
                else if k == 5 { assert(v@ =~= seq!['r', 'w', '2']); }
                else if k == 6 { assert(v@ =~= seq!['p', 'e', 'f']); }
                else if k == 7 { assert(v@ =~= seq!['s', 'r', 'w']); }
                else if k == 8 { assert(v@ =~= seq!['r', 'a', 'f']); }
                else { assert(v@ =~= seq!['c', 'r', '3']); }
            }
        }
        if hit {
            assert(e.contains(lower@)) by {
                if v@ == seq!['d', 'n', 'g'] { assert(e[0] == lower@); }
                else if v@ == seq!['c', 'r', '2'] { assert(e[1] == lower@); }
                else if v@ == seq!['n', 'e', 'f'] { assert(e[2] == lower@); }
                else if v@ == seq!['a', 'r', 'w'] { assert(e[3] == lower@); }
                else if v@ == seq!['o', 'r', 'f'] { assert(e[4] == lower@); }
                else if v@ == seq!['r', 'w', '2'] { assert(e[5] == lower@); }
                else if v@ == seq!['p', 'e', 'f'] { assert(e[6] == lower@); }
                else if v@ == seq!['s', 'r', 'w'] { assert(e[7] == lower@); }
                else if v@ == seq!['r', 'a', 'f'] { assert(e[8] == lower@); }
                else { assert(e[9] == lower@); }
            }
        }
    }
    hit
}

/// Check if a file extension (in any letter case) is a TIFF-based RAW format
/// that may contain embedded JPEG previews.
pub fn is_raw_with_preview(ext: &str) -> (r: bool)
    ensures
        r == raw_extensions().contains(unicode_lowercase(ext@)),
        is_ascii_text(ext@) ==> r == raw_extensions().contains(ascii_lower(ext@)),
{
    let lower = to_lowercase(ext);
    is_raw_extension(lower.as_str())
}

// ── laws ────────────────────────────────────────────────────────────────────

/// The best candidate is one of the candidates, none beats it, and it beats
/// every candidate before it.
pub proof fn lemma_best_of_is_best(c: Seq<JpegCandidate>)
    requires
        c.len() > 0,
    ensures
        exists|i: int|
            0 <= i < c.len() && c[i] == best_of(c) && (forall|j: int|
                0 <= j < c.len() ==> !better(#[trigger] c[j], c[i])) && (forall|j: int|
                0 <= j < i ==> better(c[i], #[trigger] c[j])),
    decreases c.len(),
{
    if c.len() == 1 {
        assert(forall|j: int| 0 <= j < c.len() ==> !better(#[trigger] c[j], c[0])) by {
            assert(forall|j: int| 0 <= j < c.len() ==> #[trigger] c[j] == c[0]);
        }
        assert(0 <= 0 < c.len() && c[0] == best_of(c));
    } else {
        let d = c.drop_last();
        lemma_best_of_is_best(d);
        let i = choose|i: int|
            0 <= i < d.len() && d[i] == best_of(d) && (forall|j: int|
                0 <= j < d.len() ==> !better(#[trigger] d[j], d[i])) && (forall|j: int|
                0 <= j < i ==> better(d[i], #[trigger] d[j]));
        let n = c.len() - 1;
        if better(c.last(), best_of(d)) {
            assert forall|j: int| 0 <= j < n implies better(c[n], #[trigger] c[j]) by {
                assert(c[j] == d[j]);
                assert(!better(d[j], d[i]));
            }
            assert(forall|j: int| 0 <= j < c.len() ==> !better(#[trigger] c[j], c[n]));
        } else {
            assert forall|j: int| 0 <= j < c.len() implies !better(#[trigger] c[j], c[i]) by {
                if j < n {
                    assert(c[j] == d[j]);
                }
            }
            assert forall|j: int| 0 <= j < i implies better(c[i], #[trigger] c[j]) by {
                assert(c[j] == d[j]);
            }
            assert(c[i] == d[i]);
        }
    }
}

/// A returned preview is a piece of the file, at least two bytes long, cut out
/// where one of the file's embedded JPEG streams lies, and no other embedded
/// stream encodes more pixels (or as many pixels in more bytes).
pub proof fn lemma_preview_is_largest_embedded_jpeg(data: Seq<u8>)
    ensures
        raw_preview(data) matches Some(p) ==> {
            &&& p.len() >= 2
            &&& byte_order_of(data[0], data[1]) matches Some(bo)
            &&& exists|i: int|
                #![trigger all_candidates(data, bo)[i]]
                {
                    let c = all_candidates(data, bo);
                    &&& 0 <= i < c.len()
                    &&& c[i].offset + c[i].length <= data.len()
                    &&& p == data.subrange(c[i].offset as int, c[i].offset + c[i].length)
                    &&& forall|j: int| 0 <= j < c.len() ==> !better(#[trigger] c[j], c[i])
                }
        },
{
    if let Some(p) = raw_preview(data) {
        let bo = byte_order_of(data[0], data[1]).unwrap();
        let c = all_candidates(data, bo);
        lemma_best_of_is_best(c);
        let i = choose|i: int|
            0 <= i < c.len() && c[i] == best_of(c) && (forall|j: int|
                0 <= j < c.len() ==> !better(#[trigger] c[j], c[i])) && (forall|j: int|
                0 <= j < i ==> better(c[i], #[trigger] c[j]));
        assert(p == data.subrange(c[i].offset as int, c[i].offset + c[i].length));
    }
}


/// The RAW formats whose files carry an embedded JPEG preview are exactly
/// DNG, CR2, NEF, ARW, ORF, RW2, PEF, SRW, RAF and CR3 (extensions in
/// lowercase; `is_raw_with_preview` lowercases first).
pub proof fn lemma_raw_extensions_are_the_ten(s: Seq<char>)
    ensures
        raw_extensions().contains(s) <==> (s == "dng"@
            || s == "cr2"@
            || s == "nef"@
            || s == "arw"@
            || s == "orf"@
            || s == "rw2"@
            || s == "pef"@
            || s == "srw"@
            || s == "raf"@
            || s == "cr3"@),
{
    reveal_strlit("dng");
    reveal_strlit("cr2");
    reveal_strlit("nef");
    reveal_strlit("arw");
    reveal_strlit("orf");
    reveal_strlit("rw2");
    reveal_strlit("pef");
    reveal_strlit("srw");
    reveal_strlit("raf");
    reveal_strlit("cr3");
    assert("dng"@ =~= seq!['d', 'n', 'g']);
    assert("cr2"@ =~= seq!['c', 'r', '2']);
    assert("nef"@ =~= seq!['n', 'e', 'f']);
    assert("arw"@ =~= seq!['a', 'r', 'w']);
    assert("orf"@ =~= seq!['o', 'r', 'f']);
    assert("rw2"@ =~= seq!['r', 'w', '2']);
    assert("pef"@ =~= seq!['p', 'e', 'f']);
    assert("srw"@ =~= seq!['s', 'r', 'w']);
    assert("raf"@ =~= seq!['r', 'a', 'f']);
    assert("cr3"@ =~= seq!['c', 'r', '3']);
    let e = raw_extensions();
    if e.contains(s) {
        let k = choose|k: int| 0 <= k < e.len() && e[k] == s;
        if k == 0 { assert(s == "dng"@); }
        else if k == 1 { assert(s == "cr2"@); }
        else if k == 2 { assert(s == "nef"@); }
        else if k == 3 { assert(s == "arw"@); }
        else if k == 4 { assert(s == "orf"@); }
        else if k == 5 { assert(s == "rw2"@); }
        else if k == 6 { assert(s == "pef"@); }
        else if k == 7 { assert(s == "srw"@); }
        else if k == 8 { assert(s == "raf"@); }
        else if k == 9 { assert(s == "cr3"@); }
    }
    if s == "dng"@
        || s == "cr2"@
        || s == "nef"@
        || s == "arw"@
        || s == "orf"@
        || s == "rw2"@
        || s == "pef"@
        || s == "srw"@
        || s == "raf"@
        || s == "cr3"@ {
        if s == "dng"@ { assert(e[0] == s); }
        else if s == "cr2"@ { assert(e[1] == s); }
        else if s == "nef"@ { assert(e[2] == s); }
        else if s == "arw"@ { assert(e[3] == s); }
        else if s == "orf"@ { assert(e[4] == s); }
        else if s == "rw2"@ { assert(e[5] == s); }
        else if s == "pef"@ { assert(e[6] == s); }
        else if s == "srw"@ { assert(e[7] == s); }
        else if s == "raf"@ { assert(e[8] == s); }
        else if s == "cr3"@ { assert(e[9] == s); }
    }
}


proof fn lemma_walk_subs_keeps(
    buf: Seq<u8>,
    bo: ByteOrder,
    i: int,
    queue: Seq<usize>,
    cands: Seq<JpegCandidate>,
    x: JpegCandidate,
)
    requires
        cands.contains(x),
    ensures
        walk_subs(buf, bo, i, queue, cands).contains(x),
    decreases MAX_SUB_IFDS - i,
{
    if !(i < 0 || i >= queue.len() || i >= MAX_SUB_IFDS) {
        let off = queue[i] as int;
        if 0 < off < buf.len() {
            let o = ifd_outcome(buf, bo, off);
            let c2 = cands + opt_seq(o.candidate);
            let k = choose|k: int| 0 <= k < cands.len() && cands[k] == x;
            assert(c2[k] == x);
            lemma_walk_subs_keeps(buf, bo, i + 1, append_capped(queue, o.subs), c2, x);
        } else {
            lemma_walk_subs_keeps(buf, bo, i + 1, queue, cands, x);
        }
    }
}

proof fn lemma_walk_subs_visits(
    buf: Seq<u8>,
    bo: ByteOrder,
    i: int,
    queue: Seq<usize>,
    cands: Seq<JpegCandidate>,
    j: int,
)
    requires
        0 <= i <= j < queue.len(),
        j < MAX_SUB_IFDS,
        0 < queue[j] < buf.len(),
        ifd_outcome(buf, bo, queue[j] as int).candidate is Some,
    ensures
        walk_subs(buf, bo, i, queue, cands).contains(ifd_outcome(buf, bo, queue[j] as int).candidate->0),
    decreases j - i,
{
    let off = queue[i] as int;
    if i == j {
        let o = ifd_outcome(buf, bo, off);
        let c2 = cands + opt_seq(o.candidate);
        assert(c2[cands.len() as int] == o.candidate->0);
        lemma_walk_subs_keeps(buf, bo, i + 1, append_capped(queue, o.subs), c2, o.candidate->0);
    } else if 0 < off < buf.len() {
        let o = ifd_outcome(buf, bo, off);
        let q2 = append_capped(queue, o.subs);
        assert(q2[j] == queue[j]);
        lemma_walk_subs_visits(buf, bo, i + 1, q2, cands + opt_seq(o.candidate), j);
    } else {
        lemma_walk_subs_visits(buf, bo, i + 1, queue, cands, j);
    }
}

/// Every SubIFD that the main IFD chain lists is read, the first 50 of them
/// at least: a JPEG stream that such a SubIFD describes is among the file's
/// embedded candidates (so the preview returned has at least as many pixels).
/// A DNG whose second SubIFD holds the full-size JPEG preview has it found.
pub proof fn lemma_listed_sub_ifds_are_read(data: Seq<u8>, bo: ByteOrder, first: u32, j: int)
    requires
        u32_at(data, bo, 4) == Some(first),
        0 <= j < 50,
        j < walk_chain(data, bo, first as int, MAX_CHAIN_IFDS as nat).1.len(),
        0 < walk_chain(data, bo, first as int, MAX_CHAIN_IFDS as nat).1[j] < data.len(),
        ifd_outcome(data, bo, walk_chain(data, bo, first as int, MAX_CHAIN_IFDS as nat).1[j] as int).candidate
            is Some,
    ensures
        all_candidates(data, bo).contains(
            ifd_outcome(data, bo, walk_chain(data, bo, first as int, MAX_CHAIN_IFDS as nat).1[j] as int).candidate->0,
        ),
{
    let main = walk_chain(data, bo, first as int, MAX_CHAIN_IFDS as nat);
    lemma_walk_subs_visits(data, bo, 0, main.1, main.0, j);
}

} // verus!
