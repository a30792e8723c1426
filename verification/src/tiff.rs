//! TIFF: walk the entries of the first image file directory until both the
//! ImageWidth (256) and the ImageLength (257) tag have been seen.
use vstd::prelude::*;

use crate::bytes::{read_u16, read_u32, read_u64, signed16, signed32, signed8, u16_at, u32_at, u64_at};
use crate::format::{ImError, ImFormat, ImInfo, ImResult};
use crate::preamble::{info, malformed};
use crate::protocol::{fetch, Request, Source, Step, SEEK_LIMIT};
use crate::scanner::{ask, leads, view_bytes, Phase};

verus! {

/// Where the walk over the directory stands: byte order, directory offset, number
/// of entries, the entry to visit next, and the sizes seen so far.
#[derive(Clone, Copy)]
pub struct TiffWalk {
    pub big: bool,
    pub ifd: u64,
    pub count: u64,
    pub index: u64,
    pub width: Option<u64>,
    pub height: Option<u64>,
}

impl TiffWalk {
    /// Offset of the entry to visit (two bytes of entry count, then 12 bytes per entry).
    pub open spec fn entry_pos(self) -> int {
        self.ifd + 2 + 12 * self.index
    }

    /// Offsets fit in 32 bits and the entry is one of the directory's.
    pub open spec fn wf(self) -> bool {
        &&& self.ifd <= u32::MAX
        &&& self.count <= 0xffff
        &&& self.index < self.count
        &&& self.entry_pos() <= u32::MAX
    }
}

/// Bytes of one value of field type `ftype` (0 for a type that is not read).
pub open spec fn value_len(ftype: int) -> nat {
    if ftype == 1 || ftype == 2 || ftype == 6 || ftype == 7 {
        1
    } else if ftype == 3 || ftype == 8 {
        2
    } else if ftype == 4 || ftype == 9 || ftype == 11 {
        4
    } else if 5 <= ftype <= 12 {
        8
    } else {
        0
    }
}

/// `x`, or 0 when negative.
pub open spec fn clamp0(x: int) -> int {
    if x < 0 { 0 } else { x }
}

/// Quotient rounded toward zero.
pub open spec fn trunc_div(a: int, b: int) -> int {
    let q = (if a < 0 { -a } else { a }) / (if b < 0 { -b } else { b });
    if (a < 0) == (b < 0) { q } else { -q }
}

/// The value of an integer-typed field as a size: BYTE/ASCII, SHORT, LONG as they
/// are; RATIONAL as the quotient; the signed types with negative values as zero.
/// `None` for a zero denominator.
pub open spec fn tiff_number(big: bool, ftype: int, s: Seq<u8>) -> Option<int> {
    if ftype == 1 || ftype == 2 {
        Some(s[0] as int)
    } else if ftype == 3 {
        Some(u16_at(big, s, 0))
    } else if ftype == 4 {
        Some(u32_at(big, s, 0))
    } else if ftype == 5 {
        if u32_at(big, s, 4) == 0 {
            None
        } else {
            Some(u32_at(big, s, 0) / u32_at(big, s, 4))
        }
    } else if ftype == 6 || ftype == 7 {
        Some(clamp0(signed8(s[0] as int)))
    } else if ftype == 8 {
        Some(clamp0(signed16(u16_at(big, s, 0))))
    } else if ftype == 9 {
        Some(clamp0(signed32(u32_at(big, s, 0))))
    } else if ftype == 10 {
        let a = signed32(u32_at(big, s, 0));
        let b = signed32(u32_at(big, s, 4));
        if b == 0 {
            None
        } else {
            Some(clamp0(trunc_div(a, b)))
        }
    } else {
        None
    }
}

/// The directory at `ifd`: read the entry count.
pub open spec fn tiff_top(src: Source, big: bool, ifd: int) -> ImResult<ImInfo> {
    tiff_count_then(src, big, ifd, fetch(src, ifd, 2))
}

pub open spec fn tiff_count_then(src: Source, big: bool, ifd: int, got: Option<Seq<u8>>) -> ImResult<
    ImInfo,
> {
    match got {
        Some(s) => tiff_entries(
            src,
            TiffWalk {
                big,
                ifd: ifd as u64,
                count: u16_at(big, s, 0) as u64,
                index: 0,
                width: None,
                height: None,
            },
        ),
        None => malformed(ImFormat::TIFF),
    }
}

/// Visit entry `t.index`: read its tag. Running out of entries is an error, and so
/// is an entry offset that does not fit in 32 bits.
pub open spec fn tiff_entries(src: Source, t: TiffWalk) -> ImResult<ImInfo>
    decreases t.count - t.index, 7nat,
{
    if t.index >= t.count || t.entry_pos() > u32::MAX {
        malformed(ImFormat::TIFF)
    } else {
        tiff_tag_then(src, t, fetch(src, t.entry_pos(), 2))
    }
}

/// The walk moved on to the next entry.
pub open spec fn tiff_advance(t: TiffWalk, width: Option<u64>, height: Option<u64>) -> TiffWalk {
    TiffWalk { index: (t.index + 1) as u64, width, height, ..t }
}

pub open spec fn tiff_tag_then(src: Source, t: TiffWalk, got: Option<Seq<u8>>) -> ImResult<ImInfo>
    decreases t.count - t.index, 6nat,
{
    match got {
        Some(s) => {
            let tag = u16_at(t.big, s, 0);
            if t.index >= t.count {
                // never reached: only entries below the count are visited
                malformed(ImFormat::TIFF)
            } else if tag != 256 && tag != 257 {
                tiff_entries(src, tiff_advance(t, t.width, t.height))
            } else {
                tiff_type(src, t, tag as u16)
            }
        },
        None => malformed(ImFormat::TIFF),
    }
}

/// The field type follows the tag.
pub open spec fn tiff_type(src: Source, t: TiffWalk, tag: u16) -> ImResult<ImInfo>
    decreases t.count - t.index, 5nat,
{
    tiff_type_then(src, t, tag, fetch(src, t.entry_pos() + 2, 2))
}

pub open spec fn tiff_type_then(src: Source, t: TiffWalk, tag: u16, got: Option<Seq<u8>>) -> ImResult<
    ImInfo,
>
    decreases t.count - t.index, 4nat,
{
    match got {
        Some(s) => tiff_value(src, t, tag, u16_at(t.big, s, 0) as u16),
        None => malformed(ImFormat::TIFF),
    }
}

/// The value sits 8 bytes into the entry; an unknown field type is an error.
pub open spec fn tiff_value(src: Source, t: TiffWalk, tag: u16, ftype: u16) -> ImResult<ImInfo>
    decreases t.count - t.index, 3nat,
{
    if value_len(ftype as int) == 0 {
        malformed(ImFormat::TIFF)
    } else {
        tiff_value_then(src, t, tag, ftype, fetch(src, t.entry_pos() + 8, value_len(ftype as int)))
    }
}

pub open spec fn tiff_value_then(
    src: Source,
    t: TiffWalk,
    tag: u16,
    ftype: u16,
    got: Option<Seq<u8>>,
) -> ImResult<ImInfo>
    decreases t.count - t.index, 2nat,
{
    match got {
        Some(s) => if ftype == 11 {
            tiff_store_then(src, t, tag, Some((src.f32_as_u64)(u32_at(t.big, s, 0) as u32)))
        } else if ftype == 12 {
            tiff_store_then(src, t, tag, Some((src.f64_as_u64)(u64_at(t.big, s, 0) as u64)))
        } else {
            match tiff_number(t.big, ftype as int, s) {
                Some(v) => tiff_store(src, t, tag, v as u64),
                None => malformed(ImFormat::TIFF),
            }
        },
        None => malformed(ImFormat::TIFF),
    }
}

/// A floating-point value converted to an integer (`None` when no conversion came back).
pub open spec fn tiff_store_then(src: Source, t: TiffWalk, tag: u16, got: Option<u64>) -> ImResult<ImInfo>
    decreases t.count - t.index, 1nat,
{
    match got {
        Some(v) => tiff_store(src, t, tag, v),
        None => malformed(ImFormat::TIFF),
    }
}

/// Value `v` of tag `tag` was read: with the other size already seen the walk is
/// done, else it records `v` and moves on.
pub open spec fn tiff_store(src: Source, t: TiffWalk, tag: u16, v: u64) -> ImResult<ImInfo>
    decreases t.count - t.index, 0nat,
{
    if t.index >= t.count {
        // never reached: only entries below the count are visited
        malformed(ImFormat::TIFF)
    } else if tag == 256 {
        match t.height {
            Some(h) => info(ImFormat::TIFF, v as int, h as int),
            None => tiff_entries(src, tiff_advance(t, Some(v), t.height)),
        }
    } else {
        match t.width {
            Some(w) => info(ImFormat::TIFF, w as int, v as int),
            None => tiff_entries(src, tiff_advance(t, t.width, Some(v))),
        }
    }
}

/// Bytes of one value of field type `ftype`.
pub(crate) fn field_len(ftype: u16) -> (r: usize)
    ensures
        r == value_len(ftype as int),
{
    if ftype == 1 || ftype == 2 || ftype == 6 || ftype == 7 {
        1
    } else if ftype == 3 || ftype == 8 {
        2
    } else if ftype == 4 || ftype == 9 || ftype == 11 {
        4
    } else if 5 <= ftype && ftype <= 12 {
        8
    } else {
        0
    }
}

/// The file is big endian ("MM").
pub open spec fn tiff_big_endian(p: Seq<u8>) -> bool {
    p[0] == 0x4d && p[1] == 0x4d
}

fn tiff_error() -> (r: (Phase, Step))
    ensures
        r.0 is Finished,
        r.0.wf(),
        r.1 == Step::Done(malformed(ImFormat::TIFF)),
{
    (Phase::Finished, Step::Done(Err(ImError::ParserError(ImFormat::TIFF))))
}

pub(crate) fn top(big: bool, ifd: u32) -> (r: (Phase, Step))
    ensures
        r.0.wf(),
        forall|src: Source| leads(r.0, r.1, src, #[trigger] tiff_top(src, big, ifd as int)),
{
    ask(Phase::TiffCount { big, ifd: ifd as u64 }, ifd as u64, 2, ImFormat::TIFF)
}

fn entries(t: TiffWalk) -> (r: (Phase, Step))
    requires
        t.ifd <= u32::MAX,
        t.count <= 0xffff,
        t.index <= t.count,
    ensures
        r.0.wf(),
        r.1 is Need ==> r.0.mark() == t.entry_pos(),
        forall|src: Source| leads(r.0, r.1, src, #[trigger] tiff_entries(src, t)),
{
    if t.index >= t.count {
        return tiff_error();
    }
    let pos = t.ifd + 2 + 12 * t.index;
    if pos > 0xffff_ffff {
        return tiff_error();
    }
    let r = ask(Phase::TiffTag { t }, pos, 2, ImFormat::TIFF);
    assert forall|src: Source| leads(r.0, r.1, src, #[trigger] tiff_entries(src, t)) by {}
    r
}

/// Integer value of a field of type `ftype` (1 to 10) read into `v`.
fn number(big: bool, ftype: u16, v: &[u8]) -> (r: Option<u64>)
    requires
        1 <= ftype <= 10,
        v@.len() == value_len(ftype as int),
    ensures
        match tiff_number(big, ftype as int, v@) {
            Some(x) => r == Some(x as u64) && 0 <= x <= u64::MAX,
            None => r is None,
        },
{
    if ftype == 1 || ftype == 2 {
        Some(v[0] as u64)
    } else if ftype == 3 {
        Some(read_u16(big, v, 0) as u64)
    } else if ftype == 4 {
        Some(read_u32(big, v, 0) as u64)
    } else if ftype == 5 {
        let a = read_u32(big, v, 0);
        let b = read_u32(big, v, 4);
        if b == 0 {
            None
        } else {
            Some((a / b) as u64)
        }
    } else if ftype == 6 || ftype == 7 {
        Some(if v[0] < 0x80 { v[0] as u64 } else { 0 })
    } else if ftype == 8 {
        let x = read_u16(big, v, 0);
        Some(if x < 0x8000 { x as u64 } else { 0 })
    } else if ftype == 9 {
        let x = read_u32(big, v, 0);
        Some(if x < 0x8000_0000 { x as u64 } else { 0 })
    } else {
        let a = read_u32(big, v, 0);
        let b = read_u32(big, v, 4);
        if b == 0 {
            return None;
        }
        // magnitudes of the two's-complement values
        let a_neg = a >= 0x8000_0000;
        let b_neg = b >= 0x8000_0000;
        let a_abs: u64 = if a_neg { 0x1_0000_0000 - a as u64 } else { a as u64 };
        let b_abs: u64 = if b_neg { 0x1_0000_0000 - b as u64 } else { b as u64 };
        let q = a_abs / b_abs;
        proof {
            let sa = signed32(a as int);
            let sb = signed32(b as int);
            assert((if sa < 0 { -sa } else { sa }) == a_abs);
            assert((if sb < 0 { -sb } else { sb }) == b_abs);
        }
        Some(if a_neg == b_neg { q } else { 0 })
    }
}

fn store(t: TiffWalk, tag: u16, v: u64) -> (r: (Phase, Step))
    requires
        t.wf(),
        tag == 256 || tag == 257,
    ensures
        r.0.wf(),
        r.1 is Need ==> r.0.mark() >= t.entry_pos() + 12,
        forall|src: Source| leads(r.0, r.1, src, #[trigger] tiff_store(src, t, tag, v)),
{
    if tag == 256 {
        match t.height {
            Some(h) => (
                Phase::Finished,
                Step::Done(Ok(ImInfo { format: ImFormat::TIFF, width: v, height: h })),
            ),
            None => {
                let next = TiffWalk { index: t.index + 1, width: Some(v), ..t };
                let r = entries(next);
                assert forall|src: Source| leads(r.0, r.1, src, #[trigger] tiff_store(src, t, tag, v)) by {
                    assert(next == tiff_advance(t, Some(v), t.height));
                    assert(leads(r.0, r.1, src, tiff_entries(src, next)));
                }
                r
            },
        }
    } else {
        match t.width {
            Some(w) => (
                Phase::Finished,
                Step::Done(Ok(ImInfo { format: ImFormat::TIFF, width: w, height: v })),
            ),
            None => {
                let next = TiffWalk { index: t.index + 1, height: Some(v), ..t };
                let r = entries(next);
                assert forall|src: Source| leads(r.0, r.1, src, #[trigger] tiff_store(src, t, tag, v)) by {
                    assert(next == tiff_advance(t, t.width, Some(v)));
                    assert(leads(r.0, r.1, src, tiff_entries(src, next)));
                }
                r
            },
        }
    }
}

fn count_got(big: bool, ifd: u64, v: Vec<u8>) -> (r: (Phase, Step))
    requires
        ifd <= u32::MAX,
        v@.len() == 2,
    ensures
        r.0.wf(),
        r.1 is Need ==> r.0.mark() > ifd,
        forall|src: Source| leads(r.0, r.1, src, #[trigger] tiff_count_then(src, big, ifd as int, Some(v@))),
{
    let count = read_u16(big, v.as_slice(), 0) as u64;
    let t = TiffWalk { big, ifd, count, index: 0, width: None, height: None };
    let r = entries(t);
    assert forall|src: Source|
        leads(r.0, r.1, src, #[trigger] tiff_count_then(src, big, ifd as int, Some(v@))) by {
        assert(leads(r.0, r.1, src, tiff_entries(src, t)));
    }
    r
}

fn tag_got(t: TiffWalk, v: Vec<u8>) -> (r: (Phase, Step))
    requires
        t.wf(),
        v@.len() == 2,
    ensures
        r.0.wf(),
        r.1 is Need ==> r.0.mark() > t.entry_pos(),
        forall|src: Source| leads(r.0, r.1, src, #[trigger] tiff_tag_then(src, t, Some(v@))),
{
    let tag = read_u16(t.big, v.as_slice(), 0);
    if tag != 256 && tag != 257 {
        let next = TiffWalk { index: t.index + 1, ..t };
        let r = entries(next);
        assert forall|src: Source| leads(r.0, r.1, src, #[trigger] tiff_tag_then(src, t, Some(v@))) by {
            assert(next == tiff_advance(t, t.width, t.height));
            assert(leads(r.0, r.1, src, tiff_entries(src, next)));
        }
        r
    } else {
        let pos = t.ifd + 2 + 12 * t.index + 2;
        let r = ask(Phase::TiffType { t, tag }, pos, 2, ImFormat::TIFF);
        assert forall|src: Source| leads(r.0, r.1, src, #[trigger] tiff_tag_then(src, t, Some(v@))) by {
            assert(tiff_tag_then(src, t, Some(v@)) == tiff_type(src, t, tag));
        }
        r
    }
}

fn type_got(t: TiffWalk, tag: u16, v: Vec<u8>) -> (r: (Phase, Step))
    requires
        t.wf(),
        tag == 256 || tag == 257,
        v@.len() == 2,
    ensures
        r.0.wf(),
        r.1 is Need ==> r.0.mark() > t.entry_pos() + 2,
        forall|src: Source| leads(r.0, r.1, src, #[trigger] tiff_type_then(src, t, tag, Some(v@))),
{
    let ftype = read_u16(t.big, v.as_slice(), 0);
    let len = field_len(ftype);
    if len == 0 {
        return tiff_error();
    }
    let pos = t.ifd + 2 + 12 * t.index + 8;
    let r = ask(Phase::TiffValue { t, tag, ftype }, pos, len, ImFormat::TIFF);
    assert forall|src: Source| leads(r.0, r.1, src, #[trigger] tiff_type_then(src, t, tag, Some(v@))) by {
        assert(tiff_type_then(src, t, tag, Some(v@)) == tiff_value(src, t, tag, ftype));
    }
    r
}

fn value_got(t: TiffWalk, tag: u16, ftype: u16, v: Vec<u8>) -> (r: (Phase, Step))
    requires
        t.wf(),
        tag == 256 || tag == 257,
        1 <= ftype <= 12,
        v@.len() == value_len(ftype as int),
    ensures
        r.0.wf(),
        r.1 is Need ==> r.0.mark() > t.entry_pos() + 8,
        forall|src: Source|
            leads(r.0, r.1, src, #[trigger] tiff_value_then(src, t, tag, ftype, Some(v@))),
{
    if ftype == 11 {
        let conv = Request::F32AsU64(read_u32(t.big, v.as_slice(), 0));
        (Phase::TiffFloat { t, tag, conv }, Step::Need(conv))
    } else if ftype == 12 {
        let conv = Request::F64AsU64(read_u64(t.big, v.as_slice(), 0));
        (Phase::TiffFloat { t, tag, conv }, Step::Need(conv))
    } else {
        match number(t.big, ftype, v.as_slice()) {
            Some(x) => {
                let r = store(t, tag, x);
                assert forall|src: Source|
                    leads(r.0, r.1, src, #[trigger] tiff_value_then(src, t, tag, ftype, Some(v@))) by {
                    assert(leads(r.0, r.1, src, tiff_store(src, t, tag, x)));
                }
                r
            },
            None => tiff_error(),
        }
    }
}

/// Go on after the reply to a TIFF read.
pub(crate) fn resume(phase: Phase, got: Option<Vec<u8>>) -> (r: (Phase, Step))
    requires
        phase.wf(),
        phase is TiffCount || phase is TiffTag || phase is TiffType || phase is TiffValue,
        got matches Some(v) ==> v@.len() == phase.pending()->len,
    ensures
        r.0.wf(),
        r.1 is Need ==> r.0.mark() > phase.mark(),
        forall|src: Source| leads(r.0, r.1, src, #[trigger] phase.after_data(view_bytes(got), src)),
{
    match got {
        None => tiff_error(),
        Some(v) => match phase {
            Phase::TiffCount { big, ifd } => count_got(big, ifd, v),
            Phase::TiffTag { t } => tag_got(t, v),
            Phase::TiffType { t, tag } => type_got(t, tag, v),
            Phase::TiffValue { t, tag, ftype } => value_got(t, tag, ftype, v),
            _ => tiff_error(),
        },
    }
}

/// Go on after the reply to a conversion of a floating-point value.
pub(crate) fn resume_float(phase: Phase, got: Option<u64>) -> (r: (Phase, Step))
    requires
        phase.wf(),
        phase is TiffFloat,
    ensures
        r.0.wf(),
        r.1 is Need ==> r.0.mark() > phase.mark(),
        forall|src: Source|
            leads(r.0, r.1, src, #[trigger] tiff_store_then(src, phase->TiffFloat_t, phase->TiffFloat_tag, got)),
{
    match phase {
        Phase::TiffFloat { t, tag, .. } => match got {
            Some(x) => {
                let r = store(t, tag, x);
                assert forall|src: Source|
                    leads(r.0, r.1, src, #[trigger] tiff_store_then(src, t, tag, got)) by {
                    assert(leads(r.0, r.1, src, tiff_store(src, t, tag, x)));
                }
                r
            },
            None => tiff_error(),
        },
        _ => tiff_error(),
    }
}

} // verus!
