//! The scanner: decides, from the preamble and the replies to its requests, what
//! to read next and, in the end, the size of the image.
use vstd::prelude::*;

use crate::avif::{avif_extent_then, avif_find_then, avif_top, AvifBox};
use crate::bytes::{be32, le16, read_be32, read_le16, read_u32, u32_at};
use crate::exr::{exr_box_then, exr_name, exr_name_then, exr_size_then, exr_type_then};
use crate::format::{ImError, ImFormat, ImInfo, ImResult};
use crate::ico::{ico_entries, ico_entry_then};
use crate::jpeg::{jpeg_fill_then, jpeg_hunt_then, jpeg_next_then, jpeg_seglen_then, jpeg_sof_then, jpeg_top};
use crate::preamble::{
    bmp_size, gif_size, kind, png_size, preamble, preamble_size, psd_size, qoi_size, webp_size,
    xcf_size, Kind, PREAMBLE_LEN,
};
use crate::protocol::{answer, reply_answer, Answer, Reply, Request, Source, Step, SEEK_LIMIT};
use crate::tiff::{
    tiff_big_endian, tiff_count_then, tiff_store_then, tiff_tag_then, tiff_top, tiff_type_then,
    tiff_value_then, value_len, TiffWalk,
};

verus! {

/// What the image size is, given the bytes `head` read first from the file and the
/// source `src` from which all further reads are made.
pub open spec fn spec_imsz(head: Seq<u8>, src: Source) -> ImResult<ImInfo> {
    let p = preamble(head);
    let n = preamble_size(head);
    match kind(p, n) {
        Kind::Gif => gif_size(p, n),
        Kind::Png => png_size(p, n),
        Kind::Bmp => bmp_size(p, n),
        Kind::Jpeg => jpeg_top(src, 3, p[2]),
        Kind::Webp => webp_size(p),
        Kind::Avif => avif_top(src, be32(p, 0)),
        Kind::Tiff => tiff_top(src, tiff_big_endian(p), u32_at(tiff_big_endian(p), p, 4)),
        Kind::Qoi => qoi_size(p),
        Kind::Psd => psd_size(p),
        Kind::Xcf => xcf_size(p),
        Kind::Ico => ico_entries(src, le16(p, 4), 0, 0, 0),
        Kind::Exr => exr_name(src, 8, seq![]),
        Kind::Unknown => Err(ImError::UnknownFormat),
    }
}

/// Reads left before offset `pos` passes the seek limit; the measure that the
/// walks over a file decrease.
pub open spec fn room(pos: int) -> nat {
    if pos <= SEEK_LIMIT + 1 {
        (SEEK_LIMIT + 1 - pos) as nat
    } else {
        0
    }
}

/// The bytes of a reply, when it has the bytes asked for.
pub open spec fn answer_data(a: Answer) -> Option<Seq<u8>> {
    match a {
        Answer::Data(s) => Some(s),
        _ => None,
    }
}

/// The number of a reply, when it is a number.
pub open spec fn answer_number(a: Answer) -> Option<u64> {
    match a {
        Answer::Number(x) => Some(x),
        _ => None,
    }
}

/// The bytes of an optional buffer.
pub open spec fn view_bytes(got: Option<Vec<u8>>) -> Option<Seq<u8>> {
    match got {
        Some(v) => Some(v@),
        None => None,
    }
}

/// Where the scanner stands: which request it waits on, and what it does with the answer.
pub(crate) enum Phase {
    Finished,
    JpegHunt { pos: u64 },
    JpegFill { pos: u64 },
    JpegSof { pos: u64 },
    JpegSegLen { pos: u64 },
    JpegNext { pos: u64 },
    Ico { count: u64, i: u64, w: u64, h: u64 },
    AvifFind { b: AvifBox, pos: u64, limit: u64, offset: u64 },
    AvifExtent { pos: u64 },
    ExrName { pos: u64, name: Vec<u8> },
    ExrType { pos: u64, name: Vec<u8>, ty: Vec<u8> },
    ExrSize { pos: u64, name: Vec<u8>, ty: Vec<u8> },
    ExrBox { pos: u64 },
    TiffCount { big: bool, ifd: u64 },
    TiffTag { t: TiffWalk },
    TiffType { t: TiffWalk, tag: u16 },
    TiffValue { t: TiffWalk, tag: u16, ftype: u16 },
    TiffFloat { t: TiffWalk, tag: u16, conv: Request },
}

impl Phase {
    /// Offsets stay within the seek limit, walks within their directories.
    pub(crate) open spec fn wf(self) -> bool {
        match self {
            Phase::Finished => true,
            Phase::JpegHunt { pos } => pos <= SEEK_LIMIT,
            Phase::JpegFill { pos } => pos <= SEEK_LIMIT,
            Phase::JpegSof { pos } => pos <= SEEK_LIMIT,
            Phase::JpegSegLen { pos } => pos <= SEEK_LIMIT,
            Phase::JpegNext { pos } => pos <= SEEK_LIMIT,
            Phase::Ico { count, i, w, h } => count <= 0xffff && i < count && w <= 0xff && h <= 0xff,
            Phase::AvifFind { pos, offset, .. } => offset <= pos <= SEEK_LIMIT,
            Phase::AvifExtent { pos } => pos <= SEEK_LIMIT,
            Phase::ExrName { pos, .. } => pos <= SEEK_LIMIT,
            Phase::ExrType { pos, .. } => pos <= SEEK_LIMIT,
            Phase::ExrSize { pos, .. } => pos <= SEEK_LIMIT,
            Phase::ExrBox { pos } => pos <= SEEK_LIMIT,
            Phase::TiffCount { ifd, .. } => ifd <= u32::MAX,
            Phase::TiffTag { t } => t.wf(),
            Phase::TiffType { t, tag } => t.wf() && (tag == 256 || tag == 257),
            Phase::TiffValue { t, tag, ftype } => {
                t.wf() && (tag == 256 || tag == 257) && 1 <= ftype <= 12
            },
            Phase::TiffFloat { t, tag, conv } => {
                t.wf() && (tag == 256 || tag == 257) && (conv is F32AsU64 || conv is F64AsU64)
            },
        }
    }

    /// The request the phase waits on.
    pub(crate) open spec fn pending(self) -> Request {
        match self {
            Phase::Finished => Request::ReadAt { pos: 0, len: 0 },
            Phase::JpegHunt { pos } => Request::ReadAt { pos, len: 1 },
            Phase::JpegFill { pos } => Request::ReadAt { pos, len: 1 },
            Phase::JpegSof { pos } => Request::ReadAt { pos, len: 4 },
            Phase::JpegSegLen { pos } => Request::ReadAt { pos, len: 2 },
            Phase::JpegNext { pos } => Request::ReadAt { pos, len: 1 },
            Phase::Ico { i, .. } => Request::ReadAt { pos: (6 + 16 * i) as u64, len: 16 },
            Phase::AvifFind { pos, .. } => Request::ReadAt { pos, len: 8 },
            Phase::AvifExtent { pos } => Request::ReadAt { pos, len: 12 },
            Phase::ExrName { pos, .. } => Request::ReadAt { pos, len: 1 },
            Phase::ExrType { pos, .. } => Request::ReadAt { pos, len: 1 },
            Phase::ExrSize { pos, .. } => Request::ReadAt { pos, len: 4 },
            Phase::ExrBox { pos } => Request::ReadAt { pos, len: 16 },
            Phase::TiffCount { ifd, .. } => Request::ReadAt { pos: ifd, len: 2 },
            Phase::TiffTag { t } => Request::ReadAt { pos: t.entry_pos() as u64, len: 2 },
            Phase::TiffType { t, .. } => Request::ReadAt { pos: (t.entry_pos() + 2) as u64, len: 2 },
            Phase::TiffValue { t, ftype, .. } => Request::ReadAt {
                pos: (t.entry_pos() + 8) as u64,
                len: value_len(ftype as int) as usize,
            },
            Phase::TiffFloat { conv, .. } => conv,
        }
    }

    /// How far the phase has come: the offset of the read it waits on (a conversion
    /// counts one past the offset of the value it converts).
    pub(crate) open spec fn mark(self) -> int {
        match self {
            Phase::Finished => SEEK_LIMIT + 1,
            Phase::TiffFloat { t, .. } => t.entry_pos() + 9,
            _ => match self.pending() {
                Request::ReadAt { pos, .. } => pos as int,
                _ => 0,
            },
        }
    }

    /// The outcome once a read phase gets `got` (the bytes, or `None` when the read failed).
    pub(crate) open spec fn after_data(self, got: Option<Seq<u8>>, src: Source) -> ImResult<ImInfo> {
        match self {
            Phase::Finished => Err(ImError::UnknownFormat),
            Phase::JpegHunt { pos } => jpeg_hunt_then(src, pos as int, got),
            Phase::JpegFill { pos } => jpeg_fill_then(src, pos as int, got),
            Phase::JpegSof { pos } => jpeg_sof_then(got),
            Phase::JpegSegLen { pos } => jpeg_seglen_then(src, pos as int, got),
            Phase::JpegNext { pos } => jpeg_next_then(src, pos as int, got),
            Phase::Ico { count, i, w, h } => ico_entry_then(src, count as int, i as int, w as int, h as int, got),
            Phase::AvifFind { b, pos, limit, offset } => avif_find_then(
                src,
                b,
                pos as int,
                limit as int,
                offset as int,
                got,
            ),
            Phase::AvifExtent { pos } => avif_extent_then(got),
            Phase::ExrName { pos, name } => exr_name_then(src, pos as int, name@, got),
            Phase::ExrType { pos, name, ty } => exr_type_then(src, pos as int, name@, ty@, got),
            Phase::ExrSize { pos, name, ty } => exr_size_then(src, pos as int, name@, ty@, got),
            Phase::ExrBox { pos } => exr_box_then(pos as int, got),
            Phase::TiffCount { big, ifd } => tiff_count_then(src, big, ifd as int, got),
            Phase::TiffTag { t } => tiff_tag_then(src, t, got),
            Phase::TiffType { t, tag } => tiff_type_then(src, t, tag, got),
            Phase::TiffValue { t, tag, ftype } => tiff_value_then(src, t, tag, ftype, got),
            Phase::TiffFloat { .. } => Err(ImError::UnknownFormat),
        }
    }

    /// The outcome once the phase gets answer `ans`.
    pub(crate) open spec fn after(self, ans: Answer, src: Source) -> ImResult<ImInfo> {
        match self {
            Phase::TiffFloat { t, tag, .. } => tiff_store_then(src, t, tag, answer_number(ans)),
            _ => self.after_data(answer_data(ans), src),
        }
    }

    pub(crate) proof fn lemma_pending_within(self)
        requires
            self.wf(),
        ensures
            self.pending() matches Request::ReadAt { pos, .. } ==> pos <= SEEK_LIMIT,
            0 <= self.mark() <= SEEK_LIMIT + 1,
    {
    }

    pub(crate) fn request(&self) -> (r: Request)
        requires
            self.wf(),
        ensures
            r == self.pending(),
    {
        match self {
            Phase::Finished => Request::ReadAt { pos: 0, len: 0 },
            Phase::JpegHunt { pos } => Request::ReadAt { pos: *pos, len: 1 },
            Phase::JpegFill { pos } => Request::ReadAt { pos: *pos, len: 1 },
            Phase::JpegSof { pos } => Request::ReadAt { pos: *pos, len: 4 },
            Phase::JpegSegLen { pos } => Request::ReadAt { pos: *pos, len: 2 },
            Phase::JpegNext { pos } => Request::ReadAt { pos: *pos, len: 1 },
            Phase::Ico { i, .. } => Request::ReadAt { pos: 6 + 16 * *i, len: 16 },
            Phase::AvifFind { pos, .. } => Request::ReadAt { pos: *pos, len: 8 },
            Phase::AvifExtent { pos } => Request::ReadAt { pos: *pos, len: 12 },
            Phase::ExrName { pos, .. } => Request::ReadAt { pos: *pos, len: 1 },
            Phase::ExrType { pos, .. } => Request::ReadAt { pos: *pos, len: 1 },
            Phase::ExrSize { pos, .. } => Request::ReadAt { pos: *pos, len: 4 },
            Phase::ExrBox { pos } => Request::ReadAt { pos: *pos, len: 16 },
            Phase::TiffCount { ifd, .. } => Request::ReadAt { pos: *ifd, len: 2 },
            Phase::TiffTag { t } => Request::ReadAt { pos: t.ifd + 2 + 12 * t.index, len: 2 },
            Phase::TiffType { t, .. } => Request::ReadAt { pos: t.ifd + 2 + 12 * t.index + 2, len: 2 },
            Phase::TiffValue { t, ftype, .. } => Request::ReadAt {
                pos: t.ifd + 2 + 12 * t.index + 8,
                len: crate::tiff::field_len(*ftype),
            },
            Phase::TiffFloat { conv, .. } => *conv,
        }
    }
}

/// `st`, taken in phase `ph`, leads to `expected` when the rest is read from `src`.
pub(crate) open spec fn leads(ph: Phase, st: Step, src: Source, expected: ImResult<ImInfo>) -> bool {
    &&& ph.wf()
    &&& (st is Done <==> ph is Finished)
    &&& match st {
        Step::Done(r) => r == expected,
        Step::Need(q) => q == ph.pending() && ph.after(answer(src, q), src) == expected,
    }
}

/// Ask for `len` bytes at `pos` in phase `ph`; a position beyond the seek limit
/// fails right away.
pub(crate) fn ask(ph: Phase, pos: u64, len: usize, fmt: ImFormat) -> (r: (Phase, Step))
    requires
        ph.pending() == (Request::ReadAt { pos, len }),
        pos <= SEEK_LIMIT ==> ph.wf(),
    ensures
        r.0.wf(),
        pos <= SEEK_LIMIT ==> r.0 == ph && r.1 == Step::Need(Request::ReadAt { pos, len }),
        pos > SEEK_LIMIT ==> r.0 is Finished && r.1 == Step::Done(Err(ImError::ParserError(fmt))),
{
    if pos <= SEEK_LIMIT {
        (ph, Step::Need(Request::ReadAt { pos, len }))
    } else {
        (Phase::Finished, Step::Done(Err(ImError::ParserError(fmt))))
    }
}

/// The bytes of a reply to a read of `len` bytes.
fn take_bytes(reply: Reply, len: usize) -> (r: Option<Vec<u8>>)
    ensures
        r matches Some(v) ==> v@.len() == len,
        view_bytes(r) == answer_data(reply_answer(reply, Request::ReadAt { pos: 0, len })),
{
    match reply {
        Reply::Bytes(v) => if v.len() == len {
            Some(v)
        } else {
            None
        },
        _ => None,
    }
}

/// The number in a reply to a conversion.
fn take_number(reply: Reply, req: Request) -> (r: Option<u64>)
    requires
        !(req is ReadAt),
    ensures
        r == answer_number(reply_answer(reply, req)),
{
    match reply {
        Reply::Value(x) => Some(x),
        _ => None,
    }
}

/// A request of `st`, if any, reads nowhere beyond the seek limit.
pub open spec fn within_limit(st: Step) -> bool {
    st matches Step::Need(Request::ReadAt { pos, .. }) ==> pos <= SEEK_LIMIT
}

/// Formats whose size, or whose rejection, the preamble alone decides.
pub open spec fn decided_by_preamble(k: Kind) -> bool {
    match k {
        Kind::Jpeg | Kind::Avif | Kind::Tiff | Kind::Ico | Kind::Exr => false,
        _ => true,
    }
}

/// A source that fails every read (a witness for the statements about all sources).
pub open spec fn empty_source() -> Source {
    Source {
        read: |pos: int, len: nat| None::<Seq<u8>>,
        f32_as_u64: |bits: u32| 0u64,
        f64_as_u64: |bits: u64| 0u64,
    }
}

/// A scanner in the middle of reading an image's size.
pub struct Scanner {
    phase: Phase,
}

/// `st`, returned with scanner `sc`, leads to `expected` when the rest is read from `src`:
/// either it is the final answer, or it is the request `sc` waits on and `sc`
/// will arrive at `expected`.
pub open spec fn progress(sc: Scanner, st: Step, src: Source, expected: ImResult<ImInfo>) -> bool {
    match st {
        Step::Done(r) => r == expected,
        Step::Need(q) => q == sc.pending() && sc.remaining(src) == expected,
    }
}

impl Scanner {
    #[verifier::type_invariant]
    spec fn inv(self) -> bool {
        self.phase.wf()
    }

    /// The scanner has given its answer.
    pub closed spec fn is_finished(self) -> bool {
        self.phase is Finished
    }

    /// The request the scanner waits on.
    pub closed spec fn pending(self) -> Request {
        self.phase.pending()
    }

    /// The size the scanner arrives at once it gets `ans` for its pending request and
    /// reads the rest from `src`.
    pub closed spec fn after(self, ans: Answer, src: Source) -> ImResult<ImInfo> {
        self.phase.after(ans, src)
    }

    /// How far the scanner has come: it grows with every request and never passes
    /// `SEEK_LIMIT + 1`, so every run of the scanner ends.
    pub closed spec fn mark(self) -> int {
        self.phase.mark()
    }

    /// The size the scanner arrives at when it reads everything from `src`.
    pub open spec fn remaining(self, src: Source) -> ImResult<ImInfo> {
        self.after(answer(src, self.pending()), src)
    }

    /// Start on the bytes `head` read first from the file (at most `PREAMBLE_LEN` count).
    pub fn start(head: &[u8]) -> (r: (Scanner, Step))
        ensures
            forall|src: Source| progress(r.0, r.1, src, #[trigger] spec_imsz(head@, src)),
            within_limit(r.1),
            r.1 is Need ==> 0 <= r.0.mark() <= SEEK_LIMIT + 1,
            r.1 is Done <==> r.0.is_finished(),
            decided_by_preamble(kind(preamble(head@), preamble_size(head@))) ==> r.1 is Done,
    {
        let mut p: Vec<u8> = Vec::new();
        let mut i: usize = 0;
        while i < PREAMBLE_LEN
            invariant
                i <= PREAMBLE_LEN,
                p@.len() == i,
                forall|j: int| 0 <= j < i ==> p@[j] == preamble(head@)[j],
            decreases PREAMBLE_LEN - i,
        {
            if i < head.len() {
                p.push(head[i]);
            } else {
                p.push(0);
            }
            i = i + 1;
        }
        assert(p@ =~= preamble(head@));
        let n: usize = if head.len() < PREAMBLE_LEN { head.len() } else { PREAMBLE_LEN };
        let p = p.as_slice();
        let k = crate::preamble::detect(p, n);
        let (phase, st) = match k {
            Kind::Gif => (Phase::Finished, Step::Done(crate::preamble::gif(p, n))),
            Kind::Png => (Phase::Finished, Step::Done(crate::preamble::png(p, n))),
            Kind::Bmp => (Phase::Finished, Step::Done(crate::preamble::bmp(p, n))),
            Kind::Jpeg => crate::jpeg::top(3, p[2]),
            Kind::Webp => (Phase::Finished, Step::Done(crate::preamble::webp(p))),
            Kind::Qoi => (Phase::Finished, Step::Done(crate::preamble::qoi(p))),
            Kind::Psd => (Phase::Finished, Step::Done(crate::preamble::psd(p))),
            Kind::Xcf => (Phase::Finished, Step::Done(crate::preamble::xcf(p))),
            Kind::Ico => crate::ico::entries(read_le16(p, 4) as u64, 0, 0, 0),
            Kind::Avif => crate::avif::top(read_be32(p, 0)),
            Kind::Exr => crate::exr::top(),
            Kind::Tiff => {
                let big = p[0] == 0x4d && p[1] == 0x4d;
                match crate::bytes::get_array::<4>(vstd::slice::slice_subrange(p, 4, 8), ImFormat::TIFF) {
                    Ok(ifd) => {
                        let ifd = read_u32(big, ifd.as_slice(), 0);
                        crate::tiff::top(big, ifd)
                    },
                    Err(e) => (Phase::Finished, Step::Done(Err(e))),
                }
            },
            _ => (Phase::Finished, Step::Done(Err(ImError::UnknownFormat))),
        };
        let sc = Scanner { phase };
        assert forall|src: Source| progress(sc, st, src, #[trigger] spec_imsz(head@, src)) by {
            if k == Kind::Jpeg {
                assert(leads(phase, st, src, jpeg_top(src, 3, p@[2])));
            } else if k == Kind::Tiff {
                let big = tiff_big_endian(p@);
                assert(leads(phase, st, src, tiff_top(src, big, u32_at(big, p@, 4))));
            } else if k == Kind::Exr {
                assert(leads(phase, st, src, exr_name(src, 8, seq![])));
            } else if k == Kind::Avif {
                assert(leads(phase, st, src, avif_top(src, be32(p@, 0))));
            } else if k == Kind::Ico {
                assert(leads(phase, st, src, ico_entries(src, le16(p@, 4), 0, 0, 0)));
            }
        }
        proof {
            assert(progress(sc, st, empty_source(), spec_imsz(head@, empty_source())));
            phase.lemma_pending_within();
        }
        (sc, st)
    }

    /// Go on with the reply to the pending request.
    pub fn resume(&mut self, reply: Reply) -> (st: Step)
        ensures
            forall|src: Source|
                progress(
                    *final(self),
                    st,
                    src,
                    #[trigger] old(self).after(reply_answer(reply, old(self).pending()), src),
                ),
            within_limit(st),
            st is Need ==> old(self).mark() < final(self).mark() <= SEEK_LIMIT + 1,
            st is Done <==> final(self).is_finished(),
            old(self).is_finished() ==> st == Step::Done(Err(ImError::UnknownFormat)),
    {
        proof {
            use_type_invariant(&*self);
        }
        let req = self.phase.request();
        let mut phase = Phase::Finished;
        std::mem::swap(&mut phase, &mut self.phase);
        let (next, st) = match req {
            Request::ReadAt { pos, len } => {
                let got = take_bytes(reply, len);
                match phase {
                    Phase::Finished => (Phase::Finished, Step::Done(Err(ImError::UnknownFormat))),
                    Phase::Ico { .. } => crate::ico::resume(phase, got),
                    Phase::AvifFind { .. } => crate::avif::resume(phase, got),
                    Phase::AvifExtent { .. } => crate::avif::resume(phase, got),
                    Phase::ExrName { .. } => crate::exr::resume(phase, got),
                    Phase::ExrType { .. } => crate::exr::resume(phase, got),
                    Phase::ExrSize { .. } => crate::exr::resume(phase, got),
                    Phase::ExrBox { .. } => crate::exr::resume(phase, got),
                    Phase::TiffFloat { .. } => (Phase::Finished, Step::Done(Err(ImError::UnknownFormat))),
                    Phase::TiffCount { .. } => crate::tiff::resume(phase, got),
                    Phase::TiffTag { .. } => crate::tiff::resume(phase, got),
                    Phase::TiffType { .. } => crate::tiff::resume(phase, got),
                    Phase::TiffValue { .. } => crate::tiff::resume(phase, got),
                    _ => crate::jpeg::resume(phase, got),
                }
            },
            _ => {
                let got = take_number(reply, req);
                match phase {
                    Phase::TiffFloat { .. } => crate::tiff::resume_float(phase, got),
                    _ => (Phase::Finished, Step::Done(Err(ImError::UnknownFormat))),
                }
            },
        };
        self.phase = next;
        assert forall|src: Source|
            progress(*self, st, src, #[trigger] old(self).after(reply_answer(reply, old(self).pending()), src)) by {
            assert(leads(next, st, src, phase.after(reply_answer(reply, req), src)));
        }
        proof {
            let src = empty_source();
            assert(leads(next, st, src, phase.after(reply_answer(reply, req), src)));
            next.lemma_pending_within();
        }
        st
    }
}

} // verus!
