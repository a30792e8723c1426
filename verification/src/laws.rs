//! Properties of the size model and of the scanner that hold across formats and calls.
use vstd::prelude::*;

use crate::avif::{avif_extent, avif_extent_then, avif_find, avif_find_then, avif_found, box_type, AvifBox};
use crate::bytes::{be16, be32, le32, u16_at, u32_at, u64_at};
use crate::exr::{exr_box, exr_box_then, exr_name, exr_name_then, exr_size, exr_size_then, exr_type, exr_type_then};
use crate::format::{format_code, ImError, ImFormat, ImInfo, ImResult};
use crate::ico::{ico_entries, ico_entry_then};
use crate::jpeg::{jpeg_fill, jpeg_hunt, jpeg_marker, jpeg_next, jpeg_seglen, jpeg_top};
use crate::preamble::{kind, preamble, preamble_size, Kind, PREAMBLE_LEN};
use crate::protocol::{answered, fetch, reply_answer, Reply, Source, SEEK_LIMIT};
use crate::scanner::{decided_by_preamble, room, spec_imsz, Scanner};
use crate::tiff::{
    tiff_advance, tiff_entries, tiff_store, tiff_store_then, tiff_tag_then, tiff_type, tiff_type_then,
    tiff_number, tiff_value, tiff_value_then, value_len, TiffWalk,
};

verus! {

/// The format a preamble kind stands for (`None` for an unknown preamble).
pub open spec fn kind_format(k: Kind) -> Option<ImFormat> {
    match k {
        Kind::Gif => Some(ImFormat::GIF),
        Kind::Png => Some(ImFormat::PNG),
        Kind::Bmp => Some(ImFormat::BMP),
        Kind::Jpeg => Some(ImFormat::JPEG),
        Kind::Webp => Some(ImFormat::WEBP),
        Kind::Avif => Some(ImFormat::AVIF),
        Kind::Tiff => Some(ImFormat::TIFF),
        Kind::Qoi => Some(ImFormat::QOI),
        Kind::Psd => Some(ImFormat::PSD),
        Kind::Xcf => Some(ImFormat::XCF),
        Kind::Ico => Some(ImFormat::ICO),
        Kind::Exr => Some(ImFormat::OpenEXR),
        Kind::Unknown => None,
    }
}

/// `r` is a size of format `f` or a parse error of format `f`.
pub open spec fn reports(r: ImResult<ImInfo>, f: ImFormat) -> bool {
    match r {
        Ok(i) => i.format == f,
        Err(ImError::ParserError(g)) => g == f,
        Err(_) => false,
    }
}

proof fn lemma_jpeg(src: Source, pos: int)
    ensures
        forall|b: u8| reports(#[trigger] jpeg_top(src, pos, b), ImFormat::JPEG),
        forall|m: u8| reports(#[trigger] jpeg_marker(src, pos, m), ImFormat::JPEG),
        reports(jpeg_hunt(src, pos), ImFormat::JPEG),
        reports(jpeg_fill(src, pos), ImFormat::JPEG),
        reports(jpeg_seglen(src, pos), ImFormat::JPEG),
        reports(jpeg_next(src, pos), ImFormat::JPEG),
    decreases room(pos),
{
    if 0 <= pos <= SEEK_LIMIT {
        lemma_jpeg(src, pos + 1);
        if let Some(s) = fetch(src, pos, 2) {
            let len = be16(s, 0);
            if len >= 2 && pos + len <= SEEK_LIMIT {
                lemma_jpeg(src, pos + len);
            }
        }
    }
    assert forall|b: u8| reports(#[trigger] jpeg_top(src, pos, b), ImFormat::JPEG) by {}
    assert forall|m: u8| reports(#[trigger] jpeg_marker(src, pos, m), ImFormat::JPEG) by {}
}

proof fn lemma_avif(src: Source, pos: int)
    ensures
        forall|b: AvifBox, limit: int, offset: int|
            reports(#[trigger] avif_find(src, b, pos, limit, offset), ImFormat::AVIF),
        forall|b: AvifBox, size: int| reports(#[trigger] avif_found(src, b, pos, size), ImFormat::AVIF),
    decreases room(pos),
{
    if 0 <= pos <= SEEK_LIMIT {
        lemma_avif(src, pos + 8);
        if let Some(s) = fetch(src, pos, 8) {
            let size = be32(s, 0);
            if size >= 8 && pos + size <= SEEK_LIMIT {
                lemma_avif(src, pos + size);
            }
        }
    }
    assert forall|b: AvifBox, limit: int, offset: int|
        reports(#[trigger] avif_find(src, b, pos, limit, offset), ImFormat::AVIF) by {
        if offset <= limit {
            let g = fetch(src, pos, 8);
            assert(avif_find(src, b, pos, limit, offset) == avif_find_then(src, b, pos, limit, offset, g));
            if let Some(s) = g {
                let size = be32(s, 0);
                if size >= 8 && pos <= SEEK_LIMIT {
                    if s.subrange(4, 8) == box_type(b) {
                        assert(reports(avif_found(src, b, pos + 8, size), ImFormat::AVIF));
                    } else if pos + size <= SEEK_LIMIT {
                        assert(reports(avif_find(src, b, pos + size, limit, offset + size), ImFormat::AVIF));
                    }
                }
            }
        }
    }
    if pos + 4 <= SEEK_LIMIT {
        lemma_avif(src, pos + 4);
    }
    assert forall|b: AvifBox, size: int| reports(#[trigger] avif_found(src, b, pos, size), ImFormat::AVIF) by {
        match b {
            AvifBox::Meta => {
                if size >= 12 && pos + 4 <= SEEK_LIMIT {
                    assert(reports(avif_find(src, AvifBox::Iprp, pos + 4, size - 12, 0), ImFormat::AVIF));
                }
            },
            AvifBox::Iprp => {
                assert(reports(avif_find(src, AvifBox::Ipco, pos, size - 8, 0), ImFormat::AVIF));
            },
            AvifBox::Ipco => {
                assert(reports(avif_find(src, AvifBox::Ispe, pos, size - 8, 0), ImFormat::AVIF));
            },
            AvifBox::Ispe => {
                assert(avif_extent(src, pos) == avif_extent_then(fetch(src, pos, 12)));
            },
        }
    }
}

proof fn lemma_tiff(src: Source, t: TiffWalk)
    ensures
        forall|w: Option<u64>, h: Option<u64>|
            reports(#[trigger] tiff_entries(src, TiffWalk { width: w, height: h, ..t }), ImFormat::TIFF),
    decreases t.count - t.index,
{
    if t.index < t.count {
        let next = TiffWalk { index: (t.index + 1) as u64, ..t };
        lemma_tiff(src, next);
        assert forall|w: Option<u64>, h: Option<u64>|
            reports(#[trigger] tiff_entries(src, TiffWalk { width: w, height: h, ..t }), ImFormat::TIFF) by {
            let u = TiffWalk { width: w, height: h, ..t };
            assert forall|w2: Option<u64>, h2: Option<u64>|
                reports(#[trigger] tiff_entries(src, tiff_advance(u, w2, h2)), ImFormat::TIFF) by {
                assert(tiff_advance(u, w2, h2) == TiffWalk { width: w2, height: h2, ..next });
            }
            assert forall|tag: u16, v: u64| reports(#[trigger] tiff_store(src, u, tag, v), ImFormat::TIFF) by {
                assert(reports(tiff_entries(src, tiff_advance(u, Some(v), u.height)), ImFormat::TIFF));
                assert(reports(tiff_entries(src, tiff_advance(u, u.width, Some(v))), ImFormat::TIFF));
            }
            assert forall|tag: u16, x: Option<u64>|
                reports(#[trigger] tiff_store_then(src, u, tag, x), ImFormat::TIFF) by {
                if let Some(v) = x {
                    assert(reports(tiff_store(src, u, tag, v), ImFormat::TIFF));
                }
            }
            if u.entry_pos() <= u32::MAX {
                let g = fetch(src, u.entry_pos(), 2);
                assert(tiff_entries(src, u) == tiff_tag_then(src, u, g));
                if let Some(s) = g {
                    let tag = u16_at(u.big, s, 0);
                    if tag == 256 || tag == 257 {
                        let tg = tag as u16;
                        let g2 = fetch(src, u.entry_pos() + 2, 2);
                        assert(tiff_type(src, u, tg) == tiff_type_then(src, u, tg, g2));
                        if let Some(s2) = g2 {
                            let ft = u16_at(u.big, s2, 0) as u16;
                            if value_len(ft as int) > 0 {
                                let g3 = fetch(src, u.entry_pos() + 8, value_len(ft as int));
                                assert(tiff_value(src, u, tg, ft) == tiff_value_then(src, u, tg, ft, g3));
                                if let Some(s3) = g3 {
                                    if ft == 11 {
                                        assert(reports(tiff_store_then(src, u, tg, Some((src.f32_as_u64)(u32_at(u.big, s3, 0) as u32))), ImFormat::TIFF));
                                    } else if ft == 12 {
                                        assert(reports(tiff_store_then(src, u, tg, Some((src.f64_as_u64)(u64_at(u.big, s3, 0) as u64))), ImFormat::TIFF));
                                    } else if let Some(v) = tiff_number(u.big, ft as int, s3) {
                                        assert(reports(tiff_store(src, u, tg, v as u64), ImFormat::TIFF));
                                    }
                                }
                                assert(reports(tiff_value(src, u, tg, ft), ImFormat::TIFF));
                            }
                            assert(reports(tiff_value(src, u, tg, ft), ImFormat::TIFF));
                        }
                        assert(reports(tiff_type(src, u, tg), ImFormat::TIFF));
                    } else {
                        assert(reports(tiff_entries(src, tiff_advance(u, u.width, u.height)), ImFormat::TIFF));
                    }
                }
            }
        }
    }
}

proof fn lemma_ico(src: Source, count: int, i: int)
    ensures
        forall|w: int, h: int| reports(#[trigger] ico_entries(src, count, i, w, h), ImFormat::ICO),
    decreases count - i,
{
    if i < count {
        lemma_ico(src, count, i + 1);
    }
    assert forall|w: int, h: int| reports(#[trigger] ico_entries(src, count, i, w, h), ImFormat::ICO) by {
        if i < count {
            let g = fetch(src, 6 + 16 * i, 16);
            assert(ico_entries(src, count, i, w, h) == ico_entry_then(src, count, i, w, h, g));
            if let Some(s) = g {
                assert(reports(ico_entries(src, count, i + 1, s[0] as int, s[1] as int), ImFormat::ICO));
                assert(reports(ico_entries(src, count, i + 1, w, h), ImFormat::ICO));
            }
        }
    }
}

proof fn lemma_exr(src: Source, pos: int)
    ensures
        forall|name: Seq<u8>| reports(#[trigger] exr_name(src, pos, name), ImFormat::OpenEXR),
        forall|name: Seq<u8>, ty: Seq<u8>|
            reports(#[trigger] exr_type(src, pos, name, ty), ImFormat::OpenEXR),
        forall|name: Seq<u8>, ty: Seq<u8>|
            reports(#[trigger] exr_size(src, pos, name, ty), ImFormat::OpenEXR),
    decreases room(pos),
{
    if 0 <= pos <= SEEK_LIMIT {
        lemma_exr(src, pos + 1);
        if let Some(s) = fetch(src, pos, 4) {
            let size = le32(s, 0);
            if pos + 4 + size <= SEEK_LIMIT {
                lemma_exr(src, pos + 4 + size);
            }
        }
    }
    assert forall|name: Seq<u8>| reports(#[trigger] exr_name(src, pos, name), ImFormat::OpenEXR) by {
        let g = fetch(src, pos, 1);
        assert(exr_name(src, pos, name) == exr_name_then(src, pos, name, g));
        if let Some(s) = g {
            if pos <= SEEK_LIMIT {
                assert(reports(exr_name(src, pos + 1, name.push(s[0])), ImFormat::OpenEXR));
                assert(reports(exr_type(src, pos + 1, name, seq![]), ImFormat::OpenEXR));
            }
        }
    }
    assert forall|name: Seq<u8>, ty: Seq<u8>|
        reports(#[trigger] exr_type(src, pos, name, ty), ImFormat::OpenEXR) by {
        let g = fetch(src, pos, 1);
        assert(exr_type(src, pos, name, ty) == exr_type_then(src, pos, name, ty, g));
        if let Some(s) = g {
            if pos <= SEEK_LIMIT {
                assert(reports(exr_type(src, pos + 1, name, ty.push(s[0])), ImFormat::OpenEXR));
                assert(reports(exr_size(src, pos + 1, name, ty), ImFormat::OpenEXR));
            }
        }
    }
    assert forall|name: Seq<u8>, ty: Seq<u8>|
        reports(#[trigger] exr_size(src, pos, name, ty), ImFormat::OpenEXR) by {
        let g = fetch(src, pos, 4);
        assert(exr_size(src, pos, name, ty) == exr_size_then(src, pos, name, ty, g));
        if let Some(s) = g {
            let size = le32(s, 0);
            assert(exr_box(src, pos + 4) == exr_box_then(pos + 4, fetch(src, pos + 4, 16)));
            if pos + 4 + size <= SEEK_LIMIT {
                assert(reports(exr_name(src, pos + 4 + size, seq![]), ImFormat::OpenEXR));
            }
        }
    }
}

/// The size, or the parse error, names the format that the file's signature
/// announces; a file without a known signature is reported as an unknown format.
pub proof fn outcome_names_announced_format(head: Seq<u8>, src: Source)
    ensures
        match kind_format(kind(preamble(head), preamble_size(head))) {
            Some(f) => reports(spec_imsz(head, src), f),
            None => spec_imsz(head, src) is Err && spec_imsz(head, src)->Err_0 is UnknownFormat,
        },
{
    let p = preamble(head);
    let n = preamble_size(head);
    match kind(p, n) {
        Kind::Jpeg => lemma_jpeg(src, 3),
        Kind::Avif => {
            lemma_avif(src, be32(p, 0));
        },
        Kind::Tiff => {
            let big = crate::tiff::tiff_big_endian(p);
            let ifd = crate::bytes::u32_at(big, p, 4);
            if let Some(s) = fetch(src, ifd, 2) {
                let t = TiffWalk {
                    big,
                    ifd: ifd as u64,
                    count: crate::bytes::u16_at(big, s, 0) as u64,
                    index: 0,
                    width: None,
                    height: None,
                };
                lemma_tiff(src, t);
                assert(reports(tiff_entries(src, TiffWalk { width: None, height: None, ..t }), ImFormat::TIFF));
            }
        },
        Kind::Ico => lemma_ico(src, crate::bytes::le16(p, 4), 0),
        Kind::Exr => lemma_exr(src, 8),
        _ => {},
    }
}

/// For the formats whose size sits in the preamble, the size does not depend on
/// anything read later.
pub proof fn preamble_alone_decides(head: Seq<u8>, src1: Source, src2: Source)
    requires
        decided_by_preamble(kind(preamble(head), preamble_size(head))),
    ensures
        spec_imsz(head, src1) == spec_imsz(head, src2),
{
}

/// Only the first `PREAMBLE_LEN` bytes handed to the scanner count.
pub proof fn only_preamble_bytes_count(head: Seq<u8>, src: Source)
    requires
        head.len() >= PREAMBLE_LEN,
    ensures
        spec_imsz(head, src) == spec_imsz(head.subrange(0, PREAMBLE_LEN as int), src),
{
    assert(preamble(head) =~= preamble(head.subrange(0, PREAMBLE_LEN as int)));
}

/// A scanner that gets for its pending request what the source gives arrives at
/// the same size as it would reading everything from that source: with the
/// contracts of `Scanner::start` and `Scanner::resume`, a scanner that is fed what
/// `src` holds ends with `spec_imsz(head, src)`.
pub proof fn faithful_reply_keeps_outcome(sc: Scanner, src: Source, reply: Reply)
    requires
        answered(src, sc.pending(), reply),
    ensures
        sc.after(reply_answer(reply, sc.pending()), src) == sc.remaining(src),
{
}

/// Different formats have different codes.
pub proof fn format_codes_distinct(a: ImFormat, b: ImFormat)
    ensures
        format_code(a) == format_code(b) ==> a == b,
{
}

} // verus!
