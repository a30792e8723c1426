//! The first bytes of a file: which format they announce, and the sizes of the
//! formats that keep them right there.
use vstd::prelude::*;

use crate::bytes::{be32, le16, le32, read_be32, read_le16, read_le32, signed32, wrap64};
use crate::format::{ImError, ImFormat, ImInfo, ImResult};

verus! {

/// Number of bytes the scanner reads first.
pub const PREAMBLE_LEN: usize = 30;

/// How many of the handed-over bytes count (at most `PREAMBLE_LEN`).
pub open spec fn preamble_size(head: Seq<u8>) -> int {
    if head.len() < PREAMBLE_LEN { head.len() as int } else { PREAMBLE_LEN as int }
}

/// The preamble buffer: the handed-over bytes, cut or padded with zeros to `PREAMBLE_LEN`.
pub open spec fn preamble(head: Seq<u8>) -> Seq<u8> {
    Seq::new(PREAMBLE_LEN as nat, |i: int| if i < head.len() { head[i] } else { 0u8 })
}

/// `p` holds `m` at offset `at`.
pub open spec fn has(p: Seq<u8>, at: int, m: Seq<u8>) -> bool {
    at + m.len() <= p.len() && p.subrange(at, at + m.len()) == m
}

/// "GIF87a"
pub open spec fn sig_gif87a() -> Seq<u8> { seq![0x47, 0x49, 0x46, 0x38, 0x37, 0x61] }
/// "GIF89a"
pub open spec fn sig_gif89a() -> Seq<u8> { seq![0x47, 0x49, 0x46, 0x38, 0x39, 0x61] }
/// "\x89PNG\r\n\x1a\n"
pub open spec fn sig_png() -> Seq<u8> { seq![0x89, 0x50, 0x4e, 0x47, 0x0d, 0x0a, 0x1a, 0x0a] }
/// "IHDR"
pub open spec fn sig_ihdr() -> Seq<u8> { seq![0x49, 0x48, 0x44, 0x52] }
/// "BM"
pub open spec fn sig_bm() -> Seq<u8> { seq![0x42, 0x4d] }
/// Four zero bytes.
pub open spec fn sig_zero4() -> Seq<u8> { seq![0, 0, 0, 0] }
/// "\xff\xd8"
pub open spec fn sig_jpeg() -> Seq<u8> { seq![0xff, 0xd8] }
/// "RIFF"
pub open spec fn sig_riff() -> Seq<u8> { seq![0x52, 0x49, 0x46, 0x46] }
/// "WEBP"
pub open spec fn sig_webp() -> Seq<u8> { seq![0x57, 0x45, 0x42, 0x50] }
/// "VP8L"
pub open spec fn sig_vp8l() -> Seq<u8> { seq![0x56, 0x50, 0x38, 0x4c] }
/// "VP8 "
pub open spec fn sig_vp8() -> Seq<u8> { seq![0x56, 0x50, 0x38, 0x20] }
/// "VP8X"
pub open spec fn sig_vp8x() -> Seq<u8> { seq![0x56, 0x50, 0x38, 0x58] }
/// "ftypavif"
pub open spec fn sig_ftypavif() -> Seq<u8> { seq![0x66, 0x74, 0x79, 0x70, 0x61, 0x76, 0x69, 0x66] }
/// "II*\0"
pub open spec fn sig_tiff_le() -> Seq<u8> { seq![0x49, 0x49, 0x2a, 0x00] }
/// "MM\0*"
pub open spec fn sig_tiff_be() -> Seq<u8> { seq![0x4d, 0x4d, 0x00, 0x2a] }
/// "qoif"
pub open spec fn sig_qoi() -> Seq<u8> { seq![0x71, 0x6f, 0x69, 0x66] }
/// "8BPS\0\x01\0\0\0\0\0\0"
pub open spec fn sig_psd() -> Seq<u8> { seq![0x38, 0x42, 0x50, 0x53, 0, 1, 0, 0, 0, 0, 0, 0] }
/// "gimp xcf "
pub open spec fn sig_xcf() -> Seq<u8> { seq![0x67, 0x69, 0x6d, 0x70, 0x20, 0x78, 0x63, 0x66, 0x20] }
/// "\0\0\x01\0"
pub open spec fn sig_ico() -> Seq<u8> { seq![0, 0, 1, 0] }
/// "\x76\x2f\x31\x01"
pub open spec fn sig_exr() -> Seq<u8> { seq![0x76, 0x2f, 0x31, 0x01] }

/// The format a preamble announces, tried in a fixed order.
#[derive(Debug, Clone, Copy, PartialEq, Eq, Structural)]
pub enum Kind {
    Gif,
    Png,
    Bmp,
    Jpeg,
    Webp,
    Avif,
    Tiff,
    Qoi,
    Psd,
    Xcf,
    Ico,
    Exr,
    Unknown,
}

/// Which format the preamble `p`, of which `n` bytes were read, announces.
pub open spec fn kind(p: Seq<u8>, n: int) -> Kind {
    if n >= 6 && (has(p, 0, sig_gif87a()) || has(p, 0, sig_gif89a())) {
        Kind::Gif
    } else if n >= 16 && has(p, 0, sig_png()) {
        Kind::Png
    } else if n >= 10 && has(p, 0, sig_bm()) && has(p, 6, sig_zero4()) {
        Kind::Bmp
    } else if n >= 3 && has(p, 0, sig_jpeg()) {
        Kind::Jpeg
    } else if n >= 30 && has(p, 0, sig_riff()) && has(p, 8, sig_webp()) {
        Kind::Webp
    } else if n >= 12 && has(p, 4, sig_ftypavif()) {
        Kind::Avif
    } else if n >= 8 && (has(p, 0, sig_tiff_le()) || has(p, 0, sig_tiff_be())) {
        Kind::Tiff
    } else if n >= 14 && has(p, 0, sig_qoi()) {
        Kind::Qoi
    } else if n >= 22 && has(p, 0, sig_psd()) {
        Kind::Psd
    } else if n >= 22 && has(p, 0, sig_xcf()) && p[13] == 0 {
        Kind::Xcf
    } else if n >= 6 && has(p, 0, sig_ico()) {
        Kind::Ico
    } else if n > 8 && has(p, 0, sig_exr()) && (p[4] == 1 || p[4] == 2) {
        Kind::Exr
    } else {
        Kind::Unknown
    }
}

/// Size record of `format`.
pub open spec fn info(format: ImFormat, width: int, height: int) -> ImResult<ImInfo> {
    Ok(ImInfo { width: width as u64, height: height as u64, format })
}

/// The parse error of `format`.
pub open spec fn malformed(format: ImFormat) -> ImResult<ImInfo> {
    Err(ImError::ParserError(format))
}

/// GIF: logical screen width and height, little endian, after the signature.
pub open spec fn gif_size(p: Seq<u8>, n: int) -> ImResult<ImInfo> {
    if n < 10 {
        malformed(ImFormat::GIF)
    } else {
        info(ImFormat::GIF, le16(p, 6), le16(p, 8))
    }
}

/// PNG: the IHDR chunk's width and height, big endian; without an IHDR tag at 12
/// the two words right after the signature.
pub open spec fn png_size(p: Seq<u8>, n: int) -> ImResult<ImInfo> {
    if has(p, 12, sig_ihdr()) {
        if n < 24 {
            malformed(ImFormat::PNG)
        } else {
            info(ImFormat::PNG, be32(p, 16), be32(p, 20))
        }
    } else {
        info(ImFormat::PNG, be32(p, 8), be32(p, 12))
    }
}

/// BMP: a 12-byte core header holds 16-bit sizes; any other header holds signed
/// 32-bit ones, the height negative for top-down images.
pub open spec fn bmp_size(p: Seq<u8>, n: int) -> ImResult<ImInfo> {
    if n < 22 {
        malformed(ImFormat::BMP)
    } else if le32(p, 14) == 12 {
        info(ImFormat::BMP, le16(p, 18), le16(p, 20))
    } else if n < 24 {
        malformed(ImFormat::BMP)
    } else {
        let w = signed32(le32(p, 18));
        let h = signed32(le32(p, 22));
        info(ImFormat::BMP, wrap64(w), if h < 0 { -h } else { h })
    }
}

/// WEBP: lossless (VP8L) packs 14-bit sizes minus one; lossy (VP8) keeps 16-bit
/// sizes behind a start code; extended (VP8X) keeps 24-bit sizes minus one.
pub open spec fn webp_size(p: Seq<u8>) -> ImResult<ImInfo> {
    if has(p, 12, sig_vp8l()) {
        info(
            ImFormat::WEBP,
            1 + (p[22] % 64) * 256 + p[21],
            1 + (p[24] % 16) * 1024 + p[23] * 4 + p[22] / 64,
        )
    } else if has(p, 12, sig_vp8()) {
        if p[23] != 0x9d || p[24] != 0x01 || p[25] != 0x2a {
            malformed(ImFormat::WEBP)
        } else {
            info(ImFormat::WEBP, le16(p, 26), le16(p, 28))
        }
    } else if has(p, 12, sig_vp8x()) {
        info(
            ImFormat::WEBP,
            p[24] + p[25] * 256 + p[26] * 65536 + 1,
            p[27] + p[28] * 256 + p[29] * 65536 + 1,
        )
    } else {
        malformed(ImFormat::WEBP)
    }
}

/// QOI: width and height, big endian, after the magic.
pub open spec fn qoi_size(p: Seq<u8>) -> ImResult<ImInfo> {
    info(ImFormat::QOI, be32(p, 4), be32(p, 8))
}

/// PSD: height then width, big endian, after the fixed header start.
pub open spec fn psd_size(p: Seq<u8>) -> ImResult<ImInfo> {
    info(ImFormat::PSD, be32(p, 18), be32(p, 14))
}

/// XCF: width and height, big endian, after the version tag.
pub open spec fn xcf_size(p: Seq<u8>) -> ImResult<ImInfo> {
    info(ImFormat::XCF, be32(p, 14), be32(p, 18))
}

/// `p[at..]` starts with `m`.
fn has_at(p: &[u8], at: usize, m: &[u8]) -> (r: bool)
    requires
        p@.len() == PREAMBLE_LEN,
        at + m@.len() <= PREAMBLE_LEN,
    ensures
        r == has(p@, at as int, m@),
{
    let mut i: usize = 0;
    while i < m.len()
        invariant
            p@.len() == PREAMBLE_LEN,
            at + m@.len() <= PREAMBLE_LEN,
            i <= m@.len(),
            forall|j: int| 0 <= j < i ==> p@[at + j] == m@[j],
        decreases m@.len() - i,
    {
        if p[at + i] != m[i] {
            assert(p@.subrange(at as int, at + m@.len())[i as int] != m@[i as int]);
            return false;
        }
        i = i + 1;
    }
    assert(p@.subrange(at as int, at + m@.len()) =~= m@);
    true
}

/// Which format the preamble announces.
pub fn detect(p: &[u8], n: usize) -> (k: Kind)
    requires
        p@.len() == PREAMBLE_LEN,
    ensures
        k == kind(p@, n as int),
{
    if n >= 6 && (has_at(p, 0, [0x47u8, 0x49, 0x46, 0x38, 0x37, 0x61].as_slice())
        || has_at(p, 0, [0x47u8, 0x49, 0x46, 0x38, 0x39, 0x61].as_slice())) {
        Kind::Gif
    } else if n >= 16 && has_at(p, 0, [0x89u8, 0x50, 0x4e, 0x47, 0x0d, 0x0a, 0x1a, 0x0a].as_slice()) {
        Kind::Png
    } else if n >= 10 && has_at(p, 0, [0x42u8, 0x4d].as_slice()) && has_at(
        p,
        6,
        [0u8, 0, 0, 0].as_slice(),
    ) {
        Kind::Bmp
    } else if n >= 3 && has_at(p, 0, [0xffu8, 0xd8].as_slice()) {
        Kind::Jpeg
    } else if n >= 30 && has_at(p, 0, [0x52u8, 0x49, 0x46, 0x46].as_slice()) && has_at(
        p,
        8,
        [0x57u8, 0x45, 0x42, 0x50].as_slice(),
    ) {
        Kind::Webp
    } else if n >= 12 && has_at(p, 4, [0x66u8, 0x74, 0x79, 0x70, 0x61, 0x76, 0x69, 0x66].as_slice()) {
        Kind::Avif
    } else if n >= 8 && (has_at(p, 0, [0x49u8, 0x49, 0x2a, 0x00].as_slice()) || has_at(
        p,
        0,
        [0x4du8, 0x4d, 0x00, 0x2a].as_slice(),
    )) {
        Kind::Tiff
    } else if n >= 14 && has_at(p, 0, [0x71u8, 0x6f, 0x69, 0x66].as_slice()) {
        Kind::Qoi
    } else if n >= 22 && has_at(p, 0, [0x38u8, 0x42, 0x50, 0x53, 0, 1, 0, 0, 0, 0, 0, 0].as_slice()) {
        Kind::Psd
    } else if n >= 22 && has_at(p, 0, [0x67u8, 0x69, 0x6d, 0x70, 0x20, 0x78, 0x63, 0x66, 0x20].as_slice())
        && p[13] == 0 {
        Kind::Xcf
    } else if n >= 6 && has_at(p, 0, [0u8, 0, 1, 0].as_slice()) {
        Kind::Ico
    } else if n > 8 && has_at(p, 0, [0x76u8, 0x2f, 0x31, 0x01].as_slice()) && (p[4] == 1 || p[4]
        == 2) {
        Kind::Exr
    } else {
        Kind::Unknown
    }
}

pub fn gif(p: &[u8], n: usize) -> (r: ImResult<ImInfo>)
    requires
        p@.len() == PREAMBLE_LEN,
    ensures
        r == gif_size(p@, n as int),
{
    if n < 10 {
        return Err(ImError::ParserError(ImFormat::GIF));
    }
    let w = read_le16(p, 6);
    let h = read_le16(p, 8);
    Ok(ImInfo { format: ImFormat::GIF, width: w as u64, height: h as u64 })
}

pub fn png(p: &[u8], n: usize) -> (r: ImResult<ImInfo>)
    requires
        p@.len() == PREAMBLE_LEN,
    ensures
        r == png_size(p@, n as int),
{
    let w;
    let h;
    if has_at(p, 12, [0x49u8, 0x48, 0x44, 0x52].as_slice()) {
        if n < 24 {
            return Err(ImError::ParserError(ImFormat::PNG));
        }
        w = read_be32(p, 16);
        h = read_be32(p, 20);
    } else {
        w = read_be32(p, 8);
        h = read_be32(p, 12);
    }
    Ok(ImInfo { format: ImFormat::PNG, width: w as u64, height: h as u64 })
}

pub fn bmp(p: &[u8], n: usize) -> (r: ImResult<ImInfo>)
    requires
        p@.len() == PREAMBLE_LEN,
    ensures
        r == bmp_size(p@, n as int),
{
    if n < 22 {
        return Err(ImError::ParserError(ImFormat::BMP));
    }
    let header_size = read_le32(p, 14);
    if header_size == 12 {
        let w = read_le16(p, 18);
        let h = read_le16(p, 20);
        Ok(ImInfo { format: ImFormat::BMP, width: w as u64, height: h as u64 })
    } else {
        if n < 24 {
            return Err(ImError::ParserError(ImFormat::BMP));
        }
        let w = read_le32(p, 18);
        let h = read_le32(p, 22);
        // the width's two's-complement bits widened to 64 bits
        let width: u64 = if w < 0x8000_0000 { w as u64 } else { 0xffff_ffff_0000_0000u64 + w as u64 };
        // the height is negative when the rows are stored top-down
        let height: u64 = if h < 0x8000_0000 { h as u64 } else { 0x1_0000_0000u64 - h as u64 };
        Ok(ImInfo { format: ImFormat::BMP, width, height })
    }
}

pub fn webp(p: &[u8]) -> (r: ImResult<ImInfo>)
    requires
        p@.len() == PREAMBLE_LEN,
    ensures
        r == webp_size(p@),
{
    if has_at(p, 12, [0x56u8, 0x50, 0x38, 0x4c].as_slice()) {
        let b0 = p[21] as u64;
        let b1 = p[22] as u64;
        let b2 = p[23] as u64;
        let b3 = p[24] as u64;
        let w = 1 + (b1 % 64) * 256 + b0;
        let h = 1 + (b3 % 16) * 1024 + b2 * 4 + b1 / 64;
        Ok(ImInfo { format: ImFormat::WEBP, width: w, height: h })
    } else if has_at(p, 12, [0x56u8, 0x50, 0x38, 0x20].as_slice()) {
        if p[23] != 0x9d || p[24] != 0x01 || p[25] != 0x2a {
            return Err(ImError::ParserError(ImFormat::WEBP));
        }
        let w = read_le16(p, 26);
        let h = read_le16(p, 28);
        Ok(ImInfo { format: ImFormat::WEBP, width: w as u64, height: h as u64 })
    } else if has_at(p, 12, [0x56u8, 0x50, 0x38, 0x58].as_slice()) {
        let w = p[24] as u64 + p[25] as u64 * 256 + p[26] as u64 * 65536 + 1;
        let h = p[27] as u64 + p[28] as u64 * 256 + p[29] as u64 * 65536 + 1;
        Ok(ImInfo { format: ImFormat::WEBP, width: w, height: h })
    } else {
        Err(ImError::ParserError(ImFormat::WEBP))
    }
}

pub fn qoi(p: &[u8]) -> (r: ImResult<ImInfo>)
    requires
        p@.len() == PREAMBLE_LEN,
    ensures
        r == qoi_size(p@),
{
    let w = read_be32(p, 4);
    let h = read_be32(p, 8);
    Ok(ImInfo { format: ImFormat::QOI, width: w as u64, height: h as u64 })
}

pub fn psd(p: &[u8]) -> (r: ImResult<ImInfo>)
    requires
        p@.len() == PREAMBLE_LEN,
    ensures
        r == psd_size(p@),
{
    let h = read_be32(p, 14);
    let w = read_be32(p, 18);
    Ok(ImInfo { format: ImFormat::PSD, width: w as u64, height: h as u64 })
}

pub fn xcf(p: &[u8]) -> (r: ImResult<ImInfo>)
    requires
        p@.len() == PREAMBLE_LEN,
    ensures
        r == xcf_size(p@),
{
    let w = read_be32(p, 14);
    let h = read_be32(p, 18);
    Ok(ImInfo { format: ImFormat::XCF, width: w as u64, height: h as u64 })
}

} // verus!
