//! Where each format keeps the image size, stated byte by byte over the file.
use vstd::prelude::*;

use vstd::arithmetic::div_mod::lemma_fundamental_div_mod_converse;

use crate::bytes::{le32, signed32, u16_at, u32_at, wrap64};
use crate::format::{ImError, ImFormat, ImInfo, ImResult};
use crate::preamble::{
    has, preamble, sig_bm, sig_exr, sig_ftypavif, sig_riff, sig_tiff_be, sig_tiff_le, sig_vp8, sig_vp8l, sig_vp8x, sig_webp, sig_zero4, sig_gif87a, sig_gif89a, sig_ico, sig_jpeg, sig_ihdr, sig_png, sig_psd, sig_qoi, sig_xcf,
};
use crate::avif::{avif_find, avif_find_then, avif_found, avif_top, box_type, AvifBox};
use crate::exr::{
    attr_display_window, exr_box, exr_name, exr_name_then, exr_size, exr_size_then, exr_type, exr_type_then, type_box2i,
};
use crate::ico::{ico_entries, ico_entry_then};
use crate::jpeg::{jpeg_fill, jpeg_hunt, jpeg_marker, jpeg_next, jpeg_seglen, jpeg_sof, jpeg_top};
use crate::tiff::{
    tiff_advance, tiff_big_endian, tiff_entries, tiff_number, tiff_store, tiff_tag_then, tiff_top, tiff_type,
    tiff_value, trunc_div, value_len, TiffWalk,
};
use crate::preamble::info;
use crate::protocol::{fetch, file_source, Source, SEEK_LIMIT};
use crate::scanner::spec_imsz;

verus! {

/// Within the bytes read first, the preamble holds what the file holds.
proof fn lemma_preamble_bytes(bytes: Seq<u8>, at: int, m: Seq<u8>)
    requires
        0 <= at,
        at + m.len() <= 30,
        at + m.len() <= bytes.len(),
    ensures
        has(preamble(bytes), at, m) == has(bytes, at, m),
{
    assert(preamble(bytes).subrange(at, at + m.len()) =~= bytes.subrange(at, at + m.len()));
}

/// A GIF file of at least 10 bytes has the logical screen width, little endian,
/// in bytes 6 and 7 and the height in bytes 8 and 9; a shorter one is malformed.
pub proof fn gif_size_law(bytes: Seq<u8>, src: Source)
    requires
        bytes.len() >= 6,
        has(bytes, 0, sig_gif87a()) || has(bytes, 0, sig_gif89a()),
    ensures
        bytes.len() >= 10 ==> spec_imsz(bytes, src) == Ok::<ImInfo, ImError>(
            ImInfo {
                format: ImFormat::GIF,
                width: (bytes[6] + 256 * bytes[7]) as u64,
                height: (bytes[8] + 256 * bytes[9]) as u64,
            },
        ),
        bytes.len() < 10 ==> spec_imsz(bytes, src) == Err::<ImInfo, ImError>(
            ImError::ParserError(ImFormat::GIF),
        ),
{
    if has(bytes, 0, sig_gif87a()) {
        lemma_preamble_bytes(bytes, 0, sig_gif87a());
    } else {
        lemma_preamble_bytes(bytes, 0, sig_gif89a());
    }
}

/// Big-endian 32-bit number in `bytes[i..i+4]`.
pub open spec fn word_be(bytes: Seq<u8>, i: int) -> int {
    ((bytes[i] * 256 + bytes[i + 1]) * 256 + bytes[i + 2]) * 256 + bytes[i + 3]
}

/// Little-endian 32-bit number in `bytes[i..i+4]`.
pub open spec fn word_le(bytes: Seq<u8>, i: int) -> int {
    ((bytes[i + 3] * 256 + bytes[i + 2]) * 256 + bytes[i + 1]) * 256 + bytes[i]
}

/// A QOI file (magic "qoif", at least 14 bytes, and not also an AVIF file type box
/// at 4) has width and height as big-endian 32-bit numbers at 4 and 8.
pub proof fn qoi_size_law(bytes: Seq<u8>, src: Source)
    requires
        bytes.len() >= 14,
        has(bytes, 0, sig_qoi()),
        !(has(bytes, 4, sig_ftypavif())),
    ensures
        spec_imsz(bytes, src) == Ok::<ImInfo, ImError>(
            ImInfo { format: ImFormat::QOI, width: word_be(bytes, 4) as u64, height: word_be(bytes, 8) as u64 },
        ),
{
    lemma_preamble_bytes(bytes, 0, sig_qoi());
    lemma_preamble_bytes(bytes, 4, sig_ftypavif());
}

/// A PSD file (its 12-byte version 1 header start, at least 22 bytes) has the
/// height as a big-endian 32-bit number at 14 and the width at 18.
pub proof fn psd_size_law(bytes: Seq<u8>, src: Source)
    requires
        bytes.len() >= 22,
        has(bytes, 0, sig_psd()),
    ensures
        spec_imsz(bytes, src) == Ok::<ImInfo, ImError>(
            ImInfo { format: ImFormat::PSD, width: word_be(bytes, 18) as u64, height: word_be(bytes, 14) as u64 },
        ),
{
    lemma_preamble_bytes(bytes, 0, sig_psd());
}

/// An XCF file ("gimp xcf ", a version tag ended by a zero at 13, at least 22
/// bytes) has the width as a big-endian 32-bit number at 14 and the height at 18.
pub proof fn xcf_size_law(bytes: Seq<u8>, src: Source)
    requires
        bytes.len() >= 22,
        has(bytes, 0, sig_xcf()),
        bytes[13] == 0,
    ensures
        spec_imsz(bytes, src) == Ok::<ImInfo, ImError>(
            ImInfo { format: ImFormat::XCF, width: word_be(bytes, 14) as u64, height: word_be(bytes, 18) as u64 },
        ),
{
    lemma_preamble_bytes(bytes, 0, sig_xcf());
}

/// A PNG file of at least 24 bytes with its IHDR chunk at 12 has the width as a
/// big-endian 32-bit number at 16 and the height at 20.
pub proof fn png_size_law(bytes: Seq<u8>, src: Source)
    requires
        bytes.len() >= 24,
        has(bytes, 0, sig_png()),
        has(bytes, 12, sig_ihdr()),
    ensures
        spec_imsz(bytes, src) == Ok::<ImInfo, ImError>(
            ImInfo { format: ImFormat::PNG, width: word_be(bytes, 16) as u64, height: word_be(bytes, 20) as u64 },
        ),
{
    lemma_preamble_bytes(bytes, 0, sig_png());
    lemma_preamble_bytes(bytes, 12, sig_ihdr());
}

/// A PNG file of at least 16 bytes without an IHDR tag at 12 has the width and
/// height as the big-endian 32-bit numbers right after the signature, at 8 and 12.
pub proof fn png_without_header_law(bytes: Seq<u8>, src: Source)
    requires
        bytes.len() >= 16,
        has(bytes, 0, sig_png()),
        !(has(bytes, 12, sig_ihdr())),
    ensures
        spec_imsz(bytes, src) == Ok::<ImInfo, ImError>(
            ImInfo { format: ImFormat::PNG, width: word_be(bytes, 8) as u64, height: word_be(bytes, 12) as u64 },
        ),
{
    lemma_preamble_bytes(bytes, 0, sig_png());
    lemma_preamble_bytes(bytes, 12, sig_ihdr());
}

/// A BMP file ("BM", four zero bytes at 6) of at least 22 bytes whose DIB header
/// size (little endian at 14) is 12 has 16-bit width and height, little endian,
/// at 18 and 20.
pub proof fn bmp_core_header_law(bytes: Seq<u8>, src: Source)
    requires
        bytes.len() >= 22,
        has(bytes, 0, sig_bm()),
        has(bytes, 6, sig_zero4()),
        word_le(bytes, 14) == 12,
    ensures
        spec_imsz(bytes, src) == Ok::<ImInfo, ImError>(
            ImInfo {
                format: ImFormat::BMP,
                width: (bytes[18] + 256 * bytes[19]) as u64,
                height: (bytes[20] + 256 * bytes[21]) as u64,
            },
        ),
{
    lemma_preamble_bytes(bytes, 0, sig_bm());
    lemma_preamble_bytes(bytes, 6, sig_zero4());
}

/// A BMP file of at least 24 bytes with any other DIB header size has signed
/// 32-bit width and height, little endian, at 18 and 22: the width is that number
/// widened to 64 bits, the height its absolute value (negative for top-down rows).
/// Bytes past the end of a file of 24 or 25 bytes read as the preamble's zeros.
pub proof fn bmp_info_header_law(bytes: Seq<u8>, src: Source)
    requires
        bytes.len() >= 24,
        has(bytes, 0, sig_bm()),
        has(bytes, 6, sig_zero4()),
        word_le(bytes, 14) != 12,
    ensures
        ({
            let w = word_le(bytes, 18);
            let h = word_le(preamble(bytes), 22);
            spec_imsz(bytes, src) == Ok::<ImInfo, ImError>(
                ImInfo {
                    format: ImFormat::BMP,
                    width: (if w < 0x8000_0000 { w } else { w + 0xffff_ffff_0000_0000 }) as u64,
                    height: (if h < 0x8000_0000 { h } else { 0x1_0000_0000 - h }) as u64,
                },
            )
        }),
{
    lemma_preamble_bytes(bytes, 0, sig_bm());
    lemma_preamble_bytes(bytes, 6, sig_zero4());
    let p = preamble(bytes);
    assert(le32(p, 18) == word_le(bytes, 18));
    assert(le32(p, 14) == word_le(bytes, 14));
}

/// A BMP file with fewer bytes than its header kind needs is malformed.
pub proof fn bmp_short_law(bytes: Seq<u8>, src: Source)
    requires
        bytes.len() >= 10,
        has(bytes, 0, sig_bm()),
        has(bytes, 6, sig_zero4()),
        bytes.len() < 22 || (bytes.len() < 24 && word_le(bytes, 14) != 12),
    ensures
        spec_imsz(bytes, src) == Err::<ImInfo, ImError>(ImError::ParserError(ImFormat::BMP)),
{
    lemma_preamble_bytes(bytes, 0, sig_bm());
    lemma_preamble_bytes(bytes, 6, sig_zero4());
}

/// The bytes of a WebP file read first: "RIFF", its size, "WEBP", at least 30 bytes.
pub open spec fn is_webp(bytes: Seq<u8>) -> bool {
    bytes.len() >= 30 && has(bytes, 0, sig_riff()) && has(bytes, 8, sig_webp())
}

/// Lossless WebP: the 32-bit little-endian word at 21 packs width - 1 in its low
/// 14 bits and height - 1 in the 14 bits above them.
pub proof fn webp_lossless_law(bytes: Seq<u8>, src: Source)
    requires
        is_webp(bytes),
        has(bytes, 12, sig_vp8l()),
    ensures
        ({
            let bits = word_le(bytes, 21);
            spec_imsz(bytes, src) == Ok::<ImInfo, ImError>(
                ImInfo {
                    format: ImFormat::WEBP,
                    width: (1 + bits % 0x4000) as u64,
                    height: (1 + (bits / 0x4000) % 0x4000) as u64,
                },
            )
        }),
{
    lemma_preamble_bytes(bytes, 0, sig_riff());
    lemma_preamble_bytes(bytes, 8, sig_webp());
    lemma_preamble_bytes(bytes, 12, sig_vp8l());
    let b0 = bytes[21] as int;
    let b1 = bytes[22] as int;
    let b2 = bytes[23] as int;
    let b3 = bytes[24] as int;
    let bits = word_le(bytes, 21);
    lemma_fundamental_div_mod_converse(b1, 64, b1 / 64, b1 % 64);
    lemma_fundamental_div_mod_converse(b3, 16, b3 / 16, b3 % 16);
    let q = b1 / 64 + 4 * b2 + 1024 * b3;
    assert(bits == q * 0x4000 + (b0 + 256 * (b1 % 64)));
    lemma_fundamental_div_mod_converse(bits, 0x4000, q, b0 + 256 * (b1 % 64));
    assert(q == (b3 / 16) * 0x4000 + (b1 / 64 + 4 * b2 + 1024 * (b3 % 16)));
    lemma_fundamental_div_mod_converse(q, 0x4000, b3 / 16, b1 / 64 + 4 * b2 + 1024 * (b3 % 16));
}

/// Lossy WebP: behind the start code 9d 01 2a at 23 stand the 16-bit width and
/// height, little endian, at 26 and 28; without that start code the file is
/// malformed.
pub proof fn webp_lossy_law(bytes: Seq<u8>, src: Source)
    requires
        is_webp(bytes),
        has(bytes, 12, sig_vp8()),
    ensures
        bytes[23] == 0x9d && bytes[24] == 0x01 && bytes[25] == 0x2a ==> spec_imsz(bytes, src) == Ok::<
            ImInfo,
            ImError,
        >(
            ImInfo {
                format: ImFormat::WEBP,
                width: (bytes[26] + 256 * bytes[27]) as u64,
                height: (bytes[28] + 256 * bytes[29]) as u64,
            },
        ),
        !(bytes[23] == 0x9d && bytes[24] == 0x01 && bytes[25] == 0x2a) ==> spec_imsz(bytes, src)
            == Err::<ImInfo, ImError>(ImError::ParserError(ImFormat::WEBP)),
{
    lemma_preamble_bytes(bytes, 0, sig_riff());
    lemma_preamble_bytes(bytes, 8, sig_webp());
    lemma_preamble_bytes(bytes, 12, sig_vp8());
}

/// Extended WebP: width - 1 and height - 1 are the low 24 bits of the
/// little-endian words at 24 and 27.
pub proof fn webp_extended_law(bytes: Seq<u8>, src: Source)
    requires
        is_webp(bytes),
        has(bytes, 12, sig_vp8x()),
    ensures
        spec_imsz(bytes, src) == Ok::<ImInfo, ImError>(
            ImInfo {
                format: ImFormat::WEBP,
                width: (1 + word_le(bytes, 24) % 0x100_0000) as u64,
                height: (1 + word_le(bytes, 26) / 0x100) as u64,
            },
        ),
{
    lemma_preamble_bytes(bytes, 0, sig_riff());
    lemma_preamble_bytes(bytes, 8, sig_webp());
    lemma_preamble_bytes(bytes, 12, sig_vp8x());
    let w = word_le(bytes, 24);
    let h = word_le(bytes, 26);
    lemma_fundamental_div_mod_converse(w, 0x100_0000, bytes[27] as int, bytes[24] + 256 * bytes[25] + 65536 * bytes[26]);
    lemma_fundamental_div_mod_converse(h, 0x100, bytes[27] + 256 * bytes[28] + 65536 * bytes[29], bytes[26] as int);
}

/// A WebP file with none of the three chunk kinds at 12 is malformed.
pub proof fn webp_unknown_chunk_law(bytes: Seq<u8>, src: Source)
    requires
        is_webp(bytes),
        !(has(bytes, 12, sig_vp8l())),
        !(has(bytes, 12, sig_vp8())),
        !(has(bytes, 12, sig_vp8x())),
    ensures
        spec_imsz(bytes, src) == Err::<ImInfo, ImError>(ImError::ParserError(ImFormat::WEBP)),
{
    lemma_preamble_bytes(bytes, 0, sig_riff());
    lemma_preamble_bytes(bytes, 8, sig_webp());
    lemma_preamble_bytes(bytes, 12, sig_vp8l());
    lemma_preamble_bytes(bytes, 12, sig_vp8());
    lemma_preamble_bytes(bytes, 12, sig_vp8x());
}

/// Reading from a plain file gives the bytes at the offsets asked for.
proof fn lemma_file_fetch(bytes: Seq<u8>, f: spec_fn(u32) -> u64, g: spec_fn(u64) -> u64, pos: int, len: nat)
    requires
        0 <= pos <= SEEK_LIMIT,
        pos + len <= bytes.len(),
    ensures
        fetch(file_source(bytes, f, g), pos, len) == Some(bytes.subrange(pos, pos + len)),
{
}

/// JPEG: when the scan, having read a 0xff, reads at `pos` a start-of-frame marker
/// SOF0..SOF3 (baseline, extended, progressive or lossless), the size is that frame
/// header's: behind the marker come the segment length (2 bytes) and the sample
/// precision (1 byte), then height and width, big endian. Without those four bytes
/// the file is malformed.
pub proof fn jpeg_frame_marker_law(src: Source, pos: int, m: u8)
    requires
        fetch(src, pos, 1) == Some(seq![m]),
        0xc0 <= m <= 0xc3,
    ensures
        match fetch(src, pos + 4, 4) {
            Some(s) => jpeg_fill(src, pos) == Ok::<ImInfo, ImError>(
                ImInfo {
                    format: ImFormat::JPEG,
                    width: (s[2] * 256 + s[3]) as u64,
                    height: (s[0] * 256 + s[1]) as u64,
                },
            ),
            None => jpeg_fill(src, pos) == Err::<ImInfo, ImError>(ImError::ParserError(ImFormat::JPEG)),
        },
{
    assert(seq![m][0] == m);
    assert(jpeg_marker(src, pos + 1, m) == jpeg_sof(src, pos + 4));
}

/// JPEG: any other marker at `pos` opens a segment that is skipped whole by the
/// big-endian length that follows it (which counts its own two bytes). The byte
/// right behind the segment decides how the scan goes on: a 0xff opens the next
/// marker, a start-of-scan marker byte (0xda) or a zero ends the scan without a
/// size, and any other byte starts a search for the next 0xff.
pub proof fn jpeg_segment_skip_law(src: Source, pos: int, m: u8, len: Seq<u8>, b: u8)
    requires
        fetch(src, pos, 1) == Some(seq![m]),
        m != 0xff,
        !(0xc0 <= m <= 0xc3),
        fetch(src, pos + 1, 2) == Some(len),
        len[0] * 256 + len[1] >= 2,
        pos + 1 + len[0] * 256 + len[1] <= SEEK_LIMIT,
        fetch(src, pos + 1 + len[0] * 256 + len[1], 1) == Some(seq![b]),
    ensures
        b == 0xff ==> jpeg_fill(src, pos) == jpeg_fill(src, pos + 2 + len[0] * 256 + len[1]),
        b == 0xda || b == 0 ==> jpeg_fill(src, pos) == Err::<ImInfo, ImError>(ImError::ParserError(ImFormat::JPEG)),
        b != 0xff && b != 0xda && b != 0 ==> jpeg_fill(src, pos) == jpeg_hunt(
            src,
            pos + 2 + len[0] * 256 + len[1],
        ),
{
    let l = len[0] * 256 + len[1];
    assert(seq![m][0] == m);
    assert(seq![b][0] == b);
    assert(jpeg_marker(src, pos + 1, m) == jpeg_seglen(src, pos + 1));
    assert(jpeg_seglen(src, pos + 1) == jpeg_next(src, pos + 1 + l));
    assert(jpeg_next(src, pos + 1 + l) == jpeg_top(src, pos + 2 + l, b));
}

/// JPEG: while looking for a marker, a byte other than 0xff is passed over, and a
/// 0xff is followed by its marker; after a 0xff, more 0xff fill bytes are passed
/// over too.
pub proof fn jpeg_search_law(src: Source, pos: int, c: u8)
    requires
        fetch(src, pos, 1) == Some(seq![c]),
    ensures
        c != 0xff ==> jpeg_hunt(src, pos) == jpeg_hunt(src, pos + 1),
        c == 0xff ==> jpeg_hunt(src, pos) == jpeg_fill(src, pos + 1),
        c == 0xff ==> jpeg_fill(src, pos) == jpeg_fill(src, pos + 1),
{
    assert(seq![c][0] == c);
}

/// JPEG: a file that starts with SOI (ff d8) and a 0xff is scanned from offset 3
/// as after any 0xff; in particular, when its first marker is a start of frame the
/// size stands at offsets 7 to 10 (height, then width, big endian).
pub proof fn jpeg_start_law(bytes: Seq<u8>, f: spec_fn(u32) -> u64, g: spec_fn(u64) -> u64)
    requires
        bytes.len() >= 3,
        has(bytes, 0, sig_jpeg()),
        bytes[2] == 0xff,
    ensures
        spec_imsz(bytes, file_source(bytes, f, g)) == jpeg_fill(file_source(bytes, f, g), 3),
        bytes.len() >= 11 && 0xc0 <= bytes[3] <= 0xc3 ==> spec_imsz(bytes, file_source(bytes, f, g))
            == Ok::<ImInfo, ImError>(
            ImInfo {
                format: ImFormat::JPEG,
                width: (bytes[9] * 256 + bytes[10]) as u64,
                height: (bytes[7] * 256 + bytes[8]) as u64,
            },
        ),
{
    lemma_preamble_bytes(bytes, 0, sig_jpeg());
    let src = file_source(bytes, f, g);
    assert(has(preamble(bytes), 0, sig_jpeg()));
    if bytes.len() >= 11 && 0xc0 <= bytes[3] <= 0xc3 {
        lemma_file_fetch(bytes, f, g, 3, 1);
        lemma_file_fetch(bytes, f, g, 7, 4);
        assert(bytes.subrange(3, 4) =~= seq![bytes[3]]);
        jpeg_frame_marker_law(src, 3, bytes[3]);
    }
}

/// 16-bit number in `s[i..i+2]`, big endian when `big`, else little endian.
pub open spec fn half(big: bool, s: Seq<u8>, i: int) -> int {
    if big { s[i] * 256 + s[i + 1] } else { s[i + 1] * 256 + s[i] }
}

/// 32-bit number in `s[i..i+4]`, big endian when `big`, else little endian.
pub open spec fn word(big: bool, s: Seq<u8>, i: int) -> int {
    if big { word_be(s, i) } else { word_le(s, i) }
}

/// TIFF: what an ImageWidth or ImageLength field holds, by field type, read from
/// the value bytes `s` of its entry in the file's byte order. BYTE and ASCII are
/// the byte itself, SHORT and LONG the whole unsigned 16- and 32-bit number,
/// RATIONAL the quotient of two LONGs rounded down; the signed types count a
/// negative value as zero, and SRATIONAL is the quotient of two signed LONGs,
/// rounded toward zero and zero when negative. A zero denominator gives nothing.
pub proof fn tiff_field_value_law(big: bool, s: Seq<u8>)
    ensures
        s.len() >= 1 ==> tiff_number(big, 1, s) == Some(s[0] as int) && tiff_number(big, 2, s) == Some(
            s[0] as int,
        ),
        s.len() >= 2 ==> tiff_number(big, 3, s) == Some(half(big, s, 0)),
        s.len() >= 4 ==> tiff_number(big, 4, s) == Some(word(big, s, 0)),
        s.len() >= 8 ==> tiff_number(big, 5, s) == if word(big, s, 4) == 0 {
            None
        } else {
            Some(word(big, s, 0) / word(big, s, 4))
        },
        s.len() >= 1 ==> tiff_number(big, 6, s) == Some(if s[0] < 0x80 { s[0] as int } else { 0 })
            && tiff_number(big, 7, s) == Some(if s[0] < 0x80 { s[0] as int } else { 0 }),
        s.len() >= 2 ==> tiff_number(big, 8, s) == Some(
            if half(big, s, 0) < 0x8000 { half(big, s, 0) } else { 0 },
        ),
        s.len() >= 4 ==> tiff_number(big, 9, s) == Some(
            if word(big, s, 0) < 0x8000_0000 { word(big, s, 0) } else { 0 },
        ),
        s.len() >= 8 ==> ({
            let a = word(big, s, 0);
            let b = word(big, s, 4);
            tiff_number(big, 10, s) == if b == 0 {
                None
            } else if a < 0x8000_0000 && b < 0x8000_0000 {
                Some(a / b)
            } else if a >= 0x8000_0000 && b >= 0x8000_0000 {
                Some((0x1_0000_0000 - a) / (0x1_0000_0000 - b))
            } else {
                Some(0int)
            }
        }),
{
    if s.len() >= 8 {
        let a = word(big, s, 0);
        let b = word(big, s, 4);
        let sa = signed32(a);
        let sb = signed32(b);
        if b != 0 && (sa < 0) != (sb < 0) {
            let q = (if sa < 0 { -sa } else { sa }) / (if sb < 0 { -sb } else { sb });
            assert(q >= 0) by (nonlinear_arith)
                requires
                    (if sa < 0 { -sa } else { sa }) >= 0,
                    (if sb < 0 { -sb } else { sb }) > 0,
                    q == (if sa < 0 { -sa } else { sa }) / (if sb < 0 { -sb } else { sb }),
            ;
            assert(trunc_div(sa, sb) == -q);
        }
    }
}

/// TIFF: a file ("II*\0" or "MM\0*", not also an AVIF file type box at 4) whose
/// first directory, at the offset stored at 4, begins with an ImageWidth (256) and
/// an ImageLength (257) entry, in either order, each of field type SHORT or LONG,
/// has as size the whole unsigned value of each entry, read 8 bytes into the entry
/// in the file's byte order.
pub proof fn tiff_size_law(bytes: Seq<u8>, f: spec_fn(u32) -> u64, g: spec_fn(u64) -> u64)
    requires
        bytes.len() >= 12,
        has(bytes, 0, sig_tiff_le()) || has(bytes, 0, sig_tiff_be()),
        !(has(bytes, 4, sig_ftypavif())),
        ({
            let big = bytes[0] == 0x4d;
            let ifd = word(big, bytes, 4);
            &&& ifd + 26 <= bytes.len()
            &&& ifd + 14 <= u32::MAX
            &&& half(big, bytes, ifd) >= 2
            &&& (half(big, bytes, ifd + 2) == 256 && half(big, bytes, ifd + 14) == 257) || (half(
                big,
                bytes,
                ifd + 2,
            ) == 257 && half(big, bytes, ifd + 14) == 256)
            &&& half(big, bytes, ifd + 4) == 3 || half(big, bytes, ifd + 4) == 4
            &&& half(big, bytes, ifd + 16) == 3 || half(big, bytes, ifd + 16) == 4
        }),
    ensures
        ({
            let big = bytes[0] == 0x4d;
            let ifd = word(big, bytes, 4);
            let v0 = if half(big, bytes, ifd + 4) == 3 {
                half(big, bytes, ifd + 10)
            } else {
                word(big, bytes, ifd + 10)
            };
            let v1 = if half(big, bytes, ifd + 16) == 3 {
                half(big, bytes, ifd + 22)
            } else {
                word(big, bytes, ifd + 22)
            };
            let first_is_width = half(big, bytes, ifd + 2) == 256;
            spec_imsz(bytes, file_source(bytes, f, g)) == Ok::<ImInfo, ImError>(
                ImInfo {
                    format: ImFormat::TIFF,
                    width: (if first_is_width { v0 } else { v1 }) as u64,
                    height: (if first_is_width { v1 } else { v0 }) as u64,
                },
            )
        }),
{
    let src = file_source(bytes, f, g);
    let big = bytes[0] == 0x4d;
    let ifd = word(big, bytes, 4);
    lemma_tiff_preamble(bytes, src);
    lemma_file_fetch(bytes, f, g, ifd, 2);
    let t0 = TiffWalk {
        big,
        ifd: ifd as u64,
        count: half(big, bytes, ifd) as u64,
        index: 0,
        width: None,
        height: None,
    };
    assert(tiff_top(src, big, ifd) == tiff_entries(src, t0));
    let tag0 = half(big, bytes, ifd + 2);
    let tag1 = half(big, bytes, ifd + 14);
    let v0 = lemma_tiff_file_entry(bytes, f, g, t0);
    let t1 = if tag0 == 256 {
        tiff_advance(t0, Some(v0 as u64), None)
    } else {
        tiff_advance(t0, None, Some(v0 as u64))
    };
    assert(tiff_store(src, t0, tag0 as u16, v0 as u64) == tiff_entries(src, t1));
    let v1 = lemma_tiff_file_entry(bytes, f, g, t1);
}

/// The preamble of a TIFF file sends the scan to the directory at the offset
/// stored at 4, in the byte order of the first two bytes.
proof fn lemma_tiff_preamble(bytes: Seq<u8>, src: Source)
    requires
        bytes.len() >= 12,
        has(bytes, 0, sig_tiff_le()) || has(bytes, 0, sig_tiff_be()),
        !(has(bytes, 4, sig_ftypavif())),
    ensures
        spec_imsz(bytes, src) == tiff_top(src, bytes[0] == 0x4d, word(bytes[0] == 0x4d, bytes, 4)),
{
    let p = preamble(bytes);
    lemma_preamble_bytes(bytes, 0, sig_tiff_le());
    lemma_preamble_bytes(bytes, 0, sig_tiff_be());
    lemma_preamble_bytes(bytes, 4, sig_ftypavif());
    assert(bytes.subrange(0, 4)[0] == bytes[0]);
    assert(bytes.subrange(0, 4)[1] == bytes[1]);
    let big = bytes[0] == 0x4d;
    assert(tiff_big_endian(p) == big);
    assert(u32_at(big, p, 4) == word(big, bytes, 4));
}

/// One directory entry of a file, of tag 256 or 257 and of field type SHORT or
/// LONG: the walk goes on with its value, which is returned.
proof fn lemma_tiff_file_entry(bytes: Seq<u8>, f: spec_fn(u32) -> u64, g: spec_fn(u64) -> u64, t: TiffWalk) -> (v: int)
    requires
        t.index < t.count,
        t.entry_pos() + 12 <= bytes.len(),
        t.entry_pos() <= u32::MAX,
        half(t.big, bytes, t.entry_pos()) == 256 || half(t.big, bytes, t.entry_pos()) == 257,
        half(t.big, bytes, t.entry_pos() + 2) == 3 || half(t.big, bytes, t.entry_pos() + 2) == 4,
    ensures
        v == if half(t.big, bytes, t.entry_pos() + 2) == 3 {
            half(t.big, bytes, t.entry_pos() + 8)
        } else {
            word(t.big, bytes, t.entry_pos() + 8)
        },
        tiff_entries(file_source(bytes, f, g), t) == tiff_store(
            file_source(bytes, f, g),
            t,
            half(t.big, bytes, t.entry_pos()) as u16,
            v as u64,
        ),
{
    let src = file_source(bytes, f, g);
    let e = t.entry_pos();
    let big = t.big;
    let tag = half(big, bytes, e);
    let ft = half(big, bytes, e + 2);
    lemma_file_fetch(bytes, f, g, e, 2);
    lemma_file_fetch(bytes, f, g, e + 2, 2);
    let len = value_len(ft);
    lemma_file_fetch(bytes, f, g, e + 8, len);
    let sv = bytes.subrange(e + 8, e + 8 + len);
    tiff_field_value_law(big, sv);
    let v = if ft == 3 { half(big, bytes, e + 8) } else { word(big, bytes, e + 8) };
    assert(tiff_number(big, ft, sv) == Some(v));
    assert(u16_at(big, bytes.subrange(e, e + 2), 0) == tag);
    assert(u16_at(big, bytes.subrange(e + 2, e + 4), 0) == ft);
    assert(tiff_entries(src, t) == tiff_tag_then(src, t, fetch(src, e, 2)));
    assert(tiff_tag_then(src, t, fetch(src, e, 2)) == tiff_type(src, t, tag as u16));
    assert(tiff_type(src, t, tag as u16) == tiff_value(src, t, tag as u16, ft as u16));
    assert(tiff_value(src, t, tag as u16, ft as u16) == tiff_store(src, t, tag as u16, v as u64));
    v
}

/// ICO directory entry `k` of `bytes` has width byte `w` and height byte `h`.
pub open spec fn ico_entry_is(bytes: Seq<u8>, k: int, w: int, h: int) -> bool {
    bytes[6 + 16 * k] == w && bytes[7 + 16 * k] == h
}

/// ICO directory entry `k` of `bytes` (width byte, height byte) is at least as
/// large as `w` by `h` in both directions and larger in one.
pub open spec fn ico_entry_beats(bytes: Seq<u8>, k: int, w: int, h: int) -> bool {
    let ew = bytes[6 + 16 * k] as int;
    let eh = bytes[7 + 16 * k] as int;
    ew >= w && eh >= h && (ew > w || eh > h)
}

/// ICO: the walk over entries `i..count` from the largest size so far `(w, h)`
/// ends with a size that is at least `(w, h)`, is `(w, h)` or one of those
/// entries, and that none of those entries beats.
proof fn lemma_ico_walk(bytes: Seq<u8>, f: spec_fn(u32) -> u64, g: spec_fn(u64) -> u64, count: int, i: int, w: int, h: int)
    requires
        0 <= i <= count <= 0xffff,
        6 + 16 * count <= bytes.len(),
        0 <= w <= 0xff,
        0 <= h <= 0xff,
    ensures
        ({
            let r = ico_entries(file_source(bytes, f, g), count, i, w, h);
            &&& r is Ok
            &&& r->Ok_0.format == ImFormat::ICO
            &&& r->Ok_0.width >= w && r->Ok_0.height >= h
            &&& (r->Ok_0.width == w && r->Ok_0.height == h) || exists|j: int|
                i <= j < count && #[trigger] ico_entry_is(bytes, j, r->Ok_0.width as int, r->Ok_0.height as int)
            &&& forall|k: int| i <= k < count ==> !#[trigger] ico_entry_beats(bytes, k, r->Ok_0.width as int, r->Ok_0.height as int)
        }),
    decreases count - i,
{
    let src = file_source(bytes, f, g);
    if i < count {
        lemma_file_fetch(bytes, f, g, 6 + 16 * i, 16);
        let e = bytes.subrange(6 + 16 * i, 6 + 16 * i + 16);
        assert(e[0] == bytes[6 + 16 * i] && e[1] == bytes[7 + 16 * i]);
        let ew = bytes[6 + 16 * i] as int;
        let eh = bytes[7 + 16 * i] as int;
        assert(ico_entries(src, count, i, w, h) == ico_entry_then(src, count, i, w, h, fetch(src, 6 + 16 * i, 16)));
        if ew >= w && eh >= h {
            lemma_ico_walk(bytes, f, g, count, i + 1, ew, eh);
            let r = ico_entries(src, count, i + 1, ew, eh);
            assert(ico_entries(src, count, i, w, h) == r);
            assert forall|k: int| i <= k < count implies !#[trigger] ico_entry_beats(bytes, k, r->Ok_0.width as int, r->Ok_0.height as int) by {
                if k > i {
                    assert(!ico_entry_beats(bytes, k, r->Ok_0.width as int, r->Ok_0.height as int));
                }
            }
            if r->Ok_0.width == ew && r->Ok_0.height == eh {
                assert(ico_entry_is(bytes, i, r->Ok_0.width as int, r->Ok_0.height as int));
            } else {
                let j = choose|j: int|
                    i + 1 <= j < count && ico_entry_is(bytes, j, r->Ok_0.width as int, r->Ok_0.height as int);
                assert(i <= j < count);
            }
        } else {
            lemma_ico_walk(bytes, f, g, count, i + 1, w, h);
            let r = ico_entries(src, count, i + 1, w, h);
            assert(ico_entries(src, count, i, w, h) == r);
            assert forall|k: int| i <= k < count implies !#[trigger] ico_entry_beats(bytes, k, r->Ok_0.width as int, r->Ok_0.height as int) by {
                if k > i {
                    assert(!ico_entry_beats(bytes, k, r->Ok_0.width as int, r->Ok_0.height as int));
                }
            }
            if !(r->Ok_0.width == w && r->Ok_0.height == h) {
                let j = choose|j: int|
                    i + 1 <= j < count && ico_entry_is(bytes, j, r->Ok_0.width as int, r->Ok_0.height as int);
                assert(i <= j < count);
            }
        }
    }
}

/// The preamble of an ICO file sends the scan to its directory entries.
proof fn lemma_ico_preamble(bytes: Seq<u8>, src: Source)
    requires
        bytes.len() >= 6,
        has(bytes, 0, sig_ico()),
        !(has(bytes, 4, sig_ftypavif())),
    ensures
        spec_imsz(bytes, src) == ico_entries(src, bytes[4] + 256 * bytes[5], 0, 0, 0),
{
    lemma_preamble_bytes(bytes, 0, sig_ico());
    if bytes.len() >= 12 {
        lemma_preamble_bytes(bytes, 4, sig_ftypavif());
    } else {
        assert(!(has(preamble(bytes), 4, sig_ftypavif()))) by {
            assert(preamble(bytes)[11] == 0);
            assert(sig_ftypavif()[7] != 0);
            if has(preamble(bytes), 4, sig_ftypavif()) {
                assert(preamble(bytes).subrange(4, 12)[7] == preamble(bytes)[11]);
            }
        }
    }
}

/// ICO: a file ("\0\0\x01\0", not also an AVIF file type box at 4) with
/// `count` directory entries (little endian at 4), all of them present, reports
/// the size of one of its entries (width byte, height byte) that no other entry
/// beats, being at least as large in both directions and larger in one; an empty
/// directory reports 0 by 0.
pub proof fn ico_size_law(bytes: Seq<u8>, f: spec_fn(u32) -> u64, g: spec_fn(u64) -> u64)
    requires
        bytes.len() >= 6,
        has(bytes, 0, sig_ico()),
        !(has(bytes, 4, sig_ftypavif())),
        6 + 16 * (bytes[4] + 256 * bytes[5]) <= bytes.len(),
    ensures
        ({
            let count = bytes[4] + 256 * bytes[5];
            let r = spec_imsz(bytes, file_source(bytes, f, g));
            &&& r is Ok
            &&& r->Ok_0.format == ImFormat::ICO
            &&& count == 0 ==> r->Ok_0.width == 0 && r->Ok_0.height == 0
            &&& count > 0 ==> exists|j: int|
                0 <= j < count && #[trigger] ico_entry_is(bytes, j, r->Ok_0.width as int, r->Ok_0.height as int)
            &&& forall|k: int| 0 <= k < count ==> !#[trigger] ico_entry_beats(bytes, k, r->Ok_0.width as int, r->Ok_0.height as int)
        }),
{
    let src = file_source(bytes, f, g);
    let count = bytes[4] + 256 * bytes[5];
    lemma_ico_preamble(bytes, src);
    assert(spec_imsz(bytes, src) == ico_entries(src, count, 0, 0, 0));
    if count == 0 {
        lemma_ico_walk(bytes, f, g, count, 0, 0, 0);
    } else {
        lemma_file_fetch(bytes, f, g, 6, 16);
        let ew = bytes[6] as int;
        let eh = bytes[7] as int;
        assert(bytes.subrange(6, 22)[0] == ew && bytes.subrange(6, 22)[1] == eh);
        assert(ico_entries(src, count, 0, 0, 0) == ico_entries(src, count, 1, ew, eh));
        lemma_ico_walk(bytes, f, g, count, 1, ew, eh);
        let r = ico_entries(src, count, 1, ew, eh);
        if r->Ok_0.width == ew && r->Ok_0.height == eh {
            let j0: int = 0;
            assert(0 <= j0 < count && ico_entry_is(bytes, j0, r->Ok_0.width as int, r->Ok_0.height as int));
        } else {
            let j = choose|j: int|
                1 <= j < count && ico_entry_is(bytes, j, r->Ok_0.width as int, r->Ok_0.height as int);
            assert(0 <= j < count);
        }
        assert(!ico_entry_beats(bytes, 0, r->Ok_0.width as int, r->Ok_0.height as int));
    }
}

/// AVIF: the box search meets at `pos` a box header (32-bit big-endian size, then
/// its type) of the type looked for.
proof fn lemma_avif_match(src: Source, b: AvifBox, pos: int, limit: int, offset: int, h: Seq<u8>)
    requires
        offset <= limit,
        fetch(src, pos, 8) == Some(h),
        word_be(h, 0) >= 8,
        h.subrange(4, 8) == box_type(b),
    ensures
        avif_find(src, b, pos, limit, offset) == avif_found(src, b, pos + 8, word_be(h, 0)),
{
    assert(avif_find(src, b, pos, limit, offset) == avif_find_then(src, b, pos, limit, offset, fetch(src, pos, 8)));
}

/// AVIF: a box of another type than the one looked for is skipped whole, by its
/// size, and counts against the room left in the enclosing box.
pub proof fn avif_box_skip_law(src: Source, b: AvifBox, pos: int, limit: int, offset: int, h: Seq<u8>)
    requires
        offset <= limit,
        fetch(src, pos, 8) == Some(h),
        word_be(h, 0) >= 8,
        h.subrange(4, 8) != box_type(b),
        pos + word_be(h, 0) <= SEEK_LIMIT,
    ensures
        avif_find(src, b, pos, limit, offset) == avif_find(src, b, pos + word_be(h, 0), limit, offset + word_be(h, 0)),
{
    assert(avif_find(src, b, pos, limit, offset) == avif_find_then(src, b, pos, limit, offset, fetch(src, pos, 8)));
}

/// AVIF: when the search for the image spatial extents box "ispe" meets it, with
/// at least 12 bytes of size, the image size is the pair of big-endian 32-bit
/// numbers behind its four version and flag bytes: width, then height. A box too
/// short to read is malformed.
pub proof fn avif_ispe_law(src: Source, pos: int, limit: int, offset: int, h: Seq<u8>)
    requires
        offset <= limit,
        fetch(src, pos, 8) == Some(h),
        word_be(h, 0) >= 12,
        h.subrange(4, 8) == seq![0x69u8, 0x73, 0x70, 0x65],
    ensures
        match fetch(src, pos + 8, 12) {
            Some(s) => avif_find(src, AvifBox::Ispe, pos, limit, offset) == Ok::<ImInfo, ImError>(
                ImInfo { format: ImFormat::AVIF, width: word_be(s, 4) as u64, height: word_be(s, 8) as u64 },
            ),
            None => avif_find(src, AvifBox::Ispe, pos, limit, offset) == Err::<ImInfo, ImError>(
                ImError::ParserError(ImFormat::AVIF),
            ),
        },
{
    lemma_avif_match(src, AvifBox::Ispe, pos, limit, offset, h);
}

/// AVIF: a file that opens with its file type box ("ftypavif" at 4, size `F` at
/// 0, big endian), followed directly by the nesting meta > iprp > ipco > ispe, each
/// box the first inside the one before (meta being a full box, with four version
/// and flag bytes), has the size stored in the ispe box: width at `F + 40`, height
/// at `F + 44`, big endian.
#[verifier::rlimit(60)]
pub proof fn avif_nested_law(bytes: Seq<u8>, f: spec_fn(u32) -> u64, g: spec_fn(u64) -> u64)
    requires
        bytes.len() >= 12,
        has(bytes, 4, sig_ftypavif()),
        !(has(bytes, 0, sig_jpeg())),
        ({
            let ft = word_be(bytes, 0);
            &&& ft >= 12
            &&& ft + 48 <= bytes.len()
            &&& word_be(bytes, ft) >= 12
            &&& bytes.subrange(ft + 4, ft + 8) == seq![0x6du8, 0x65, 0x74, 0x61]
            &&& word_be(bytes, ft + 12) >= 8
            &&& bytes.subrange(ft + 16, ft + 20) == seq![0x69u8, 0x70, 0x72, 0x70]
            &&& word_be(bytes, ft + 20) >= 8
            &&& bytes.subrange(ft + 24, ft + 28) == seq![0x69u8, 0x70, 0x63, 0x6f]
            &&& word_be(bytes, ft + 28) >= 12
            &&& bytes.subrange(ft + 32, ft + 36) == seq![0x69u8, 0x73, 0x70, 0x65]
        }),
    ensures
        ({
            let ft = word_be(bytes, 0);
            spec_imsz(bytes, file_source(bytes, f, g)) == Ok::<ImInfo, ImError>(
                ImInfo {
                    format: ImFormat::AVIF,
                    width: word_be(bytes, ft + 40) as u64,
                    height: word_be(bytes, ft + 44) as u64,
                },
            )
        }),
{
    let src = file_source(bytes, f, g);
    let ft = word_be(bytes, 0);
    lemma_preamble_bytes(bytes, 4, sig_ftypavif());
    lemma_preamble_bytes(bytes, 0, sig_jpeg());
    assert(bytes.subrange(4, 12)[2] == bytes[6]);
    assert(bytes.subrange(4, 12)[4] == bytes[8]);
    assert(spec_imsz(bytes, src) == avif_top(src, ft));
    let header_at = |a: int| bytes.subrange(a, a + 8);
    lemma_file_fetch(bytes, f, g, ft, 8);
    assert(header_at(ft).subrange(4, 8) =~= bytes.subrange(ft + 4, ft + 8));
    lemma_avif_match(src, AvifBox::Meta, ft, u64::MAX as int, 0, header_at(ft));
    lemma_file_fetch(bytes, f, g, ft + 12, 8);
    assert(header_at(ft + 12).subrange(4, 8) =~= bytes.subrange(ft + 16, ft + 20));
    lemma_avif_match(src, AvifBox::Iprp, ft + 12, word_be(bytes, ft) - 12, 0, header_at(ft + 12));
    lemma_file_fetch(bytes, f, g, ft + 20, 8);
    assert(header_at(ft + 20).subrange(4, 8) =~= bytes.subrange(ft + 24, ft + 28));
    lemma_avif_match(src, AvifBox::Ipco, ft + 20, word_be(bytes, ft + 12) - 8, 0, header_at(ft + 20));
    lemma_file_fetch(bytes, f, g, ft + 28, 8);
    assert(header_at(ft + 28).subrange(4, 8) =~= bytes.subrange(ft + 32, ft + 36));
    lemma_file_fetch(bytes, f, g, ft + 36, 12);
    avif_ispe_law(src, ft + 28, word_be(bytes, ft + 20) - 8, 0, header_at(ft + 28));
}

/// Two's-complement value of the 32-bit pattern `u`.
pub open spec fn as_i32(u: int) -> int {
    if u < 0x8000_0000 { u } else { u - 0x1_0000_0000 }
}

/// `bytes[pos..]` holds the bytes of `text`, none of them zero, and a zero behind them.
pub open spec fn holds_c_string(bytes: Seq<u8>, pos: int, text: Seq<u8>) -> bool {
    &&& 0 <= pos
    &&& pos + text.len() < bytes.len()
    &&& bytes.subrange(pos, pos + text.len()) == text
    &&& bytes[pos + text.len()] == 0
    &&& forall|j: int| 0 <= j < text.len() ==> text[j] != 0
}

/// OpenEXR: reading a zero-terminated attribute name, of which `i` bytes are read.
proof fn lemma_exr_name_run(bytes: Seq<u8>, f: spec_fn(u32) -> u64, g: spec_fn(u64) -> u64, pos: int, name: Seq<u8>, i: int)
    requires
        holds_c_string(bytes, pos, name),
        name.len() >= 1,
        pos + name.len() <= SEEK_LIMIT,
        0 <= i <= name.len(),
    ensures
        exr_name(file_source(bytes, f, g), pos + i, name.subrange(0, i)) == exr_type(
            file_source(bytes, f, g),
            pos + name.len() + 1,
            name,
            seq![],
        ),
    decreases name.len() - i,
{
    let src = file_source(bytes, f, g);
    lemma_file_fetch(bytes, f, g, pos + i, 1);
    assert(bytes.subrange(pos + i, pos + i + 1)[0] == bytes[pos + i]);
    assert(exr_name(src, pos + i, name.subrange(0, i)) == exr_name_then(src, pos + i, name.subrange(0, i), fetch(src, pos + i, 1)));
    if i < name.len() {
        assert(bytes.subrange(pos, pos + name.len())[i] == bytes[pos + i]);
        assert(name.subrange(0, i).push(bytes[pos + i]) =~= name.subrange(0, i + 1));
        lemma_exr_name_run(bytes, f, g, pos, name, i + 1);
    } else {
        assert(name.subrange(0, i) =~= name);
    }
}

/// OpenEXR: reading a zero-terminated type name, of which `i` bytes are read.
proof fn lemma_exr_type_run(bytes: Seq<u8>, f: spec_fn(u32) -> u64, g: spec_fn(u64) -> u64, pos: int, name: Seq<u8>, ty: Seq<u8>, i: int)
    requires
        holds_c_string(bytes, pos, ty),
        pos + ty.len() <= SEEK_LIMIT,
        0 <= i <= ty.len(),
    ensures
        exr_type(file_source(bytes, f, g), pos + i, name, ty.subrange(0, i)) == exr_size(
            file_source(bytes, f, g),
            pos + ty.len() + 1,
            name,
            ty,
        ),
    decreases ty.len() - i,
{
    let src = file_source(bytes, f, g);
    lemma_file_fetch(bytes, f, g, pos + i, 1);
    assert(bytes.subrange(pos + i, pos + i + 1)[0] == bytes[pos + i]);
    assert(exr_type(src, pos + i, name, ty.subrange(0, i)) == exr_type_then(src, pos + i, name, ty.subrange(0, i), fetch(src, pos + i, 1)));
    if i < ty.len() {
        assert(bytes.subrange(pos, pos + ty.len())[i] == bytes[pos + i]);
        assert(ty.subrange(0, i).push(bytes[pos + i]) =~= ty.subrange(0, i + 1));
        lemma_exr_type_run(bytes, f, g, pos, name, ty, i + 1);
    } else {
        assert(ty.subrange(0, i) =~= ty);
    }
}

/// OpenEXR: an OpenEXR file (magic 76 2f 31 01, version 1 or 2, more than 8 bytes)
/// is read as a list of header attributes from offset 8 on.
pub proof fn exr_start_law(bytes: Seq<u8>, src: Source)
    requires
        bytes.len() > 8,
        has(bytes, 0, sig_exr()),
        bytes[4] == 1 || bytes[4] == 2,
    ensures
        spec_imsz(bytes, src) == exr_name(src, 8, seq![]),
{
    lemma_preamble_bytes(bytes, 0, sig_exr());
    assert(bytes.subrange(0, 4)[0] == bytes[0]);
    if bytes.len() >= 12 {
        lemma_preamble_bytes(bytes, 4, sig_ftypavif());
    } else {
        assert(!(has(preamble(bytes), 4, sig_ftypavif()))) by {
            if has(preamble(bytes), 4, sig_ftypavif()) {
                assert(preamble(bytes).subrange(4, 12)[0] == preamble(bytes)[4]);
            }
        }
    }
}

/// OpenEXR: an attribute at `pos` named "displayWindow" of type "box2i" and value
/// size 16 gives the size: with xMin, yMin, xMax, yMax the signed 32-bit
/// little-endian numbers of its value, the width is xMax - xMin + 1 and the height
/// yMax - yMin + 1, each taken modulo 2^64 as a cast from a 64-bit signed number.
/// A number in `[-2^64, 2^64)` modulo `2^64` is its 64-bit pattern.
proof fn lemma_wrap64_mod(v: int)
    requires
        -0x1_0000_0000_0000_0000 <= v < 0x1_0000_0000_0000_0000,
    ensures
        wrap64(v) == v % 0x1_0000_0000_0000_0000,
{
    if v < 0 {
        lemma_fundamental_div_mod_converse(v, 0x1_0000_0000_0000_0000, -1, v + 0x1_0000_0000_0000_0000);
    } else {
        lemma_fundamental_div_mod_converse(v, 0x1_0000_0000_0000_0000, 0, v);
    }
}

/// The display window's 16 value bytes at `at` give the size.
proof fn lemma_exr_window(bytes: Seq<u8>, f: spec_fn(u32) -> u64, g: spec_fn(u64) -> u64, at: int)
    requires
        0 <= at,
        at + 16 <= bytes.len(),
        at + 32 <= SEEK_LIMIT,
    ensures
        ({
            let w = as_i32(word_le(bytes, at + 8)) - as_i32(word_le(bytes, at)) + 1;
            let h = as_i32(word_le(bytes, at + 12)) - as_i32(word_le(bytes, at + 4)) + 1;
            exr_box(file_source(bytes, f, g), at) == Ok::<ImInfo, ImError>(
                ImInfo {
                    format: ImFormat::OpenEXR,
                    width: (w % 0x1_0000_0000_0000_0000) as u64,
                    height: (h % 0x1_0000_0000_0000_0000) as u64,
                },
            )
        }),
{
    lemma_file_fetch(bytes, f, g, at, 16);
    let bx = bytes.subrange(at, at + 16);
    assert(le32(bx, 0) == word_le(bytes, at));
    assert(le32(bx, 4) == word_le(bytes, at + 4));
    assert(le32(bx, 8) == word_le(bytes, at + 8));
    assert(le32(bx, 12) == word_le(bytes, at + 12));
    let w = as_i32(word_le(bytes, at + 8)) - as_i32(word_le(bytes, at)) + 1;
    let h = as_i32(word_le(bytes, at + 12)) - as_i32(word_le(bytes, at + 4)) + 1;
    lemma_wrap64_mod(w);
    lemma_wrap64_mod(h);
}

/// OpenEXR: an attribute at `pos` named "displayWindow" of type "box2i" and value
/// size 16 gives the size: with xMin, yMin, xMax, yMax the signed 32-bit
/// little-endian numbers of its value, the width is xMax - xMin + 1 and the height
/// yMax - yMin + 1, each taken modulo 2^64 as a cast from a 64-bit signed number.
pub proof fn exr_display_window_law(bytes: Seq<u8>, f: spec_fn(u32) -> u64, g: spec_fn(u64) -> u64, pos: int)
    requires
        holds_c_string(bytes, pos, attr_display_window()),
        holds_c_string(bytes, pos + 14, type_box2i()),
        word_le(bytes, pos + 20) == 16,
        pos + 40 <= bytes.len(),
        pos + 56 <= SEEK_LIMIT,
    ensures
        ({
            let w = as_i32(word_le(bytes, pos + 32)) - as_i32(word_le(bytes, pos + 24)) + 1;
            let h = as_i32(word_le(bytes, pos + 36)) - as_i32(word_le(bytes, pos + 28)) + 1;
            exr_name(file_source(bytes, f, g), pos, seq![]) == Ok::<ImInfo, ImError>(
                ImInfo {
                    format: ImFormat::OpenEXR,
                    width: (w % 0x1_0000_0000_0000_0000) as u64,
                    height: (h % 0x1_0000_0000_0000_0000) as u64,
                },
            )
        }),
{
    let src = file_source(bytes, f, g);
    let name = attr_display_window();
    let ty = type_box2i();
    lemma_exr_name_run(bytes, f, g, pos, name, 0);
    assert(name.subrange(0, 0) =~= seq![]);
    lemma_exr_type_run(bytes, f, g, pos + 14, name, ty, 0);
    assert(ty.subrange(0, 0) =~= seq![]);
    lemma_file_fetch(bytes, f, g, pos + 20, 4);
    let sz = bytes.subrange(pos + 20, pos + 24);
    assert(le32(sz, 0) == word_le(bytes, pos + 20));
    assert(exr_size(src, pos + 20, name, ty) == exr_size_then(src, pos + 20, name, ty, fetch(src, pos + 20, 4)));
    assert(exr_size(src, pos + 20, name, ty) == exr_box(src, pos + 24));
    lemma_exr_window(bytes, f, g, pos + 24);
}

/// OpenEXR: any other attribute at `pos` (a non-empty name, a type name, a 32-bit
/// little-endian value size, the value) is skipped whole, and the header is read
/// on from the next attribute.
pub proof fn exr_skip_attribute_law(
    bytes: Seq<u8>,
    f: spec_fn(u32) -> u64,
    g: spec_fn(u64) -> u64,
    pos: int,
    name: Seq<u8>,
    ty: Seq<u8>,
)
    requires
        holds_c_string(bytes, pos, name),
        name.len() >= 1,
        name != attr_display_window(),
        holds_c_string(bytes, pos + name.len() + 1, ty),
        pos + name.len() + ty.len() + 6 <= bytes.len(),
        pos + name.len() + ty.len() + 6 + word_le(bytes, pos + name.len() + ty.len() + 2) <= SEEK_LIMIT,
    ensures
        exr_name(file_source(bytes, f, g), pos, seq![]) == exr_name(
            file_source(bytes, f, g),
            pos + name.len() + ty.len() + 6 + word_le(bytes, pos + name.len() + ty.len() + 2),
            seq![],
        ),
{
    let src = file_source(bytes, f, g);
    let at = pos + name.len() + ty.len() + 2;
    lemma_exr_name_run(bytes, f, g, pos, name, 0);
    assert(name.subrange(0, 0) =~= seq![]);
    lemma_exr_type_run(bytes, f, g, pos + name.len() + 1, name, ty, 0);
    assert(ty.subrange(0, 0) =~= seq![]);
    lemma_file_fetch(bytes, f, g, at, 4);
    let sz = bytes.subrange(at, at + 4);
    assert(le32(sz, 0) == word_le(bytes, at));
    assert(exr_size(src, at, name, ty) == exr_size_then(src, at, name, ty, fetch(src, at, 4)));
}

/// TIFF: a directory entry whose tag is neither ImageWidth (256) nor ImageLength
/// (257) is passed over, whatever else it holds; a walk past the last entry ends
/// without a size.
pub proof fn tiff_other_tag_law(bytes: Seq<u8>, f: spec_fn(u32) -> u64, g: spec_fn(u64) -> u64, t: TiffWalk)
    requires
        t.entry_pos() + 2 <= bytes.len(),
        t.entry_pos() <= u32::MAX,
    ensures
        t.index < t.count && half(t.big, bytes, t.entry_pos()) != 256 && half(t.big, bytes, t.entry_pos()) != 257
            ==> tiff_entries(file_source(bytes, f, g), t) == tiff_entries(
            file_source(bytes, f, g),
            TiffWalk { index: (t.index + 1) as u64, ..t },
        ),
        t.index >= t.count ==> tiff_entries(file_source(bytes, f, g), t) == Err::<ImInfo, ImError>(
            ImError::ParserError(ImFormat::TIFF),
        ),
{
    let src = file_source(bytes, f, g);
    let e = t.entry_pos();
    lemma_file_fetch(bytes, f, g, e, 2);
    assert(u16_at(t.big, bytes.subrange(e, e + 2), 0) == half(t.big, bytes, e));
    if t.index < t.count {
        assert(tiff_entries(src, t) == tiff_tag_then(src, t, fetch(src, e, 2)));
        assert(tiff_advance(t, t.width, t.height) == TiffWalk { index: (t.index + 1) as u64, ..t });
    }
}

/// ICO: the size found over the first `n` entries, extended by one entry `n`:
/// it is replaced by entry `n` exactly when that entry is at least as wide and at
/// least as high.
pub open spec fn ico_extend(r: ImResult<ImInfo>, bytes: Seq<u8>, n: int) -> ImResult<ImInfo> {
    match r {
        Ok(i) => if bytes[6 + 16 * n] >= i.width && bytes[7 + 16 * n] >= i.height {
            Ok(ImInfo { format: i.format, width: bytes[6 + 16 * n] as u64, height: bytes[7 + 16 * n] as u64 })
        } else {
            Ok(i)
        },
        Err(e) => Err(e),
    }
}

proof fn lemma_ico_append(bytes: Seq<u8>, f: spec_fn(u32) -> u64, g: spec_fn(u64) -> u64, n: int, i: int, w: int, h: int)
    requires
        0 <= i <= n,
        n + 1 <= 0xffff,
        6 + 16 * (n + 1) <= bytes.len(),
        0 <= w <= 0xff,
        0 <= h <= 0xff,
    ensures
        ico_entries(file_source(bytes, f, g), n + 1, i, w, h) == ico_extend(
            ico_entries(file_source(bytes, f, g), n, i, w, h),
            bytes,
            n,
        ),
    decreases n - i,
{
    let src = file_source(bytes, f, g);
    lemma_file_fetch(bytes, f, g, 6 + 16 * i, 16);
    let e = bytes.subrange(6 + 16 * i, 6 + 16 * i + 16);
    assert(e[0] == bytes[6 + 16 * i] && e[1] == bytes[7 + 16 * i]);
    assert(ico_entries(src, n + 1, i, w, h) == ico_entry_then(src, n + 1, i, w, h, fetch(src, 6 + 16 * i, 16)));
    if i < n {
        assert(ico_entries(src, n, i, w, h) == ico_entry_then(src, n, i, w, h, fetch(src, 6 + 16 * i, 16)));
        lemma_ico_append(bytes, f, g, n, i + 1, bytes[6 + 16 * i] as int, bytes[7 + 16 * i] as int);
        lemma_ico_append(bytes, f, g, n, i + 1, w, h);
    } else {
        let ew = bytes[6 + 16 * n] as int;
        let eh = bytes[7 + 16 * n] as int;
        assert(ico_entries(src, n + 1, n + 1, ew, eh) == info(ImFormat::ICO, ew, eh));
        assert(ico_entries(src, n + 1, n + 1, w, h) == info(ImFormat::ICO, w, h));
    }
}

/// ICO: the size over a directory of `n + 1` entries is the size over its first
/// `n` entries, replaced by the last entry exactly when that entry is at least as
/// wide and at least as high (so among equal candidates the later one counts).
pub proof fn ico_last_entry_law(bytes: Seq<u8>, f: spec_fn(u32) -> u64, g: spec_fn(u64) -> u64, n: int)
    requires
        0 <= n,
        n + 1 <= 0xffff,
        6 + 16 * (n + 1) <= bytes.len(),
    ensures
        ico_entries(file_source(bytes, f, g), n + 1, 0, 0, 0) == ico_extend(
            ico_entries(file_source(bytes, f, g), n, 0, 0, 0),
            bytes,
            n,
        ),
{
    lemma_ico_append(bytes, f, g, n, 0, 0, 0);
}

} // verus!
