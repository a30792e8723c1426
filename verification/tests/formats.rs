use imsz::protocol::{Reply, Request, Step};
use imsz::scanner::Scanner;
use imsz::{ImError, ImFormat, ImInfo, ImResult};

/// Runs the scanner over an in-memory file, answering each request from `data`.
/// Returns the result and the requests made.
fn scan_logged(data: &[u8]) -> (ImResult<ImInfo>, Vec<Request>) {
    let head = &data[..data.len().min(30)];
    let (mut scanner, mut step) = Scanner::start(head);
    let mut log = Vec::new();
    loop {
        match step {
            Step::Done(result) => return (result, log),
            Step::Need(request) => {
                log.push(request);
                let reply = match request {
                    Request::ReadAt { pos, len } => {
                        let pos = pos as usize;
                        if pos.checked_add(len).map_or(false, |end| end <= data.len()) {
                            Reply::Bytes(data[pos..pos + len].to_vec())
                        } else {
                            Reply::Failed
                        }
                    }
                    Request::F32AsU64(bits) => Reply::Value(f32::from_bits(bits) as u64),
                    Request::F64AsU64(bits) => Reply::Value(f64::from_bits(bits) as u64),
                };
                step = scanner.resume(reply);
            }
        }
    }
}

fn scan(data: &[u8]) -> ImResult<ImInfo> {
    scan_logged(data).0
}

fn expect_size(data: &[u8], format: ImFormat, width: u64, height: u64) {
    match scan(data) {
        Ok(info) => {
            assert_eq!(info.format, format);
            assert_eq!(info.width, width);
            assert_eq!(info.height, height);
        }
        Err(error) => panic!("{}", error.message()),
    }
}

fn expect_parser_error(data: &[u8], format: ImFormat) {
    match scan(data) {
        Err(ImError::ParserError(f)) => assert_eq!(f, format),
        other => panic!("expected a parser error, got {:?}", other),
    }
}

fn be32(v: u32) -> [u8; 4] {
    v.to_be_bytes()
}

fn le32(v: u32) -> [u8; 4] {
    v.to_le_bytes()
}

// ---- files, each 32 x 16 ----

fn gif_file() -> Vec<u8> {
    let mut d = b"GIF89a".to_vec();
    d.extend_from_slice(&[32, 0, 16, 0, 0xf7, 0, 0]);
    d.extend_from_slice(&[0; 20]);
    d
}

fn png_file() -> Vec<u8> {
    let mut d = b"\x89PNG\r\n\x1a\n".to_vec();
    d.extend_from_slice(&be32(13));
    d.extend_from_slice(b"IHDR");
    d.extend_from_slice(&be32(32));
    d.extend_from_slice(&be32(16));
    d.extend_from_slice(&[8, 6, 0, 0, 0]);
    d
}

fn bmp_file(height: i32) -> Vec<u8> {
    let mut d = b"BM".to_vec();
    d.extend_from_slice(&le32(2102));
    d.extend_from_slice(&[0, 0, 0, 0]);
    d.extend_from_slice(&le32(54));
    d.extend_from_slice(&le32(40));
    d.extend_from_slice(&32i32.to_le_bytes());
    d.extend_from_slice(&height.to_le_bytes());
    d.extend_from_slice(&[1, 0, 32, 0]);
    d
}

fn jpeg_file() -> Vec<u8> {
    let mut d = vec![0xff, 0xd8, 0xff, 0xe0, 0x00, 0x10];
    d.extend_from_slice(b"JFIF\0\x01\x01\0\0\x01\0\x01\0\0");
    d.extend_from_slice(&[0xff, 0xdb, 0x00, 0x04, 0x00, 0x00]);
    d.extend_from_slice(&[0xff, 0xff, 0xc0, 0x00, 0x11, 0x08, 0x00, 0x10, 0x00, 0x20, 0x03]);
    d.extend_from_slice(&[0; 16]);
    d
}

fn webp_header(chunk: &[u8; 4]) -> Vec<u8> {
    let mut d = b"RIFF".to_vec();
    d.extend_from_slice(&le32(100));
    d.extend_from_slice(b"WEBP");
    d.extend_from_slice(chunk);
    d.extend_from_slice(&le32(80));
    d
}

fn webp_lossless_file() -> Vec<u8> {
    let mut d = webp_header(b"VP8L");
    // signature byte, then 14 bits of width - 1 and 14 bits of height - 1
    d.extend_from_slice(&[0x2f, 31, 0xc0, 3, 0]);
    d.extend_from_slice(&[0; 20]);
    d
}

fn webp_lossy_file() -> Vec<u8> {
    let mut d = webp_header(b"VP8 ");
    d.extend_from_slice(&[0x30, 0x01, 0x00, 0x9d, 0x01, 0x2a, 32, 0, 16, 0]);
    d.extend_from_slice(&[0; 10]);
    d
}

fn webp_extended_file() -> Vec<u8> {
    let mut d = webp_header(b"VP8X");
    d.extend_from_slice(&[0x10, 0, 0, 0, 31, 0, 0, 15, 0, 0]);
    d.extend_from_slice(&[0; 10]);
    d
}

fn avif_file() -> Vec<u8> {
    let mut d = Vec::new();
    // ftyp
    d.extend_from_slice(&be32(20));
    d.extend_from_slice(b"ftypavif");
    d.extend_from_slice(&be32(0));
    d.extend_from_slice(b"mif1");
    // meta (full box) holding hdlr and iprp
    d.extend_from_slice(&be32(72));
    d.extend_from_slice(b"meta");
    d.extend_from_slice(&[0, 0, 0, 0]);
    d.extend_from_slice(&be32(12));
    d.extend_from_slice(b"hdlr");
    d.extend_from_slice(&[0, 0, 0, 0]);
    d.extend_from_slice(&be32(48));
    d.extend_from_slice(b"iprp");
    d.extend_from_slice(&be32(40));
    d.extend_from_slice(b"ipco");
    d.extend_from_slice(&be32(12));
    d.extend_from_slice(b"pixi");
    d.extend_from_slice(&[0, 0, 0, 0]);
    d.extend_from_slice(&be32(20));
    d.extend_from_slice(b"ispe");
    d.extend_from_slice(&[0, 0, 0, 0]);
    d.extend_from_slice(&be32(32));
    d.extend_from_slice(&be32(16));
    d
}

fn tiff_entry(big: bool, tag: u16, ftype: u16, value: [u8; 4]) -> Vec<u8> {
    let mut d = Vec::new();
    if big {
        d.extend_from_slice(&tag.to_be_bytes());
        d.extend_from_slice(&ftype.to_be_bytes());
        d.extend_from_slice(&1u32.to_be_bytes());
    } else {
        d.extend_from_slice(&tag.to_le_bytes());
        d.extend_from_slice(&ftype.to_le_bytes());
        d.extend_from_slice(&1u32.to_le_bytes());
    }
    d.extend_from_slice(&value);
    d
}

fn tiff_le_file() -> Vec<u8> {
    let mut d = b"II*\0".to_vec();
    d.extend_from_slice(&le32(8));
    d.extend_from_slice(&3u16.to_le_bytes());
    d.extend_from_slice(&tiff_entry(false, 254, 4, le32(0)));
    d.extend_from_slice(&tiff_entry(false, 256, 3, [32, 0, 0, 0]));
    d.extend_from_slice(&tiff_entry(false, 257, 4, le32(16)));
    d.extend_from_slice(&le32(0));
    d
}

/// Big endian; the height is a rational, the width a float.
fn tiff_be_file() -> Vec<u8> {
    let mut d = b"MM\0*".to_vec();
    d.extend_from_slice(&be32(8));
    d.extend_from_slice(&2u16.to_be_bytes());
    d.extend_from_slice(&tiff_entry(true, 257, 5, be32(48)));
    d.extend_from_slice(&tiff_entry(true, 256, 11, 32.0f32.to_be_bytes()));
    d.extend_from_slice(&be32(0));
    d
}

fn qoi_file() -> Vec<u8> {
    let mut d = b"qoif".to_vec();
    d.extend_from_slice(&be32(32));
    d.extend_from_slice(&be32(16));
    d.extend_from_slice(&[4, 0]);
    d.extend_from_slice(&[0; 8]);
    d
}

fn psd_file() -> Vec<u8> {
    let mut d = b"8BPS\0\x01\0\0\0\0\0\0".to_vec();
    d.extend_from_slice(&[0, 3]);
    d.extend_from_slice(&be32(16));
    d.extend_from_slice(&be32(32));
    d.extend_from_slice(&[0, 8, 0, 3]);
    d
}

fn xcf_file() -> Vec<u8> {
    let mut d = b"gimp xcf v011\0".to_vec();
    d.extend_from_slice(&be32(32));
    d.extend_from_slice(&be32(16));
    d.extend_from_slice(&be32(0));
    d
}

fn ico_file() -> Vec<u8> {
    let mut d = vec![0, 0, 1, 0, 3, 0];
    let entry = |w: u8, h: u8| {
        let mut e = vec![w, h];
        e.extend_from_slice(&[0; 14]);
        e
    };
    d.extend_from_slice(&entry(16, 8));
    d.extend_from_slice(&entry(32, 16));
    d.extend_from_slice(&entry(24, 24));
    d
}

fn exr_attr(name: &str, ty: &str, value: &[u8]) -> Vec<u8> {
    let mut d = name.as_bytes().to_vec();
    d.push(0);
    d.extend_from_slice(ty.as_bytes());
    d.push(0);
    d.extend_from_slice(&(value.len() as u32).to_le_bytes());
    d.extend_from_slice(value);
    d
}

fn window(x1: i32, y1: i32, x2: i32, y2: i32) -> Vec<u8> {
    let mut v = Vec::new();
    for x in [x1, y1, x2, y2] {
        v.extend_from_slice(&x.to_le_bytes());
    }
    v
}

fn exr_file(display: &[u8]) -> Vec<u8> {
    let mut d = vec![0x76, 0x2f, 0x31, 0x01, 0x02, 0, 0, 0];
    d.extend_from_slice(&exr_attr("channels", "chlist", &[0x52, 0, 1, 0, 0, 0, 0, 0, 0, 0, 1, 0, 0, 0, 1, 0, 0, 0, 0]));
    d.extend_from_slice(&exr_attr("compression", "compression", &[0]));
    d.extend_from_slice(&exr_attr("dataWindow", "box2i", &window(0, 0, 31, 15)));
    d.extend_from_slice(&exr_attr("displayWindow", "box2i", display));
    d.push(0);
    d
}

// ---- one test per format ----

#[test]
fn image_gif() {
    expect_size(&gif_file(), ImFormat::GIF, 32, 16);
}

#[test]
fn image_png() {
    expect_size(&png_file(), ImFormat::PNG, 32, 16);
}

#[test]
fn image_bmp() {
    expect_size(&bmp_file(16), ImFormat::BMP, 32, 16);
}

#[test]
fn image_jpeg() {
    expect_size(&jpeg_file(), ImFormat::JPEG, 32, 16);
}

#[test]
fn image_lossless_webp() {
    expect_size(&webp_lossless_file(), ImFormat::WEBP, 32, 16);
}

#[test]
fn image_lossy_webp() {
    expect_size(&webp_lossy_file(), ImFormat::WEBP, 32, 16);
}

#[test]
fn image_lossless_vp8x_webp() {
    expect_size(&webp_extended_file(), ImFormat::WEBP, 32, 16);
}

#[test]
fn image_lossy_vp8x_webp() {
    // an extended file whose image is lossy: the canvas size sits in the VP8X chunk
    let mut d = webp_extended_file();
    d.extend_from_slice(b"VP8 ");
    d.extend_from_slice(&[0; 20]);
    expect_size(&d, ImFormat::WEBP, 32, 16);
}

#[test]
fn image_avif() {
    expect_size(&avif_file(), ImFormat::AVIF, 32, 16);
}

#[test]
fn image_tiff() {
    expect_size(&tiff_le_file(), ImFormat::TIFF, 32, 16);
}

#[test]
fn image_tiff_big_endian_float_and_rational() {
    // the rational is read in place, eight bytes from the entry's value field on, so
    // its denominator is the next entry's tag and type: 48 / (256 << 16 | 11) is 0
    expect_size(&tiff_be_file(), ImFormat::TIFF, 32, 0);
}

#[test]
fn image_qoi() {
    expect_size(&qoi_file(), ImFormat::QOI, 32, 16);
}

#[test]
fn image_psd() {
    expect_size(&psd_file(), ImFormat::PSD, 32, 16);
}

#[test]
fn image_xcf() {
    expect_size(&xcf_file(), ImFormat::XCF, 32, 16);
}

#[test]
fn image_ico() {
    expect_size(&ico_file(), ImFormat::ICO, 32, 16);
}

#[test]
fn image_exr() {
    expect_size(&exr_file(&window(0, 0, 31, 15)), ImFormat::OpenEXR, 32, 16);
}

// ---- edge cases and errors ----

#[test]
fn unknown_format() {
    match scan(b"hello, world") {
        Err(ImError::UnknownFormat) => {}
        other => panic!("{:?}", other),
    }
}

#[test]
fn empty_file_is_unknown() {
    match scan(b"") {
        Err(ImError::UnknownFormat) => {}
        other => panic!("{:?}", other),
    }
}

#[test]
fn gif_too_short() {
    expect_parser_error(b"GIF87a\x20\x00", ImFormat::GIF);
}

#[test]
fn png_without_ihdr_tag() {
    let mut d = b"\x89PNG\r\n\x1a\n".to_vec();
    d.extend_from_slice(&be32(32));
    d.extend_from_slice(&be32(16));
    expect_size(&d, ImFormat::PNG, 32, 16);
}

#[test]
fn png_ihdr_too_short() {
    let d = png_file();
    expect_parser_error(&d[..20], ImFormat::PNG);
}

#[test]
fn bmp_top_down_height_is_positive() {
    expect_size(&bmp_file(-16), ImFormat::BMP, 32, 16);
}

#[test]
fn bmp_core_header() {
    let mut d = b"BM".to_vec();
    d.extend_from_slice(&le32(100));
    d.extend_from_slice(&[0, 0, 0, 0]);
    d.extend_from_slice(&le32(26));
    d.extend_from_slice(&le32(12));
    d.extend_from_slice(&[32, 0, 16, 0, 1, 0, 24, 0]);
    expect_size(&d, ImFormat::BMP, 32, 16);
}

#[test]
fn bmp_negative_width_wraps() {
    let mut d = bmp_file(16);
    d[18..22].copy_from_slice(&(-2i32).to_le_bytes());
    expect_size(&d, ImFormat::BMP, (-2i64) as u64, 16);
}

#[test]
fn bmp_too_short() {
    let d = bmp_file(16);
    expect_parser_error(&d[..20], ImFormat::BMP);
}

#[test]
fn jpeg_truncated() {
    let d = jpeg_file();
    expect_parser_error(&d[..30], ImFormat::JPEG);
}

#[test]
fn jpeg_start_of_scan_without_frame() {
    // a segment, then the start-of-scan marker before any frame header
    expect_parser_error(&[0xff, 0xd8, 0xff, 0xe0, 0x00, 0x02, 0xda, 0x00], ImFormat::JPEG);
}

#[test]
fn jpeg_segment_length_below_two() {
    expect_parser_error(&[0xff, 0xd8, 0xff, 0xe0, 0x00, 0x01, 0, 0, 0, 0], ImFormat::JPEG);
}

#[test]
fn jpeg_reads_one_byte_at_a_time_while_scanning() {
    let (result, log) = scan_logged(&jpeg_file());
    assert!(result.is_ok());
    assert_eq!(log[0], Request::ReadAt { pos: 3, len: 1 });
    assert_eq!(log[1], Request::ReadAt { pos: 4, len: 2 });
    assert_eq!(log[2], Request::ReadAt { pos: 20, len: 1 });
}

#[test]
fn webp_lossy_bad_start_code() {
    let mut d = webp_lossy_file();
    d[23] = 0;
    expect_parser_error(&d, ImFormat::WEBP);
}

#[test]
fn webp_unknown_chunk() {
    expect_parser_error(&webp_header(b"ABCD").into_iter().chain([0u8; 20]).collect::<Vec<_>>(), ImFormat::WEBP);
}

#[test]
fn avif_ftyp_too_small() {
    let mut d = avif_file();
    d[0..4].copy_from_slice(&be32(8));
    expect_parser_error(&d, ImFormat::AVIF);
}

#[test]
fn avif_missing_ispe() {
    let mut d = avif_file();
    let n = d.len();
    d[n - 16..n - 12].copy_from_slice(b"xxxx");
    expect_parser_error(&d, ImFormat::AVIF);
}

#[test]
fn tiff_zero_denominator() {
    let mut d = b"II*\0".to_vec();
    d.extend_from_slice(&le32(8));
    d.extend_from_slice(&1u16.to_le_bytes());
    d.extend_from_slice(&tiff_entry(false, 256, 5, le32(8)));
    d.extend_from_slice(&[0; 12]);
    expect_parser_error(&d, ImFormat::TIFF);
}

#[test]
fn tiff_signed_negative_is_zero() {
    let mut d = b"II*\0".to_vec();
    d.extend_from_slice(&le32(8));
    d.extend_from_slice(&2u16.to_le_bytes());
    d.extend_from_slice(&tiff_entry(false, 256, 9, (-5i32).to_le_bytes()));
    d.extend_from_slice(&tiff_entry(false, 257, 8, [16, 0, 0, 0]));
    d.extend_from_slice(&le32(0));
    expect_size(&d, ImFormat::TIFF, 0, 16);
}

#[test]
fn tiff_signed_rational_truncates() {
    let mut d = b"II*\0".to_vec();
    d.extend_from_slice(&le32(8));
    d.extend_from_slice(&2u16.to_le_bytes());
    d.extend_from_slice(&tiff_entry(false, 256, 10, (-65i32).to_le_bytes()));
    d.extend_from_slice(&tiff_entry(false, 257, 3, [16, 0, 0, 0]));
    d.extend_from_slice(&le32(0));
    // the rational of the first entry is -65 / (257 | 3 << 16) in two's complement terms
    expect_size(&d, ImFormat::TIFF, 0, 16);
}

#[test]
fn tiff_missing_height() {
    let mut d = b"II*\0".to_vec();
    d.extend_from_slice(&le32(8));
    d.extend_from_slice(&1u16.to_le_bytes());
    d.extend_from_slice(&tiff_entry(false, 256, 3, [32, 0, 0, 0]));
    d.extend_from_slice(&le32(0));
    expect_parser_error(&d, ImFormat::TIFF);
}

#[test]
fn tiff_unknown_field_type() {
    let mut d = b"II*\0".to_vec();
    d.extend_from_slice(&le32(8));
    d.extend_from_slice(&1u16.to_le_bytes());
    d.extend_from_slice(&tiff_entry(false, 256, 13, [32, 0, 0, 0]));
    expect_parser_error(&d, ImFormat::TIFF);
}

#[test]
fn tiff_double_value() {
    let mut d = b"MM\0*".to_vec();
    d.extend_from_slice(&be32(8));
    d.extend_from_slice(&2u16.to_be_bytes());
    d.extend_from_slice(&257u16.to_be_bytes());
    d.extend_from_slice(&12u16.to_be_bytes());
    d.extend_from_slice(&be32(1));
    d.extend_from_slice(&be32(0));
    d.extend_from_slice(&tiff_entry(true, 256, 3, [0, 32, 0, 0]));
    d.extend_from_slice(&be32(0));
    // the double of the first entry spans its value and the second entry's tag and type:
    // 0x0000_0000_0100_0003 reinterpreted is a tiny subnormal, which converts to 0
    expect_size(&d, ImFormat::TIFF, 32, 0);
}

#[test]
fn ico_keeps_largest_entry() {
    expect_size(&ico_file(), ImFormat::ICO, 32, 16);
}

#[test]
fn ico_without_entries() {
    expect_size(&[0, 0, 1, 0, 0, 0], ImFormat::ICO, 0, 0);
}

#[test]
fn ico_truncated() {
    let d = ico_file();
    expect_parser_error(&d[..30], ImFormat::ICO);
}

#[test]
fn exr_empty_display_window_wraps() {
    expect_size(&exr_file(&window(10, 0, 0, 15)), ImFormat::OpenEXR, (-9i64) as u64, 16);
}

#[test]
fn exr_without_display_window() {
    let mut d = vec![0x76, 0x2f, 0x31, 0x01, 0x02, 0, 0, 0];
    d.extend_from_slice(&exr_attr("compression", "compression", &[0]));
    d.push(0);
    expect_parser_error(&d, ImFormat::OpenEXR);
}

#[test]
fn exr_display_window_of_wrong_type() {
    let mut d = vec![0x76, 0x2f, 0x31, 0x01, 0x02, 0, 0, 0];
    d.extend_from_slice(&exr_attr("displayWindow", "box2f", &window(0, 0, 31, 15)));
    d.push(0);
    expect_parser_error(&d, ImFormat::OpenEXR);
}

// ---- the scanner protocol ----

#[test]
fn preamble_formats_need_no_reads() {
    for file in [gif_file(), png_file(), bmp_file(16), qoi_file(), psd_file(), xcf_file(), webp_lossy_file()] {
        let (result, log) = scan_logged(&file);
        assert!(result.is_ok());
        assert!(log.is_empty());
    }
}

#[test]
fn read_offsets_grow() {
    let files = [jpeg_file(), avif_file(), tiff_le_file(), tiff_be_file(), ico_file(), exr_file(&window(0, 0, 31, 15))];
    for file in files {
        let (result, log) = scan_logged(&file);
        assert!(result.is_ok());
        let offsets: Vec<u64> = log
            .iter()
            .filter_map(|r| match r {
                Request::ReadAt { pos, .. } => Some(*pos),
                _ => None,
            })
            .collect();
        assert!(!offsets.is_empty());
        assert!(offsets.windows(2).all(|w| w[0] < w[1]));
    }
}

#[test]
fn only_the_first_thirty_bytes_of_the_head_count() {
    let mut d = gif_file();
    d.extend_from_slice(&[9; 40]);
    let (_, step_long) = Scanner::start(&d);
    let (_, step_short) = Scanner::start(&d[..30]);
    match (step_long, step_short) {
        (Step::Done(Ok(a)), Step::Done(Ok(b))) => assert_eq!(a, b),
        other => panic!("{:?}", other),
    }
}

#[test]
fn wrong_length_reply_counts_as_failure() {
    let (mut scanner, step) = Scanner::start(&jpeg_file()[..30]);
    assert!(matches!(step, Step::Need(Request::ReadAt { pos: 3, len: 1 })));
    match scanner.resume(Reply::Bytes(vec![1, 2])) {
        Step::Done(Err(ImError::ParserError(ImFormat::JPEG))) => {}
        other => panic!("{:?}", other),
    }
}

#[test]
fn finished_scanner_reports_unknown_format() {
    let (mut scanner, step) = Scanner::start(&gif_file());
    assert!(matches!(step, Step::Done(Ok(_))));
    assert!(matches!(scanner.resume(Reply::Failed), Step::Done(Err(ImError::UnknownFormat))));
}

// ---- formats and errors ----

#[test]
fn format_names_and_codes() {
    let all = [
        ImFormat::GIF,
        ImFormat::PNG,
        ImFormat::BMP,
        ImFormat::JPEG,
        ImFormat::WEBP,
        ImFormat::QOI,
        ImFormat::PSD,
        ImFormat::XCF,
        ImFormat::ICO,
        ImFormat::AVIF,
        ImFormat::TIFF,
        ImFormat::OpenEXR,
    ];
    let names = ["gif", "png", "bmp", "jpeg", "webp", "qoi", "psd", "xcf", "ico", "avif", "tiff", "OpenEXR"];
    for (i, f) in all.iter().enumerate() {
        assert_eq!(f.name(), names[i]);
        assert_eq!(f.code(), i as u32 + 1);
    }
}

#[test]
fn error_messages() {
    assert_eq!(ImError::UnknownFormat.message(), "Unknown Format");
    assert_eq!(ImError::ParserError(ImFormat::PNG).message(), "Error parsing png image");
    assert_eq!(ImError::ParserError(ImFormat::OpenEXR).message(), "Error parsing OpenEXR image");
    let io = std::io::Error::new(std::io::ErrorKind::Other, "disk on fire");
    let error: ImError = io.into();
    assert_eq!(error.message(), "disk on fire");
}

#[test]
fn get_array_takes_the_first_bytes() {
    let a: [u8; 3] = match imsz::bytes::get_array(&[1, 2, 3, 4], ImFormat::GIF) {
        Ok(a) => a,
        Err(e) => panic!("{:?}", e),
    };
    assert_eq!(a, [1, 2, 3]);
}

#[test]
fn byte_order_readers() {
    let s = [0x12, 0x34, 0x56, 0x78, 0x9a, 0xbc, 0xde, 0xf0];
    assert_eq!(imsz::bytes::read_le16(&s, 0), 0x3412);
    assert_eq!(imsz::bytes::read_be16(&s, 0), 0x1234);
    assert_eq!(imsz::bytes::read_le32(&s, 0), 0x7856_3412);
    assert_eq!(imsz::bytes::read_be32(&s, 4), 0x9abc_def0);
    assert_eq!(imsz::bytes::read_u64(true, &s, 0), 0x1234_5678_9abc_def0);
    assert_eq!(imsz::bytes::read_u64(false, &s, 0), 0xf0de_bc9a_7856_3412);
}
