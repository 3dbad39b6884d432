use tiff::decoder::{CompressionMethod, DecodingBuffer, DecodingResult, TIFFDecoder};
use tiff::error::{ColorType, ImageError};
use tiff::ifd::{Tag, Value};
use tiff::lzw::lzw_decompress;
use tiff::packbits::packbits_decompress;
use tiff::stream::ByteOrder;

fn push_u16_le(v: &mut Vec<u8>, x: u16) {
    v.push((x & 0xff) as u8);
    v.push((x >> 8) as u8);
}

fn push_u32_le(v: &mut Vec<u8>, x: u32) {
    v.push((x & 0xff) as u8);
    v.push(((x >> 8) & 0xff) as u8);
    v.push(((x >> 16) & 0xff) as u8);
    v.push(((x >> 24) & 0xff) as u8);
}

fn push_u16_be(v: &mut Vec<u8>, x: u16) {
    v.push((x >> 8) as u8);
    v.push((x & 0xff) as u8);
}

fn push_u32_be(v: &mut Vec<u8>, x: u32) {
    v.push(((x >> 24) & 0xff) as u8);
    v.push(((x >> 16) & 0xff) as u8);
    v.push(((x >> 8) & 0xff) as u8);
    v.push((x & 0xff) as u8);
}

/// A little-endian TIFF whose strip data sits right after the header and
/// whose single IFD follows it. Entries are (tag, type, count, value-field).
fn tiff_le(entries: &[(u16, u16, u32, u32)], payload: &[u8], next_ifd: u32) -> Vec<u8> {
    let ifd_off = 8 + payload.len() as u32;
    let mut v = Vec::new();
    v.push(0x49);
    v.push(0x49);
    push_u16_le(&mut v, 42);
    push_u32_le(&mut v, ifd_off);
    v.extend_from_slice(payload);
    push_u16_le(&mut v, entries.len() as u16);
    for &(tag, typ, cnt, val) in entries {
        push_u16_le(&mut v, tag);
        push_u16_le(&mut v, typ);
        push_u32_le(&mut v, cnt);
        push_u32_le(&mut v, val);
    }
    push_u32_le(&mut v, next_ifd);
    v
}

/// A single-strip grayscale 2x2 little-endian TIFF with 8 bits per sample.
fn tiff_gray_2x2(photometric: u16, compression: u16, strip: &[u8]) -> Vec<u8> {
    let entries = [
        (256u16, 3u16, 1u32, 2u32),
        (257, 3, 1, 2),
        (258, 3, 1, 8),
        (259, 3, 1, compression as u32),
        (262, 3, 1, photometric as u32),
        (273, 4, 1, 8),
        (277, 3, 1, 1),
        (279, 4, 1, strip.len() as u32),
    ];
    tiff_le(&entries, strip, 0)
}

/// A little-endian TIFF with RGB photometric interpretation and the given
/// bits-per-sample values stored out of line at offset 8.
fn tiff_rgb(bits: &[u16]) -> Vec<u8> {
    let mut payload = Vec::new();
    for &b in bits {
        push_u16_le(&mut payload, b);
    }
    let entries = [
        (256u16, 3u16, 1u32, 2u32),
        (257, 3, 1, 2),
        (258, 3, bits.len() as u32, 8),
        (262, 3, 1, 2),
        (277, 3, 1, bits.len() as u32),
    ];
    tiff_le(&entries, &payload, 0)
}

/// Packs (code, width) pairs most-significant-bit first into bytes.
fn pack_codes(codes: &[(u16, usize)]) -> Vec<u8> {
    let mut bits = Vec::new();
    for &(code, width) in codes {
        for i in 0..width {
            bits.push((code >> (width - 1 - i)) & 1);
        }
    }
    while bits.len() % 8 != 0 {
        bits.push(0);
    }
    let mut out = Vec::new();
    for chunk in bits.chunks(8) {
        let mut b = 0u8;
        for (i, &bit) in chunk.iter().enumerate() {
            b |= (bit as u8) << (7 - i);
        }
        out.push(b);
    }
    out
}

#[test]
fn byte_order_little_endian() {
    let data = tiff_gray_2x2(1, 1, &[1, 2, 3, 4]);
    let dec = TIFFDecoder::new(data).unwrap();
    assert_eq!(dec.byte_order(), ByteOrder::LittleEndian);
}

#[test]
fn byte_order_big_endian() {
    let mut v = Vec::new();
    v.push(0x4D);
    v.push(0x4D);
    push_u16_be(&mut v, 42);
    push_u32_be(&mut v, 12);
    v.extend_from_slice(&[9, 8, 7, 6]);
    push_u16_be(&mut v, 8);
    let entries = [
        (256u16, 3u16, 1u32, 2u32),
        (257, 3, 1, 2),
        (258, 3, 1, 8),
        (259, 3, 1, 1),
        (262, 3, 1, 1),
        (273, 4, 1, 8),
        (277, 3, 1, 1),
        (279, 4, 1, 4),
    ];
    for &(tag, typ, cnt, val) in &entries {
        push_u16_be(&mut v, tag);
        push_u16_be(&mut v, typ);
        push_u32_be(&mut v, cnt);
        if typ == 3 {
            // inline short: the value occupies the first two bytes
            push_u16_be(&mut v, val as u16);
            push_u16_be(&mut v, 0);
        } else {
            push_u32_be(&mut v, val);
        }
    }
    push_u32_be(&mut v, 0);
    let mut dec = TIFFDecoder::new(v).unwrap();
    assert_eq!(dec.byte_order(), ByteOrder::BigEndian);
    assert_eq!(dec.width, 2);
    assert_eq!(dec.height, 2);
    let mut buf = DecodingBuffer::U8(vec![0; 4]);
    let n = dec.expand_strip(&mut buf, 8, 4, 4).unwrap();
    assert_eq!(n, 4);
    match buf {
        DecodingBuffer::U8(v) => assert_eq!(v, vec![9, 8, 7, 6]),
        _ => panic!("expected a byte buffer"),
    }
}

#[test]
fn bad_magic_fails_format() {
    let data = vec![0x4A, 0x4A, 42, 0, 8, 0, 0, 0];
    match TIFFDecoder::new(data) {
        Err(ImageError::FormatError(_)) => {}
        other => panic!("expected a format error, got {:?}", other.is_ok()),
    }
}

#[test]
fn bad_version_fails_format_le() {
    let mut data = tiff_gray_2x2(1, 1, &[1, 2, 3, 4]);
    data[2] = 43;
    match TIFFDecoder::new(data) {
        Err(ImageError::FormatError(_)) => {}
        _ => panic!("expected a format error"),
    }
}

#[test]
fn bad_version_fails_format_be() {
    let data = vec![0x4D, 0x4D, 0, 43, 0, 0, 0, 8];
    match TIFFDecoder::new(data) {
        Err(ImageError::FormatError(_)) => {}
        _ => panic!("expected a format error"),
    }
}

#[test]
fn truncated_header_io_error() {
    match TIFFDecoder::new(vec![0x49, 0x49, 42]) {
        Err(ImageError::IoError) => {}
        _ => panic!("expected an input error"),
    }
}

#[test]
fn colortype_rgb8() {
    let dec = TIFFDecoder::new(tiff_rgb(&[8, 8, 8])).unwrap();
    assert_eq!(dec.colortype().unwrap(), ColorType::RGB(8));
}

#[test]
fn colortype_rgba8() {
    let dec = TIFFDecoder::new(tiff_rgb(&[8, 8, 8, 8])).unwrap();
    assert_eq!(dec.colortype().unwrap(), ColorType::RGBA(8));
}

#[test]
fn colortype_rgb16() {
    let dec = TIFFDecoder::new(tiff_rgb(&[16, 16, 16])).unwrap();
    assert_eq!(dec.colortype().unwrap(), ColorType::RGB(16));
}

#[test]
fn colortype_gray8() {
    let dec = TIFFDecoder::new(tiff_gray_2x2(1, 1, &[1, 2, 3, 4])).unwrap();
    assert_eq!(dec.colortype().unwrap(), ColorType::Gray(8));
}

#[test]
fn colortype_rgb12_unsupported() {
    let dec = TIFFDecoder::new(tiff_rgb(&[12, 12, 12])).unwrap();
    match dec.colortype() {
        Err(ImageError::UnsupportedError(_)) => {}
        _ => panic!("expected an unsupported-type error"),
    }
}

#[test]
fn packbits_literals() {
    let out = packbits_decompress(&vec![0x02, 0xAA, 0xBB, 0xCC], 100).unwrap();
    assert_eq!(out, vec![0xAA, 0xBB, 0xCC]);
}

#[test]
fn packbits_repeat() {
    let out = packbits_decompress(&vec![0xFE, 0x7F], 100).unwrap();
    assert_eq!(out, vec![0x7F, 0x7F, 0x7F]);
}

#[test]
fn packbits_noop() {
    let out = packbits_decompress(&vec![0x80], 100).unwrap();
    assert_eq!(out, Vec::<u8>::new());
}

#[test]
fn packbits_truncated_fails() {
    match packbits_decompress(&vec![0x05, 0xAA], 100) {
        Err(ImageError::FormatError(_)) => {}
        _ => panic!("expected a format error"),
    }
}

#[test]
fn packbits_bound_exceeded_fails() {
    match packbits_decompress(&vec![0x02, 0xAA, 0xBB, 0xCC], 2) {
        Err(ImageError::FormatError(_)) => {}
        _ => panic!("expected a format error"),
    }
}

#[test]
fn lzw_clear_only_empty() {
    let data = pack_codes(&[(256, 9), (257, 9)]);
    let out = lzw_decompress(&data, 100).unwrap();
    assert_eq!(out, Vec::<u8>::new());
}

#[test]
fn lzw_literals_roundtrip() {
    let data = pack_codes(&[(256, 9), (65, 9), (66, 9), (67, 9), (257, 9)]);
    let out = lzw_decompress(&data, 100).unwrap();
    assert_eq!(out, vec![65, 66, 67]);
}

#[test]
fn lzw_table_entry_reuse() {
    // after AB the table holds code 258 = "AB"; using it yields ABAB
    let data = pack_codes(&[(256, 9), (65, 9), (66, 9), (258, 9), (257, 9)]);
    let out = lzw_decompress(&data, 100).unwrap();
    assert_eq!(out, vec![65, 66, 65, 66]);
}

#[test]
fn lzw_bound_exceeded_fails() {
    let data = pack_codes(&[(256, 9), (65, 9), (66, 9), (67, 9), (257, 9)]);
    match lzw_decompress(&data, 2) {
        Err(ImageError::FormatError(_)) => {}
        _ => panic!("expected a format error"),
    }
}

#[test]
fn lzw_truncated_fails() {
    let data = pack_codes(&[(256, 9), (65, 9)]);
    match lzw_decompress(&data, 100) {
        Err(ImageError::FormatError(_)) => {}
        _ => panic!("expected a format error"),
    }
}

#[test]
fn predictor_row_reconstructs() {
    let out = tiff::decoder::rev_hpredict(
        DecodingResult::U8(vec![10, 5, 5]),
        (3, 1),
        ColorType::Gray(8),
    )
    .unwrap();
    match out {
        DecodingResult::U8(v) => assert_eq!(v, vec![10, 15, 20]),
        _ => panic!("expected bytes"),
    }
}

#[test]
fn predictor_wraps() {
    let out = tiff::decoder::rev_hpredict(
        DecodingResult::U8(vec![250, 10]),
        (2, 1),
        ColorType::Gray(8),
    )
    .unwrap();
    match out {
        DecodingResult::U8(v) => assert_eq!(v, vec![250, 4]),
        _ => panic!("expected bytes"),
    }
}

#[test]
fn predictor_u16_rows() {
    let out = tiff::decoder::rev_hpredict(
        DecodingResult::U16(vec![10, 5, 100, 65535]),
        (2, 2),
        ColorType::Gray(16),
    )
    .unwrap();
    match out {
        DecodingResult::U16(v) => assert_eq!(v, vec![10, 15, 100, 99]),
        _ => panic!("expected words"),
    }
}

#[test]
fn predictor_rgb_per_channel() {
    let out = tiff::decoder::rev_hpredict(
        DecodingResult::U8(vec![1, 2, 3, 10, 20, 30]),
        (2, 1),
        ColorType::RGB(8),
    )
    .unwrap();
    match out {
        DecodingResult::U8(v) => assert_eq!(v, vec![1, 2, 3, 11, 22, 33]),
        _ => panic!("expected bytes"),
    }
}

#[test]
fn predictor_palette_unsupported() {
    match tiff::decoder::rev_hpredict(
        DecodingResult::U8(vec![0]),
        (1, 1),
        ColorType::Palette(8),
    ) {
        Err(ImageError::UnsupportedError(_)) => {}
        _ => panic!("expected an unsupported-type error"),
    }
}

#[test]
fn gray_2x2_black_is_zero() {
    let strip = [1u8, 2, 3, 4];
    let mut dec = TIFFDecoder::new(tiff_gray_2x2(1, 1, &strip)).unwrap();
    assert_eq!(dec.width, 2);
    assert_eq!(dec.height, 2);
    let mut buf = DecodingBuffer::U8(vec![0; 4]);
    let n = dec.expand_strip(&mut buf, 8, 4, 4).unwrap();
    assert_eq!(n, 4);
    match buf {
        DecodingBuffer::U8(v) => assert_eq!(v, vec![1, 2, 3, 4]),
        _ => panic!("expected a byte buffer"),
    }
}

#[test]
fn gray_2x2_white_is_zero_inverts() {
    let strip = [1u8, 2, 3, 4];
    let mut dec = TIFFDecoder::new(tiff_gray_2x2(0, 1, &strip)).unwrap();
    let mut buf = DecodingBuffer::U8(vec![0; 4]);
    let n = dec.expand_strip(&mut buf, 8, 4, 4).unwrap();
    assert_eq!(n, 4);
    match buf {
        DecodingBuffer::U8(v) => assert_eq!(v, vec![254, 253, 252, 251]),
        _ => panic!("expected a byte buffer"),
    }
}

#[test]
fn more_images_false_single_page() {
    let dec = TIFFDecoder::new(tiff_gray_2x2(1, 1, &[1, 2, 3, 4])).unwrap();
    assert!(!dec.more_images());
}

#[test]
fn next_image_without_pending_fails() {
    let dec = TIFFDecoder::new(tiff_gray_2x2(1, 1, &[1, 2, 3, 4])).unwrap();
    assert!(!dec.more_images());
    match dec.next_image() {
        Err(ImageError::FormatError(_)) => {}
        _ => panic!("expected a format error"),
    }
}

#[test]
fn unknown_photometric_unsupported() {
    let data = tiff_gray_2x2(9, 1, &[1, 2, 3, 4]);
    match TIFFDecoder::new(data) {
        Err(ImageError::UnsupportedError(_)) => {}
        _ => panic!("expected an unsupported-feature error"),
    }
}

#[test]
fn unknown_compression_unsupported() {
    let data = tiff_gray_2x2(1, 99, &[1, 2, 3, 4]);
    match TIFFDecoder::new(data) {
        Err(ImageError::UnsupportedError(_)) => {}
        _ => panic!("expected an unsupported-feature error"),
    }
}

#[test]
fn missing_width_fails_format() {
    let entries = [
        (257u16, 3u16, 1u32, 2u32),
        (262, 3, 1, 1),
    ];
    let data = tiff_le(&entries, &[], 0);
    match TIFFDecoder::new(data) {
        Err(ImageError::FormatError(_)) => {}
        _ => panic!("expected a format error"),
    }
}

#[test]
fn samples_two_unsupported() {
    let entries = [
        (256u16, 3u16, 1u32, 2u32),
        (257, 3, 1, 2),
        (262, 3, 1, 1),
        (277, 3, 1, 2),
    ];
    let data = tiff_le(&entries, &[], 0);
    match TIFFDecoder::new(data) {
        Err(ImageError::UnsupportedError(_)) => {}
        _ => panic!("expected an unsupported-feature error"),
    }
}

#[test]
fn expand_strip_packbits() {
    // control byte 3 copies the next four bytes literally
    let strip = [0x03u8, 1, 2, 3, 4];
    let mut dec = TIFFDecoder::new(tiff_gray_2x2(1, 0x8005, &strip)).unwrap();
    let mut buf = DecodingBuffer::U8(vec![0; 4]);
    let n = dec.expand_strip(&mut buf, 8, strip.len() as u32, 4).unwrap();
    assert_eq!(n, 4);
    match buf {
        DecodingBuffer::U8(v) => assert_eq!(v, vec![1, 2, 3, 4]),
        _ => panic!("expected a byte buffer"),
    }
}

#[test]
fn expand_strip_lzw() {
    let strip = pack_codes(&[(256, 9), (1, 9), (2, 9), (3, 9), (4, 9), (257, 9)]);
    let mut dec = TIFFDecoder::new(tiff_gray_2x2(1, 5, &strip)).unwrap();
    let mut buf = DecodingBuffer::U8(vec![0; 4]);
    let n = dec.expand_strip(&mut buf, 8, strip.len() as u32, 4).unwrap();
    assert_eq!(n, 4);
    match buf {
        DecodingBuffer::U8(v) => assert_eq!(v, vec![1, 2, 3, 4]),
        _ => panic!("expected a byte buffer"),
    }
}

#[test]
fn gray16_white_is_zero_inverts() {
    // 2x2, 16 bits per sample, little-endian words 1, 2, 3, 4
    let mut strip = Vec::new();
    for w in [1u16, 2, 3, 4] {
        push_u16_le(&mut strip, w);
    }
    let entries = [
        (256u16, 3u16, 1u32, 2u32),
        (257, 3, 1, 2),
        (258, 3, 1, 16),
        (259, 3, 1, 1),
        (262, 3, 1, 0),
        (273, 4, 1, 8),
        (277, 3, 1, 1),
        (279, 4, 1, 8),
    ];
    let data = tiff_le(&entries, &strip, 0);
    let mut dec = TIFFDecoder::new(data).unwrap();
    assert_eq!(dec.colortype().unwrap(), ColorType::Gray(16));
    let mut buf = DecodingBuffer::U16(vec![0; 4]);
    let n = dec.expand_strip(&mut buf, 8, 8, 8).unwrap();
    assert_eq!(n, 4);
    match buf {
        DecodingBuffer::U16(v) => assert_eq!(v, vec![0xfffe, 0xfffd, 0xfffc, 0xfffb]),
        _ => panic!("expected a word buffer"),
    }
}

#[test]
fn value_into_u32() {
    assert_eq!(Value::Unsigned(7).into_u32().unwrap(), 7);
}

#[test]
fn value_into_u32_rejects_vector() {
    match Value::UnsignedVec(vec![1, 2]).into_u32() {
        Err(ImageError::FormatError(_)) => {}
        _ => panic!("expected a format error"),
    }
}

#[test]
fn value_into_u32_vec() {
    assert_eq!(Value::Unsigned(7).into_u32_vec().unwrap(), vec![7]);
    assert_eq!(Value::UnsignedVec(vec![1, 2]).into_u32_vec().unwrap(), vec![1, 2]);
}

#[test]
fn value_into_u32_rejects_ascii() {
    match Value::Ascii(vec![65]).into_u32() {
        Err(ImageError::FormatError(_)) => {}
        _ => panic!("expected a format error"),
    }
}

#[test]
fn low_level_reads() {
    let data = tiff_gray_2x2(1, 1, &[1, 2, 3, 4]);
    let mut dec = TIFFDecoder::new(data).unwrap();
    dec.goto_offset(0).unwrap();
    assert_eq!(dec.read_short().unwrap(), 0x4949);
    dec.goto_offset(2).unwrap();
    assert_eq!(dec.read_short().unwrap(), 42);
    dec.goto_offset(4).unwrap();
    assert_eq!(dec.read_long().unwrap(), 12);
    dec.goto_offset(8).unwrap();
    assert_eq!(dec.read_offset().unwrap(), [1, 2, 3, 4]);
}

#[test]
fn get_tag_values() {
    let data = tiff_gray_2x2(1, 1, &[1, 2, 3, 4]);
    let mut dec = TIFFDecoder::new(data).unwrap();
    assert_eq!(dec.get_tag_u32(Tag::ImageWidth).unwrap(), 2);
    assert_eq!(dec.get_tag_u32(Tag::StripOffsets).unwrap(), 8);
    assert_eq!(dec.get_tag_u32(Tag::StripByteCounts).unwrap(), 4);
    assert_eq!(dec.find_tag_u32(Tag::RowsPerStrip).unwrap(), None);
    assert_eq!(dec.get_tag_u32_vec(Tag::BitsPerSample).unwrap(), vec![8]);
    match dec.get_tag_u32(Tag::RowsPerStrip) {
        Err(ImageError::FormatError(_)) => {}
        _ => panic!("expected a format error"),
    }
}

#[test]
fn two_pages_walk() {
    // first page at offset 8, second right after the first IFD
    let mut first = tiff_gray_2x2(1, 1, &[1, 2, 3, 4]);
    let second_off = first.len() as u32;
    // patch the first IFD's trailing next-directory offset
    let n = first.len();
    first[n - 4] = (second_off & 0xff) as u8;
    first[n - 3] = ((second_off >> 8) & 0xff) as u8;
    first[n - 2] = ((second_off >> 16) & 0xff) as u8;
    first[n - 1] = ((second_off >> 24) & 0xff) as u8;
    let entries = [
        (256u16, 3u16, 1u32, 3u32),
        (257, 3, 1, 5),
        (262, 3, 1, 1),
    ];
    push_u16_le(&mut first, entries.len() as u16);
    for &(tag, typ, cnt, val) in &entries {
        push_u16_le(&mut first, tag);
        push_u16_le(&mut first, typ);
        push_u32_le(&mut first, cnt);
        push_u32_le(&mut first, val);
    }
    push_u32_le(&mut first, 0);
    let dec = TIFFDecoder::new(first).unwrap();
    assert_eq!(dec.width, 2);
    assert!(dec.more_images());
    let dec = dec.next_image().unwrap();
    assert_eq!(dec.width, 3);
    assert_eq!(dec.height, 5);
    assert!(!dec.more_images());
}

#[test]
fn duplicate_tag_last_wins() {
    let entries = [
        (256u16, 3u16, 1u32, 7u32),
        (256, 3, 1, 2),
        (257, 3, 1, 2),
        (262, 3, 1, 1),
    ];
    let data = tiff_le(&entries, &[], 0);
    let dec = TIFFDecoder::new(data).unwrap();
    assert_eq!(dec.width, 2);
}

#[test]
fn unknown_entry_type_skipped() {
    let entries = [
        (256u16, 3u16, 1u32, 2u32),
        (256, 77, 1, 9),
        (257, 3, 1, 2),
        (262, 3, 1, 1),
    ];
    let data = tiff_le(&entries, &[], 0);
    let dec = TIFFDecoder::new(data).unwrap();
    // the record with the unrecognized type code is skipped, not inserted
    assert_eq!(dec.width, 2);
}

#[test]
fn out_of_line_value_past_end_io_error() {
    // BitsPerSample points out of line far past the end of the stream
    let entries = [
        (256u16, 3u16, 1u32, 2u32),
        (257, 3, 1, 2),
        (258, 3, 3, 10_000),
        (262, 3, 1, 2),
        (277, 3, 1, 3),
    ];
    let data = tiff_le(&entries, &[], 0);
    match TIFFDecoder::new(data) {
        Err(ImageError::IoError) => {}
        _ => panic!("expected an input error"),
    }
}

#[test]
fn huffman_strip_unsupported() {
    // compression 2 is recognized by the directory but refused at decoding
    let strip = [1u8, 2, 3, 4];
    let mut dec = TIFFDecoder::new(tiff_gray_2x2(1, 2, &strip)).unwrap();
    let mut buf = DecodingBuffer::U8(vec![0; 4]);
    match dec.expand_strip(&mut buf, 8, 4, 4) {
        Err(ImageError::UnsupportedError(_)) => {}
        _ => panic!("expected an unsupported-feature error"),
    }
}

#[test]
fn error_descriptions() {
    assert_eq!(ImageError::IoError.description(), "IO error");
    assert_eq!(
        ImageError::FormatError("x".to_owned()).description(),
        "Format error"
    );
}

#[test]
fn lzw_kwkwk_case() {
    // code 258 names the entry about to be built: prev plus its own first byte
    let data = pack_codes(&[(256, 9), (65, 9), (258, 9), (257, 9)]);
    let out = lzw_decompress(&data, 100).unwrap();
    assert_eq!(out, vec![65, 65, 65]);
}

#[test]
fn colortype_rgba16() {
    let dec = TIFFDecoder::new(tiff_rgb(&[16, 16, 16, 16])).unwrap();
    assert_eq!(dec.colortype().unwrap(), ColorType::RGBA(16));
}

#[test]
fn zero_first_ifd_offset_fails() {
    let data = vec![0x49, 0x49, 42, 0, 0, 0, 0, 0];
    match TIFFDecoder::new(data) {
        Err(ImageError::FormatError(_)) => {}
        _ => panic!("expected a format error"),
    }
}

#[test]
fn samples_value_not_truncated() {
    // 257 must be rejected, not truncated to an accepted 1
    let entries = [
        (256u16, 3u16, 1u32, 2u32),
        (257, 3, 1, 2),
        (262, 3, 1, 1),
        (277, 3, 1, 257),
    ];
    let data = tiff_le(&entries, &[], 0);
    match TIFFDecoder::new(data) {
        Err(ImageError::UnsupportedError(_)) => {}
        _ => panic!("expected an unsupported-feature error"),
    }
}

#[test]
fn bits_value_not_truncated() {
    // 264 must be rejected, not narrowed to 8
    let entries = [
        (256u16, 3u16, 1u32, 2u32),
        (257, 3, 1, 2),
        (258, 3, 1, 264),
        (262, 3, 1, 1),
        (277, 3, 1, 1),
    ];
    let data = tiff_le(&entries, &[], 0);
    match TIFFDecoder::new(data) {
        Err(ImageError::UnsupportedError(_)) => {}
        _ => panic!("expected an unsupported-feature error"),
    }
}

#[test]
fn bits_vector_value_not_truncated() {
    let data = tiff_rgb(&[8, 8, 300]);
    match TIFFDecoder::new(data) {
        Err(ImageError::UnsupportedError(_)) => {}
        _ => panic!("expected an unsupported-feature error"),
    }
}

#[test]
fn bits_vector_length_must_match_samples() {
    // three samples with only two bits-per-sample values, packed inline
    let entries = [
        (256u16, 3u16, 1u32, 2u32),
        (257, 3, 1, 2),
        (258, 3, 2, 0x0008_0008),
        (262, 3, 1, 2),
        (277, 3, 1, 3),
    ];
    let data = tiff_le(&entries, &[], 0);
    match TIFFDecoder::new(data) {
        Err(ImageError::FormatError(_)) => {}
        _ => panic!("expected a format error"),
    }
}

#[test]
fn second_page_gets_per_directory_defaults() {
    // first page uses LZW; the second, lacking the optional tags, must come
    // out with the defaults, not the first page's values
    let mut data = tiff_gray_2x2(1, 5, &[0, 0, 0, 0]);
    let second_off = data.len() as u32;
    let n = data.len();
    data[n - 4] = (second_off & 0xff) as u8;
    data[n - 3] = ((second_off >> 8) & 0xff) as u8;
    data[n - 2] = ((second_off >> 16) & 0xff) as u8;
    data[n - 1] = ((second_off >> 24) & 0xff) as u8;
    let entries = [
        (256u16, 3u16, 1u32, 3u32),
        (257, 3, 1, 5),
        (262, 3, 1, 1),
    ];
    push_u16_le(&mut data, entries.len() as u16);
    for &(tag, typ, cnt, val) in &entries {
        push_u16_le(&mut data, tag);
        push_u16_le(&mut data, typ);
        push_u32_le(&mut data, cnt);
        push_u32_le(&mut data, val);
    }
    push_u32_le(&mut data, 0);
    let dec = TIFFDecoder::new(data).unwrap();
    assert_eq!(dec.compression_method, CompressionMethod::LZW);
    let dec = dec.next_image().unwrap();
    assert_eq!(dec.compression_method, CompressionMethod::NoCompression);
    assert_eq!(dec.samples, 1);
    assert_eq!(dec.bits_per_sample, vec![1]);
}
