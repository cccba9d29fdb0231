//! Bit-cursor reads over in-memory streams.

use cri_archive_lib::layla::LaylaDecompressorCursor;

#[test]
fn cursor_read_stream_1bit() {
    let stream: Vec<u8> = vec![0xAA]; // 0b10101010
    let expected_bools = [true, false, true, false, true, false, true, false];
    let mut cursor = LaylaDecompressorCursor::new(stream.len(), 0);
    let mut actual_bools = [false; 8];
    for slot in actual_bools.iter_mut() {
        *slot = cursor.read_1(&stream);
    }
    assert_eq!(expected_bools, actual_bools);
}

#[test]
fn cursor_read_stream_2bit() {
    let stream: Vec<u8> = vec![0x93, 0x93]; // 0b10010011
    // byte-aligned path
    let expect_0offset = [2, 1, 0, 3, 2, 1, 0, 3];
    let mut cursor = LaylaDecompressorCursor::new(stream.len(), 0);
    let mut actual = [0u8; 8];
    for slot in actual.iter_mut() {
        *slot = cursor.read_2(&stream);
    }
    assert_eq!(expect_0offset, actual);
    // partial-byte start
    let expect_7offset = [0, 2, 1, 3, 0, 2, 1];
    let mut cursor = LaylaDecompressorCursor::new(stream.len() - 1, 7);
    let mut actual = [0u8; 7];
    for slot in actual.iter_mut() {
        *slot = cursor.read_2(&stream);
    }
    assert_eq!(expect_7offset, actual);
}

#[test]
fn cursor_read_stream_8bit() {
    let stream: Vec<u8> = vec![0xca; 8]; // 0b11001010
    // byte-aligned path
    let expect_0offset = [0xcau8; 8];
    let mut cursor = LaylaDecompressorCursor::new(stream.len(), 0);
    let mut actual = [0u8; 8];
    for slot in actual.iter_mut() {
        *slot = cursor.read_8(&stream);
    }
    assert_eq!(expect_0offset, actual);
    // unaligned path
    let expect_3offset = [0x59u8; 7];
    let mut cursor = LaylaDecompressorCursor::new(stream.len() - 1, 3);
    let mut actual = [0u8; 7];
    for slot in actual.iter_mut() {
        *slot = cursor.read_8(&stream);
    }
    assert_eq!(expect_3offset, actual);
}

#[test]
fn cursor_read_stream_max_8bit() {
    let stream: Vec<u8> = vec![0x93, 0x93]; // 0b10010011
    let mut cursor = LaylaDecompressorCursor::new(stream.len(), 0);
    assert_eq!(cursor.read_max_8(&stream, 3), 0b100);
    assert_eq!(cursor.read_max_8(&stream, 3), 0b100);
    // the third field straddles the byte boundary
    assert_eq!(cursor.read_max_8(&stream, 3), 0b111);
}

#[test]
fn cursor_read_stream_13bit() {
    let stream: Vec<u8> = vec![
        0xcb, 0xa6, 0x69, 0x75, 0x4e, 0x32, 0xb1, 0xfb, 0x3b, 0x53, 0x7d, 0x38, 0x02, 0x7d, 0xd7,
        0xe4, 0xed, 0xf0, 0xa5, 0x2f, 0x57, 0x6d, 0x3b, 0x2c, 0x0c, 0x77, 0x02, 0x9e, 0x45, 0x3d,
        0x30, 0x35, 0x6e, 0xed, 0xa7, 0x8d, 0x5c, 0x91, 0x0c, 0xc9, 0x90, 0x59, 0x4d, 0x76, 0xe6,
        0xe1, 0x68, 0x00, 0x03, 0x69, 0xd7, 0x3b, 0x41, 0xe4, 0x11, 0xd4, 0x7f, 0x60, 0x70,
    ];
    let expected = [
        3596u32, 511, 2568, 7748, 631, 5594, 2072, 104, 7228, 6617, 1708, 6412, 4633, 1111, 1133,
        2029, 3526, 5312, 7842, 6624, 1262, 779, 475, 3415, 1524, 6083, 5874, 3447, 6660, 3615,
        2713, 7163, 5670, 2361, 6836, 6764,
    ];
    let mut cursor = LaylaDecompressorCursor::new(stream.len(), 0);
    let mut actual = [0u32; 36];
    for slot in actual.iter_mut() {
        *slot = cursor.read_13(&stream);
    }
    assert_eq!(expected, actual);
}
