//! Table keystream and per-file XOR schemes.

use cri_archive_lib::file::CpkFile;
use cri_archive_lib::p5r::P5RDecryptor;
use cri_archive_lib::table_crypt::TableDecryptor;

fn ramp(n: usize) -> Vec<u8> {
    let mut v = Vec::with_capacity(n);
    for i in 0..n {
        v.push((i & 0xff) as u8);
    }
    v
}

#[test]
fn can_decrypt_p5r() {
    let values = ramp(0x821);
    let mut work = values.clone();
    P5RDecryptor::decrypt_in_place(&mut work);
    assert_ne!(work, values);
    P5RDecryptor::decrypt_in_place(&mut work);
    assert_eq!(work, values);
}

#[test]
fn p5r_short_input_passes_through() {
    // Files of 0x820 bytes or fewer are stored in the clear even when
    // marked for the scheme.
    let values = ramp(0x820);
    let mut work = values.clone();
    P5RDecryptor::decrypt_in_place(&mut work);
    assert_eq!(work, values);
}

#[test]
fn p5r_marker_detection() {
    let marked = CpkFile::new(
        Vec::new(),
        b"x.bin".to_vec(),
        0,
        0x1000,
        0x1000,
        b"CRI_CFATTR:ENCRYPT".to_vec(),
    );
    let unmarked = CpkFile::new(Vec::new(), b"y.bin".to_vec(), 0, 16, 16, b"<NULL>".to_vec());
    assert!(P5RDecryptor::is_encrypted(&marked));
    assert!(!P5RDecryptor::is_encrypted(&unmarked));
}

#[test]
fn table_decrypt_self_inverse() {
    let values = ramp(0x821);
    let mut work = values.clone();
    TableDecryptor::decrypt_utf_in_place(&mut work);
    assert_ne!(work, values);
    TableDecryptor::decrypt_utf_in_place(&mut work);
    assert_eq!(work, values);
}

#[test]
fn table_keystream_reveals_signature() {
    // The encrypted signature is the keystream image of `@UTF`.
    let encrypted: Vec<u8> = vec![0x1F, 0x9E, 0xF3, 0xF5];
    let decrypted = TableDecryptor::decrypt_utf(&encrypted);
    assert_eq!(decrypted, b"@UTF".to_vec());
}

#[test]
fn table_encryption_detection() {
    let encrypted: Vec<u8> = vec![0x1F, 0x9E, 0xF3, 0xF5, 0x00, 0x11];
    let plain: Vec<u8> = vec![0x40, 0x55, 0x54, 0x46, 0x00, 0x11]; // "@UTF"
    assert!(TableDecryptor::is_encrypted(&encrypted));
    assert!(!TableDecryptor::is_encrypted(&plain));
    let short: Vec<u8> = vec![0x1F, 0x9E];
    assert!(!TableDecryptor::is_encrypted(&short));
}

#[test]
fn table_decrypt_from_offset_with_seed() {
    // Decrypting from a nonzero start leaves the head untouched and
    // restarts the keystream at the given seed.
    let mut work: Vec<u8> = vec![0xAA, 0xBB, 0x1F ^ 0x5F, 0x9E ^ 0x5F];
    TableDecryptor::decrypt_in_place_u8(&mut work, 2, 95);
    assert_eq!(work[0], 0xAA);
    assert_eq!(work[1], 0xBB);
    assert_eq!(work[2], 0x1F); // 95 == 0x5F
    let k1 = 95u8.wrapping_mul(21);
    assert_eq!(work[3], (0x9E ^ 0x5F) ^ k1);
}
