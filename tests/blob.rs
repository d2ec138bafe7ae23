use csp_keyblob::blob::{encode, PublicKey, HEADER_LEN, MAX_MODULUS_BYTE_LENGTH};
use csp_keyblob::error::BlobError;

fn modulus_of_len(len: usize) -> Vec<u8> {
    let mut m: Vec<u8> = (0..len).map(|i| (i % 251) as u8 + 1).collect();
    m[len - 1] = 0xC1;
    m
}

fn le_u32(b: &[u8]) -> u32 {
    u32::from_le_bytes([b[0], b[1], b[2], b[3]])
}

#[test]
fn blob_length_1024() {
    let key = PublicKey::new(modulus_of_len(128), vec![1, 0, 1]);
    let blob = encode(&key, 128).unwrap();
    assert_eq!(blob.len(), 148);
    assert_eq!(blob.len(), HEADER_LEN + 128);
}

#[test]
fn blob_length_2048() {
    let key = PublicKey::new(modulus_of_len(256), vec![1, 0, 1]);
    let blob = encode(&key, 256).unwrap();
    assert_eq!(blob.len(), 276);
}

#[test]
fn blob_prefix_and_magic() {
    let key = PublicKey::new(modulus_of_len(128), vec![3]);
    let blob = encode(&key, 128).unwrap();
    assert_eq!(&blob[0..8], &[0x06, 0x02, 0x00, 0x00, 0x00, 0x24, 0x00, 0x00]);
    assert_eq!(&blob[8..12], b"RSA1");
}

#[test]
fn blob_bit_length_field() {
    let key = PublicKey::new(modulus_of_len(128), vec![3]);
    assert_eq!(le_u32(&encode(&key, 128).unwrap()[12..16]), 1024);
    let key = PublicKey::new(modulus_of_len(256), vec![3]);
    let blob = encode(&key, 256).unwrap();
    assert_eq!(le_u32(&blob[12..16]), 2048);
    assert_eq!(&blob[12..16], &[0x00, 0x08, 0x00, 0x00]);
}

#[test]
fn blob_exponent_65537() {
    let key = PublicKey::new(modulus_of_len(128), vec![0x01, 0x00, 0x01]);
    let blob = encode(&key, 128).unwrap();
    assert_eq!(&blob[16..20], &[0x01, 0x00, 0x01, 0x00]);
}

#[test]
fn blob_exponent_with_trailing_zeros() {
    let key = PublicKey::new(modulus_of_len(128), vec![0x01, 0x00, 0x01, 0x00, 0x00]);
    let blob = encode(&key, 128).unwrap();
    assert_eq!(&blob[16..20], &[0x01, 0x00, 0x01, 0x00]);
}

#[test]
fn blob_modulus_field_reads_back() {
    let m = modulus_of_len(256);
    let key = PublicKey::new(m.clone(), vec![1, 0, 1]);
    let blob = encode(&key, 256).unwrap();
    assert_eq!(&blob[20..276], &m[..]);
}

#[test]
fn blob_short_modulus_is_zero_extended() {
    let key = PublicKey::new(vec![0xAB, 0xCD], vec![3]);
    let blob = encode(&key, 8).unwrap();
    assert_eq!(blob.len(), 28);
    assert_eq!(&blob[20..28], &[0xAB, 0xCD, 0, 0, 0, 0, 0, 0]);
}

#[test]
fn blob_modulus_with_high_zero_bytes_fits() {
    let key = PublicKey::new(vec![0xAB, 0xCD, 0, 0, 0], vec![3]);
    let blob = encode(&key, 2).unwrap();
    assert_eq!(&blob[20..22], &[0xAB, 0xCD]);
    assert_eq!(blob.len(), 22);
}

#[test]
fn blob_modulus_too_long_fails() {
    let key = PublicKey::new(modulus_of_len(129), vec![1, 0, 1]);
    assert_eq!(encode(&key, 128), Err(BlobError::EncodingOverflow));
    let key = PublicKey::new(vec![1, 2, 3], vec![3]);
    assert_eq!(encode(&key, 2), Err(BlobError::EncodingOverflow));
}

#[test]
fn blob_exponent_too_large_fails() {
    let key = PublicKey::new(modulus_of_len(128), vec![1, 0, 0, 0, 1]);
    assert_eq!(encode(&key, 128), Err(BlobError::EncodingOverflow));
}

#[test]
fn blob_four_byte_exponent_keeps_low_bytes() {
    let key = PublicKey::new(modulus_of_len(256), vec![0x03, 0x02, 0x01, 0x7F]);
    let blob = encode(&key, 256).unwrap();
    assert_eq!(blob.len(), 276);
    assert_eq!(&blob[16..20], &[0x03, 0x02, 0x01, 0x00]);
    assert_eq!(le_u32(&blob[12..16]), 2048);
}

#[test]
fn blob_bit_length_too_large_fails() {
    let key = PublicKey::new(vec![1], vec![3]);
    assert_eq!(encode(&key, MAX_MODULUS_BYTE_LENGTH + 1), Err(BlobError::EncodingOverflow));
}

#[test]
fn blob_empty_modulus_field() {
    let key = PublicKey::new(vec![0], vec![]);
    let blob = encode(&key, 0).unwrap();
    assert_eq!(blob.len(), 20);
    assert_eq!(&blob[12..20], &[0, 0, 0, 0, 0, 0, 0, 0]);
}
