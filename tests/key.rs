use base64::engine::general_purpose;
use base64::Engine;
use csp_keyblob::blob::{encode, PublicKey};
use csp_keyblob::error::BlobError;
use csp_keyblob::key::export_csp_public_blob;
use csp_keyblob::text::blob_text;
use rsa::{BigUint, RsaPublicKey};

fn odd_modulus(len: usize) -> Vec<u8> {
    let mut m: Vec<u8> = (0..len).map(|i| (i * 7 % 256) as u8).collect();
    m[0] = 0x01;
    m[len - 1] = 0xE3;
    m
}

fn rsa_key(modulus_le: &[u8], e: u32) -> RsaPublicKey {
    RsaPublicKey::new_unchecked(BigUint::from_bytes_le(modulus_le), BigUint::from(e))
}

#[test]
fn from_rsa_reads_modulus_and_exponent() {
    let m = odd_modulus(128);
    let key = PublicKey::from_rsa(&rsa_key(&m, 65537));
    assert_eq!(key.modulus, m);
    assert_eq!(key.exponent, vec![0x01, 0x00, 0x01]);
}

#[test]
fn export_2048_end_to_end() {
    let m = odd_modulus(256);
    let blob = export_csp_public_blob(&rsa_key(&m, 65537), 2048 / 8).unwrap();
    assert_eq!(blob.len(), 276);
    let text = general_purpose::STANDARD.encode(&blob);
    let back = general_purpose::STANDARD.decode(text.as_bytes()).unwrap();
    assert_eq!(back, blob);
    assert_eq!(u32::from_le_bytes([back[12], back[13], back[14], back[15]]), 2048);
    assert_eq!(&back[16..20], &[0x01, 0x00, 0x01, 0x00]);
    assert_eq!(&back[20..], &m[..]);
}

#[test]
fn export_modulus_longer_than_field_fails() {
    let m = odd_modulus(256);
    assert_eq!(export_csp_public_blob(&rsa_key(&m, 65537), 128), Err(BlobError::EncodingOverflow));
}

#[test]
fn blob_text_is_base64_of_blob() {
    let m = odd_modulus(256);
    let key = PublicKey::new(m, vec![0x01, 0x00, 0x01]);
    let text = blob_text(&key, 256).unwrap();
    assert_eq!(text.len(), 368);
    let back = general_purpose::STANDARD.decode(text.as_bytes()).unwrap();
    assert_eq!(back, encode(&key, 256).unwrap());
    assert_eq!(u32::from_le_bytes([back[12], back[13], back[14], back[15]]), 2048);
}

#[test]
fn blob_text_fails_as_encode() {
    let key = PublicKey::new(odd_modulus(129), vec![3]);
    assert_eq!(blob_text(&key, 128), Err(BlobError::EncodingOverflow));
}

#[test]
fn export_four_byte_exponent() {
    let m = odd_modulus(128);
    let blob = export_csp_public_blob(&rsa_key(&m, 0x0100_0001), 128).unwrap();
    assert_eq!(blob.len(), 148);
    assert_eq!(&blob[16..20], &[0x01, 0x00, 0x00, 0x00]);
    assert_eq!(&blob[20..], &m[..]);
}

#[test]
fn export_exponent_over_four_bytes_fails() {
    let m = odd_modulus(128);
    let key = RsaPublicKey::new_unchecked(BigUint::from_bytes_le(&m), BigUint::from(0x1_0000_0001u64));
    assert_eq!(export_csp_public_blob(&key, 128), Err(BlobError::EncodingOverflow));
}
