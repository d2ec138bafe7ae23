//! The `PUBLICKEYBLOB` layout and its encoder.
//!
//! A blob is a 20-byte header followed by the modulus:
//! blob type `06`, version `02`, a reserved zero word, the algorithm id
//! `CALG_RSA_KEYX` (`00 24 00 00`), the magic `RSA1`, the key's bit length
//! (four bytes, little-endian), the public exponent (its three low bytes and a
//! zero byte) and the modulus, little-endian and zero-extended to the key's
//! byte length.

use vstd::prelude::*;
use crate::error::BlobError;
use crate::le::{
    byte_at, high_bytes_zero, le_value, lemma_fits_iff_high_bytes_zero, lemma_le_value_injective,
    lemma_resized_value, pow256, resized,
};

verus! {

/// Bytes of the header before the modulus.
pub const HEADER_LEN: usize = 20;

/// The largest byte length whose bit length still fits in the four-byte field.
pub const MAX_MODULUS_BYTE_LENGTH: usize = 536870911;

/// The public half of an RSA key, as its two integers in little-endian bytes.
#[derive(Debug, Clone, PartialEq, Eq)]
pub struct PublicKey {
    /// The modulus `n`, lowest byte first; any length, trailing zeros allowed.
    pub modulus: Vec<u8>,
    /// The public exponent `e`, lowest byte first; any length, trailing zeros allowed.
    pub exponent: Vec<u8>,
}

impl PublicKey {
    pub fn new(modulus: Vec<u8>, exponent: Vec<u8>) -> (r: PublicKey)
        ensures
            r.modulus@ == modulus@,
            r.exponent@ == exponent@,
    {
        PublicKey { modulus, exponent }
    }
}

/// Blob type, version, reserved word and algorithm id.
pub open spec fn blob_prefix() -> Seq<u8> {
    seq![0x06u8, 0x02, 0x00, 0x00, 0x00, 0x24, 0x00, 0x00]
}

/// The magic `RSA1` in ASCII.
pub open spec fn rsa1_magic() -> Seq<u8> {
    seq![0x52u8, 0x53, 0x41, 0x31]
}

/// `v` as four little-endian bytes.
pub open spec fn le_u32_bytes(v: nat) -> Seq<u8> {
    seq![
        (v % 256) as u8,
        (v / 256 % 256) as u8,
        (v / 256 / 256 % 256) as u8,
        (v / 256 / 256 / 256 % 256) as u8,
    ]
}

/// The exponent field: the exponent's three low bytes, then a zero byte.
pub open spec fn exponent_field(e: Seq<u8>) -> Seq<u8> {
    seq![byte_at(e, 0), byte_at(e, 1), byte_at(e, 2), 0u8]
}

/// The blob of a key with modulus bytes `m` and exponent bytes `e`, for a
/// modulus of `k` bytes.
pub open spec fn csp_blob(m: Seq<u8>, e: Seq<u8>, k: nat) -> Seq<u8> {
    blob_prefix() + rsa1_magic() + le_u32_bytes(k * 8) + exponent_field(e) + resized(m, k)
}

/// The key can be encoded with a modulus of `k` bytes: the modulus fits in `k`
/// bytes, the exponent and the bit length in four each.
pub open spec fn encodable(m: Seq<u8>, e: Seq<u8>, k: nat) -> bool {
    &&& le_value(m) < pow256(k)
    &&& le_value(e) < pow256(4)
    &&& k * 8 < pow256(4)
}


/// Four little-endian bytes read back give the number they were made of.
pub proof fn lemma_le_u32_bytes_value(v: nat)
    requires
        v < pow256(4),
    ensures
        le_value(le_u32_bytes(v)) == v,
{
    let s = le_u32_bytes(v);
    reveal_with_fuel(le_value, 5);
    reveal_with_fuel(pow256, 5);
    let v1 = v / 256;
    let v2 = v1 / 256;
    let v3 = v2 / 256;
    vstd::arithmetic::div_mod::lemma_fundamental_div_mod(v as int, 256);
    vstd::arithmetic::div_mod::lemma_fundamental_div_mod(v1 as int, 256);
    vstd::arithmetic::div_mod::lemma_fundamental_div_mod(v2 as int, 256);
    vstd::arithmetic::div_mod::lemma_fundamental_div_mod(v3 as int, 256);
    assert(v3 < 256);
    assert(s.drop_first().drop_first().drop_first().drop_first().len() == 0);
    assert(le_value(s.drop_first().drop_first().drop_first()) == v3 % 256);
}

/// The exponent field of a four-byte exponent reads back as its three low bytes.
pub proof fn lemma_exponent_field_value(e: Seq<u8>)
    requires
        le_value(e) < pow256(4),
    ensures
        le_value(exponent_field(e)) == le_value(e) % pow256(3),
{
    reveal_with_fuel(le_value, 5);
    reveal_with_fuel(pow256, 5);
    lemma_fits_iff_high_bytes_zero(e, 4);
    lemma_resized_value(e, 4);
    let r = resized(e, 4);
    let f = exponent_field(e);
    assert(r.drop_first().drop_first().drop_first().drop_first().len() == 0);
    assert(f.drop_first().drop_first().drop_first().drop_first().len() == 0);
    let x = r[0] as int + 256 * (r[1] as int + 256 * (r[2] as int));
    assert(le_value(f) == x);
    assert(le_value(e) == x + 16777216 * (r[3] as int)) by (nonlinear_arith)
        requires
            le_value(e) == r[0] as int + 256 * (r[1] as int + 256 * (r[2] as int + 256 * (
            r[3] as int))),
            x == r[0] as int + 256 * (r[1] as int + 256 * (r[2] as int)),
    ;
    assert(0 <= x < 16777216) by (nonlinear_arith)
        requires
            x == r[0] as int + 256 * (r[1] as int + 256 * (r[2] as int)),
            r[0] < 256,
            r[1] < 256,
            r[2] < 256,
    ;
    vstd::arithmetic::div_mod::lemma_mod_multiples_vanish(r[3] as int, x, 16777216);
    vstd::arithmetic::div_mod::lemma_small_mod(x as nat, 16777216);
}

/// The layout of every blob that `encode` produces: its length, the fixed
/// prefix and magic, and bit-length, exponent and modulus fields that read
/// back, little-endian, as the values they were made of.
pub proof fn lemma_blob_layout(m: Seq<u8>, e: Seq<u8>, k: nat)
    requires
        encodable(m, e, k),
    ensures
        csp_blob(m, e, k).len() == 20 + k,
        csp_blob(m, e, k).subrange(0, 8) == blob_prefix(),
        csp_blob(m, e, k).subrange(8, 12) == rsa1_magic(),
        le_value(csp_blob(m, e, k).subrange(12, 16)) == k * 8,
        le_value(csp_blob(m, e, k).subrange(16, 20)) == le_value(e) % pow256(3),
        le_value(csp_blob(m, e, k).subrange(20, 20 + k as int)) == le_value(m),
{
    let b = csp_blob(m, e, k);
    assert(b.subrange(0, 8) =~= blob_prefix());
    assert(b.subrange(8, 12) =~= rsa1_magic());
    assert(b.subrange(12, 16) =~= le_u32_bytes(k * 8));
    lemma_le_u32_bytes_value(k * 8);
    lemma_exponent_field_value(e);
    assert(b.subrange(16, 20) =~= exponent_field(e));
    lemma_fits_iff_high_bytes_zero(m, k);
    lemma_resized_value(m, k);
    assert(b.subrange(20, 20 + k as int) =~= resized(m, k));
}

/// Whatever the modulus and the bit length, an exponent of 65537 is written
/// as the bytes `01 00 01 00`.
pub proof fn lemma_exponent_65537(m: Seq<u8>, e: Seq<u8>, k: nat)
    requires
        le_value(e) == 65537,
    ensures
        csp_blob(m, e, k).subrange(16, 20) == seq![0x01u8, 0x00, 0x01, 0x00],
{
    let b = csp_blob(m, e, k);
    reveal_with_fuel(pow256, 4);
    reveal_with_fuel(le_value, 4);
    lemma_fits_iff_high_bytes_zero(e, 3);
    lemma_resized_value(e, 3);
    let want = seq![0x01u8, 0x00, 0x01];
    assert(le_value(want.drop_first().drop_first().drop_first()) == 0);
    assert(le_value(want) == 65537);
    lemma_le_value_injective(resized(e, 3), want);
    assert(byte_at(e, 0) == resized(e, 3)[0]);
    assert(byte_at(e, 1) == resized(e, 3)[1]);
    assert(byte_at(e, 2) == resized(e, 3)[2]);
    assert(b.subrange(16, 20) =~= seq![0x01u8, 0x00, 0x01, 0x00]);
}

/// Whether every byte of `s` from position `k` on is zero.
fn high_bytes_are_zero(s: &Vec<u8>, k: usize) -> (r: bool)
    ensures
        r == high_bytes_zero(s@, k as nat),
{
    let mut i: usize = k;
    while i < s.len()
        invariant
            k <= i,
            forall|j: int| k <= j < i ==> s@[j] == 0,
        decreases s.len() - i,
    {
        if s[i] != 0 {
            return false;
        }
        i = i + 1;
    }
    true
}

/// Byte `i` of `s`, or zero past its end.
fn byte_or_zero(s: &Vec<u8>, i: usize) -> (r: u8)
    ensures
        r == byte_at(s@, i as int),
{
    if i < s.len() {
        s[i]
    } else {
        0
    }
}

/// Encodes `public_key` as a `PUBLICKEYBLOB` whose modulus field is
/// `modulus_byte_length` bytes long (the key's bit length divided by eight).
///
/// Fails with `EncodingOverflow` rather than cut a value down: when the
/// modulus needs more than `modulus_byte_length` bytes, or when the exponent
/// or the bit length needs more than four. The exponent field keeps the
/// exponent's three low bytes.
pub fn encode(public_key: &PublicKey, modulus_byte_length: usize) -> (r: Result<Vec<u8>, BlobError>)
    ensures
        r is Ok <==> encodable(public_key.modulus@, public_key.exponent@, modulus_byte_length as nat),
        r matches Ok(b) ==> b@ == csp_blob(
            public_key.modulus@,
            public_key.exponent@,
            modulus_byte_length as nat,
        ),
        r matches Err(err) ==> err == BlobError::EncodingOverflow,
        r matches Ok(b) ==> {
            &&& b@.len() == HEADER_LEN + modulus_byte_length
            &&& b@.subrange(0, 8) == blob_prefix()
            &&& b@.subrange(8, 12) == rsa1_magic()
            &&& le_value(b@.subrange(12, 16)) == modulus_byte_length * 8
            &&& le_value(b@.subrange(16, 20)) == le_value(public_key.exponent@) % pow256(3)
            &&& le_value(b@.subrange(20, 20 + modulus_byte_length as int)) == le_value(
                public_key.modulus@,
            )
        },
{
    let k = modulus_byte_length;
    let m = &public_key.modulus;
    let e = &public_key.exponent;
    proof {
        lemma_fits_iff_high_bytes_zero(m@, k as nat);
        lemma_fits_iff_high_bytes_zero(e@, 4);
        reveal_with_fuel(pow256, 5);
    }
    if k > MAX_MODULUS_BYTE_LENGTH || !high_bytes_are_zero(m, k) || !high_bytes_are_zero(e, 4) {
        return Err(BlobError::EncodingOverflow);
    }
    let ghost header = blob_prefix() + rsa1_magic() + le_u32_bytes(k as nat * 8) + exponent_field(e@);
    let mut blob: Vec<u8> = Vec::new();
    blob.push(0x06);
    blob.push(0x02);
    blob.push(0x00);
    blob.push(0x00);
    blob.push(0x00);
    blob.push(0x24);
    blob.push(0x00);
    blob.push(0x00);
    // "RSA1"
    blob.push(0x52);
    blob.push(0x53);
    blob.push(0x41);
    blob.push(0x31);
    let bits: u32 = (k * 8) as u32;
    blob.push((bits % 256) as u8);
    blob.push((bits / 256 % 256) as u8);
    blob.push((bits / 256 / 256 % 256) as u8);
    blob.push((bits / 256 / 256 / 256 % 256) as u8);
    blob.push(byte_or_zero(e, 0));
    blob.push(byte_or_zero(e, 1));
    blob.push(byte_or_zero(e, 2));
    blob.push(0x00);
    assert(blob@ =~= header);
    let mut i: usize = 0;
    while i < k
        invariant
            i <= k,
            header.len() == 20,
            blob@ =~= header + resized(m@, k as nat).take(i as int),
        decreases k - i,
    {
        blob.push(byte_or_zero(m, i));
        i = i + 1;
        assert(resized(m@, k as nat).take(i as int) =~= resized(m@, k as nat).take(i - 1)
            + seq![byte_at(m@, i - 1)]);
    }
    assert(resized(m@, k as nat).take(k as int) =~= resized(m@, k as nat));
    proof {
        lemma_blob_layout(m@, e@, k as nat);
    }
    Ok(blob)
}

} // verus!
