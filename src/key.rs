//! Reading the public half of an `rsa` key into plain bytes.

use vstd::prelude::*;
use rsa::traits::PublicKeyParts;
use rsa::RsaPublicKey;
use crate::blob::{csp_blob, encodable, encode, PublicKey};
use crate::error::BlobError;
use crate::le::pow256;

verus! {

#[verifier::external_type_specification]
#[verifier::external_body]
pub struct ExRsaPublicKey(RsaPublicKey);

/// Little-endian bytes in their shortest form: at least one byte, and no
/// trailing zero byte unless it is the only one (the number zero).
pub open spec fn minimal_le(s: Seq<u8>) -> bool {
    s.len() >= 1 && (s.len() == 1 || s.last() != 0)
}

/// The bytes `BigUint::to_bytes_le` gives for the modulus of `key`.
pub uninterp spec fn rsa_modulus_le(key: RsaPublicKey) -> Seq<u8>;

/// The bytes `BigUint::to_bytes_le` gives for the public exponent of `key`.
pub uninterp spec fn rsa_exponent_le(key: RsaPublicKey) -> Seq<u8>;

/// Relies on rsa's `PublicKeyParts::n` and on `BigUint::to_bytes_le`, which
/// gives `[0]` for zero and otherwise the bytes up to the highest nonzero one.
#[verifier::external_body]
fn modulus_le_bytes(key: &RsaPublicKey) -> (r: Vec<u8>)
    ensures
        r@ == rsa_modulus_le(*key),
        minimal_le(r@),
{
    key.n().to_bytes_le()
}

/// Relies on rsa's `PublicKeyParts::e` and on `BigUint::to_bytes_le`, which
/// gives `[0]` for zero and otherwise the bytes up to the highest nonzero one.
#[verifier::external_body]
fn exponent_le_bytes(key: &RsaPublicKey) -> (r: Vec<u8>)
    ensures
        r@ == rsa_exponent_le(*key),
        minimal_le(r@),
{
    key.e().to_bytes_le()
}

impl PublicKey {
    /// The modulus and exponent of an `rsa` public key.
    pub fn from_rsa(key: &RsaPublicKey) -> (r: PublicKey)
        ensures
            r.modulus@ == rsa_modulus_le(*key),
            r.exponent@ == rsa_exponent_le(*key),
            minimal_le(r.modulus@),
            minimal_le(r.exponent@),
    {
        PublicKey::new(modulus_le_bytes(key), exponent_le_bytes(key))
    }
}

/// The `PUBLICKEYBLOB` of an `rsa` public key with a modulus field of
/// `mod_len` bytes: `encode` applied to the key's modulus and exponent, read
/// as `BigUint::to_bytes_le` gives them (their shortest little-endian form).
pub fn export_csp_public_blob(public_key: &RsaPublicKey, mod_len: usize) -> (r: Result<
    Vec<u8>,
    BlobError,
>)
    ensures
        r is Ok <==> encodable(
            rsa_modulus_le(*public_key),
            rsa_exponent_le(*public_key),
            mod_len as nat,
        ),
        r matches Ok(b) ==> b@ == csp_blob(
            rsa_modulus_le(*public_key),
            rsa_exponent_le(*public_key),
            mod_len as nat,
        ),
        r matches Err(err) ==> err == BlobError::EncodingOverflow,
        mod_len * 8 >= 0x1_0000_0000 ==> r is Err,
{
    let key = PublicKey::from_rsa(public_key);
    let r = encode(&key, mod_len);
    proof {
        reveal_with_fuel(pow256, 5);
    }
    r
}

} // verus!
