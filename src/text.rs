//! The blob as base64 text, the form in which it is stored.

use vstd::prelude::*;
use base64::engine::general_purpose;
use base64::Engine;
use crate::blob::{csp_blob, encodable, encode, PublicKey};
use crate::error::BlobError;
use crate::le::pow256;

verus! {

/// The standard-alphabet, padded base64 text of `b`.
pub uninterp spec fn base64_standard(b: Seq<u8>) -> Seq<char>;

/// Relies on base64's `general_purpose::STANDARD` engine and `Engine::encode`:
/// padded standard base64, four characters for each started group of three
/// bytes. It panics only where that length overflows `usize`.
#[verifier::external_body]
fn base64_encode(b: &[u8]) -> (r: String)
    requires
        b@.len() <= usize::MAX / 2,
    ensures
        r@ == base64_standard(b@),
        r@.len() == 4 * ((b@.len() + 2) / 3),
{
    general_purpose::STANDARD.encode(b)
}

/// The base64 text of the blob of `public_key` with a modulus field of
/// `modulus_byte_length` bytes; fails as `encode` does.
pub fn blob_text(public_key: &PublicKey, modulus_byte_length: usize) -> (r: Result<String, BlobError>)
    ensures
        r is Ok <==> encodable(public_key.modulus@, public_key.exponent@, modulus_byte_length as nat),
        r matches Ok(s) ==> s@ == base64_standard(
            csp_blob(public_key.modulus@, public_key.exponent@, modulus_byte_length as nat),
        ),
        r matches Ok(s) ==> s@.len() == 4 * ((modulus_byte_length + 22) / 3),
        r matches Err(err) ==> err == BlobError::EncodingOverflow,
{
    match encode(public_key, modulus_byte_length) {
        Ok(blob) => {
            proof {
                reveal_with_fuel(pow256, 5);
            }
            Ok(base64_encode(blob.as_slice()))
        },
        Err(err) => Err(err),
    }
}

} // verus!
