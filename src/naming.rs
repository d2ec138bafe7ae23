//! Output file names tagged with the key size.

use vstd::prelude::*;
use crate::error::BlobError;

verus! {

/// `s` ends with `p`.
pub open spec fn ends_with(s: Seq<char>, p: Seq<char>) -> bool {
    p.len() <= s.len() && s.subrange(s.len() - p.len(), s.len() as int) == p
}

/// `s` with every trailing repetition of `p` removed; `s` itself when `p` is empty.
pub open spec fn trim_end(s: Seq<char>, p: Seq<char>) -> Seq<char>
    decreases s.len(),
{
    if p.len() > 0 && ends_with(s, p) {
        trim_end(s.subrange(0, s.len() - p.len()), p)
    } else {
        s
    }
}

/// The name for `requested` with `suffix` and `extension`: unchanged when it
/// already ends with `suffix + extension`; otherwise its trailing `extension`
/// is removed and `suffix + extension` appended.
pub open spec fn derived_name(requested: Seq<char>, extension: Seq<char>, suffix: Seq<char>) -> Seq<
    char,
> {
    if ends_with(requested, suffix + extension) {
        requested
    } else {
        trim_end(requested, extension) + suffix + extension
    }
}

/// Whether the first `end` characters of `s` end with `p`.
fn prefix_ends_with(s: &str, end: usize, p: &str, p_len: usize) -> (r: bool)
    requires
        end <= s@.len(),
        p_len == p@.len(),
    ensures
        r == ends_with(s@.subrange(0, end as int), p@),
{
    if p_len > end {
        return false;
    }
    let off = end - p_len;
    let mut i: usize = 0;
    while i < p_len
        invariant
            off + p_len == end,
            end <= s@.len(),
            p_len == p@.len(),
            i <= p_len,
            forall|j: int| 0 <= j < i ==> s@[off + j] == p@[j],
        decreases p_len - i,
    {
        if s.get_char(off + i) != p.get_char(i) {
            assert(s@.subrange(0, end as int).subrange(off as int, end as int)[i as int] != p@[i as int]);
            return false;
        }
        i = i + 1;
    }
    assert(s@.subrange(0, end as int).subrange(off as int, end as int) =~= p@);
    true
}

/// The name for `requested_name` tagged with `suffix` before `extension`
/// (`"PrivateKey.pem"`, `".pem"`, `"_1024"` gives `"PrivateKey_1024.pem"`).
pub fn derive_name(requested_name: &str, extension: &str, suffix: &str) -> (r: String)
    ensures
        r@ == derived_name(requested_name@, extension@, suffix@),
{
    let n = requested_name.unicode_len();
    let e_len = extension.unicode_len();
    let tail = suffix.to_owned().concat(extension);
    let t_len = tail.as_str().unicode_len();
    assert(requested_name@.subrange(0, n as int) =~= requested_name@);
    if prefix_ends_with(requested_name, n, tail.as_str(), t_len) {
        return requested_name.to_owned();
    }
    let mut end: usize = n;
    while e_len > 0 && prefix_ends_with(requested_name, end, extension, e_len)
        invariant
            end <= n,
            n == requested_name@.len(),
            e_len == extension@.len(),
            trim_end(requested_name@.subrange(0, end as int), extension@) == trim_end(
                requested_name@,
                extension@,
            ),
        decreases end,
    {
        assert(requested_name@.subrange(0, end as int).subrange(0, end - e_len) =~= requested_name@.subrange(0, end - e_len));
        end = end - e_len;
    }
    let base = requested_name.substring_char(0, end);
    let r = base.to_owned().concat(suffix).concat(extension);
    assert(r@ =~= trim_end(requested_name@, extension@) + suffix@ + extension@);
    r
}

/// Deriving a name twice gives the name of the first time.
pub proof fn lemma_derive_name_idempotent(requested: Seq<char>, extension: Seq<char>, suffix: Seq<char>)
    ensures
        derived_name(derived_name(requested, extension, suffix), extension, suffix) == derived_name(
            requested,
            extension,
            suffix,
        ),
{
    let d = derived_name(requested, extension, suffix);
    let tail = suffix + extension;
    if !ends_with(requested, tail) {
        let t = trim_end(requested, extension);
        assert(d =~= t + tail);
        assert(d.subrange(d.len() - tail.len(), d.len() as int) =~= tail);
    }
}

/// The name suffix of a supported key size in bits: `_1024` or `_2048`.
pub open spec fn size_suffix(bits: nat) -> Option<Seq<char>> {
    if bits == 1024 {
        Some("_1024"@)
    } else if bits == 2048 {
        Some("_2048"@)
    } else {
        None
    }
}

/// The suffix that tags the files of a `bits`-bit key; only 1024 and 2048
/// bits are supported.
pub fn key_size_suffix(bits: usize) -> (r: Result<String, BlobError>)
    ensures
        r is Ok <==> size_suffix(bits as nat) is Some,
        r matches Ok(s) ==> size_suffix(bits as nat) == Some(s@),
        r matches Err(err) ==> err == BlobError::UnsupportedKeySize,
{
    if bits == 1024 {
        Ok("_1024".to_owned())
    } else if bits == 2048 {
        Ok("_2048".to_owned())
    } else {
        Err(BlobError::UnsupportedKeySize)
    }
}

/// The three files written for one key: private key and public key in PEM,
/// and the base64 text of the blob.
#[derive(Debug, Clone, PartialEq, Eq)]
pub struct OutputPaths {
    pub private_key: String,
    pub public_key: String,
    pub blob: String,
}

/// The output names for a `bits`-bit key from the requested ones: the PEM
/// files keep the `.pem` extension, the blob text `.txt`, each tagged with
/// the key size. Unsupported key sizes are refused before any name is made.
pub fn output_paths(bits: usize, private_key: &str, public_key: &str, blob: &str) -> (r: Result<
    OutputPaths,
    BlobError,
>)
    ensures
        r is Ok <==> size_suffix(bits as nat) is Some,
        r matches Err(err) ==> err == BlobError::UnsupportedKeySize,
        r matches Ok(p) ==> {
            let suffix = size_suffix(bits as nat)->Some_0;
            &&& p.private_key@ == derived_name(private_key@, ".pem"@, suffix)
            &&& p.public_key@ == derived_name(public_key@, ".pem"@, suffix)
            &&& p.blob@ == derived_name(blob@, ".txt"@, suffix)
        },
{
    let suffix = match key_size_suffix(bits) {
        Ok(s) => s,
        Err(err) => return Err(err),
    };
    Ok(
        OutputPaths {
            private_key: derive_name(private_key, ".pem", suffix.as_str()),
            public_key: derive_name(public_key, ".pem", suffix.as_str()),
            blob: derive_name(blob, ".txt", suffix.as_str()),
        },
    )
}

} // verus!
