use vstd::prelude::*;
use crate::download::DownloadError;
use crate::hex::{encode, hex_spec};

verus! {

/// The SHA-256 digest of a byte sequence.
pub uninterp spec fn sha256_of(data: Seq<u8>) -> Seq<u8>;

/// Relies on sha2's `Sha256::digest` (through `digest::Digest`): the SHA-256
/// digest of the bytes, whose output size is 32 bytes.
#[verifier::external_body]
fn sha256(data: &[u8]) -> (r: Vec<u8>)
    ensures
        r@ == sha256_of(data@),
        r@.len() == 32,
{
    <sha2::Sha256 as sha2::Digest>::digest(data).to_vec()
}

fn str_eq(a: &str, b: &str) -> (r: bool)
    ensures
        r == (a@ == b@),
{
    let n = a.unicode_len();
    if n != b.unicode_len() {
        return false;
    }
    let mut i: usize = 0;
    while i < n
        invariant
            n == a@.len() == b@.len(),
            i <= n,
            forall|j: int| 0 <= j < i ==> a@[j] == b@[j],
        decreases n - i,
    {
        if a.get_char(i) != b.get_char(i) {
            return false;
        }
        i = i + 1;
    }
    assert(a@ =~= b@);
    true
}

/// The lowercase hex encoding of the SHA-256 digest of `data`.
pub fn digest_hex(data: &[u8]) -> (r: String)
    ensures
        r@ == hex_spec(sha256_of(data@)),
        r@.len() == 64,
{
    let d = sha256(data);
    encode(d.as_slice())
}

/// Checks an already computed digest against the expected hex string:
/// `Ok` with the computed hex when they agree, an integrity error otherwise.
pub fn check_digest(digest: &[u8], expected: &str) -> (r: Result<String, DownloadError>)
    ensures
        r is Ok <==> hex_spec(digest@) == expected@,
        r matches Ok(h) ==> h@ == hex_spec(digest@),
        r matches Err(e) ==> e == DownloadError::Integrity,
{
    let h = encode(digest);
    if str_eq(h.as_str(), expected) {
        Ok(h)
    } else {
        Err(DownloadError::Integrity)
    }
}

/// Verifies a whole payload against the expected hex digest.
pub fn verify_payload(data: &[u8], expected: &str) -> (r: Result<String, DownloadError>)
    ensures
        r is Ok <==> hex_spec(sha256_of(data@)) == expected@,
        r matches Ok(h) ==> h@ == hex_spec(sha256_of(data@)),
        r matches Err(e) ==> e == DownloadError::Integrity,
{
    let d = sha256(data);
    check_digest(d.as_slice(), expected)
}

} // verus!
