//! Secrets of a sign-in.
use vstd::prelude::*;
use vstd::utf8::*;
use crate::base64;
use crate::base64::base64url_encode;
use crate::random::random_bytes;

verus! {

/// The SHA-256 digest of bytes.
pub uninterp spec fn sha256(bytes: Seq<u8>) -> Seq<u8>;

/// `sha2::Sha256` digests bytes to thirty-two bytes.
#[verifier::external_body]
fn sha256_digest(bytes: &[u8]) -> (r: Vec<u8>)
    ensures
        r@ == sha256(bytes@),
        r@.len() == 32,
{
    <sha2::Sha256 as sha2::Digest>::digest(bytes).to_vec()
}

/// The verifier of a sign-in: random bytes in base64.
pub open spec fn verifier_of(bytes: Seq<u8>) -> Seq<char> {
    base64::encoded_url(bytes)
}

/// The challenge of a verifier: its digest in base64.
pub open spec fn challenge_of(verifier: Seq<char>) -> Seq<char> {
    base64::encoded_url(sha256(encode_utf8(verifier)))
}

/// The verifier and the challenge out of random bytes.
pub fn pkce_from(bytes: &[u8]) -> (r: (String, String))
    ensures
        r.0@ == verifier_of(bytes@),
        r.1@ == challenge_of(r.0@),
{
    let verifier: String = base64url_encode(bytes);
    let digest: Vec<u8> = sha256_digest(verifier.as_str().as_bytes());
    let challenge: String = base64url_encode(digest.as_slice());
    (verifier, challenge)
}

/// A verifier out of thirty-two random bytes, and its challenge.
pub fn generate_pkce() -> (r: (String, String))
    ensures
        exists|bytes: Seq<u8>| bytes.len() == 32 && r.0@ == #[trigger] verifier_of(bytes),
        r.1@ == challenge_of(r.0@),
{
    let bytes: Vec<u8> = random_bytes(32);
    let r: (String, String) = pkce_from(bytes.as_slice());
    assert(r.0@ == verifier_of(bytes@));
    r
}

/// A state out of sixteen random bytes.
pub fn create_state() -> (r: String)
    ensures
        exists|bytes: Seq<u8>| bytes.len() == 16 && r@ == #[trigger] base64::encoded_url(bytes),
{
    let bytes: Vec<u8> = random_bytes(16);
    let r: String = base64url_encode(bytes.as_slice());
    assert(r@ == base64::encoded_url(bytes@));
    r
}

/// The challenge of a verifier, read back, is the digest of the verifier, and the verifier, read
/// back, is the bytes that it was made of.
pub proof fn law_challenge_is_the_digest(verifier: Seq<char>, bytes: Seq<u8>)
    ensures
        base64::decoded(challenge_of(verifier)) == Ok::<Seq<u8>, Seq<char>>(
            sha256(encode_utf8(verifier)),
        ),
        base64::decoded(verifier_of(bytes)) == Ok::<Seq<u8>, Seq<char>>(bytes),
{
    base64::law_decode_undoes_url_encode(sha256(encode_utf8(verifier)));
    base64::law_decode_undoes_url_encode(bytes);
}

} // verus!
