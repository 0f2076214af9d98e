//! The calls into other crates and into the standard library whose results
//! the rest of the library takes as given.

use sha2::Digest;
use vstd::prelude::*;

verus! {

/// The SHA-256 digest of a sequence of bytes.
pub uninterp spec fn sha256_digest(data: Seq<u8>) -> Seq<u8>;

/// The Unicode lower-case form of a text.
pub uninterp spec fn unicode_lower(value: Seq<char>) -> Seq<char>;

/// The failure of the system's random number source (`getrandom::Error`).
#[verifier::external_type_specification]
#[verifier::external_body]
pub struct ExRandomError(getrandom::Error);

/// Hashes bytes with `sha2::Sha256::digest`.
///
/// The digest depends on the bytes alone and is 32 bytes long; what bytes it
/// holds is not stated.
#[verifier::external_body]
pub(crate) fn sha256(data: &[u8]) -> (digest: Vec<u8>)
    ensures
        digest@ == sha256_digest(data@),
        digest@.len() == 32,
{
    sha2::Sha256::digest(data).to_vec()
}

/// Converts a text with `str::to_lowercase`.
///
/// The result depends on the text alone; the case mapping of Unicode is not
/// written out.
#[verifier::external_body]
pub(crate) fn lower_case(value: &str) -> (lowered: String)
    ensures
        lowered@ == unicode_lower(value@),
{
    value.to_lowercase()
}

/// Draws bytes with `getrandom::fill`.
///
/// Where the source does not fail there are as many bytes as asked for.
/// Nothing is claimed of what they are, nor of when the source fails.
#[verifier::external_body]
pub(crate) fn random_bytes(length: usize) -> (bytes: Result<Vec<u8>, getrandom::Error>)
    requires
        length <= 64,
    ensures
        bytes matches Ok(drawn) ==> drawn@.len() == length,
{
    let mut bytes = vec![0u8; length];
    getrandom::fill(&mut bytes)?;
    Ok(bytes)
}

} // verus!
