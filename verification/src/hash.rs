//! The digests a thumbprint can be computed with.

use sha2::Digest;
use vstd::prelude::*;

verus! {

/// The hash function that a caller chooses for a thumbprint.
#[derive(Debug, Clone, Copy, PartialEq, Eq, Structural)]
pub enum ThumbprintHash {
    /// SHA-256, with 32 bytes of output.
    Sha256,
    /// SHA-384, with 48 bytes of output.
    Sha384,
    /// SHA-512, with 64 bytes of output.
    Sha512,
}

/// The output of `sha2::Sha256::digest` on `data`.
pub uninterp spec fn sha256(data: Seq<u8>) -> Seq<u8>;

/// The output of `sha2::Sha384::digest` on `data`.
pub uninterp spec fn sha384(data: Seq<u8>) -> Seq<u8>;

/// The output of `sha2::Sha512::digest` on `data`.
pub uninterp spec fn sha512(data: Seq<u8>) -> Seq<u8>;

/// The digest of `data` under `hash`.
pub open spec fn digest_of(hash: ThumbprintHash, data: Seq<u8>) -> Seq<u8> {
    match hash {
        ThumbprintHash::Sha256 => sha256(data),
        ThumbprintHash::Sha384 => sha384(data),
        ThumbprintHash::Sha512 => sha512(data),
    }
}

/// The number of bytes that `hash` puts out.
pub open spec fn output_len(hash: ThumbprintHash) -> nat {
    match hash {
        ThumbprintHash::Sha256 => 32,
        ThumbprintHash::Sha384 => 48,
        ThumbprintHash::Sha512 => 64,
    }
}

/// Hashes `data` with `sha2::Sha256::digest`.
///
/// Not proved: that the output is the one named [`sha256`], that is, that it depends on the
/// data alone, and that it is 32 bytes long, which is the output size that `sha2` declares
/// for this hasher.
#[verifier::external_body]
fn sha256_digest(data: &[u8]) -> (out: Vec<u8>)
    ensures
        out@ == sha256(data@),
        out@.len() == 32,
{
    sha2::Sha256::digest(data).to_vec()
}

/// Hashes `data` with `sha2::Sha384::digest`.
///
/// Not proved: that the output is the one named [`sha384`], that is, that it depends on the
/// data alone, and that it is 48 bytes long, which is the output size that `sha2` declares
/// for this hasher.
#[verifier::external_body]
fn sha384_digest(data: &[u8]) -> (out: Vec<u8>)
    ensures
        out@ == sha384(data@),
        out@.len() == 48,
{
    sha2::Sha384::digest(data).to_vec()
}

/// Hashes `data` with `sha2::Sha512::digest`.
///
/// Not proved: that the output is the one named [`sha512`], that is, that it depends on the
/// data alone, and that it is 64 bytes long, which is the output size that `sha2` declares
/// for this hasher.
#[verifier::external_body]
fn sha512_digest(data: &[u8]) -> (out: Vec<u8>)
    ensures
        out@ == sha512(data@),
        out@.len() == 64,
{
    sha2::Sha512::digest(data).to_vec()
}

impl ThumbprintHash {
    /// Hashes `data` with the function chosen.
    pub fn digest(self, data: &[u8]) -> (out: Vec<u8>)
        ensures
            out@ == digest_of(self, data@),
            out@.len() == output_len(self),
    {
        match self {
            ThumbprintHash::Sha256 => sha256_digest(data),
            ThumbprintHash::Sha384 => sha384_digest(data),
            ThumbprintHash::Sha512 => sha512_digest(data),
        }
    }
}

} // verus!
