//! Keys, and the algorithms that the library brings with it.

use std::borrow::Cow;
use vstd::prelude::*;

use crate::error::CodecError;
use crate::traits::Algorithm;

pub mod eddsa_compact;

pub use self::eddsa_compact::Ed25519;

verus! {

/// A key that verifies the signatures of the algorithm `T`.
pub trait VerifyingKey<T: Algorithm>: Sized {
    /// The bytes of the key, as they are stored and sent.
    spec fn bytes(&self) -> Seq<u8>;

    /// Whether `raw` is a key of the algorithm.
    spec fn is_key(raw: Seq<u8>) -> bool;

    /// Reads a key from `raw`. It is there exactly when `raw` is a key of the algorithm,
    /// and then it holds those bytes.
    fn from_slice(raw: &[u8]) -> (decoded: Result<Self, CodecError>)
        ensures
            decoded is Ok <==> Self::is_key(raw@),
            decoded matches Ok(key) ==> key.bytes() == raw@,
            decoded matches Err(error) ==> error == CodecError::KeyFormat,
    ;

    /// The bytes of the key, as they are stored and sent.
    fn as_bytes(&self) -> (bytes: Cow<'_, [u8]>)
        ensures
            bytes@ == self.bytes(),
    ;
}

/// A key that signs for the algorithm `T`.
pub trait SigningKey<T: Algorithm>: Sized {
    /// The bytes of the key, as they are stored.
    spec fn bytes(&self) -> Seq<u8>;

    /// Whether `raw` is a key of the algorithm.
    spec fn is_key(raw: Seq<u8>) -> bool;

    /// The key that verifies what this key signs.
    spec fn verifying_key(&self) -> T::VerifyingKey;

    /// Reads a key from `raw`. It is there exactly when `raw` is a key of the algorithm,
    /// and then it holds those bytes.
    fn from_slice(raw: &[u8]) -> (decoded: Result<Self, CodecError>)
        ensures
            decoded is Ok <==> Self::is_key(raw@),
            decoded matches Ok(key) ==> key.bytes() == raw@,
            decoded matches Err(error) ==> error == CodecError::KeyFormat,
    ;

    /// The key that verifies what this key signs: always the same one.
    fn to_verifying_key(&self) -> (key: T::VerifyingKey)
        ensures
            key == self.verifying_key(),
    ;

    /// The bytes of the key, as they are stored.
    fn as_bytes(&self) -> (bytes: Cow<'_, [u8]>)
        ensures
            bytes@ == self.bytes(),
    ;
}

} // verus!
