//! What a signature algorithm is, whichever scheme stands behind it.

use std::borrow::Cow;
use vstd::prelude::*;

use crate::error::CodecError;

verus! {

/// A signature that can be written as bytes and read back from them.
///
/// Every signature of an algorithm has the same number of bytes. Reading checks that
/// number and nothing else: whether the bytes are a signature that verifies is for the
/// algorithm to say.
pub trait AlgorithmSignature: Sized {
    /// The number of bytes of every signature of this kind.
    spec fn byte_len() -> nat;

    /// The bytes of the signature.
    spec fn bytes(&self) -> Seq<u8>;

    /// Every signature has [`AlgorithmSignature::byte_len`] bytes.
    proof fn lemma_byte_len(&self)
        ensures
            self.bytes().len() == Self::byte_len(),
    ;

    /// A signature is its bytes: two that hold the same bytes are the same signature.
    proof fn lemma_same_bytes(&self, other: &Self)
        requires
            self.bytes() == other.bytes(),
        ensures
            self == other,
    ;

    /// Reads a signature from `bytes`. It is there exactly when the bytes are as many as a
    /// signature has, and then it holds those bytes.
    fn try_from_slice(bytes: &[u8]) -> (decoded: Result<Self, CodecError>)
        ensures
            decoded is Ok <==> bytes@.len() == Self::byte_len(),
            decoded matches Ok(signature) ==> signature.bytes() == bytes@,
            decoded matches Err(error) ==> error == CodecError::SignatureLength,
    ;

    /// The bytes of the signature.
    fn as_bytes(&self) -> (bytes: Cow<'_, [u8]>)
        ensures
            bytes@ == self.bytes(),
            bytes@.len() == Self::byte_len(),
    ;
}

/// What [`AlgorithmSignature::try_from_slice`] returns for `bytes`: the signature that
/// holds them where they are as many as a signature has, and the error of a wrong length
/// where they are not.
pub open spec fn decodes<S: AlgorithmSignature>(
    bytes: Seq<u8>,
    decoded: Result<S, CodecError>,
) -> bool {
    match decoded {
        Ok(signature) => bytes.len() == S::byte_len() && signature.bytes() == bytes,
        Err(error) => bytes.len() != S::byte_len() && error == CodecError::SignatureLength,
    }
}

/// Bytes that are as many as a signature has are read as a signature, and writing that
/// signature gives the bytes back.
pub proof fn lemma_bytes_round_trip<S: AlgorithmSignature>(
    bytes: Seq<u8>,
    decoded: Result<S, CodecError>,
)
    requires
        bytes.len() == S::byte_len(),
        decodes(bytes, decoded),
    ensures
        decoded is Ok,
        decoded->Ok_0.bytes() == bytes,
{
}

/// Reading the bytes that a signature was written as gives that signature back.
pub proof fn lemma_signature_round_trip<S: AlgorithmSignature>(
    signature: S,
    decoded: Result<S, CodecError>,
)
    requires
        decodes(signature.bytes(), decoded),
    ensures
        decoded == Ok::<S, CodecError>(signature),
{
    signature.lemma_byte_len();
    decoded->Ok_0.lemma_same_bytes(&signature);
}

/// A signature algorithm: its name, its keys and signatures, and how it signs and
/// verifies. An algorithm keeps no state.
pub trait Algorithm {
    /// The key that signs.
    type SigningKey;

    /// The key that verifies.
    type VerifyingKey;

    /// What signing gives.
    type Signature: AlgorithmSignature;

    /// The name under which the algorithm is registered.
    spec fn spec_name(&self) -> Seq<char>;

    /// Whether `signature` is one that signing `message` with `signing_key` can give.
    spec fn signs(
        &self,
        signing_key: &Self::SigningKey,
        message: Seq<u8>,
        signature: &Self::Signature,
    ) -> bool;

    /// Whether `signature` is accepted for `message` under `verifying_key`.
    spec fn accepts(
        &self,
        signature: &Self::Signature,
        verifying_key: &Self::VerifyingKey,
        message: Seq<u8>,
    ) -> bool;

    /// The name under which the algorithm is registered.
    fn name(&self) -> (name: Cow<'static, str>)
        ensures
            name@ == self.spec_name(),
    ;

    /// Signs `message` with `signing_key`.
    fn sign(&self, signing_key: &Self::SigningKey, message: &[u8]) -> (signature: Self::Signature)
        ensures
            self.signs(signing_key, message@, &signature),
    ;

    /// Verifies `signature` for `message` under `verifying_key`. Whatever is wrong, with the
    /// signature, the key or the message, the answer is `false` and nothing more.
    fn verify_signature(
        &self,
        signature: &Self::Signature,
        verifying_key: &Self::VerifyingKey,
        message: &[u8],
    ) -> (accepted: bool)
        ensures
            accepted == self.accepts(signature, verifying_key, message@),
    ;
}

/// An algorithm under another name. Only the name differs: keys, signatures, signing and
/// verifying are those of the algorithm inside.
#[derive(Debug, Clone, Copy)]
pub struct Renamed<A> {
    /// The algorithm inside.
    pub inner: A,
    /// The name it goes by.
    pub name: &'static str,
}

impl<A: Algorithm> Renamed<A> {
    /// Gives `algorithm` the name `new_name`.
    pub fn new(algorithm: A, new_name: &'static str) -> (renamed: Self)
        ensures
            renamed.inner == algorithm,
            renamed.name == new_name,
    {
        Renamed { inner: algorithm, name: new_name }
    }
}

impl<A: Algorithm> Algorithm for Renamed<A> {
    type SigningKey = A::SigningKey;

    type VerifyingKey = A::VerifyingKey;

    type Signature = A::Signature;

    open spec fn spec_name(&self) -> Seq<char> {
        self.name@
    }

    open spec fn signs(
        &self,
        signing_key: &Self::SigningKey,
        message: Seq<u8>,
        signature: &Self::Signature,
    ) -> bool {
        self.inner.signs(signing_key, message, signature)
    }

    open spec fn accepts(
        &self,
        signature: &Self::Signature,
        verifying_key: &Self::VerifyingKey,
        message: Seq<u8>,
    ) -> bool {
        self.inner.accepts(signature, verifying_key, message)
    }

    fn name(&self) -> (name: Cow<'static, str>) {
        Cow::Borrowed(self.name)
    }

    fn sign(&self, signing_key: &Self::SigningKey, message: &[u8]) -> (signature: Self::Signature) {
        self.inner.sign(signing_key, message)
    }

    fn verify_signature(
        &self,
        signature: &Self::Signature,
        verifying_key: &Self::VerifyingKey,
        message: &[u8],
    ) -> (accepted: bool) {
        self.inner.verify_signature(signature, verifying_key, message)
    }
}

/// Renaming changes the name and nothing else: under the new name the algorithm gives the
/// signatures that it gave before, and accepts the signatures that it accepted before,
/// for every key and every message.
pub proof fn lemma_rename_changes_name_only<A: Algorithm>(
    algorithm: A,
    new_name: &'static str,
    signing_key: A::SigningKey,
    verifying_key: A::VerifyingKey,
    message: Seq<u8>,
    signature: A::Signature,
)
    ensures
        ({
            let renamed = Renamed { inner: algorithm, name: new_name };
            &&& renamed.spec_name() == new_name@
            &&& renamed.signs(&signing_key, message, &signature) == algorithm.signs(
                &signing_key,
                message,
                &signature,
            )
            &&& renamed.accepts(&signature, &verifying_key, message) == algorithm.accepts(
                &signature,
                &verifying_key,
                message,
            )
        }),
{
}

} // verus!
