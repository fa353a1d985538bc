//! Signatures on the curve Ed25519, computed by the crate `ed25519-compact`.

use std::borrow::Cow;
use vstd::prelude::*;

use crate::alg::{SigningKey, VerifyingKey};
use crate::error::CodecError;
use crate::jwk::{lemma_name_order_unique, Entry, FieldValue, JsonWebKey, ToJsonWebKey};
use crate::names::{lemma_ascii_name_before, name_before};
use crate::traits::{Algorithm, AlgorithmSignature, Renamed};

verus! {

/// The number of bytes of a signature.
pub const SIGNATURE_BYTES: usize = 64;

/// A signature: 64 bytes.
#[derive(Debug, Clone, Copy, PartialEq, Eq, Hash)]
pub struct Signature {
    bytes: [u8; 64],
}

/// A key that verifies: 32 bytes.
#[derive(Debug, Clone, Copy, PartialEq, Eq, Hash)]
pub struct PublicKey {
    bytes: [u8; 32],
}

/// A key that signs: 64 bytes, the seed and then the public key.
#[derive(Debug, Clone, Copy, PartialEq, Eq, Hash)]
pub struct SecretKey {
    bytes: [u8; 64],
}

impl View for Signature {
    type V = Seq<u8>;

    closed spec fn view(&self) -> Seq<u8> {
        self.bytes@
    }
}

impl View for PublicKey {
    type V = Seq<u8>;

    closed spec fn view(&self) -> Seq<u8> {
        self.bytes@
    }
}

impl View for SecretKey {
    type V = Seq<u8>;

    closed spec fn view(&self) -> Seq<u8> {
        self.bytes@
    }
}

/// Copies 64 bytes out of a slice that holds as many.
fn copy_64(bytes: &[u8]) -> (copy: [u8; 64])
    requires
        bytes@.len() == 64,
    ensures
        copy@ == bytes@,
{
    let mut copy = [0u8; 64];
    let mut i: usize = 0;
    while i < 64
        invariant
            i <= 64,
            bytes@.len() == 64,
            forall|k: int| 0 <= k < i ==> copy@[k] == bytes@[k],
        decreases 64 - i,
    {
        copy[i] = bytes[i];
        i += 1;
    }
    assert(copy@ =~= bytes@);
    copy
}

impl AlgorithmSignature for Signature {
    open spec fn byte_len() -> nat {
        64
    }

    open spec fn bytes(&self) -> Seq<u8> {
        self@
    }

    proof fn lemma_byte_len(&self) {
    }

    proof fn lemma_same_bytes(&self, other: &Self) {
        assert(self.bytes =~= other.bytes);
    }

    fn try_from_slice(bytes: &[u8]) -> (decoded: Result<Self, CodecError>) {
        if bytes.len() != SIGNATURE_BYTES {
            return Err(CodecError::SignatureLength);
        }
        Ok(Signature { bytes: copy_64(bytes) })
    }

    fn as_bytes(&self) -> (bytes: Cow<'_, [u8]>) {
        Cow::Borrowed(self.bytes.as_slice())
    }
}

/// The error type of `ed25519-compact`.
#[verifier::external_type_specification]
#[verifier::external_body]
pub struct ExProviderError(ed25519_compact::Error);

/// The public key that `ed25519_compact::KeyPair::from_seed` derives from `seed`.
pub uninterp spec fn ed25519_public_key(seed: Seq<u8>) -> Seq<u8>;

/// The signature that `ed25519_compact::SecretKey::sign` gives for `message` under
/// `secret_key`, with `noise` mixed in.
pub uninterp spec fn ed25519_signature(
    secret_key: Seq<u8>,
    message: Seq<u8>,
    noise: Seq<u8>,
) -> Seq<u8>;

/// Whether `ed25519_compact::PublicKey::verify` accepts `signature` for `message` under
/// `public_key`.
pub uninterp spec fn ed25519_verifies(
    public_key: Seq<u8>,
    message: Seq<u8>,
    signature: Seq<u8>,
) -> bool;

/// Whether every byte of `bytes` is zero.
pub open spec fn all_zero(bytes: Seq<u8>) -> bool {
    forall|i: int| 0 <= i < bytes.len() ==> bytes[i] == 0
}

/// Reads a public key with `ed25519_compact::PublicKey::from_slice`.
///
/// Not proved: that the crate accepts exactly the slices of 32 bytes, and keeps the bytes
/// as they are.
#[verifier::external_body]
fn provider_public_key(raw: &[u8]) -> (decoded: Result<[u8; 32], ed25519_compact::Error>)
    ensures
        decoded is Ok <==> raw@.len() == 32,
        decoded matches Ok(bytes) ==> bytes@ == raw@,
{
    match ed25519_compact::PublicKey::from_slice(raw) {
        Ok(key) => Ok(*key),
        Err(error) => Err(error),
    }
}

/// Reads a secret key with `ed25519_compact::SecretKey::from_slice`.
///
/// Not proved: that the crate accepts exactly the slices of 64 bytes, and keeps the bytes
/// as they are.
#[verifier::external_body]
fn provider_secret_key(raw: &[u8]) -> (decoded: Result<[u8; 64], ed25519_compact::Error>)
    ensures
        decoded is Ok <==> raw@.len() == 64,
        decoded matches Ok(bytes) ==> bytes@ == raw@,
{
    match ed25519_compact::SecretKey::from_slice(raw) {
        Ok(key) => Ok(*key),
        Err(error) => Err(error),
    }
}

/// The public half of a secret key, by `ed25519_compact::SecretKey::public_key`.
///
/// Not proved: that it is the last 32 bytes of the secret key.
#[verifier::external_body]
fn provider_public_half(secret_key: &[u8; 64]) -> (public_key: [u8; 32])
    ensures
        public_key@ == secret_key@.subrange(32, 64),
{
    *ed25519_compact::SecretKey::new(*secret_key).public_key()
}

/// Derives a key pair from a seed with `ed25519_compact::KeyPair::from_seed`, which does
/// not take a seed of zeros.
///
/// Not proved: that the public key is the one named [`ed25519_public_key`], that is, that
/// it depends on the seed alone, and that the secret key is the seed followed by the public
/// key.
#[verifier::external_body]
fn provider_key_pair(seed: &[u8; 32]) -> (pair: ([u8; 64], [u8; 32]))
    requires
        !all_zero(seed@),
    ensures
        pair.1@ == ed25519_public_key(seed@),
        pair.0@ == seed@ + pair.1@,
{
    let pair = ed25519_compact::KeyPair::from_seed(ed25519_compact::Seed::new(*seed));
    (*pair.sk, *pair.pk)
}

/// Draws the noise for one signature from the operating system, with
/// `ed25519_compact::Noise::default`. Nothing is said of the bytes drawn. The call does
/// not come back where the operating system gives no random bytes.
#[verifier::external_body]
fn provider_noise() -> (noise: [u8; 16]) {
    *ed25519_compact::Noise::default()
}

/// Signs with `ed25519_compact::SecretKey::sign`.
///
/// Not proved: that the signature is the one named [`ed25519_signature`], that is, that it
/// depends on the key, the message and the noise alone.
#[verifier::external_body]
fn provider_sign(secret_key: &[u8; 64], message: &[u8], noise: &[u8; 16]) -> (signature: [u8; 64])
    ensures
        signature@ == ed25519_signature(secret_key@, message@, noise@),
{
    let key = ed25519_compact::SecretKey::new(*secret_key);
    *key.sign(message, Some(ed25519_compact::Noise::new(*noise)))
}

/// Verifies with `ed25519_compact::PublicKey::verify`; any error of the crate is a `false`.
///
/// Not proved: that the answer is the one named [`ed25519_verifies`], that is, that it
/// depends on the key, the message and the signature alone.
#[verifier::external_body]
fn provider_verify(public_key: &[u8; 32], message: &[u8], signature: &[u8; 64]) -> (accepted: bool)
    ensures
        accepted == ed25519_verifies(public_key@, message@, signature@),
{
    let key = ed25519_compact::PublicKey::new(*public_key);
    key.verify(message, &ed25519_compact::Signature::new(*signature)).is_ok()
}

impl VerifyingKey<Ed25519> for PublicKey {
    open spec fn bytes(&self) -> Seq<u8> {
        self@
    }

    open spec fn is_key(raw: Seq<u8>) -> bool {
        raw.len() == 32
    }

    fn from_slice(raw: &[u8]) -> (decoded: Result<Self, CodecError>) {
        match provider_public_key(raw) {
            Ok(bytes) => Ok(PublicKey { bytes }),
            Err(_) => Err(CodecError::KeyFormat),
        }
    }

    fn as_bytes(&self) -> (bytes: Cow<'_, [u8]>) {
        Cow::Borrowed(self.bytes.as_slice())
    }
}

impl SigningKey<Ed25519> for SecretKey {
    open spec fn bytes(&self) -> Seq<u8> {
        self@
    }

    open spec fn is_key(raw: Seq<u8>) -> bool {
        raw.len() == 64
    }

    closed spec fn verifying_key(&self) -> PublicKey {
        PublicKey { bytes: public_half(self.bytes) }
    }

    fn from_slice(raw: &[u8]) -> (decoded: Result<Self, CodecError>) {
        match provider_secret_key(raw) {
            Ok(bytes) => Ok(SecretKey { bytes }),
            Err(_) => Err(CodecError::KeyFormat),
        }
    }

    /// The verifying key is the second half of the signing key.
    fn to_verifying_key(&self) -> (key: PublicKey)
        ensures
            key@ == self@.subrange(32, 64),
    {
        let bytes = provider_public_half(&self.bytes);
        proof {
            lemma_public_half(self.bytes, bytes);
        }
        PublicKey { bytes }
    }

    fn as_bytes(&self) -> (bytes: Cow<'_, [u8]>) {
        Cow::Borrowed(self.bytes.as_slice())
    }
}

impl ToJsonWebKey for PublicKey {
    /// The key type `OKP`, the curve `Ed25519`, and the key itself under `x`.
    open spec fn jwk_fields(&self) -> Seq<Entry> {
        seq![
            ("crv"@, FieldValue::Str("Ed25519"@)),
            ("kty"@, FieldValue::Str("OKP"@)),
            ("x"@, FieldValue::Bytes(self@)),
        ]
    }

    fn to_jwk(&self) -> (key: JsonWebKey<'_>) {
        proof {
            lemma_okp_names();
        }
        let builder = JsonWebKey::builder("OKP");
        let builder = builder.with_str_field("crv", "Ed25519");
        let builder = builder.with_bytes_field("x", Cow::Borrowed(self.bytes.as_slice()));
        let ghost added = builder@;
        let key = builder.build();
        proof {
            let fields = self.jwk_fields();
            assert(fields.to_multiset() =~= added.to_multiset()) by {
                broadcast use vstd::seq_lib::group_to_multiset_ensures;
                let kty = ("kty"@, FieldValue::Str("OKP"@));
                let crv = ("crv"@, FieldValue::Str("Ed25519"@));
                let x = ("x"@, FieldValue::Bytes(self@));
                let none = Seq::<Entry>::empty();
                assert(added =~= none.push(kty).push(crv).push(x));
                assert(fields =~= none.push(crv).push(kty).push(x));
                assert(none.push(kty).push(crv).to_multiset() =~= none.push(crv).push(
                    kty,
                ).to_multiset());
            }
            lemma_name_order_unique(key@, fields);
        }
        key
    }
}

/// The names of the fields of a key on this curve are different names, and `crv` comes
/// before `kty`, which comes before `x`.
proof fn lemma_okp_names()
    ensures
        "crv"@ != "kty"@,
        "x"@ != "kty"@,
        "x"@ != "crv"@,
        name_before("crv"@, "kty"@),
        name_before("kty"@, "x"@),
        name_before("crv"@, "x"@),
{
    reveal_strlit("crv");
    reveal_strlit("kty");
    reveal_strlit("x");
    assert("crv"@[0] != "kty"@[0]);
    assert("x"@[0] != "kty"@[0]);
    assert("x"@[0] != "crv"@[0]);
    lemma_ascii_name_before("crv"@, "kty"@);
    lemma_ascii_name_before("kty"@, "x"@);
    lemma_ascii_name_before("crv"@, "x"@);
}

/// The array that holds the last 32 bytes of `secret_key`.
spec fn public_half(secret_key: [u8; 64]) -> [u8; 32] {
    choose|half: [u8; 32]| half@ == secret_key@.subrange(32, 64)
}

/// An array of 32 bytes is [`public_half`] of a secret key once it holds its last 32
/// bytes.
proof fn lemma_public_half(secret_key: [u8; 64], half: [u8; 32])
    requires
        half@ == secret_key@.subrange(32, 64),
    ensures
        half == public_half(secret_key),
{
    let chosen = public_half(secret_key);
    assert(chosen@ == half@);
    assert(chosen =~= half);
}

/// Signatures on the curve Ed25519, under the name `EdDSA`, as the registry of algorithm
/// names has it. [`Ed25519::with_specific_name`] gives the same algorithm under the name
/// `Ed25519`.
#[derive(Debug, Clone, Copy, PartialEq, Eq, Hash)]
pub struct Ed25519;

impl Algorithm for Ed25519 {
    type SigningKey = SecretKey;

    type VerifyingKey = PublicKey;

    type Signature = Signature;

    open spec fn spec_name(&self) -> Seq<char> {
        "EdDSA"@
    }

    open spec fn signs(&self, signing_key: &SecretKey, message: Seq<u8>, signature: &Signature) -> bool {
        exists|noise: Seq<u8>|
            noise.len() == 16 && signature@ == #[trigger] ed25519_signature(
                signing_key@,
                message,
                noise,
            )
    }

    open spec fn accepts(&self, signature: &Signature, verifying_key: &PublicKey, message: Seq<u8>) -> bool {
        ed25519_verifies(verifying_key@, message, signature@)
    }

    fn name(&self) -> (name: Cow<'static, str>) {
        Cow::Borrowed("EdDSA")
    }

    fn sign(&self, signing_key: &SecretKey, message: &[u8]) -> (signature: Signature) {
        let noise = provider_noise();
        self.sign_with_noise(signing_key, message, &noise)
    }

    fn verify_signature(&self, signature: &Signature, verifying_key: &PublicKey, message: &[u8]) -> (accepted: bool) {
        provider_verify(&verifying_key.bytes, message, &signature.bytes)
    }
}

impl Ed25519 {
    /// The algorithm under the name `Ed25519`, which the registry does not have but some
    /// applications use.
    pub fn with_specific_name() -> (renamed: Renamed<Self>)
        ensures
            renamed.inner == Ed25519,
            renamed.spec_name() == "Ed25519"@,
    {
        Renamed::new(Ed25519, "Ed25519")
    }

    /// Signs `message` with `signing_key` and the noise given.
    pub fn sign_with_noise(&self, signing_key: &SecretKey, message: &[u8], noise: &[u8; 16]) -> (signature: Signature)
        ensures
            signature@ == ed25519_signature(signing_key@, message@, noise@),
            self.signs(signing_key, message@, &signature),
    {
        let signature = Signature { bytes: provider_sign(&signing_key.bytes, message, noise) };
        assert(noise@.len() == 16 && signature@ == ed25519_signature(
            signing_key@,
            message@,
            noise@,
        ));
        signature
    }

    /// Whether a key pair can be derived from `seed`: from every seed but the one of zeros.
    pub fn seed_is_usable(seed: &[u8; 32]) -> (usable: bool)
        ensures
            usable == !all_zero(seed@),
    {
        let mut i: usize = 0;
        while i < 32
            invariant
                i <= 32,
                forall|k: int| 0 <= k < i ==> seed@[k] == 0,
            decreases 32 - i,
        {
            if seed[i] != 0 {
                return true;
            }
            i += 1;
        }
        false
    }

    /// The key pair of `seed`: the same seed gives the same pair.
    pub fn key_pair_from_seed(&self, seed: &[u8; 32]) -> (pair: (SecretKey, PublicKey))
        requires
            !all_zero(seed@),
        ensures
            is_key_pair_of(seed@, pair.0@, pair.1@),
            pair.1 == pair.0.verifying_key(),
    {
        let (secret, public) = provider_key_pair(seed);
        proof {
            assert(public@ =~= secret@.subrange(32, 64));
            lemma_public_half(secret, public);
        }
        (SecretKey { bytes: secret }, PublicKey { bytes: public })
    }

    /// The key pair of a seed that was drawn at random, where it has one: every seed has
    /// but the one of zeros.
    pub fn generate(&self, seed: &[u8; 32]) -> (pair: Option<(SecretKey, PublicKey)>)
        ensures
            match pair {
                Some((secret_key, public_key)) => {
                    &&& is_key_pair_of(seed@, secret_key@, public_key@)
                    &&& public_key == secret_key.verifying_key()
                },
                None => all_zero(seed@),
            },
    {
        if Self::seed_is_usable(seed) {
            Some(self.key_pair_from_seed(seed))
        } else {
            None
        }
    }
}

/// `secret_key` and `public_key` are the key pair of `seed`. The seed of zeros has none.
pub open spec fn is_key_pair_of(seed: Seq<u8>, secret_key: Seq<u8>, public_key: Seq<u8>) -> bool {
    &&& seed.len() == 32
    &&& !all_zero(seed)
    &&& public_key == ed25519_public_key(seed)
    &&& secret_key == seed + public_key
}

} // verus!
