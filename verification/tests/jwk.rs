use std::borrow::Cow;

use jwt_compact::alg::eddsa_compact::PublicKey;
use jwt_compact::alg::VerifyingKey;
use jwt_compact::hash::ThumbprintHash;
use jwt_compact::jwk::{JsonWebKey, ToJsonWebKey};
use jwt_compact::names::{comes_before, same_name};
use jwt_compact::text::write_object;
use sha2::Digest;

const OKP_TEXT: &str = r#"{"crv":"Ed25519","kty":"OKP","x":"dGVzdA"}"#;

fn okp_key<'a>() -> JsonWebKey<'a> {
    JsonWebKey::builder("OKP")
        .with_str_field("crv", "Ed25519")
        .with_bytes_field("x", Cow::Borrowed(&b"test"[..]))
        .build()
}

#[test]
fn serializing_jwk() {
    let jwk = okp_key();
    let mut object = serde_json::Map::new();
    for (name, value) in jwk.entries() {
        object.insert(name.to_owned(), serde_json::Value::String(value));
    }
    let json = serde_json::Value::Object(object);

    let mut expected = serde_json::Map::new();
    expected.insert("crv".to_owned(), serde_json::Value::String("Ed25519".to_owned()));
    expected.insert("kty".to_owned(), serde_json::Value::String("OKP".to_owned()));
    expected.insert("x".to_owned(), serde_json::Value::String("dGVzdA".to_owned()));
    assert_eq!(json, serde_json::Value::Object(expected));
}

#[test]
fn entries_come_in_the_order_of_their_names() {
    let jwk = okp_key();
    assert_eq!(
        jwk.entries(),
        vec![
            ("crv", "Ed25519".to_owned()),
            ("kty", "OKP".to_owned()),
            ("x", "dGVzdA".to_owned()),
        ]
    );
}

#[test]
fn canonical_text_of_an_okp_key() {
    assert_eq!(okp_key().to_string(), OKP_TEXT);
}

#[test]
fn sha256_thumbprint_is_the_digest_of_the_text() {
    let digest = okp_key().thumbprint(ThumbprintHash::Sha256);
    let expected: [u8; 32] = [
        200, 79, 90, 163, 7, 18, 146, 193, 10, 183, 132, 59, 225, 143, 185, 35, 154, 45, 69, 21,
        170, 193, 115, 24, 76, 34, 75, 43, 228, 25, 3, 28,
    ];
    assert_eq!(digest, expected.to_vec());
    assert_eq!(digest, sha2::Sha256::digest(OKP_TEXT.as_bytes()).to_vec());
}

#[test]
fn sha384_thumbprint_is_the_digest_of_the_text() {
    let digest = okp_key().thumbprint(ThumbprintHash::Sha384);
    let expected: [u8; 48] = [
        170, 217, 224, 81, 82, 16, 228, 170, 221, 13, 44, 16, 44, 222, 41, 184, 211, 63, 90, 27,
        121, 211, 92, 203, 64, 3, 71, 225, 101, 157, 42, 94, 121, 184, 91, 2, 73, 62, 75, 26, 182,
        69, 172, 138, 76, 166, 236, 147,
    ];
    assert_eq!(digest, expected.to_vec());
    assert_eq!(digest, sha2::Sha384::digest(OKP_TEXT.as_bytes()).to_vec());
}

#[test]
fn sha512_thumbprint_is_the_digest_of_the_text() {
    let digest = okp_key().thumbprint(ThumbprintHash::Sha512);
    let expected: [u8; 64] = [
        97, 211, 40, 202, 2, 243, 234, 76, 109, 187, 56, 142, 110, 5, 255, 29, 211, 0, 86, 226,
        207, 135, 151, 205, 209, 200, 118, 179, 84, 22, 164, 108, 52, 186, 204, 76, 174, 34, 238,
        200, 161, 0, 111, 61, 113, 111, 81, 42, 161, 225, 128, 46, 153, 107, 7, 216, 62, 112, 103,
        248, 82, 77, 60, 3,
    ];
    assert_eq!(digest, expected.to_vec());
    assert_eq!(digest, sha2::Sha512::digest(OKP_TEXT.as_bytes()).to_vec());
}

#[test]
fn digest_differs_with_the_hash_and_with_the_data() {
    let one = ThumbprintHash::Sha256.digest(b"one");
    assert_eq!(one.len(), 32);
    assert_eq!(one, sha2::Sha256::digest(b"one").to_vec());
    assert_ne!(one, ThumbprintHash::Sha256.digest(b"two"));
    assert_eq!(ThumbprintHash::Sha384.digest(b"one").len(), 48);
    assert_eq!(ThumbprintHash::Sha512.digest(b"one").len(), 64);
    assert_ne!(one, b"one".to_vec());
}

#[test]
fn insertion_order_leaves_no_trace() {
    let first = JsonWebKey::builder("RSA")
        .with_bytes_field("n", Cow::Owned(vec![1, 2, 3, 4, 5]))
        .with_bytes_field("e", Cow::Owned(vec![1, 0, 1]))
        .with_str_field("alg", "RS256")
        .build();
    let second = JsonWebKey::builder("RSA")
        .with_str_field("alg", "RS256")
        .with_bytes_field("e", Cow::Owned(vec![1, 0, 1]))
        .with_bytes_field("n", Cow::Owned(vec![1, 2, 3, 4, 5]))
        .build();
    assert_eq!(first.entries(), second.entries());
    assert_eq!(first.to_string(), second.to_string());
    assert_eq!(first.to_string(), r#"{"alg":"RS256","e":"AQAB","kty":"RSA","n":"AQIDBAU"}"#);
    for hash in [ThumbprintHash::Sha256, ThumbprintHash::Sha384, ThumbprintHash::Sha512] {
        assert_eq!(first.thumbprint(hash), second.thumbprint(hash));
    }
}

#[test]
fn borrowed_and_owned_bytes_give_the_same_key() {
    let bytes = vec![0xfb_u8, 0xff, 0xfe];
    let borrowed = JsonWebKey::builder("oct").with_bytes_field("k", Cow::Borrowed(&bytes[..])).build();
    let owned = JsonWebKey::builder("oct").with_bytes_field("k", Cow::Owned(bytes.clone())).build();
    assert_eq!(borrowed.to_string(), owned.to_string());
    assert_eq!(borrowed.to_string(), r#"{"k":"-__-","kty":"oct"}"#);
}

#[test]
fn key_of_the_key_type_alone() {
    let jwk = JsonWebKey::builder("oct").build();
    assert_eq!(jwk.to_string(), r#"{"kty":"oct"}"#);
    assert_eq!(jwk.entries(), vec![("kty", "oct".to_owned())]);
}

#[test]
fn empty_bytes_are_an_empty_text() {
    let jwk = JsonWebKey::builder("oct").with_bytes_field("k", Cow::Borrowed(&[][..])).build();
    assert_eq!(jwk.to_string(), r#"{"k":"","kty":"oct"}"#);
}

#[test]
fn key_type_can_move_from_the_first_place() {
    let jwk = JsonWebKey::builder("EC")
        .with_str_field("y", "2")
        .with_str_field("x", "1")
        .with_str_field("crv", "P-256")
        .build();
    assert_eq!(jwk.to_string(), r#"{"crv":"P-256","kty":"EC","x":"1","y":"2"}"#);
}

#[test]
fn a_prefix_comes_before_what_extends_it() {
    let jwk = JsonWebKey::builder("t")
        .with_str_field("x5t", "c")
        .with_str_field("x5", "b")
        .with_str_field("x", "a")
        .with_str_field("X", "d")
        .build();
    assert_eq!(jwk.to_string(), r#"{"X":"d","kty":"t","x":"a","x5":"b","x5t":"c"}"#);
}

#[test]
fn builder_tells_which_names_are_taken() {
    let builder = JsonWebKey::builder("OKP");
    assert!(builder.has_field("kty"));
    assert!(!builder.has_field("crv"));
    assert!(!builder.has_field("kt"));
    assert!(!builder.has_field("ktyy"));
    let builder = builder.with_str_field("crv", "Ed25519");
    assert!(builder.has_field("crv"));
    assert!(builder.has_field("kty"));
    assert!(!builder.has_field("x"));
    let builder = builder.with_bytes_field("x", Cow::Borrowed(&b"test"[..]));
    assert!(builder.has_field("x"));
    assert!(!builder.has_field(""));
}

#[test]
fn object_of_given_members() {
    let pairs = vec![("b", "2".to_owned()), ("a", "1".to_owned())];
    assert_eq!(write_object(&pairs), r#"{"b":"2","a":"1"}"#);
    assert_eq!(write_object(&[]), "{}");
    assert_eq!(write_object(&[("only", String::new())]), r#"{"only":""}"#);
}

#[test]
fn names_and_values_are_written_as_they_are() {
    let pairs = vec![("na me", "va\"lue".to_owned()), ("é", "ü".to_owned())];
    assert_eq!(write_object(&pairs), "{\"na me\":\"va\"lue\",\"é\":\"ü\"}");
}

#[test]
fn order_of_names() {
    assert!(comes_before("crv", "kty"));
    assert!(!comes_before("kty", "crv"));
    assert!(!comes_before("kty", "kty"));
    assert!(comes_before("", "a"));
    assert!(!comes_before("a", ""));
    assert!(!comes_before("", ""));
    assert!(comes_before("x", "x5c"));
    assert!(!comes_before("x5c", "x"));
    assert!(comes_before("Z", "a"));
    assert!(comes_before("z", "é"));
    assert!(comes_before("é", "€"));
    assert_eq!(comes_before("ab", "b"), "ab" < "b");
    assert_eq!(comes_before("€", "é"), "€" < "é");
}

#[test]
fn sameness_of_names() {
    assert!(same_name("kty", "kty"));
    assert!(same_name("", ""));
    assert!(!same_name("kty", "kt"));
    assert!(!same_name("kt", "kty"));
    assert!(!same_name("kty", "ktx"));
    assert!(same_name("é", "é"));
}

#[test]
fn public_key_as_jwk() {
    let key = PublicKey::from_slice(&[7u8; 32]).unwrap();
    let jwk = key.to_jwk();
    assert_eq!(
        jwk.to_string(),
        r#"{"crv":"Ed25519","kty":"OKP","x":"BwcHBwcHBwcHBwcHBwcHBwcHBwcHBwcHBwcHBwcHBwc"}"#
    );
    assert_eq!(jwk.entries()[0], ("crv", "Ed25519".to_owned()));
    assert_eq!(jwk.entries()[1], ("kty", "OKP".to_owned()));
    assert_eq!(jwk.entries()[2].0, "x");
}
