//! The signer against known vectors: byte-exact signatures, determinism, and
//! canonical-form details.

use awscore::canonical::{canonical_headers, canonical_query_string, percent_encode, KvPair};
use awscore::credentials::Credentials;
use awscore::sign::{build_canonical_request, sign, SigningContext};
use awscore::textutil::hex_encode;

fn kv(k: &[u8], v: &[u8]) -> KvPair {
    KvPair { key: k.to_vec(), value: v.to_vec() }
}

fn test_credentials() -> Credentials {
    Credentials {
        access_key_id: "AKIDEXAMPLE".to_string(),
        secret_access_key: "wJalrXUtnFEMI/K7MDENG+bPxRfiCYEXAMPLEKEY".to_string(),
        session_token: None,
    }
}

fn vanilla_context() -> SigningContext {
    SigningContext {
        method: b"GET".to_vec(),
        canonical_uri: b"/".to_vec(),
        query_params: Vec::new(),
        headers: vec![
            kv(b"host", b"example.amazonaws.com"),
            kv(b"x-amz-date", b"20150830T123600Z"),
        ],
        payload_hash: b"e3b0c44298fc1c149afbf4c8996fb92427ae41e4649b934ca495991b7852b855".to_vec(),
        region: b"us-east-1".to_vec(),
        service: b"service".to_vec(),
        amz_date: b"20150830T123600Z".to_vec(),
    }
}

#[test]
fn signature_matches_reference_vector() {
    // A fixed method, empty query, one host header, empty body, and known
    // test credentials: the signature must match the precomputed value from
    // the standard signing test vectors.
    let out = sign(&vanilla_context(), &test_credentials());
    let expected = b"AWS4-HMAC-SHA256 Credential=AKIDEXAMPLE/20150830/us-east-1/service/aws4_request, SignedHeaders=host;x-amz-date, Signature=5fa00fa31553b73ebf1942676e86291e8372ff2a2260956d9b8aae1d763fbf31".to_vec();
    assert_eq!(out.authorization, expected);
    assert_eq!(out.x_amz_date, b"20150830T123600Z".to_vec());
}

#[test]
fn canonical_request_matches_reference() {
    let cr = build_canonical_request(&vanilla_context());
    let expected = b"GET\n/\n\nhost:example.amazonaws.com\nx-amz-date:20150830T123600Z\n\n\
host;x-amz-date\ne3b0c44298fc1c149afbf4c8996fb92427ae41e4649b934ca495991b7852b855"
        .to_vec();
    assert_eq!(cr, expected);
}

#[test]
fn signing_is_deterministic() {
    // Identical inputs, the timestamp included, give byte-identical output
    // on repeated calls.
    let a = sign(&vanilla_context(), &test_credentials());
    let b = sign(&vanilla_context(), &test_credentials());
    assert_eq!(a.authorization, b.authorization);
    assert_eq!(a.x_amz_date, b.x_amz_date);
}

#[test]
fn canonical_query_sorts_by_key_regardless_of_input_order() {
    // {b:2, a:1} canonicalizes to a=1&b=2 in either input order.
    let one = canonical_query_string(&vec![kv(b"b", b"2"), kv(b"a", b"1")]);
    let two = canonical_query_string(&vec![kv(b"a", b"1"), kv(b"b", b"2")]);
    assert_eq!(one, b"a=1&b=2".to_vec());
    assert_eq!(two, b"a=1&b=2".to_vec());
}

#[test]
fn canonical_query_sorts_equal_keys_by_value() {
    let q = canonical_query_string(&vec![kv(b"k", b"zz"), kv(b"k", b"aa")]);
    assert_eq!(q, b"k=aa&k=zz".to_vec());
}

#[test]
fn canonical_query_percent_encodes_both_sides() {
    let q = canonical_query_string(&vec![kv(b"a b", b"c/d")]);
    assert_eq!(q, b"a%20b=c%2Fd".to_vec());
}

#[test]
fn percent_encoding_keeps_unreserved_and_uppercases_hex() {
    assert_eq!(percent_encode(b"AZaz09-._~", false), b"AZaz09-._~".to_vec());
    assert_eq!(percent_encode(b" ", false), b"%20".to_vec());
    assert_eq!(percent_encode(b"/a b/c", true), b"/a%20b/c".to_vec());
    assert_eq!(percent_encode(b"/", false), b"%2F".to_vec());
    assert_eq!(percent_encode(&[0xffu8], false), b"%FF".to_vec());
}

#[test]
fn canonical_headers_lowercase_trim_and_sort() {
    let (block, names) = canonical_headers(&vec![
        kv(b"X-Amz-Date", b"20150830T123600Z"),
        kv(b"Host", b"  example.amazonaws.com  "),
    ]);
    assert_eq!(
        block,
        b"host:example.amazonaws.com\nx-amz-date:20150830T123600Z\n".to_vec()
    );
    assert_eq!(names, b"host;x-amz-date".to_vec());
}

#[test]
fn hex_encoding_is_lowercase() {
    assert_eq!(hex_encode(&[0xbe, 0xef, 0x00]), b"beef00".to_vec());
}

#[test]
fn session_token_is_carried_through() {
    let creds = Credentials {
        access_key_id: "AKIDEXAMPLE".to_string(),
        secret_access_key: "wJalrXUtnFEMI/K7MDENG+bPxRfiCYEXAMPLEKEY".to_string(),
        session_token: Some("the-token".to_string()),
    };
    let out = sign(&vanilla_context(), &creds);
    assert_eq!(out.x_amz_security_token, Some(b"the-token".to_vec()));
    let none = sign(&vanilla_context(), &test_credentials());
    assert!(none.x_amz_security_token.is_none());
}
