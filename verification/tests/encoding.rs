use oauth1_request::canonical::CanonicalParameter;
use oauth1_request::signature_method::signing_key;
use oauth1_request::util::{
    ascii_to_string, ascii_uppercase, lex_lt, percent_encode_bytes, push_decimal,
};

fn encode_str(s: &str) -> String {
    String::from_utf8(percent_encode_bytes(s.as_bytes())).unwrap()
}

#[test]
fn percent_encode_leaves_unreserved_alone() {
    assert_eq!(
        encode_str("AZaz09-._~"),
        "AZaz09-._~",
    );
}

#[test]
fn percent_encode_escapes_reserved_bytes() {
    assert_eq!(encode_str("a b"), "a%20b");
    assert_eq!(encode_str("%"), "%25");
    assert_eq!(encode_str("="), "%3D");
    assert_eq!(encode_str("&"), "%26");
    assert_eq!(encode_str("http://example.com/"), "http%3A%2F%2Fexample.com%2F");
    assert_eq!(encode_str("r%20b"), "r%2520b");
}

#[test]
fn percent_encode_uses_upper_hex() {
    assert_eq!(encode_str("\x7f"), "%7F");
    assert_eq!(encode_str(":"), "%3A");
}

#[test]
fn percent_encode_empty_is_empty() {
    assert_eq!(encode_str(""), "");
}

#[test]
fn percent_encode_non_ascii_bytes() {
    let out = percent_encode_bytes(&[0xC3u8, 0xA9u8]);
    assert_eq!(out, b"%C3%A9".to_vec());
}

#[test]
fn uppercase_ascii() {
    assert_eq!(ascii_uppercase(b"get"), b"GET".to_vec());
    assert_eq!(ascii_uppercase(b"PoSt"), b"POST".to_vec());
    assert_eq!(ascii_uppercase(b"a-z_0"), b"A-Z_0".to_vec());
}

#[test]
fn decimal_digits() {
    let mut v: Vec<u8> = Vec::new();
    push_decimal(&mut v, 0);
    assert_eq!(v, b"0".to_vec());
    let mut v: Vec<u8> = Vec::new();
    push_decimal(&mut v, 137131201);
    assert_eq!(v, b"137131201".to_vec());
    let mut v: Vec<u8> = Vec::new();
    push_decimal(&mut v, 18446744073709551615);
    assert_eq!(v, b"18446744073709551615".to_vec());
}

#[test]
fn ascii_bytes_to_string() {
    assert_eq!(ascii_to_string(b"abc&=".to_vec()), "abc&=".to_string());
}

#[test]
fn lexicographic_order() {
    assert!(lex_lt(b"a", b"b"));
    assert!(!lex_lt(b"b", b"a"));
    assert!(!lex_lt(b"a", b"a"));
    assert!(lex_lt(b"a", b"aa"));
    assert!(!lex_lt(b"aa", b"a"));
    assert!(lex_lt(b"", b"a"));
    assert!(lex_lt(b"oauth_nonce", b"oauth_token"));
}

#[test]
fn signing_key_without_token_secret() {
    assert_eq!(signing_key("cs", None), b"cs&".to_vec());
}

#[test]
fn signing_key_with_token_secret() {
    assert_eq!(signing_key("cs", Some("ts")), b"cs&ts".to_vec());
}

#[test]
fn signing_key_encodes_each_secret() {
    assert_eq!(signing_key("c s", Some("t&s")), b"c%20s&t%26s".to_vec());
}

#[test]
fn canonical_names_in_order() {
    let mut p = CanonicalParameter::Callback;
    let mut names: Vec<&'static str> = Vec::new();
    while p != CanonicalParameter::Done {
        names.push(p.name());
        p = p.next();
    }
    assert_eq!(
        names,
        vec![
            "oauth_callback",
            "oauth_consumer_key",
            "oauth_nonce",
            "oauth_signature_method",
            "oauth_timestamp",
            "oauth_token",
            "oauth_verifier",
            "oauth_version",
        ],
    );
    assert_eq!(CanonicalParameter::Done.next(), CanonicalParameter::Done);
}

#[test]
fn canonical_precedes_candidate_names() {
    assert!(CanonicalParameter::Callback.precedes(b"z"));
    assert!(!CanonicalParameter::Callback.precedes(b"a"));
    assert!(!CanonicalParameter::Callback.precedes(b"oauth_callback"));
    assert!(CanonicalParameter::Callback.precedes(b"oauth_consumer_key"));
    assert!(CanonicalParameter::Token.precedes(b"oauth_verifier"));
    assert!(!CanonicalParameter::Done.precedes(b"zzz"));
}
