use base64::Engine;
use hmac::{Hmac, KeyInit, Mac};
use sha1::Sha1;

use oauth1_request::method_body::{Field, MandatedValues, MethodBody};
use oauth1_request::signature_method::hmac_sha1::{HmacSha1, HmacSha1Sign};
use oauth1_request::signature_method::plaintext::{Plaintext, PlaintextSign};
use oauth1_request::signature_method::Sign;
use oauth1_request::signature_method::SignatureMethod;
use oauth1_request::util::percent_encode_bytes;

/// Computes the rendered `oauth_signature` value directly with the hmac, sha1
/// and base64 crates over a given base string and signing key.
fn independent_signature(key: &[u8], base_string: &str) -> String {
    let mut mac = <Hmac<Sha1> as KeyInit>::new_from_slice(key).unwrap();
    mac.update(base_string.as_bytes());
    let tag = mac.finalize().into_bytes();
    let b64 = base64::engine::general_purpose::STANDARD.encode(&tag[..]);
    String::from_utf8(percent_encode_bytes(b64.as_bytes())).unwrap()
}

/// Feeds the worked example of RFC 5849 section 3.4.1.1 and returns the
/// rendered signature.
fn sign_rfc_example() -> String {
    let mut sign = <HmacSha1Sign as Sign>::new("cs", Some("ts"), HmacSha1);
    sign.request_method("POST");
    sign.uri("http://example.com/request");
    sign.parameter("a", "r%20b");
    sign.delimit();
    sign.parameter("a2", "a");
    sign.delimit();
    sign.consumer_key("oauth_consumer_key", "9djdj82h48djs9d2");
    sign.delimit();
    sign.nonce("oauth_nonce", "7d8f3e4a");
    sign.delimit();
    sign.signature_method("oauth_signature_method", "HMAC-SHA1");
    sign.delimit();
    sign.timestamp("oauth_timestamp", 137131201);
    sign.delimit();
    sign.token("oauth_token", "kkk9d7dh3k39sjv7");
    sign.delimit();
    sign.parameter("z", "");
    sign.finish().render()
}

#[test]
fn base_string_matches_rfc_worked_example() {
    let expected_base = "POST&http%3A%2F%2Fexample.com%2Frequest&a%3Dr%2520b%26a2%3Da\
%26oauth_consumer_key%3D9djdj82h48djs9d2%26oauth_nonce%3D7d8f3e4a\
%26oauth_signature_method%3DHMAC-SHA1%26oauth_timestamp%3D137131201\
%26oauth_token%3Dkkk9d7dh3k39sjv7%26z%3D";
    assert_eq!(sign_rfc_example(), independent_signature(b"cs&ts", expected_base));
}

#[test]
fn end_to_end_golden_value() {
    let mut sign = <HmacSha1Sign as Sign>::new("cs", None, HmacSha1);
    sign.request_method("GET");
    sign.uri("http://example.com/");
    sign.nonce("oauth_nonce", "abc");
    sign.delimit();
    sign.timestamp("oauth_timestamp", 123456789);
    let rendered = sign.finish().render();
    let expected_base =
        "GET&http%3A%2F%2Fexample.com%2F&oauth_nonce%3Dabc%26oauth_timestamp%3D123456789";
    assert_eq!(rendered, independent_signature(b"cs&", expected_base));
}

#[test]
fn request_method_is_upper_cased() {
    let mut lower = <HmacSha1Sign as Sign>::new("cs", None, HmacSha1);
    lower.request_method("get");
    lower.uri("http://example.com/");
    let mut upper = <HmacSha1Sign as Sign>::new("cs", None, HmacSha1);
    upper.request_method("GET");
    upper.uri("http://example.com/");
    assert_eq!(lower.finish().render(), upper.finish().render());
}

#[test]
fn hmac_sha1_is_deterministic() {
    let one = sign_rfc_example();
    let two = sign_rfc_example();
    assert_eq!(one, two);
}

#[test]
fn rendering_twice_yields_the_same_string() {
    let mut sign = <HmacSha1Sign as Sign>::new("cs", Some("ts"), HmacSha1);
    sign.request_method("GET");
    sign.uri("http://example.com/");
    let sig = sign.finish();
    assert_eq!(sig.render(), sig.render());
    let mut p = <PlaintextSign as Sign>::new("cs", Some("ts"), Plaintext);
    p.request_method("GET");
    p.uri("http://example.com/");
    let psig = p.finish();
    assert_eq!(psig.render(), psig.render());
}

#[test]
fn feed_order_changes_the_signature() {
    let mut sorted = <HmacSha1Sign as Sign>::new("cs", None, HmacSha1);
    sorted.request_method("GET");
    sorted.uri("http://example.com/");
    sorted.nonce("oauth_nonce", "abc");
    sorted.delimit();
    sorted.timestamp("oauth_timestamp", 123456789);
    let mut swapped = <HmacSha1Sign as Sign>::new("cs", None, HmacSha1);
    swapped.request_method("GET");
    swapped.uri("http://example.com/");
    swapped.timestamp("oauth_timestamp", 123456789);
    swapped.delimit();
    swapped.nonce("oauth_nonce", "abc");
    assert_ne!(sorted.finish().render(), swapped.finish().render());
}

#[test]
fn plaintext_ignores_method_uri_and_parameters() {
    let mut a = <PlaintextSign as Sign>::new("cs", Some("ts"), Plaintext);
    a.request_method("GET");
    a.uri("http://example.com/");
    a.parameter("a", "1");
    let mut b = <PlaintextSign as Sign>::new("cs", Some("ts"), Plaintext);
    b.request_method("POST");
    b.uri("http://other.example/");
    assert_eq!(a.finish().render(), b.finish().render());
}

#[test]
fn plaintext_renders_the_encoded_signing_key() {
    let mut sign = <PlaintextSign as Sign>::new("cs", Some("ts"), Plaintext);
    sign.request_method("GET");
    sign.uri("http://example.com/");
    assert_eq!(sign.finish().render(), "cs%26ts");
    let sign = <PlaintextSign as Sign>::new("c s", None, Plaintext);
    assert_eq!(sign.finish().render(), "c%2520s%26");
}

#[test]
fn method_descriptors_report_their_configuration() {
    assert_eq!(HmacSha1.name(), "HMAC-SHA1");
    assert!(HmacSha1.use_nonce());
    assert!(HmacSha1.use_timestamp());
    assert_eq!(Plaintext.name(), "PLAINTEXT");
    assert!(!Plaintext.use_nonce());
    assert!(!Plaintext.use_timestamp());
}

fn field(name: &str, value: &str, skip: bool) -> Field {
    Field { name: name.to_string(), value: value.to_string(), skip }
}

fn mandated_full() -> MandatedValues {
    MandatedValues {
        callback: None,
        consumer_key: Some("ck".to_string()),
        nonce: Some("n1".to_string()),
        signature_method: Some("HMAC-SHA1".to_string()),
        timestamp: Some(123),
        token: Some("tk".to_string()),
        verifier_value: None,
        version: Some("1.0".to_string()),
    }
}

/// The feed that `serialize` must produce for `mandated_full` and the sorted
/// fields `a=x`, `z=` (the mandated names all fall between `a` and `z`).
fn manual_merged_feed() -> String {
    let mut sign = <HmacSha1Sign as Sign>::new("cs", None, HmacSha1);
    sign.request_method("GET");
    sign.uri("http://example.com/");
    sign.parameter("a", "x");
    sign.delimit();
    sign.consumer_key("oauth_consumer_key", "ck");
    sign.delimit();
    sign.nonce("oauth_nonce", "n1");
    sign.delimit();
    sign.signature_method("oauth_signature_method", "HMAC-SHA1");
    sign.delimit();
    sign.timestamp("oauth_timestamp", 123);
    sign.delimit();
    sign.token("oauth_token", "tk");
    sign.delimit();
    sign.version("oauth_version", "1.0");
    sign.delimit();
    sign.parameter("z", "");
    sign.finish().render()
}

#[test]
fn serialize_interleaves_mandated_parameters_in_canonical_positions() {
    let fields = vec![field("a", "x", false), field("z", "", false)];
    let mut sign = <HmacSha1Sign as Sign>::new("cs", None, HmacSha1);
    sign.request_method("GET");
    sign.uri("http://example.com/");
    MethodBody::new(&fields).serialize(&mut sign, &mandated_full());
    assert_eq!(sign.finish().render(), manual_merged_feed());
}

#[test]
fn serialize_omits_skipped_fields() {
    let fields = vec![
        field("a", "x", false),
        field("b", "hidden", true),
        field("z", "", false),
    ];
    let mut sign = <HmacSha1Sign as Sign>::new("cs", None, HmacSha1);
    sign.request_method("GET");
    sign.uri("http://example.com/");
    MethodBody::new(&fields).serialize(&mut sign, &mandated_full());
    assert_eq!(sign.finish().render(), manual_merged_feed());
}

#[test]
fn serialize_is_order_sensitive() {
    let sorted = vec![field("a", "x", false), field("z", "", false)];
    let unsorted = vec![field("z", "", false), field("a", "x", false)];
    let mut one = <HmacSha1Sign as Sign>::new("cs", None, HmacSha1);
    one.request_method("GET");
    one.uri("http://example.com/");
    MethodBody::new(&sorted).serialize(&mut one, &mandated_full());
    let mut two = <HmacSha1Sign as Sign>::new("cs", None, HmacSha1);
    two.request_method("GET");
    two.uri("http://example.com/");
    MethodBody::new(&unsorted).serialize(&mut two, &mandated_full());
    assert_ne!(one.finish().render(), two.finish().render());
}

#[test]
fn serialize_with_no_fields_emits_only_mandated_parameters() {
    let fields: Vec<Field> = Vec::new();
    let mut via_body = <HmacSha1Sign as Sign>::new("cs", None, HmacSha1);
    via_body.request_method("GET");
    via_body.uri("http://example.com/");
    MethodBody::new(&fields).serialize(&mut via_body, &mandated_full());
    let mut manual = <HmacSha1Sign as Sign>::new("cs", None, HmacSha1);
    manual.request_method("GET");
    manual.uri("http://example.com/");
    manual.consumer_key("oauth_consumer_key", "ck");
    manual.delimit();
    manual.nonce("oauth_nonce", "n1");
    manual.delimit();
    manual.signature_method("oauth_signature_method", "HMAC-SHA1");
    manual.delimit();
    manual.timestamp("oauth_timestamp", 123);
    manual.delimit();
    manual.token("oauth_token", "tk");
    manual.delimit();
    manual.version("oauth_version", "1.0");
    assert_eq!(via_body.finish().render(), manual.finish().render());
}

#[test]
fn get_signature_method_returns_the_descriptor() {
    let sign = <HmacSha1Sign as Sign>::new("cs", None, HmacSha1);
    assert_eq!(sign.get_signature_method().name(), "HMAC-SHA1");
    let sign = <PlaintextSign as Sign>::new("cs", None, Plaintext);
    assert_eq!(sign.get_signature_method().name(), "PLAINTEXT");
}

#[test]
fn serialize_emits_callback_and_verifier_at_their_positions() {
    let fields = vec![field("status", "hi", false)];
    let mandated = MandatedValues {
        callback: Some("oob".to_string()),
        consumer_key: Some("ck".to_string()),
        nonce: None,
        signature_method: None,
        timestamp: None,
        token: None,
        verifier_value: Some("vf".to_string()),
        version: None,
    };
    let mut via_body = <HmacSha1Sign as Sign>::new("cs", None, HmacSha1);
    via_body.request_method("GET");
    via_body.uri("http://example.com/");
    MethodBody::new(&fields).serialize(&mut via_body, &mandated);
    let mut manual = <HmacSha1Sign as Sign>::new("cs", None, HmacSha1);
    manual.request_method("GET");
    manual.uri("http://example.com/");
    manual.callback("oauth_callback", "oob");
    manual.delimit();
    manual.consumer_key("oauth_consumer_key", "ck");
    manual.delimit();
    manual.verifier_param("oauth_verifier", "vf");
    manual.delimit();
    manual.parameter("status", "hi");
    assert_eq!(via_body.finish().render(), manual.finish().render());
}

#[test]
fn empty_parameter_set_is_legal() {
    let mut sign = <HmacSha1Sign as Sign>::new("cs", None, HmacSha1);
    sign.request_method("GET");
    sign.uri("http://example.com/");
    let rendered = sign.finish().render();
    let expected_base = "GET&http%3A%2F%2Fexample.com%2F&";
    assert_eq!(rendered, independent_signature(b"cs&", expected_base));
}

#[test]
fn empty_parameter_value_still_gets_the_equals_sign() {
    let mut sign = <HmacSha1Sign as Sign>::new("cs", None, HmacSha1);
    sign.request_method("GET");
    sign.uri("http://example.com/");
    sign.parameter("a", "");
    let rendered = sign.finish().render();
    let expected_base = "GET&http%3A%2F%2Fexample.com%2F&a%3D";
    assert_eq!(rendered, independent_signature(b"cs&", expected_base));
}
