//! Signature methods (RFC 5849 section 3.4).
//!
//! A `SignatureMethod` names an algorithm and says which protocol parameters
//! it uses; its associated `Sign` type is fed the signature base string piece
//! by piece and finally produces the `oauth_signature` value.

pub mod hmac_sha1;
pub mod plaintext;

pub use self::hmac_sha1::HmacSha1;
pub use self::plaintext::Plaintext;

use vstd::prelude::*;
use vstd::string::StringSliceAdditionalSpecFns;

use crate::util::{
    percent_encode_onto, spec_ascii_upper, spec_decimal, spec_percent_encode,
};

verus! {

/// The bytes fed for the encoded `=` between a parameter key and its value: `%3D`.
pub open spec fn spec_eq_bytes() -> Seq<u8> {
    seq![37u8, 51u8, 68u8]
}

/// The bytes fed for the encoded `&` between two parameters: `%26`.
pub open spec fn spec_amp_bytes() -> Seq<u8> {
    seq![37u8, 50u8, 54u8]
}

/// The bytes appended to the base string by feeding one `key=value` pair:
/// each component percent-encoded, joined by the literal encoded `=`.
pub open spec fn spec_parameter_feed(key: Seq<u8>, value: Seq<u8>) -> Seq<u8> {
    spec_percent_encode(key) + spec_eq_bytes() + spec_percent_encode(value)
}

/// The signing key derived from the client credentials: each secret
/// percent-encoded, joined by a literal `&`; a missing token secret
/// contributes nothing after the `&`.
pub open spec fn spec_signing_key(consumer_secret: Seq<u8>, token_secret: Option<Seq<u8>>) -> Seq<
    u8,
> {
    spec_percent_encode(consumer_secret) + seq![38u8] + match token_secret {
        Option::Some(t) => spec_percent_encode(t),
        Option::None => Seq::empty(),
    }
}

/// The bytes of an optional string.
pub open spec fn spec_opt_bytes(t: Option<&str>) -> Option<Seq<u8>> {
    match t {
        Option::Some(s) => Option::Some(s.spec_bytes()),
        Option::None => Option::None,
    }
}

/// Derives the signing key from the consumer secret and the optional token
/// secret.
pub fn signing_key(consumer_secret: &str, token_secret: Option<&str>) -> (r: Vec<u8>)
    ensures
        r@ == spec_signing_key(consumer_secret.spec_bytes(), spec_opt_bytes(token_secret)),
{
    let mut r: Vec<u8> = Vec::new();
    percent_encode_onto(&mut r, consumer_secret.as_bytes());
    r.push(38u8);
    match token_secret {
        Option::Some(t) => {
            percent_encode_onto(&mut r, t.as_bytes());
        },
        Option::None => {},
    }
    proof {
        assert(r@ =~= spec_signing_key(
            consumer_secret.spec_bytes(),
            spec_opt_bytes(token_secret),
        ));
    }
    r
}

/// Types that represent a signature method.
///
/// This is used to construct a `Self::Sign` and carries configuration data
/// for it.
pub trait SignatureMethod: Sized {
    /// The algorithm used by this signature method to sign a signature base
    /// string.
    type Sign: Sign;

    /// The `oauth_signature_method` string for the signature method.
    spec fn spec_name(&self) -> Seq<char>;

    /// Whether the `oauth_nonce` part of the signature base string is used.
    spec fn spec_use_nonce(&self) -> bool;

    /// Whether the `oauth_timestamp` part of the signature base string is used.
    spec fn spec_use_timestamp(&self) -> bool;

    /// Returns the `oauth_signature_method` string for the signature method.
    fn name(&self) -> (r: &'static str)
        ensures
            r@ == self.spec_name(),
    ;

    /// If this method returns `false`, the `oauth_nonce` part of the signature
    /// base string is not emitted.
    fn use_nonce(&self) -> (r: bool)
        ensures
            r == self.spec_use_nonce(),
    ;

    /// If this method returns `false`, the `oauth_timestamp` part of the
    /// signature base string is not emitted.
    fn use_timestamp(&self) -> (r: bool)
        ensures
            r == self.spec_use_timestamp(),
    ;
}

impl<'a, SM: SignatureMethod> SignatureMethod for &'a SM {
    type Sign = SM::Sign;

    open spec fn spec_name(&self) -> Seq<char> {
        (**self).spec_name()
    }

    open spec fn spec_use_nonce(&self) -> bool {
        (**self).spec_use_nonce()
    }

    open spec fn spec_use_timestamp(&self) -> bool {
        (**self).spec_use_timestamp()
    }

    fn name(&self) -> (r: &'static str) {
        SM::name(*self)
    }

    fn use_nonce(&self) -> (r: bool) {
        SM::use_nonce(*self)
    }

    fn use_timestamp(&self) -> (r: bool) {
        SM::use_timestamp(*self)
    }
}

/// Algorithms to sign a signature base string (RFC 5849 section 3.4.1).
///
/// A signer is fed the base string incrementally: the request method first,
/// the base URI second, then parameters in ascending order of encoded key
/// with `delimit` between any two of them. The caller is responsible for the
/// order; the signer only appends. `finish` consumes the signer, so no feed
/// can follow it.
pub trait Sign: Sized {
    /// The signature method associated with this algorithm.
    type SignatureMethod;

    /// The representation of the `oauth_signature` value the algorithm
    /// produces.
    type Signature;

    /// The signing key this signer was constructed over.
    spec fn key(&self) -> Seq<u8>;

    /// The signature base string fed so far.
    spec fn base(&self) -> Seq<u8>;

    /// The raw signature this algorithm produces from a signing key and a
    /// signature base string.
    spec fn spec_signature(key: Seq<u8>, base: Seq<u8>) -> Seq<u8>;

    /// The raw bytes held by a finished signature.
    spec fn sig_view(sig: Self::Signature) -> Seq<u8>;

    /// Creates a signer for the given client credentials.
    fn new(consumer_secret: &str, token_secret: Option<&str>, signature_method: Self::SignatureMethod) -> (s:
        Self)
        ensures
            s.key() == spec_signing_key(consumer_secret.spec_bytes(), spec_opt_bytes(token_secret)),
            s.base() == Seq::<u8>::empty(),
    ;

    /// The signature method object this signer was constructed with.
    spec fn spec_signature_method(&self) -> Self::SignatureMethod;

    /// Returns the underlying signature method object.
    fn get_signature_method(&self) -> (r: Self::SignatureMethod)
        ensures
            r == self.spec_signature_method(),
    ;

    /// Feeds the HTTP request method part of the signature base string:
    /// the method upper-cased, followed by a literal `&`.
    fn request_method(&mut self, method: &str)
        ensures
            final(self).key() == old(self).key(),
            final(self).base() == old(self).base() + spec_ascii_upper(method.spec_bytes())
                + seq![38u8],
    ;

    /// Feeds the base string URI part of the signature base string:
    /// the URI percent-encoded, followed by a literal `&`.
    fn uri(&mut self, uri: &str)
        ensures
            final(self).key() == old(self).key(),
            final(self).base() == old(self).base() + spec_percent_encode(uri.spec_bytes())
                + seq![38u8],
    ;

    /// Feeds one key-value parameter pair of the signature base string.
    fn parameter(&mut self, key: &str, value: &str)
        ensures
            final(self).key() == old(self).key(),
            final(self).base() == old(self).base() + spec_parameter_feed(
                key.spec_bytes(),
                value.spec_bytes(),
            ),
    ;

    /// Feeds the delimiter (`%26`) between two parameters.
    fn delimit(&mut self)
        ensures
            final(self).key() == old(self).key(),
            final(self).base() == old(self).base() + spec_amp_bytes(),
    ;

    /// Finalizes the signing process and returns the resulting signature.
    fn finish(self) -> (sig: Self::Signature)
        ensures
            Self::sig_view(sig) == Self::spec_signature(self.key(), self.base()),
    ;

    /// Feeds the `oauth_callback` parameter. `default_key` is always
    /// `"oauth_callback"`.
    fn callback(&mut self, default_key: &'static str, value: &str)
        ensures
            final(self).key() == old(self).key(),
            final(self).base() == old(self).base() + spec_parameter_feed(
                default_key.spec_bytes(),
                value.spec_bytes(),
            ),
    ;

    /// Feeds the `oauth_consumer_key` parameter. `default_key` is always
    /// `"oauth_consumer_key"`.
    fn consumer_key(&mut self, default_key: &'static str, value: &str)
        ensures
            final(self).key() == old(self).key(),
            final(self).base() == old(self).base() + spec_parameter_feed(
                default_key.spec_bytes(),
                value.spec_bytes(),
            ),
    ;

    /// Feeds the `oauth_nonce` parameter. `default_key` is always
    /// `"oauth_nonce"`.
    fn nonce(&mut self, default_key: &'static str, value: &str)
        ensures
            final(self).key() == old(self).key(),
            final(self).base() == old(self).base() + spec_parameter_feed(
                default_key.spec_bytes(),
                value.spec_bytes(),
            ),
    ;

    /// Feeds the `oauth_signature_method` parameter. `default_key` and
    /// `default_value` are always `"oauth_signature_method"` and the method's
    /// name.
    fn signature_method(&mut self, default_key: &'static str, default_value: &'static str)
        ensures
            final(self).key() == old(self).key(),
            final(self).base() == old(self).base() + spec_parameter_feed(
                default_key.spec_bytes(),
                default_value.spec_bytes(),
            ),
    ;

    /// Feeds the `oauth_timestamp` parameter, rendered in decimal.
    /// `default_key` is always `"oauth_timestamp"`.
    fn timestamp(&mut self, default_key: &'static str, value: u64)
        ensures
            final(self).key() == old(self).key(),
            final(self).base() == old(self).base() + spec_parameter_feed(
                default_key.spec_bytes(),
                spec_decimal(value as nat),
            ),
    ;

    /// Feeds the `oauth_token` parameter. `default_key` is always
    /// `"oauth_token"`.
    fn token(&mut self, default_key: &'static str, value: &str)
        ensures
            final(self).key() == old(self).key(),
            final(self).base() == old(self).base() + spec_parameter_feed(
                default_key.spec_bytes(),
                value.spec_bytes(),
            ),
    ;

    /// Feeds the `oauth_verifier` parameter. `default_key` is always
    /// `"oauth_verifier"`.
    fn verifier_param(&mut self, default_key: &'static str, value: &str)
        ensures
            final(self).key() == old(self).key(),
            final(self).base() == old(self).base() + spec_parameter_feed(
                default_key.spec_bytes(),
                value.spec_bytes(),
            ),
    ;

    /// Feeds the `oauth_version` parameter. `default_key` and `default_value`
    /// are always `"oauth_version"` and `"1.0"`.
    fn version(&mut self, default_key: &'static str, default_value: &'static str)
        ensures
            final(self).key() == old(self).key(),
            final(self).base() == old(self).base() + spec_parameter_feed(
                default_key.spec_bytes(),
                default_value.spec_bytes(),
            ),
    ;
}

} // verus!
