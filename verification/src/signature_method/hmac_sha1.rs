//! The `HMAC-SHA1` signature method (RFC 5849 section 3.4.2).
//!
//! The base string is never buffered in full: every feed streams its bytes
//! straight into the keyed hash of the outside `hmac` crate.

use base64::Engine;
use hmac::{Hmac, KeyInit, Mac};
use sha1::Sha1;

use vstd::prelude::*;
use vstd::string::StringSliceAdditionalSpecFns;

use crate::signature_method::{
    spec_signing_key, signing_key, Sign, SignatureMethod,
};
use crate::util::{
    ascii_to_string, ascii_uppercase, lemma_percent_encode_ascii, percent_encode_bytes,
    percent_encode_onto, push_decimal, spec_decimal,
};

verus! {

/// The `HMAC-SHA1` signature method.
#[derive(Clone, Copy, Debug, Default)]
pub struct HmacSha1;

/// Holds the streaming HMAC-SHA1 state of the outside `hmac` crate; opaque
/// to the verifier, described only through `mac_key` and `mac_fed`.
#[verifier::external_body]
pub struct MacState {
    mac: Hmac<Sha1>,
}

/// The key a MAC state was initialized with.
pub uninterp spec fn mac_key(m: MacState) -> Seq<u8>;

/// The bytes fed to a MAC state so far.
pub uninterp spec fn mac_fed(m: MacState) -> Seq<u8>;

/// The 20-byte HMAC-SHA1 tag of `data` under `key`; a function of the two
/// arguments alone.
pub uninterp spec fn hmac_sha1_of(key: Seq<u8>, data: Seq<u8>) -> Seq<u8>;

/// The padded standard-alphabet base64 text of `data`; a function of the
/// argument alone.
pub uninterp spec fn base64_of(data: Seq<u8>) -> Seq<u8>;

/// Relies on hmac's `KeyInit::new_from_slice`: HMAC accepts keys of any
/// length, so the call never fails, and returns the keyed state with nothing
/// fed to it yet.
#[verifier::external_body]
fn hmac_sha1_new(key: &[u8]) -> (m: MacState)
    ensures
        mac_key(m) == key@,
        mac_fed(m) == Seq::<u8>::empty(),
{
    MacState { mac: <Hmac<Sha1> as KeyInit>::new_from_slice(key).unwrap() }
}

/// Relies on digest's `Mac::update`: appends `data` to what the MAC has been
/// fed, leaving the key as it was.
#[verifier::external_body]
fn hmac_sha1_update(m: &mut MacState, data: &[u8])
    ensures
        mac_key(*final (m)) == mac_key(*old(m)),
        mac_fed(*final (m)) == mac_fed(*old(m)) + data@,
{
    Mac::update(&mut m.mac, data);
}

/// Relies on digest's `Mac::finalize`: the fixed 20-byte HMAC-SHA1 tag of the
/// fed bytes under the key.
#[verifier::external_body]
fn hmac_sha1_finalize(m: MacState) -> (r: Vec<u8>)
    ensures
        r@ == hmac_sha1_of(mac_key(m), mac_fed(m)),
        r@.len() == 20,
{
    Mac::finalize(m.mac).into_bytes().to_vec()
}

/// Relies on base64's standard engine (`STANDARD`): the padded base64 text of
/// the input, every byte of which is from the ASCII alphabet `A-Za-z0-9+/=`.
#[verifier::external_body]
fn base64_encode(data: &[u8]) -> (r: Vec<u8>)
    ensures
        r@ == base64_of(data@),
        forall|i: int| 0 <= i < r@.len() ==> r@[i] < 128,
{
    base64::engine::general_purpose::STANDARD.encode(data).into_bytes()
}

/// A type that signs a signature base string with the HMAC-SHA1 signature
/// algorithm.
pub struct HmacSha1Sign {
    mac: MacState,
}

/// A signature produced by an `HmacSha1Sign`.
pub struct HmacSha1Signature {
    signature: Vec<u8>,
}

impl SignatureMethod for HmacSha1 {
    type Sign = HmacSha1Sign;

    open spec fn spec_name(&self) -> Seq<char> {
        "HMAC-SHA1"@
    }

    open spec fn spec_use_nonce(&self) -> bool {
        true
    }

    open spec fn spec_use_timestamp(&self) -> bool {
        true
    }

    fn name(&self) -> (r: &'static str) {
        "HMAC-SHA1"
    }

    fn use_nonce(&self) -> (r: bool) {
        true
    }

    fn use_timestamp(&self) -> (r: bool) {
        true
    }
}

impl HmacSha1Sign {
    /// Streams one `key=value` pair into the MAC: the percent-encoded key,
    /// the literal `%3D`, then the percent-encoded value bytes.
    fn feed_pair(&mut self, key: &[u8], value: &[u8])
        ensures
            mac_key(final (self).mac) == mac_key(old(self).mac),
            mac_fed(final (self).mac) == mac_fed(old(self).mac) + crate::signature_method::spec_parameter_feed(
                key@,
                value@,
            ),
    {
        let mut buf: Vec<u8> = Vec::new();
        percent_encode_onto(&mut buf, key);
        buf.push(37u8);
        buf.push(51u8);
        buf.push(68u8);
        percent_encode_onto(&mut buf, value);
        proof {
            assert(buf@ =~= crate::signature_method::spec_parameter_feed(key@, value@));
        }
        hmac_sha1_update(&mut self.mac, buf.as_slice());
    }
}

impl Sign for HmacSha1Sign {
    type SignatureMethod = HmacSha1;

    type Signature = HmacSha1Signature;

    closed spec fn key(&self) -> Seq<u8> {
        mac_key(self.mac)
    }

    closed spec fn base(&self) -> Seq<u8> {
        mac_fed(self.mac)
    }

    /// The raw HMAC-SHA1 signature is the tag of the base string under the
    /// signing key.
    open spec fn spec_signature(key: Seq<u8>, base: Seq<u8>) -> Seq<u8> {
        hmac_sha1_of(key, base)
    }

    closed spec fn sig_view(sig: HmacSha1Signature) -> Seq<u8> {
        sig.signature@
    }

    open spec fn spec_signature_method(&self) -> HmacSha1 {
        HmacSha1
    }

    fn get_signature_method(&self) -> (r: HmacSha1) {
        HmacSha1
    }

    fn new(consumer_secret: &str, token_secret: Option<&str>, _signature_method: HmacSha1) -> (s:
        Self) {
        let key = signing_key(consumer_secret, token_secret);
        HmacSha1Sign { mac: hmac_sha1_new(key.as_slice()) }
    }

    fn request_method(&mut self, method: &str) {
        let upper = ascii_uppercase(method.as_bytes());
        hmac_sha1_update(&mut self.mac, upper.as_slice());
        let mut amp: Vec<u8> = Vec::new();
        amp.push(38u8);
        hmac_sha1_update(&mut self.mac, amp.as_slice());
        proof {
            assert(mac_fed(self.mac) =~= mac_fed(old(self).mac) + crate::util::spec_ascii_upper(
                method.spec_bytes(),
            ) + seq![38u8]);
        }
    }

    fn uri(&mut self, uri: &str) {
        let mut buf: Vec<u8> = Vec::new();
        percent_encode_onto(&mut buf, uri.as_bytes());
        buf.push(38u8);
        hmac_sha1_update(&mut self.mac, buf.as_slice());
        proof {
            assert(mac_fed(self.mac) =~= mac_fed(old(self).mac)
                + crate::util::spec_percent_encode(uri.spec_bytes()) + seq![38u8]);
        }
    }

    fn parameter(&mut self, key: &str, value: &str) {
        self.feed_pair(key.as_bytes(), value.as_bytes());
    }

    fn delimit(&mut self) {
        let mut buf: Vec<u8> = Vec::new();
        buf.push(37u8);
        buf.push(50u8);
        buf.push(54u8);
        hmac_sha1_update(&mut self.mac, buf.as_slice());
        proof {
            assert(mac_fed(self.mac) =~= mac_fed(old(self).mac)
                + crate::signature_method::spec_amp_bytes());
        }
    }

    fn finish(self) -> (sig: HmacSha1Signature) {
        HmacSha1Signature { signature: hmac_sha1_finalize(self.mac) }
    }

    fn callback(&mut self, default_key: &'static str, value: &str) {
        self.parameter(default_key, value);
    }

    fn consumer_key(&mut self, default_key: &'static str, value: &str) {
        self.parameter(default_key, value);
    }

    fn nonce(&mut self, default_key: &'static str, value: &str) {
        self.parameter(default_key, value);
    }

    fn signature_method(&mut self, default_key: &'static str, default_value: &'static str) {
        self.parameter(default_key, default_value);
    }

    fn timestamp(&mut self, default_key: &'static str, value: u64) {
        let mut digits: Vec<u8> = Vec::new();
        push_decimal(&mut digits, value);
        proof {
            assert(digits@ =~= spec_decimal(value as nat));
        }
        self.feed_pair(default_key.as_bytes(), digits.as_slice());
    }

    fn token(&mut self, default_key: &'static str, value: &str) {
        self.parameter(default_key, value);
    }

    fn verifier_param(&mut self, default_key: &'static str, value: &str) {
        self.parameter(default_key, value);
    }

    fn version(&mut self, default_key: &'static str, default_value: &'static str) {
        self.parameter(default_key, default_value);
    }
}

impl HmacSha1Signature {
    /// The raw 20-byte digest.
    pub closed spec fn raw(&self) -> Seq<u8> {
        self.signature@
    }

    /// The rendered `oauth_signature` value for a raw digest: base64 first,
    /// then one percent-encoding pass over the base64 text.
    pub open spec fn spec_rendered(raw: Seq<u8>) -> Seq<char> {
        crate::util::spec_percent_encode(base64_of(raw)).map_values(|b: u8| b as char)
    }

    /// Renders the digest as the `oauth_signature` value.
    pub fn render(&self) -> (r: String)
        ensures
            r@ == Self::spec_rendered(self.raw()),
    {
        let b64 = base64_encode(self.signature.as_slice());
        let enc = percent_encode_bytes(b64.as_slice());
        proof {
            lemma_percent_encode_ascii(b64@);
        }
        ascii_to_string(enc)
    }
}

/// The HMAC-SHA1 signer is deterministic: the secrets and the base string pin
/// the raw signature, so equal inputs give equal signatures, and equal raw
/// signatures render to equal strings.
pub proof fn lemma_hmac_sha1_deterministic(
    cs: Seq<u8>,
    ts: Option<Seq<u8>>,
    base: Seq<u8>,
    r1: Seq<char>,
    r2: Seq<char>,
)
    requires
        r1 == HmacSha1Signature::spec_rendered(
            HmacSha1Sign::spec_signature(spec_signing_key(cs, ts), base),
        ),
        r2 == HmacSha1Signature::spec_rendered(
            HmacSha1Sign::spec_signature(spec_signing_key(cs, ts), base),
        ),
    ensures
        r1 == r2,
{
}

/// Rendering is a function of the finished signature alone: rendering one
/// signature twice yields the same string both times.
pub proof fn lemma_render_deterministic(raw: Seq<u8>, r1: Seq<char>, r2: Seq<char>)
    requires
        r1 == HmacSha1Signature::spec_rendered(raw),
        r2 == HmacSha1Signature::spec_rendered(raw),
    ensures
        r1 == r2,
{
}

} // verus!
