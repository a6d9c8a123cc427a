//! The `PLAINTEXT` signature method (RFC 5849 section 3.4.4).
//!
//! The signature is the signing key itself, regardless of what is fed to the
//! signer; the feeds are accepted to keep the interface uniform, but ignored.

use vstd::prelude::*;
use vstd::string::StringSliceAdditionalSpecFns;

use crate::signature_method::{
    spec_amp_bytes, spec_parameter_feed, spec_signing_key, signing_key, Sign,
    SignatureMethod,
};
use crate::util::{
    ascii_to_string, lemma_percent_encode_ascii, percent_encode_bytes, spec_ascii_upper,
    spec_decimal, spec_percent_encode,
};

verus! {

/// The `PLAINTEXT` signature method.
#[derive(Clone, Copy, Debug, Default)]
pub struct Plaintext;

/// A type that signs a signature base string with the `PLAINTEXT` algorithm:
/// it ignores the base string and returns the signing key verbatim.
pub struct PlaintextSign {
    signature: Vec<u8>,
    base: Ghost<Seq<u8>>,
}

/// A signature produced by a `PlaintextSign`.
pub struct PlaintextSignature {
    signature: Vec<u8>,
}

impl SignatureMethod for Plaintext {
    type Sign = PlaintextSign;

    open spec fn spec_name(&self) -> Seq<char> {
        "PLAINTEXT"@
    }

    open spec fn spec_use_nonce(&self) -> bool {
        false
    }

    open spec fn spec_use_timestamp(&self) -> bool {
        false
    }

    fn name(&self) -> (r: &'static str) {
        "PLAINTEXT"
    }

    fn use_nonce(&self) -> (r: bool) {
        false
    }

    fn use_timestamp(&self) -> (r: bool) {
        false
    }
}

impl Sign for PlaintextSign {
    type SignatureMethod = Plaintext;

    type Signature = PlaintextSignature;

    closed spec fn key(&self) -> Seq<u8> {
        self.signature@
    }

    closed spec fn base(&self) -> Seq<u8> {
        self.base@
    }

    /// The `PLAINTEXT` signature is the signing key; the base string plays no
    /// part.
    open spec fn spec_signature(key: Seq<u8>, base: Seq<u8>) -> Seq<u8> {
        key
    }

    closed spec fn sig_view(sig: PlaintextSignature) -> Seq<u8> {
        sig.signature@
    }

    open spec fn spec_signature_method(&self) -> Plaintext {
        Plaintext
    }

    fn get_signature_method(&self) -> (r: Plaintext) {
        Plaintext
    }

    fn new(consumer_secret: &str, token_secret: Option<&str>, _signature_method: Plaintext) -> (s:
        Self) {
        PlaintextSign { signature: signing_key(consumer_secret, token_secret), base: Ghost(Seq::empty()) }
    }

    fn request_method(&mut self, method: &str) {
        self.base = Ghost(self.base@ + spec_ascii_upper(method.spec_bytes()) + seq![38u8]);
    }

    fn uri(&mut self, uri: &str) {
        self.base = Ghost(self.base@ + spec_percent_encode(uri.spec_bytes()) + seq![38u8]);
    }

    fn parameter(&mut self, key: &str, value: &str) {
        self.base = Ghost(
            self.base@ + spec_parameter_feed(key.spec_bytes(), value.spec_bytes()),
        );
    }

    fn delimit(&mut self) {
        self.base = Ghost(self.base@ + spec_amp_bytes());
    }

    fn finish(self) -> (sig: PlaintextSignature) {
        PlaintextSignature { signature: self.signature }
    }

    fn callback(&mut self, default_key: &'static str, value: &str) {
        self.parameter(default_key, value);
    }

    fn consumer_key(&mut self, default_key: &'static str, value: &str) {
        self.parameter(default_key, value);
    }

    fn nonce(&mut self, default_key: &'static str, value: &str) {
        self.parameter(default_key, value);
    }

    fn signature_method(&mut self, default_key: &'static str, default_value: &'static str) {
        self.parameter(default_key, default_value);
    }

    fn timestamp(&mut self, default_key: &'static str, value: u64) {
        self.base = Ghost(
            self.base@ + spec_parameter_feed(default_key.spec_bytes(), spec_decimal(value as nat)),
        );
    }

    fn token(&mut self, default_key: &'static str, value: &str) {
        self.parameter(default_key, value);
    }

    fn verifier_param(&mut self, default_key: &'static str, value: &str) {
        self.parameter(default_key, value);
    }

    fn version(&mut self, default_key: &'static str, default_value: &'static str) {
        self.parameter(default_key, default_value);
    }
}

impl PlaintextSignature {
    /// The raw signature bytes: the signing key verbatim.
    pub closed spec fn raw(&self) -> Seq<u8> {
        self.signature@
    }

    /// The rendered `oauth_signature` value for a raw `PLAINTEXT` signature:
    /// one further percent-encoding pass over the stored key.
    pub open spec fn spec_rendered(raw: Seq<u8>) -> Seq<char> {
        spec_percent_encode(raw).map_values(|b: u8| b as char)
    }

    /// Renders the signature as the `oauth_signature` value.
    pub fn render(&self) -> (r: String)
        ensures
            r@ == Self::spec_rendered(self.raw()),
    {
        let enc = percent_encode_bytes(self.signature.as_slice());
        proof {
            lemma_percent_encode_ascii(self.signature@);
        }
        ascii_to_string(enc)
    }
}

/// The `PLAINTEXT` algorithm ignores the base string entirely: for one signing
/// key, any two base strings produce the same signature.
pub proof fn lemma_plaintext_ignores_base(key: Seq<u8>, base1: Seq<u8>, base2: Seq<u8>)
    ensures
        PlaintextSign::spec_signature(key, base1) == PlaintextSign::spec_signature(key, base2),
{
}

/// Rendering is a function of the finished signature alone: rendering one
/// `PLAINTEXT` signature twice yields the same string both times.
pub proof fn lemma_plaintext_render_deterministic(raw: Seq<u8>, r1: Seq<char>, r2: Seq<char>)
    requires
        r1 == PlaintextSignature::spec_rendered(raw),
        r2 == PlaintextSignature::spec_rendered(raw),
    ensures
        r1 == r2,
{
}

/// The signing key pins the `PLAINTEXT` signature: it is derived from the two
/// secrets alone, so equal secrets give equal signatures.
pub proof fn lemma_plaintext_deterministic(
    cs: Seq<u8>,
    ts: Option<Seq<u8>>,
    base1: Seq<u8>,
    base2: Seq<u8>,
)
    ensures
        PlaintextSign::spec_signature(spec_signing_key(cs, ts), base1)
            == PlaintextSign::spec_signature(spec_signing_key(cs, ts), base2),
{
}

} // verus!
