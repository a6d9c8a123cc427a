//! The canonical ordering table: the fixed, totally ordered enumeration of
//! the protocol-mandated `oauth_*` parameter names, closed by a terminal
//! sentinel that compares greater than every name. It lets a caller
//! interleave mandated parameters with an already-sorted parameter stream
//! without a sort step.

use vstd::prelude::*;
use vstd::utf8::{encode_utf8, is_ascii_chars, is_ascii_chars_encode_utf8};

use crate::util::{lemma_lex_lt_at, lemma_lex_lt_trans, lex_lt, spec_lex_lt};

verus! {

/// One protocol-mandated parameter name, or the terminal sentinel `Done`.
/// The variants are declared in byte-lexicographic order of their literal
/// names, with `Done` greater than all of them.
#[derive(Clone, Copy, Debug, PartialEq, Eq, Structural)]
pub enum CanonicalParameter {
    Callback,
    ConsumerKey,
    Nonce,
    SignatureMethod,
    Timestamp,
    Token,
    VerifierParam,
    Version,
    Done,
}

impl CanonicalParameter {
    /// The position of the variant in the canonical sequence.
    pub open spec fn spec_rank(self) -> nat {
        match self {
            CanonicalParameter::Callback => 0,
            CanonicalParameter::ConsumerKey => 1,
            CanonicalParameter::Nonce => 2,
            CanonicalParameter::SignatureMethod => 3,
            CanonicalParameter::Timestamp => 4,
            CanonicalParameter::Token => 5,
            CanonicalParameter::VerifierParam => 6,
            CanonicalParameter::Version => 7,
            CanonicalParameter::Done => 8,
        }
    }

    /// The literal parameter name; the sentinel has none.
    pub open spec fn spec_name(self) -> Seq<char> {
        match self {
            CanonicalParameter::Callback => "oauth_callback"@,
            CanonicalParameter::ConsumerKey => "oauth_consumer_key"@,
            CanonicalParameter::Nonce => "oauth_nonce"@,
            CanonicalParameter::SignatureMethod => "oauth_signature_method"@,
            CanonicalParameter::Timestamp => "oauth_timestamp"@,
            CanonicalParameter::Token => "oauth_token"@,
            CanonicalParameter::VerifierParam => "oauth_verifier"@,
            CanonicalParameter::Version => "oauth_version"@,
            CanonicalParameter::Done => ""@,
        }
    }

    /// The literal parameter name as bytes.
    pub open spec fn spec_name_bytes(self) -> Seq<u8> {
        encode_utf8(self.spec_name())
    }

    /// The variant that follows `self` in the canonical sequence; `Done`
    /// follows itself.
    pub open spec fn spec_next(self) -> CanonicalParameter {
        match self {
            CanonicalParameter::Callback => CanonicalParameter::ConsumerKey,
            CanonicalParameter::ConsumerKey => CanonicalParameter::Nonce,
            CanonicalParameter::Nonce => CanonicalParameter::SignatureMethod,
            CanonicalParameter::SignatureMethod => CanonicalParameter::Timestamp,
            CanonicalParameter::Timestamp => CanonicalParameter::Token,
            CanonicalParameter::Token => CanonicalParameter::VerifierParam,
            CanonicalParameter::VerifierParam => CanonicalParameter::Version,
            CanonicalParameter::Version => CanonicalParameter::Done,
            CanonicalParameter::Done => CanonicalParameter::Done,
        }
    }

    /// `self` must be emitted before a parameter named `name`: `self` is a
    /// real parameter whose literal name comes strictly before `name` in
    /// byte-lexicographic order. The sentinel precedes nothing.
    pub open spec fn spec_precedes(self, name: Seq<u8>) -> bool {
        self != CanonicalParameter::Done && spec_lex_lt(self.spec_name_bytes(), name)
    }

    /// Returns the literal parameter name.
    pub fn name(self) -> (r: &'static str)
        requires
            self != CanonicalParameter::Done,
        ensures
            r@ == self.spec_name(),
    {
        match self {
            CanonicalParameter::Callback => "oauth_callback",
            CanonicalParameter::ConsumerKey => "oauth_consumer_key",
            CanonicalParameter::Nonce => "oauth_nonce",
            CanonicalParameter::SignatureMethod => "oauth_signature_method",
            CanonicalParameter::Timestamp => "oauth_timestamp",
            CanonicalParameter::Token => "oauth_token",
            CanonicalParameter::VerifierParam => "oauth_verifier",
            CanonicalParameter::Version => "oauth_version",
            CanonicalParameter::Done => "",
        }
    }

    /// Advances to the following variant.
    pub fn next(self) -> (r: CanonicalParameter)
        ensures
            r == self.spec_next(),
    {
        match self {
            CanonicalParameter::Callback => CanonicalParameter::ConsumerKey,
            CanonicalParameter::ConsumerKey => CanonicalParameter::Nonce,
            CanonicalParameter::Nonce => CanonicalParameter::SignatureMethod,
            CanonicalParameter::SignatureMethod => CanonicalParameter::Timestamp,
            CanonicalParameter::Timestamp => CanonicalParameter::Token,
            CanonicalParameter::Token => CanonicalParameter::VerifierParam,
            CanonicalParameter::VerifierParam => CanonicalParameter::Version,
            CanonicalParameter::Version => CanonicalParameter::Done,
            CanonicalParameter::Done => CanonicalParameter::Done,
        }
    }

    /// Decides whether `self`'s canonical position comes strictly before a
    /// parameter named `name`.
    pub fn precedes(self, name: &[u8]) -> (r: bool)
        ensures
            r == self.spec_precedes(name@),
    {
        match self {
            CanonicalParameter::Done => false,
            _ => {
                let own = self.name();
                lex_lt(own.as_bytes(), name)
            },
        }
    }
}

/// The canonical table is declared in byte-lexicographic order: each real
/// parameter's literal name comes strictly before the next one's.
pub proof fn lemma_canonical_adjacent(p: CanonicalParameter)
    requires
        p != CanonicalParameter::Done,
        p.spec_next() != CanonicalParameter::Done,
    ensures
        spec_lex_lt(p.spec_name_bytes(), p.spec_next().spec_name_bytes()),
{
    match p {
        CanonicalParameter::Callback => {
            reveal_strlit("oauth_callback");
            reveal_strlit("oauth_consumer_key");
            let ca = "oauth_callback"@;
            let cb = "oauth_consumer_key"@;
            assert(is_ascii_chars(ca));
            assert(is_ascii_chars(cb));
            is_ascii_chars_encode_utf8(ca);
            is_ascii_chars_encode_utf8(cb);
            assert(forall|j: int| 0 <= j < 7 ==> encode_utf8(ca)[j] == encode_utf8(cb)[j]);
            lemma_lex_lt_at(encode_utf8(ca), encode_utf8(cb), 7);
        },
        CanonicalParameter::ConsumerKey => {
            reveal_strlit("oauth_consumer_key");
            reveal_strlit("oauth_nonce");
            let ca = "oauth_consumer_key"@;
            let cb = "oauth_nonce"@;
            assert(is_ascii_chars(ca));
            assert(is_ascii_chars(cb));
            is_ascii_chars_encode_utf8(ca);
            is_ascii_chars_encode_utf8(cb);
            assert(forall|j: int| 0 <= j < 6 ==> encode_utf8(ca)[j] == encode_utf8(cb)[j]);
            lemma_lex_lt_at(encode_utf8(ca), encode_utf8(cb), 6);
        },
        CanonicalParameter::Nonce => {
            reveal_strlit("oauth_nonce");
            reveal_strlit("oauth_signature_method");
            let ca = "oauth_nonce"@;
            let cb = "oauth_signature_method"@;
            assert(is_ascii_chars(ca));
            assert(is_ascii_chars(cb));
            is_ascii_chars_encode_utf8(ca);
            is_ascii_chars_encode_utf8(cb);
            assert(forall|j: int| 0 <= j < 6 ==> encode_utf8(ca)[j] == encode_utf8(cb)[j]);
            lemma_lex_lt_at(encode_utf8(ca), encode_utf8(cb), 6);
        },
        CanonicalParameter::SignatureMethod => {
            reveal_strlit("oauth_signature_method");
            reveal_strlit("oauth_timestamp");
            let ca = "oauth_signature_method"@;
            let cb = "oauth_timestamp"@;
            assert(is_ascii_chars(ca));
            assert(is_ascii_chars(cb));
            is_ascii_chars_encode_utf8(ca);
            is_ascii_chars_encode_utf8(cb);
            assert(forall|j: int| 0 <= j < 6 ==> encode_utf8(ca)[j] == encode_utf8(cb)[j]);
            lemma_lex_lt_at(encode_utf8(ca), encode_utf8(cb), 6);
        },
        CanonicalParameter::Timestamp => {
            reveal_strlit("oauth_timestamp");
            reveal_strlit("oauth_token");
            let ca = "oauth_timestamp"@;
            let cb = "oauth_token"@;
            assert(is_ascii_chars(ca));
            assert(is_ascii_chars(cb));
            is_ascii_chars_encode_utf8(ca);
            is_ascii_chars_encode_utf8(cb);
            assert(forall|j: int| 0 <= j < 7 ==> encode_utf8(ca)[j] == encode_utf8(cb)[j]);
            lemma_lex_lt_at(encode_utf8(ca), encode_utf8(cb), 7);
        },
        CanonicalParameter::Token => {
            reveal_strlit("oauth_token");
            reveal_strlit("oauth_verifier");
            let ca = "oauth_token"@;
            let cb = "oauth_verifier"@;
            assert(is_ascii_chars(ca));
            assert(is_ascii_chars(cb));
            is_ascii_chars_encode_utf8(ca);
            is_ascii_chars_encode_utf8(cb);
            assert(forall|j: int| 0 <= j < 6 ==> encode_utf8(ca)[j] == encode_utf8(cb)[j]);
            lemma_lex_lt_at(encode_utf8(ca), encode_utf8(cb), 6);
        },
        CanonicalParameter::VerifierParam => {
            reveal_strlit("oauth_verifier");
            reveal_strlit("oauth_version");
            let ca = "oauth_verifier"@;
            let cb = "oauth_version"@;
            assert(is_ascii_chars(ca));
            assert(is_ascii_chars(cb));
            is_ascii_chars_encode_utf8(ca);
            is_ascii_chars_encode_utf8(cb);
            assert(forall|j: int| 0 <= j < 9 ==> encode_utf8(ca)[j] == encode_utf8(cb)[j]);
            lemma_lex_lt_at(encode_utf8(ca), encode_utf8(cb), 9);
        },
        CanonicalParameter::Version => {
            assert(false);
        },
        CanonicalParameter::Done => {
            assert(false);
        },
    }
}

/// A lower canonical position always carries a lexicographically smaller
/// literal name: the table is totally ordered.
pub proof fn lemma_canonical_lt(p: CanonicalParameter, q: CanonicalParameter)
    requires
        p.spec_rank() < q.spec_rank(),
        q != CanonicalParameter::Done,
    ensures
        spec_lex_lt(p.spec_name_bytes(), q.spec_name_bytes()),
    decreases q.spec_rank() - p.spec_rank(),
{
    assert(p.spec_next().spec_rank() == p.spec_rank() + 1);
    lemma_canonical_adjacent(p);
    if q != p.spec_next() {
        lemma_canonical_lt(p.spec_next(), q);
        lemma_lex_lt_trans(
            p.spec_name_bytes(),
            p.spec_next().spec_name_bytes(),
            q.spec_name_bytes(),
        );
    }
}

} // verus!
