//! Byte-level text utilities that the signing core is specified over:
//! RFC 3986 percent-encoding, ASCII upper-casing, and decimal rendering.

use vstd::prelude::*;

verus! {

/// A byte that RFC 3986 leaves unescaped: ALPHA / DIGIT / "-" / "." / "_" / "~".
pub open spec fn is_unreserved_byte(b: u8) -> bool {
    (65 <= b && b <= 90)  // 'A'..='Z'
    || (97 <= b && b <= 122)  // 'a'..='z'
    || (48 <= b && b <= 57)  // '0'..='9'
    || b == 45  // '-'
    || b == 46  // '.'
    || b == 95  // '_'
    || b == 126  // '~'
}

/// Upper-case hexadecimal digit for a value below 16.
pub open spec fn spec_hex_digit(n: u8) -> u8
    recommends
        n < 16,
{
    if n < 10 {
        (48 + n) as u8  // '0' + n
    } else {
        (55 + n) as u8  // 'A' + (n - 10)
    }
}

/// The percent-encoding of a single byte: the byte itself when unreserved,
/// `%XX` in upper-case hexadecimal otherwise.
pub open spec fn spec_encode_byte(b: u8) -> Seq<u8> {
    if is_unreserved_byte(b) {
        seq![b]
    } else {
        seq![37u8, spec_hex_digit(b / 16), spec_hex_digit(b % 16)]
    }
}

/// RFC 3986 percent-encoding of a byte string.
pub open spec fn spec_percent_encode(s: Seq<u8>) -> Seq<u8>
    decreases s.len(),
{
    if s.len() == 0 {
        Seq::empty()
    } else {
        spec_encode_byte(s[0]) + spec_percent_encode(s.drop_first())
    }
}

/// Percent-encoding distributes over concatenation.
pub proof fn lemma_percent_encode_append(a: Seq<u8>, b: Seq<u8>)
    ensures
        spec_percent_encode(a + b) == spec_percent_encode(a) + spec_percent_encode(b),
    decreases a.len(),
{
    if a.len() == 0 {
        assert(a + b =~= b);
        assert(spec_percent_encode(a) + spec_percent_encode(b) =~= spec_percent_encode(b));
    } else {
        assert((a + b).drop_first() =~= a.drop_first() + b);
        lemma_percent_encode_append(a.drop_first(), b);
        assert(spec_percent_encode(a + b) =~= spec_percent_encode(a) + spec_percent_encode(b));
    }
}

/// Every byte of a percent-encoded string is ASCII.
pub proof fn lemma_percent_encode_ascii(s: Seq<u8>)
    ensures
        forall|i: int|
            0 <= i < spec_percent_encode(s).len() ==> #[trigger] spec_percent_encode(s)[i] < 128,
    decreases s.len(),
{
    if s.len() > 0 {
        lemma_percent_encode_ascii(s.drop_first());
        let eb = spec_encode_byte(s[0]);
        let rest = spec_percent_encode(s.drop_first());
        assert(spec_percent_encode(s) == eb + rest);
        assert forall|i: int| 0 <= i < spec_percent_encode(s).len() implies #[trigger] spec_percent_encode(
            s,
        )[i] < 128 by {
            if i < eb.len() {
                assert(spec_percent_encode(s)[i] == eb[i]);
                assert(s[0] / 16 < 16);
                if is_unreserved_byte(s[0]) {
                    assert(eb[i] == s[0]);
                } else {
                    assert(i == 0 || i == 1 || i == 2);
                }
            } else {
                assert(spec_percent_encode(s)[i] == rest[i - eb.len()]);
            }
        }
    }
}

fn is_unreserved(b: u8) -> (r: bool)
    ensures
        r == is_unreserved_byte(b),
{
    (65 <= b && b <= 90) || (97 <= b && b <= 122) || (48 <= b && b <= 57) || b == 45 || b == 46
        || b == 95 || b == 126
}

fn hex_digit(n: u8) -> (r: u8)
    requires
        n < 16,
    ensures
        r == spec_hex_digit(n),
{
    if n < 10 {
        48 + n
    } else {
        55 + n
    }
}

/// Appends the percent-encoding of `s` to `out`.
pub fn percent_encode_onto(out: &mut Vec<u8>, s: &[u8])
    ensures
        final(out)@ == old(out)@ + spec_percent_encode(s@),
{
    let ghost base = out@;
    let mut i: usize = 0;
    while i < s.len()
        invariant
            i <= s@.len(),
            out@ == base + spec_percent_encode(s@.take(i as int)),
        decreases s@.len() - i,
    {
        let b = s[i];
        if is_unreserved(b) {
            out.push(b);
        } else {
            out.push(37u8);
            out.push(hex_digit(b / 16));
            out.push(hex_digit(b % 16));
        }
        proof {
            assert(s@.take(i + 1) =~= s@.take(i as int) + seq![s@[i as int]]);
            lemma_percent_encode_append(s@.take(i as int), seq![s@[i as int]]);
            assert(seq![s@[i as int]].drop_first() =~= Seq::<u8>::empty());
            assert(spec_percent_encode(Seq::<u8>::empty()) =~= Seq::<u8>::empty());
            assert(spec_percent_encode(seq![s@[i as int]]) == spec_encode_byte(seq![s@[i as int]][0])
                + spec_percent_encode(seq![s@[i as int]].drop_first()));
            assert(spec_encode_byte(s@[i as int]) + Seq::<u8>::empty() =~= spec_encode_byte(
                s@[i as int],
            ));
            assert(out@ =~= base + spec_percent_encode(s@.take(i + 1)));
        }
        i += 1;
    }
    proof {
        assert(s@.take(s@.len() as int) =~= s@);
    }
}

/// Returns the RFC 3986 percent-encoding of `s`.
pub fn percent_encode_bytes(s: &[u8]) -> (r: Vec<u8>)
    ensures
        r@ == spec_percent_encode(s@),
{
    let mut r: Vec<u8> = Vec::new();
    percent_encode_onto(&mut r, s);
    proof {
        assert(r@ =~= spec_percent_encode(s@));
    }
    r
}

/// ASCII upper-casing of a single byte; bytes outside 'a'..='z' are unchanged.
pub open spec fn spec_upper_byte(b: u8) -> u8 {
    if 97 <= b && b <= 122 {
        (b - 32) as u8
    } else {
        b
    }
}

/// ASCII upper-casing of a byte string.
pub open spec fn spec_ascii_upper(s: Seq<u8>) -> Seq<u8> {
    s.map_values(|b: u8| spec_upper_byte(b))
}

/// Returns `s` with ASCII lower-case letters replaced by their upper-case forms.
pub fn ascii_uppercase(s: &[u8]) -> (r: Vec<u8>)
    ensures
        r@ == spec_ascii_upper(s@),
{
    let mut r: Vec<u8> = Vec::new();
    let mut i: usize = 0;
    while i < s.len()
        invariant
            i <= s@.len(),
            r@ == s@.take(i as int).map_values(|b: u8| spec_upper_byte(b)),
        decreases s@.len() - i,
    {
        let b = s[i];
        if 97 <= b && b <= 122 {
            r.push(b - 32);
        } else {
            r.push(b);
        }
        proof {
            assert(s@.take(i + 1).map_values(|b: u8| spec_upper_byte(b)) =~= s@.take(
                i as int,
            ).map_values(|b: u8| spec_upper_byte(b)).push(spec_upper_byte(s@[i as int])));
        }
        i += 1;
    }
    proof {
        assert(s@.take(s@.len() as int) =~= s@);
    }
    r
}

/// The decimal digits of `n`, most significant first.
pub open spec fn spec_decimal(n: nat) -> Seq<u8>
    decreases n,
{
    if n < 10 {
        seq![(48 + n) as u8]
    } else {
        spec_decimal(n / 10) + seq![(48 + (n % 10)) as u8]
    }
}

/// Appends the decimal digits of `n` to `out`.
pub fn push_decimal(out: &mut Vec<u8>, n: u64)
    ensures
        final(out)@ == old(out)@ + spec_decimal(n as nat),
    decreases n,
{
    if n < 10 {
        out.push(48 + (n as u8));
    } else {
        push_decimal(out, n / 10);
        out.push(48 + ((n % 10) as u8));
        proof {
            assert(out@ =~= old(out)@ + spec_decimal(n as nat));
        }
    }
}

/// Strict byte-lexicographic order: `a` comes before `b` when, at the first
/// position where they differ, `a` has the smaller byte, or `a` is a proper
/// prefix of `b`.
pub open spec fn spec_lex_lt(a: Seq<u8>, b: Seq<u8>) -> bool
    decreases a.len(),
{
    if b.len() == 0 {
        false
    } else if a.len() == 0 {
        true
    } else if a[0] < b[0] {
        true
    } else if a[0] > b[0] {
        false
    } else {
        spec_lex_lt(a.drop_first(), b.drop_first())
    }
}

/// Non-strict byte-lexicographic order.
pub open spec fn spec_lex_le(a: Seq<u8>, b: Seq<u8>) -> bool {
    spec_lex_lt(a, b) || a == b
}

/// Two byte strings that agree up to a position where the first has the
/// smaller byte are lexicographically ordered.
pub proof fn lemma_lex_lt_at(a: Seq<u8>, b: Seq<u8>, k: int)
    requires
        0 <= k < a.len(),
        k < b.len(),
        forall|j: int| 0 <= j < k ==> a[j] == b[j],
        a[k] < b[k],
    ensures
        spec_lex_lt(a, b),
    decreases k,
{
    if k > 0 {
        lemma_lex_lt_at(a.drop_first(), b.drop_first(), k - 1);
    }
}

/// Byte-lexicographic order is total: two byte strings of which neither is
/// strictly below the other are equal.
pub proof fn lemma_lex_total(a: Seq<u8>, b: Seq<u8>)
    requires
        !spec_lex_lt(a, b),
        !spec_lex_lt(b, a),
    ensures
        a == b,
    decreases a.len(),
{
    if a.len() == 0 || b.len() == 0 {
        assert(a =~= b);
    } else {
        lemma_lex_total(a.drop_first(), b.drop_first());
        assert(a =~= seq![a[0]] + a.drop_first());
        assert(b =~= seq![b[0]] + b.drop_first());
        assert(a =~= b);
    }
}

/// Strict byte-lexicographic order is transitive.
pub proof fn lemma_lex_lt_trans(a: Seq<u8>, b: Seq<u8>, c: Seq<u8>)
    requires
        spec_lex_lt(a, b),
        spec_lex_lt(b, c),
    ensures
        spec_lex_lt(a, c),
    decreases a.len(),
{
    if a.len() != 0 && b.len() != 0 && c.len() != 0 {
        if a[0] == b[0] && b[0] == c[0] {
            lemma_lex_lt_trans(a.drop_first(), b.drop_first(), c.drop_first());
        }
    }
}

/// Strict order followed by non-strict order is strict.
pub proof fn lemma_lex_lt_le_trans(a: Seq<u8>, b: Seq<u8>, c: Seq<u8>)
    requires
        spec_lex_lt(a, b),
        spec_lex_le(b, c),
    ensures
        spec_lex_lt(a, c),
{
    if b != c {
        lemma_lex_lt_trans(a, b, c);
    }
}

/// Decides strict byte-lexicographic order between two byte strings.
pub fn lex_lt(a: &[u8], b: &[u8]) -> (r: bool)
    ensures
        r == spec_lex_lt(a@, b@),
{
    let mut i: usize = 0;
    proof {
        assert(a@.skip(0) =~= a@);
        assert(b@.skip(0) =~= b@);
    }
    loop
        invariant
            i <= a@.len(),
            i <= b@.len(),
            spec_lex_lt(a@, b@) == spec_lex_lt(a@.skip(i as int), b@.skip(i as int)),
        decreases a@.len() - i,
    {
        if i >= b.len() {
            return false;
        }
        if i >= a.len() {
            return true;
        }
        let x = a[i];
        let y = b[i];
        proof {
            assert(a@.skip(i as int)[0] == a@[i as int]);
            assert(b@.skip(i as int)[0] == b@[i as int]);
        }
        if x < y {
            return true;
        }
        if x > y {
            return false;
        }
        proof {
            assert(a@.skip(i as int).drop_first() =~= a@.skip(i + 1));
            assert(b@.skip(i as int).drop_first() =~= b@.skip(i + 1));
        }
        i += 1;
    }
}

/// Relies on std's `String::from_utf8`: bytes below 128 are valid UTF-8 and
/// decode to the characters with the same code points.
#[verifier::external_body]
pub fn ascii_to_string(v: Vec<u8>) -> (r: String)
    requires
        forall|i: int| 0 <= i < v@.len() ==> v@[i] < 128,
    ensures
        r@ == v@.map_values(|b: u8| b as char),
{
    String::from_utf8(v).unwrap()
}

} // verus!
