//! The body of a serialization pass: walks a caller-provided, already-sorted
//! list of request parameters and interleaves the protocol-mandated `oauth_*`
//! parameters at their canonical positions, feeding everything to a signer.
//! No sort step is performed: a mandated parameter is emitted (or skipped)
//! exactly when its canonical name no longer precedes the next user
//! parameter's name.

use vstd::prelude::*;
use vstd::utf8::encode_utf8;

use crate::canonical::{lemma_canonical_lt, CanonicalParameter};
use crate::signature_method::{spec_amp_bytes, spec_parameter_feed, Sign};
use crate::util::{
    lemma_lex_lt_le_trans, lemma_lex_lt_trans, lemma_lex_total, spec_decimal, spec_lex_le,
    spec_lex_lt,
};

verus! {

/// One user-supplied request parameter: a key, the value to feed for it, and
/// whether the parameter is skipped entirely.
pub struct Field {
    pub name: String,
    pub value: String,
    pub skip: bool,
}

/// The values of the protocol-mandated parameters to interleave. `None`
/// means the parameter's canonical position is passed without an emission.
pub struct MandatedValues {
    pub callback: Option<String>,
    pub consumer_key: Option<String>,
    pub nonce: Option<String>,
    pub signature_method: Option<String>,
    pub timestamp: Option<u64>,
    pub token: Option<String>,
    pub verifier_value: Option<String>,
    pub version: Option<String>,
}

/// The bytes of one field: key, value, and the skip mark.
pub open spec fn spec_field_view(f: Field) -> (Seq<u8>, Seq<u8>, bool) {
    (encode_utf8(f.name@), encode_utf8(f.value@), f.skip)
}

/// The bytes of a sequence of fields.
pub open spec fn spec_fields_view(fs: Seq<Field>) -> Seq<(Seq<u8>, Seq<u8>, bool)> {
    fs.map_values(|f: Field| spec_field_view(f))
}

/// The value bytes fed for a mandated parameter, if it is present; the
/// timestamp is rendered in decimal.
pub open spec fn spec_mandated_value(m: MandatedValues, p: CanonicalParameter) -> Option<Seq<u8>> {
    match p {
        CanonicalParameter::Callback => spec_opt_string_bytes(m.callback),
        CanonicalParameter::ConsumerKey => spec_opt_string_bytes(m.consumer_key),
        CanonicalParameter::Nonce => spec_opt_string_bytes(m.nonce),
        CanonicalParameter::SignatureMethod => spec_opt_string_bytes(m.signature_method),
        CanonicalParameter::Timestamp => match m.timestamp {
            Option::Some(n) => Option::Some(spec_decimal(n as nat)),
            Option::None => Option::None,
        },
        CanonicalParameter::Token => spec_opt_string_bytes(m.token),
        CanonicalParameter::VerifierParam => spec_opt_string_bytes(m.verifier_value),
        CanonicalParameter::Version => spec_opt_string_bytes(m.version),
        CanonicalParameter::Done => Option::None,
    }
}

/// The bytes of an optional owned string.
pub open spec fn spec_opt_string_bytes(s: Option<String>) -> Option<Seq<u8>> {
    match s {
        Option::Some(v) => Option::Some(encode_utf8(v@)),
        Option::None => Option::None,
    }
}

/// The zero-or-one parameter entries contributed by the mandated parameter at
/// one canonical position.
pub open spec fn spec_emit(m: MandatedValues, p: CanonicalParameter) -> Seq<(Seq<u8>, Seq<u8>)> {
    match spec_mandated_value(m, p) {
        Option::Some(v) => seq![(p.spec_name_bytes(), v)],
        Option::None => Seq::empty(),
    }
}

/// The entries contributed by every mandated parameter from `p` to the end of
/// the canonical sequence.
pub open spec fn spec_remaining(m: MandatedValues, p: CanonicalParameter) -> Seq<
    (Seq<u8>, Seq<u8>),
>
    decreases 8 - p.spec_rank(),
{
    if p == CanonicalParameter::Done {
        Seq::empty()
    } else {
        spec_emit(m, p) + spec_remaining(m, p.spec_next())
    }
}

/// The merged parameter list: user fields in their given order, with each
/// mandated parameter emitted (or passed over) as soon as its canonical name
/// no longer strictly precedes the next user parameter's name. When the
/// caller hands the fields in ascending name order, this is the globally
/// sorted parameter list of the signature base string.
pub open spec fn spec_merge(
    fields: Seq<(Seq<u8>, Seq<u8>, bool)>,
    p: CanonicalParameter,
    m: MandatedValues,
) -> Seq<(Seq<u8>, Seq<u8>)>
    decreases fields.len(), 8 - p.spec_rank(),
{
    if fields.len() == 0 {
        spec_remaining(m, p)
    } else if fields[0].2 {
        spec_merge(fields.drop_first(), p, m)
    } else if p.spec_precedes(fields[0].0) {
        spec_emit(m, p) + spec_merge(fields, p.spec_next(), m)
    } else {
        seq![(fields[0].0, fields[0].1)] + spec_merge(fields.drop_first(), p, m)
    }
}

/// The bytes a parameter list feeds to a signer: each `key=value` pair
/// encoded as in `spec_parameter_feed`, with the encoded `&` between pairs.
pub open spec fn spec_params_feed(ps: Seq<(Seq<u8>, Seq<u8>)>) -> Seq<u8>
    decreases ps.len(),
{
    if ps.len() == 0 {
        Seq::empty()
    } else if ps.len() == 1 {
        spec_parameter_feed(ps[0].0, ps[0].1)
    } else {
        spec_params_feed(ps.drop_last()) + spec_amp_bytes() + spec_parameter_feed(
            ps.last().0,
            ps.last().1,
        )
    }
}

/// A serialization pass over a list of request parameter fields.
pub struct MethodBody<'a> {
    fields: &'a [Field],
}

fn has_mandated(p: CanonicalParameter, m: &MandatedValues) -> (r: bool)
    ensures
        r == (spec_mandated_value(*m, p) is Some),
{
    match p {
        CanonicalParameter::Callback => m.callback.is_some(),
        CanonicalParameter::ConsumerKey => m.consumer_key.is_some(),
        CanonicalParameter::Nonce => m.nonce.is_some(),
        CanonicalParameter::SignatureMethod => m.signature_method.is_some(),
        CanonicalParameter::Timestamp => m.timestamp.is_some(),
        CanonicalParameter::Token => m.token.is_some(),
        CanonicalParameter::VerifierParam => m.verifier_value.is_some(),
        CanonicalParameter::Version => m.version.is_some(),
        CanonicalParameter::Done => false,
    }
}

fn feed_mandated<S: Sign>(sign: &mut S, p: CanonicalParameter, m: &MandatedValues)
    requires
        spec_mandated_value(*m, p) is Some,
    ensures
        final (sign).key() == old(sign).key(),
        final (sign).base() == old(sign).base() + spec_parameter_feed(
            p.spec_name_bytes(),
            spec_mandated_value(*m, p)->Some_0,
        ),
{
    match p {
        CanonicalParameter::Callback => match &m.callback {
            Option::Some(v) => sign.callback("oauth_callback", v.as_str()),
            Option::None => (),
        },
        CanonicalParameter::ConsumerKey => match &m.consumer_key {
            Option::Some(v) => sign.consumer_key("oauth_consumer_key", v.as_str()),
            Option::None => (),
        },
        CanonicalParameter::Nonce => match &m.nonce {
            Option::Some(v) => sign.nonce("oauth_nonce", v.as_str()),
            Option::None => (),
        },
        CanonicalParameter::SignatureMethod => match &m.signature_method {
            Option::Some(v) => sign.parameter("oauth_signature_method", v.as_str()),
            Option::None => (),
        },
        CanonicalParameter::Timestamp => match m.timestamp {
            Option::Some(n) => sign.timestamp("oauth_timestamp", n),
            Option::None => (),
        },
        CanonicalParameter::Token => match &m.token {
            Option::Some(v) => sign.token("oauth_token", v.as_str()),
            Option::None => (),
        },
        CanonicalParameter::VerifierParam => match &m.verifier_value {
            Option::Some(v) => sign.verifier_param("oauth_verifier", v.as_str()),
            Option::None => (),
        },
        CanonicalParameter::Version => match &m.version {
            Option::Some(v) => sign.parameter("oauth_version", v.as_str()),
            Option::None => (),
        },
        CanonicalParameter::Done => (),
    }
}

impl<'a> MethodBody<'a> {
    /// The bytes of the fields this pass walks.
    pub closed spec fn fields_view(self) -> Seq<(Seq<u8>, Seq<u8>, bool)> {
        spec_fields_view(self.fields@)
    }

    /// Creates a serialization pass over the given fields. The caller is
    /// responsible for handing the fields in ascending byte order of their
    /// names; the pass does not re-sort them.
    pub fn new(fields: &'a [Field]) -> (r: Self)
        ensures
            r.fields_view() == spec_fields_view(fields@),
    {
        MethodBody { fields }
    }

    /// Feeds every non-skipped field and every present mandated parameter to
    /// `sign`, delimited as the base-string grammar demands, in exactly the
    /// merged order of `spec_merge`.
    pub fn serialize<S: Sign>(&self, sign: &mut S, mandated: &MandatedValues)
        ensures
            final (sign).key() == old(sign).key(),
            final (sign).base() == old(sign).base() + spec_params_feed(
                spec_merge(self.fields_view(), CanonicalParameter::Callback, *mandated),
            ),
    {
        let ghost views = self.fields_view();
        let ghost m = *mandated;
        let ghost base0 = sign.base();
        let ghost merged = spec_merge(views, CanonicalParameter::Callback, m);
        let mut cur = CanonicalParameter::Callback;
        let mut first: bool = true;
        let ghost mut done: Seq<(Seq<u8>, Seq<u8>)> = Seq::empty();
        let mut i: usize = 0;
        proof {
            assert(views.skip(0) =~= views);
            assert(done + spec_merge(views.skip(0), cur, m) =~= merged);
        }
        while i < self.fields.len()
            invariant
                i <= self.fields@.len(),
                views == self.fields_view(),
                views.len() == self.fields@.len(),
                m == *mandated,
                sign.key() == old(sign).key(),
                sign.base() == base0 + spec_params_feed(done),
                base0 == old(sign).base(),
                first <==> done.len() == 0,
                merged == spec_merge(views, CanonicalParameter::Callback, m),
                merged == done + spec_merge(views.skip(i as int), cur, m),
            decreases self.fields@.len() - i,
        {
            let f = &self.fields[i];
            proof {
                assert(views[i as int] == spec_field_view(self.fields@[i as int]));
                assert(views.skip(i as int)[0] == views[i as int]);
                assert(views.skip(i as int).drop_first() =~= views.skip(i + 1));
            }
            if !f.skip {
                let name_bytes = f.name.as_str().as_bytes();
                let mut go = cur.precedes(name_bytes);
                while go
                    invariant
                        i < self.fields@.len(),
                        views == self.fields_view(),
                        views.len() == self.fields@.len(),
                        m == *mandated,
                        sign.key() == old(sign).key(),
                        sign.base() == base0 + spec_params_feed(done),
                        first <==> done.len() == 0,
                        name_bytes@ == views[i as int].0,
                        !views[i as int].2,
                        go == cur.spec_precedes(views[i as int].0),
                        merged == done + spec_merge(views.skip(i as int), cur, m),
                    decreases 8 - cur.spec_rank(),
                {
                    proof {
                        assert(views.skip(i as int)[0] == views[i as int]);
                        assert(spec_merge(views.skip(i as int), cur, m) == spec_emit(m, cur)
                            + spec_merge(views.skip(i as int), cur.spec_next(), m));
                    }
                    if has_mandated(cur, mandated) {
                        if !first {
                            sign.delimit();
                        }
                        feed_mandated(sign, cur, mandated);
                        proof {
                            let entry = (cur.spec_name_bytes(), spec_mandated_value(m, cur)->Some_0);
                            assert(done.push(entry).drop_last() =~= done);
                            assert(spec_emit(m, cur) =~= seq![entry]);
                            assert(done + spec_emit(m, cur) =~= done.push(entry));
                            done = done.push(entry);
                        }
                        first = false;
                    } else {
                        proof {
                            assert(spec_emit(m, cur) =~= Seq::<(Seq<u8>, Seq<u8>)>::empty());
                            assert(done + spec_emit(m, cur) + spec_merge(
                                views.skip(i as int),
                                cur.spec_next(),
                                m,
                            ) =~= done + spec_merge(views.skip(i as int), cur.spec_next(), m));
                        }
                    }
                    cur = cur.next();
                    go = cur.precedes(name_bytes);
                }
                proof {
                    assert(views.skip(i as int)[0] == views[i as int]);
                    assert(views.skip(i as int).drop_first() =~= views.skip(i + 1));
                    assert(spec_merge(views.skip(i as int), cur, m) == seq![
                        (views[i as int].0, views[i as int].1),
                    ] + spec_merge(views.skip(i + 1), cur, m));
                }
                if !first {
                    sign.delimit();
                }
                sign.parameter(f.name.as_str(), f.value.as_str());
                proof {
                    let entry = (views[i as int].0, views[i as int].1);
                    assert(done.push(entry).drop_last() =~= done);
                    assert(done + seq![entry] =~= done.push(entry));
                    done = done.push(entry);
                }
                first = false;
            } else {
                proof {
                    assert(spec_merge(views.skip(i as int), cur, m) == spec_merge(
                        views.skip(i + 1),
                        cur,
                        m,
                    ));
                }
            }
            i += 1;
        }
        proof {
            assert(views.skip(views.len() as int) =~= Seq::<(Seq<u8>, Seq<u8>, bool)>::empty());
        }
        let mut at_end = cur == CanonicalParameter::Done;
        while !at_end
            invariant
                m == *mandated,
                sign.key() == old(sign).key(),
                sign.base() == base0 + spec_params_feed(done),
                base0 == old(sign).base(),
                first <==> done.len() == 0,
                at_end == (cur == CanonicalParameter::Done),
                merged == done + spec_remaining(m, cur),
            decreases 8 - cur.spec_rank(),
        {
            if has_mandated(cur, mandated) {
                if !first {
                    sign.delimit();
                }
                feed_mandated(sign, cur, mandated);
                proof {
                    let entry = (cur.spec_name_bytes(), spec_mandated_value(m, cur)->Some_0);
                    assert(done.push(entry).drop_last() =~= done);
                    assert(spec_emit(m, cur) =~= seq![entry]);
                    assert(done + spec_emit(m, cur) + spec_remaining(m, cur.spec_next())
                        =~= done.push(entry) + spec_remaining(m, cur.spec_next()));
                    done = done.push(entry);
                }
                first = false;
            } else {
                proof {
                    assert(spec_emit(m, cur) =~= Seq::<(Seq<u8>, Seq<u8>)>::empty());
                    assert(done + spec_emit(m, cur) + spec_remaining(m, cur.spec_next()) =~= done
                        + spec_remaining(m, cur.spec_next()));
                }
            }
            cur = cur.next();
            at_end = cur == CanonicalParameter::Done;
        }
        proof {
            assert(spec_remaining(m, CanonicalParameter::Done) =~= Seq::<(Seq<u8>, Seq<u8>)>::empty());
            assert(done + spec_remaining(m, cur) =~= done);
            assert(sign.base() == old(sign).base() + spec_params_feed(merged));
        }
    }
}

/// Keys of a parameter list are pairwise non-decreasing in byte order.
pub open spec fn spec_keys_sorted(ps: Seq<(Seq<u8>, Seq<u8>)>) -> bool {
    forall|i: int, j: int| 0 <= i < j < ps.len() ==> spec_lex_le(#[trigger] ps[i].0, #[trigger] ps[j].0)
}

/// Non-skipped fields are pairwise non-decreasing by name.
pub open spec fn spec_fields_sorted(fields: Seq<(Seq<u8>, Seq<u8>, bool)>) -> bool {
    forall|i: int, j: int|
        0 <= i < j < fields.len() && !fields[i].2 && !fields[j].2 ==> spec_lex_le(
            #[trigger] fields[i].0,
            #[trigger] fields[j].0,
        )
}

/// `k` is the literal name of a mandated parameter at or after position `p`.
pub open spec fn spec_canonical_key_from(k: Seq<u8>, p: CanonicalParameter) -> bool {
    exists|q: CanonicalParameter|
        q != CanonicalParameter::Done && p.spec_rank() <= q.spec_rank() && k
            == q.spec_name_bytes()
}

/// `k` can appear as a key of the merge of `fields` from position `p`: it is
/// a canonical name at or after `p`, or a non-skipped field's name.
pub open spec fn spec_key_from(
    k: Seq<u8>,
    fields: Seq<(Seq<u8>, Seq<u8>, bool)>,
    p: CanonicalParameter,
) -> bool {
    spec_canonical_key_from(k, p) || exists|j: int|
        0 <= j < fields.len() && !fields[j].2 && k == #[trigger] fields[j].0
}

proof fn lemma_remaining_sorted(m: MandatedValues, p: CanonicalParameter)
    ensures
        spec_keys_sorted(spec_remaining(m, p)),
        forall|i: int|
            0 <= i < spec_remaining(m, p).len() ==> spec_canonical_key_from(
                #[trigger] spec_remaining(m, p)[i].0,
                p,
            ),
    decreases 8 - p.spec_rank(),
{
    if p != CanonicalParameter::Done {
        lemma_remaining_sorted(m, p.spec_next());
        let e = spec_emit(m, p);
        let rest = spec_remaining(m, p.spec_next());
        let merged = spec_remaining(m, p);
        assert(merged == e + rest);
        assert(p.spec_next().spec_rank() == p.spec_rank() + 1);
        assert forall|i: int| 0 <= i < merged.len() implies spec_canonical_key_from(
            #[trigger] merged[i].0,
            p,
        ) by {
            if i < e.len() {
                assert(merged[i].0 == p.spec_name_bytes());
            } else {
                assert(merged[i] == rest[i - e.len()]);
                let q = choose|q: CanonicalParameter|
                    q != CanonicalParameter::Done && p.spec_next().spec_rank() <= q.spec_rank()
                        && rest[i - e.len()].0 == q.spec_name_bytes();
                assert(p.spec_rank() <= q.spec_rank());
            }
        }
        assert forall|i: int, j: int| 0 <= i < j < merged.len() implies spec_lex_le(
            #[trigger] merged[i].0,
            #[trigger] merged[j].0,
        ) by {
            if i >= e.len() {
                assert(merged[i] == rest[i - e.len()]);
                assert(merged[j] == rest[j - e.len()]);
            } else {
                assert(merged[i].0 == p.spec_name_bytes());
                assert(merged[j] == rest[j - e.len()]);
                let q = choose|q: CanonicalParameter|
                    q != CanonicalParameter::Done && p.spec_next().spec_rank() <= q.spec_rank()
                        && rest[j - e.len()].0 == q.spec_name_bytes();
                lemma_canonical_lt(p, q);
            }
        }
    }
}

/// The merge discipline preserves sort order: when the non-skipped fields
/// arrive pairwise sorted by name, the merged parameter list that
/// `spec_merge` (and so `serialize`) produces is itself sorted by key, with
/// no sort step. Every key of the output is a canonical name at or after the
/// starting position or the name of a non-skipped field.
pub proof fn lemma_merge_sorted(
    fields: Seq<(Seq<u8>, Seq<u8>, bool)>,
    p: CanonicalParameter,
    m: MandatedValues,
)
    requires
        spec_fields_sorted(fields),
    ensures
        spec_keys_sorted(spec_merge(fields, p, m)),
        forall|i: int|
            0 <= i < spec_merge(fields, p, m).len() ==> spec_key_from(
                #[trigger] spec_merge(fields, p, m)[i].0,
                fields,
                p,
            ),
    decreases fields.len(), 8 - p.spec_rank(),
{
    let merged = spec_merge(fields, p, m);
    if fields.len() == 0 {
        lemma_remaining_sorted(m, p);
        assert(merged == spec_remaining(m, p));
    } else if fields[0].2 {
        assert forall|i: int, j: int|
            0 <= i < j < fields.drop_first().len() && !fields.drop_first()[i].2
                && !fields.drop_first()[j].2 implies spec_lex_le(
            #[trigger] fields.drop_first()[i].0,
            #[trigger] fields.drop_first()[j].0,
        ) by {
            assert(fields.drop_first()[i] == fields[i + 1]);
            assert(fields.drop_first()[j] == fields[j + 1]);
        }
        lemma_merge_sorted(fields.drop_first(), p, m);
        assert(merged == spec_merge(fields.drop_first(), p, m));
        assert forall|i: int| 0 <= i < merged.len() implies spec_key_from(
            #[trigger] merged[i].0,
            fields,
            p,
        ) by {
            if !spec_canonical_key_from(merged[i].0, p) {
                let j = choose|j: int|
                    0 <= j < fields.drop_first().len() && !fields.drop_first()[j].2 && merged[i].0
                        == fields.drop_first()[j].0;
                assert(fields.drop_first()[j] == fields[j + 1]);
                assert(!fields[j + 1].2 && merged[i].0 == fields[j + 1].0);
            }
        }
    } else if p.spec_precedes(fields[0].0) {
        lemma_merge_sorted(fields, p.spec_next(), m);
        let e = spec_emit(m, p);
        let rest = spec_merge(fields, p.spec_next(), m);
        assert(merged == e + rest);
        assert(p.spec_next().spec_rank() == p.spec_rank() + 1);
        assert forall|i: int| 0 <= i < merged.len() implies spec_key_from(
            #[trigger] merged[i].0,
            fields,
            p,
        ) by {
            if i < e.len() {
                assert(merged[i].0 == p.spec_name_bytes());
            } else {
                assert(merged[i] == rest[i - e.len()]);
                if spec_canonical_key_from(rest[i - e.len()].0, p.spec_next()) {
                    let q = choose|q: CanonicalParameter|
                        q != CanonicalParameter::Done && p.spec_next().spec_rank() <= q.spec_rank()
                            && rest[i - e.len()].0 == q.spec_name_bytes();
                    assert(p.spec_rank() <= q.spec_rank());
                }
            }
        }
        assert forall|i: int, j: int| 0 <= i < j < merged.len() implies spec_lex_le(
            #[trigger] merged[i].0,
            #[trigger] merged[j].0,
        ) by {
            if i >= e.len() {
                assert(merged[i] == rest[i - e.len()]);
                assert(merged[j] == rest[j - e.len()]);
            } else {
                assert(merged[i].0 == p.spec_name_bytes());
                assert(merged[j] == rest[j - e.len()]);
                let k = rest[j - e.len()].0;
                if spec_canonical_key_from(k, p.spec_next()) {
                    let q = choose|q: CanonicalParameter|
                        q != CanonicalParameter::Done && p.spec_next().spec_rank() <= q.spec_rank()
                            && k == q.spec_name_bytes();
                    lemma_canonical_lt(p, q);
                } else {
                    let jj = choose|jj: int|
                        0 <= jj < fields.len() && !fields[jj].2 && k == fields[jj].0;
                    if jj > 0 {
                        assert(spec_lex_le(fields[0].0, fields[jj].0));
                        lemma_lex_lt_le_trans(p.spec_name_bytes(), fields[0].0, fields[jj].0);
                    }
                }
            }
        }
    } else {
        assert forall|i: int, j: int|
            0 <= i < j < fields.drop_first().len() && !fields.drop_first()[i].2
                && !fields.drop_first()[j].2 implies spec_lex_le(
            #[trigger] fields.drop_first()[i].0,
            #[trigger] fields.drop_first()[j].0,
        ) by {
            assert(fields.drop_first()[i] == fields[i + 1]);
            assert(fields.drop_first()[j] == fields[j + 1]);
        }
        lemma_merge_sorted(fields.drop_first(), p, m);
        let f0 = fields[0].0;
        let e = seq![(fields[0].0, fields[0].1)];
        let rest = spec_merge(fields.drop_first(), p, m);
        assert(merged == e + rest);
        assert forall|i: int| 0 <= i < merged.len() implies spec_key_from(
            #[trigger] merged[i].0,
            fields,
            p,
        ) by {
            if i < e.len() {
                assert(merged[i].0 == fields[0].0 && !fields[0].2);
            } else {
                assert(merged[i] == rest[i - e.len()]);
                if !spec_canonical_key_from(merged[i].0, p) {
                    let j = choose|j: int|
                        0 <= j < fields.drop_first().len() && !fields.drop_first()[j].2
                            && merged[i].0 == fields.drop_first()[j].0;
                    assert(fields.drop_first()[j] == fields[j + 1]);
                    assert(!fields[j + 1].2 && merged[i].0 == fields[j + 1].0);
                }
            }
        }
        assert forall|i: int, j: int| 0 <= i < j < merged.len() implies spec_lex_le(
            #[trigger] merged[i].0,
            #[trigger] merged[j].0,
        ) by {
            if i >= e.len() {
                assert(merged[i] == rest[i - e.len()]);
                assert(merged[j] == rest[j - e.len()]);
            } else {
                assert(merged[i].0 == f0);
                assert(merged[j] == rest[j - e.len()]);
                let k = rest[j - e.len()].0;
                if spec_canonical_key_from(k, p) {
                    let q = choose|q: CanonicalParameter|
                        q != CanonicalParameter::Done && p.spec_rank() <= q.spec_rank() && k
                            == q.spec_name_bytes();
                    assert(p != CanonicalParameter::Done);
                    let np = p.spec_name_bytes();
                    if !spec_lex_lt(f0, np) {
                        lemma_lex_total(np, f0);
                    }
                    assert(spec_lex_le(f0, np));
                    if p.spec_rank() < q.spec_rank() {
                        lemma_canonical_lt(p, q);
                        if f0 != np {
                            lemma_lex_lt_trans(f0, np, k);
                        }
                    } else {
                        assert(q == p);
                        assert(k == np);
                    }
                } else {
                    let jj = choose|jj: int|
                        0 <= jj < fields.drop_first().len() && !fields.drop_first()[jj].2 && k
                            == fields.drop_first()[jj].0;
                    assert(fields.drop_first()[jj] == fields[jj + 1]);
                    assert(spec_lex_le(fields[0].0, fields[jj + 1].0));
                }
            }
        }
    }
}

} // verus!
