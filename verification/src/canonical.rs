//! Canonicalization of query parameters and headers: the deterministic,
//! byte-exact encodings over which requests are signed.

use vstd::prelude::*;
use vstd::relations::sorted_by;
use vstd::multiset::Multiset;
use crate::textutil::{
    lex_le, lemma_lex_le_antisymmetric, lemma_lex_le_total, lemma_lex_le_transitive,
    lemma_map_values_multiset, lemma_sorted_by_multiset_unique,
};

verus! {

/// A key/value pair of byte strings: a query parameter or a header.
pub struct KvPair {
    pub key: Vec<u8>,
    pub value: Vec<u8>,
}

/// The mathematical value of a pair: its two byte strings.
pub open spec fn kv_view(p: KvPair) -> (Seq<u8>, Seq<u8>) {
    (p.key@, p.value@)
}

/// The mathematical value of a pair list.
pub open spec fn pairs_view(s: Seq<KvPair>) -> Seq<(Seq<u8>, Seq<u8>)> {
    s.map_values(|p: KvPair| kv_view(p))
}

/// Order on pairs: by key, then by value, both lexicographic on bytes.
pub open spec fn pair_le(a: (Seq<u8>, Seq<u8>), b: (Seq<u8>, Seq<u8>)) -> bool {
    if a.0 == b.0 {
        lex_le(a.1, b.1)
    } else {
        lex_le(a.0, b.0)
    }
}

/// The pair order as a first-class function, for `sort_by`.
pub open spec fn pair_le_fn() -> spec_fn((Seq<u8>, Seq<u8>), (Seq<u8>, Seq<u8>)) -> bool {
    |a: (Seq<u8>, Seq<u8>), b: (Seq<u8>, Seq<u8>)| pair_le(a, b)
}

pub proof fn lemma_pair_le_total(a: (Seq<u8>, Seq<u8>), b: (Seq<u8>, Seq<u8>))
    ensures
        pair_le(a, b) || pair_le(b, a),
{
    lemma_lex_le_total(a.0, b.0);
    lemma_lex_le_total(a.1, b.1);
}

pub proof fn lemma_pair_le_antisymmetric(a: (Seq<u8>, Seq<u8>), b: (Seq<u8>, Seq<u8>))
    requires
        pair_le(a, b),
        pair_le(b, a),
    ensures
        a == b,
{
    if a.0 == b.0 {
        lemma_lex_le_antisymmetric(a.1, b.1);
    } else {
        lemma_lex_le_antisymmetric(a.0, b.0);
    }
}

pub proof fn lemma_pair_le_transitive(a: (Seq<u8>, Seq<u8>), b: (Seq<u8>, Seq<u8>), c: (Seq<u8>, Seq<u8>))
    requires
        pair_le(a, b),
        pair_le(b, c),
    ensures
        pair_le(a, c),
{
    if a.0 == b.0 && b.0 == c.0 {
        lemma_lex_le_transitive(a.1, b.1, c.1);
    } else if a.0 == b.0 {
    } else if b.0 == c.0 {
    } else {
        lemma_lex_le_transitive(a.0, b.0, c.0);
        if a.0 == c.0 {
            lemma_lex_le_antisymmetric(a.0, b.0);
        }
    }
}

/// The pair order is a total ordering.
pub proof fn lemma_pair_le_fn_total_ordering()
    ensures
        vstd::relations::total_ordering(pair_le_fn()),
{
    let leq = pair_le_fn();
    assert forall|a: (Seq<u8>, Seq<u8>)| #[trigger] leq(a, a) by {
        lemma_pair_le_total(a, a);
    }
    assert forall|a: (Seq<u8>, Seq<u8>), b: (Seq<u8>, Seq<u8>)|
        #[trigger] leq(a, b) && #[trigger] leq(b, a) implies a == b by {
        lemma_pair_le_antisymmetric(a, b);
    }
    assert forall|a: (Seq<u8>, Seq<u8>), b: (Seq<u8>, Seq<u8>), c: (Seq<u8>, Seq<u8>)|
        #[trigger] leq(a, b) && #[trigger] leq(b, c) implies leq(a, c) by {
        lemma_pair_le_transitive(a, b, c);
    }
    assert forall|a: (Seq<u8>, Seq<u8>), b: (Seq<u8>, Seq<u8>)|
        #[trigger] leq(a, b) || #[trigger] leq(b, a) by {
        lemma_pair_le_total(a, b);
    }
}

/// Decides `pair_le` on two pairs.
pub fn kv_le(a: &KvPair, b: &KvPair) -> (r: bool)
    ensures
        r == pair_le(kv_view(*a), kv_view(*b)),
{
    let kab = crate::textutil::lex_le_bytes(a.key.as_slice(), b.key.as_slice());
    let kba = crate::textutil::lex_le_bytes(b.key.as_slice(), a.key.as_slice());
    if kab && kba {
        proof {
            lemma_lex_le_antisymmetric(a.key@, b.key@);
        }
        crate::textutil::lex_le_bytes(a.value.as_slice(), b.value.as_slice())
    } else {
        proof {
            if a.key@ == b.key@ {
                lemma_lex_le_total(a.key@, b.key@);
            }
        }
        kab
    }
}

/// Sorts pairs by key, then value; the result is exactly `sort_by` of the
/// input's value under the pair order.
pub fn sort_pairs(input: Vec<KvPair>) -> (out: Vec<KvPair>)
    ensures
        pairs_view(out@) == pairs_view(input@).sort_by(pair_le_fn()),
{
    let ghost full = pairs_view(input@);
    let mut rest = input;
    let mut out: Vec<KvPair> = Vec::new();
    proof {
        broadcast use vstd::seq_lib::group_to_multiset_ensures;

        assert(pairs_view(out@).to_multiset().add(pairs_view(rest@).to_multiset()) =~= full.to_multiset());
    }
    while rest.len() > 0
        invariant
            pairs_view(out@).to_multiset().add(pairs_view(rest@).to_multiset()) == full.to_multiset(),
            sorted_by(pairs_view(out@), pair_le_fn()),
            forall|i: int, j: int|
                0 <= i < out@.len() && 0 <= j < rest@.len() ==> pair_le(
                    #[trigger] pairs_view(out@)[i],
                    #[trigger] pairs_view(rest@)[j],
                ),
        decreases rest.len(),
    {
        let mut m: usize = 0;
        let mut k: usize = 1;
        proof {
            lemma_pair_le_total(pairs_view(rest@)[0], pairs_view(rest@)[0]);
        }
        while k < rest.len()
            invariant
                m < k <= rest@.len(),
                forall|j: int|
                    0 <= j < k ==> pair_le(
                        pairs_view(rest@)[m as int],
                        #[trigger] pairs_view(rest@)[j],
                    ),
            decreases rest@.len() - k,
        {
            if kv_le(&rest[k], &rest[m]) {
                proof {
                    assert forall|j: int| 0 <= j < k + 1 implies pair_le(
                        pairs_view(rest@)[k as int],
                        #[trigger] pairs_view(rest@)[j],
                    ) by {
                        if j == k {
                            lemma_pair_le_total(
                                pairs_view(rest@)[k as int],
                                pairs_view(rest@)[k as int],
                            );
                        } else if j < k {
                            lemma_pair_le_transitive(
                                pairs_view(rest@)[k as int],
                                pairs_view(rest@)[m as int],
                                pairs_view(rest@)[j],
                            );
                        }
                    }
                }
                m = k;
            } else {
                proof {
                    lemma_pair_le_total(pairs_view(rest@)[m as int], pairs_view(rest@)[k as int]);
                }
            }
            k = k + 1;
        }
        let ghost old_rest = rest@;
        let ghost old_out = out@;
        let x = rest.remove(m);
        out.push(x);
        proof {
            broadcast use vstd::seq_lib::group_to_multiset_ensures;

            assert(pairs_view(rest@) =~= pairs_view(old_rest).remove(m as int));
            assert(pairs_view(out@) =~= pairs_view(old_out).push(kv_view(x)));
            assert(pairs_view(old_rest)[m as int] == kv_view(x));
            assert(pairs_view(out@).to_multiset().add(pairs_view(rest@).to_multiset())
                =~= full.to_multiset());
            assert(sorted_by(pairs_view(out@), pair_le_fn())) by {
                assert(forall|i: int, j: int|
                    0 <= i < j < pairs_view(out@).len() ==> pair_le_fn()(
                        #[trigger] pairs_view(out@)[i],
                        #[trigger] pairs_view(out@)[j],
                    ));
            }
            assert forall|i: int, j: int|
                0 <= i < out@.len() && 0 <= j < rest@.len() implies pair_le(
                #[trigger] pairs_view(out@)[i],
                #[trigger] pairs_view(rest@)[j],
            ) by {
                let jj = if j < m { j } else { j + 1 };
                assert(pairs_view(rest@)[j] == pairs_view(old_rest)[jj]);
                if i < out@.len() - 1 {
                    assert(pairs_view(out@)[i] == pairs_view(old_out)[i]);
                } else {
                    assert(pairs_view(out@)[i] == kv_view(x));
                }
            }
        }
    }
    proof {
        broadcast use vstd::seq_lib::group_to_multiset_ensures;

        assert(pairs_view(rest@) =~= Seq::empty());
        assert(pairs_view(rest@).to_multiset() =~= Multiset::empty());
        assert(pairs_view(out@).to_multiset() =~= full.to_multiset());
        lemma_pair_le_fn_total_ordering();
        full.lemma_sort_by_ensures(pair_le_fn());
        lemma_sorted_by_multiset_unique(pairs_view(out@), full.sort_by(pair_le_fn()), pair_le_fn());
    }
    out
}


/// Uppercase hex digit for a value below 16, as percent-encoding uses it.
pub open spec fn spec_hex_digit_upper(n: u8) -> u8
    recommends
        n < 16,
{
    if n < 10 {
        (0x30 + n) as u8
    } else {
        (0x37 + n) as u8
    }
}

/// A byte that percent-encoding leaves as it is: an ASCII letter, a digit,
/// or one of `-`, `.`, `_`, `~`.
pub open spec fn is_unreserved_byte(b: u8) -> bool {
    (0x41 <= b <= 0x5a) || (0x61 <= b <= 0x7a) || (0x30 <= b <= 0x39) || b == 0x2d || b == 0x2e
        || b == 0x5f || b == 0x7e
}

/// The encoding of one byte: itself if unreserved (or a slash, when slashes
/// are kept for path encoding), else `%` and two uppercase hex digits.
pub open spec fn spec_encode_byte(b: u8, keep_slash: bool) -> Seq<u8> {
    if is_unreserved_byte(b) || (keep_slash && b == 0x2f) {
        seq![b]
    } else {
        seq![0x25u8, spec_hex_digit_upper(b / 16), spec_hex_digit_upper(b % 16)]
    }
}

/// Percent-encoding of a byte string under the fixed reserved set. With
/// `keep_slash` the slash separating path segments stays, so a path is
/// encoded segment by segment in one pass.
pub open spec fn spec_percent_encode(s: Seq<u8>, keep_slash: bool) -> Seq<u8>
    decreases s.len(),
{
    if s.len() == 0 {
        Seq::empty()
    } else {
        spec_encode_byte(s.first(), keep_slash) + spec_percent_encode(s.drop_first(), keep_slash)
    }
}

/// Percent-encodes a byte string.
pub fn percent_encode(data: &[u8], keep_slash: bool) -> (r: Vec<u8>)
    ensures
        r@ == spec_percent_encode(data@, keep_slash),
{
    let mut r: Vec<u8> = Vec::new();
    let n = data.len();
    assert(data@.skip(0) == data@);
    for i in 0..n
        invariant
            n == data@.len(),
            spec_percent_encode(data@, keep_slash) =~= r@ + spec_percent_encode(
                data@.skip(i as int),
                keep_slash,
            ),
    {
        let b = data[i];
        let unreserved = (0x41 <= b && b <= 0x5a) || (0x61 <= b && b <= 0x7a) || (0x30 <= b && b
            <= 0x39) || b == 0x2d || b == 0x2e || b == 0x5f || b == 0x7e;
        if unreserved || (keep_slash && b == 0x2f) {
            r.push(b);
        } else {
            let hi = b / 16;
            let lo = b % 16;
            r.push(0x25);
            r.push(if hi < 10 { 0x30 + hi } else { 0x37 + hi });
            r.push(if lo < 10 { 0x30 + lo } else { 0x37 + lo });
        }
        assert(data@.skip(i as int).drop_first() == data@.skip(i + 1));
    }
    r
}

/// One rendered query pair: `key=value`.
pub open spec fn spec_render_pair(p: (Seq<u8>, Seq<u8>)) -> Seq<u8> {
    p.0 + seq![0x3du8] + p.1
}

/// The rendering of every pair after the first, each preceded by `&`.
pub open spec fn spec_render_query_tail(s: Seq<(Seq<u8>, Seq<u8>)>) -> Seq<u8>
    decreases s.len(),
{
    if s.len() == 0 {
        Seq::empty()
    } else {
        seq![0x26u8] + spec_render_pair(s.first()) + spec_render_query_tail(s.drop_first())
    }
}

/// Pairs rendered `k=v`, joined by `&`; empty input renders empty.
pub open spec fn spec_render_query(s: Seq<(Seq<u8>, Seq<u8>)>) -> Seq<u8> {
    if s.len() == 0 {
        Seq::empty()
    } else {
        spec_render_pair(s.first()) + spec_render_query_tail(s.drop_first())
    }
}

proof fn lemma_render_query_tail_push(s: Seq<(Seq<u8>, Seq<u8>)>, p: (Seq<u8>, Seq<u8>))
    ensures
        spec_render_query_tail(s.push(p)) == spec_render_query_tail(s) + seq![0x26u8]
            + spec_render_pair(p),
    decreases s.len(),
{
    if s.len() == 0 {
        let e = s.push(p).drop_first();
        assert(e =~= Seq::empty());
        assert(spec_render_query_tail(e) == Seq::<u8>::empty());
        assert(s.push(p).first() == p);
        assert(spec_render_query_tail(s.push(p)) == seq![0x26u8] + spec_render_pair(p)
            + spec_render_query_tail(e));
        assert(spec_render_query_tail(s.push(p)) =~= spec_render_query_tail(s) + seq![0x26u8]
            + spec_render_pair(p));
    } else {
        let rest2 = s.drop_first();
        lemma_render_query_tail_push(rest2, p);
        assert(s.push(p).drop_first() =~= rest2.push(p));
        assert(s.push(p).first() == s.first());
        assert(spec_render_query_tail(s.push(p)) == seq![0x26u8] + spec_render_pair(s.first())
            + spec_render_query_tail(rest2.push(p)));
        assert(seq![0x26u8] + spec_render_pair(s.first()) + (spec_render_query_tail(rest2)
            + seq![0x26u8] + spec_render_pair(p)) =~= (seq![0x26u8] + spec_render_pair(s.first())
            + spec_render_query_tail(rest2)) + seq![0x26u8] + spec_render_pair(p));
    }
}

proof fn lemma_render_query_push(s: Seq<(Seq<u8>, Seq<u8>)>, p: (Seq<u8>, Seq<u8>))
    ensures
        s.len() == 0 ==> spec_render_query(s.push(p)) == spec_render_pair(p),
        s.len() > 0 ==> spec_render_query(s.push(p)) == spec_render_query(s) + seq![0x26u8]
            + spec_render_pair(p),
{
    if s.len() == 0 {
        assert(s.push(p).drop_first() =~= Seq::empty());
        assert(spec_render_query(s.push(p)) =~= spec_render_pair(p));
    } else {
        lemma_render_query_tail_push(s.drop_first(), p);
        assert(s.push(p).drop_first() =~= s.drop_first().push(p));
        assert(s.push(p).first() == s.first());
        assert(spec_render_query(s.push(p)) =~= spec_render_query(s) + seq![0x26u8]
            + spec_render_pair(p));
    }
}

/// The query-pair encoding as a first-class function.
pub open spec fn encode_pair_fn() -> spec_fn((Seq<u8>, Seq<u8>)) -> (Seq<u8>, Seq<u8>) {
    |p: (Seq<u8>, Seq<u8>)| (spec_percent_encode(p.0, false), spec_percent_encode(p.1, false))
}

/// The canonical query string of a parameter list: each key and value
/// percent-encoded, the pairs sorted by key then value, rendered `k=v`
/// joined by `&`.
pub open spec fn spec_canonical_query(params: Seq<(Seq<u8>, Seq<u8>)>) -> Seq<u8> {
    spec_render_query(params.map_values(encode_pair_fn()).sort_by(pair_le_fn()))
}

/// Renders a sorted pair list as a query string.
fn render_query(sorted: &Vec<KvPair>) -> (r: Vec<u8>)
    ensures
        r@ == spec_render_query(pairs_view(sorted@)),
{
    let mut r: Vec<u8> = Vec::new();
    let n = sorted.len();
    for i in 0..n
        invariant
            n == sorted@.len(),
            r@ == spec_render_query(pairs_view(sorted@).take(i as int)),
    {
        let ghost prefix = pairs_view(sorted@).take(i as int);
        if i > 0 {
            r.push(0x26);
        }
        r.append(&mut sorted[i].key.clone());
        r.push(0x3d);
        r.append(&mut sorted[i].value.clone());
        proof {
            lemma_render_query_push(prefix, pairs_view(sorted@)[i as int]);
            assert(pairs_view(sorted@).take(i + 1) =~= prefix.push(pairs_view(sorted@)[i as int]));
            assert(r@ =~= spec_render_query(pairs_view(sorted@).take(i + 1)));
        }
    }
    proof {
        assert(pairs_view(sorted@).take(n as int) =~= pairs_view(sorted@));
    }
    r
}

/// Builds the canonical query string of the given parameters.
pub fn canonical_query_string(params: &Vec<KvPair>) -> (r: Vec<u8>)
    ensures
        r@ == spec_canonical_query(pairs_view(params@)),
{
    let mut encoded: Vec<KvPair> = Vec::new();
    let n = params.len();
    for i in 0..n
        invariant
            n == params@.len(),
            pairs_view(encoded@) =~= pairs_view(params@).take(i as int).map_values(
                encode_pair_fn(),
            ),
    {
        let k = percent_encode(params[i].key.as_slice(), false);
        let v = percent_encode(params[i].value.as_slice(), false);
        let ghost old_encoded = encoded@;
        encoded.push(KvPair { key: k, value: v });
        proof {
            assert(pairs_view(encoded@) =~= pairs_view(old_encoded).push(
                encode_pair_fn()(pairs_view(params@)[i as int]),
            ));
            assert(pairs_view(params@).take(i + 1).map_values(encode_pair_fn()) =~= pairs_view(
                params@,
            ).take(i as int).map_values(encode_pair_fn()).push(
                encode_pair_fn()(pairs_view(params@)[i as int]),
            ));
        }
    }
    proof {
        assert(pairs_view(params@).take(n as int) =~= pairs_view(params@));
    }
    let sorted = sort_pairs(encoded);
    render_query(&sorted)
}

/// Reordering the parameters does not change the canonical query string:
/// any two parameter lists holding the same pairs, in any order, canonicalize
/// to the same bytes.
pub proof fn lemma_canonical_query_order_insensitive(
    xs: Seq<(Seq<u8>, Seq<u8>)>,
    ys: Seq<(Seq<u8>, Seq<u8>)>,
)
    requires
        xs.to_multiset() == ys.to_multiset(),
    ensures
        spec_canonical_query(xs) == spec_canonical_query(ys),
{
    let e1 = xs.map_values(encode_pair_fn());
    let e2 = ys.map_values(encode_pair_fn());
    lemma_map_values_multiset(xs, ys, encode_pair_fn());
    lemma_pair_le_fn_total_ordering();
    e1.lemma_sort_by_ensures(pair_le_fn());
    e2.lemma_sort_by_ensures(pair_le_fn());
    assert(e1.sort_by(pair_le_fn()).to_multiset() == e2.sort_by(pair_le_fn()).to_multiset());
    lemma_sorted_by_multiset_unique(e1.sort_by(pair_le_fn()), e2.sort_by(pair_le_fn()), pair_le_fn());
}


/// ASCII lowercase of one byte.
pub open spec fn lower_byte(b: u8) -> u8 {
    if 0x41 <= b <= 0x5a {
        (b + 0x20) as u8
    } else {
        b
    }
}

/// ASCII lowercase of a byte string.
pub open spec fn spec_lower(s: Seq<u8>) -> Seq<u8> {
    s.map_values(|b: u8| lower_byte(b))
}

/// A space or horizontal tab, the whitespace trimmed from header values.
pub open spec fn is_space_byte(b: u8) -> bool {
    b == 0x20 || b == 0x09
}

/// The byte string without its leading whitespace.
pub open spec fn spec_trim_start(s: Seq<u8>) -> Seq<u8>
    decreases s.len(),
{
    if s.len() > 0 && is_space_byte(s.first()) {
        spec_trim_start(s.drop_first())
    } else {
        s
    }
}

/// The byte string without its trailing whitespace.
pub open spec fn spec_trim_end(s: Seq<u8>) -> Seq<u8>
    decreases s.len(),
{
    if s.len() > 0 && is_space_byte(s.last()) {
        spec_trim_end(s.drop_last())
    } else {
        s
    }
}

/// The byte string without leading or trailing whitespace.
pub open spec fn spec_trim(s: Seq<u8>) -> Seq<u8> {
    spec_trim_end(spec_trim_start(s))
}

/// ASCII-lowercases a byte string.
pub fn lower_bytes(data: &[u8]) -> (r: Vec<u8>)
    ensures
        r@ == spec_lower(data@),
{
    let mut r: Vec<u8> = Vec::new();
    let n = data.len();
    for i in 0..n
        invariant
            n == data@.len(),
            r@.len() == i,
            forall|j: int| 0 <= j < i ==> r@[j] == lower_byte(data@[j]),
    {
        let b = data[i];
        r.push(if 0x41 <= b && b <= 0x5a { b + 0x20 } else { b });
    }
    proof {
        assert(r@ =~= spec_lower(data@));
    }
    r
}

/// Trims leading and trailing whitespace from a byte string.
pub fn trim_bytes(data: &[u8]) -> (r: Vec<u8>)
    ensures
        r@ == spec_trim(data@),
{
    let n = data.len();
    let mut start: usize = 0;
    proof {
        assert(data@.skip(0) == data@);
    }
    while start < n && (data[start] == 0x20 || data[start] == 0x09)
        invariant
            start <= n,
            n == data@.len(),
            spec_trim_start(data@) == spec_trim_start(data@.skip(start as int)),
        decreases n - start,
    {
        proof {
            assert(data@.skip(start as int).drop_first() == data@.skip(start + 1));
        }
        start = start + 1;
    }
    let ghost t = data@.skip(start as int);
    proof {
        assert(spec_trim_start(data@) == t);
    }
    let mut end: usize = n;
    proof {
        assert(t.take(n - start) =~= t);
    }
    while end > start && (data[end - 1] == 0x20 || data[end - 1] == 0x09)
        invariant
            start <= end <= n,
            n == data@.len(),
            t == data@.skip(start as int),
            spec_trim_end(t) == spec_trim_end(t.take(end - start)),
        decreases end,
    {
        proof {
            let u = t.take(end - start);
            assert(u.last() == data@[end - 1]);
            assert(u.drop_last() =~= t.take(end - 1 - start));
        }
        end = end - 1;
    }
    proof {
        let u = t.take(end - start);
        if end > start {
            assert(u.last() == data@[end - 1]);
        }
        assert(spec_trim_end(u) == u);
    }
    let mut r: Vec<u8> = Vec::new();
    let mut i: usize = start;
    while i < end
        invariant
            start <= i <= end <= n,
            n == data@.len(),
            r@ =~= data@.subrange(start as int, i as int),
        decreases end - i,
    {
        r.push(data[i]);
        i = i + 1;
    }
    proof {
        assert(r@ =~= t.take(end - start));
    }
    r
}

/// Header normalization: the name lowercased, the value trimmed.
pub open spec fn normalize_header_fn() -> spec_fn((Seq<u8>, Seq<u8>)) -> (Seq<u8>, Seq<u8>) {
    |p: (Seq<u8>, Seq<u8>)| (spec_lower(p.0), spec_trim(p.1))
}

/// Sorted, normalized headers rendered one per line as `name:value` followed
/// by a newline.
pub open spec fn spec_render_headers(s: Seq<(Seq<u8>, Seq<u8>)>) -> Seq<u8>
    decreases s.len(),
{
    if s.len() == 0 {
        Seq::empty()
    } else {
        s.first().0 + seq![0x3au8] + s.first().1 + seq![0x0au8] + spec_render_headers(
            s.drop_first(),
        )
    }
}

/// The names after the first, each preceded by `;`.
pub open spec fn spec_render_names_tail(s: Seq<(Seq<u8>, Seq<u8>)>) -> Seq<u8>
    decreases s.len(),
{
    if s.len() == 0 {
        Seq::empty()
    } else {
        seq![0x3bu8] + s.first().0 + spec_render_names_tail(s.drop_first())
    }
}

/// The header names joined by `;`.
pub open spec fn spec_render_names(s: Seq<(Seq<u8>, Seq<u8>)>) -> Seq<u8> {
    if s.len() == 0 {
        Seq::empty()
    } else {
        s.first().0 + spec_render_names_tail(s.drop_first())
    }
}

/// The canonical header block: names lowercased, values trimmed, sorted by
/// name (then value), each line `name:value` ending in a newline.
pub open spec fn spec_canonical_headers(headers: Seq<(Seq<u8>, Seq<u8>)>) -> Seq<u8> {
    spec_render_headers(headers.map_values(normalize_header_fn()).sort_by(pair_le_fn()))
}

/// The signed-headers list: the same sorted lowercased names joined by `;`.
pub open spec fn spec_signed_headers(headers: Seq<(Seq<u8>, Seq<u8>)>) -> Seq<u8> {
    spec_render_names(headers.map_values(normalize_header_fn()).sort_by(pair_le_fn()))
}

/// Builds the canonical header block and the signed-headers list.
pub fn canonical_headers(headers: &Vec<KvPair>) -> (r: (Vec<u8>, Vec<u8>))
    ensures
        r.0@ == spec_canonical_headers(pairs_view(headers@)),
        r.1@ == spec_signed_headers(pairs_view(headers@)),
{
    let mut normalized: Vec<KvPair> = Vec::new();
    let n = headers.len();
    for i in 0..n
        invariant
            n == headers@.len(),
            pairs_view(normalized@) =~= pairs_view(headers@).take(i as int).map_values(
                normalize_header_fn(),
            ),
    {
        let name = lower_bytes(headers[i].key.as_slice());
        let value = trim_bytes(headers[i].value.as_slice());
        let ghost old_norm = normalized@;
        normalized.push(KvPair { key: name, value });
        proof {
            assert(pairs_view(normalized@) =~= pairs_view(old_norm).push(
                normalize_header_fn()(pairs_view(headers@)[i as int]),
            ));
            assert(pairs_view(headers@).take(i + 1).map_values(normalize_header_fn())
                =~= pairs_view(headers@).take(i as int).map_values(normalize_header_fn()).push(
                normalize_header_fn()(pairs_view(headers@)[i as int]),
            ));
        }
    }
    proof {
        assert(pairs_view(headers@).take(n as int) =~= pairs_view(headers@));
    }
    let sorted = sort_pairs(normalized);
    let ghost sv = pairs_view(sorted@);

    let mut block: Vec<u8> = Vec::new();
    let m = sorted.len();
    proof {
        assert(sv.skip(0) == sv);
    }
    for i in 0..m
        invariant
            m == sorted@.len(),
            sv == pairs_view(sorted@),
            spec_render_headers(sv) =~= block@ + spec_render_headers(sv.skip(i as int)),
    {
        block.append(&mut sorted[i].key.clone());
        block.push(0x3a);
        block.append(&mut sorted[i].value.clone());
        block.push(0x0a);
        proof {
            assert(sv.skip(i as int).first() == sv[i as int]);
            assert(sv.skip(i as int).drop_first() == sv.skip(i + 1));
        }
    }
    proof {
        assert(spec_render_headers(sv.skip(m as int)) =~= Seq::<u8>::empty());
        assert(block@ =~= spec_render_headers(sv));
    }

    let mut names: Vec<u8> = Vec::new();
    if m > 0 {
        names.append(&mut sorted[0].key.clone());
        let mut i: usize = 1;
        while i < m
            invariant
                1 <= i <= m,
                m == sorted@.len(),
                sv == pairs_view(sorted@),
                spec_render_names(sv) =~= names@ + spec_render_names_tail(sv.skip(i as int)),
            decreases m - i,
        {
            names.push(0x3b);
            names.append(&mut sorted[i].key.clone());
            proof {
                assert(sv.skip(i as int).first() == sv[i as int]);
                assert(sv.skip(i as int).drop_first() == sv.skip(i + 1));
            }
            i = i + 1;
        }
        proof {
            assert(spec_render_names_tail(sv.skip(m as int)) =~= Seq::<u8>::empty());
            assert(names@ =~= spec_render_names(sv));
        }
    }
    (block, names)
}

} // verus!
