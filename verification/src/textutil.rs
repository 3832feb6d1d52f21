//! Byte-level text utilities shared by the signer and the wire-dialect
//! builders: lowercase hex encoding and lexicographic ordering of byte
//! strings.

use vstd::prelude::*;

verus! {

/// The lowercase hex digit for a value below 16.
pub open spec fn spec_hex_digit(n: u8) -> u8
    recommends
        n < 16,
{
    if n < 10 {
        (0x30 + n) as u8
    } else {
        (0x57 + n) as u8
    }
}

/// Lowercase hex encoding of a byte string, two digits per byte.
pub open spec fn spec_hex(data: Seq<u8>) -> Seq<u8>
    decreases data.len(),
{
    if data.len() == 0 {
        Seq::empty()
    } else {
        seq![spec_hex_digit(data.first() / 16), spec_hex_digit(data.first() % 16)]
            + spec_hex(data.drop_first())
    }
}

/// Encodes a byte string as lowercase hex, two digits per byte.
pub fn hex_encode(data: &[u8]) -> (r: Vec<u8>)
    ensures
        r@ == spec_hex(data@),
{
    let mut r: Vec<u8> = Vec::new();
    let n = data.len();
    assert(data@.skip(0) == data@);
    for i in 0..n
        invariant
            n == data@.len(),
            spec_hex(data@) =~= r@ + spec_hex(data@.skip(i as int)),
            r@.len() == 2 * i,
    {
        let b = data[i];
        let hi = b / 16;
        let lo = b % 16;
        r.push(if hi < 10 { 0x30 + hi } else { 0x57 + hi });
        r.push(if lo < 10 { 0x30 + lo } else { 0x57 + lo });
        assert(data@.skip(i as int).drop_first() == data@.skip(i + 1));
    }
    r
}

/// Lexicographic "less than or equal" on byte strings: a shorter prefix
/// comes first, and otherwise the first differing byte decides.
pub open spec fn lex_le(a: Seq<u8>, b: Seq<u8>) -> bool
    decreases a.len(),
{
    if a.len() == 0 {
        true
    } else if b.len() == 0 {
        false
    } else if a.first() < b.first() {
        true
    } else if a.first() > b.first() {
        false
    } else {
        lex_le(a.drop_first(), b.drop_first())
    }
}

/// Any two byte strings are comparable under `lex_le`.
pub proof fn lemma_lex_le_total(a: Seq<u8>, b: Seq<u8>)
    ensures
        lex_le(a, b) || lex_le(b, a),
    decreases a.len(),
{
    if a.len() != 0 && b.len() != 0 && a.first() == b.first() {
        lemma_lex_le_total(a.drop_first(), b.drop_first());
    }
}

/// `lex_le` in both directions forces equality.
pub proof fn lemma_lex_le_antisymmetric(a: Seq<u8>, b: Seq<u8>)
    requires
        lex_le(a, b),
        lex_le(b, a),
    ensures
        a == b,
    decreases a.len(),
{
    if a.len() != 0 && b.len() != 0 && a.first() == b.first() {
        lemma_lex_le_antisymmetric(a.drop_first(), b.drop_first());
        assert(a =~= seq![a.first()] + a.drop_first());
        assert(b =~= seq![b.first()] + b.drop_first());
    } else if a.len() == 0 && b.len() == 0 {
        assert(a =~= b);
    }
}

/// `lex_le` is transitive.
pub proof fn lemma_lex_le_transitive(a: Seq<u8>, b: Seq<u8>, c: Seq<u8>)
    requires
        lex_le(a, b),
        lex_le(b, c),
    ensures
        lex_le(a, c),
    decreases a.len(),
{
    if a.len() != 0 && b.len() != 0 && c.len() != 0 && a.first() == b.first() && b.first()
        == c.first() {
        lemma_lex_le_transitive(a.drop_first(), b.drop_first(), c.drop_first());
    }
}

/// Two sequences sorted by an antisymmetric total order and holding the same
/// multiset of elements are the same sequence.
pub proof fn lemma_sorted_by_multiset_unique<A>(s1: Seq<A>, s2: Seq<A>, leq: spec_fn(A, A) -> bool)
    requires
        vstd::relations::sorted_by(s1, leq),
        vstd::relations::sorted_by(s2, leq),
        s1.to_multiset() == s2.to_multiset(),
        vstd::relations::antisymmetric(leq),
        vstd::relations::strongly_connected(leq),
    ensures
        s1 == s2,
    decreases s1.len(),
{
    broadcast use vstd::seq_lib::group_to_multiset_ensures;

    if s1.len() == 0 {
        assert(s2.to_multiset().len() == 0);
        assert(s1 =~= s2);
    } else {
        assert(s1.to_multiset().len() == s1.len());
        assert(s2.to_multiset().len() == s2.len());
        let x1 = s1[0];
        let x2 = s2[0];
        assert(s1.contains(x1));
        assert(s2.to_multiset().count(x1) > 0);
        assert(s2.contains(x1));
        let i2 = choose|i: int| 0 <= i < s2.len() && s2[i] == x1;
        assert(leq(x2, x1));
        assert(s1.to_multiset().count(x2) > 0);
        assert(s1.contains(x2));
        let i1 = choose|i: int| 0 <= i < s1.len() && s1[i] == x2;
        assert(leq(x1, x2));
        assert(x1 == x2);
        let t1 = s1.drop_first();
        let t2 = s2.drop_first();
        assert(t1 =~= s1.remove(0));
        assert(t2 =~= s2.remove(0));
        assert(t1.to_multiset() == t2.to_multiset());
        assert(vstd::relations::sorted_by(t1, leq)) by {
            assert(forall|i: int, j: int|
                0 <= i < j < t1.len() ==> leq(#[trigger] t1[i], #[trigger] t1[j]));
        }
        assert(vstd::relations::sorted_by(t2, leq)) by {
            assert(forall|i: int, j: int|
                0 <= i < j < t2.len() ==> leq(#[trigger] t2[i], #[trigger] t2[j]));
        }
        lemma_sorted_by_multiset_unique(t1, t2, leq);
        assert(s1 =~= s2) by {
            assert(forall|i: int|
                1 <= i < s1.len() ==> s1[i] == t1[i - 1] && s2[i] == t2[i - 1]);
        }
    }
}

/// Mapping two multiset-equal sequences through one function yields
/// multiset-equal sequences.
pub proof fn lemma_map_values_multiset<A, B>(s1: Seq<A>, s2: Seq<A>, f: spec_fn(A) -> B)
    requires
        s1.to_multiset() == s2.to_multiset(),
    ensures
        s1.map_values(f).to_multiset() == s2.map_values(f).to_multiset(),
    decreases s1.len(),
{
    broadcast use vstd::seq_lib::group_to_multiset_ensures;

    if s1.len() == 0 {
        assert(s2.to_multiset().len() == 0);
        assert(s1.map_values(f) =~= s2.map_values(f));
    } else {
        assert(s1.to_multiset().len() == s1.len());
        assert(s2.to_multiset().len() == s2.len());
        let x = s1[0];
        assert(s1.contains(x));
        assert(s2.to_multiset().count(x) > 0);
        assert(s2.contains(x));
        let i = choose|i: int| 0 <= i < s2.len() && s2[i] == x;
        let t1 = s1.drop_first();
        let t2 = s2.remove(i);
        assert(t1 =~= s1.remove(0));
        assert(t1.to_multiset() == t2.to_multiset());
        lemma_map_values_multiset(t1, t2, f);
        assert(s1.map_values(f).remove(0) =~= t1.map_values(f));
        assert(s2.map_values(f).remove(i) =~= t2.map_values(f));
        assert(s1.map_values(f).to_multiset().remove(f(x)) == t1.map_values(f).to_multiset()) by {
            assert(s1.map_values(f)[0] == f(x));
        }
        assert(s2.map_values(f).to_multiset().remove(f(x)) == t2.map_values(f).to_multiset()) by {
            assert(s2.map_values(f)[i] == f(x));
        }
        assert(s1.map_values(f).to_multiset().count(f(x)) > 0) by {
            assert(s1.map_values(f)[0] == f(x));
            assert(s1.map_values(f).contains(f(x)));
        }
        assert(s2.map_values(f).to_multiset().count(f(x)) > 0) by {
            assert(s2.map_values(f)[i] == f(x));
            assert(s2.map_values(f).contains(f(x)));
        }
        assert(s1.map_values(f).to_multiset() =~= s2.map_values(f).to_multiset()) by {
            let m1 = s1.map_values(f).to_multiset();
            let m2 = s2.map_values(f).to_multiset();
            assert(m1.remove(f(x)) == m2.remove(f(x)));
            assert(forall|y: B| m1.count(y) == m2.count(y)) by {
                assert(forall|y: B|
                    y != f(x) ==> m1.count(y) == m1.remove(f(x)).count(y) && m2.count(y)
                        == m2.remove(f(x)).count(y));
                assert(m1.count(f(x)) == m1.remove(f(x)).count(f(x)) + 1);
                assert(m2.count(f(x)) == m2.remove(f(x)).count(f(x)) + 1);
            }
        }
    }
}

/// Decides `lex_le` on byte slices.
pub fn lex_le_bytes(a: &[u8], b: &[u8]) -> (r: bool)
    ensures
        r == lex_le(a@, b@),
{
    let mut i: usize = 0;
    let alen = a.len();
    let blen = b.len();
    proof {
        assert(a@.skip(0) == a@);
        assert(b@.skip(0) == b@);
    }
    loop
        invariant
            i <= alen,
            i <= blen,
            alen == a@.len(),
            blen == b@.len(),
            lex_le(a@, b@) == lex_le(a@.skip(i as int), b@.skip(i as int)),
        decreases alen - i,
    {
        if i == alen {
            return true;
        }
        if i == blen {
            return false;
        }
        let x = a[i];
        let y = b[i];
        if x < y {
            return true;
        }
        if x > y {
            return false;
        }
        proof {
            assert(a@.skip(i as int).drop_first() == a@.skip(i + 1));
            assert(b@.skip(i as int).drop_first() == b@.skip(i + 1));
        }
        i = i + 1;
    }
}


/// Relies on `String::push` of std, which vstd leaves unspecified: it
/// appends exactly the given character.
#[verifier::external_body]
pub fn string_push(s: &mut String, c: char)
    ensures
        final(s)@ == old(s)@.push(c),
{
    s.push(c);
}

/// Collects the characters of a string slice into a vector.
pub fn str_to_chars(s: &str) -> (r: Vec<char>)
    ensures
        r@ == s@,
{
    let mut r: Vec<char> = Vec::new();
    let n = s.unicode_len();
    for i in 0..n
        invariant
            n == s@.len(),
            r@ =~= s@.take(i as int),
    {
        r.push(s.get_char(i));
        proof {
            assert(s@.take(i + 1) =~= s@.take(i as int).push(s@[i as int]));
        }
    }
    proof {
        assert(s@.take(n as int) =~= s@);
    }
    r
}

/// Builds a string from a character vector.
pub fn chars_to_string(v: &Vec<char>) -> (r: String)
    ensures
        r@ == v@,
{
    let mut r = String::new();
    let n = v.len();
    for i in 0..n
        invariant
            n == v@.len(),
            r@ =~= v@.take(i as int),
    {
        string_push(&mut r, v[i]);
        proof {
            assert(v@.take(i + 1) =~= v@.take(i as int).push(v@[i as int]));
        }
    }
    proof {
        assert(v@.take(n as int) =~= v@);
    }
    r
}


/// Compares two byte slices.
pub fn bytes_eq(a: &[u8], b: &[u8]) -> (r: bool)
    ensures
        r == (a@ == b@),
{
    if a.len() != b.len() {
        assert(a@ != b@);
        return false;
    }
    let n = a.len();
    for i in 0..n
        invariant
            n == a@.len() == b@.len(),
            forall|j: int| 0 <= j < i ==> a@[j] == b@[j],
    {
        if a[i] != b[i] {
            return false;
        }
    }
    proof {
        assert(a@ =~= b@);
    }
    true
}


/// The bytes as a string when they are all ASCII; the empty string
/// otherwise. For diagnostics built from wire data.
pub fn ascii_or_empty(data: &[u8]) -> (r: String)
    ensures
        (forall|i: int| 0 <= i < data@.len() ==> data@[i] < 128) ==> r@.len() == data@.len()
            && (forall|i: int| 0 <= i < data@.len() ==> r@[i] == data@[i] as char),
        (exists|i: int| 0 <= i < data@.len() && data@[i] >= 128) ==> r@.len() == 0,
{
    let n = data.len();
    let mut chars: Vec<char> = Vec::new();
    for i in 0..n
        invariant
            n == data@.len(),
            chars@.len() == i,
            forall|j: int| 0 <= j < i ==> chars@[j] == data@[j] as char,
            forall|j: int| 0 <= j < i ==> data@[j] < 128,
    {
        let b = data[i];
        if b >= 128 {
            return String::new();
        }
        chars.push(b as char);
    }
    chars_to_string(&chars)
}


/// Lexicographic "less than or equal" on character strings, by code point.
pub open spec fn lex_le_chars(a: Seq<char>, b: Seq<char>) -> bool
    decreases a.len(),
{
    if a.len() == 0 {
        true
    } else if b.len() == 0 {
        false
    } else if a.first() < b.first() {
        true
    } else if a.first() > b.first() {
        false
    } else {
        lex_le_chars(a.drop_first(), b.drop_first())
    }
}

pub proof fn lemma_lex_le_chars_total(a: Seq<char>, b: Seq<char>)
    ensures
        lex_le_chars(a, b) || lex_le_chars(b, a),
    decreases a.len(),
{
    if a.len() != 0 && b.len() != 0 && a.first() == b.first() {
        lemma_lex_le_chars_total(a.drop_first(), b.drop_first());
    }
}

pub proof fn lemma_lex_le_chars_antisymmetric(a: Seq<char>, b: Seq<char>)
    requires
        lex_le_chars(a, b),
        lex_le_chars(b, a),
    ensures
        a == b,
    decreases a.len(),
{
    if a.len() != 0 && b.len() != 0 && a.first() == b.first() {
        lemma_lex_le_chars_antisymmetric(a.drop_first(), b.drop_first());
        assert(a =~= seq![a.first()] + a.drop_first());
        assert(b =~= seq![b.first()] + b.drop_first());
    } else if a.len() == 0 && b.len() == 0 {
        assert(a =~= b);
    }
}

pub proof fn lemma_lex_le_chars_transitive(a: Seq<char>, b: Seq<char>, c: Seq<char>)
    requires
        lex_le_chars(a, b),
        lex_le_chars(b, c),
    ensures
        lex_le_chars(a, c),
    decreases a.len(),
{
    if a.len() != 0 && b.len() != 0 && c.len() != 0 && a.first() == b.first() && b.first()
        == c.first() {
        lemma_lex_le_chars_transitive(a.drop_first(), b.drop_first(), c.drop_first());
    }
}

/// The character order as a first-class function, for `sort_by`.
pub open spec fn lex_le_chars_fn() -> spec_fn(Seq<char>, Seq<char>) -> bool {
    |a: Seq<char>, b: Seq<char>| lex_le_chars(a, b)
}

/// The character order is a total ordering.
pub proof fn lemma_lex_le_chars_fn_total_ordering()
    ensures
        vstd::relations::total_ordering(lex_le_chars_fn()),
{
    let leq = lex_le_chars_fn();
    assert forall|a: Seq<char>| #[trigger] leq(a, a) by {
        lemma_lex_le_chars_total(a, a);
    }
    assert forall|a: Seq<char>, b: Seq<char>| #[trigger] leq(a, b) && #[trigger] leq(b, a)
        implies a == b by {
        lemma_lex_le_chars_antisymmetric(a, b);
    }
    assert forall|a: Seq<char>, b: Seq<char>, c: Seq<char>|
        #[trigger] leq(a, b) && #[trigger] leq(b, c) implies leq(a, c) by {
        lemma_lex_le_chars_transitive(a, b, c);
    }
    assert forall|a: Seq<char>, b: Seq<char>| #[trigger] leq(a, b) || #[trigger] leq(b, a) by {
        lemma_lex_le_chars_total(a, b);
    }
}

/// Decides `lex_le_chars` on character vectors.
pub fn lex_le_char_vecs(a: &Vec<char>, b: &Vec<char>) -> (r: bool)
    ensures
        r == lex_le_chars(a@, b@),
{
    let mut i: usize = 0;
    let alen = a.len();
    let blen = b.len();
    proof {
        assert(a@.skip(0) == a@);
        assert(b@.skip(0) == b@);
    }
    loop
        invariant
            i <= alen,
            i <= blen,
            alen == a@.len(),
            blen == b@.len(),
            lex_le_chars(a@, b@) == lex_le_chars(a@.skip(i as int), b@.skip(i as int)),
        decreases alen - i,
    {
        if i == alen {
            return true;
        }
        if i == blen {
            return false;
        }
        let x = a[i];
        let y = b[i];
        if x < y {
            return true;
        }
        if x > y {
            return false;
        }
        proof {
            assert(a@.skip(i as int).drop_first() == a@.skip(i + 1));
            assert(b@.skip(i as int).drop_first() == b@.skip(i + 1));
        }
        i = i + 1;
    }
}

/// The views of a list of character vectors.
pub open spec fn char_vecs_view(s: Seq<Vec<char>>) -> Seq<Seq<char>> {
    s.map_values(|v: Vec<char>| v@)
}

/// Sorts character strings into code-point order; the result is exactly
/// `sort_by` of the input's value under the character order.
pub fn sort_char_vecs(input: Vec<Vec<char>>) -> (out: Vec<Vec<char>>)
    ensures
        char_vecs_view(out@) == char_vecs_view(input@).sort_by(lex_le_chars_fn()),
{
    let ghost full = char_vecs_view(input@);
    let mut rest = input;
    let mut out: Vec<Vec<char>> = Vec::new();
    proof {
        broadcast use vstd::seq_lib::group_to_multiset_ensures;

        assert(char_vecs_view(out@).to_multiset().add(char_vecs_view(rest@).to_multiset())
            =~= full.to_multiset());
    }
    while rest.len() > 0
        invariant
            char_vecs_view(out@).to_multiset().add(char_vecs_view(rest@).to_multiset())
                == full.to_multiset(),
            vstd::relations::sorted_by(char_vecs_view(out@), lex_le_chars_fn()),
            forall|i: int, j: int|
                0 <= i < out@.len() && 0 <= j < rest@.len() ==> lex_le_chars(
                    #[trigger] char_vecs_view(out@)[i],
                    #[trigger] char_vecs_view(rest@)[j],
                ),
        decreases rest.len(),
    {
        let mut m: usize = 0;
        let mut k: usize = 1;
        proof {
            lemma_lex_le_chars_total(char_vecs_view(rest@)[0], char_vecs_view(rest@)[0]);
        }
        while k < rest.len()
            invariant
                m < k <= rest@.len(),
                forall|j: int|
                    0 <= j < k ==> lex_le_chars(
                        char_vecs_view(rest@)[m as int],
                        #[trigger] char_vecs_view(rest@)[j],
                    ),
            decreases rest@.len() - k,
        {
            if lex_le_char_vecs(&rest[k], &rest[m]) {
                proof {
                    assert forall|j: int| 0 <= j < k + 1 implies lex_le_chars(
                        char_vecs_view(rest@)[k as int],
                        #[trigger] char_vecs_view(rest@)[j],
                    ) by {
                        if j == k {
                            lemma_lex_le_chars_total(
                                char_vecs_view(rest@)[k as int],
                                char_vecs_view(rest@)[k as int],
                            );
                        } else if j < k {
                            lemma_lex_le_chars_transitive(
                                char_vecs_view(rest@)[k as int],
                                char_vecs_view(rest@)[m as int],
                                char_vecs_view(rest@)[j],
                            );
                        }
                    }
                }
                m = k;
            } else {
                proof {
                    lemma_lex_le_chars_total(
                        char_vecs_view(rest@)[m as int],
                        char_vecs_view(rest@)[k as int],
                    );
                }
            }
            k = k + 1;
        }
        let ghost old_rest = rest@;
        let ghost old_out = out@;
        let x = rest.remove(m);
        out.push(x);
        proof {
            broadcast use vstd::seq_lib::group_to_multiset_ensures;

            assert(char_vecs_view(rest@) =~= char_vecs_view(old_rest).remove(m as int));
            assert(char_vecs_view(out@) =~= char_vecs_view(old_out).push(x@));
            assert(char_vecs_view(old_rest)[m as int] == x@);
            assert(char_vecs_view(out@).to_multiset().add(char_vecs_view(rest@).to_multiset())
                =~= full.to_multiset());
            assert(vstd::relations::sorted_by(char_vecs_view(out@), lex_le_chars_fn())) by {
                assert(forall|i: int, j: int|
                    0 <= i < j < char_vecs_view(out@).len() ==> lex_le_chars_fn()(
                        #[trigger] char_vecs_view(out@)[i],
                        #[trigger] char_vecs_view(out@)[j],
                    ));
            }
            assert forall|i: int, j: int|
                0 <= i < out@.len() && 0 <= j < rest@.len() implies lex_le_chars(
                #[trigger] char_vecs_view(out@)[i],
                #[trigger] char_vecs_view(rest@)[j],
            ) by {
                let jj = if j < m { j } else { j + 1 };
                assert(char_vecs_view(rest@)[j] == char_vecs_view(old_rest)[jj]);
                if i < out@.len() - 1 {
                    assert(char_vecs_view(out@)[i] == char_vecs_view(old_out)[i]);
                } else {
                    assert(char_vecs_view(out@)[i] == x@);
                }
            }
        }
    }
    proof {
        broadcast use vstd::seq_lib::group_to_multiset_ensures;

        assert(char_vecs_view(rest@) =~= Seq::empty());
        assert(char_vecs_view(rest@).to_multiset() =~= vstd::multiset::Multiset::empty());
        assert(char_vecs_view(out@).to_multiset() =~= full.to_multiset());
        lemma_lex_le_chars_fn_total_ordering();
        full.lemma_sort_by_ensures(lex_le_chars_fn());
        lemma_sorted_by_multiset_unique(
            char_vecs_view(out@),
            full.sort_by(lex_le_chars_fn()),
            lex_le_chars_fn(),
        );
    }
    out
}

} // verus!
