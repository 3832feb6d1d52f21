//! The response normalizer: XML into a generic nested value.
//!
//! Element tag names become mapping keys; an element's text content becomes a
//! string value when it has no child elements; repeated sibling tags with one
//! name accumulate into a sequence under that key. A single occurrence stays
//! a bare value, never a one-element sequence: callers reading list-shaped
//! fields must branch on sequence versus single value. That asymmetry is
//! deliberate and kept; the call sites expect it. Attributes are dropped;
//! `<?...?>` and `<!...>` constructs are skipped; malformed input is a parse
//! error, never a panic.

use vstd::prelude::*;
use crate::ini::{
    copy_range, find_char_from, spec_find_char, spec_trim_chars, trim_chars,
};
use crate::textutil::{chars_to_string, str_to_chars};

verus! {

/// The generic value all response dialects converge to.
pub enum GenericValue {
    Null,
    Text(String),
    List(Vec<GenericValue>),
    Mapping(Vec<(String, GenericValue)>),
}

impl Clone for GenericValue {
    /// A copy holding the same model.
    fn clone(&self) -> (r: GenericValue)
        ensures
            gv_view(r) == gv_view(*self),
        decreases *self,
    {
        match self {
            GenericValue::Null => GenericValue::Null,
            GenericValue::Text(s) => GenericValue::Text(s.clone()),
            GenericValue::List(items) => {
                let out = clone_list_from(items, 0);
                proof {
                    lemma_list_view_index(items@);
                    lemma_list_view_index(out@);
                    assert(list_view(out@) =~= list_view(items@));
                }
                GenericValue::List(out)
            },
            GenericValue::Mapping(fields) => {
                let out = clone_fields_from(fields, 0);
                proof {
                    lemma_fields_view_index(fields@);
                    lemma_fields_view_index(out@);
                    assert(fields_view(out@) =~= fields_view(fields@));
                }
                GenericValue::Mapping(out)
            },
        }
    }
}

/// Copies the values of a list from `from` on.
fn clone_list_from(items: &Vec<GenericValue>, from: usize) -> (out: Vec<GenericValue>)
    requires
        from <= items@.len(),
    ensures
        out@.len() == items@.len() - from,
        forall|j: int|
            0 <= j < out@.len() ==> gv_view(#[trigger] out@[j]) == gv_view(items@[from + j]),
    decreases items@, items@.len() - from,
{
    if from == items.len() {
        Vec::new()
    } else {
        let first = items[from].clone();
        let mut rest = clone_list_from(items, from + 1);
        rest.insert(0, first);
        rest
    }
}

/// Copies the fields of a mapping from `from` on.
fn clone_fields_from(fields: &Vec<(String, GenericValue)>, from: usize) -> (out: Vec<
    (String, GenericValue),
>)
    requires
        from <= fields@.len(),
    ensures
        out@.len() == fields@.len() - from,
        forall|j: int|
            0 <= j < out@.len() ==> (#[trigger] out@[j]).0@ == fields@[from + j].0@ && gv_view(
                out@[j].1,
            ) == gv_view(fields@[from + j].1),
    decreases fields@, fields@.len() - from,
{
    if from == fields.len() {
        Vec::new()
    } else {
        let entry = &fields[from];
        let first = (entry.0.clone(), entry.1.clone());
        let mut rest = clone_fields_from(fields, from + 1);
        rest.insert(0, first);
        rest
    }
}

/// The mathematical shape of a generic value.
pub enum ValueModel {
    Null,
    Text(Seq<char>),
    List(Seq<ValueModel>),
    Mapping(Seq<(Seq<char>, ValueModel)>),
}

/// The model a generic value holds.
pub open spec fn gv_view(v: GenericValue) -> ValueModel
    decreases v,
{
    match v {
        GenericValue::Null => ValueModel::Null,
        GenericValue::Text(s) => ValueModel::Text(s@),
        GenericValue::List(items) => ValueModel::List(list_view(items@)),
        GenericValue::Mapping(fields) => ValueModel::Mapping(fields_view(fields@)),
    }
}

/// The models of the values in a list.
pub open spec fn list_view(s: Seq<GenericValue>) -> Seq<ValueModel>
    decreases s,
{
    if s.len() == 0 {
        Seq::empty()
    } else {
        seq![gv_view(s[0])] + list_view(s.drop_first())
    }
}

/// The models of the fields of a mapping.
pub open spec fn fields_view(s: Seq<(String, GenericValue)>) -> Seq<(Seq<char>, ValueModel)>
    decreases s,
{
    if s.len() == 0 {
        Seq::empty()
    } else {
        seq![(s[0].0@, gv_view(s[0].1))] + fields_view(s.drop_first())
    }
}

/// Random access into a list's model.
pub proof fn lemma_list_view_index(s: Seq<GenericValue>)
    ensures
        list_view(s).len() == s.len(),
        forall|i: int| 0 <= i < s.len() ==> list_view(s)[i] == gv_view(s[i]),
    decreases s,
{
    if s.len() > 0 {
        lemma_list_view_index(s.drop_first());
    }
}

/// Random access into a mapping's model.
pub proof fn lemma_fields_view_index(s: Seq<(String, GenericValue)>)
    ensures
        fields_view(s).len() == s.len(),
        forall|i: int|
            0 <= i < s.len() ==> fields_view(s)[i] == (s[i].0@, gv_view(s[i].1)),
    decreases s,
{
    if s.len() > 0 {
        lemma_fields_view_index(s.drop_first());
    }
}

/// A lexical piece of the document.
pub enum XmlToken {
    Open(Vec<char>),
    Close(Vec<char>),
    SelfClose(Vec<char>),
    Text(Vec<char>),
}

/// The mathematical shape of a token.
pub enum TokenModel {
    Open(Seq<char>),
    Close(Seq<char>),
    SelfClose(Seq<char>),
    Text(Seq<char>),
}

/// The model a token holds.
pub open spec fn token_view(t: XmlToken) -> TokenModel {
    match t {
        XmlToken::Open(n) => TokenModel::Open(n@),
        XmlToken::Close(n) => TokenModel::Close(n@),
        XmlToken::SelfClose(n) => TokenModel::SelfClose(n@),
        XmlToken::Text(s) => TokenModel::Text(s@),
    }
}

/// The model of a token list.
pub open spec fn tokens_view(s: Seq<XmlToken>) -> Seq<TokenModel> {
    s.map_values(|t: XmlToken| token_view(t))
}

/// Malformed XML: an unterminated tag, an empty tag, a mismatched or missing
/// closing tag, or trailing content after the root element.
#[derive(Debug, Clone, PartialEq, Eq, Structural)]
pub enum XmlError {
    Malformed,
}

/// An ASCII whitespace character inside a tag.
pub open spec fn is_tag_space(c: char) -> bool {
    c == ' ' || c == '\t' || c == '\r' || c == '\n'
}

/// The index of the first whitespace character, or -1 if none.
pub open spec fn spec_find_space(s: Seq<char>) -> int
    decreases s.len(),
{
    if s.len() == 0 {
        -1
    } else if is_tag_space(s.first()) {
        0
    } else {
        let r = spec_find_space(s.drop_first());
        if r == -1 {
            -1
        } else {
            r + 1
        }
    }
}

/// The tag's name: what stands before its first whitespace; attributes are
/// dropped.
pub open spec fn spec_tag_name(inner: Seq<char>) -> Seq<char> {
    let i = spec_find_space(inner);
    if 0 <= i <= inner.len() {
        inner.take(i)
    } else {
        inner
    }
}

/// The token list of a document, or nothing when a `<` is never closed or a
/// tag is empty.
pub open spec fn spec_tokenize(s: Seq<char>) -> Option<Seq<TokenModel>>
    decreases s.len(),
{
    if s.len() == 0 {
        Some(Seq::empty())
    } else if s.first() == '<' {
        let close = spec_find_char(s, '>');
        if !(0 <= close < s.len()) {
            None
        } else {
            let inner = s.subrange(1, close);
            match spec_tokenize(s.skip(close + 1)) {
                None => None,
                Some(rest) => if inner.len() == 0 {
                    None
                } else if inner.first() == '?' || inner.first() == '!' {
                    Some(rest)
                } else if inner.first() == '/' {
                    Some(seq![TokenModel::Close(spec_tag_name(inner.skip(1)))] + rest)
                } else if inner.last() == '/' {
                    Some(
                        seq![TokenModel::SelfClose(spec_tag_name(inner.take(inner.len() - 1)))]
                            + rest,
                    )
                } else {
                    Some(seq![TokenModel::Open(spec_tag_name(inner))] + rest)
                },
            }
        }
    } else {
        let lt = spec_find_char(s, '<');
        if 1 <= lt < s.len() {
            match spec_tokenize(s.skip(lt)) {
                None => None,
                Some(rest) => Some(seq![TokenModel::Text(s.take(lt))] + rest),
            }
        } else {
            Some(seq![TokenModel::Text(s)])
        }
    }
}

/// Scans a tag's name.
fn tag_name(inner: &Vec<char>) -> (r: Vec<char>)
    ensures
        r@ == spec_tag_name(inner@),
{
    let n = inner.len();
    let mut i: usize = 0;
    proof {
        assert(inner@.skip(0) == inner@);
    }
    while i < n && !(inner[i] == ' ' || inner[i] == '\t' || inner[i] == '\r' || inner[i] == '\n')
        invariant
            i <= n,
            n == inner@.len(),
            spec_find_space(inner@) == if spec_find_space(inner@.skip(i as int)) == -1 {
                -1int
            } else {
                spec_find_space(inner@.skip(i as int)) + i
            },
            forall|j: int| 0 <= j < i ==> !is_tag_space(inner@[j]),
        decreases n - i,
    {
        proof {
            let oi = i as int;
            lemma_find_space_bounds(inner@.skip(oi + 1));
            assert(inner@.skip(oi).first() == inner@[oi]);
            assert(inner@.skip(oi).drop_first() == inner@.skip(oi + 1));
        }
        i = i + 1;
    }
    proof {
        if i < n {
            assert(inner@.skip(i as int).first() == inner@[i as int]);
            assert(spec_find_space(inner@) == i);
        } else {
            assert(inner@.skip(n as int) =~= Seq::<char>::empty());
            assert(spec_find_space(inner@) == -1);
        }
    }
    if i < n {
        let r = copy_range(inner, 0, i);
        proof {
            assert(r@ =~= inner@.take(i as int));
        }
        r
    } else {
        let r = copy_range(inner, 0, n);
        proof {
            assert(r@ =~= inner@);
        }
        r
    }
}

proof fn lemma_find_space_bounds(s: Seq<char>)
    ensures
        spec_find_space(s) == -1 || 0 <= spec_find_space(s) < s.len(),
    decreases s.len(),
{
    if s.len() > 0 && !is_tag_space(s.first()) {
        lemma_find_space_bounds(s.drop_first());
    }
}

/// Appends the tokens of `o` after `a`, or nothing when `o` is nothing.
pub open spec fn opt_concat(a: Seq<TokenModel>, o: Option<Seq<TokenModel>>) -> Option<
    Seq<TokenModel>,
> {
    match o {
        Some(t) => Some(a + t),
        None => None,
    }
}

/// Splits a document into tokens.
pub fn tokenize(s: &str) -> (r: Result<Vec<XmlToken>, XmlError>)
    ensures
        match r {
            Ok(tokens) => spec_tokenize(s@) == Some(tokens_view(tokens@)),
            Err(_) => spec_tokenize(s@) is None,
        },
{
    let chars = str_to_chars(s);
    let n = chars.len();
    let mut tokens: Vec<XmlToken> = Vec::new();
    let mut pos: usize = 0;
    proof {
        assert(chars@.skip(0) == chars@);
        assert(tokens_view(tokens@) =~= Seq::<TokenModel>::empty());
    }
    while pos < n
        invariant
            pos <= n,
            n == chars@.len(),
            chars@ == s@,
            spec_tokenize(chars@) == opt_concat(
                tokens_view(tokens@),
                spec_tokenize(chars@.skip(pos as int)),
            ),
        decreases n - pos,
    {
        let ghost rest = chars@.skip(pos as int);
        let ghost acc0 = tokens_view(tokens@);
        if chars[pos] == '<' {
            proof {
                assert(rest.first() == chars@[pos as int]);
            }
            match find_char_from(&chars, pos, '>') {
                None => {
                    proof {
                        assert(spec_tokenize(rest) is None);
                    }
                    return Err(XmlError::Malformed);
                },
                Some(gt) => {
                    let inner = copy_range(&chars, pos + 1, gt);
                    proof {
                        assert(spec_find_char(rest, '>') == gt - pos);
                        assert(0 <= gt - pos < rest.len());
                        assert(inner@ =~= rest.subrange(1, gt - pos));
                        assert(rest.skip(gt - pos + 1) =~= chars@.skip(gt + 1));
                    }
                    if inner.len() == 0 {
                        proof {
                            assert(spec_tokenize(rest) is None);
                        }
                        return Err(XmlError::Malformed);
                    }
                    let c0 = inner[0];
                    if c0 == '?' || c0 == '!' {
                        // declaration or comment: no token
                    } else if c0 == '/' {
                        let name_src = copy_range(&inner, 1, inner.len());
                        proof {
                            assert(name_src@ =~= inner@.skip(1));
                        }
                        let name = tag_name(&name_src);
                        let ghost before = tokens_view(tokens@);
                        tokens.push(XmlToken::Close(name));
                        proof {
                            assert(tokens_view(tokens@) =~= before.push(
                                TokenModel::Close(spec_tag_name(inner@.skip(1))),
                            ));
                        }
                    } else if inner[inner.len() - 1] == '/' {
                        let name_src = copy_range(&inner, 0, inner.len() - 1);
                        proof {
                            assert(name_src@ =~= inner@.take(inner@.len() - 1));
                        }
                        let name = tag_name(&name_src);
                        let ghost before = tokens_view(tokens@);
                        tokens.push(XmlToken::SelfClose(name));
                        proof {
                            assert(tokens_view(tokens@) =~= before.push(
                                TokenModel::SelfClose(
                                    spec_tag_name(inner@.take(inner@.len() - 1)),
                                ),
                            ));
                        }
                    } else {
                        let name = tag_name(&inner);
                        let ghost before = tokens_view(tokens@);
                        tokens.push(XmlToken::Open(name));
                        proof {
                            assert(tokens_view(tokens@) =~= before.push(
                                TokenModel::Open(spec_tag_name(inner@)),
                            ));
                        }
                    }
                    proof {
                        let tail = spec_tokenize(chars@.skip(gt + 1));
                        assert(spec_tokenize(rest) == match tail {
                            None => None::<Seq<TokenModel>>,
                            Some(ts) => if inner@.len() == 0 {
                                None::<Seq<TokenModel>>
                            } else if inner@.first() == '?' || inner@.first() == '!' {
                                Some(ts)
                            } else if inner@.first() == '/' {
                                Some(seq![TokenModel::Close(spec_tag_name(inner@.skip(1)))] + ts)
                            } else if inner@.last() == '/' {
                                Some(
                                    seq![
                                        TokenModel::SelfClose(
                                            spec_tag_name(inner@.take(inner@.len() - 1)),
                                        ),
                                    ] + ts,
                                )
                            } else {
                                Some(seq![TokenModel::Open(spec_tag_name(inner@))] + ts)
                            },
                        });
                        assert(opt_concat(acc0, spec_tokenize(rest)) == opt_concat(
                            tokens_view(tokens@),
                            spec_tokenize(chars@.skip(gt + 1)),
                        )) by {
                            if tail is Some {
                                assert(acc0 + (spec_tokenize(rest)->Some_0) =~= tokens_view(
                                    tokens@,
                                ) + tail->Some_0);
                            }
                        }
                    }
                    pos = gt + 1;
                },
            }
        } else {
            proof {
                assert(rest.first() == chars@[pos as int]);
            }
            match find_char_from(&chars, pos, '<') {
                None => {
                    let text = copy_range(&chars, pos, n);
                    let ghost before = tokens_view(tokens@);
                    tokens.push(XmlToken::Text(text));
                    proof {
                        assert(spec_find_char(rest, '<') == -1);
                        assert(spec_tokenize(rest) == Some(seq![TokenModel::Text(rest)]));
                        assert(tokens_view(tokens@) =~= before.push(TokenModel::Text(rest)));
                        assert(acc0 + seq![TokenModel::Text(rest)] =~= tokens_view(tokens@));
                        assert(spec_tokenize(chars@) == Some(tokens_view(tokens@)));
                        assert(chars@.skip(n as int) =~= Seq::<char>::empty());
                        assert(spec_tokenize(chars@.skip(n as int)) == Some(
                            Seq::<TokenModel>::empty(),
                        ));
                        assert(tokens_view(tokens@) + Seq::<TokenModel>::empty() =~= tokens_view(
                            tokens@,
                        ));
                    }
                    pos = n;
                },
                Some(lt) => {
                    let text = copy_range(&chars, pos, lt);
                    let ghost before = tokens_view(tokens@);
                    tokens.push(XmlToken::Text(text));
                    proof {
                        assert(spec_find_char(rest, '<') == lt - pos);
                        assert(lt > pos);
                        assert(text@ =~= rest.take(lt - pos));
                        assert(rest.skip(lt - pos) =~= chars@.skip(lt as int));
                        let tail = spec_tokenize(chars@.skip(lt as int));
                        assert(spec_tokenize(rest) == match tail {
                            None => None::<Seq<TokenModel>>,
                            Some(ts) => Some(seq![TokenModel::Text(rest.take(lt - pos))] + ts),
                        });
                        assert(tokens_view(tokens@) =~= before.push(
                            TokenModel::Text(rest.take(lt - pos)),
                        ));
                        if tail is Some {
                            assert(acc0 + (spec_tokenize(rest)->Some_0) =~= tokens_view(tokens@)
                                + tail->Some_0);
                        }
                    }
                    pos = lt;
                },
            }
        }
    }
    proof {
        assert(chars@.skip(n as int) =~= Seq::<char>::empty());
        assert(spec_tokenize(chars@.skip(n as int)) == Some(Seq::<TokenModel>::empty()));
        assert(tokens_view(tokens@) + Seq::<TokenModel>::empty() =~= tokens_view(tokens@));
    }
    Ok(tokens)
}


/// The index of the first field with this name, or -1 if none.
pub open spec fn spec_find_field(fields: Seq<(Seq<char>, ValueModel)>, name: Seq<char>) -> int
    decreases fields.len(),
{
    if fields.len() == 0 {
        -1
    } else if fields.first().0 == name {
        0
    } else {
        let r = spec_find_field(fields.drop_first(), name);
        if r == -1 {
            -1
        } else {
            r + 1
        }
    }
}

pub proof fn lemma_find_field_props(fields: Seq<(Seq<char>, ValueModel)>, name: Seq<char>)
    ensures
        spec_find_field(fields, name) == -1 ==> forall|i: int|
            0 <= i < fields.len() ==> fields[i].0 != name,
        spec_find_field(fields, name) != -1 ==> {
            let r = spec_find_field(fields, name);
            &&& 0 <= r < fields.len()
            &&& fields[r].0 == name
            &&& forall|i: int| 0 <= i < r ==> fields[i].0 != name
        },
    decreases fields.len(),
{
    if fields.len() > 0 && fields.first().0 != name {
        lemma_find_field_props(fields.drop_first(), name);
        let t = fields.drop_first();
        if spec_find_field(fields, name) == -1 {
            assert forall|i: int| 0 <= i < fields.len() implies fields[i].0 != name by {
                if i > 0 {
                    assert(t[i - 1].0 != name);
                }
            }
        } else {
            let r = spec_find_field(fields, name);
            assert(t[r - 1].0 == name);
            assert forall|i: int| 0 <= i < r implies fields[i].0 != name by {
                if i > 0 {
                    assert(t[i - 1].0 != name);
                }
            }
        }
    }
}

/// A child folded into its parent's fields: a fresh name is appended; a
/// repeated name accumulates, the existing value becoming (or growing) a
/// sequence.
pub open spec fn spec_insert_child(
    fields: Seq<(Seq<char>, ValueModel)>,
    name: Seq<char>,
    v: ValueModel,
) -> Seq<(Seq<char>, ValueModel)> {
    let i = spec_find_field(fields, name);
    if 0 <= i < fields.len() {
        match fields[i].1 {
            ValueModel::List(l) => fields.update(i, (name, ValueModel::List(l.push(v)))),
            _ => fields.update(i, (name, ValueModel::List(seq![fields[i].1, v]))),
        }
    } else {
        fields.push((name, v))
    }
}

/// What a closed element denotes: its children as a mapping when it has any,
/// else its trimmed text, else null.
pub open spec fn spec_element_value(fields: Seq<(Seq<char>, ValueModel)>, text: Seq<char>)
    -> ValueModel {
    if fields.len() > 0 {
        ValueModel::Mapping(fields)
    } else if spec_trim_chars(text).len() > 0 {
        ValueModel::Text(spec_trim_chars(text))
    } else {
        ValueModel::Null
    }
}

/// The element content starting at `pos`, inside an element named `name`,
/// with the fields and text gathered so far: the element's value and the
/// position after its closing tag, or nothing when the document is
/// malformed.
pub open spec fn spec_content(
    tokens: Seq<TokenModel>,
    pos: int,
    name: Seq<char>,
    fields: Seq<(Seq<char>, ValueModel)>,
    text: Seq<char>,
) -> Option<(ValueModel, int)>
    decreases tokens.len() - pos,
{
    if pos < 0 || pos >= tokens.len() {
        None
    } else {
        match tokens[pos] {
            TokenModel::Text(t) => spec_content(tokens, pos + 1, name, fields, text + t),
            TokenModel::Close(n) => if n == name {
                Some((spec_element_value(fields, text), pos + 1))
            } else {
                None
            },
            TokenModel::SelfClose(n) => spec_content(
                tokens,
                pos + 1,
                name,
                spec_insert_child(fields, n, ValueModel::Null),
                text,
            ),
            TokenModel::Open(n) => match spec_content(
                tokens,
                pos + 1,
                n,
                Seq::empty(),
                Seq::empty(),
            ) {
                None => None,
                Some((v, end)) => if pos < end <= tokens.len() {
                    spec_content(tokens, end, name, spec_insert_child(fields, n, v), text)
                } else {
                    None
                },
            },
        }
    }
}

/// A token that contributes nothing outside the root: whitespace-only text.
pub open spec fn spec_ws_text(t: TokenModel) -> bool {
    t is Text && spec_trim_chars(t->Text_0).len() == 0
}

/// The first position at or after `pos` holding a token that is not
/// whitespace-only text; the length when none remains.
pub open spec fn spec_skip_ws(tokens: Seq<TokenModel>, pos: int) -> int
    decreases tokens.len() - pos,
{
    if pos < 0 || pos >= tokens.len() {
        tokens.len() as int
    } else if spec_ws_text(tokens[pos]) {
        spec_skip_ws(tokens, pos + 1)
    } else {
        pos
    }
}

/// The document's value: one root element, whitespace allowed around it,
/// whose name becomes the single key of the outermost mapping.
pub open spec fn spec_document(tokens: Seq<TokenModel>) -> Option<ValueModel> {
    let p = spec_skip_ws(tokens, 0);
    if p >= tokens.len() {
        None
    } else {
        match tokens[p] {
            TokenModel::Open(n) => match spec_content(tokens, p + 1, n, Seq::empty(), Seq::empty()) {
                None => None,
                Some((v, end)) => if spec_skip_ws(tokens, end) == tokens.len() {
                    Some(ValueModel::Mapping(seq![(n, v)]))
                } else {
                    None
                },
            },
            TokenModel::SelfClose(n) => if spec_skip_ws(tokens, p + 1) == tokens.len() {
                Some(ValueModel::Mapping(seq![(n, ValueModel::Null)]))
            } else {
                None
            },
            _ => None,
        }
    }
}

/// The normalized value of a document, or nothing when it is malformed.
pub open spec fn spec_xml_to_value(s: Seq<char>) -> Option<ValueModel> {
    match spec_tokenize(s) {
        None => None,
        Some(tokens) => spec_document(tokens),
    }
}

/// Appends the characters of `data` to `out`.
fn push_chars(out: &mut Vec<char>, data: &Vec<char>)
    ensures
        final(out)@ == old(out)@ + data@,
{
    let n = data.len();
    for i in 0..n
        invariant
            n == data@.len(),
            out@ =~= old(out)@ + data@.take(i as int),
    {
        out.push(data[i]);
        proof {
            assert(old(out)@ + data@.take(i + 1) =~= (old(out)@ + data@.take(i as int)).push(
                data@[i as int],
            ));
        }
    }
    proof {
        assert(old(out)@ + data@.take(n as int) =~= old(out)@ + data@);
    }
}

/// Folds one child value into the fields gathered so far.
fn insert_child(fields: &mut Vec<(String, GenericValue)>, name: &Vec<char>, v: GenericValue)
    ensures
        fields_view(final(fields)@) == spec_insert_child(
            fields_view(old(fields)@),
            name@,
            gv_view(v),
        ),
{
    let ghost fv0 = fields_view(old(fields)@);
    proof {
        lemma_fields_view_index(old(fields)@);
        lemma_find_field_props(fv0, name@);
    }
    let name_s = chars_to_string(name);
    let n = fields.len();
    let mut idx: usize = 0;
    let mut found = false;
    while idx < n && !found
        invariant
            idx <= n,
            !found ==> forall|j: int| 0 <= j < idx ==> fv0[j].0 != name@,
            found ==> idx < n && fv0[idx as int].0 == name@ && forall|j: int|
                0 <= j < idx ==> fv0[j].0 != name@,
            n == fields@.len(),
            *fields == *old(fields),
            name_s@ == name@,
            fv0 == fields_view(fields@),
            fv0.len() == n,
            forall|i: int| 0 <= i < n ==> fv0[i] == (#[trigger] fields@[i].0@, gv_view(fields@[i].1)),
        decreases n - idx, if found { 0int } else { 1int },
    {
        if fields[idx].0 == name_s {
            found = true;
        } else {
            idx = idx + 1;
        }
    }
    if found {
        proof {
            assert(spec_find_field(fv0, name@) == idx) by {
                if spec_find_field(fv0, name@) == -1 {
                    assert(fv0[idx as int].0 != name@);
                }
                let r = spec_find_field(fv0, name@);
                if r < idx {
                    assert(fv0[r].0 != name@);
                }
                if r > idx {
                    assert(fv0[idx as int].0 != name@);
                }
            }
        }
        let (k, old_v) = fields.remove(idx);
        let ghost removed = fields@;
        match old_v {
            GenericValue::List(mut l) => {
                let ghost l0 = l@;
                l.push(v);
                proof {
                    lemma_list_view_index(l0);
                    lemma_list_view_index(l@);
                    assert(list_view(l@) =~= list_view(l0).push(gv_view(v)));
                }
                fields.insert(idx, (k, GenericValue::List(l)));
            },
            other => {
                let mut l: Vec<GenericValue> = Vec::new();
                l.push(other);
                l.push(v);
                proof {
                    lemma_list_view_index(l@);
                    assert(list_view(l@) =~= seq![gv_view(l@[0]), gv_view(l@[1])]);
                }
                fields.insert(idx, (k, GenericValue::List(l)));
            },
        }
        proof {
            lemma_fields_view_index(fields@);
            lemma_list_view_index(fields@[idx as int].1->List_0@);
            assert(fields_view(fields@) =~= spec_insert_child(fv0, name@, gv_view(v)));
        }
    } else {
        proof {
            assert(spec_find_field(fv0, name@) == -1) by {
                if spec_find_field(fv0, name@) != -1 {
                    let r = spec_find_field(fv0, name@);
                    assert(fv0[r].0 != name@);
                }
            }
        }
        fields.push((name_s, v));
        proof {
            lemma_fields_view_index(fields@);
            assert(fields_view(fields@) =~= fv0.push((name@, gv_view(v))));
        }
    }
}

/// The value a finished element denotes.
fn element_value(fields: Vec<(String, GenericValue)>, text: Vec<char>) -> (r: GenericValue)
    ensures
        gv_view(r) == spec_element_value(fields_view(fields@), text@),
{
    proof {
        lemma_fields_view_index(fields@);
    }
    if fields.len() > 0 {
        GenericValue::Mapping(fields)
    } else {
        let t = trim_chars(&text);
        if t.len() > 0 {
            GenericValue::Text(chars_to_string(&t))
        } else {
            GenericValue::Null
        }
    }
}

/// Builds the content of the element named `name` starting at `pos`.
fn build_content(
    tokens: &Vec<XmlToken>,
    pos: usize,
    name: &Vec<char>,
    fields: Vec<(String, GenericValue)>,
    text: Vec<char>,
) -> (r: Result<(GenericValue, usize), XmlError>)
    requires
        pos <= tokens@.len(),
    ensures
        match r {
            Ok((v, end)) => spec_content(
                tokens_view(tokens@),
                pos as int,
                name@,
                fields_view(fields@),
                text@,
            ) == Some((gv_view(v), end as int)) && end <= tokens@.len(),
            Err(_) => spec_content(
                tokens_view(tokens@),
                pos as int,
                name@,
                fields_view(fields@),
                text@,
            ) is None,
        },
    decreases tokens@.len() - pos,
{
    let ghost tv = tokens_view(tokens@);
    proof {
        assert(tv.len() == tokens@.len());
    }
    if pos >= tokens.len() {
        return Err(XmlError::Malformed);
    }
    proof {
        assert(tv[pos as int] == token_view(tokens@[pos as int]));
    }
    match &tokens[pos] {
        XmlToken::Text(t) => {
            let mut text2 = text;
            push_chars(&mut text2, t);
            build_content(tokens, pos + 1, name, fields, text2)
        },
        XmlToken::Close(n) => {
            if crate::ini::chars_eq(n, name) {
                let v = element_value(fields, text);
                Ok((v, pos + 1))
            } else {
                Err(XmlError::Malformed)
            }
        },
        XmlToken::SelfClose(n) => {
            let mut fields2 = fields;
            insert_child(&mut fields2, n, GenericValue::Null);
            build_content(tokens, pos + 1, name, fields2, text)
        },
        XmlToken::Open(n) => {
            let empty_fields: Vec<(String, GenericValue)> = Vec::new();
            let empty_text: Vec<char> = Vec::new();
            proof {
                assert(fields_view(empty_fields@) =~= Seq::<(Seq<char>, ValueModel)>::empty());
                assert(empty_text@ =~= Seq::<char>::empty());
            }
            match build_content(tokens, pos + 1, n, empty_fields, empty_text) {
                Err(e) => Err(e),
                Ok((v, end)) => {
                    if pos < end && end <= tokens.len() {
                        let mut fields2 = fields;
                        insert_child(&mut fields2, n, v);
                        build_content(tokens, end, name, fields2, text)
                    } else {
                        Err(XmlError::Malformed)
                    }
                },
            }
        },
    }
}

/// Normalizes an XML document into a generic value: the root element's name
/// keys the outermost mapping. Malformed input is reported, never panicked
/// on.
pub fn xml_to_json(xml: &str) -> (r: Result<GenericValue, XmlError>)
    ensures
        match r {
            Ok(v) => spec_xml_to_value(xml@) == Some(gv_view(v)),
            Err(_) => spec_xml_to_value(xml@) is None,
        },
{
    let tokens = match tokenize(xml) {
        Ok(t) => t,
        Err(e) => {
            return Err(e);
        },
    };
    let ghost tv = tokens_view(tokens@);
    let n = tokens.len();
    let mut p: usize = 0;
    while p < n && is_ws_token(&tokens, p)
        invariant
            p <= n,
            n == tokens@.len(),
            tv == tokens_view(tokens@),
            spec_skip_ws(tv, 0) == spec_skip_ws(tv, p as int),
        decreases n - p,
    {
        p = p + 1;
    }
    proof {
        assert(spec_skip_ws(tv, 0) == p) by {
            if p < n {
                assert(!spec_ws_text(tv[p as int]));
            }
        }
    }
    if p >= n {
        return Err(XmlError::Malformed);
    }
    proof {
        assert(tv[p as int] == token_view(tokens@[p as int]));
    }
    match &tokens[p] {
        XmlToken::Open(root) => {
            let empty_fields: Vec<(String, GenericValue)> = Vec::new();
            let empty_text: Vec<char> = Vec::new();
            proof {
                assert(fields_view(empty_fields@) =~= Seq::<(Seq<char>, ValueModel)>::empty());
                assert(empty_text@ =~= Seq::<char>::empty());
            }
            match build_content(&tokens, p + 1, root, empty_fields, empty_text) {
                Err(e) => Err(e),
                Ok((v, end)) => {
                    let mut q = end;
                    while q < n && is_ws_token(&tokens, q)
                        invariant
                            q <= n,
                            n == tokens@.len(),
                            tv == tokens_view(tokens@),
                            spec_skip_ws(tv, end as int) == spec_skip_ws(tv, q as int),
                            end <= n,
                        decreases n - q,
                    {
                        q = q + 1;
                    }
                    if q < n {
                        proof {
                            assert(!spec_ws_text(tv[q as int]));
                            assert(spec_skip_ws(tv, end as int) == q);
                        }
                        Err(XmlError::Malformed)
                    } else {
                        proof {
                            assert(spec_skip_ws(tv, end as int) == tv.len());
                        }
                        let mut m: Vec<(String, GenericValue)> = Vec::new();
                        m.push((chars_to_string(root), v));
                        let out = GenericValue::Mapping(m);
                        proof {
                            lemma_fields_view_index(m@);
                            assert(fields_view(m@) =~= seq![(root@, gv_view(v))]);
                        }
                        Ok(out)
                    }
                },
            }
        },
        XmlToken::SelfClose(root) => {
            let mut q = p + 1;
            while q < n && is_ws_token(&tokens, q)
                invariant
                    q <= n,
                    n == tokens@.len(),
                    tv == tokens_view(tokens@),
                    spec_skip_ws(tv, p + 1) == spec_skip_ws(tv, q as int),
                decreases n - q,
            {
                q = q + 1;
            }
            if q < n {
                proof {
                    assert(!spec_ws_text(tv[q as int]));
                    assert(spec_skip_ws(tv, p + 1) == q);
                }
                Err(XmlError::Malformed)
            } else {
                proof {
                    assert(spec_skip_ws(tv, p + 1) == tv.len());
                }
                let mut m: Vec<(String, GenericValue)> = Vec::new();
                m.push((chars_to_string(root), GenericValue::Null));
                let out = GenericValue::Mapping(m);
                proof {
                    lemma_fields_view_index(m@);
                    assert(fields_view(m@) =~= seq![(root@, ValueModel::Null)]);
                }
                Ok(out)
            }
        },
        _ => Err(XmlError::Malformed),
    }
}

/// Whether the token at `i` is whitespace-only text.
fn is_ws_token(tokens: &Vec<XmlToken>, i: usize) -> (r: bool)
    requires
        i < tokens@.len(),
    ensures
        r == spec_ws_text(tokens_view(tokens@)[i as int]),
{
    proof {
        assert(tokens_view(tokens@)[i as int] == token_view(tokens@[i as int]));
    }
    match &tokens[i] {
        XmlToken::Text(t) => {
            let trimmed = trim_chars(t);
            trimmed.len() == 0
        },
        _ => false,
    }
}


/// The value under a key of a mapping, if any.
pub open spec fn spec_mapping_get(v: ValueModel, key: Seq<char>) -> Option<ValueModel> {
    match v {
        ValueModel::Mapping(fields) => {
            let i = spec_find_field(fields, key);
            if 0 <= i < fields.len() {
                Some(fields[i].1)
            } else {
                None
            }
        },
        _ => None,
    }
}

impl GenericValue {
    /// The value under `key` when this is a mapping holding it.
    pub fn get<'a>(&'a self, key: &str) -> (r: Option<&'a GenericValue>)
        ensures
            match r {
                Some(v) => spec_mapping_get(gv_view(*self), key@) == Some(gv_view(*v)),
                None => spec_mapping_get(gv_view(*self), key@) is None,
            },
    {
        let key_chars = str_to_chars(key);
        match self {
            GenericValue::Mapping(fields) => {
                let ghost fv = fields_view(fields@);
                proof {
                    lemma_fields_view_index(fields@);
                    lemma_find_field_props(fv, key@);
                }
                let n = fields.len();
                let mut i: usize = 0;
                while i < n
                    invariant
                        i <= n,
                        n == fields@.len(),
                        key_chars@ == key@,
                        fv == fields_view(fields@),
                        gv_view(*self) == ValueModel::Mapping(fv),
                        fv.len() == n,
                        forall|j: int|
                            0 <= j < n ==> fv[j] == (
                                #[trigger] fields@[j].0@,
                                gv_view(fields@[j].1),
                            ),
                        forall|j: int| 0 <= j < i ==> fv[j].0 != key@,
                    decreases n - i,
                {
                    let fchars = str_to_chars(fields[i].0.as_str());
                    proof {
                        assert(fchars@ == fields@[i as int].0@);
                        assert(fv[i as int] == (fields@[i as int].0@, gv_view(
                            fields@[i as int].1,
                        )));
                    }
                    if crate::ini::chars_eq(&fchars, &key_chars) {
                        proof {
                            lemma_find_field_props(fv, key@);
                            assert(fv[i as int].0 == key@);
                            let r = spec_find_field(fv, key@);
                            if r == -1 {
                                assert(fv[i as int].0 != key@);
                            } else if r < i {
                                assert(fv[r].0 != key@);
                            } else if r > i {
                                assert(fv[i as int].0 != key@);
                            }
                            assert(spec_find_field(fv, key@) == i);
                            assert(gv_view(*self) == ValueModel::Mapping(fv));
                            assert(spec_mapping_get(gv_view(*self), key@) == Some(
                                fv[i as int].1,
                            ));
                        }
                        return Some(&fields[i].1);
                    }
                    proof {
                        assert(fv[i as int].0 == fields@[i as int].0@);
                        assert(fv[i as int].0 != key@);
                    }
                    i = i + 1;
                }
                proof {
                    if spec_find_field(fv, key@) != -1 {
                        let r = spec_find_field(fv, key@);
                        assert(fv[r].0 != key@);
                    }
                }
                None
            },
            _ => None,
        }
    }

    /// The text this value holds, when it is text.
    pub fn as_text<'a>(&'a self) -> (r: Option<&'a String>)
        ensures
            match r {
                Some(s) => gv_view(*self) == ValueModel::Text(s@),
                None => !(gv_view(*self) is Text),
            },
    {
        match self {
            GenericValue::Text(s) => Some(s),
            _ => None,
        }
    }

    /// The items of a list-shaped field, tolerating the single-element
    /// quirk: a sequence yields its items, a single mapping (one occurrence
    /// of a repeating tag) yields itself as the only item, anything else
    /// yields no items.
    pub fn list_items(self) -> (r: Vec<GenericValue>)
        ensures
            match gv_view(self) {
                ValueModel::List(l) => list_view(r@) == l,
                ValueModel::Mapping(_) => list_view(r@) == seq![gv_view(self)],
                _ => r@.len() == 0,
            },
    {
        match self {
            GenericValue::List(items) => items,
            GenericValue::Mapping(fields) => {
                let mut out: Vec<GenericValue> = Vec::new();
                out.push(GenericValue::Mapping(fields));
                proof {
                    lemma_list_view_index(out@);
                    assert(list_view(out@) =~= seq![gv_view(out@[0])]);
                }
                out
            },
            _ => Vec::new(),
        }
    }
}

} // verus!
