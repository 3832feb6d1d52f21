//! Line-oriented INI parsing for the two profile configuration files.
//!
//! Blank lines and lines starting with `#` or `;` are skipped; a line of the
//! shape `[section]` opens a section, a leading `profile ` token in the name
//! being stripped; `key = value` lines (split at the first `=`, both sides
//! trimmed) assign into the current section; lines before any section are
//! discarded.

use vstd::prelude::*;

verus! {

/// An ASCII whitespace character as trimmed here: space, tab, newline, or
/// the carriage return left by a Windows line ending.
pub open spec fn is_space_char(c: char) -> bool {
    c == ' ' || c == '\t' || c == '\r' || c == '\n'
}

/// The character string without its leading whitespace.
pub open spec fn spec_trim_start_chars(s: Seq<char>) -> Seq<char>
    decreases s.len(),
{
    if s.len() > 0 && is_space_char(s.first()) {
        spec_trim_start_chars(s.drop_first())
    } else {
        s
    }
}

/// The character string without its trailing whitespace.
pub open spec fn spec_trim_end_chars(s: Seq<char>) -> Seq<char>
    decreases s.len(),
{
    if s.len() > 0 && is_space_char(s.last()) {
        spec_trim_end_chars(s.drop_last())
    } else {
        s
    }
}

/// The character string without leading or trailing whitespace.
pub open spec fn spec_trim_chars(s: Seq<char>) -> Seq<char> {
    spec_trim_end_chars(spec_trim_start_chars(s))
}

/// The index of the first occurrence of `c` in `s`, or -1 if absent.
pub open spec fn spec_find_char(s: Seq<char>, c: char) -> int
    decreases s.len(),
{
    if s.len() == 0 {
        -1
    } else if s.first() == c {
        0
    } else {
        let r = spec_find_char(s.drop_first(), c);
        if r == -1 {
            -1
        } else {
            r + 1
        }
    }
}

pub proof fn lemma_find_char_props(s: Seq<char>, c: char)
    ensures
        spec_find_char(s, c) == -1 ==> forall|i: int| 0 <= i < s.len() ==> s[i] != c,
        spec_find_char(s, c) != -1 ==> {
            let r = spec_find_char(s, c);
            &&& 0 <= r < s.len()
            &&& s[r] == c
            &&& forall|i: int| 0 <= i < r ==> s[i] != c
        },
    decreases s.len(),
{
    if s.len() > 0 && s.first() != c {
        lemma_find_char_props(s.drop_first(), c);
        let t = s.drop_first();
        if spec_find_char(s, c) == -1 {
            assert forall|i: int| 0 <= i < s.len() implies s[i] != c by {
                if i > 0 {
                    assert(t[i - 1] != c);
                }
            }
        } else {
            let r = spec_find_char(s, c);
            assert(t[r - 1] == c);
            assert forall|i: int| 0 <= i < r implies s[i] != c by {
                if i > 0 {
                    assert(t[i - 1] != c);
                }
            }
        }
    }
}

/// The file split at newlines. Splitting keeps a final empty piece when the
/// text ends in a newline; such a piece is blank and the parse skips it.
pub open spec fn spec_split_lines(s: Seq<char>) -> Seq<Seq<char>>
    decreases s.len(),
{
    let i = spec_find_char(s, '\n');
    if 0 <= i < s.len() {
        seq![s.take(i)] + spec_split_lines(s.skip(i + 1))
    } else {
        seq![s]
    }
}

/// The mathematical content of a parsed file: the section names in order of
/// first appearance, and every assignment in file order as a
/// (section, key, value) triple. A later assignment to the same section and
/// key overrides an earlier one, which lookup reflects by scanning from the
/// end.
pub struct IniModel {
    pub sections: Seq<Seq<char>>,
    pub entries: Seq<(Seq<char>, Seq<char>, Seq<char>)>,
}

/// The model of an empty file.
pub open spec fn ini_model_empty() -> IniModel {
    IniModel { sections: Seq::empty(), entries: Seq::empty() }
}

/// One parsed line folded into the model: the new model and the new current
/// section name.
pub open spec fn spec_ini_step(m: IniModel, cur: Seq<char>, line: Seq<char>) -> (IniModel, Seq<
    char,
>) {
    let t = spec_trim_chars(line);
    if t.len() == 0 || t.first() == '#' || t.first() == ';' {
        (m, cur)
    } else if t.first() == '[' && t.last() == ']' {
        let name0 = spec_trim_chars(t.subrange(1, t.len() - 1));
        let name = if name0.len() >= 8 && name0.take(8) == "profile "@ {
            name0.skip(8)
        } else {
            name0
        };
        let sections = if m.sections.contains(name) {
            m.sections
        } else {
            m.sections.push(name)
        };
        (IniModel { sections, entries: m.entries }, name)
    } else {
        let i = spec_find_char(t, '=');
        if i == -1 {
            (m, cur)
        } else {
            let key = spec_trim_chars(t.take(i));
            let value = spec_trim_chars(t.skip(i + 1));
            if cur.len() > 0 {
                (IniModel { sections: m.sections, entries: m.entries.push((cur, key, value)) }, cur)
            } else {
                (m, cur)
            }
        }
    }
}

/// The model after folding a list of lines.
pub open spec fn spec_ini_fold(m: IniModel, cur: Seq<char>, lines: Seq<Seq<char>>) -> IniModel
    decreases lines.len(),
{
    if lines.len() == 0 {
        m
    } else {
        let (m2, cur2) = spec_ini_step(m, cur, lines.first());
        spec_ini_fold(m2, cur2, lines.drop_first())
    }
}

/// The model of a whole file.
pub open spec fn spec_parse_ini(content: Seq<char>) -> IniModel {
    spec_ini_fold(ini_model_empty(), Seq::empty(), spec_split_lines(content))
}

/// One assignment: a key and value under a section.
pub struct IniEntry {
    pub section: Vec<char>,
    pub key: Vec<char>,
    pub value: Vec<char>,
}

/// A parsed configuration file.
pub struct IniDoc {
    pub sections: Vec<Vec<char>>,
    pub entries: Vec<IniEntry>,
}

impl IniDoc {
    /// The model this document holds.
    pub open spec fn view_model(&self) -> IniModel {
        IniModel {
            sections: self.sections@.map_values(|v: Vec<char>| v@),
            entries: self.entries@.map_values(
                |e: IniEntry| (e.section@, e.key@, e.value@),
            ),
        }
    }
}

/// Trims leading and trailing whitespace from a character vector.
pub fn trim_chars(data: &Vec<char>) -> (r: Vec<char>)
    ensures
        r@ == spec_trim_chars(data@),
{
    let n = data.len();
    let mut start: usize = 0;
    proof {
        assert(data@.skip(0) == data@);
    }
    while start < n && (data[start] == ' ' || data[start] == '\t' || data[start] == '\r'
        || data[start] == '\n')
        invariant
            start <= n,
            n == data@.len(),
            spec_trim_start_chars(data@) == spec_trim_start_chars(data@.skip(start as int)),
        decreases n - start,
    {
        proof {
            assert(data@.skip(start as int).drop_first() == data@.skip(start + 1));
        }
        start = start + 1;
    }
    let ghost t = data@.skip(start as int);
    proof {
        assert(spec_trim_start_chars(data@) == t);
    }
    let mut end: usize = n;
    proof {
        assert(t.take(n - start) =~= t);
    }
    while end > start && (data[end - 1] == ' ' || data[end - 1] == '\t' || data[end - 1] == '\r'
        || data[end - 1] == '\n')
        invariant
            start <= end <= n,
            n == data@.len(),
            t == data@.skip(start as int),
            spec_trim_end_chars(t) == spec_trim_end_chars(t.take(end - start)),
        decreases end,
    {
        proof {
            let u = t.take(end - start);
            assert(u.last() == data@[end - 1]);
            assert(u.drop_last() =~= t.take(end - 1 - start));
        }
        end = end - 1;
    }
    proof {
        let u = t.take(end - start);
        if end > start {
            assert(u.last() == data@[end - 1]);
        }
        assert(spec_trim_end_chars(u) == u);
    }
    let mut r: Vec<char> = Vec::new();
    let mut i: usize = start;
    while i < end
        invariant
            start <= i <= end <= n,
            n == data@.len(),
            r@ =~= data@.subrange(start as int, i as int),
        decreases end - i,
    {
        r.push(data[i]);
        i = i + 1;
    }
    proof {
        assert(r@ =~= t.take(end - start));
    }
    r
}

/// Copies `data[from..to]` into a new vector.
pub fn copy_range(data: &Vec<char>, from: usize, to: usize) -> (r: Vec<char>)
    requires
        from <= to <= data@.len(),
    ensures
        r@ == data@.subrange(from as int, to as int),
{
    let mut r: Vec<char> = Vec::new();
    let mut i: usize = from;
    while i < to
        invariant
            from <= i <= to <= data@.len(),
            r@ =~= data@.subrange(from as int, i as int),
        decreases to - i,
    {
        r.push(data[i]);
        i = i + 1;
    }
    r
}

/// Finds the first `c` at or after `from`.
pub fn find_char_from(data: &Vec<char>, from: usize, c: char) -> (r: Option<usize>)
    requires
        from <= data@.len(),
    ensures
        match r {
            Some(j) => from <= j < data@.len() && spec_find_char(data@.skip(from as int), c) == j - from,
            None => spec_find_char(data@.skip(from as int), c) == -1,
        },
{
    let n = data.len();
    let mut i: usize = from;
    while i < n
        invariant
            from <= i <= n,
            n == data@.len(),
            spec_find_char(data@.skip(from as int), c) == if spec_find_char(
                data@.skip(i as int),
                c,
            ) == -1 {
                -1int
            } else {
                spec_find_char(data@.skip(i as int), c) + i - from
            },
            forall|j: int| from <= j < i ==> data@[j] != c,
        decreases n - i,
    {
        if data[i] == c {
            proof {
                assert(data@.skip(i as int).first() == data@[i as int]);
            }
            return Some(i);
        }
        proof {
            let oi = i as int;
            lemma_find_char_props(data@.skip(oi + 1), c);
            assert(data@.skip(oi).first() == data@[oi]);
            assert(data@.skip(oi).drop_first() == data@.skip(oi + 1));
            assert(spec_find_char(data@.skip(oi), c) == {
                let r = spec_find_char(data@.skip(oi + 1), c);
                if r == -1 {
                    -1int
                } else {
                    r + 1
                }
            });
        }
        i = i + 1;
    }
    proof {
        assert(data@.skip(n as int) =~= Seq::<char>::empty());
    }
    None
}

/// Compares two character vectors.
pub fn chars_eq(a: &Vec<char>, b: &Vec<char>) -> (r: bool)
    ensures
        r == (a@ == b@),
{
    if a.len() != b.len() {
        assert(a@ != b@);
        return false;
    }
    let n = a.len();
    for i in 0..n
        invariant
            n == a@.len() == b@.len(),
            forall|j: int| 0 <= j < i ==> a@[j] == b@[j],
    {
        if a[i] != b[i] {
            return false;
        }
    }
    proof {
        assert(a@ =~= b@);
    }
    true
}

/// Folds one line into the document and current section.
fn ini_process_line(doc: &mut IniDoc, cur: &mut Vec<char>, line: Vec<char>)
    ensures
        (final(doc).view_model(), final(cur)@) == spec_ini_step(
            old(doc).view_model(),
            old(cur)@,
            line@,
        ),
{
    let ghost m0 = old(doc).view_model();
    let t = trim_chars(&line);
    if t.len() == 0 {
        return ;
    }
    let c0 = t[0];
    if c0 == '#' || c0 == ';' {
        return ;
    }
    if c0 == '[' && t[t.len() - 1] == ']' {
        let inner = copy_range(&t, 1, t.len() - 1);
        let name0 = trim_chars(&inner);
        let is_profile_prefixed = name0.len() >= 8 && {
            let c0 = name0[0];
            let c1 = name0[1];
            let c2 = name0[2];
            let c3 = name0[3];
            let c4 = name0[4];
            let c5 = name0[5];
            let c6 = name0[6];
            let c7 = name0[7];
            c0 == 'p' && c1 == 'r' && c2 == 'o' && c3 == 'f' && c4 == 'i' && c5 == 'l' && c6 == 'e'
                && c7 == ' '
        };
        proof {
            reveal_strlit("profile ");
            assert("profile "@ =~= seq!['p', 'r', 'o', 'f', 'i', 'l', 'e', ' ']);
            if name0@.len() >= 8 {
                if is_profile_prefixed {
                    assert(name0@.take(8) =~= "profile "@);
                } else {
                    if name0@.take(8) == "profile "@ {
                        assert(name0@[0] == 'p' && name0@[1] == 'r' && name0@[2] == 'o'
                            && name0@[3] == 'f' && name0@[4] == 'i' && name0@[5] == 'l'
                            && name0@[6] == 'e' && name0@[7] == ' ') by {
                            assert(forall|k: int| 0 <= k < 8 ==> name0@.take(8)[k] == name0@[k]);
                        }
                    }
                }
            }
        }
        let name = if is_profile_prefixed {
            copy_range(&name0, 8, name0.len())
        } else {
            name0
        };
        proof {
            if is_profile_prefixed {
                assert(name@ =~= spec_trim_chars(t@.subrange(1, t@.len() - 1)).skip(8));
            }
        }
        let mut present = false;
        let n = doc.sections.len();
        for i in 0..n
            invariant
                n == doc.sections@.len(),
                *doc == *old(doc),
                present == exists|j: int| 0 <= j < i && doc.sections@[j]@ == name@,
        {
            if chars_eq(&doc.sections[i], &name) {
                present = true;
                proof {
                    assert(doc.sections@[i as int]@ == name@);
                }
            }
            proof {
                if present && !(exists|j: int| 0 <= j < i && doc.sections@[j]@ == name@) {
                    assert(doc.sections@[i as int]@ == name@);
                }
            }
        }
        proof {
            assert(present == m0.sections.contains(name@)) by {
                if present {
                    let j = choose|j: int| 0 <= j < doc.sections@.len() && doc.sections@[j]@ == name@;
                    assert(m0.sections[j] == name@);
                }
                if m0.sections.contains(name@) {
                    let j = choose|j: int| 0 <= j < m0.sections.len() && m0.sections[j] == name@;
                    assert(doc.sections@[j]@ == name@);
                }
            }
        }
        if !present {
            let ghost old_sections = doc.sections@;
            doc.sections.push(name.clone());
            proof {
                assert(doc.view_model().sections =~= m0.sections.push(name@));
                assert(doc.view_model().entries =~= m0.entries);
            }
        }
        cur.clear();
        let mut i: usize = 0;
        let nn = name.len();
        while i < nn
            invariant
                i <= nn,
                nn == name@.len(),
                cur@ =~= name@.take(i as int),
            decreases nn - i,
        {
            cur.push(name[i]);
            i = i + 1;
        }
        proof {
            assert(cur@ =~= name@);
            assert((doc.view_model(), cur@) == spec_ini_step(m0, old(cur)@, line@));
        }
        return ;
    }
    let eq = find_char_from(&t, 0, '=');
    proof {
        assert(t@.skip(0) == t@);
    }
    match eq {
        None => {},
        Some(i) => {
            if cur.len() > 0 {
                let left = copy_range(&t, 0, i);
                let key = trim_chars(&left);
                let right = copy_range(&t, i + 1, t.len());
                let value = trim_chars(&right);
                proof {
                    assert(left@ =~= t@.take(i as int));
                    assert(right@ =~= t@.skip(i + 1));
                }
                let ghost old_entries = doc.entries@;
                doc.entries.push(IniEntry { section: cur.clone(), key, value });
                proof {
                    assert(doc.entries@[old_entries.len() as int].section@ == cur@);
                    assert(doc.view_model().entries =~= m0.entries.push(
                        (cur@, spec_trim_chars(t@.take(i as int)), spec_trim_chars(t@.skip(i + 1))),
                    ));
                    assert(doc.view_model().sections =~= m0.sections);
                }
            }
        },
    }
}

/// Parses an INI-style file into its sections and assignments.
pub fn parse_ini_file(content: &str) -> (doc: IniDoc)
    ensures
        doc.view_model() == spec_parse_ini(content@),
{
    let chars = crate::textutil::str_to_chars(content);
    let mut doc = IniDoc { sections: Vec::new(), entries: Vec::new() };
    let mut cur: Vec<char> = Vec::new();
    let mut pos: usize = 0;
    let n = chars.len();
    proof {
        assert(chars@.skip(0) == chars@);
        assert(doc.view_model().sections =~= Seq::<Seq<char>>::empty());
        assert(doc.view_model().entries =~= Seq::<(Seq<char>, Seq<char>, Seq<char>)>::empty());
        assert(doc.view_model() == ini_model_empty());
        assert(cur@ =~= Seq::<char>::empty());
    }
    loop
        invariant
            pos <= n,
            n == chars@.len(),
            spec_parse_ini(content@) == spec_ini_fold(
                doc.view_model(),
                cur@,
                spec_split_lines(chars@.skip(pos as int)),
            ),
        decreases n - pos + 1,
    {
        let ghost rest = chars@.skip(pos as int);
        let ghost m0 = doc.view_model();
        let ghost c0 = cur@;
        match find_char_from(&chars, pos, '\n') {
            Some(j) => {
                let line = copy_range(&chars, pos, j);
                proof {
                    assert(line@ =~= rest.take(j - pos));
                    assert(spec_split_lines(rest) == seq![rest.take(j - pos)] + spec_split_lines(
                        rest.skip(j - pos + 1),
                    ));
                    assert(rest.skip(j - pos + 1) =~= chars@.skip(j + 1));
                }
                ini_process_line(&mut doc, &mut cur, line);
                proof {
                    let lines_here = spec_split_lines(rest);
                    assert(lines_here.first() == line@);
                    assert(lines_here.drop_first() =~= spec_split_lines(chars@.skip(j + 1)));
                    assert((doc.view_model(), cur@) == spec_ini_step(m0, c0, line@));
                    assert(spec_ini_fold(m0, c0, lines_here) == spec_ini_fold(
                        doc.view_model(),
                        cur@,
                        spec_split_lines(chars@.skip(j + 1)),
                    ));
                }
                pos = j + 1;
            },
            None => {
                let line = copy_range(&chars, pos, n);
                proof {
                    assert(line@ =~= rest);
                    assert(spec_split_lines(rest) == seq![rest]);
                }
                ini_process_line(&mut doc, &mut cur, line);
                proof {
                    let lines_here = spec_split_lines(rest);
                    assert(lines_here.first() == line@);
                    assert(lines_here.drop_first() =~= Seq::<Seq<char>>::empty());
                    assert((doc.view_model(), cur@) == spec_ini_step(m0, c0, line@));
                    assert(spec_ini_fold(m0, c0, lines_here) == spec_ini_fold(
                        doc.view_model(),
                        cur@,
                        Seq::empty(),
                    ));
                    assert(spec_ini_fold(doc.view_model(), cur@, Seq::empty()) == doc.view_model());
                }
                return doc;
            },
        }
    }
}

/// The value of the last assignment to `key` under `section`, if any.
pub open spec fn spec_ini_lookup(
    entries: Seq<(Seq<char>, Seq<char>, Seq<char>)>,
    section: Seq<char>,
    key: Seq<char>,
) -> Option<Seq<char>>
    decreases entries.len(),
{
    if entries.len() == 0 {
        None
    } else if entries.last().0 == section && entries.last().1 == key {
        Some(entries.last().2)
    } else {
        spec_ini_lookup(entries.drop_last(), section, key)
    }
}

/// Looks up the value assigned to `key` under `section`; a later assignment
/// overrides an earlier one.
pub fn ini_lookup(doc: &IniDoc, section: &Vec<char>, key: &Vec<char>) -> (r: Option<Vec<char>>)
    ensures
        match r {
            Some(v) => spec_ini_lookup(doc.view_model().entries, section@, key@) == Some(v@),
            None => spec_ini_lookup(doc.view_model().entries, section@, key@) is None,
        },
{
    let mut i = doc.entries.len();
    proof {
        assert(doc.view_model().entries.take(i as int) =~= doc.view_model().entries);
    }
    while i > 0
        invariant
            i <= doc.entries@.len(),
            spec_ini_lookup(doc.view_model().entries, section@, key@) == spec_ini_lookup(
                doc.view_model().entries.take(i as int),
                section@,
                key@,
            ),
        decreases i,
    {
        let e = &doc.entries[i - 1];
        let ghost prefix = doc.view_model().entries.take(i as int);
        proof {
            assert(prefix.last() == (e.section@, e.key@, e.value@));
            assert(prefix.drop_last() =~= doc.view_model().entries.take(i - 1));
        }
        if chars_eq(&e.section, section) && chars_eq(&e.key, key) {
            let mut v: Vec<char> = Vec::new();
            let nn = e.value.len();
            let mut k: usize = 0;
            while k < nn
                invariant
                    k <= nn,
                    nn == e.value@.len(),
                    v@ =~= e.value@.take(k as int),
                decreases nn - k,
            {
                v.push(e.value[k]);
                k = k + 1;
            }
            proof {
                assert(v@ =~= e.value@);
            }
            return Some(v);
        }
        i = i - 1;
    }
    proof {
        assert(doc.view_model().entries.take(0) =~= Seq::empty());
    }
    None
}

/// Whether the file declared a section of this name.
pub fn ini_has_section(doc: &IniDoc, name: &Vec<char>) -> (r: bool)
    ensures
        r == doc.view_model().sections.contains(name@),
{
    let n = doc.sections.len();
    for i in 0..n
        invariant
            n == doc.sections@.len(),
            forall|j: int| 0 <= j < i ==> doc.sections@[j]@ != name@,
    {
        if chars_eq(&doc.sections[i], name) {
            proof {
                assert(doc.view_model().sections[i as int] == name@);
            }
            return true;
        }
    }
    proof {
        if doc.view_model().sections.contains(name@) {
            let j = choose|j: int|
                0 <= j < doc.view_model().sections.len() && doc.view_model().sections[j] == name@;
            assert(doc.sections@[j]@ == name@);
        }
    }
    false
}

} // verus!
