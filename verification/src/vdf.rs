//! Reading values out of Steam's text files: the KeyValues (`.vdf`, `.acf`)
//! format and the output of a registry query.
use vstd::prelude::*;
use crate::text::{
    chars_eq_ignore_ascii_case, chars_of, eq_ignore_ascii_case, find, find_chars, opt_view,
    slice_chars, string_of, trim, trimmed, views,
};

verus! {

// ---------------------------------------------------------------------------
// Splitting text
// ---------------------------------------------------------------------------

/// The pieces of `s` between the occurrences of `sep` (there is always at
/// least one piece; `n` separators give `n + 1` pieces).
pub open spec fn split_on(s: Seq<char>, sep: char) -> Seq<Seq<char>>
    decreases s.len(),
{
    if s.len() == 0 {
        seq![Seq::<char>::empty()]
    } else {
        let r = split_on(s.drop_last(), sep);
        if s.last() == sep {
            r.push(Seq::<char>::empty())
        } else {
            r.update(r.len() - 1, r.last().push(s.last()))
        }
    }
}

pub proof fn lemma_split_on_nonempty(s: Seq<char>, sep: char)
    ensures
        split_on(s, sep).len() >= 1,
    decreases s.len(),
{
    if s.len() > 0 {
        lemma_split_on_nonempty(s.drop_last(), sep);
    }
}

/// A line without the carriage return that ends it, if any.
pub open spec fn strip_cr(l: Seq<char>) -> Seq<char> {
    if l.len() > 0 && l.last() == '\r' {
        l.drop_last()
    } else {
        l
    }
}

/// The lines of a text: the pieces between line feeds, each without a
/// carriage return before its line feed; a text that ends with a line feed
/// has no empty last line.
pub open spec fn text_lines(s: Seq<char>) -> Seq<Seq<char>> {
    let p = split_on(s, '\n');
    let body = p.drop_last().map_values(|l: Seq<char>| strip_cr(l));
    if p.last().len() == 0 {
        body
    } else {
        body.push(p.last())
    }
}

/// Splits `v` at every occurrence of `sep`.
pub fn split_chars(v: &Vec<char>, sep: char) -> (r: Vec<Vec<char>>)
    ensures
        views(r@) == split_on(v@, sep),
{
    let mut pieces: Vec<Vec<char>> = Vec::new();
    let mut cur: Vec<char> = Vec::new();
    let mut i: usize = 0;
    while i < v.len()
        invariant
            i <= v.len(),
            views(pieces@).push(cur@) == split_on(v@.take(i as int), sep),
        decreases v.len() - i,
    {
        let ghost before = views(pieces@).push(cur@);
        let c = v[i];
        assert(v@.take(i + 1).drop_last() == v@.take(i as int));
        if c == sep {
            pieces.push(cur);
            cur = Vec::new();
            assert(views(pieces@).push(cur@) == before.push(Seq::<char>::empty()));
        } else {
            cur.push(c);
            assert(views(pieces@).push(cur@) == before.update(
                before.len() - 1,
                before.last().push(c),
            ));
        }
        i = i + 1;
    }
    assert(v@.take(v.len() as int) == v@);
    pieces.push(cur);
    pieces
}

fn strip_cr_chars(l: Vec<char>) -> (r: Vec<char>)
    ensures
        r@ == strip_cr(l@),
{
    let mut l = l;
    if l.len() > 0 && l[l.len() - 1] == '\r' {
        l.pop();
    }
    l
}

/// The lines of a text.
pub fn lines_of(v: &Vec<char>) -> (r: Vec<Vec<char>>)
    ensures
        views(r@) == text_lines(v@),
{
    let pieces = split_chars(v, '\n');
    proof {
        lemma_split_on_nonempty(v@, '\n');
    }
    let ghost p = split_on(v@, '\n');
    let n = pieces.len();
    let mut lines: Vec<Vec<char>> = Vec::new();
    let mut k: usize = 0;
    while k + 1 < n
        invariant
            n == pieces.len(),
            n >= 1,
            views(pieces@) == p,
            k < n,
            views(lines@) == p.take(k as int).map_values(|l: Seq<char>| strip_cr(l)),
        decreases n - k,
    {
        let piece = slice_chars(&pieces[k], 0, pieces[k].len());
        assert(pieces[k as int]@.subrange(0, pieces[k as int]@.len() as int) == pieces[k as int]@);
        lines.push(strip_cr_chars(piece));
        assert(p.take(k + 1).map_values(|l: Seq<char>| strip_cr(l)) == p.take(k as int).map_values(
            |l: Seq<char>| strip_cr(l),
        ).push(strip_cr(p[k as int])));
        k = k + 1;
    }
    assert(p.take(k as int) == p.drop_last());
    let last = slice_chars(&pieces[n - 1], 0, pieces[n - 1].len());
    assert(pieces[n - 1]@.subrange(0, pieces[n - 1]@.len() as int) == pieces[n - 1]@);
    if last.len() > 0 {
        lines.push(last);
    }
    lines
}

// ---------------------------------------------------------------------------
// KeyValues lines
// ---------------------------------------------------------------------------

/// A value with each escaped backslash pair `\\` read as one backslash,
/// taking pairs from left to right.
pub open spec fn unescape(s: Seq<char>) -> Seq<char>
    decreases s.len(),
{
    if s.len() >= 2 && s[0] == '\\' && s[1] == '\\' {
        seq!['\\'] + unescape(s.skip(2))
    } else if s.len() == 0 {
        Seq::<char>::empty()
    } else {
        seq![s[0]] + unescape(s.drop_first())
    }
}

/// The value that a line gives for `key`: the line's first quoted token
/// must equal `key` up to ASCII case, and its second quoted token, unescaped,
/// is the value.
pub open spec fn line_value(line: Seq<char>, key: Seq<char>) -> Option<Seq<char>> {
    let q = split_on(line, '"');
    if q.len() >= 4 && eq_ignore_ascii_case(q[1], key) {
        Some(unescape(q[3]))
    } else {
        None
    }
}

/// The value that the first line with a value for `key` gives.
pub open spec fn first_value(lines: Seq<Seq<char>>, key: Seq<char>) -> Option<Seq<char>>
    decreases lines.len(),
{
    if lines.len() == 0 {
        None
    } else {
        match line_value(lines[0], key) {
            Some(v) => Some(v),
            None => first_value(lines.drop_first(), key),
        }
    }
}

/// The value of `key` in a KeyValues text.
pub open spec fn spec_vdf_value(text: Seq<char>, key: Seq<char>) -> Option<Seq<char>> {
    first_value(text_lines(text), key)
}

/// Reads escaped backslash pairs as single backslashes.
pub fn unescape_chars(v: &Vec<char>) -> (r: Vec<char>)
    ensures
        r@ == unescape(v@),
{
    let mut out: Vec<char> = Vec::new();
    let mut i: usize = 0;
    assert(v@.skip(0) == v@);
    while i < v.len()
        invariant
            i <= v.len(),
            out@ + unescape(v@.skip(i as int)) == unescape(v@),
        decreases v.len() - i,
    {
        let ghost rest = v@.skip(i as int);
        if i + 1 < v.len() && v[i] == '\\' && v[i + 1] == '\\' {
            out.push('\\');
            assert(rest.skip(2) == v@.skip(i + 2));
            assert(out@ + unescape(v@.skip(i + 2)) == unescape(v@));
            i = i + 2;
        } else {
            out.push(v[i]);
            assert(rest.drop_first() == v@.skip(i + 1));
            assert(out@ + unescape(v@.skip(i + 1)) == unescape(v@));
            i = i + 1;
        }
    }
    assert(v@.skip(i as int) == Seq::<char>::empty());
    assert(out@ + Seq::<char>::empty() == out@);
    out
}

/// The value that one line gives for `key`.
pub fn line_value_chars(line: &Vec<char>, key: &Vec<char>) -> (r: Option<Vec<char>>)
    ensures
        match r {
            Some(v) => line_value(line@, key@) == Some(v@),
            None => line_value(line@, key@) is None,
        },
{
    let q = split_chars(line, '"');
    if q.len() >= 4 && chars_eq_ignore_ascii_case(&q[1], key) {
        Some(unescape_chars(&q[3]))
    } else {
        None
    }
}

/// Finds `key` in a KeyValues text such as a Steam app manifest: the value
/// of the first line whose first quoted token is `key` (ASCII letters
/// compared without case) and that has a second quoted token.
pub fn vdf_value(text: &str, key: &str) -> (r: Option<String>)
    ensures
        opt_view(r) == spec_vdf_value(text@, key@),
{
    let chars = chars_of(text);
    let key_chars = chars_of(key);
    let lines = lines_of(&chars);
    let ghost all = views(lines@);
    let mut k: usize = 0;
    assert(all.skip(0) == all);
    while k < lines.len()
        invariant
            k <= lines.len(),
            all == views(lines@),
            key_chars@ == key@,
            all == text_lines(text@),
            first_value(all, key@) == first_value(all.skip(k as int), key@),
        decreases lines.len() - k,
    {
        assert(all.skip(k as int)[0] == lines[k as int]@);
        assert(all.skip(k as int).drop_first() == all.skip(k + 1));
        match line_value_chars(&lines[k], &key_chars) {
            Some(v) => {
                return Some(string_of(&v));
            },
            None => {},
        }
        k = k + 1;
    }
    None
}



/// A value as a KeyValues text writes it: each backslash doubled.
pub open spec fn escape(v: Seq<char>) -> Seq<char>
    decreases v.len(),
{
    if v.len() == 0 {
        Seq::<char>::empty()
    } else {
        (if v[0] == '\\' {
            seq!['\\', '\\']
        } else {
            seq![v[0]]
        }) + escape(v.drop_first())
    }
}

/// The line `"key"<tab>"value"` with the value escaped.
pub open spec fn kv_line(key: Seq<char>, value: Seq<char>) -> Seq<char> {
    seq!['"'] + key + seq!['"', '\t', '"'] + escape(value) + seq!['"']
}

proof fn lemma_unescape_escape(v: Seq<char>)
    ensures
        unescape(escape(v)) == v,
    decreases v.len(),
{
    if v.len() > 0 {
        lemma_unescape_escape(v.drop_first());
        let e = escape(v);
        if v[0] == '\\' {
            assert(e.skip(2) == escape(v.drop_first()));
        } else {
            assert(e.drop_first() == escape(v.drop_first()));
        }
        assert(v == seq![v[0]] + v.drop_first());
    }
}

proof fn lemma_escape_keeps_out(v: Seq<char>, c: char)
    requires
        !v.contains(c),
        c != '\\',
    ensures
        !escape(v).contains(c),
    decreases v.len(),
{
    if v.len() > 0 {
        assert(!v.drop_first().contains(c)) by {
            if v.drop_first().contains(c) {
                let i = choose|i: int| 0 <= i < v.drop_first().len() && v.drop_first()[i] == c;
                assert(v[i + 1] == c);
            }
        }
        lemma_escape_keeps_out(v.drop_first(), c);
        let head = if v[0] == '\\' {
            seq!['\\', '\\']
        } else {
            seq![v[0]]
        };
        assert(v[0] != c);
        assert(!head.contains(c));
        assert(escape(v) == head + escape(v.drop_first()));
        if escape(v).contains(c) {
            let i = choose|i: int| 0 <= i < escape(v).len() && escape(v)[i] == c;
            if i < head.len() {
                assert(head[i] == c);
            } else {
                assert(escape(v.drop_first())[i - head.len()] == c);
            }
        }
    }
}

proof fn lemma_split_without_sep(b: Seq<char>, sep: char)
    requires
        !b.contains(sep),
    ensures
        split_on(b, sep) == seq![b],
    decreases b.len(),
{
    if b.len() > 0 {
        assert(!b.drop_last().contains(sep)) by {
            if b.drop_last().contains(sep) {
                let i = choose|i: int| 0 <= i < b.drop_last().len() && b.drop_last()[i] == sep;
                assert(b[i] == sep);
            }
        }
        lemma_split_without_sep(b.drop_last(), sep);
        assert(b.last() != sep) by {
            assert(b[b.len() - 1] == b.last());
        }
        let r = split_on(b.drop_last(), sep);
        assert(r == seq![b.drop_last()]);
        assert(split_on(b, sep) == r.update(r.len() - 1, r.last().push(b.last())));
        assert(b.drop_last().push(b.last()) == b);
        assert(r.update(r.len() - 1, r.last().push(b.last())) =~= seq![b]);
    } else {
        assert(b == Seq::<char>::empty());
    }
}

proof fn lemma_split_append(a: Seq<char>, b: Seq<char>, sep: char)
    requires
        !b.contains(sep),
    ensures
        split_on(a + seq![sep] + b, sep) == split_on(a, sep).push(b),
    decreases b.len(),
{
    let s = a + seq![sep] + b;
    lemma_split_on_nonempty(a, sep);
    if b.len() == 0 {
        assert(s.drop_last() == a);
        assert(s.last() == sep);
        assert(b == Seq::<char>::empty());
        assert(split_on(s, sep) == split_on(a, sep).push(Seq::<char>::empty()));
    } else {
        assert(!b.drop_last().contains(sep)) by {
            if b.drop_last().contains(sep) {
                let i = choose|i: int| 0 <= i < b.drop_last().len() && b.drop_last()[i] == sep;
                assert(b[i] == sep);
            }
        }
        lemma_split_append(a, b.drop_last(), sep);
        assert(s.drop_last() == a + seq![sep] + b.drop_last());
        assert(s.last() == b.last());
        assert(b.last() != sep) by {
            assert(b[b.len() - 1] == b.last());
        }
        assert(b.drop_last().push(b.last()) == b);
        let r = split_on(s.drop_last(), sep);
        assert(r == split_on(a, sep).push(b.drop_last()));
        assert(split_on(s, sep) == r.update(r.len() - 1, r.last().push(s.last())));
        assert(r.update(r.len() - 1, r.last().push(s.last())) =~= split_on(a, sep).push(b));
    }
}

/// A value written on a KeyValues line, `"key"<tab>"value"` with the
/// value's backslashes doubled, is read back exactly (the key and the value
/// hold no quote and no line feed).
pub proof fn lemma_vdf_reads_written_value(key: Seq<char>, value: Seq<char>)
    requires
        !key.contains('"'),
        !key.contains('\n'),
        !value.contains('"'),
        !value.contains('\n'),
    ensures
        spec_vdf_value(kv_line(key, value), key) == Some(value),
{
    let e = escape(value);
    lemma_escape_keeps_out(value, '"');
    lemma_escape_keeps_out(value, '\n');
    let empty = Seq::<char>::empty();
    let l1 = empty + seq!['"'] + key;
    let l2 = l1 + seq!['"'] + seq!['\t'];
    let l3 = l2 + seq!['"'] + e;
    let l4 = l3 + seq!['"'] + empty;
    assert(l4 == kv_line(key, value));
    assert(!seq!['\t'].contains('"'));
    assert(!empty.contains('"'));
    lemma_split_append(empty, key, '"');
    lemma_split_append(l1, seq!['\t'], '"');
    lemma_split_append(l2, e, '"');
    lemma_split_append(l3, empty, '"');
    let q = split_on(l4, '"');
    assert(q == seq![empty, key, seq!['\t'], e, empty]);
    lemma_unescape_escape(value);
    assert(eq_ignore_ascii_case(key, key));
    assert(line_value(l4, key) == Some(value));
    assert(!l4.contains('\n')) by {
        if l4.contains('\n') {
            let i = choose|i: int| 0 <= i < l4.len() && l4[i] == '\n';
            if 1 <= i < 1 + key.len() {
                assert(key[i - 1] == '\n');
            } else if 1 + key.len() + 3 <= i < 1 + key.len() + 3 + e.len() {
                assert(e[i - 1 - key.len() - 3] == '\n');
            }
        }
    }
    lemma_split_without_sep(l4, '\n');
    assert(text_lines(l4) == seq![l4]);
    assert(seq![l4].drop_first().len() == 0);
}

/// The key of a KeyValues text is matched without regard to the case of
/// ASCII letters: two keys that differ only so give the same value.
pub proof fn lemma_vdf_key_case_insensitive(text: Seq<char>, k1: Seq<char>, k2: Seq<char>)
    requires
        eq_ignore_ascii_case(k1, k2),
    ensures
        spec_vdf_value(text, k1) == spec_vdf_value(text, k2),
{
    lemma_first_value_key(text_lines(text), k1, k2);
}

proof fn lemma_first_value_key(lines: Seq<Seq<char>>, k1: Seq<char>, k2: Seq<char>)
    requires
        eq_ignore_ascii_case(k1, k2),
    ensures
        first_value(lines, k1) == first_value(lines, k2),
    decreases lines.len(),
{
    if lines.len() > 0 {
        let q = split_on(lines[0], '"');
        if q.len() >= 4 {
            assert(eq_ignore_ascii_case(q[1], k1) == eq_ignore_ascii_case(q[1], k2)) by {
                if eq_ignore_ascii_case(q[1], k1) {
                    assert forall|i: int| 0 <= i < q[1].len() implies crate::text::ascii_lower(
                        #[trigger] q[1][i],
                    ) == crate::text::ascii_lower(k2[i]) by {
                        assert(crate::text::ascii_lower(k1[i]) == crate::text::ascii_lower(k2[i]));
                    }
                }
                if eq_ignore_ascii_case(q[1], k2) {
                    assert forall|i: int| 0 <= i < q[1].len() implies crate::text::ascii_lower(
                        #[trigger] q[1][i],
                    ) == crate::text::ascii_lower(k1[i]) by {
                        assert(crate::text::ascii_lower(k1[i]) == crate::text::ascii_lower(k2[i]));
                    }
                }
            }
        }
        lemma_first_value_key(lines.drop_first(), k1, k2);
    }
}

// ---------------------------------------------------------------------------
// Registry query output
// ---------------------------------------------------------------------------

/// The marker of a string value in the output of `reg query`.
pub open spec fn reg_sz_marker() -> Seq<char> {
    seq!['R', 'E', 'G', '_', 'S', 'Z']
}

/// The value that one output line of `reg query` shows: the text after the
/// first `REG_SZ`, without surrounding white space.
pub open spec fn reg_line_value(line: Seq<char>) -> Option<Seq<char>> {
    match find(line, reg_sz_marker()) {
        Some(i) => Some(trim(line.skip(i + reg_sz_marker().len()))),
        None => None,
    }
}

/// The value that the first line holding `REG_SZ` shows.
pub open spec fn first_reg_value(lines: Seq<Seq<char>>) -> Option<Seq<char>>
    decreases lines.len(),
{
    if lines.len() == 0 {
        None
    } else {
        match reg_line_value(lines[0]) {
            Some(v) => Some(v),
            None => first_reg_value(lines.drop_first()),
        }
    }
}

/// The string value shown in the output of a `reg query` command.
pub open spec fn spec_registry_value(output: Seq<char>) -> Option<Seq<char>> {
    first_reg_value(text_lines(output))
}

/// Reads the string value out of the output of a `reg query` command: the
/// text after `REG_SZ` on the first line that holds it, trimmed.
pub fn registry_value(output: &str) -> (r: Option<String>)
    ensures
        opt_view(r) == spec_registry_value(output@),
{
    let chars = chars_of(output);
    let marker: Vec<char> = vec!['R', 'E', 'G', '_', 'S', 'Z'];
    assert(marker@ == reg_sz_marker());
    let lines = lines_of(&chars);
    let ghost all = views(lines@);
    let mut k: usize = 0;
    assert(all.skip(0) == all);
    while k < lines.len()
        invariant
            k <= lines.len(),
            all == views(lines@),
            marker@ == reg_sz_marker(),
            all == text_lines(output@),
            first_reg_value(all) == first_reg_value(all.skip(k as int)),
        decreases lines.len() - k,
    {
        assert(all.skip(k as int)[0] == lines[k as int]@);
        assert(all.skip(k as int).drop_first() == all.skip(k + 1));
        let line = &lines[k];
        match find_chars(line, &marker) {
            Some(i) => {
                assert(i + marker@.len() <= line@.len());
                let rest = slice_chars(line, i + marker.len(), line.len());
                assert(rest@ == line@.skip(i + reg_sz_marker().len()));
                let value = trimmed(&rest);
                return Some(string_of(&value));
            },
            None => {},
        }
        k = k + 1;
    }
    None
}

} // verus!
