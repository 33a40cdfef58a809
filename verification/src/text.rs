//! Character-level operations on the text of LDraw lines.
use vstd::prelude::*;
use vstd::string::StringExecFns;

verus! {

broadcast use vstd::string::group_string_axioms;

// ---------------------------------------------------------------------------
// Conversions between strings and characters.
// ---------------------------------------------------------------------------

/// The characters of `s`, in order.
pub fn chars_of(s: &str) -> (v: Vec<char>)
    ensures
        v@ == s@,
{
    let mut v: Vec<char> = Vec::new();
    for c in it: s.chars()
        invariant
            v@ == it.seq().take(it.index() as int),
    {
        v.push(c);
    }
    v
}

/// Collects characters into a `String` (std's `FromIterator<char>`); the
/// contract claims that the string holds exactly these characters, in order.
#[verifier::external_body]
pub(crate) fn string_of(v: &Vec<char>) -> (s: String)
    ensures
        s@ == v@,
{
    v.iter().collect()
}

/// A copy of `s` as an owned string.
pub fn owned(s: &str) -> (res: String)
    ensures
        res@ == s@,
{
    s.to_owned()
}

/// Whether two strings hold the same characters.
pub fn same_text(a: &str, b: &str) -> (res: bool)
    ensures
        res == (a@ == b@),
{
    let va = chars_of(a);
    let vb = chars_of(b);
    if va.len() != vb.len() {
        return false;
    }
    let mut i: usize = 0;
    while i < va.len()
        invariant
            va@ == a@,
            vb@ == b@,
            va.len() == vb.len(),
            0 <= i <= va.len(),
            forall|j: int| 0 <= j < i ==> va@[j] == vb@[j],
        decreases va.len() - i,
    {
        if va[i] != vb[i] {
            return false;
        }
        i += 1;
    }
    assert(va@ =~= vb@);
    true
}

/// The texts of a sequence of string slices.
pub open spec fn texts(fields: Seq<&str>) -> Seq<Seq<char>> {
    fields.map_values(|f: &str| f@)
}

// ---------------------------------------------------------------------------
// Splitting a line into fields.
// ---------------------------------------------------------------------------

/// Characters that separate the fields of an LDraw line.
pub open spec fn is_separator(c: char) -> bool {
    c == ' ' || c == '\t'
}

/// The field being built, if it is not empty.
pub open spec fn flush(cur: Seq<char>) -> Seq<Seq<char>> {
    if cur.len() == 0 {
        seq![]
    } else {
        seq![cur]
    }
}

/// The fields of `s`, when `cur` holds the characters of a field that
/// started before `s`.
pub open spec fn fields_after(s: Seq<char>, cur: Seq<char>) -> Seq<Seq<char>>
    decreases s.len(),
{
    if s.len() == 0 {
        flush(cur)
    } else if is_separator(s[0]) {
        flush(cur) + fields_after(s.drop_first(), seq![])
    } else {
        fields_after(s.drop_first(), cur.push(s[0]))
    }
}

/// The fields of a line: its maximal runs of characters other than spaces
/// and tabs, in order.
pub open spec fn line_fields(line: Seq<char>) -> Seq<Seq<char>> {
    fields_after(line, seq![])
}

/// A field: a non-empty run of characters none of which separates fields.
pub open spec fn is_field(f: Seq<char>) -> bool {
    f.len() > 0 && forall|k: int| 0 <= k < f.len() ==> !is_separator(#[trigger] f[k])
}

/// The fields built from `s` after a partial field `cur` are fields.
proof fn lemma_fields_after_are_fields(s: Seq<char>, cur: Seq<char>)
    requires
        forall|k: int| 0 <= k < cur.len() ==> !is_separator(#[trigger] cur[k]),
    ensures
        forall|i: int| 0 <= i < fields_after(s, cur).len() ==> is_field(#[trigger] fields_after(s, cur)[i]),
    decreases s.len(),
{
    if s.len() == 0 {
        if cur.len() > 0 {
            assert(fields_after(s, cur) == seq![cur]);
            assert(is_field(cur));
        }
    } else if is_separator(s[0]) {
        lemma_fields_after_are_fields(s.drop_first(), seq![]);
        let rest = fields_after(s.drop_first(), seq![]);
        let all = flush(cur) + rest;
        assert(fields_after(s, cur) == all);
        assert forall|i: int| 0 <= i < all.len() implies is_field(#[trigger] all[i]) by {
            if i >= flush(cur).len() {
                assert(all[i] == rest[i - flush(cur).len()]);
            } else {
                assert(flush(cur) == seq![cur]);
                assert(all[i] == cur);
            }
        }
    } else {
        let next = cur.push(s[0]);
        assert forall|k: int| 0 <= k < next.len() implies !is_separator(#[trigger] next[k]) by {
            if k < cur.len() {
                assert(next[k] == cur[k]);
            }
        }
        lemma_fields_after_are_fields(s.drop_first(), next);
        assert(fields_after(s, cur) == fields_after(s.drop_first(), next));
    }
}

/// Each field of a line is non-empty and holds no space or tab.
pub proof fn law_line_fields_are_fields(line: Seq<char>)
    ensures
        forall|i: int| 0 <= i < line_fields(line).len() ==> is_field(#[trigger] line_fields(line)[i]),
{
    lemma_fields_after_are_fields(line, seq![]);
}

/// Splits a line into its fields (the non-empty pieces between spaces and
/// tabs).
pub fn split_fields(line: &str) -> (fields: Vec<String>)
    ensures
        fields.deep_view() == line_fields(line@),
{
    let chars = chars_of(line);
    let mut fields: Vec<String> = Vec::new();
    let mut cur: Vec<char> = Vec::new();
    let mut i: usize = 0;
    assert(chars@.skip(0) =~= chars@);
    assert(fields.deep_view() =~= Seq::<Seq<char>>::empty());
    while i < chars.len()
        invariant
            chars@ == line@,
            0 <= i <= chars.len(),
            fields.deep_view() + fields_after(chars@.skip(i as int), cur@) == line_fields(line@),
        decreases chars.len() - i,
    {
        let ghost rest = chars@.skip(i as int);
        assert(rest.drop_first() =~= chars@.skip(i + 1));
        assert(rest[0] == chars@[i as int]);
        let c = chars[i];
        let ghost before = fields.deep_view();
        if c == ' ' || c == '\t' {
            if cur.len() > 0 {
                let s = string_of(&cur);
                fields.push(s);
                assert(fields.deep_view() =~= before.push(cur@));
                assert(before + (flush(cur@) + fields_after(rest.drop_first(), seq![])) =~= fields.deep_view()
                    + fields_after(rest.drop_first(), seq![]));
            } else {
                assert(flush(cur@) =~= Seq::<Seq<char>>::empty());
                assert(before + (flush(cur@) + fields_after(rest.drop_first(), seq![])) =~= fields.deep_view()
                    + fields_after(rest.drop_first(), seq![]));
            }
            cur = Vec::new();
            assert(cur@ =~= Seq::<char>::empty());
        } else {
            cur.push(c);
        }
        i += 1;
    }
    assert(chars@.skip(i as int) =~= Seq::<char>::empty());
    let ghost before = fields.deep_view();
    if cur.len() > 0 {
        let s = string_of(&cur);
        fields.push(s);
        assert(fields.deep_view() =~= before.push(cur@));
        assert(before + flush(cur@) =~= fields.deep_view());
    } else {
        assert(before + flush(cur@) =~= fields.deep_view());
    }
    fields
}

/// Borrows each string of `v`.
pub fn borrow_all(v: &Vec<String>) -> (res: Vec<&str>)
    ensures
        texts(res@) == v.deep_view(),
{
    let mut res: Vec<&str> = Vec::new();
    let mut i: usize = 0;
    while i < v.len()
        invariant
            0 <= i <= v.len(),
            res.len() == i,
            texts(res@) =~= v.deep_view().take(i as int),
        decreases v.len() - i,
    {
        let f = v[i].as_str();
        assert(v.deep_view()[i as int] == v@[i as int]@);
        let ghost prev = res@;
        res.push(f);
        assert(res@ == prev.push(f));
        assert forall|j: int| 0 <= j < i implies texts(res@)[j] == texts(prev)[j] by {
            assert(res@[j] == prev[j]);
        }
        assert(texts(res@)[i as int] == f@);
        assert(texts(res@) =~= v.deep_view().take(i + 1));
        i += 1;
    }
    assert(v.deep_view().take(v.len() as int) =~= v.deep_view());
    res
}

// ---------------------------------------------------------------------------
// Joining fields.
// ---------------------------------------------------------------------------

/// The parts separated by single spaces.
pub open spec fn joined(parts: Seq<Seq<char>>) -> Seq<char>
    decreases parts.len(),
{
    if parts.len() == 0 {
        seq![]
    } else if parts.len() == 1 {
        parts[0]
    } else {
        joined(parts.drop_last()) + seq![' '] + parts.last()
    }
}

/// The fields from `start` on, separated by single spaces.
pub open spec fn joined_from(fields: Seq<Seq<char>>, start: int) -> Seq<char> {
    joined(fields.subrange(start, fields.len() as int))
}

/// Joins the fields from `start` on with single spaces.
pub fn join_from(fields: &Vec<&str>, start: usize) -> (res: String)
    requires
        start <= fields.len(),
    ensures
        res@ == joined_from(texts(fields@), start as int),
{
    let ghost all = texts(fields@);
    let mut res = String::new();
    let mut i: usize = start;
    proof {
        reveal_strlit(" ");
    }
    assert(all.subrange(start as int, start as int) =~= Seq::<Seq<char>>::empty());
    while i < fields.len()
        invariant
            all == texts(fields@),
            start <= i <= fields.len(),
            res@ == joined(all.subrange(start as int, i as int)),
        decreases fields.len() - i,
    {
        let ghost prev = all.subrange(start as int, i as int);
        let ghost next = all.subrange(start as int, i + 1);
        assert(next.drop_last() =~= prev);
        assert(next.last() == fields@[i as int]@);
        proof {
            reveal_strlit(" ");
        }
        if i > start {
            res.append(" ");
        }
        res.append(fields[i]);
        assert(i == start ==> next =~= seq![fields@[i as int]@]);
        i += 1;
    }
    res
}

// ---------------------------------------------------------------------------
// Case and white space.
// ---------------------------------------------------------------------------

/// The ASCII lower-case form of a character.
pub open spec fn lower_ascii_char(c: char) -> char {
    if 'A' <= c && c <= 'Z' {
        ((c as int) + 32) as char
    } else {
        c
    }
}

/// The ASCII lower-case form of a text.
pub open spec fn lower_ascii(s: Seq<char>) -> Seq<char> {
    s.map_values(|c: char| lower_ascii_char(c))
}

/// ASCII lower-case form of a character.
pub fn to_lower_ascii_char(c: char) -> (res: char)
    ensures
        res == lower_ascii_char(c),
{
    if 'A' <= c && c <= 'Z' {
        let code: u32 = c as u32;
        let lower: u8 = (code + 32) as u8;
        lower as char
    } else {
        c
    }
}

/// ASCII lower-case form of a text.
pub fn to_lower_ascii(s: &str) -> (res: String)
    ensures
        res@ == lower_ascii(s@),
{
    let chars = chars_of(s);
    let mut out: Vec<char> = Vec::new();
    let mut i: usize = 0;
    while i < chars.len()
        invariant
            chars@ == s@,
            0 <= i <= chars.len(),
            out@ =~= lower_ascii(s@).take(i as int),
        decreases chars.len() - i,
    {
        out.push(to_lower_ascii_char(chars[i]));
        i += 1;
    }
    string_of(&out)
}

/// White space in the sense of Unicode's `White_Space` property (the
/// characters that std's `char::is_whitespace` accepts).
pub open spec fn is_white_space(c: char) -> bool {
    ||| ('\u{9}' <= c && c <= '\u{d}')
    ||| c == ' '
    ||| c == '\u{85}'
    ||| c == '\u{a0}'
    ||| c == '\u{1680}'
    ||| ('\u{2000}' <= c && c <= '\u{200a}')
    ||| c == '\u{2028}'
    ||| c == '\u{2029}'
    ||| c == '\u{202f}'
    ||| c == '\u{205f}'
    ||| c == '\u{3000}'
}

/// Whether `c` is white space.
pub fn white_space(c: char) -> (res: bool)
    ensures
        res == is_white_space(c),
{
    ('\u{9}' <= c && c <= '\u{d}') || c == ' ' || c == '\u{85}' || c == '\u{a0}' || c
        == '\u{1680}' || ('\u{2000}' <= c && c <= '\u{200a}') || c == '\u{2028}' || c
        == '\u{2029}' || c == '\u{202f}' || c == '\u{205f}' || c == '\u{3000}'
}

/// `s` without its leading white space.
pub open spec fn trim_start(s: Seq<char>) -> Seq<char>
    decreases s.len(),
{
    if s.len() > 0 && is_white_space(s[0]) {
        trim_start(s.drop_first())
    } else {
        s
    }
}

/// `s` without its trailing white space.
pub open spec fn trim_end(s: Seq<char>) -> Seq<char>
    decreases s.len(),
{
    if s.len() > 0 && is_white_space(s.last()) {
        trim_end(s.drop_last())
    } else {
        s
    }
}

/// `s` without its leading and trailing white space.
pub open spec fn trimmed(s: Seq<char>) -> Seq<char> {
    trim_end(trim_start(s))
}

/// The characters of `s` without leading and trailing white space.
pub fn trim_chars(s: &Vec<char>) -> (res: Vec<char>)
    ensures
        res@ == trimmed(s@),
{
    let mut a: usize = 0;
    assert(s@.skip(0) =~= s@);
    while a < s.len() && white_space(s[a])
        invariant
            0 <= a <= s.len(),
            trim_start(s@) == trim_start(s@.skip(a as int)),
        decreases s.len() - a,
    {
        assert(s@.skip(a as int).drop_first() =~= s@.skip(a + 1));
        a += 1;
    }
    let ghost start = s@.skip(a as int);
    assert(trim_start(s@) == start);
    let mut b: usize = s.len();
    assert(start.take(start.len() as int) =~= start);
    while b > a && white_space(s[b - 1])
        invariant
            a <= b <= s.len(),
            start == s@.skip(a as int),
            trim_end(start) == trim_end(start.take(b - a)),
        decreases b,
    {
        assert(start.take(b - a).drop_last() =~= start.take(b - a - 1));
        b -= 1;
    }
    let mut out: Vec<char> = Vec::new();
    let mut k: usize = a;
    while k < b
        invariant
            a <= k <= b <= s.len(),
            out@ =~= s@.subrange(a as int, k as int),
        decreases b - k,
    {
        out.push(s[k]);
        k += 1;
    }
    assert(out@ =~= start.take(b - a));
    out
}

// ---------------------------------------------------------------------------
// Prefixes.
// ---------------------------------------------------------------------------

/// Whether `s` starts with `p`.
pub open spec fn has_prefix(s: Seq<char>, p: Seq<char>) -> bool {
    p.len() <= s.len() && s.take(p.len() as int) == p
}

/// `s` without all the leading repetitions of the non-empty `p`.
pub open spec fn strip_prefixes(s: Seq<char>, p: Seq<char>) -> Seq<char>
    decreases s.len(),
{
    if p.len() > 0 && has_prefix(s, p) {
        strip_prefixes(s.skip(p.len() as int), p)
    } else {
        s
    }
}

/// Whether `s` starts with `p`.
pub fn starts_with(s: &Vec<char>, p: &Vec<char>) -> (res: bool)
    ensures
        res == has_prefix(s@, p@),
{
    if p.len() > s.len() {
        return false;
    }
    let mut i: usize = 0;
    while i < p.len()
        invariant
            p.len() <= s.len(),
            0 <= i <= p.len(),
            forall|j: int| 0 <= j < i ==> s@[j] == p@[j],
        decreases p.len() - i,
    {
        if s[i] != p[i] {
            assert(s@.take(p.len() as int)[i as int] != p@[i as int]);
            return false;
        }
        i += 1;
    }
    assert(s@.take(p.len() as int) =~= p@);
    true
}

/// `s` without all the leading repetitions of `p` (std's
/// `trim_start_matches` with a string pattern).
pub fn strip_all_prefixes(s: &Vec<char>, p: &Vec<char>) -> (res: Vec<char>)
    ensures
        res@ == strip_prefixes(s@, p@),
{
    let mut rest: Vec<char> = s.clone();
    assert(rest@ =~= s@);
    if p.len() == 0 {
        return rest;
    }
    while starts_with(&rest, p)
        invariant
            p.len() > 0,
            strip_prefixes(s@, p@) == strip_prefixes(rest@, p@),
        decreases rest.len(),
    {
        let mut next: Vec<char> = Vec::new();
        let mut k: usize = p.len();
        while k < rest.len()
            invariant
                p.len() <= k <= rest.len(),
                next@ =~= rest@.subrange(p.len() as int, k as int),
            decreases rest.len() - k,
        {
            next.push(rest[k]);
            k += 1;
        }
        assert(next@ =~= rest@.skip(p.len() as int));
        rest = next;
    }
    rest
}

} // verus!
