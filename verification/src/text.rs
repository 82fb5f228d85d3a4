//! Character-level helpers shared by the screens: whitespace trimming,
//! ASCII case folding, and conversions between strings and character vectors.
use vstd::prelude::*;

verus! {

/// The characters that carry the Unicode `White_Space` property.
pub open spec fn is_white_space(c: char) -> bool {
    ||| ('\u{9}' <= c && c <= '\u{d}')
    ||| c == ' '
    ||| c == '\u{85}'
    ||| c == '\u{a0}'
    ||| c == '\u{1680}'
    ||| ('\u{2000}' <= c && c <= '\u{200a}')
    ||| c == '\u{2028}'
    ||| c == '\u{2029}'
    ||| c == '\u{202f}'
    ||| c == '\u{205f}'
    ||| c == '\u{3000}'
}

/// `s` without its leading whitespace.
pub open spec fn trim_start_ws(s: Seq<char>) -> Seq<char>
    decreases s.len(),
{
    if s.len() > 0 && is_white_space(s[0]) {
        trim_start_ws(s.drop_first())
    } else {
        s
    }
}

/// `s` without its trailing whitespace.
pub open spec fn trim_end_ws(s: Seq<char>) -> Seq<char>
    decreases s.len(),
{
    if s.len() > 0 && is_white_space(s.last()) {
        trim_end_ws(s.drop_last())
    } else {
        s
    }
}

/// `s` without leading and trailing whitespace, as `str::trim` gives it.
pub open spec fn trim_ws(s: Seq<char>) -> Seq<char> {
    trim_end_ws(trim_start_ws(s))
}

/// The ASCII lower-case form of a character; other characters are kept.
pub open spec fn ascii_lower(c: char) -> char {
    if 'A' <= c && c <= 'Z' {
        ((c as u32) + 32) as char
    } else {
        c
    }
}

/// Every character of `s` in its ASCII lower-case form.
pub open spec fn ascii_lower_seq(s: Seq<char>) -> Seq<char> {
    s.map_values(|c: char| ascii_lower(c))
}

/// `char::is_whitespace`, which the standard library documents as true
/// exactly for the characters that have the Unicode `White_Space` property.
#[verifier::external_body]
pub(crate) fn char_is_whitespace(c: char) -> (r: bool)
    ensures
        r == is_white_space(c),
{
    c.is_whitespace()
}

/// `String::push`, which appends one character.
#[verifier::external_body]
pub(crate) fn string_push(s: &mut String, c: char)
    ensures
        final(s)@ == old(s)@.push(c),
{
    s.push(c)
}

/// The characters of a string slice.
pub fn chars_of(s: &str) -> (v: Vec<char>)
    ensures
        v@ == s@,
{
    let mut v: Vec<char> = Vec::new();
    for c in it: s.chars()
        invariant
            v@ == it.seq().take(it.index() as int),
    {
        v.push(c);
    }
    v
}

/// A string made of the given characters.
pub fn string_from_chars(v: &Vec<char>) -> (s: String)
    ensures
        s@ == v@,
{
    let mut s = String::new();
    let mut i: usize = 0;
    while i < v.len()
        invariant
            i <= v.len(),
            s@ == v@.take(i as int),
        decreases v.len() - i,
    {
        string_push(&mut s, v[i]);
        assert(v@.take(i + 1) =~= v@.take(i as int).push(v@[i as int]));
        i = i + 1;
    }
    assert(v@.take(v.len() as int) =~= v@);
    s
}

/// Whether the characters in `v` spell out `s`.
pub fn chars_eq_str(v: &Vec<char>, s: &str) -> (r: bool)
    ensures
        r == (v@ == s@),
{
    let w = chars_of(s);
    if v.len() != w.len() {
        return false;
    }
    let mut i: usize = 0;
    while i < v.len()
        invariant
            i <= v.len(),
            v.len() == w.len(),
            w@ == s@,
            forall|k: int| 0 <= k < i ==> v@[k] == w@[k],
        decreases v.len() - i,
    {
        if v[i] != w[i] {
            return false;
        }
        i = i + 1;
    }
    assert(v@ =~= w@);
    true
}

/// The ASCII lower-case form of one character.
pub fn char_to_ascii_lowercase(c: char) -> (r: char)
    ensures
        r == ascii_lower(c),
{
    if 'A' <= c && c <= 'Z' {
        ((c as u8) + 32) as char
    } else {
        c
    }
}

/// The ASCII lower-case form of every character.
pub fn to_ascii_lowercase(v: &Vec<char>) -> (r: Vec<char>)
    ensures
        r@ == ascii_lower_seq(v@),
{
    let mut r: Vec<char> = Vec::new();
    let mut i: usize = 0;
    while i < v.len()
        invariant
            i <= v.len(),
            r@ =~= ascii_lower_seq(v@.take(i as int)),
        decreases v.len() - i,
    {
        let c = char_to_ascii_lowercase(v[i]);
        r.push(c);
        assert(v@.take(i + 1) =~= v@.take(i as int).push(v@[i as int]));
        i = i + 1;
    }
    assert(v@.take(v.len() as int) =~= v@);
    r
}

proof fn lemma_trim_start_stops(s: Seq<char>)
    requires
        s.len() > 0,
        !is_white_space(s[0]),
    ensures
        trim_start_ws(s) == s,
{
}

proof fn lemma_trim_end_stops(s: Seq<char>)
    requires
        s.len() > 0,
        !is_white_space(s.last()),
    ensures
        trim_end_ws(s) == s,
{
}

/// The characters of `v` without leading and trailing whitespace.
pub fn trim_chars(v: &Vec<char>) -> (r: Vec<char>)
    ensures
        r@ == trim_ws(v@),
{
    let mut start: usize = 0;
    assert(v@.skip(0) =~= v@);
    while start < v.len()
        invariant
            start <= v.len(),
            trim_start_ws(v@) == trim_start_ws(v@.skip(start as int)),
        ensures
            start <= v.len(),
            trim_start_ws(v@) == trim_start_ws(v@.skip(start as int)),
            start < v.len() ==> !is_white_space(v@[start as int]),
        decreases v.len() - start,
    {
        if !char_is_whitespace(v[start]) {
            break;
        }
        assert(v@.skip(start as int).drop_first() =~= v@.skip(start + 1));
        start = start + 1;
    }
    let ghost t = v@.skip(start as int);
    proof {
        if start < v.len() {
            lemma_trim_start_stops(t);
        } else {
            assert(t.len() == 0);
        }
    }
    assert(trim_start_ws(v@) == t);
    let mut end: usize = v.len() - start;
    assert(t.take(end as int) =~= t);
    while end > 0
        invariant
            end <= t.len(),
            t.len() == v.len() - start,
            t == v@.skip(start as int),
            trim_end_ws(t) == trim_end_ws(t.take(end as int)),
        ensures
            end <= t.len(),
            trim_end_ws(t) == trim_end_ws(t.take(end as int)),
            end > 0 ==> !is_white_space(t[end - 1]),
        decreases end,
    {
        if !char_is_whitespace(v[start + end - 1]) {
            break;
        }
        assert(t.take(end as int).drop_last() =~= t.take(end - 1));
        end = end - 1;
    }
    proof {
        if end > 0 {
            lemma_trim_end_stops(t.take(end as int));
        }
    }
    assert(trim_ws(v@) == t.take(end as int));
    let mut r: Vec<char> = Vec::new();
    let mut i: usize = 0;
    while i < end
        invariant
            i <= end,
            end <= t.len(),
            t.len() == v.len() - start,
            t == v@.skip(start as int),
            r@ =~= t.take(i as int),
        decreases end - i,
    {
        r.push(v[start + i]);
        assert(t.take(i + 1) =~= t.take(i as int).push(t[i as int]));
        i = i + 1;
    }
    r
}

/// The plain contents of a text input: its text, the byte offset of its
/// cursor, and the selected byte range, if any.
pub struct TextField {
    pub text: String,
    pub cursor: usize,
    pub selection: Option<(usize, usize)>,
}

impl TextField {
    /// An empty field with the cursor at the start.
    pub fn empty() -> (r: Self)
        ensures
            r.text@ == Seq::<char>::empty(),
            r.cursor == 0,
            r.selection is None,
    {
        TextField { text: String::new(), cursor: 0, selection: None }
    }
}

} // verus!
