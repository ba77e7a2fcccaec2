//! Small character-level helpers on strings.

use vstd::prelude::*;

verus! {

/// The views of a sequence of strings.
pub open spec fn strs(s: Seq<String>) -> Seq<Seq<char>> {
    s.map_values(|x: String| x@)
}

/// The ASCII lower-case form of a character; other characters are kept.
pub open spec fn lower_char(c: char) -> char {
    if 'A' <= c && c <= 'Z' {
        ((c as u8) + 32) as char
    } else {
        c
    }
}

/// The ASCII upper-case form of a character; other characters are kept.
pub open spec fn upper_char(c: char) -> char {
    if 'a' <= c && c <= 'z' {
        ((c as u8) - 32) as char
    } else {
        c
    }
}

pub open spec fn ascii_lower(s: Seq<char>) -> Seq<char> {
    s.map_values(|c: char| lower_char(c))
}

pub open spec fn ascii_upper(s: Seq<char>) -> Seq<char> {
    s.map_values(|c: char| upper_char(c))
}

/// Relies on `String::push`: appends one character.
#[verifier::external_body]
pub(crate) fn push_char(s: &mut String, c: char)
    ensures
        final(s)@ == old(s)@.push(c),
{
    s.push(c);
}

/// Maps every ASCII upper-case letter of `s` to lower case.
pub fn to_ascii_lower(s: &str) -> (r: String)
    ensures
        r@ == ascii_lower(s@),
{
    let n = s.unicode_len();
    let mut r = String::new();
    let mut i: usize = 0;
    while i < n
        invariant
            n == s@.len(),
            i <= n,
            r@ == ascii_lower(s@.subrange(0, i as int)),
        decreases n - i,
    {
        let c = s.get_char(i);
        let d = if 'A' <= c && c <= 'Z' {
            ((c as u8) + 32) as char
        } else {
            c
        };
        push_char(&mut r, d);
        assert(s@.subrange(0, i + 1) == s@.subrange(0, i as int).push(c));
        i = i + 1;
    }
    assert(s@.subrange(0, n as int) == s@);
    r
}

/// Maps every ASCII lower-case letter of `s` to upper case.
pub fn to_ascii_upper(s: &str) -> (r: String)
    ensures
        r@ == ascii_upper(s@),
{
    let n = s.unicode_len();
    let mut r = String::new();
    let mut i: usize = 0;
    while i < n
        invariant
            n == s@.len(),
            i <= n,
            r@ == ascii_upper(s@.subrange(0, i as int)),
        decreases n - i,
    {
        let c = s.get_char(i);
        let d = if 'a' <= c && c <= 'z' {
            ((c as u8) - 32) as char
        } else {
            c
        };
        push_char(&mut r, d);
        assert(s@.subrange(0, i + 1) == s@.subrange(0, i as int).push(c));
        i = i + 1;
    }
    assert(s@.subrange(0, n as int) == s@);
    r
}

/// Whether `p` is a prefix of `s`.
pub open spec fn is_prefix(p: Seq<char>, s: Seq<char>) -> bool {
    p.len() <= s.len() && s.subrange(0, p.len() as int) == p
}

/// Tells whether `s` begins with `p`.
pub fn starts_with(s: &str, p: &str) -> (r: bool)
    ensures
        r == is_prefix(p@, s@),
{
    let n = s.unicode_len();
    let m = p.unicode_len();
    if m > n {
        return false;
    }
    let mut i: usize = 0;
    while i < m
        invariant
            n == s@.len(),
            m == p@.len(),
            m <= n,
            i <= m,
            s@.subrange(0, i as int) == p@.subrange(0, i as int),
        decreases m - i,
    {
        if s.get_char(i) != p.get_char(i) {
            assert(s@.subrange(0, m as int)[i as int] != p@[i as int]);
            return false;
        }
        assert(s@.subrange(0, i + 1) =~= s@.subrange(0, i as int).push(s@[i as int]));
        assert(p@.subrange(0, i + 1) =~= p@.subrange(0, i as int).push(p@[i as int]));
        i = i + 1;
    }
    assert(p@.subrange(0, m as int) =~= p@);
    true
}

pub open spec fn is_space(c: char) -> bool {
    c == ' ' || c == '\t' || c == '\n' || c == '\r'
}

/// The text of a description as written in a string literal: `\"` stands for
/// `"`, and a backslash at the end of a line joins the next line to it,
/// dropping the spaces that begin that line. `skipping` tells that such
/// spaces are being dropped.
pub open spec fn unescape_from(s: Seq<char>, skipping: bool) -> Seq<char>
    decreases s.len(),
{
    if s.len() == 0 {
        s
    } else if skipping && is_space(s[0]) {
        unescape_from(s.drop_first(), true)
    } else if s[0] == '\\' && s.len() > 1 && s[1] == '"' {
        seq!['"'] + unescape_from(s.subrange(2, s.len() as int), false)
    } else if s[0] == '\\' && s.len() > 1 && s[1] == '\n' {
        unescape_from(s.subrange(2, s.len() as int), true)
    } else {
        seq![s[0]] + unescape_from(s.drop_first(), false)
    }
}

pub open spec fn unescape_desc(s: Seq<char>) -> Seq<char> {
    unescape_from(s, false)
}

/// Unescapes the quotes of a description and joins its continued lines.
pub fn clean_desc(s: &str) -> (r: String)
    ensures
        r@ == unescape_desc(s@),
{
    let n = s.unicode_len();
    let mut r = String::new();
    let mut skipping = false;
    let mut i: usize = 0;
    assert(s@.subrange(0, n as int) =~= s@);
    assert(r@ + unescape_desc(s@) =~= unescape_desc(s@));
    while i < n
        invariant
            n == s@.len(),
            i <= n,
            r@ + unescape_from(s@.subrange(i as int, n as int), skipping) == unescape_desc(s@),
        decreases n - i,
    {
        let ghost rest = s@.subrange(i as int, n as int);
        let c = s.get_char(i);
        let next = if i + 1 < n { s.get_char(i + 1) } else { ' ' };
        assert(rest[0] == c);
        assert(rest.len() > 1 ==> rest[1] == next);
        if skipping && (c == ' ' || c == '\t' || c == '\n' || c == '\r') {
            assert(rest.drop_first() =~= s@.subrange(i + 1, n as int));
            i = i + 1;
        } else if c == '\\' && i + 1 < n && next == '"' {
            assert(rest.subrange(2, rest.len() as int) =~= s@.subrange(i + 2, n as int));
            let ghost before = r@;
            push_char(&mut r, '"');
            assert(r@ == before + seq!['"']);
            assert(r@ + unescape_from(s@.subrange(i + 2, n as int), false) =~= before + (seq!['"'] + unescape_from(s@.subrange(i + 2, n as int), false)));
            skipping = false;
            i = i + 2;
        } else if c == '\\' && i + 1 < n && next == '\n' {
            assert(rest.subrange(2, rest.len() as int) =~= s@.subrange(i + 2, n as int));
            skipping = true;
            i = i + 2;
        } else {
            assert(rest.drop_first() =~= s@.subrange(i + 1, n as int));
            let ghost before = r@;
            push_char(&mut r, c);
            assert(r@ + unescape_from(s@.subrange(i + 1, n as int), false) =~= before + (seq![c] + unescape_from(s@.subrange(i + 1, n as int), false)));
            skipping = false;
            i = i + 1;
        }
    }
    assert(r@ + unescape_from(s@.subrange(n as int, n as int), skipping) =~= r@);
    r
}

} // verus!
