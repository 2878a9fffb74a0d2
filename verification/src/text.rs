//! Character classes used by the lexer, and the conversions between
//! `String` and `Vec<char>` that the rest of the crate builds on.

use vstd::prelude::*;
use unicode_xid::UnicodeXID;

verus! {

/// The characters of the Unicode `White_Space` property, as listed in the
/// documentation of `char::is_whitespace`.
pub open spec fn is_space(c: char) -> bool {
    ||| c == '\u{0009}'
    ||| c == '\u{000A}'
    ||| c == '\u{000B}'
    ||| c == '\u{000C}'
    ||| c == '\u{000D}'
    ||| c == ' '
    ||| c == '\u{0085}'
    ||| c == '\u{00A0}'
    ||| c == '\u{1680}'
    ||| c == '\u{2000}'
    ||| c == '\u{2001}'
    ||| c == '\u{2002}'
    ||| c == '\u{2003}'
    ||| c == '\u{2004}'
    ||| c == '\u{2005}'
    ||| c == '\u{2006}'
    ||| c == '\u{2007}'
    ||| c == '\u{2008}'
    ||| c == '\u{2009}'
    ||| c == '\u{200A}'
    ||| c == '\u{2028}'
    ||| c == '\u{2029}'
    ||| c == '\u{202F}'
    ||| c == '\u{205F}'
    ||| c == '\u{3000}'
}

/// Whether `c` is whitespace, decided by the same `White_Space` list that
/// `char::is_whitespace` documents.
pub fn is_space_ch(c: char) -> (r: bool)
    ensures
        r == is_space(c),
{
    c == '\u{0009}' || c == '\u{000A}' || c == '\u{000B}' || c == '\u{000C}' || c == '\u{000D}'
        || c == ' ' || c == '\u{0085}' || c == '\u{00A0}' || c == '\u{1680}' || c == '\u{2000}'
        || c == '\u{2001}' || c == '\u{2002}' || c == '\u{2003}' || c == '\u{2004}'
        || c == '\u{2005}' || c == '\u{2006}' || c == '\u{2007}' || c == '\u{2008}'
        || c == '\u{2009}' || c == '\u{200A}' || c == '\u{2028}' || c == '\u{2029}'
        || c == '\u{202F}' || c == '\u{205F}' || c == '\u{3000}'
}

/// Whether `c` may begin an identifier (the Unicode `XID_Start` property).
pub uninterp spec fn is_ident_start(c: char) -> bool;

/// Whether `c` may continue an identifier (the Unicode `XID_Continue` property).
pub uninterp spec fn is_ident_cont(c: char) -> bool;

/// Relies on unicode_xid's `UnicodeXID::is_xid_start`: a pure table lookup
/// of the `XID_Start` property; on ASCII its source tests the letter ranges
/// directly.
#[verifier::external_body]
pub fn is_ident_start_ch(c: char) -> (r: bool)
    ensures
        r == is_ident_start(c),
        (c as u32) < 128 ==> r == ('a' <= c && c <= 'z' || 'A' <= c && c <= 'Z'),
{
    UnicodeXID::is_xid_start(c)
}

/// Relies on unicode_xid's `UnicodeXID::is_xid_continue`: a pure table lookup
/// of the `XID_Continue` property; on ASCII its source tests letters, digits
/// and the underscore directly.
#[verifier::external_body]
pub fn is_ident_cont_ch(c: char) -> (r: bool)
    ensures
        r == is_ident_cont(c),
        (c as u32) < 128 ==> r == ('a' <= c && c <= 'z' || 'A' <= c && c <= 'Z' || '0' <= c
            && c <= '9' || c == '_'),
{
    UnicodeXID::is_xid_continue(c)
}

/// The operator characters: a multi-character operator is a maximal run of
/// these.
pub open spec fn is_op(c: char) -> bool {
    ||| c == '='
    ||| c == '+'
    ||| c == '-'
    ||| c == '/'
    ||| c == '%'
    ||| c == '&'
    ||| c == '|'
    ||| c == '^'
    ||| c == '*'
    ||| c == '~'
    ||| c == '@'
    ||| c == '!'
    ||| c == '?'
    ||| c == '<'
    ||| c == '>'
    ||| c == '#'
}

pub fn is_op_char(c: char) -> (r: bool)
    ensures
        r == is_op(c),
{
    c == '=' || c == '+' || c == '-' || c == '/' || c == '%' || c == '&' || c == '|' || c == '^'
        || c == '*' || c == '~' || c == '@' || c == '!' || c == '?' || c == '<' || c == '>'
        || c == '#'
}

/// The characters that form one-character words on their own.
pub open spec fn is_punct(c: char) -> bool {
    ||| c == '('
    ||| c == ')'
    ||| c == '{'
    ||| c == '}'
    ||| c == '['
    ||| c == ']'
    ||| c == ','
    ||| c == ';'
}

pub fn is_punct_char(c: char) -> (r: bool)
    ensures
        r == is_punct(c),
{
    c == '(' || c == ')' || c == '{' || c == '}' || c == '[' || c == ']' || c == ',' || c == ';'
}

/// Relies on `str::chars`: yields the characters of the string in order.
#[verifier::external_body]
pub fn str_chars(s: &str) -> (r: Vec<char>)
    ensures
        r@ == s@,
{
    s.chars().collect()
}

/// Relies on `String`'s `FromIterator`: collects the characters in order.
#[verifier::external_body]
pub fn chars_string(v: &Vec<char>) -> (r: String)
    ensures
        r@ == v@,
{
    v.iter().collect()
}

/// Character-by-character equality of two buffers.
pub fn chars_eq(a: &Vec<char>, b: &Vec<char>) -> (r: bool)
    ensures
        r == (a@ == b@),
{
    if a.len() != b.len() {
        assert(a@ != b@);
        return false;
    }
    let mut i: usize = 0;
    while i < a.len()
        invariant
            i <= a.len(),
            a@.len() == b@.len(),
            forall|k: int| 0 <= k < i ==> a@[k] == b@[k],
        decreases a@.len() - i,
    {
        if a[i] != b[i] {
            assert(a@ != b@);
            return false;
        }
        i += 1;
    }
    assert(a@ =~= b@);
    true
}

/// A fresh buffer with the same characters.
pub fn clone_chars(v: &Vec<char>) -> (r: Vec<char>)
    ensures
        r@ == v@,
{
    let mut r: Vec<char> = Vec::new();
    let mut i: usize = 0;
    while i < v.len()
        invariant
            i <= v@.len(),
            r@ == v@.subrange(0, i as int),
        decreases v@.len() - i,
    {
        r.push(v[i]);
        assert(r@ =~= v@.subrange(0, i + 1 as int));
        i += 1;
    }
    assert(r@ =~= v@);
    r
}

/// Appends the characters of `v` to `out`.
pub fn append_chars(out: &mut Vec<char>, v: &Vec<char>)
    ensures
        final(out)@ == old(out)@ + v@,
{
    let mut i: usize = 0;
    while i < v.len()
        invariant
            i <= v@.len(),
            out@ == old(out)@ + v@.subrange(0, i as int),
        decreases v@.len() - i,
    {
        out.push(v[i]);
        assert(out@ =~= old(out)@ + v@.subrange(0, i + 1 as int));
        i += 1;
    }
    assert(out@ =~= old(out)@ + v@);
}

/// Appends the characters of `s` to `out`.
pub fn append_str(out: &mut Vec<char>, s: &str)
    ensures
        final(out)@ == old(out)@ + s@,
{
    let v = str_chars(s);
    let mut i: usize = 0;
    while i < v.len()
        invariant
            i <= v@.len(),
            v@ == s@,
            out@ == old(out)@ + v@.subrange(0, i as int),
        decreases v@.len() - i,
    {
        out.push(v[i]);
        assert(out@ =~= old(out)@ + v@.subrange(0, i + 1 as int));
        i += 1;
    }
    assert(out@ =~= old(out)@ + s@);
}

} // verus!
