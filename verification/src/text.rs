//! Byte and character helpers shared by the parsers.

use vstd::prelude::*;
use vstd::string::StringExecFns;

verus! {

/// An ASCII decimal digit.
pub open spec fn is_digit(b: u8) -> bool {
    48 <= b <= 57
}

/// Every byte of `s` is an ASCII decimal digit.
pub open spec fn all_digits(s: Seq<u8>) -> bool {
    forall|i: int| 0 <= i < s.len() ==> is_digit(#[trigger] s[i])
}

/// The characters that ASCII bytes stand for.
pub open spec fn ascii_text(s: Seq<u8>) -> Seq<char> {
    s.map_values(|b: u8| b as char)
}

/// Appends one character to a string (`String::push`).
#[verifier::external_body]
pub(crate) fn push_char(s: &mut String, c: char)
    ensures
        final(s)@ == old(s)@.push(c),
{
    s.push(c);
}

/// Turns a sequence of ASCII bytes into the string they spell.
pub fn ascii_string(bytes: &Vec<u8>) -> (res: String)
    requires
        forall|i: int| 0 <= i < bytes@.len() ==> bytes@[i] < 128,
    ensures
        res@ == ascii_text(bytes@),
{
    let mut res = String::new();
    let mut i: usize = 0;
    while i < bytes.len()
        invariant
            i <= bytes@.len(),
            res@ == ascii_text(bytes@.take(i as int)),
            forall|k: int| 0 <= k < bytes@.len() ==> bytes@[k] < 128,
        decreases bytes@.len() - i,
    {
        let b = bytes[i];
        let c: char = b as char;
        push_char(&mut res, c);
        assert(bytes@.take(i + 1) =~= bytes@.take(i as int).push(b));
        i = i + 1;
    }
    assert(bytes@.take(bytes@.len() as int) =~= bytes@);
    res
}

/// The characters of `s`, in order.
pub fn chars_of(s: &str) -> (v: Vec<char>)
    ensures
        v@ == s@,
{
    broadcast use vstd::string::group_string_axioms;
    let mut v: Vec<char> = Vec::new();
    for c in it: s.chars()
        invariant
            v@ == it.seq().take(it.index()),
    {
        v.push(c);
    }
    v
}

/// Copies `b[start..end]` into a new vector.
pub fn copy_range(b: &[u8], start: usize, end: usize) -> (v: Vec<u8>)
    requires
        start <= end <= b@.len(),
    ensures
        v@ == b@.subrange(start as int, end as int),
{
    let mut v: Vec<u8> = Vec::new();
    let mut i = start;
    while i < end
        invariant
            start <= i <= end <= b@.len(),
            v@ == b@.subrange(start as int, i as int),
        decreases end - i,
    {
        v.push(b[i]);
        assert(b@.subrange(start as int, i + 1) =~= b@.subrange(start as int, i as int).push(
            b@[i as int],
        ));
        i = i + 1;
    }
    v
}

/// ASCII characters only.
pub open spec fn is_ascii_text(s: Seq<char>) -> bool {
    forall|i: int| 0 <= i < s.len() ==> (#[trigger] s[i] as u32) < 128
}

/// `c` with `A`..=`Z` mapped to `a`..=`z`.
pub open spec fn ascii_lower_char(c: char) -> char {
    if 'A' <= c <= 'Z' {
        ((c as u32) + 32) as char
    } else {
        c
    }
}

/// `s` with `A`..=`Z` mapped to `a`..=`z`.
pub open spec fn ascii_lower(s: Seq<char>) -> Seq<char> {
    s.map_values(|c: char| ascii_lower_char(c))
}

/// What `str::to_lowercase` makes of a text (the Unicode lowercase mapping).
pub uninterp spec fn unicode_lowercase(s: Seq<char>) -> Seq<char>;

/// Lowercase form of `s` (`str::to_lowercase`). The result is named by
/// [`unicode_lowercase`]; of it the contract also states the documented
/// ASCII case: an ASCII text has `A`..=`Z` turned into `a`..=`z` and is
/// otherwise unchanged. Nothing is stated of non-ASCII input beyond the name.
#[verifier::external_body]
pub(crate) fn to_lowercase(s: &str) -> (r: String)
    ensures
        r@ == unicode_lowercase(s@),
        is_ascii_text(s@) ==> r@ == ascii_lower(s@),
{
    s.to_lowercase()
}

/// Whether the characters of `v` are exactly `word`.
pub fn chars_equal(v: &Vec<char>, word: &[char]) -> (r: bool)
    ensures
        r == (v@ == word@),
{
    if v.len() != word.len() {
        return false;
    }
    let mut i: usize = 0;
    while i < v.len()
        invariant
            i <= v@.len() == word@.len(),
            forall|k: int| 0 <= k < i ==> v@[k] == word@[k],
        decreases v@.len() - i,
    {
        if v[i] != word[i] {
            return false;
        }
        i = i + 1;
    }
    assert(v@ =~= word@);
    true
}

/// The digit character for `d` in `0..=9`.
pub open spec fn digit_char(d: int) -> char {
    ((48 + d) as u8) as char
}

/// The decimal digits of `n`, most significant first, without leading zeros.
pub open spec fn decimal_text(n: nat) -> Seq<char>
    decreases n,
{
    if n < 10 {
        seq![digit_char(n as int)]
    } else {
        decimal_text(n / 10).push(digit_char((n % 10) as int))
    }
}

/// `n` written in decimal (as `format!("{n}")` does).
pub fn decimal(n: u128) -> (s: String)
    ensures
        s@ == decimal_text(n as nat),
    decreases n,
{
    let d = (n % 10) as u8;
    let c = (48u8 + d) as char;
    if n < 10 {
        let mut s = String::new();
        push_char(&mut s, c);
        assert(s@ =~= seq![digit_char(n as int)]);
        s
    } else {
        let mut s = decimal(n / 10);
        push_char(&mut s, c);
        s
    }
}

/// `s` followed by `t`.
pub fn concat(s: String, t: &str) -> (r: String)
    ensures
        r@ == s@ + t@,
{
    let mut r = s;
    r.append(t);
    r
}

} // verus!
