//! Character and string helpers shared by the rest of the library: ASCII
//! case folding, conversions between `&str`/`String` and `Vec<char>`, and
//! decimal rendering of small integers.

use vstd::prelude::*;
use vstd::string::StrSliceExecFns;

verus! {

/// ASCII lower-casing of a single character: `'A'..='Z'` map to
/// `'a'..='z'`, every other character is unchanged.
pub open spec fn lower_char(c: char) -> char {
    if 65 <= c as u32 && c as u32 <= 90 {
        (((c as u8) + 32) as u8) as char
    } else {
        c
    }
}

/// ASCII lower-casing of a character sequence, pointwise.
pub open spec fn lower_seq(s: Seq<char>) -> Seq<char> {
    s.map_values(|c: char| lower_char(c))
}

/// Executable ASCII lower-casing of one character.
pub fn to_lower_char(c: char) -> (r: char)
    ensures
        r == lower_char(c),
{
    let u = c as u32;
    if 65 <= u && u <= 90 {
        ((c as u8) + 32) as char
    } else {
        c
    }
}

/// Collects the characters of a string slice into a vector.
pub fn str_to_chars(s: &str) -> (v: Vec<char>)
    ensures
        v@ == s@,
{
    let n = s.unicode_len();
    let mut v: Vec<char> = Vec::new();
    let mut i: usize = 0;
    while i < n
        invariant
            i <= n,
            n == s@.len(),
            v@ == s@.subrange(0, i as int),
        decreases n - i,
    {
        v.push(s.get_char(i));
        i += 1;
    }
    proof {
        assert(v@ =~= s@);
    }
    v
}

/// Relies on `String::push`: appends the given character at the end.
#[verifier::external_body]
fn push_char(s: &mut String, c: char)
    ensures
        final(s)@ == old(s)@.push(c),
{
    s.push(c);
}

/// Builds a `String` out of a vector of characters.
pub fn chars_to_string(v: &Vec<char>) -> (s: String)
    ensures
        s@ == v@,
{
    let mut s = String::new();
    let mut i: usize = 0;
    while i < v.len()
        invariant
            i <= v@.len(),
            s@ == v@.subrange(0, i as int),
        decreases v@.len() - i,
    {
        push_char(&mut s, v[i]);
        i += 1;
    }
    proof {
        assert(s@ =~= v@);
    }
    s
}

/// Relies on `char::from_u32`: returns the character with the given scalar
/// value exactly when the value is a Unicode scalar value, that is, below
/// the surrogate range or between the surrogate range and `0x10FFFF`.
#[verifier::external_body]
pub fn char_from_u32(u: u32) -> (r: Option<char>)
    ensures
        r is Some <==> (u < 0xD800 || (0xE000 <= u && u <= 0x10FFFF)),
        r matches Some(c) ==> c as u32 == u,
{
    char::from_u32(u)
}

/// The ASCII digit for a value below ten.
pub open spec fn digit_char(d: nat) -> char {
    ((48 + d) as u8) as char
}

/// Decimal rendering of a natural number, most significant digit first.
pub open spec fn dec_digits(n: nat) -> Seq<char>
    decreases n,
{
    if n < 10 {
        seq![digit_char(n)]
    } else {
        dec_digits(n / 10).push(digit_char(n % 10))
    }
}

/// Renders a `u16` in decimal.
pub fn u16_dec_chars(n: u16) -> (v: Vec<char>)
    ensures
        v@ == dec_digits(n as nat),
    decreases n,
{
    if n < 10 {
        let mut v: Vec<char> = Vec::new();
        v.push(((48 + n) as u8) as char);
        v
    } else {
        let mut v = u16_dec_chars(n / 10);
        v.push((48 + (n % 10) as u8) as char);
        v
    }
}

} // verus!
