//! A verified JSON parser.
//!
//! The grammar is stated by mutually recursive spec functions over a
//! character sequence and a start index; each returns the parsed value
//! together with the index just past it, or nothing when the input does
//! not match. The executable parser mirrors the spec functions one for
//! one and is proved to return exactly what they describe.

use vstd::prelude::*;
use crate::json::{Json, JsonV, view_json, view_list, view_pairs};
use crate::text::char_from_u32;

verus! {

broadcast use vstd::std_specs::vec::group_vec_axioms;

/// JSON whitespace.
pub open spec fn is_ws(c: char) -> bool {
    c == ' ' || c == '\t' || c == '\n' || c == '\r'
}

/// An ASCII decimal digit.
pub open spec fn is_digit(c: char) -> bool {
    48 <= c as u32 && c as u32 <= 57
}

/// The value of a hexadecimal digit, upper or lower case.
pub open spec fn hexv(c: char) -> Option<u32> {
    let u = c as u32;
    if 48 <= u && u <= 57 {
        Some((u - 48) as u32)
    } else if 97 <= u && u <= 102 {
        Some((u - 87) as u32)
    } else if 65 <= u && u <= 70 {
        Some((u - 55) as u32)
    } else {
        None
    }
}

/// The first index at or after `i` that does not hold whitespace.
pub open spec fn sp_ws(s: Seq<char>, i: int) -> int
    decreases s.len() - i,
{
    if 0 <= i && i < s.len() && is_ws(s[i]) {
        sp_ws(s, i + 1)
    } else {
        i
    }
}

pub proof fn lemma_sp_ws(s: Seq<char>, i: int)
    requires
        0 <= i <= s.len(),
    ensures
        i <= sp_ws(s, i) <= s.len(),
    decreases s.len() - i,
{
    if i < s.len() && is_ws(s[i]) {
        lemma_sp_ws(s, i + 1);
    }
}

/// The first index at or after `i` that does not hold a digit.
pub open spec fn sp_digits(s: Seq<char>, i: int) -> int
    decreases s.len() - i,
{
    if 0 <= i && i < s.len() && is_digit(s[i]) {
        sp_digits(s, i + 1)
    } else {
        i
    }
}

pub proof fn lemma_sp_digits(s: Seq<char>, i: int)
    requires
        0 <= i <= s.len(),
    ensures
        i <= sp_digits(s, i) <= s.len(),
    decreases s.len() - i,
{
    if i < s.len() && is_digit(s[i]) {
        lemma_sp_digits(s, i + 1);
    }
}

/// The end of an optional fraction part starting at `k`: a dot must be
/// followed by at least one digit.
pub open spec fn sp_frac_end(s: Seq<char>, k: int) -> Option<int> {
    if 0 <= k && k < s.len() && s[k] == '.' {
        if k + 1 < s.len() && is_digit(s[k + 1]) {
            Some(sp_digits(s, k + 1))
        } else {
            None
        }
    } else {
        Some(k)
    }
}

/// The end of an optional exponent part starting at `k`.
pub open spec fn sp_exp_end(s: Seq<char>, k: int) -> Option<int> {
    if 0 <= k && k < s.len() && (s[k] == 'e' || s[k] == 'E') {
        let m = if k + 1 < s.len() && (s[k + 1] == '+' || s[k + 1] == '-') {
            k + 2
        } else {
            k + 1
        };
        if m < s.len() && is_digit(s[m]) {
            Some(sp_digits(s, m))
        } else {
            None
        }
    } else {
        Some(k)
    }
}

/// The end of a JSON number token starting at `i`: an optional minus
/// sign, an integer part without superfluous leading zeroes, an optional
/// fraction and an optional exponent.
pub open spec fn sp_number_end(s: Seq<char>, i: int) -> Option<int> {
    let j = if 0 <= i && i < s.len() && s[i] == '-' {
        i + 1
    } else {
        i
    };
    if 0 <= j && j < s.len() && is_digit(s[j]) {
        let k = if s[j] == '0' {
            j + 1
        } else {
            sp_digits(s, j)
        };
        match sp_frac_end(s, k) {
            None => None,
            Some(m) => sp_exp_end(s, m),
        }
    } else {
        None
    }
}

pub proof fn lemma_sp_number_end(s: Seq<char>, i: int)
    requires
        0 <= i <= s.len(),
    ensures
        sp_number_end(s, i) matches Some(e) ==> i < e <= s.len(),
{
    let j = if i < s.len() && s[i] == '-' {
        i + 1
    } else {
        i
    };
    if j < s.len() && is_digit(s[j]) {
        if s[j] == '0' {
        } else {
            lemma_sp_digits(s, j + 1);
            assert(sp_digits(s, j) == sp_digits(s, j + 1));
        }
        let k = if s[j] == '0' {
            j + 1
        } else {
            sp_digits(s, j)
        };
        if k < s.len() && s[k] == '.' && k + 1 < s.len() && is_digit(s[k + 1]) {
            lemma_sp_digits(s, k + 1);
        }
        match sp_frac_end(s, k) {
            None => {},
            Some(m) => {
                if m < s.len() && (s[m] == 'e' || s[m] == 'E') {
                    let m2 = if m + 1 < s.len() && (s[m + 1] == '+' || s[m + 1] == '-') {
                        m + 2
                    } else {
                        m + 1
                    };
                    if m2 < s.len() && is_digit(s[m2]) {
                        lemma_sp_digits(s, m2);
                    }
                }
            },
        }
    }
}

/// Four hexadecimal digits starting at `i`, as a value.
pub open spec fn sp_hex4(s: Seq<char>, i: int) -> Option<u32> {
    if 0 <= i && i + 4 <= s.len() {
        match (hexv(s[i]), hexv(s[i + 1]), hexv(s[i + 2]), hexv(s[i + 3])) {
            (Some(a), Some(b), Some(c), Some(d)) => Some(
                (a * 4096 + b * 256 + c * 16 + d) as u32,
            ),
            _ => None,
        }
    } else {
        None
    }
}

/// One escape sequence, `i` pointing just past the backslash: the named
/// single-character escapes, or `u` followed by four hexadecimal digits,
/// where a high surrogate must be followed by a second escape holding a
/// low surrogate and a lone surrogate does not match.
pub open spec fn sp_escape(s: Seq<char>, i: int) -> Option<(char, int)> {
    if 0 <= i && i < s.len() {
        let c = s[i];
        if c == '"' {
            Some(('"', i + 1))
        } else if c == '\\' {
            Some(('\\', i + 1))
        } else if c == '/' {
            Some(('/', i + 1))
        } else if c == 'b' {
            Some(('\u{8}', i + 1))
        } else if c == 'f' {
            Some(('\u{c}', i + 1))
        } else if c == 'n' {
            Some(('\n', i + 1))
        } else if c == 'r' {
            Some(('\r', i + 1))
        } else if c == 't' {
            Some(('\t', i + 1))
        } else if c == 'u' {
            match sp_hex4(s, i + 1) {
                None => None,
                Some(u) => if 0xD800 <= u && u < 0xDC00 {
                    if i + 7 <= s.len() && s[i + 5] == '\\' && s[i + 6] == 'u' {
                        match sp_hex4(s, i + 7) {
                            None => None,
                            Some(u2) => if 0xDC00 <= u2 && u2 < 0xE000 {
                                Some(
                                    (
                                        ((0x10000 + (u - 0xD800) * 0x400 + (u2
                                            - 0xDC00)) as u32) as char,
                                        i + 11,
                                    ),
                                )
                            } else {
                                None
                            },
                        }
                    } else {
                        None
                    }
                } else if 0xDC00 <= u && u < 0xE000 {
                    None
                } else {
                    Some(((u as u32) as char, i + 5))
                },
            }
        } else {
            None
        }
    } else {
        None
    }
}

pub proof fn lemma_sp_escape_bounds(s: Seq<char>, i: int)
    ensures
        sp_escape(s, i) matches Some((c, j)) ==> i < j <= s.len(),
{
}

/// The body of a string literal, `i` pointing just past the opening
/// quote: plain characters and escapes up to the closing quote. Control
/// characters must be escaped. Returns the decoded body and the index
/// just past the closing quote.
pub open spec fn sp_string(s: Seq<char>, i: int) -> Option<(Seq<char>, int)>
    decreases s.len() - i,
{
    if 0 <= i && i < s.len() {
        let c = s[i];
        if c == '"' {
            Some((Seq::empty(), i + 1))
        } else if c == '\\' {
            match sp_escape(s, i + 1) {
                None => None,
                Some((d, j)) => {
                    proof {
                        lemma_sp_escape_bounds(s, i + 1);
                    }
                    match sp_string(s, j) {
                        None => None,
                        Some((rest, k)) => Some((seq![d] + rest, k)),
                    }
                },
            }
        } else if (c as u32) < 32 {
            None
        } else {
            match sp_string(s, i + 1) {
                None => None,
                Some((rest, k)) => Some((seq![c] + rest, k)),
            }
        }
    } else {
        None
    }
}

pub proof fn lemma_sp_string_bounds(s: Seq<char>, i: int)
    ensures
        sp_string(s, i) matches Some((b, k)) ==> i < k <= s.len(),
    decreases s.len() - i,
{
    if 0 <= i && i < s.len() {
        let c = s[i];
        if c == '\\' {
            lemma_sp_escape_bounds(s, i + 1);
            match sp_escape(s, i + 1) {
                None => {},
                Some((d, j)) => {
                    lemma_sp_string_bounds(s, j);
                },
            }
        } else if c != '"' && (c as u32) >= 32 {
            lemma_sp_string_bounds(s, i + 1);
        }
    }
}

/// A guard used inside the recursive grammar: the parsed prefix always
/// advances the index, and phrasing the next index this way keeps that
/// visible to the termination check.
pub open spec fn spstep(i: int, j: int) -> int {
    if j > i {
        j
    } else {
        i + 1
    }
}

/// One JSON value starting exactly at `i` (no leading whitespace):
/// a literal, a number token, a string, an array or an object. Returns
/// the value and the index just past it.
pub open spec fn sp_value(s: Seq<char>, i: int) -> Option<(JsonV, int)>
    decreases s.len() - i, 0int,
{
    if 0 <= i && i < s.len() {
        let c = s[i];
        if c == 'n' {
            if i + 4 <= s.len() && s[i + 1] == 'u' && s[i + 2] == 'l' && s[i + 3] == 'l' {
                Some((JsonV::Null, i + 4))
            } else {
                None
            }
        } else if c == 't' {
            if i + 4 <= s.len() && s[i + 1] == 'r' && s[i + 2] == 'u' && s[i + 3] == 'e' {
                Some((JsonV::Bool(true), i + 4))
            } else {
                None
            }
        } else if c == 'f' {
            if i + 5 <= s.len() && s[i + 1] == 'a' && s[i + 2] == 'l' && s[i + 3] == 's' && s[i
                + 4] == 'e' {
                Some((JsonV::Bool(false), i + 5))
            } else {
                None
            }
        } else if c == '"' {
            match sp_string(s, i + 1) {
                None => None,
                Some((b, k)) => Some((JsonV::Str(b), k)),
            }
        } else if c == '-' || is_digit(c) {
            match sp_number_end(s, i) {
                None => None,
                Some(e) => Some((JsonV::Num(s.subrange(i, e)), e)),
            }
        } else if c == '[' {
            let j = sp_ws(s, i + 1);
            proof {
                lemma_sp_ws(s, i + 1);
            }
            if j < s.len() && s[j] == ']' {
                Some((JsonV::Arr(Seq::empty()), j + 1))
            } else {
                match sp_items(s, j) {
                    None => None,
                    Some((items, k)) => Some((JsonV::Arr(items), k)),
                }
            }
        } else if c == '{' {
            let j = sp_ws(s, i + 1);
            proof {
                lemma_sp_ws(s, i + 1);
            }
            if j < s.len() && s[j] == '}' {
                Some((JsonV::Obj(Seq::empty()), j + 1))
            } else {
                match sp_members(s, j) {
                    None => None,
                    Some((pairs, k)) => Some((JsonV::Obj(pairs), k)),
                }
            }
        } else {
            None
        }
    } else {
        None
    }
}

/// One or more comma-separated array elements starting exactly at `i`,
/// up to and including the closing bracket.
pub open spec fn sp_items(s: Seq<char>, i: int) -> Option<(Seq<JsonV>, int)>
    decreases s.len() - i, 1int,
{
    if 0 <= i && i <= s.len() {
        match sp_value(s, i) {
            None => None,
            Some((v, j0)) => {
                let j = spstep(i, j0);
                if j <= s.len() {
                    let k = sp_ws(s, j);
                    proof {
                        lemma_sp_ws(s, j);
                    }
                    if k < s.len() && s[k] == ',' {
                        let m = sp_ws(s, k + 1);
                        proof {
                            lemma_sp_ws(s, k + 1);
                        }
                        match sp_items(s, m) {
                            None => None,
                            Some((rest, e)) => Some((seq![v] + rest, e)),
                        }
                    } else if k < s.len() && s[k] == ']' {
                        Some((seq![v], k + 1))
                    } else {
                        None
                    }
                } else {
                    None
                }
            },
        }
    } else {
        None
    }
}

/// One or more comma-separated object members starting exactly at the
/// opening quote of the first key, up to and including the closing brace.
pub open spec fn sp_members(s: Seq<char>, i: int) -> Option<(Seq<(Seq<char>, JsonV)>, int)>
    decreases s.len() - i, 1int,
{
    if 0 <= i && i < s.len() && s[i] == '"' {
        match sp_string(s, i + 1) {
            None => None,
            Some((key, k1)) => {
                proof {
                    lemma_sp_string_bounds(s, i + 1);
                }
                let k2 = sp_ws(s, k1);
                proof {
                    lemma_sp_ws(s, k1);
                }
                if k2 < s.len() && s[k2] == ':' {
                    let k3 = sp_ws(s, k2 + 1);
                    proof {
                        lemma_sp_ws(s, k2 + 1);
                    }
                    match sp_value(s, k3) {
                        None => None,
                        Some((v, j0)) => {
                            let j = spstep(k3, j0);
                            if j <= s.len() {
                                let k4 = sp_ws(s, j);
                                proof {
                                    lemma_sp_ws(s, j);
                                }
                                if k4 < s.len() && s[k4] == ',' {
                                    let m = sp_ws(s, k4 + 1);
                                    proof {
                                        lemma_sp_ws(s, k4 + 1);
                                    }
                                    match sp_members(s, m) {
                                        None => None,
                                        Some((rest, e)) => Some((seq![(key, v)] + rest, e)),
                                    }
                                } else if k4 < s.len() && s[k4] == '}' {
                                    Some((seq![(key, v)], k4 + 1))
                                } else {
                                    None
                                }
                            } else {
                                None
                            }
                        },
                    }
                } else {
                    None
                }
            },
        }
    } else {
        None
    }
}

/// A whole JSON document: one value, surrounded by optional whitespace,
/// spanning the entire input.
pub open spec fn sp_parse(s: Seq<char>) -> Option<JsonV> {
    let i = sp_ws(s, 0);
    match sp_value(s, i) {
        None => None,
        Some((v, j)) => if sp_ws(s, j) == s.len() {
            Some(v)
        } else {
            None
        },
    }
}


/// Skips whitespace from `i` on.
fn skip_ws(s: &Vec<char>, i: usize) -> (r: usize)
    requires
        i <= s@.len(),
    ensures
        r as int == sp_ws(s@, i as int),
        i <= r <= s@.len(),
    decreases s@.len() - i,
{
    if i < s.len() {
        let c = s[i];
        if c == ' ' || c == '\t' || c == '\n' || c == '\r' {
            skip_ws(s, i + 1)
        } else {
            i
        }
    } else {
        i
    }
}

/// Skips decimal digits from `i` on.
fn scan_digits(s: &Vec<char>, i: usize) -> (r: usize)
    requires
        i <= s@.len(),
    ensures
        r as int == sp_digits(s@, i as int),
        i <= r <= s@.len(),
    decreases s@.len() - i,
{
    if i < s.len() {
        let u = s[i] as u32;
        if 48 <= u && u <= 57 {
            scan_digits(s, i + 1)
        } else {
            i
        }
    } else {
        i
    }
}

/// Scans one number token starting at `i`.
fn scan_number(s: &Vec<char>, i: usize) -> (r: Option<usize>)
    requires
        i <= s@.len(),
    ensures
        match r {
            None => sp_number_end(s@, i as int) is None,
            Some(e) => sp_number_end(s@, i as int) == Some(e as int) && i < e <= s@.len(),
        },
{
    proof {
        lemma_sp_number_end(s@, i as int);
    }
    let j = if i < s.len() && s[i] == '-' {
        i + 1
    } else {
        i
    };
    if j < s.len() && 48 <= s[j] as u32 && s[j] as u32 <= 57 {
        let k = if s[j] == '0' {
            j + 1
        } else {
            scan_digits(s, j)
        };
        let m: usize;
        if k < s.len() && s[k] == '.' {
            if k + 1 < s.len() && 48 <= s[k + 1] as u32 && s[k + 1] as u32 <= 57 {
                m = scan_digits(s, k + 1);
            } else {
                return None;
            }
        } else {
            m = k;
        }
        if m < s.len() && (s[m] == 'e' || s[m] == 'E') {
            let m2 = if m + 1 < s.len() && (s[m + 1] == '+' || s[m + 1] == '-') {
                m + 2
            } else {
                m + 1
            };
            if m2 < s.len() && 48 <= s[m2] as u32 && s[m2] as u32 <= 57 {
                Some(scan_digits(s, m2))
            } else {
                None
            }
        } else {
            Some(m)
        }
    } else {
        None
    }
}

/// The value of one hexadecimal digit.
fn hexv_e(c: char) -> (r: Option<u32>)
    ensures
        r == hexv(c),
{
    let u = c as u32;
    if 48 <= u && u <= 57 {
        Some(u - 48)
    } else if 97 <= u && u <= 102 {
        Some(u - 87)
    } else if 65 <= u && u <= 70 {
        Some(u - 55)
    } else {
        None
    }
}

/// Reads four hexadecimal digits starting at `i`.
fn hex4(s: &Vec<char>, i: usize) -> (r: Option<u32>)
    requires
        i <= s@.len(),
    ensures
        r == sp_hex4(s@, i as int),
        r matches Some(u) ==> u <= 0xFFFF,
{
    if s.len() - i >= 4 {
        let a = hexv_e(s[i]);
        let b = hexv_e(s[i + 1]);
        let c = hexv_e(s[i + 2]);
        let d = hexv_e(s[i + 3]);
        match (a, b, c, d) {
            (Some(a), Some(b), Some(c), Some(d)) => Some(a * 4096 + b * 256 + c * 16 + d),
            _ => None,
        }
    } else {
        None
    }
}

/// Decodes one escape sequence, `i` pointing just past the backslash.
fn p_escape(s: &Vec<char>, i: usize) -> (r: Option<(char, usize)>)
    requires
        i <= s@.len(),
    ensures
        match r {
            None => sp_escape(s@, i as int) is None,
            Some((c, j)) => sp_escape(s@, i as int) == Some((c, j as int)) && i < j <= s@.len(),
        },
{
    if i < s.len() {
        let c = s[i];
        if c == '"' {
            Some(('"', i + 1))
        } else if c == '\\' {
            Some(('\\', i + 1))
        } else if c == '/' {
            Some(('/', i + 1))
        } else if c == 'b' {
            Some(('\u{8}', i + 1))
        } else if c == 'f' {
            Some(('\u{c}', i + 1))
        } else if c == 'n' {
            Some(('\n', i + 1))
        } else if c == 'r' {
            Some(('\r', i + 1))
        } else if c == 't' {
            Some(('\t', i + 1))
        } else if c == 'u' {
            match hex4(s, i + 1) {
                None => None,
                Some(u) => {
                    if 0xD800 <= u && u < 0xDC00 {
                        if s.len() - i >= 7 && s[i + 5] == '\\' && s[i + 6] == 'u' {
                            match hex4(s, i + 7) {
                                None => None,
                                Some(u2) => {
                                    if 0xDC00 <= u2 && u2 < 0xE000 {
                                        let scalar = 0x10000 + (u - 0xD800) * 0x400 + (u2
                                            - 0xDC00);
                                        match char_from_u32(scalar) {
                                            None => None,
                                            Some(ch) => {
                                                proof {
                                                    vstd::utf8::char_u32_cast(ch, scalar);
                                                }
                                                Some((ch, i + 11))
                                            },
                                        }
                                    } else {
                                        None
                                    }
                                },
                            }
                        } else {
                            None
                        }
                    } else if 0xDC00 <= u && u < 0xE000 {
                        None
                    } else {
                        match char_from_u32(u) {
                            None => None,
                            Some(ch) => {
                                proof {
                                    vstd::utf8::char_u32_cast(ch, u);
                                }
                                Some((ch, i + 5))
                            },
                        }
                    }
                },
            }
        } else {
            None
        }
    } else {
        None
    }
}

/// Decodes a string body, `i` pointing just past the opening quote.
fn p_string(s: &Vec<char>, i: usize) -> (r: Option<(Vec<char>, usize)>)
    requires
        i <= s@.len(),
    ensures
        match r {
            None => sp_string(s@, i as int) is None,
            Some((b, k)) => sp_string(s@, i as int) == Some((b@, k as int)) && i < k
                <= s@.len(),
        },
    decreases s@.len() - i,
{
    if i < s.len() {
        let c = s[i];
        if c == '"' {
            let v: Vec<char> = Vec::new();
            proof {
                assert(v@ =~= Seq::<char>::empty());
            }
            Some((v, i + 1))
        } else if c == '\\' {
            match p_escape(s, i + 1) {
                None => None,
                Some((d, j)) => {
                    match p_string(s, j) {
                        None => None,
                        Some((rest, k)) => {
                            let ghost rest0 = rest@;
                            let mut rest = rest;
                            rest.insert(0, d);
                            proof {
                                assert(rest@ =~= seq![d] + rest0);
                            }
                            Some((rest, k))
                        },
                    }
                },
            }
        } else if (c as u32) < 32 {
            None
        } else {
            match p_string(s, i + 1) {
                None => None,
                Some((rest, k)) => {
                    let ghost rest0 = rest@;
                    let mut rest = rest;
                    rest.insert(0, c);
                    proof {
                        assert(rest@ =~= seq![c] + rest0);
                    }
                    Some((rest, k))
                },
            }
        }
    } else {
        None
    }
}

/// Parses one JSON value starting exactly at `i`.
#[verifier::rlimit(100)]
#[verifier::loop_isolation(false)]
fn p_value(s: &Vec<char>, i: usize) -> (r: Option<(Json, usize)>)
    requires
        i <= s@.len(),
    ensures
        match r {
            None => sp_value(s@, i as int) is None,
            Some((v, j)) => sp_value(s@, i as int) == Some((v@, j as int)) && i < j
                <= s@.len(),
        },
    decreases s@.len() - i, 0int,
{
    if i < s.len() {
        let c = s[i];
        if c == 'n' {
            if s.len() - i >= 4 && s[i + 1] == 'u' && s[i + 2] == 'l' && s[i + 3] == 'l' {
                Some((Json::Null, i + 4))
            } else {
                None
            }
        } else if c == 't' {
            if s.len() - i >= 4 && s[i + 1] == 'r' && s[i + 2] == 'u' && s[i + 3] == 'e' {
                Some((Json::Bool(true), i + 4))
            } else {
                None
            }
        } else if c == 'f' {
            if s.len() - i >= 5 && s[i + 1] == 'a' && s[i + 2] == 'l' && s[i + 3] == 's' && s[i
                + 4] == 'e' {
                Some((Json::Bool(false), i + 5))
            } else {
                None
            }
        } else if c == '"' {
            match p_string(s, i + 1) {
                None => None,
                Some((b, k)) => Some((Json::Str(b), k)),
            }
        } else if c == '-' || (48 <= c as u32 && c as u32 <= 57) {
            match scan_number(s, i) {
                None => None,
                Some(e) => {
                    let mut tok: Vec<char> = Vec::new();
                    let mut t: usize = i;
                    while t < e
                        invariant
                            i <= t <= e,
                            tok@ == s@.subrange(i as int, t as int),
                        decreases e - t,
                    {
                        tok.push(s[t]);
                        proof {
                            assert(s@.subrange(i as int, t as int).push(s@[t as int])
                                =~= s@.subrange(i as int, t + 1));
                        }
                        t += 1;
                    }
                    Some((Json::Num(tok), e))
                },
            }
        } else if c == '[' {
            let j = skip_ws(s, i + 1);
            if j < s.len() && s[j] == ']' {
                let items: Vec<Json> = Vec::new();
                proof {
                    assert(items@ =~= Seq::<Json>::empty());
                    assert(view_list(items@) =~= Seq::<JsonV>::empty());
                }
                Some((Json::Arr(items), j + 1))
            } else {
                match p_items(s, j) {
                    None => None,
                    Some((vs, k)) => Some((Json::Arr(vs), k)),
                }
            }
        } else if c == '{' {
            let j = skip_ws(s, i + 1);
            if j < s.len() && s[j] == '}' {
                let pairs: Vec<(Vec<char>, Json)> = Vec::new();
                proof {
                    assert(pairs@ =~= Seq::<(Vec<char>, Json)>::empty());
                    assert(view_pairs(pairs@) =~= Seq::<(Seq<char>, JsonV)>::empty());
                }
                Some((Json::Obj(pairs), j + 1))
            } else {
                match p_members(s, j) {
                    None => None,
                    Some((ps, k)) => Some((Json::Obj(ps), k)),
                }
            }
        } else {
            None
        }
    } else {
        None
    }
}

/// Parses the elements of a non-empty array, starting at the first one.
#[verifier::rlimit(100)]
fn p_items(s: &Vec<char>, i: usize) -> (r: Option<(Vec<Json>, usize)>)
    requires
        i <= s@.len(),
    ensures
        match r {
            None => sp_items(s@, i as int) is None,
            Some((vs, e)) => sp_items(s@, i as int) == Some((view_list(vs@), e as int)) && i < e
                <= s@.len(),
        },
    decreases s@.len() - i, 1int,
{
    match p_value(s, i) {
        None => None,
        Some((v, j)) => {
            proof {
                assert(spstep(i as int, j as int) == j as int);
            }
            let k = skip_ws(s, j);
            if k < s.len() && s[k] == ',' {
                let m = skip_ws(s, k + 1);
                match p_items(s, m) {
                    None => None,
                    Some((rest, e)) => {
                        let ghost rest0 = rest@;
                        let mut rest = rest;
                        rest.insert(0, v);
                        proof {
                            assert(rest@ =~= seq![v] + rest0);
                            assert(rest@.drop_first() =~= rest0);
                            assert(view_list(rest@) =~= seq![view_json(v)] + view_list(rest0));
                        }
                        Some((rest, e))
                    },
                }
            } else if k < s.len() && s[k] == ']' {
                let mut vs: Vec<Json> = Vec::new();
                vs.push(v);
                proof {
                    assert(vs@ =~= seq![v]);
                    assert(vs@.drop_first() =~= Seq::<Json>::empty());
                    assert(view_list(vs@) == seq![view_json(vs@[0])] + view_list(
                        vs@.drop_first(),
                    ));
                    assert(view_list(Seq::<Json>::empty()) =~= Seq::<JsonV>::empty());
                    assert(view_list(vs@) =~= seq![view_json(v)]);
                }
                Some((vs, k + 1))
            } else {
                None
            }
        },
    }
}

/// Parses the members of a non-empty object, starting at the opening
/// quote of the first key.
#[verifier::rlimit(100)]
fn p_members(s: &Vec<char>, i: usize) -> (r: Option<(Vec<(Vec<char>, Json)>, usize)>)
    requires
        i <= s@.len(),
    ensures
        match r {
            None => sp_members(s@, i as int) is None,
            Some((ps, e)) => sp_members(s@, i as int) == Some((view_pairs(ps@), e as int)) && i
                < e <= s@.len(),
        },
    decreases s@.len() - i, 1int,
{
    if i < s.len() && s[i] == '"' {
        match p_string(s, i + 1) {
            None => None,
            Some((key, k1)) => {
                let k2 = skip_ws(s, k1);
                if k2 < s.len() && s[k2] == ':' {
                    let k3 = skip_ws(s, k2 + 1);
                    match p_value(s, k3) {
                        None => None,
                        Some((v, j)) => {
                            proof {
                                assert(spstep(k3 as int, j as int) == j as int);
                            }
                            let k4 = skip_ws(s, j);
                            if k4 < s.len() && s[k4] == ',' {
                                let m = skip_ws(s, k4 + 1);
                                match p_members(s, m) {
                                    None => None,
                                    Some((rest, e)) => {
                                        let ghost rest0 = rest@;
                                        let mut rest = rest;
                                        rest.insert(0, (key, v));
                                        proof {
                                            assert(rest@ =~= seq![(key, v)] + rest0);
                                            assert(rest@.drop_first() =~= rest0);
                                            assert(view_pairs(rest@) =~= seq![
                                                (key@, view_json(v)),
                                            ] + view_pairs(rest0));
                                        }
                                        Some((rest, e))
                                    },
                                }
                            } else if k4 < s.len() && s[k4] == '}' {
                                let mut ps: Vec<(Vec<char>, Json)> = Vec::new();
                                ps.push((key, v));
                                proof {
                                    assert(ps@ =~= seq![(key, v)]);
                                    assert(ps@.drop_first() =~= Seq::<(Vec<char>, Json)>::empty());
                                    assert(view_pairs(ps@) == seq![
                                        (ps@[0].0@, view_json(ps@[0].1)),
                                    ] + view_pairs(ps@.drop_first()));
                                    assert(view_pairs(Seq::<(Vec<char>, Json)>::empty())
                                        =~= Seq::<(Seq<char>, JsonV)>::empty());
                                    assert(view_pairs(ps@) =~= seq![(key@, view_json(v))]);
                                }
                                Some((ps, k4 + 1))
                            } else {
                                None
                            }
                        },
                    }
                } else {
                    None
                }
            },
        }
    } else {
        None
    }
}

/// Parses a whole JSON document held in a character vector.
pub fn parse_json_chars(s: &Vec<char>) -> (r: Option<Json>)
    ensures
        match r {
            None => sp_parse(s@) is None,
            Some(v) => sp_parse(s@) == Some(v@),
        },
{
    let i = skip_ws(s, 0);
    match p_value(s, i) {
        None => None,
        Some((v, j)) => {
            let e = skip_ws(s, j);
            if e == s.len() {
                Some(v)
            } else {
                None
            }
        },
    }
}

} // verus!

