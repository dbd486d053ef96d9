//! Configuration resolution: turns the four host-supplied configuration
//! values (`api_key`, `model`, `temperature`, `role`) into a typed
//! settings record, or reports the first configuration fault.
//!
//! The temperature is a decimal token (an optional sign, digits, at most
//! one dot, at least one digit) whose exact value must lie between zero
//! and one inclusive; it is kept in canonical decimal form, so the
//! library never computes with floating point.

use vstd::prelude::*;
use vstd::string::StrSliceExecFns;
use crate::errors::ConfigError;
use crate::parse::is_digit;
use crate::registry::{find, default_model, spec_find, spec_models, Model, ModelV};
use crate::text::{chars_to_string, str_to_chars};

verus! {

broadcast use vstd::std_specs::vec::group_vec_axioms;

/// The resolved per-invocation settings.
#[derive(Debug)]
pub struct Settings {
    pub api_key: String,
    pub model: Model,
    /// The temperature as a canonical decimal token, for example `0.7`.
    pub temperature: String,
    pub role: String,
}

/// The mathematical content of a settings record.
pub struct SettingsV {
    pub api_key: Seq<char>,
    pub model: ModelV,
    pub temperature: Seq<char>,
    pub role: Seq<char>,
}

impl View for Settings {
    type V = SettingsV;

    open spec fn view(&self) -> SettingsV {
        SettingsV {
            api_key: self.api_key@,
            model: self.model@,
            temperature: self.temperature@,
            role: self.role@,
        }
    }
}

/// The token with an optional leading sign removed.
pub open spec fn temp_body(s: Seq<char>) -> Seq<char> {
    if s.len() > 0 && (s[0] == '+' || s[0] == '-') {
        s.drop_first()
    } else {
        s
    }
}

/// Whether the token carries a minus sign.
pub open spec fn temp_neg(s: Seq<char>) -> bool {
    s.len() > 0 && s[0] == '-'
}

/// A valid decimal token: after the optional sign, only digits and at
/// most one dot, with at least one digit.
pub open spec fn temp_valid(s: Seq<char>) -> bool {
    let b = temp_body(s);
    b.len() > 0 && (forall|i: int| 0 <= i < b.len() ==> is_digit(b[i]) || b[i] == '.')
        && dot_count(b) <= 1 && (exists|i: int| 0 <= i < b.len() && is_digit(b[i]))
}

/// How many dots a token holds.
pub open spec fn dot_count(s: Seq<char>) -> int
    decreases s.len(),
{
    if s.len() == 0 {
        0
    } else {
        dot_count(s.drop_last()) + if s.last() == '.' {
            1int
        } else {
            0int
        }
    }
}

/// The digits before the dot (or the whole body without a dot).
pub open spec fn int_part(b: Seq<char>) -> Seq<char>
    decreases b.len(),
{
    if b.len() == 0 {
        b
    } else if b[0] == '.' {
        Seq::empty()
    } else {
        seq![b[0]] + int_part(b.drop_first())
    }
}

/// The digits after the dot (empty without a dot).
pub open spec fn frac_part(b: Seq<char>) -> Seq<char>
    decreases b.len(),
{
    if b.len() == 0 {
        Seq::empty()
    } else if b[0] == '.' {
        b.drop_first()
    } else {
        frac_part(b.drop_first())
    }
}

/// The value of a digit string, most significant digit first.
pub open spec fn digits_val(s: Seq<char>) -> int
    decreases s.len(),
{
    if s.len() == 0 {
        0
    } else {
        digits_val(s.drop_last()) * 10 + (s.last() as u32 - 48)
    }
}

/// Whether every character is the digit zero.
pub open spec fn all_zeros(f: Seq<char>) -> bool {
    forall|i: int| 0 <= i < f.len() ==> f[i] == '0'
}

/// Whether the exact value of a valid token lies in the closed interval
/// from zero to one: a negative token must denote zero; otherwise the
/// integer part is zero, or it is one and the fraction is all zeros.
pub open spec fn temp_in_range(s: Seq<char>) -> bool {
    let b = temp_body(s);
    let iv = digits_val(int_part(b));
    let f = frac_part(b);
    if temp_neg(s) {
        iv == 0 && all_zeros(f)
    } else {
        iv == 0 || (iv == 1 && all_zeros(f))
    }
}

/// The fraction with trailing zeros removed.
pub open spec fn strip_tz(f: Seq<char>) -> Seq<char>
    decreases f.len(),
{
    if f.len() > 0 && f.last() == '0' {
        strip_tz(f.drop_last())
    } else {
        f
    }
}

/// The canonical rendering of a valid in-range token: `0` or `1`,
/// followed by the fraction without trailing zeros, if any remains.
pub open spec fn temp_canon(s: Seq<char>) -> Seq<char> {
    let b = temp_body(s);
    let iv = digits_val(int_part(b));
    let f = strip_tz(frac_part(b));
    let head = if iv == 1 {
        seq!['1']
    } else {
        seq!['0']
    };
    if f.len() == 0 {
        head
    } else {
        head + seq!['.'] + f
    }
}

/// `digits_val`, clamped at two: enough to decide the range check.
pub open spec fn clamp2(s: Seq<char>) -> int
    decreases s.len(),
{
    if s.len() == 0 {
        0
    } else {
        let v = clamp2(s.drop_last()) * 10 + (s.last() as u32 - 48);
        if v >= 2 {
            2
        } else {
            v
        }
    }
}

proof fn lemma_clamp2(s: Seq<char>)
    requires
        forall|i: int| 0 <= i < s.len() ==> is_digit(s[i]),
    ensures
        clamp2(s) == if digits_val(s) >= 2 {
            2int
        } else {
            digits_val(s)
        },
        digits_val(s) >= 0,
    decreases s.len(),
{
    if s.len() > 0 {
        lemma_clamp2(s.drop_last());
        assert(is_digit(s.last()));
    }
}

/// Validates a temperature token and, when its exact value lies between
/// zero and one inclusive, returns its canonical rendering.
#[verifier::rlimit(100)]
#[verifier::loop_isolation(false)]
pub fn temp_resolve(t: &str) -> (r: Result<String, ConfigError>)
    ensures
        !temp_valid(t@) ==> r == Err::<String, ConfigError>(ConfigError::TemperatureNotFloat),
        temp_valid(t@) && !temp_in_range(t@) ==> r == Err::<String, ConfigError>(
            ConfigError::TemperatureOutOfRange,
        ),
        temp_valid(t@) && temp_in_range(t@) ==> (r matches Ok(c) && c@ == temp_canon(t@)),
{
    let chars = str_to_chars(t);
    let n = chars.len();
    let start: usize = if n > 0 && (chars[0] == '+' || chars[0] == '-') {
        1
    } else {
        0
    };
    let neg = n > 0 && chars[0] == '-';
    let ghost b = temp_body(t@);
    proof {
        assert(b =~= chars@.subrange(start as int, n as int));
        assert(neg == temp_neg(t@));
    }
    // validity scan: only digits and at most one dot, at least one digit
    let mut dots: usize = 0;
    let mut digits: usize = 0;
    let mut i: usize = start;
    while i < n
        invariant
            start <= i <= n,
            dots <= i,
            digits <= i,
            dots as int == dot_count(chars@.subrange(start as int, i as int)),
            (forall|k: int| start <= k < i ==> is_digit(chars@[k]) || chars@[k] == '.'),
            digits > 0 <==> (exists|k: int| start <= k < i && is_digit(chars@[k])),
        decreases n - i,
    {
        let c = chars[i];
        let u = c as u32;
        proof {
            assert(chars@.subrange(start as int, i + 1).drop_last() =~= chars@.subrange(
                start as int,
                i as int,
            ));
        }
        if c == '.' {
            dots = dots + 1;
        } else if 48 <= u && u <= 57 {
            digits = digits + 1;
        } else {
            proof {
                assert(!is_digit(chars@[i as int]) && chars@[i as int] != '.');
                assert(b[i - start] == chars@[i as int]);
                assert(!(is_digit(b[i - start]) || b[i - start] == '.'));
                assert(!temp_valid(t@));
            }
            return Err(ConfigError::TemperatureNotFloat);
        }
        i += 1;
    }
    if n == start || dots > 1 || digits == 0 {
        proof {
            assert(chars@.subrange(start as int, n as int) =~= b);
            if n > start && dots <= 1 {
                assert(digits == 0);
                if exists|x: int| 0 <= x < b.len() && is_digit(b[x]) {
                    let x = choose|x: int| 0 <= x < b.len() && is_digit(b[x]);
                    assert(is_digit(chars@[start + x]));
                }
            }
            assert(!temp_valid(t@));
        }
        return Err(ConfigError::TemperatureNotFloat);
    }
    proof {
        assert(b.len() > 0);
        assert(chars@.subrange(start as int, n as int) =~= b);
        assert forall|x: int| 0 <= x < b.len() implies is_digit(b[x]) || b[x] == '.' by {
            assert(b[x] == chars@[start + x]);
        }
        let w = choose|k: int| start <= k < n && is_digit(chars@[k]);
        assert(is_digit(b[w - start]));
        assert(temp_valid(t@));
    }
    // split at the dot
    let mut dot: usize = n;
    let mut j: usize = start;
    while j < n
        invariant
            start <= j <= n,
            dot == n || (start <= dot < n && chars@[dot as int] == '.' && forall|k: int|
                start <= k < dot ==> chars@[k] != '.'),
            dot == n ==> forall|k: int| start <= k < j ==> chars@[k] != '.',
        decreases n - j,
    {
        if dot == n && chars[j] == '.' {
            dot = j;
        }
        j += 1;
    }
    let ghost ip = int_part(b);
    let ghost fp = frac_part(b);
    proof {
        lemma_split_parts(chars@, start as int, dot as int, n as int);
    }
    // integer part value, clamped at two
    let iend = if dot < n {
        dot
    } else {
        n
    };
    let mut v: usize = 0;
    let mut k: usize = start;
    while k < iend
        invariant
            start <= k <= iend,
            v <= 2,
            v as int == clamp2(chars@.subrange(start as int, k as int)),
        decreases iend - k,
    {
        proof {
            assert(chars@.subrange(start as int, k + 1).drop_last() =~= chars@.subrange(
                start as int,
                k as int,
            ));
        }
        let d = (chars[k] as u32) - 48;
        let nv = v * 10 + (d as usize);
        v = if nv >= 2 {
            2
        } else {
            nv
        };
        k += 1;
    }
    proof {
        lemma_clamp2(ip);
    }
    // fraction all zeros?
    let fstart = if dot < n {
        dot + 1
    } else {
        n
    };
    let mut allz = true;
    let mut m: usize = fstart;
    while m < n
        invariant
            fstart <= m <= n,
            allz <==> (forall|k2: int| fstart <= k2 < m ==> chars@[k2] == '0'),
        decreases n - m,
    {
        if chars[m] != '0' {
            allz = false;
        }
        m += 1;
    }
    proof {
        assert(ip =~= chars@.subrange(start as int, iend as int));
        assert forall|x: int| 0 <= x < ip.len() implies is_digit(ip[x]) by {
            assert(ip[x] == chars@[start + x]);
            assert(is_digit(chars@[start + x]) || chars@[start + x] == '.');
            if start + x < iend && chars@[start + x] == '.' {
                assert(false);
            }
        }
        lemma_clamp2(ip);
        assert(fp =~= chars@.subrange(fstart as int, n as int));
        if allz {
            assert forall|x: int| 0 <= x < fp.len() implies fp[x] == '0' by {
                assert(fp[x] == chars@[fstart + x]);
            }
            assert(all_zeros(fp));
        } else {
            let w = choose|k2: int| fstart <= k2 < n && chars@[k2] != '0';
            assert(fp[w - fstart] != '0');
            assert(!all_zeros(fp));
        }
    }
    let in_range = if neg {
        v == 0 && allz
    } else {
        v == 0 || (v == 1 && allz)
    };
    if !in_range {
        proof {
            assert(!temp_in_range(t@));
        }
        return Err(ConfigError::TemperatureOutOfRange);
    }
    proof {
        assert(temp_in_range(t@));
    }
    // canonical rendering
    let mut e: usize = n;
    while e > fstart && chars[e - 1] == '0'
        invariant
            fstart <= e <= n,
            strip_tz(fp) == strip_tz(chars@.subrange(fstart as int, e as int)),
        decreases e,
    {
        proof {
            assert(chars@.subrange(fstart as int, e as int).drop_last() =~= chars@.subrange(
                fstart as int,
                e - 1,
            ));
        }
        e -= 1;
    }
    proof {
        assert(strip_tz(chars@.subrange(fstart as int, e as int)) == chars@.subrange(
            fstart as int,
            e as int,
        ));
    }
    let mut out: Vec<char> = Vec::new();
    if v == 1 {
        out.push('1');
    } else {
        out.push('0');
    }
    if e > fstart {
        out.push('.');
        let mut q: usize = fstart;
        while q < e
            invariant
                fstart <= q <= e,
                out@ == seq![if digits_val(ip) == 1 { '1' } else { '0' }, '.'] + chars@.subrange(
                    fstart as int,
                    q as int,
                ),
            decreases e - q,
        {
            out.push(chars[q]);
            proof {
                assert(chars@.subrange(fstart as int, q as int).push(chars@[q as int])
                    =~= chars@.subrange(fstart as int, q + 1));
            }
            q += 1;
        }
    }
    proof {
        assert(out@ =~= temp_canon(t@));
    }
    Ok(chars_to_string(&out))
}

/// Relates the dot found by scanning to the spec split of the body.
proof fn lemma_split_parts(s: Seq<char>, start: int, dot: int, n: int)
    requires
        0 <= start <= n == s.len(),
        dot == n || (start <= dot < n && s[dot] == '.' && forall|k: int|
            start <= k < dot ==> s[k] != '.'),
        dot == n ==> forall|k: int| start <= k < n ==> s[k] != '.',
    ensures
        int_part(s.subrange(start, n)) == s.subrange(start, if dot < n {
            dot
        } else {
            n
        }),
        frac_part(s.subrange(start, n)) == s.subrange(
            if dot < n {
                dot + 1
            } else {
                n
            },
            n,
        ),
    decreases n - start,
{
    let b = s.subrange(start, n);
    if start == n {
        assert(b.len() == 0);
        assert(int_part(b) =~= s.subrange(start, n));
        assert(frac_part(b) =~= s.subrange(n, n));
    } else if s[start] == '.' {
        assert(dot == start);
        assert(b[0] == '.');
        assert(int_part(b) =~= s.subrange(start, start));
        assert(frac_part(b) == b.drop_first());
        assert(b.drop_first() =~= s.subrange(start + 1, n));
    } else {
        lemma_split_parts(s, start + 1, if dot < n && dot >= start + 1 {
            dot
        } else {
            n
        }, n);
        assert(b.drop_first() =~= s.subrange(start + 1, n));
        if dot < n {
            assert(dot >= start + 1);
            assert(int_part(b) == seq![b[0]] + int_part(b.drop_first()));
            assert(seq![b[0]] + s.subrange(start + 1, dot) =~= s.subrange(start, dot));
        } else {
            assert(int_part(b) == seq![b[0]] + int_part(b.drop_first()));
            assert(seq![b[0]] + s.subrange(start + 1, n) =~= s.subrange(start, n));
        }
    }
}

/// The resolution rule: the required key, then the model lookup with its
/// registry default, then the temperature with its default, then the
/// role defaulting to empty.
pub open spec fn spec_resolve(
    ak: Option<Seq<char>>,
    m: Option<Seq<char>>,
    t: Option<Seq<char>>,
    ro: Option<Seq<char>>,
) -> Result<SettingsV, ConfigError> {
    if ak is None {
        Err(ConfigError::ApiKeyMissing)
    } else {
        let model = match m {
            None => Some(spec_models()[0]),
            Some(q) => spec_find(q),
        };
        if model is None {
            Err(ConfigError::ModelNotFound)
        } else {
            let role = match ro {
                None => Seq::<char>::empty(),
                Some(r) => r,
            };
            match t {
                Some(ts) => if !temp_valid(ts) {
                    Err(ConfigError::TemperatureNotFloat)
                } else if !temp_in_range(ts) {
                    Err(ConfigError::TemperatureOutOfRange)
                } else {
                    Ok(
                        SettingsV {
                            api_key: ak->0,
                            model: model->0,
                            temperature: temp_canon(ts),
                            role,
                        },
                    )
                },
                None => Ok(
                    SettingsV {
                        api_key: ak->0,
                        model: model->0,
                        temperature: "0.7"@,
                        role,
                    },
                ),
            }
        }
    }
}

/// The view of an optional string.
pub open spec fn oview(o: Option<String>) -> Option<Seq<char>> {
    match o {
        None => None,
        Some(s) => Some(s@),
    }
}

/// Resolves the four configuration values into settings, or reports the
/// first fault, in the fixed order: key, model, temperature. This is
/// pure validation over the given values: a missing key is rejected
/// here, before any request could be built or sent.
pub fn resolve_config(
    api_key: Option<String>,
    model: Option<String>,
    temperature: Option<String>,
    role: Option<String>,
) -> (r: Result<Settings, ConfigError>)
    ensures
        ({
            let g = spec_resolve(oview(api_key), oview(model), oview(temperature), oview(role));
            match r {
                Ok(s) => g == Ok::<SettingsV, ConfigError>(s@),
                Err(e) => g == Err::<SettingsV, ConfigError>(e),
            }
        }),
{
    let key = match api_key {
        None => {
            return Err(ConfigError::ApiKeyMissing);
        },
        Some(k) => k,
    };
    let resolved_model = match model {
        None => default_model(),
        Some(q) => {
            match find(q.as_str()) {
                None => {
                    return Err(ConfigError::ModelNotFound);
                },
                Some(m) => m,
            }
        },
    };
    let temp = match temperature {
        None => "0.7".to_owned(),
        Some(ts) => {
            match temp_resolve(ts.as_str()) {
                Err(e) => {
                    return Err(e);
                },
                Ok(c) => c,
            }
        },
    };
    let role_s = match role {
        None => String::new(),
        Some(r) => r,
    };
    Ok(Settings { api_key: key, model: resolved_model, temperature: temp, role: role_s })
}

} // verus!
