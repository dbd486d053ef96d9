//! The library's JSON value model and its serializers.
//!
//! Values are modelled by [`Json`] (executable, character vectors inside)
//! with the mathematical mirror [`JsonV`]. Numbers carry their decimal
//! token as written, so no floating point is involved. Two serializers are
//! provided: a compact one and a pretty one with two-space indentation;
//! both are specified exactly by spec functions over [`JsonV`].

use vstd::prelude::*;
use crate::text::digit_char;

verus! {

broadcast use vstd::std_specs::vec::group_vec_axioms;

/// An executable JSON value. Object members keep their order as written.
pub enum Json {
    Null,
    Bool(bool),
    /// A number, as its decimal token (for example `['1', '.', '5']`).
    Num(Vec<char>),
    Str(Vec<char>),
    Arr(Vec<Json>),
    Obj(Vec<(Vec<char>, Json)>),
}

/// The mathematical mirror of [`Json`].
pub enum JsonV {
    Null,
    Bool(bool),
    Num(Seq<char>),
    Str(Seq<char>),
    Arr(Seq<JsonV>),
    Obj(Seq<(Seq<char>, JsonV)>),
}

/// The mathematical value of an executable JSON value.
pub open spec fn view_json(v: Json) -> JsonV
    decreases v,
{
    match v {
        Json::Null => JsonV::Null,
        Json::Bool(b) => JsonV::Bool(b),
        Json::Num(s) => JsonV::Num(s@),
        Json::Str(s) => JsonV::Str(s@),
        Json::Arr(elems) => {
            proof {
                assert(decreases_to!(v => elems));
                assert(decreases_to!(elems => elems@));
            }
            JsonV::Arr(view_list(elems@))
        },
        Json::Obj(pairs) => {
            proof {
                assert(decreases_to!(v => pairs));
                assert(decreases_to!(pairs => pairs@));
            }
            JsonV::Obj(view_pairs(pairs@))
        },
    }
}

/// The values of a sequence of executable JSON values, elementwise.
pub open spec fn view_list(l: Seq<Json>) -> Seq<JsonV>
    decreases l,
{
    if l.len() == 0 {
        Seq::empty()
    } else {
        proof {
            assert(decreases_to!(l => l[0]));
        }
        seq![view_json(l[0])] + view_list(l.drop_first())
    }
}

/// The values of a sequence of key/value members, elementwise.
pub open spec fn view_pairs(l: Seq<(Vec<char>, Json)>) -> Seq<(Seq<char>, JsonV)>
    decreases l,
{
    if l.len() == 0 {
        Seq::empty()
    } else {
        proof {
            assert(decreases_to!(l => l[0]));
            assert(decreases_to!(l[0] => l[0].1));
        }
        seq![(l[0].0@, view_json(l[0].1))] + view_pairs(l.drop_first())
    }
}

impl View for Json {
    type V = JsonV;

    open spec fn view(&self) -> JsonV {
        view_json(*self)
    }
}

/// The length and the elements of `view_list`.
pub proof fn lemma_view_list_props(l: Seq<Json>)
    ensures
        view_list(l).len() == l.len(),
        forall|i: int| 0 <= i < l.len() ==> view_list(l)[i] == view_json(l[i]),
    decreases l.len(),
{
    if l.len() > 0 {
        lemma_view_list_props(l.drop_first());
        assert forall|i: int| 0 <= i < l.len() implies view_list(l)[i] == view_json(l[i]) by {
            if i > 0 {
                assert(view_list(l)[i] == view_list(l.drop_first())[i - 1]);
                assert(l.drop_first()[i - 1] == l[i]);
            }
        }
    }
}

/// The length and the elements of `view_pairs`.
pub proof fn lemma_view_pairs_props(l: Seq<(Vec<char>, Json)>)
    ensures
        view_pairs(l).len() == l.len(),
        forall|i: int| 0 <= i < l.len() ==> view_pairs(l)[i] == (l[i].0@, view_json(l[i].1)),
    decreases l.len(),
{
    if l.len() > 0 {
        lemma_view_pairs_props(l.drop_first());
        assert forall|i: int| 0 <= i < l.len() implies view_pairs(l)[i] == (
            l[i].0@,
            view_json(l[i].1),
        ) by {
            if i > 0 {
                assert(view_pairs(l)[i] == view_pairs(l.drop_first())[i - 1]);
                assert(l.drop_first()[i - 1] == l[i]);
            }
        }
    }
}

/// The lower-case hexadecimal digit for a value below sixteen.
pub open spec fn hex_char(d: nat) -> char {
    if d < 10 {
        digit_char(d)
    } else {
        ((87 + d) as u8) as char
    }
}

/// The escaped rendering of one character inside a JSON string literal:
/// quote and backslash get a backslash escape, the named control
/// characters their short forms, other control characters a `\u00..`
/// escape, and everything else stands for itself.
pub open spec fn esc_char(c: char) -> Seq<char> {
    if c == '"' {
        seq!['\\', '"']
    } else if c == '\\' {
        seq!['\\', '\\']
    } else if c == '\u{8}' {
        seq!['\\', 'b']
    } else if c == '\u{c}' {
        seq!['\\', 'f']
    } else if c == '\n' {
        seq!['\\', 'n']
    } else if c == '\r' {
        seq!['\\', 'r']
    } else if c == '\t' {
        seq!['\\', 't']
    } else if (c as u32) < 32 {
        seq!['\\', 'u', '0', '0', hex_char(((c as u32) / 16) as nat), hex_char(
            ((c as u32) % 16) as nat,
        )]
    } else {
        seq![c]
    }
}

/// The escaped rendering of a whole string body.
pub open spec fn esc_str(s: Seq<char>) -> Seq<char>
    decreases s.len(),
{
    if s.len() == 0 {
        Seq::empty()
    } else {
        esc_char(s[0]) + esc_str(s.drop_first())
    }
}

/// A JSON string literal: quotes around the escaped body.
pub open spec fn quoted(s: Seq<char>) -> Seq<char> {
    seq!['"'] + esc_str(s) + seq!['"']
}

/// Compact serialization of a JSON value: no whitespace anywhere.
pub open spec fn ser(v: JsonV) -> Seq<char>
    decreases v,
{
    match v {
        JsonV::Null => seq!['n', 'u', 'l', 'l'],
        JsonV::Bool(b) => if b {
            seq!['t', 'r', 'u', 'e']
        } else {
            seq!['f', 'a', 'l', 's', 'e']
        },
        JsonV::Num(s) => s,
        JsonV::Str(s) => quoted(s),
        JsonV::Arr(elems) => seq!['['] + ser_elems(elems) + seq![']'],
        JsonV::Obj(pairs) => seq!['{'] + ser_pairs(pairs) + seq!['}'],
    }
}

/// The comma-separated compact renderings of array elements.
pub open spec fn ser_elems(elems: Seq<JsonV>) -> Seq<char>
    decreases elems,
{
    if elems.len() == 0 {
        Seq::empty()
    } else if elems.len() == 1 {
        ser(elems[0])
    } else {
        ser(elems[0]) + seq![','] + ser_elems(elems.drop_first())
    }
}

/// The comma-separated compact renderings of object members.
pub open spec fn ser_pairs(pairs: Seq<(Seq<char>, JsonV)>) -> Seq<char>
    decreases pairs,
{
    if pairs.len() == 0 {
        Seq::empty()
    } else if pairs.len() == 1 {
        quoted(pairs[0].0) + seq![':'] + ser(pairs[0].1)
    } else {
        quoted(pairs[0].0) + seq![':'] + ser(pairs[0].1) + seq![','] + ser_pairs(
            pairs.drop_first(),
        )
    }
}

proof fn lemma_ser_elems_snoc(elems: Seq<JsonV>, x: JsonV)
    requires
        elems.len() > 0,
    ensures
        ser_elems(elems.push(x)) == ser_elems(elems) + seq![','] + ser(x),
    decreases elems.len(),
{
    let p = elems.push(x);
    assert(p.len() >= 2);
    assert(p[0] == elems[0]);
    if elems.len() == 1 {
        assert(p.drop_first() =~= seq![x]);
        assert(ser_elems(seq![x]) == ser(x));
        assert(ser_elems(p) == ser(elems[0]) + seq![','] + ser(x));
        assert(ser_elems(elems) == ser(elems[0]));
    } else {
        assert(p.drop_first() =~= elems.drop_first().push(x));
        lemma_ser_elems_snoc(elems.drop_first(), x);
        assert(ser_elems(p) == ser(p[0]) + seq![','] + ser_elems(elems.drop_first().push(x)));
        assert(ser_elems(elems.push(x)) =~= ser_elems(elems) + seq![','] + ser(x));
    }
}

proof fn lemma_ser_pairs_snoc(pairs: Seq<(Seq<char>, JsonV)>, k: Seq<char>, x: JsonV)
    requires
        pairs.len() > 0,
    ensures
        ser_pairs(pairs.push((k, x))) == ser_pairs(pairs) + seq![','] + quoted(k) + seq![':']
            + ser(x),
    decreases pairs.len(),
{
    let p = pairs.push((k, x));
    assert(p.len() >= 2);
    assert(p[0] == pairs[0]);
    if pairs.len() == 1 {
        assert(p.drop_first() =~= seq![(k, x)]);
        assert(ser_pairs(seq![(k, x)]) == quoted(k) + seq![':'] + ser(x));
        assert(ser_pairs(p) =~= ser_pairs(pairs) + seq![','] + quoted(k) + seq![':'] + ser(x));
    } else {
        assert(p.drop_first() =~= pairs.drop_first().push((k, x)));
        lemma_ser_pairs_snoc(pairs.drop_first(), k, x);
        assert(ser_pairs(p) =~= ser_pairs(pairs) + seq![','] + quoted(k) + seq![':'] + ser(x));
    }
}

/// Appends the escaped rendering of one character.
fn write_esc_char(out: &mut Vec<char>, c: char)
    ensures
        final(out)@ == old(out)@ + esc_char(c),
{
    let u = c as u32;
    if c == '"' {
        out.push('\\');
        out.push('"');
    } else if c == '\\' {
        out.push('\\');
        out.push('\\');
    } else if c == '\u{8}' {
        out.push('\\');
        out.push('b');
    } else if c == '\u{c}' {
        out.push('\\');
        out.push('f');
    } else if c == '\n' {
        out.push('\\');
        out.push('n');
    } else if c == '\r' {
        out.push('\\');
        out.push('r');
    } else if c == '\t' {
        out.push('\\');
        out.push('t');
    } else if u < 32 {
        out.push('\\');
        out.push('u');
        out.push('0');
        out.push('0');
        let hi = (u / 16) as u8;
        let lo = (u % 16) as u8;
        out.push(if hi < 10 { (48 + hi) as char } else { (87 + hi) as char });
        out.push(if lo < 10 { (48 + lo) as char } else { (87 + lo) as char });
    } else {
        out.push(c);
    }
    proof {
        assert(out@ =~= old(out)@ + esc_char(c));
    }
}

/// Appends a JSON string literal for the given body.
pub fn write_quoted(out: &mut Vec<char>, s: &Vec<char>)
    ensures
        final(out)@ == old(out)@ + quoted(s@),
{
    out.push('"');
    let mut i: usize = 0;
    while i < s.len()
        invariant
            i <= s@.len(),
            out@ == old(out)@ + seq!['"'] + esc_str(s@.subrange(0, i as int)),
        decreases s@.len() - i,
    {
        proof {
            lemma_esc_str_snoc(s@.subrange(0, i as int), s@[i as int]);
            assert(s@.subrange(0, i as int).push(s@[i as int]) =~= s@.subrange(0, i + 1));
        }
        write_esc_char(out, s[i]);
        i += 1;
    }
    out.push('"');
    proof {
        assert(s@.subrange(0, s@.len() as int) =~= s@);
        assert(out@ =~= old(out)@ + quoted(s@));
    }
}

proof fn lemma_esc_str_snoc(s: Seq<char>, c: char)
    ensures
        esc_str(s.push(c)) == esc_str(s) + esc_char(c),
    decreases s.len(),
{
    let p = s.push(c);
    if s.len() == 0 {
        assert(p.len() == 1);
        assert(p[0] == c);
        assert(p.drop_first() =~= Seq::<char>::empty());
        assert(esc_str(p) == esc_char(p[0]) + esc_str(p.drop_first()));
        assert(esc_str(p.drop_first()) == Seq::<char>::empty());
        assert(esc_str(p) =~= esc_str(s) + esc_char(c));
    } else {
        assert(p[0] == s[0]);
        assert(p.drop_first() =~= s.drop_first().push(c));
        lemma_esc_str_snoc(s.drop_first(), c);
        assert(esc_str(p) =~= esc_str(s) + esc_char(c));
    }
}

/// Appends the compact rendering of a JSON value.
#[verifier::rlimit(60)]
#[verifier::loop_isolation(false)]
pub fn write_json(v: &Json, out: &mut Vec<char>)
    ensures
        final(out)@ == old(out)@ + ser(v@),
    decreases v,
{
    match v {
        Json::Null => {
            out.push('n');
            out.push('u');
            out.push('l');
            out.push('l');
            proof {
                assert(out@ =~= old(out)@ + ser(v@));
            }
        },
        Json::Bool(b) => {
            if *b {
                out.push('t');
                out.push('r');
                out.push('u');
                out.push('e');
            } else {
                out.push('f');
                out.push('a');
                out.push('l');
                out.push('s');
                out.push('e');
            }
            proof {
                assert(out@ =~= old(out)@ + ser(v@));
            }
        },
        Json::Num(s) => {
            let mut i: usize = 0;
            while i < s.len()
                invariant
                    i <= s@.len(),
                    out@ == old(out)@ + s@.subrange(0, i as int),
                decreases s@.len() - i,
            {
                out.push(s[i]);
                proof {
                    assert(s@.subrange(0, i as int).push(s@[i as int]) =~= s@.subrange(
                        0,
                        i + 1,
                    ));
                }
                i += 1;
            }
            proof {
                assert(s@.subrange(0, s@.len() as int) =~= s@);
                assert(out@ =~= old(out)@ + ser(v@));
            }
        },
        Json::Str(s) => {
            write_quoted(out, s);
        },
        Json::Arr(elems) => {
            out.push('[');
            let ghost ev = view_list(elems@);
            proof {
                lemma_view_list_props(elems@);
            }
            let mut i: usize = 0;
            while i < elems.len()
                invariant
                    i <= elems@.len(),
                    out@ == old(out)@ + seq!['['] + ser_elems(ev.subrange(0, i as int)),
                decreases elems@.len() - i,
            {
                if i > 0 {
                    out.push(',');
                }
                proof {
                    assert(*v == Json::Arr(*elems));
                    assert(decreases_to!(*v => *elems));
                    assert(decreases_to!(*elems => elems[i as int]));
                }
                write_json(&elems[i], out);
                proof {
                    let pre = ev.subrange(0, i as int);
                    assert(pre.push(ev[i as int]) =~= ev.subrange(0, i + 1));
                    if i == 0 {
                        assert(ev.subrange(0, 1) =~= seq![ev[0]]);
                        assert(ser_elems(seq![ev[0]]) == ser(ev[0]));
                    } else {
                        lemma_ser_elems_snoc(pre, ev[i as int]);
                    }
                    assert(out@ =~= old(out)@ + seq!['['] + ser_elems(ev.subrange(0, i + 1)));
                }
                i += 1;
            }
            out.push(']');
            proof {
                assert(ev.subrange(0, ev.len() as int) =~= ev);
                assert(out@ =~= old(out)@ + ser(v@));
            }
        },
        Json::Obj(pairs) => {
            out.push('{');
            let ghost pv = view_pairs(pairs@);
            proof {
                lemma_view_pairs_props(pairs@);
            }
            let mut i: usize = 0;
            while i < pairs.len()
                invariant
                    i <= pairs@.len(),
                    out@ == old(out)@ + seq!['{'] + ser_pairs(pv.subrange(0, i as int)),
                decreases pairs@.len() - i,
            {
                if i > 0 {
                    out.push(',');
                }
                write_quoted(out, &pairs[i].0);
                out.push(':');
                proof {
                    assert(*v == Json::Obj(*pairs));
                    assert(decreases_to!(*v => *pairs));
                    assert(decreases_to!(*pairs => pairs[i as int]));
                }
                write_json(&pairs[i].1, out);
                proof {
                    let pre = pv.subrange(0, i as int);
                    assert(pre.push(pv[i as int]) =~= pv.subrange(0, i + 1));
                    if i == 0 {
                        assert(pv.subrange(0, 1) =~= seq![pv[0]]);
                        assert(ser_pairs(seq![pv[0]]) == quoted(pv[0].0) + seq![':'] + ser(
                            pv[0].1,
                        ));
                    } else {
                        lemma_ser_pairs_snoc(pre, pv[i as int].0, pv[i as int].1);
                    }
                    assert(out@ =~= old(out)@ + seq!['{'] + ser_pairs(pv.subrange(0, i + 1)));
                }
                i += 1;
            }
            out.push('}');
            proof {
                assert(pv.subrange(0, pv.len() as int) =~= pv);
                assert(out@ =~= old(out)@ + ser(v@));
            }
        },
    }
}

/// The compact rendering of a JSON value as a fresh vector.
pub fn to_chars(v: &Json) -> (out: Vec<char>)
    ensures
        out@ == ser(v@),
{
    let mut out: Vec<char> = Vec::new();
    write_json(v, &mut out);
    out
}


/// Pretty serialization with two-space indentation: `pad` is the
/// indentation of the enclosing value. Scalars render as in [`ser`]; a
/// non-empty array or object opens on its own line, puts each element on
/// a deeper-indented line, and closes at the enclosing indentation.
pub open spec fn pser(v: JsonV, pad: Seq<char>) -> Seq<char>
    decreases v,
{
    match v {
        JsonV::Null => seq!['n', 'u', 'l', 'l'],
        JsonV::Bool(b) => if b {
            seq!['t', 'r', 'u', 'e']
        } else {
            seq!['f', 'a', 'l', 's', 'e']
        },
        JsonV::Num(s) => s,
        JsonV::Str(s) => quoted(s),
        JsonV::Arr(elems) => if elems.len() == 0 {
            seq!['[', ']']
        } else {
            seq!['[', '\n'] + pser_elems(elems, pad + seq![' ', ' ']) + seq!['\n'] + pad
                + seq![']']
        },
        JsonV::Obj(pairs) => if pairs.len() == 0 {
            seq!['{', '}']
        } else {
            seq!['{', '\n'] + pser_pairs(pairs, pad + seq![' ', ' ']) + seq!['\n'] + pad
                + seq!['}']
        },
    }
}

/// The pretty renderings of array elements, one per line at indentation
/// `pad`, separated by a comma and a newline.
pub open spec fn pser_elems(elems: Seq<JsonV>, pad: Seq<char>) -> Seq<char>
    decreases elems,
{
    if elems.len() == 0 {
        Seq::empty()
    } else if elems.len() == 1 {
        pad + pser(elems[0], pad)
    } else {
        pad + pser(elems[0], pad) + seq![',', '\n'] + pser_elems(elems.drop_first(), pad)
    }
}

/// The pretty renderings of object members, one per line at indentation
/// `pad`, the key separated from the value by a colon and a space.
pub open spec fn pser_pairs(pairs: Seq<(Seq<char>, JsonV)>, pad: Seq<char>) -> Seq<char>
    decreases pairs,
{
    if pairs.len() == 0 {
        Seq::empty()
    } else if pairs.len() == 1 {
        pad + quoted(pairs[0].0) + seq![':', ' '] + pser(pairs[0].1, pad)
    } else {
        pad + quoted(pairs[0].0) + seq![':', ' '] + pser(pairs[0].1, pad) + seq![',', '\n']
            + pser_pairs(pairs.drop_first(), pad)
    }
}

proof fn lemma_pser_elems_snoc(elems: Seq<JsonV>, x: JsonV, pad: Seq<char>)
    requires
        elems.len() > 0,
    ensures
        pser_elems(elems.push(x), pad) == pser_elems(elems, pad) + seq![',', '\n'] + pad + pser(
            x,
            pad,
        ),
    decreases elems.len(),
{
    let p = elems.push(x);
    assert(p[0] == elems[0]);
    if elems.len() == 1 {
        assert(p.drop_first() =~= seq![x]);
        assert(pser_elems(seq![x], pad) == pad + pser(x, pad));
        assert(pser_elems(p, pad) =~= pser_elems(elems, pad) + seq![',', '\n'] + pad + pser(
            x,
            pad,
        ));
    } else {
        assert(p.drop_first() =~= elems.drop_first().push(x));
        lemma_pser_elems_snoc(elems.drop_first(), x, pad);
        assert(pser_elems(p, pad) =~= pser_elems(elems, pad) + seq![',', '\n'] + pad + pser(
            x,
            pad,
        ));
    }
}

proof fn lemma_pser_pairs_snoc(pairs: Seq<(Seq<char>, JsonV)>, k: Seq<char>, x: JsonV, pad: Seq<char>)
    requires
        pairs.len() > 0,
    ensures
        pser_pairs(pairs.push((k, x)), pad) == pser_pairs(pairs, pad) + seq![',', '\n'] + pad
            + quoted(k) + seq![':', ' '] + pser(x, pad),
    decreases pairs.len(),
{
    let p = pairs.push((k, x));
    assert(p[0] == pairs[0]);
    if pairs.len() == 1 {
        assert(p.drop_first() =~= seq![(k, x)]);
        assert(pser_pairs(seq![(k, x)], pad) == pad + quoted(k) + seq![':', ' '] + pser(x, pad));
        assert(pser_pairs(p, pad) =~= pser_pairs(pairs, pad) + seq![',', '\n'] + pad + quoted(k)
            + seq![':', ' '] + pser(x, pad));
    } else {
        assert(p.drop_first() =~= pairs.drop_first().push((k, x)));
        lemma_pser_pairs_snoc(pairs.drop_first(), k, x, pad);
        assert(pser_pairs(p, pad) =~= pser_pairs(pairs, pad) + seq![',', '\n'] + pad + quoted(k)
            + seq![':', ' '] + pser(x, pad));
    }
}

/// Appends the contents of `pad`.
#[verifier::loop_isolation(false)]
fn write_pad(out: &mut Vec<char>, pad: &Vec<char>)
    ensures
        final(out)@ == old(out)@ + pad@,
{
    let mut i: usize = 0;
    while i < pad.len()
        invariant
            i <= pad@.len(),
            out@ == old(out)@ + pad@.subrange(0, i as int),
        decreases pad@.len() - i,
    {
        out.push(pad[i]);
        proof {
            assert(pad@.subrange(0, i as int).push(pad@[i as int]) =~= pad@.subrange(0, i + 1));
        }
        i += 1;
    }
    proof {
        assert(pad@.subrange(0, pad@.len() as int) =~= pad@);
    }
}

/// Appends the pretty rendering of a JSON value at the indentation `pad`.
#[verifier::rlimit(100)]
#[verifier::loop_isolation(false)]
pub fn write_pretty(v: &Json, pad: &Vec<char>, out: &mut Vec<char>)
    ensures
        final(out)@ == old(out)@ + pser(v@, pad@),
    decreases v,
{
    match v {
        Json::Null => {
            out.push('n');
            out.push('u');
            out.push('l');
            out.push('l');
            proof {
                assert(out@ =~= old(out)@ + pser(v@, pad@));
            }
        },
        Json::Bool(b) => {
            if *b {
                out.push('t');
                out.push('r');
                out.push('u');
                out.push('e');
            } else {
                out.push('f');
                out.push('a');
                out.push('l');
                out.push('s');
                out.push('e');
            }
            proof {
                assert(out@ =~= old(out)@ + pser(v@, pad@));
            }
        },
        Json::Num(s) => {
            let mut i: usize = 0;
            while i < s.len()
                invariant
                    i <= s@.len(),
                    out@ == old(out)@ + s@.subrange(0, i as int),
                decreases s@.len() - i,
            {
                out.push(s[i]);
                proof {
                    assert(s@.subrange(0, i as int).push(s@[i as int]) =~= s@.subrange(
                        0,
                        i + 1,
                    ));
                }
                i += 1;
            }
            proof {
                assert(s@.subrange(0, s@.len() as int) =~= s@);
                assert(out@ =~= old(out)@ + pser(v@, pad@));
            }
        },
        Json::Str(s) => {
            write_quoted(out, s);
        },
        Json::Arr(elems) => {
            let ghost ev = view_list(elems@);
            proof {
                lemma_view_list_props(elems@);
            }
            if elems.len() == 0 {
                out.push('[');
                out.push(']');
                proof {
                    assert(out@ =~= old(out)@ + pser(v@, pad@));
                }
            } else {
                let mut pad2: Vec<char> = Vec::new();
                let mut j: usize = 0;
                while j < pad.len()
                    invariant
                        j <= pad@.len(),
                        pad2@ == pad@.subrange(0, j as int),
                    decreases pad@.len() - j,
                {
                    pad2.push(pad[j]);
                    proof {
                        assert(pad@.subrange(0, j as int).push(pad@[j as int]) =~= pad@.subrange(
                            0,
                            j + 1,
                        ));
                    }
                    j += 1;
                }
                pad2.push(' ');
                pad2.push(' ');
                proof {
                    assert(pad@.subrange(0, pad@.len() as int) =~= pad@);
                    assert(pad2@ =~= pad@ + seq![' ', ' ']);
                }
                out.push('[');
                out.push('\n');
                let mut i: usize = 0;
                while i < elems.len()
                    invariant
                        1 <= elems@.len(),
                        i <= elems@.len(),
                        pad2@ == pad@ + seq![' ', ' '],
                        i > 0 ==> out@ == old(out)@ + seq!['[', '\n'] + pser_elems(
                            ev.subrange(0, i as int),
                            pad2@,
                        ),
                        i == 0 ==> out@ == old(out)@ + seq!['[', '\n'],
                    decreases elems@.len() - i,
                {
                    if i > 0 {
                        out.push(',');
                        out.push('\n');
                    }
                    write_pad(out, &pad2);
                    proof {
                        assert(*v == Json::Arr(*elems));
                        assert(decreases_to!(*v => *elems));
                        assert(decreases_to!(*elems => elems[i as int]));
                    }
                    write_pretty(&elems[i], &pad2, out);
                    proof {
                        let pre = ev.subrange(0, i as int);
                        assert(pre.push(ev[i as int]) =~= ev.subrange(0, i + 1));
                        if i == 0 {
                            assert(ev.subrange(0, 1) =~= seq![ev[0]]);
                            assert(pser_elems(seq![ev[0]], pad2@) == pad2@ + pser(ev[0], pad2@));
                        } else {
                            lemma_pser_elems_snoc(pre, ev[i as int], pad2@);
                        }
                        assert(out@ =~= old(out)@ + seq!['[', '\n'] + pser_elems(
                            ev.subrange(0, i + 1),
                            pad2@,
                        ));
                    }
                    i += 1;
                }
                out.push('\n');
                write_pad(out, pad);
                out.push(']');
                proof {
                    assert(ev.subrange(0, ev.len() as int) =~= ev);
                    assert(out@ =~= old(out)@ + pser(v@, pad@));
                }
            }
        },
        Json::Obj(pairs) => {
            let ghost pv = view_pairs(pairs@);
            proof {
                lemma_view_pairs_props(pairs@);
            }
            if pairs.len() == 0 {
                out.push('{');
                out.push('}');
                proof {
                    assert(out@ =~= old(out)@ + pser(v@, pad@));
                }
            } else {
                let mut pad2: Vec<char> = Vec::new();
                let mut j: usize = 0;
                while j < pad.len()
                    invariant
                        j <= pad@.len(),
                        pad2@ == pad@.subrange(0, j as int),
                    decreases pad@.len() - j,
                {
                    pad2.push(pad[j]);
                    proof {
                        assert(pad@.subrange(0, j as int).push(pad@[j as int]) =~= pad@.subrange(
                            0,
                            j + 1,
                        ));
                    }
                    j += 1;
                }
                pad2.push(' ');
                pad2.push(' ');
                proof {
                    assert(pad@.subrange(0, pad@.len() as int) =~= pad@);
                    assert(pad2@ =~= pad@ + seq![' ', ' ']);
                }
                out.push('{');
                out.push('\n');
                let mut i: usize = 0;
                while i < pairs.len()
                    invariant
                        1 <= pairs@.len(),
                        i <= pairs@.len(),
                        pad2@ == pad@ + seq![' ', ' '],
                        i > 0 ==> out@ == old(out)@ + seq!['{', '\n'] + pser_pairs(
                            pv.subrange(0, i as int),
                            pad2@,
                        ),
                        i == 0 ==> out@ == old(out)@ + seq!['{', '\n'],
                    decreases pairs@.len() - i,
                {
                    if i > 0 {
                        out.push(',');
                        out.push('\n');
                    }
                    write_pad(out, &pad2);
                    write_quoted(out, &pairs[i].0);
                    out.push(':');
                    out.push(' ');
                    proof {
                        assert(*v == Json::Obj(*pairs));
                        assert(decreases_to!(*v => *pairs));
                        assert(decreases_to!(*pairs => pairs[i as int]));
                    }
                    write_pretty(&pairs[i].1, &pad2, out);
                    proof {
                        let pre = pv.subrange(0, i as int);
                        assert(pre.push(pv[i as int]) =~= pv.subrange(0, i + 1));
                        if i == 0 {
                            assert(pv.subrange(0, 1) =~= seq![pv[0]]);
                            assert(pser_pairs(seq![pv[0]], pad2@) == pad2@ + quoted(pv[0].0)
                                + seq![':', ' '] + pser(pv[0].1, pad2@));
                        } else {
                            lemma_pser_pairs_snoc(pre, pv[i as int].0, pv[i as int].1, pad2@);
                        }
                        assert(out@ =~= old(out)@ + seq!['{', '\n'] + pser_pairs(
                            pv.subrange(0, i + 1),
                            pad2@,
                        ));
                    }
                    i += 1;
                }
                out.push('\n');
                write_pad(out, pad);
                out.push('}');
                proof {
                    assert(pv.subrange(0, pv.len() as int) =~= pv);
                    assert(out@ =~= old(out)@ + pser(v@, pad@));
                }
            }
        },
    }
}

/// The pretty rendering of a JSON value as a fresh vector, starting at
/// the outermost indentation.
pub fn to_pretty_chars(v: &Json) -> (out: Vec<char>)
    ensures
        out@ == pser(v@, Seq::empty()),
{
    let mut out: Vec<char> = Vec::new();
    let pad: Vec<char> = Vec::new();
    write_pretty(v, &pad, &mut out);
    proof {
        assert(out@ =~= pser(v@, Seq::empty()));
    }
    out
}

} // verus!

