//! The model registry: a fixed ordered catalog of the supported chat
//! models and their short aliases. Lookup is ASCII case-insensitive
//! against a model's primary name or any alias; the first entry is the
//! default model.

use vstd::prelude::*;
use vstd::string::StrSliceExecFns;
use crate::json::{ser, Json, JsonV, view_json, view_list, view_pairs, to_chars};
use crate::text::{chars_to_string, lower_char, lower_seq, str_to_chars, to_lower_char};

verus! {

broadcast use vstd::std_specs::vec::group_vec_axioms;

/// A chat model: its primary name and its short aliases.
#[derive(Debug)]
pub struct Model {
    pub name: String,
    pub aliases: Vec<String>,
}

/// The mathematical content of a registry entry.
pub struct ModelV {
    pub name: Seq<char>,
    pub aliases: Seq<Seq<char>>,
}

impl View for Model {
    type V = ModelV;

    open spec fn view(&self) -> ModelV {
        ModelV { name: self.name@, aliases: self.aliases.deep_view() }
    }
}

/// The fixed registry, in order. The first entry is the default model.
pub open spec fn spec_models() -> Seq<ModelV> {
    seq![
        ModelV { name: "gpt-4o"@, aliases: seq!["4o"@] },
        ModelV { name: "gpt-4"@, aliases: seq!["4"@] },
        ModelV { name: "gpt-4-1106-preview"@, aliases: seq!["128k"@] },
        ModelV { name: "gpt-4-32k"@, aliases: seq!["32k"@] },
        ModelV { name: "gpt-3.5-turbo"@, aliases: seq!["35t"@] },
        ModelV { name: "gpt-3.5-turbo-1106"@, aliases: seq!["35t-1106"@] },
        ModelV { name: "gpt-3.5-turbo-16k"@, aliases: seq!["35t16k"@] },
        ModelV { name: "gpt-3.5"@, aliases: seq!["35"@] },
    ]
}

fn mk_model(name: &str, alias: &str) -> (m: Model)
    ensures
        m@.name == name@,
        m@.aliases == seq![alias@],
{
    let mut aliases: Vec<String> = Vec::new();
    aliases.push(alias.to_owned());
    proof {
        assert(aliases.deep_view() =~= seq![alias@]);
    }
    Model { name: name.to_owned(), aliases }
}

/// Builds the registry as a fresh vector.
pub fn registry() -> (r: Vec<Model>)
    ensures
        r@.len() == spec_models().len(),
        forall|i: int| 0 <= i < r@.len() ==> r@[i]@ == spec_models()[i],
{
    let mut v: Vec<Model> = Vec::new();
    v.push(mk_model("gpt-4o", "4o"));
    v.push(mk_model("gpt-4", "4"));
    v.push(mk_model("gpt-4-1106-preview", "128k"));
    v.push(mk_model("gpt-4-32k", "32k"));
    v.push(mk_model("gpt-3.5-turbo", "35t"));
    v.push(mk_model("gpt-3.5-turbo-1106", "35t-1106"));
    v.push(mk_model("gpt-3.5-turbo-16k", "35t16k"));
    v.push(mk_model("gpt-3.5", "35"));
    v
}

/// Whether the query names this model: the lower-cased query equals the
/// lower-cased primary name or one of the lower-cased aliases.
pub open spec fn matches_model(m: ModelV, q: Seq<char>) -> bool {
    lower_seq(m.name) == lower_seq(q) || exists|k: int|
        0 <= k < m.aliases.len() && lower_seq(m.aliases[k]) == lower_seq(q)
}

/// The first registry entry from index `i` on that the query names.
pub open spec fn spec_find_from(q: Seq<char>, i: int) -> Option<ModelV>
    decreases spec_models().len() - i,
{
    if 0 <= i && i < spec_models().len() {
        if matches_model(spec_models()[i], q) {
            Some(spec_models()[i])
        } else {
            spec_find_from(q, i + 1)
        }
    } else {
        None
    }
}

/// The first registry entry that the query names, if any.
pub open spec fn spec_find(q: Seq<char>) -> Option<ModelV> {
    spec_find_from(q, 0)
}

/// ASCII case-insensitive equality of two strings.
#[verifier::loop_isolation(false)]
fn eq_ignore_case(a: &str, b: &str) -> (r: bool)
    ensures
        r == (lower_seq(a@) == lower_seq(b@)),
{
    let av = str_to_chars(a);
    let bv = str_to_chars(b);
    if av.len() != bv.len() {
        proof {
            assert(lower_seq(a@).len() != lower_seq(b@).len());
        }
        return false;
    }
    let n = av.len();
    let mut i: usize = 0;
    while i < n
        invariant
            i <= n,
            forall|t: int| 0 <= t < i ==> lower_seq(a@)[t] == lower_seq(b@)[t],
        decreases n - i,
    {
        if to_lower_char(av[i]) != to_lower_char(bv[i]) {
            proof {
                assert(lower_seq(a@)[i as int] != lower_seq(b@)[i as int]);
            }
            return false;
        }
        i += 1;
    }
    proof {
        assert(lower_seq(a@) =~= lower_seq(b@));
    }
    true
}

/// Whether the query names the given model.
#[verifier::loop_isolation(false)]
fn model_matches(m: &Model, query: &str) -> (r: bool)
    ensures
        r == matches_model(m@, query@),
{
    if eq_ignore_case(m.name.as_str(), query) {
        return true;
    }
    let n = m.aliases.len();
    let mut k: usize = 0;
    while k < n
        invariant
            k <= n,
            forall|t: int| 0 <= t < k ==> lower_seq(m@.aliases[t]) != lower_seq(query@),
        decreases n - k,
    {
        if eq_ignore_case(m.aliases[k].as_str(), query) {
            proof {
                assert(lower_seq(m@.aliases[k as int]) == lower_seq(query@));
            }
            return true;
        }
        k += 1;
    }
    false
}

/// Looks the query up in the registry, ASCII case-insensitively, against
/// each model's primary name and aliases; absence means no entry matches.
#[verifier::loop_isolation(false)]
pub fn find(query: &str) -> (r: Option<Model>)
    ensures
        match r {
            None => spec_find(query@) is None,
            Some(m) => spec_find(query@) == Some(m@),
        },
{
    let mut reg = registry();
    let n = reg.len();
    let mut i: usize = 0;
    while i < n
        invariant
            i <= n,
            n == reg@.len(),
            reg@.len() == spec_models().len(),
            forall|t: int| 0 <= t < reg@.len() ==> reg@[t]@ == spec_models()[t],
            spec_find(query@) == spec_find_from(query@, i as int),
        decreases n - i,
    {
        if model_matches(&reg[i], query) {
            let m = reg.remove(i);
            return Some(m);
        }
        i += 1;
    }
    None
}

/// The default model: the first registry entry.
pub fn default_model() -> (m: Model)
    ensures
        m@ == spec_models()[0],
{
    let mut reg = registry();
    let m = reg.remove(0);
    m
}

/// The JSON shape of one registry entry: its name and its alias list.
pub open spec fn model_json(m: ModelV) -> JsonV {
    JsonV::Obj(
        seq![
            ("name"@, JsonV::Str(m.name)),
            ("aliases"@, JsonV::Arr(m.aliases.map_values(|a: Seq<char>| JsonV::Str(a)))),
        ],
    )
}

/// The catalog text: the compact JSON rendering of the whole registry.
pub open spec fn spec_models_text() -> Seq<char> {
    ser(JsonV::Arr(spec_models().map_values(|m: ModelV| model_json(m))))
}

fn json_of_model(m: &Model) -> (j: Json)
    ensures
        j@ == model_json(m@),
{
    let mut astrs: Vec<Json> = Vec::new();
    let n = m.aliases.len();
    let mut k: usize = 0;
    while k < n
        invariant
            k <= n,
            n == m.aliases@.len(),
            astrs@.len() == k as int,
            forall|t: int| 0 <= t < k ==> view_json(#[trigger] astrs@[t]) == JsonV::Str(
                m@.aliases[t],
            ),
        decreases n - k,
    {
        astrs.push(Json::Str(str_to_chars(m.aliases[k].as_str())));
        k += 1;
    }
    proof {
        crate::json::lemma_view_list_props(astrs@);
        assert(view_list(astrs@) =~= m@.aliases.map_values(|a: Seq<char>| JsonV::Str(a)));
    }
    let mut pairs: Vec<(Vec<char>, Json)> = Vec::new();
    pairs.push((str_to_chars("name"), Json::Str(str_to_chars(m.name.as_str()))));
    pairs.push((str_to_chars("aliases"), Json::Arr(astrs)));
    proof {
        crate::json::lemma_view_pairs_props(pairs@);
        assert(m@.aliases.subrange(0, m.aliases@.len() as int) =~= m@.aliases);
        assert(view_pairs(pairs@) =~= seq![
            ("name"@, JsonV::Str(m@.name)),
            ("aliases"@, JsonV::Arr(m@.aliases.map_values(|a: Seq<char>| JsonV::Str(a)))),
        ]);
    }
    Json::Obj(pairs)
}

/// Serializes the registry catalog. The result depends on nothing but
/// the fixed registry, so repeated calls return identical text.
#[verifier::loop_isolation(false)]
pub fn models() -> (r: String)
    ensures
        r@ == spec_models_text(),
{
    let reg = registry();
    let mut items: Vec<Json> = Vec::new();
    let n = reg.len();
    let mut i: usize = 0;
    while i < n
        invariant
            i <= n,
            items@.len() == i as int,
            forall|t: int| 0 <= t < i ==> view_json(#[trigger] items@[t]) == model_json(
                spec_models()[t],
            ),
        decreases n - i,
    {
        items.push(json_of_model(&reg[i]));
        i += 1;
    }
    let arr = Json::Arr(items);
    proof {
        crate::json::lemma_view_list_props(items@);
        assert(view_list(items@) =~= spec_models().map_values(|m: ModelV| model_json(m)));
        assert(arr@ == JsonV::Arr(view_list(items@)));
    }
    let out = to_chars(&arr);
    chars_to_string(&out)
}


proof fn lemma_lower_ne_at(a: Seq<char>, b: Seq<char>, k: int)
    requires
        0 <= k < a.len(),
        0 <= k < b.len(),
        lower_char(a[k]) != lower_char(b[k]),
    ensures
        lower_seq(a) != lower_seq(b),
{
    assert(lower_seq(a)[k] == lower_char(a[k]));
    assert(lower_seq(b)[k] == lower_char(b[k]));
}

/// Registry lookup is insensitive to ASCII case: queries with the same
/// lower-cased characters resolve to the same entry.
pub proof fn lemma_find_case_insensitive(a: Seq<char>, b: Seq<char>)
    requires
        lower_seq(a) == lower_seq(b),
    ensures
        spec_find(a) == spec_find(b),
{
    lemma_find_from_ci(a, b, 0);
}

proof fn lemma_find_from_ci(a: Seq<char>, b: Seq<char>, i: int)
    requires
        lower_seq(a) == lower_seq(b),
    ensures
        spec_find_from(a, i) == spec_find_from(b, i),
    decreases spec_models().len() - i,
{
    if 0 <= i && i < spec_models().len() {
        assert(matches_model(spec_models()[i], a) == matches_model(spec_models()[i], b));
        lemma_find_from_ci(a, b, i + 1);
    }
}

proof fn lemma_lower_ne_len(a: Seq<char>, b: Seq<char>)
    requires
        a.len() != b.len(),
    ensures
        lower_seq(a) != lower_seq(b),
{
    assert(lower_seq(a).len() == a.len());
    assert(lower_seq(b).len() == b.len());
}

proof fn lemma_no_match(m: ModelV, q: Seq<char>)
    requires
        m.aliases.len() == 1,
        lower_seq(m.name) != lower_seq(q),
        lower_seq(m.aliases[0]) != lower_seq(q),
    ensures
        !matches_model(m, q),
{
    assert forall|k: int| 0 <= k < m.aliases.len() implies lower_seq(m.aliases[k]) != lower_seq(
        q,
    ) by {
        assert(k == 0);
    }
}

/// Every registry entry is found under its own primary name and under
/// each of its aliases; together with case-insensitivity, any spelling
/// of a name or alias resolves to that entry.
#[verifier::rlimit(100)]
pub proof fn lemma_registry_lookup()
    ensures
        forall|i: int| 0 <= i < spec_models().len() ==> #[trigger] spec_find(
            spec_models()[i].name,
        ) == Some(spec_models()[i]),
        forall|i: int, k: int|
            0 <= i < spec_models().len() && 0 <= k < spec_models()[i].aliases.len()
                ==> #[trigger] spec_find(spec_models()[i].aliases[k]) == Some(spec_models()[i]),
{
    reveal_strlit("gpt-4o");
    reveal_strlit("4o");
    reveal_strlit("gpt-4");
    reveal_strlit("4");
    reveal_strlit("gpt-4-1106-preview");
    reveal_strlit("128k");
    reveal_strlit("gpt-4-32k");
    reveal_strlit("32k");
    reveal_strlit("gpt-3.5-turbo");
    reveal_strlit("35t");
    reveal_strlit("gpt-3.5-turbo-1106");
    reveal_strlit("35t-1106");
    reveal_strlit("gpt-3.5-turbo-16k");
    reveal_strlit("35t16k");
    reveal_strlit("gpt-3.5");
    reveal_strlit("35");
    // lookup of "gpt-4o"
    {
        assert(matches_model(spec_models()[0], "gpt-4o"@));
        lemma_lookup_one(0, "gpt-4o"@);
        assert(spec_find("gpt-4o"@) == Some(spec_models()[0]));
    }
    // lookup of "4o"
    {
        assert(0 <= 0 < spec_models()[0].aliases.len() && lower_seq(spec_models()[0].aliases[0]) == lower_seq("4o"@));
        assert(matches_model(spec_models()[0], "4o"@));
        lemma_lookup_one(0, "4o"@);
        assert(spec_find("4o"@) == Some(spec_models()[0]));
    }
    // lookup of "gpt-4"
    {
        lemma_lower_ne_len("gpt-4o"@, "gpt-4"@);
        lemma_lower_ne_len("4o"@, "gpt-4"@);
        lemma_no_match(spec_models()[0], "gpt-4"@);
        assert(matches_model(spec_models()[1], "gpt-4"@));
        lemma_lookup_one(1, "gpt-4"@);
        assert(spec_find("gpt-4"@) == Some(spec_models()[1]));
    }
    // lookup of "4"
    {
        lemma_lower_ne_len("gpt-4o"@, "4"@);
        lemma_lower_ne_len("4o"@, "4"@);
        lemma_no_match(spec_models()[0], "4"@);
        assert(0 <= 0 < spec_models()[1].aliases.len() && lower_seq(spec_models()[1].aliases[0]) == lower_seq("4"@));
        assert(matches_model(spec_models()[1], "4"@));
        lemma_lookup_one(1, "4"@);
        assert(spec_find("4"@) == Some(spec_models()[1]));
    }
    // lookup of "gpt-4-1106-preview"
    {
        lemma_lower_ne_len("gpt-4o"@, "gpt-4-1106-preview"@);
        lemma_lower_ne_len("4o"@, "gpt-4-1106-preview"@);
        lemma_no_match(spec_models()[0], "gpt-4-1106-preview"@);
        lemma_lower_ne_len("gpt-4"@, "gpt-4-1106-preview"@);
        lemma_lower_ne_len("4"@, "gpt-4-1106-preview"@);
        lemma_no_match(spec_models()[1], "gpt-4-1106-preview"@);
        assert(matches_model(spec_models()[2], "gpt-4-1106-preview"@));
        lemma_lookup_one(2, "gpt-4-1106-preview"@);
        assert(spec_find("gpt-4-1106-preview"@) == Some(spec_models()[2]));
    }
    // lookup of "128k"
    {
        lemma_lower_ne_len("gpt-4o"@, "128k"@);
        lemma_lower_ne_len("4o"@, "128k"@);
        lemma_no_match(spec_models()[0], "128k"@);
        lemma_lower_ne_len("gpt-4"@, "128k"@);
        lemma_lower_ne_len("4"@, "128k"@);
        lemma_no_match(spec_models()[1], "128k"@);
        assert(0 <= 0 < spec_models()[2].aliases.len() && lower_seq(spec_models()[2].aliases[0]) == lower_seq("128k"@));
        assert(matches_model(spec_models()[2], "128k"@));
        lemma_lookup_one(2, "128k"@);
        assert(spec_find("128k"@) == Some(spec_models()[2]));
    }
    // lookup of "gpt-4-32k"
    {
        lemma_lower_ne_len("gpt-4o"@, "gpt-4-32k"@);
        lemma_lower_ne_len("4o"@, "gpt-4-32k"@);
        lemma_no_match(spec_models()[0], "gpt-4-32k"@);
        lemma_lower_ne_len("gpt-4"@, "gpt-4-32k"@);
        lemma_lower_ne_len("4"@, "gpt-4-32k"@);
        lemma_no_match(spec_models()[1], "gpt-4-32k"@);
        lemma_lower_ne_len("gpt-4-1106-preview"@, "gpt-4-32k"@);
        lemma_lower_ne_len("128k"@, "gpt-4-32k"@);
        lemma_no_match(spec_models()[2], "gpt-4-32k"@);
        assert(matches_model(spec_models()[3], "gpt-4-32k"@));
        lemma_lookup_one(3, "gpt-4-32k"@);
        assert(spec_find("gpt-4-32k"@) == Some(spec_models()[3]));
    }
    // lookup of "32k"
    {
        lemma_lower_ne_len("gpt-4o"@, "32k"@);
        lemma_lower_ne_len("4o"@, "32k"@);
        lemma_no_match(spec_models()[0], "32k"@);
        lemma_lower_ne_len("gpt-4"@, "32k"@);
        lemma_lower_ne_len("4"@, "32k"@);
        lemma_no_match(spec_models()[1], "32k"@);
        lemma_lower_ne_len("gpt-4-1106-preview"@, "32k"@);
        lemma_lower_ne_len("128k"@, "32k"@);
        lemma_no_match(spec_models()[2], "32k"@);
        assert(0 <= 0 < spec_models()[3].aliases.len() && lower_seq(spec_models()[3].aliases[0]) == lower_seq("32k"@));
        assert(matches_model(spec_models()[3], "32k"@));
        lemma_lookup_one(3, "32k"@);
        assert(spec_find("32k"@) == Some(spec_models()[3]));
    }
    // lookup of "gpt-3.5-turbo"
    {
        lemma_lower_ne_len("gpt-4o"@, "gpt-3.5-turbo"@);
        lemma_lower_ne_len("4o"@, "gpt-3.5-turbo"@);
        lemma_no_match(spec_models()[0], "gpt-3.5-turbo"@);
        lemma_lower_ne_len("gpt-4"@, "gpt-3.5-turbo"@);
        lemma_lower_ne_len("4"@, "gpt-3.5-turbo"@);
        lemma_no_match(spec_models()[1], "gpt-3.5-turbo"@);
        lemma_lower_ne_len("gpt-4-1106-preview"@, "gpt-3.5-turbo"@);
        lemma_lower_ne_len("128k"@, "gpt-3.5-turbo"@);
        lemma_no_match(spec_models()[2], "gpt-3.5-turbo"@);
        lemma_lower_ne_len("gpt-4-32k"@, "gpt-3.5-turbo"@);
        lemma_lower_ne_len("32k"@, "gpt-3.5-turbo"@);
        lemma_no_match(spec_models()[3], "gpt-3.5-turbo"@);
        assert(matches_model(spec_models()[4], "gpt-3.5-turbo"@));
        lemma_lookup_one(4, "gpt-3.5-turbo"@);
        assert(spec_find("gpt-3.5-turbo"@) == Some(spec_models()[4]));
    }
    // lookup of "35t"
    {
        lemma_lower_ne_len("gpt-4o"@, "35t"@);
        lemma_lower_ne_len("4o"@, "35t"@);
        lemma_no_match(spec_models()[0], "35t"@);
        lemma_lower_ne_len("gpt-4"@, "35t"@);
        lemma_lower_ne_len("4"@, "35t"@);
        lemma_no_match(spec_models()[1], "35t"@);
        lemma_lower_ne_len("gpt-4-1106-preview"@, "35t"@);
        lemma_lower_ne_len("128k"@, "35t"@);
        lemma_no_match(spec_models()[2], "35t"@);
        lemma_lower_ne_len("gpt-4-32k"@, "35t"@);
        lemma_lower_ne_at("32k"@, "35t"@, 1);
        lemma_no_match(spec_models()[3], "35t"@);
        assert(0 <= 0 < spec_models()[4].aliases.len() && lower_seq(spec_models()[4].aliases[0]) == lower_seq("35t"@));
        assert(matches_model(spec_models()[4], "35t"@));
        lemma_lookup_one(4, "35t"@);
        assert(spec_find("35t"@) == Some(spec_models()[4]));
    }
    // lookup of "gpt-3.5-turbo-1106"
    {
        lemma_lower_ne_len("gpt-4o"@, "gpt-3.5-turbo-1106"@);
        lemma_lower_ne_len("4o"@, "gpt-3.5-turbo-1106"@);
        lemma_no_match(spec_models()[0], "gpt-3.5-turbo-1106"@);
        lemma_lower_ne_len("gpt-4"@, "gpt-3.5-turbo-1106"@);
        lemma_lower_ne_len("4"@, "gpt-3.5-turbo-1106"@);
        lemma_no_match(spec_models()[1], "gpt-3.5-turbo-1106"@);
        lemma_lower_ne_at("gpt-4-1106-preview"@, "gpt-3.5-turbo-1106"@, 4);
        lemma_lower_ne_len("128k"@, "gpt-3.5-turbo-1106"@);
        lemma_no_match(spec_models()[2], "gpt-3.5-turbo-1106"@);
        lemma_lower_ne_len("gpt-4-32k"@, "gpt-3.5-turbo-1106"@);
        lemma_lower_ne_len("32k"@, "gpt-3.5-turbo-1106"@);
        lemma_no_match(spec_models()[3], "gpt-3.5-turbo-1106"@);
        lemma_lower_ne_len("gpt-3.5-turbo"@, "gpt-3.5-turbo-1106"@);
        lemma_lower_ne_len("35t"@, "gpt-3.5-turbo-1106"@);
        lemma_no_match(spec_models()[4], "gpt-3.5-turbo-1106"@);
        assert(matches_model(spec_models()[5], "gpt-3.5-turbo-1106"@));
        lemma_lookup_one(5, "gpt-3.5-turbo-1106"@);
        assert(spec_find("gpt-3.5-turbo-1106"@) == Some(spec_models()[5]));
    }
    // lookup of "35t-1106"
    {
        lemma_lower_ne_len("gpt-4o"@, "35t-1106"@);
        lemma_lower_ne_len("4o"@, "35t-1106"@);
        lemma_no_match(spec_models()[0], "35t-1106"@);
        lemma_lower_ne_len("gpt-4"@, "35t-1106"@);
        lemma_lower_ne_len("4"@, "35t-1106"@);
        lemma_no_match(spec_models()[1], "35t-1106"@);
        lemma_lower_ne_len("gpt-4-1106-preview"@, "35t-1106"@);
        lemma_lower_ne_len("128k"@, "35t-1106"@);
        lemma_no_match(spec_models()[2], "35t-1106"@);
        lemma_lower_ne_len("gpt-4-32k"@, "35t-1106"@);
        lemma_lower_ne_len("32k"@, "35t-1106"@);
        lemma_no_match(spec_models()[3], "35t-1106"@);
        lemma_lower_ne_len("gpt-3.5-turbo"@, "35t-1106"@);
        lemma_lower_ne_len("35t"@, "35t-1106"@);
        lemma_no_match(spec_models()[4], "35t-1106"@);
        assert(0 <= 0 < spec_models()[5].aliases.len() && lower_seq(spec_models()[5].aliases[0]) == lower_seq("35t-1106"@));
        assert(matches_model(spec_models()[5], "35t-1106"@));
        lemma_lookup_one(5, "35t-1106"@);
        assert(spec_find("35t-1106"@) == Some(spec_models()[5]));
    }
    // lookup of "gpt-3.5-turbo-16k"
    {
        lemma_lower_ne_len("gpt-4o"@, "gpt-3.5-turbo-16k"@);
        lemma_lower_ne_len("4o"@, "gpt-3.5-turbo-16k"@);
        lemma_no_match(spec_models()[0], "gpt-3.5-turbo-16k"@);
        lemma_lower_ne_len("gpt-4"@, "gpt-3.5-turbo-16k"@);
        lemma_lower_ne_len("4"@, "gpt-3.5-turbo-16k"@);
        lemma_no_match(spec_models()[1], "gpt-3.5-turbo-16k"@);
        lemma_lower_ne_len("gpt-4-1106-preview"@, "gpt-3.5-turbo-16k"@);
        lemma_lower_ne_len("128k"@, "gpt-3.5-turbo-16k"@);
        lemma_no_match(spec_models()[2], "gpt-3.5-turbo-16k"@);
        lemma_lower_ne_len("gpt-4-32k"@, "gpt-3.5-turbo-16k"@);
        lemma_lower_ne_len("32k"@, "gpt-3.5-turbo-16k"@);
        lemma_no_match(spec_models()[3], "gpt-3.5-turbo-16k"@);
        lemma_lower_ne_len("gpt-3.5-turbo"@, "gpt-3.5-turbo-16k"@);
        lemma_lower_ne_len("35t"@, "gpt-3.5-turbo-16k"@);
        lemma_no_match(spec_models()[4], "gpt-3.5-turbo-16k"@);
        lemma_lower_ne_len("gpt-3.5-turbo-1106"@, "gpt-3.5-turbo-16k"@);
        lemma_lower_ne_len("35t-1106"@, "gpt-3.5-turbo-16k"@);
        lemma_no_match(spec_models()[5], "gpt-3.5-turbo-16k"@);
        assert(matches_model(spec_models()[6], "gpt-3.5-turbo-16k"@));
        lemma_lookup_one(6, "gpt-3.5-turbo-16k"@);
        assert(spec_find("gpt-3.5-turbo-16k"@) == Some(spec_models()[6]));
    }
    // lookup of "35t16k"
    {
        lemma_lower_ne_at("gpt-4o"@, "35t16k"@, 0);
        lemma_lower_ne_len("4o"@, "35t16k"@);
        lemma_no_match(spec_models()[0], "35t16k"@);
        lemma_lower_ne_len("gpt-4"@, "35t16k"@);
        lemma_lower_ne_len("4"@, "35t16k"@);
        lemma_no_match(spec_models()[1], "35t16k"@);
        lemma_lower_ne_len("gpt-4-1106-preview"@, "35t16k"@);
        lemma_lower_ne_len("128k"@, "35t16k"@);
        lemma_no_match(spec_models()[2], "35t16k"@);
        lemma_lower_ne_len("gpt-4-32k"@, "35t16k"@);
        lemma_lower_ne_len("32k"@, "35t16k"@);
        lemma_no_match(spec_models()[3], "35t16k"@);
        lemma_lower_ne_len("gpt-3.5-turbo"@, "35t16k"@);
        lemma_lower_ne_len("35t"@, "35t16k"@);
        lemma_no_match(spec_models()[4], "35t16k"@);
        lemma_lower_ne_len("gpt-3.5-turbo-1106"@, "35t16k"@);
        lemma_lower_ne_len("35t-1106"@, "35t16k"@);
        lemma_no_match(spec_models()[5], "35t16k"@);
        assert(0 <= 0 < spec_models()[6].aliases.len() && lower_seq(spec_models()[6].aliases[0]) == lower_seq("35t16k"@));
        assert(matches_model(spec_models()[6], "35t16k"@));
        lemma_lookup_one(6, "35t16k"@);
        assert(spec_find("35t16k"@) == Some(spec_models()[6]));
    }
    // lookup of "gpt-3.5"
    {
        lemma_lower_ne_len("gpt-4o"@, "gpt-3.5"@);
        lemma_lower_ne_len("4o"@, "gpt-3.5"@);
        lemma_no_match(spec_models()[0], "gpt-3.5"@);
        lemma_lower_ne_len("gpt-4"@, "gpt-3.5"@);
        lemma_lower_ne_len("4"@, "gpt-3.5"@);
        lemma_no_match(spec_models()[1], "gpt-3.5"@);
        lemma_lower_ne_len("gpt-4-1106-preview"@, "gpt-3.5"@);
        lemma_lower_ne_len("128k"@, "gpt-3.5"@);
        lemma_no_match(spec_models()[2], "gpt-3.5"@);
        lemma_lower_ne_len("gpt-4-32k"@, "gpt-3.5"@);
        lemma_lower_ne_len("32k"@, "gpt-3.5"@);
        lemma_no_match(spec_models()[3], "gpt-3.5"@);
        lemma_lower_ne_len("gpt-3.5-turbo"@, "gpt-3.5"@);
        lemma_lower_ne_len("35t"@, "gpt-3.5"@);
        lemma_no_match(spec_models()[4], "gpt-3.5"@);
        lemma_lower_ne_len("gpt-3.5-turbo-1106"@, "gpt-3.5"@);
        lemma_lower_ne_len("35t-1106"@, "gpt-3.5"@);
        lemma_no_match(spec_models()[5], "gpt-3.5"@);
        lemma_lower_ne_len("gpt-3.5-turbo-16k"@, "gpt-3.5"@);
        lemma_lower_ne_len("35t16k"@, "gpt-3.5"@);
        lemma_no_match(spec_models()[6], "gpt-3.5"@);
        assert(matches_model(spec_models()[7], "gpt-3.5"@));
        lemma_lookup_one(7, "gpt-3.5"@);
        assert(spec_find("gpt-3.5"@) == Some(spec_models()[7]));
    }
    // lookup of "35"
    {
        lemma_lower_ne_len("gpt-4o"@, "35"@);
        lemma_lower_ne_at("4o"@, "35"@, 0);
        lemma_no_match(spec_models()[0], "35"@);
        lemma_lower_ne_len("gpt-4"@, "35"@);
        lemma_lower_ne_len("4"@, "35"@);
        lemma_no_match(spec_models()[1], "35"@);
        lemma_lower_ne_len("gpt-4-1106-preview"@, "35"@);
        lemma_lower_ne_len("128k"@, "35"@);
        lemma_no_match(spec_models()[2], "35"@);
        lemma_lower_ne_len("gpt-4-32k"@, "35"@);
        lemma_lower_ne_len("32k"@, "35"@);
        lemma_no_match(spec_models()[3], "35"@);
        lemma_lower_ne_len("gpt-3.5-turbo"@, "35"@);
        lemma_lower_ne_len("35t"@, "35"@);
        lemma_no_match(spec_models()[4], "35"@);
        lemma_lower_ne_len("gpt-3.5-turbo-1106"@, "35"@);
        lemma_lower_ne_len("35t-1106"@, "35"@);
        lemma_no_match(spec_models()[5], "35"@);
        lemma_lower_ne_len("gpt-3.5-turbo-16k"@, "35"@);
        lemma_lower_ne_len("35t16k"@, "35"@);
        lemma_no_match(spec_models()[6], "35"@);
        assert(0 <= 0 < spec_models()[7].aliases.len() && lower_seq(spec_models()[7].aliases[0]) == lower_seq("35"@));
        assert(matches_model(spec_models()[7], "35"@));
        lemma_lookup_one(7, "35"@);
        assert(spec_find("35"@) == Some(spec_models()[7]));
    }
    assert forall|i: int| 0 <= i < spec_models().len() implies #[trigger] spec_find(
        spec_models()[i].name,
    ) == Some(spec_models()[i]) by {}
    assert forall|i: int, k: int|
        0 <= i < spec_models().len() && 0 <= k < spec_models()[i].aliases.len() implies #[trigger] spec_find(
        spec_models()[i].aliases[k],
    ) == Some(spec_models()[i]) by {
        assert(k == 0);
    }
}

proof fn lemma_lookup_one(i: int, q: Seq<char>)
    requires
        0 <= i < spec_models().len(),
        matches_model(spec_models()[i], q),
        forall|j: int| 0 <= j < i ==> !matches_model(#[trigger] spec_models()[j], q),
    ensures
        spec_find(q) == Some(spec_models()[i]),
{
    lemma_lookup_from(i, q, 0);
}

proof fn lemma_lookup_from(i: int, q: Seq<char>, j: int)
    requires
        0 <= j <= i < spec_models().len(),
        matches_model(spec_models()[i], q),
        forall|t: int| j <= t < i ==> !matches_model(#[trigger] spec_models()[t], q),
    ensures
        spec_find_from(q, j) == Some(spec_models()[i]),
    decreases i - j,
{
    if j < i {
        assert(!matches_model(spec_models()[j], q));
        lemma_lookup_from(i, q, j + 1);
    }
}

} // verus!
