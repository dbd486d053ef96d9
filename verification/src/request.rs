//! Request construction: the caller-facing tool and message types, and
//! the builder that turns settings, a prompt and optional tools into the
//! provider's JSON request body.

use vstd::prelude::*;
use vstd::string::StrSliceExecFns;
use crate::config::{Settings, SettingsV};
use crate::json::{ser, to_chars, view_json, view_list, view_pairs, Json, JsonV,
    lemma_view_list_props, lemma_view_pairs_props};
use crate::text::{chars_to_string, str_to_chars};

verus! {

broadcast use vstd::std_specs::vec::group_vec_axioms;

/// The JSON-schema description of a tool's parameters.
pub struct InputSchema {
    /// The schema type, conventionally `object`.
    pub data_type: String,
    /// Property names with their schema fragments, in order.
    pub properties: Vec<(Vec<char>, Json)>,
    /// The names of the required properties.
    pub required: Vec<String>,
}

/// The mathematical content of an input schema.
pub struct InputSchemaV {
    pub data_type: Seq<char>,
    pub properties: Seq<(Seq<char>, JsonV)>,
    pub required: Seq<Seq<char>>,
}

impl View for InputSchema {
    type V = InputSchemaV;

    open spec fn view(&self) -> InputSchemaV {
        InputSchemaV {
            data_type: self.data_type@,
            properties: view_pairs(self.properties@),
            required: self.required.deep_view(),
        }
    }
}

/// One conversational turn supplied by the caller.
pub struct Message {
    pub role: String,
    pub content: String,
}

/// The mathematical content of a message.
pub struct MessageV {
    pub role: Seq<char>,
    pub content: Seq<char>,
}

impl View for Message {
    type V = MessageV;

    open spec fn view(&self) -> MessageV {
        MessageV { role: self.role@, content: self.content@ }
    }
}

/// A tool offered to the model.
pub struct Tool {
    pub name: Option<String>,
    pub description: Option<String>,
    pub input_schema: InputSchema,
    /// The tool kind, conventionally `function`.
    pub tool_type: String,
}

/// The mathematical content of a tool.
pub struct ToolV {
    pub name: Option<Seq<char>>,
    pub description: Option<Seq<char>>,
    pub input_schema: InputSchemaV,
    pub tool_type: Seq<char>,
}

impl View for Tool {
    type V = ToolV;

    open spec fn view(&self) -> ToolV {
        ToolV {
            name: match self.name {
                None => None,
                Some(s) => Some(s@),
            },
            description: match self.description {
                None => None,
                Some(s) => Some(s@),
            },
            input_schema: self.input_schema@,
            tool_type: self.tool_type@,
        }
    }
}

/// The caller payload for the tool-enabled entry point.
pub struct CompletionToolInput {
    pub tools: Vec<Tool>,
    pub messages: Vec<Message>,
}

/// An option's contents, or the empty string.
pub open spec fn or_empty(o: Option<Seq<char>>) -> Seq<char> {
    match o {
        None => Seq::empty(),
        Some(s) => s,
    }
}

/// The provider shape of one tool: the kind `function` and a `function`
/// object holding name, description (each defaulting to empty) and the
/// parameters with the schema type renamed to `type`.
pub open spec fn wrapped_tool_json(t: ToolV) -> JsonV {
    JsonV::Obj(
        seq![
            ("type"@, JsonV::Str("function"@)),
            (
                "function"@,
                JsonV::Obj(
                    seq![
                        ("name"@, JsonV::Str(or_empty(t.name))),
                        ("description"@, JsonV::Str(or_empty(t.description))),
                        (
                            "parameters"@,
                            JsonV::Obj(
                                seq![
                                    ("type"@, JsonV::Str(t.input_schema.data_type)),
                                    ("properties"@, JsonV::Obj(t.input_schema.properties)),
                                    (
                                        "required"@,
                                        JsonV::Arr(
                                            t.input_schema.required.map_values(
                                                |s: Seq<char>| JsonV::Str(s),
                                            ),
                                        ),
                                    ),
                                ],
                            ),
                        ),
                    ],
                ),
            ),
        ],
    )
}

/// The provider shape of one chat message.
pub open spec fn message_json(role: Seq<char>, content: Seq<char>) -> JsonV {
    JsonV::Obj(seq![("role"@, JsonV::Str(role)), ("content"@, JsonV::Str(content))])
}

/// The request body: model, temperature and the two messages (the system
/// message always present, its content the configured role), and, only
/// when at least one tool is supplied, the wrapped tools with
/// `tool_choice` set to `required`.
pub open spec fn request_json(s: SettingsV, prompt: Seq<char>, tools: Option<Seq<ToolV>>) -> JsonV {
    let base = seq![
        ("model"@, JsonV::Str(s.model.name)),
        ("temperature"@, JsonV::Num(s.temperature)),
        (
            "messages"@,
            JsonV::Arr(seq![message_json("system"@, s.role), message_json("user"@, prompt)]),
        ),
    ];
    let wt = match tools {
        None => Seq::<ToolV>::empty(),
        Some(ts) => ts,
    };
    if wt.len() == 0 {
        JsonV::Obj(base)
    } else {
        JsonV::Obj(
            base + seq![
                ("tools"@, JsonV::Arr(wt.map_values(|t: ToolV| wrapped_tool_json(t)))),
                ("tool_choice"@, JsonV::Str("required"@)),
            ],
        )
    }
}

/// The serialized request body.
pub open spec fn spec_request_body(
    s: SettingsV,
    prompt: Seq<char>,
    tools: Option<Seq<ToolV>>,
) -> Seq<char> {
    ser(request_json(s, prompt, tools))
}

/// The view of an optional tool list.
pub open spec fn tools_view(tools: Option<Vec<Tool>>) -> Option<Seq<ToolV>> {
    match tools {
        None => None,
        Some(ts) => Some(ts@.map_values(|t: Tool| t@)),
    }
}

fn str_json(s: &str) -> (j: Json)
    ensures
        j@ == JsonV::Str(s@),
{
    Json::Str(str_to_chars(s))
}

/// Builds the wrapped provider shape of one tool.
#[verifier::rlimit(100)]
#[verifier::loop_isolation(false)]
fn wrapped_tool(t: Tool) -> (j: Json)
    ensures
        j@ == wrapped_tool_json(t@),
{
    let ghost tv = t@;
    let Tool { name, description, input_schema, tool_type: _ } = t;
    let InputSchema { data_type, properties, required } = input_schema;
    let mut req_arr: Vec<Json> = Vec::new();
    let n = required.len();
    let mut k: usize = 0;
    while k < n
        invariant
            k <= n,
            n == required@.len(),
            req_arr@.len() == k as int,
            forall|x: int| 0 <= x < k ==> view_json(#[trigger] req_arr@[x]) == JsonV::Str(
                required@[x]@,
            ),
        decreases n - k,
    {
        req_arr.push(str_json(required[k].as_str()));
        k += 1;
    }
    proof {
        lemma_view_list_props(req_arr@);
        assert(view_list(req_arr@) =~= tv.input_schema.required.map_values(
            |s: Seq<char>| JsonV::Str(s),
        ));
    }
    let mut params: Vec<(Vec<char>, Json)> = Vec::new();
    params.push((str_to_chars("type"), Json::Str(str_to_chars(data_type.as_str()))));
    params.push((str_to_chars("properties"), Json::Obj(properties)));
    params.push((str_to_chars("required"), Json::Arr(req_arr)));
    proof {
        lemma_view_pairs_props(params@);
        assert(view_pairs(params@) =~= seq![
            ("type"@, JsonV::Str(tv.input_schema.data_type)),
            ("properties"@, JsonV::Obj(tv.input_schema.properties)),
            (
                "required"@,
                JsonV::Arr(tv.input_schema.required.map_values(|s: Seq<char>| JsonV::Str(s))),
            ),
        ]);
    }
    let name_s: String = match name {
        None => String::new(),
        Some(s) => s,
    };
    let desc_s: String = match description {
        None => String::new(),
        Some(s) => s,
    };
    let mut func: Vec<(Vec<char>, Json)> = Vec::new();
    func.push((str_to_chars("name"), Json::Str(str_to_chars(name_s.as_str()))));
    func.push((str_to_chars("description"), Json::Str(str_to_chars(desc_s.as_str()))));
    func.push((str_to_chars("parameters"), Json::Obj(params)));
    proof {
        lemma_view_pairs_props(func@);
        assert(view_pairs(func@) =~= seq![
            ("name"@, JsonV::Str(or_empty(tv.name))),
            ("description"@, JsonV::Str(or_empty(tv.description))),
            (
                "parameters"@,
                JsonV::Obj(
                    seq![
                        ("type"@, JsonV::Str(tv.input_schema.data_type)),
                        ("properties"@, JsonV::Obj(tv.input_schema.properties)),
                        (
                            "required"@,
                            JsonV::Arr(
                                tv.input_schema.required.map_values(
                                    |s: Seq<char>| JsonV::Str(s),
                                ),
                            ),
                        ),
                    ],
                ),
            ),
        ]);
    }
    let mut top: Vec<(Vec<char>, Json)> = Vec::new();
    top.push((str_to_chars("type"), str_json("function")));
    top.push((str_to_chars("function"), Json::Obj(func)));
    proof {
        lemma_view_pairs_props(top@);
        assert(view_pairs(top@) =~= wrapped_tool_json(tv)->Obj_0);
    }
    Json::Obj(top)
}

fn msg_json(role: &str, content: &str) -> (j: Json)
    ensures
        j@ == message_json(role@, content@),
{
    let mut pairs: Vec<(Vec<char>, Json)> = Vec::new();
    pairs.push((str_to_chars("role"), str_json(role)));
    pairs.push((str_to_chars("content"), str_json(content)));
    proof {
        lemma_view_pairs_props(pairs@);
        assert(view_pairs(pairs@) =~= seq![
            ("role"@, JsonV::Str(role@)),
            ("content"@, JsonV::Str(content@)),
        ]);
    }
    Json::Obj(pairs)
}

/// Builds the provider's JSON request body. The `tools` and
/// `tool_choice` members are present exactly when at least one tool is
/// supplied.
#[verifier::rlimit(100)]
#[verifier::loop_isolation(false)]
pub fn build_request_body(settings: &Settings, prompt: &str, tools: Option<Vec<Tool>>) -> (r:
    String)
    ensures
        r@ == spec_request_body(settings@, prompt@, tools_view(tools)),
{
    let ghost gtools = tools_view(tools);
    let mut msgs: Vec<Json> = Vec::new();
    msgs.push(msg_json("system", settings.role.as_str()));
    msgs.push(msg_json("user", prompt));
    proof {
        lemma_view_list_props(msgs@);
        assert(view_list(msgs@) =~= seq![
            message_json("system"@, settings@.role),
            message_json("user"@, prompt@),
        ]);
    }
    let mut pairs: Vec<(Vec<char>, Json)> = Vec::new();
    pairs.push((str_to_chars("model"), Json::Str(str_to_chars(settings.model.name.as_str()))));
    pairs.push((str_to_chars("temperature"), Json::Num(str_to_chars(
        settings.temperature.as_str(),
    ))));
    pairs.push((str_to_chars("messages"), Json::Arr(msgs)));
    let has_tools = match &tools {
        None => false,
        Some(ts) => ts.len() > 0,
    };
    if has_tools {
        let mut ts = match tools {
            Some(ts) => ts,
            None => Vec::new(),
        };
        let ghost orig = ts@;
        let mut wt: Vec<Json> = Vec::new();
        while ts.len() > 0
            invariant
                wt@.len() + ts@.len() == orig.len(),
                ts@ =~= orig.skip(wt@.len() as int),
                forall|x: int| 0 <= x < wt@.len() ==> view_json(#[trigger] wt@[x])
                    == wrapped_tool_json(orig[x]@),
            decreases ts@.len(),
        {
            let t = ts.remove(0);
            wt.push(wrapped_tool(t));
        }
        proof {
            lemma_view_list_props(wt@);
            assert(view_list(wt@) =~= orig.map_values(|t: Tool| t@).map_values(
                |t: ToolV| wrapped_tool_json(t),
            ));
        }
        pairs.push((str_to_chars("tools"), Json::Arr(wt)));
        pairs.push((str_to_chars("tool_choice"), str_json("required")));
        proof {
            lemma_view_pairs_props(pairs@);
            assert(view_pairs(pairs@) =~= request_json(settings@, prompt@, gtools)->Obj_0);
        }
    } else {
        proof {
            lemma_view_pairs_props(pairs@);
            assert(view_pairs(pairs@) =~= request_json(settings@, prompt@, gtools)->Obj_0);
        }
    }
    let body = Json::Obj(pairs);
    proof {
        assert(body@ == request_json(settings@, prompt@, gtools));
    }
    let out = to_chars(&body);
    chars_to_string(&out)
}


/// The provider's chat-completions endpoint.
pub fn endpoint() -> (r: String)
    ensures
        r@ == "https://api.openai.com/v1/chat/completions"@,
{
    "https://api.openai.com/v1/chat/completions".to_owned()
}

/// The authorization header value carrying the API key.
pub fn auth_header(api_key: &str) -> (r: String)
    ensures
        r@ == "Bearer "@ + api_key@,
{
    let mut s = "Bearer ".to_owned();
    s.append(api_key);
    s
}

/// The names of an object's members, in order.
pub open spec fn obj_keys(v: JsonV) -> Seq<Seq<char>> {
    match v {
        JsonV::Obj(pairs) => pairs.map_values(|p: (Seq<char>, JsonV)| p.0),
        _ => Seq::empty(),
    }
}

/// With no tools (absent or empty), the request body holds exactly the
/// `model`, `temperature` and `messages` members; with at least one
/// tool, exactly those plus `tools` and `tool_choice`, the latter the
/// string `required`.
pub proof fn lemma_tools_presence(s: SettingsV, prompt: Seq<char>, tools: Option<Seq<ToolV>>)
    ensures
        (match tools {
            None => true,
            Some(ts) => ts.len() == 0,
        }) ==> obj_keys(request_json(s, prompt, tools)) =~= seq!["model"@, "temperature"@, "messages"@],
        (tools matches Some(ts) && ts.len() > 0) ==> obj_keys(request_json(s, prompt, tools))
            =~= seq!["model"@, "temperature"@, "messages"@, "tools"@, "tool_choice"@],
        (tools matches Some(ts) && ts.len() > 0) ==> request_json(s, prompt, tools)->Obj_0.last().1
            == JsonV::Str("required"@),
{
}

} // verus!
