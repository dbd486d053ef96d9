//! Response handling: the provider's response shape, its decoder, and
//! the two translators — one extracting plain text, one extracting tool
//! calls and re-serializing them as a pretty-printed name/input list.

use vstd::prelude::*;
use vstd::string::StrSliceExecFns;
use crate::errors::Error;
use crate::json::{pser, view_json, view_list, view_pairs, to_pretty_chars, Json, JsonV,
    lemma_view_list_props, lemma_view_pairs_props};
use crate::parse::{parse_json_chars, sp_parse};
use crate::text::{chars_to_string, str_to_chars};

verus! {

broadcast use vstd::std_specs::vec::group_vec_axioms;

/// One tool invocation requested by the model.
pub struct ToolResult {
    pub id: String,
    pub type_: String,
    pub function: ToolFunctionResult,
}

/// The function named by a tool invocation, with its JSON-encoded
/// arguments when present.
pub struct ToolFunctionResult {
    pub name: String,
    pub arguments: Option<String>,
}

/// Token accounting reported by the provider; parsed shape only, unused
/// by the adapter's logic.
pub struct Usage {
    pub prompt_tokens: u32,
    pub completion_tokens: u32,
    pub total_tokens: u32,
}

/// The message of one choice: text content or tool calls.
pub struct ChatMessage {
    pub content: Option<String>,
    pub role: String,
    pub tool_calls: Option<Vec<ToolResult>>,
}

/// One completion choice.
pub struct ChatChoice {
    pub message: ChatMessage,
}

/// The decoded provider response.
pub struct ChatResult {
    pub choices: Vec<ChatChoice>,
}

/// The mathematical content of a tool invocation.
pub struct ToolResultV {
    pub id: Seq<char>,
    pub type_: Seq<char>,
    pub name: Seq<char>,
    pub arguments: Option<Seq<char>>,
}

/// The mathematical content of one choice's message.
pub struct ChatMessageV {
    pub content: Option<Seq<char>>,
    pub role: Seq<char>,
    pub tool_calls: Option<Seq<ToolResultV>>,
}

/// The mathematical content of a decoded response.
pub struct ChatResultV {
    pub choices: Seq<ChatMessageV>,
}

impl View for ToolResult {
    type V = ToolResultV;

    open spec fn view(&self) -> ToolResultV {
        ToolResultV {
            id: self.id@,
            type_: self.type_@,
            name: self.function.name@,
            arguments: match self.function.arguments {
                None => None,
                Some(a) => Some(a@),
            },
        }
    }
}

impl View for ChatMessage {
    type V = ChatMessageV;

    open spec fn view(&self) -> ChatMessageV {
        ChatMessageV {
            content: match self.content {
                None => None,
                Some(c) => Some(c@),
            },
            role: self.role@,
            tool_calls: match self.tool_calls {
                None => None,
                Some(calls) => Some(calls@.map_values(|c: ToolResult| c@)),
            },
        }
    }
}

impl View for ChatResult {
    type V = ChatResultV;

    open spec fn view(&self) -> ChatResultV {
        ChatResultV { choices: self.choices@.map_values(|c: ChatChoice| c.message@) }
    }
}

/// The value of the first member with the given name, if any.
pub open spec fn obj_get(pairs: Seq<(Seq<char>, JsonV)>, key: Seq<char>) -> Option<JsonV>
    decreases pairs.len(),
{
    if pairs.len() == 0 {
        None
    } else if pairs[0].0 == key {
        Some(pairs[0].1)
    } else {
        obj_get(pairs.drop_first(), key)
    }
}

/// Decodes one tool call: an object with string `id` and `type`, and a
/// `function` object with a string `name` and optional string (or null)
/// `arguments`.
pub open spec fn dec_tool_call(v: JsonV) -> Option<ToolResultV> {
    match v {
        JsonV::Obj(pairs) => {
            match (obj_get(pairs, "id"@), obj_get(pairs, "type"@), obj_get(pairs, "function"@)) {
                (Some(JsonV::Str(id)), Some(JsonV::Str(ty)), Some(JsonV::Obj(fpairs))) => {
                    match obj_get(fpairs, "name"@) {
                        Some(JsonV::Str(name)) => {
                            match obj_get(fpairs, "arguments"@) {
                                None => Some(
                                    ToolResultV { id, type_: ty, name, arguments: None },
                                ),
                                Some(JsonV::Null) => Some(
                                    ToolResultV { id, type_: ty, name, arguments: None },
                                ),
                                Some(JsonV::Str(a)) => Some(
                                    ToolResultV { id, type_: ty, name, arguments: Some(a) },
                                ),
                                Some(_) => None,
                            }
                        },
                        _ => None,
                    }
                },
                _ => None,
            }
        },
        _ => None,
    }
}

/// Decodes a list of tool calls, elementwise.
pub open spec fn dec_tool_calls(items: Seq<JsonV>) -> Option<Seq<ToolResultV>>
    decreases items.len(),
{
    if items.len() == 0 {
        Some(Seq::empty())
    } else {
        match dec_tool_call(items[0]) {
            None => None,
            Some(c) => match dec_tool_calls(items.drop_first()) {
                None => None,
                Some(rest) => Some(seq![c] + rest),
            },
        }
    }
}

/// Decodes one choice's message: a required string `role`, an optional
/// string (or null) `content`, and optional (or null) `tool_calls`.
pub open spec fn dec_message(v: JsonV) -> Option<ChatMessageV> {
    match v {
        JsonV::Obj(pairs) => {
            match obj_get(pairs, "role"@) {
                Some(JsonV::Str(role)) => {
                    let content = match obj_get(pairs, "content"@) {
                        None => Some(None),
                        Some(JsonV::Null) => Some(None),
                        Some(JsonV::Str(c)) => Some(Some(c)),
                        Some(_) => None,
                    };
                    match content {
                        None => None,
                        Some(content) => {
                            match obj_get(pairs, "tool_calls"@) {
                                None => Some(ChatMessageV { content, role, tool_calls: None }),
                                Some(JsonV::Null) => Some(
                                    ChatMessageV { content, role, tool_calls: None },
                                ),
                                Some(JsonV::Arr(items)) => {
                                    match dec_tool_calls(items) {
                                        None => None,
                                        Some(calls) => Some(
                                            ChatMessageV {
                                                content,
                                                role,
                                                tool_calls: Some(calls),
                                            },
                                        ),
                                    }
                                },
                                Some(_) => None,
                            }
                        },
                    }
                },
                _ => None,
            }
        },
        _ => None,
    }
}

/// Decodes one choice: an object with a `message` member.
pub open spec fn dec_choice(v: JsonV) -> Option<ChatMessageV> {
    match v {
        JsonV::Obj(pairs) => match obj_get(pairs, "message"@) {
            Some(m) => dec_message(m),
            _ => None,
        },
        _ => None,
    }
}

/// Decodes the choice list, elementwise.
pub open spec fn dec_choices(items: Seq<JsonV>) -> Option<Seq<ChatMessageV>>
    decreases items.len(),
{
    if items.len() == 0 {
        Some(Seq::empty())
    } else {
        match dec_choice(items[0]) {
            None => None,
            Some(c) => match dec_choices(items.drop_first()) {
                None => None,
                Some(rest) => Some(seq![c] + rest),
            },
        }
    }
}

/// Decodes a whole response: an object whose `choices` member is an
/// array of choices.
pub open spec fn dec_chat(v: JsonV) -> Option<ChatResultV> {
    match v {
        JsonV::Obj(pairs) => match obj_get(pairs, "choices"@) {
            Some(JsonV::Arr(items)) => match dec_choices(items) {
                None => None,
                Some(choices) => Some(ChatResultV { choices }),
            },
            _ => None,
        },
        _ => None,
    }
}

/// Parsing and decoding of a response body.
pub open spec fn chat_of(body: Seq<char>) -> Option<ChatResultV> {
    match sp_parse(body) {
        None => None,
        Some(v) => dec_chat(v),
    }
}


proof fn lemma_obj_get_skip(pairs: Seq<(Seq<char>, JsonV)>, key: Seq<char>, i: int)
    requires
        0 <= i < pairs.len(),
        pairs[i].0 != key,
        obj_get(pairs, key) == obj_get(pairs.skip(i), key),
    ensures
        obj_get(pairs, key) == obj_get(pairs.skip(i + 1), key),
{
    assert(pairs.skip(i).len() > 0);
    assert(pairs.skip(i)[0] == pairs[i]);
    assert(pairs.skip(i).drop_first() =~= pairs.skip(i + 1));
}

/// Whether a character vector holds exactly the given string.
fn eq_key(a: &Vec<char>, b: &str) -> (r: bool)
    ensures
        r == (a@ == b@),
{
    let bv = str_to_chars(b);
    if a.len() != bv.len() {
        return false;
    }
    let n = a.len();
    let mut i: usize = 0;
    while i < n
        invariant
            i <= n,
            n == a@.len() == bv@.len(),
            bv@ == b@,
            forall|t: int| 0 <= t < i ==> a@[t] == b@[t],
        decreases n - i,
    {
        if a[i] != bv[i] {
            return false;
        }
        i += 1;
    }
    proof {
        assert(a@ =~= b@);
    }
    true
}

/// Finds the first member with the given name.
#[verifier::loop_isolation(false)]
fn find_key(pairs: &Vec<(Vec<char>, Json)>, key: &str) -> (r: Option<usize>)
    ensures
        match r {
            None => obj_get(view_pairs(pairs@), key@) is None,
            Some(i) => i < pairs@.len() && obj_get(view_pairs(pairs@), key@) == Some(
                view_json(pairs@[i as int].1),
            ),
        },
{
    let ghost vp = view_pairs(pairs@);
    proof {
        lemma_view_pairs_props(pairs@);
        assert(vp.skip(0) =~= vp);
    }
    let n = pairs.len();
    let mut i: usize = 0;
    while i < n
        invariant
            i <= n,
            n == pairs@.len(),
            obj_get(vp, key@) == obj_get(vp.skip(i as int), key@),
        decreases n - i,
    {
        if eq_key(&pairs[i].0, key) {
            proof {
                assert(vp.skip(i as int)[0] == vp[i as int]);
            }
            return Some(i);
        }
        proof {
            lemma_obj_get_skip(vp, key@, i as int);
        }
        i += 1;
    }
    proof {
        assert(vp.skip(n as int) =~= Seq::<(Seq<char>, JsonV)>::empty());
    }
    None
}

/// Decodes one tool call.
#[verifier::rlimit(100)]
fn d_tool_call(v: &Json) -> (r: Option<ToolResult>)
    ensures
        match r {
            None => dec_tool_call(v@) is None,
            Some(c) => dec_tool_call(v@) == Some(c@),
        },
{
    match v {
        Json::Obj(pairs) => {
            let id_i = find_key(pairs, "id");
            let ty_i = find_key(pairs, "type");
            let fn_i = find_key(pairs, "function");
            match (id_i, ty_i, fn_i) {
                (Some(a), Some(b), Some(c)) => {
                    match (&pairs[a].1, &pairs[b].1, &pairs[c].1) {
                        (Json::Str(id), Json::Str(ty), Json::Obj(fpairs)) => {
                            let name_i = find_key(fpairs, "name");
                            match name_i {
                                Some(ni) => {
                                    match &fpairs[ni].1 {
                                        Json::Str(name) => {
                                            let args_i = find_key(fpairs, "arguments");
                                            match args_i {
                                                None => Some(
                                                    ToolResult {
                                                        id: chars_to_string(id),
                                                        type_: chars_to_string(ty),
                                                        function: ToolFunctionResult {
                                                            name: chars_to_string(name),
                                                            arguments: None,
                                                        },
                                                    },
                                                ),
                                                Some(ai) => {
                                                    match &fpairs[ai].1 {
                                                        Json::Null => Some(
                                                            ToolResult {
                                                                id: chars_to_string(id),
                                                                type_: chars_to_string(ty),
                                                                function: ToolFunctionResult {
                                                                    name: chars_to_string(name),
                                                                    arguments: None,
                                                                },
                                                            },
                                                        ),
                                                        Json::Str(a) => Some(
                                                            ToolResult {
                                                                id: chars_to_string(id),
                                                                type_: chars_to_string(ty),
                                                                function: ToolFunctionResult {
                                                                    name: chars_to_string(name),
                                                                    arguments: Some(
                                                                        chars_to_string(a),
                                                                    ),
                                                                },
                                                            },
                                                        ),
                                                        _ => None,
                                                    }
                                                },
                                            }
                                        },
                                        _ => None,
                                    }
                                },
                                None => None,
                            }
                        },
                        _ => None,
                    }
                },
                _ => None,
            }
        },
        _ => None,
    }
}

/// Decodes the tool calls from index `i` on.
fn d_tool_calls_from(items: &Vec<Json>, i: usize) -> (r: Option<Vec<ToolResult>>)
    requires
        i <= items@.len(),
    ensures
        match r {
            None => dec_tool_calls(view_list(items@).skip(i as int)) is None,
            Some(cs) => dec_tool_calls(view_list(items@).skip(i as int)) == Some(
                cs@.map_values(|c: ToolResult| c@),
            ),
        },
    decreases items@.len() - i,
{
    proof {
        lemma_view_list_props(items@);
    }
    if i == items.len() {
        let cs: Vec<ToolResult> = Vec::new();
        proof {
            assert(view_list(items@).skip(i as int) =~= Seq::<JsonV>::empty());
            assert(cs@.map_values(|c: ToolResult| c@) =~= Seq::<ToolResultV>::empty());
        }
        Some(cs)
    } else {
        proof {
            assert(view_list(items@).skip(i as int)[0] == view_json(items@[i as int]));
            assert(view_list(items@).skip(i as int).drop_first() =~= view_list(items@).skip(
                i + 1,
            ));
        }
        match d_tool_call(&items[i]) {
            None => None,
            Some(c) => {
                match d_tool_calls_from(items, i + 1) {
                    None => None,
                    Some(cs) => {
                        let ghost cs0 = cs@;
                        let mut cs = cs;
                        cs.insert(0, c);
                        proof {
                            assert(cs@ =~= seq![c] + cs0);
                            assert(cs@.map_values(|c: ToolResult| c@) =~= seq![c@]
                                + cs0.map_values(|c: ToolResult| c@));
                        }
                        Some(cs)
                    },
                }
            },
        }
    }
}

/// Decodes one choice's message.
#[verifier::rlimit(100)]
fn d_message(v: &Json) -> (r: Option<ChatMessage>)
    ensures
        match r {
            None => dec_message(v@) is None,
            Some(m) => dec_message(v@) == Some(m@),
        },
{
    match v {
        Json::Obj(pairs) => {
            let role_i = find_key(pairs, "role");
            match role_i {
                Some(ri) => {
                    match &pairs[ri].1 {
                        Json::Str(role) => {
                            let content: Option<String>;
                            let content_i = find_key(pairs, "content");
                            match content_i {
                                None => {
                                    content = None;
                                },
                                Some(ci) => {
                                    match &pairs[ci].1 {
                                        Json::Null => {
                                            content = None;
                                        },
                                        Json::Str(c) => {
                                            content = Some(chars_to_string(c));
                                        },
                                        _ => {
                                            return None;
                                        },
                                    }
                                },
                            }
                            let tc_i = find_key(pairs, "tool_calls");
                            match tc_i {
                                None => Some(
                                    ChatMessage {
                                        content,
                                        role: chars_to_string(role),
                                        tool_calls: None,
                                    },
                                ),
                                Some(ti) => {
                                    match &pairs[ti].1 {
                                        Json::Null => Some(
                                            ChatMessage {
                                                content,
                                                role: chars_to_string(role),
                                                tool_calls: None,
                                            },
                                        ),
                                        Json::Arr(items) => {
                                            proof {
                                                assert(view_list(items@).skip(0)
                                                    =~= view_list(items@));
                                            }
                                            match d_tool_calls_from(items, 0) {
                                                None => None,
                                                Some(calls) => Some(
                                                    ChatMessage {
                                                        content,
                                                        role: chars_to_string(role),
                                                        tool_calls: Some(calls),
                                                    },
                                                ),
                                            }
                                        },
                                        _ => None,
                                    }
                                },
                            }
                        },
                        _ => None,
                    }
                },
                None => None,
            }
        },
        _ => None,
    }
}

/// Decodes one choice.
fn d_choice(v: &Json) -> (r: Option<ChatChoice>)
    ensures
        match r {
            None => dec_choice(v@) is None,
            Some(c) => dec_choice(v@) == Some(c.message@),
        },
{
    match v {
        Json::Obj(pairs) => {
            match find_key(pairs, "message") {
                Some(mi) => {
                    match d_message(&pairs[mi].1) {
                        None => None,
                        Some(m) => Some(ChatChoice { message: m }),
                    }
                },
                None => None,
            }
        },
        _ => None,
    }
}

/// Decodes the choices from index `i` on.
fn d_choices_from(items: &Vec<Json>, i: usize) -> (r: Option<Vec<ChatChoice>>)
    requires
        i <= items@.len(),
    ensures
        match r {
            None => dec_choices(view_list(items@).skip(i as int)) is None,
            Some(cs) => dec_choices(view_list(items@).skip(i as int)) == Some(
                cs@.map_values(|c: ChatChoice| c.message@),
            ),
        },
    decreases items@.len() - i,
{
    proof {
        lemma_view_list_props(items@);
    }
    if i == items.len() {
        let cs: Vec<ChatChoice> = Vec::new();
        proof {
            assert(view_list(items@).skip(i as int) =~= Seq::<JsonV>::empty());
            assert(cs@.map_values(|c: ChatChoice| c.message@) =~= Seq::<ChatMessageV>::empty());
        }
        Some(cs)
    } else {
        proof {
            assert(view_list(items@).skip(i as int)[0] == view_json(items@[i as int]));
            assert(view_list(items@).skip(i as int).drop_first() =~= view_list(items@).skip(
                i + 1,
            ));
        }
        match d_choice(&items[i]) {
            None => None,
            Some(c) => {
                match d_choices_from(items, i + 1) {
                    None => None,
                    Some(cs) => {
                        let ghost cs0 = cs@;
                        let mut cs = cs;
                        cs.insert(0, c);
                        proof {
                            assert(cs@ =~= seq![c] + cs0);
                            assert(cs@.map_values(|c: ChatChoice| c.message@) =~= seq![
                                c.message@,
                            ] + cs0.map_values(|c: ChatChoice| c.message@));
                        }
                        Some(cs)
                    },
                }
            },
        }
    }
}

/// Parses and decodes a response body into the response shape.
pub fn decode_chat(body: &str) -> (r: Result<ChatResult, Error>)
    ensures
        match chat_of(body@) {
            None => r == Err::<ChatResult, Error>(Error::Decode),
            Some(cv) => r matches Ok(c) && c@ == cv,
        },
{
    let chars = str_to_chars(body);
    match parse_json_chars(&chars) {
        None => Err(Error::Decode),
        Some(v) => {
            match &v {
                Json::Obj(pairs) => {
                    match find_key(pairs, "choices") {
                        Some(ci) => {
                            match &pairs[ci].1 {
                                Json::Arr(items) => {
                                    proof {
                                        assert(view_list(items@).skip(0) =~= view_list(items@));
                                    }
                                    match d_choices_from(items, 0) {
                                        None => Err(Error::Decode),
                                        Some(cs) => Ok(ChatResult { choices: cs }),
                                    }
                                },
                                _ => Err(Error::Decode),
                            }
                        },
                        None => Err(Error::Decode),
                    }
                },
                _ => Err(Error::Decode),
            }
        },
    }
}


/// The reported shape of one tool call: its function name and, when
/// arguments are present, their parsed JSON under `input`; nothing when
/// the arguments text is not valid JSON.
pub open spec fn call_json(c: ToolResultV) -> Option<JsonV> {
    match c.arguments {
        None => Some(JsonV::Obj(seq![("name"@, JsonV::Str(c.name))])),
        Some(args) => match sp_parse(args) {
            None => None,
            Some(v) => Some(JsonV::Obj(seq![("name"@, JsonV::Str(c.name)), ("input"@, v)])),
        },
    }
}

/// The reported shapes of all tool calls, in order; nothing when any
/// arguments text fails to parse.
pub open spec fn calls_json(cs: Seq<ToolResultV>) -> Option<Seq<JsonV>>
    decreases cs.len(),
{
    if cs.len() == 0 {
        Some(Seq::empty())
    } else {
        match call_json(cs[0]) {
            None => None,
            Some(j) => match calls_json(cs.drop_first()) {
                None => None,
                Some(rest) => Some(seq![j] + rest),
            },
        }
    }
}

proof fn lemma_calls_json_props(cs: Seq<ToolResultV>)
    ensures
        (calls_json(cs) is Some) <==> (forall|i: int|
            0 <= i < cs.len() ==> (#[trigger] call_json(cs[i])) is Some),
        calls_json(cs) matches Some(items) ==> items.len() == cs.len() && (forall|i: int|
            0 <= i < cs.len() ==> items[i] == (#[trigger] call_json(cs[i]))->0),
    decreases cs.len(),
{
    if cs.len() > 0 {
        let d = cs.drop_first();
        lemma_calls_json_props(d);
        assert(forall|i: int| 0 <= i < d.len() ==> d[i] == cs[i + 1]);
        match call_json(cs[0]) {
            None => {
                assert(calls_json(cs) is None);
                assert(!(call_json(cs[0]) is Some));
            },
            Some(j) => {
                match calls_json(d) {
                    None => {
                        assert(calls_json(cs) is None);
                        let w = choose|i: int| 0 <= i < d.len() && !((#[trigger] call_json(
                            d[i],
                        )) is Some);
                        assert(call_json(cs[w + 1]) is None);
                    },
                    Some(rest) => {
                        let items = seq![j] + rest;
                        assert(calls_json(cs) == Some(items));
                        assert forall|i: int| 0 <= i < cs.len() implies (#[trigger] call_json(
                            cs[i],
                        )) is Some by {
                            if i > 0 {
                                assert(call_json(d[i - 1]) is Some);
                            }
                        }
                        assert forall|i: int| 0 <= i < cs.len() implies items[i] == (
                        #[trigger] call_json(cs[i]))->0 by {
                            if i > 0 {
                                assert(items[i] == rest[i - 1]);
                                assert(rest[i - 1] == call_json(d[i - 1])->0);
                            }
                        }
                    },
                }
            },
        }
    }
}

/// Classifies the HTTP outcome and extracts the plain text content of
/// the first choice: a non-success status carries the status and raw
/// body; a success must decode and hold at least one choice whose
/// message has text content.
pub fn completion_from_response(status: u16, body: String) -> (r: Result<String, Error>)
    ensures
        status != 200 ==> r == Err::<String, Error>(Error::Api(status, body)),
        status == 200 ==> match chat_of(body@) {
            None => r == Err::<String, Error>(Error::Decode),
            Some(cv) => if cv.choices.len() == 0 {
                r == Err::<String, Error>(Error::Decode)
            } else {
                match cv.choices[0].content {
                    Some(text) => r matches Ok(o) && o@ == text,
                    None => r == Err::<String, Error>(Error::NoCompletion),
                }
            },
        },
{
    if status != 200 {
        return Err(Error::Api(status, body));
    }
    let chat = match decode_chat(body.as_str()) {
        Err(e) => {
            return Err(e);
        },
        Ok(c) => c,
    };
    let mut choices = chat.choices;
    if choices.len() == 0 {
        return Err(Error::Decode);
    }
    let first = choices.remove(0);
    match first.message.content {
        Some(text) => Ok(text),
        None => Err(Error::NoCompletion),
    }
}

/// Builds the reported shape of one tool call, parsing its arguments.
fn call_to_json(call: &ToolResult) -> (r: Option<Json>)
    ensures
        match r {
            None => call_json(call@) is None,
            Some(j) => call_json(call@) == Some(j@),
        },
{
    let mut obj: Vec<(Vec<char>, Json)> = Vec::new();
    obj.push((str_to_chars("name"), Json::Str(str_to_chars(call.function.name.as_str()))));
    match &call.function.arguments {
        None => {
            proof {
                lemma_view_pairs_props(obj@);
                assert(view_pairs(obj@) =~= seq![("name"@, JsonV::Str(call@.name))]);
            }
            Some(Json::Obj(obj))
        },
        Some(args) => {
            let ac = str_to_chars(args.as_str());
            match parse_json_chars(&ac) {
                None => None,
                Some(vj) => {
                    obj.push((str_to_chars("input"), vj));
                    proof {
                        lemma_view_pairs_props(obj@);
                        assert(view_pairs(obj@) =~= seq![
                            ("name"@, JsonV::Str(call@.name)),
                            ("input"@, sp_parse(call@.arguments->0)->0),
                        ]);
                    }
                    Some(Json::Obj(obj))
                },
            }
        },
    }
}

/// Classifies the HTTP outcome and renders the tool calls of the first
/// choice as pretty-printed JSON: absent tool calls fail, and arguments
/// that are not valid JSON fail rather than being passed through.
#[verifier::rlimit(100)]
#[verifier::loop_isolation(false)]
pub fn tools_from_response(status: u16, body: String) -> (r: Result<String, Error>)
    ensures
        status != 200 ==> r == Err::<String, Error>(Error::Api(status, body)),
        status == 200 ==> match chat_of(body@) {
            None => r == Err::<String, Error>(Error::Decode),
            Some(cv) => if cv.choices.len() == 0 {
                r == Err::<String, Error>(Error::Decode)
            } else {
                match cv.choices[0].tool_calls {
                    None => r == Err::<String, Error>(Error::NoToolCalls),
                    Some(calls) => match calls_json(calls) {
                        None => r == Err::<String, Error>(Error::Decode),
                        Some(items) => r matches Ok(o) && o@ == pser(
                            JsonV::Arr(items),
                            Seq::empty(),
                        ),
                    },
                }
            },
        },
{
    if status != 200 {
        return Err(Error::Api(status, body));
    }
    let chat = match decode_chat(body.as_str()) {
        Err(e) => {
            return Err(e);
        },
        Ok(c) => c,
    };
    let mut choices = chat.choices;
    if choices.len() == 0 {
        return Err(Error::Decode);
    }
    let first = choices.remove(0);
    let calls = match first.message.tool_calls {
        None => {
            return Err(Error::NoToolCalls);
        },
        Some(cs) => cs,
    };
    let ghost gcalls = calls@.map_values(|c: ToolResult| c@);
    let mut built: Vec<Json> = Vec::new();
    let n = calls.len();
    let mut k: usize = 0;
    while k < n
        invariant
            k <= n,
            n == calls@.len(),
            built@.len() == k as int,
            forall|x: int| 0 <= x < k ==> (#[trigger] call_json(gcalls[x])) is Some
                && view_json(built@[x]) == call_json(gcalls[x])->0,
        decreases n - k,
    {
        match call_to_json(&calls[k]) {
            None => {
                proof {
                    assert(call_json(gcalls[k as int]) is None);
                    lemma_calls_json_props(gcalls);
                }
                return Err(Error::Decode);
            },
            Some(j) => {
                built.push(j);
            },
        }
        k += 1;
    }
    proof {
        lemma_calls_json_props(gcalls);
        lemma_view_list_props(built@);
        assert(calls_json(gcalls) is Some);
        let items = calls_json(gcalls)->0;
        assert(items.len() == gcalls.len());
        assert forall|x: int| 0 <= x < n implies view_list(built@)[x] == items[x] by {
            assert(view_list(built@)[x] == view_json(built@[x]));
            assert(items[x] == call_json(gcalls[x])->0);
        }
        assert(view_list(built@) =~= items);
    }
    let arr = Json::Arr(built);
    let out = to_pretty_chars(&arr);
    Ok(chars_to_string(&out))
}

} // verus!


