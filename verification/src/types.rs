//! Messages, tool calls, model responses and permissions.

use crate::json::{json_parsed, json_text, object2, object3, parse, plain, render};
use crate::text::{copy_opt, opt_text, same_text, text_less, texts_view};
use crate::value::{group_json_view, Json, JsonView};
use vstd::prelude::*;

verus! {

broadcast use group_json_view;

// ---------------------------------------------------------------------------
// Tool calls
// ---------------------------------------------------------------------------

/// A call of a tool that a model asks for.
pub struct ToolCallRequest {
    pub id: String,
    pub name: String,
    pub arguments: Json,
    pub thought_signature: Option<String>,
}

pub struct ToolCallView {
    pub id: Seq<char>,
    pub name: Seq<char>,
    pub arguments: JsonView,
    pub thought_signature: Option<Seq<char>>,
}

impl View for ToolCallRequest {
    type V = ToolCallView;

    open spec fn view(&self) -> ToolCallView {
        ToolCallView {
            id: self.id@,
            name: self.name@,
            arguments: self.arguments@,
            thought_signature: opt_text(self.thought_signature),
        }
    }
}

impl Clone for ToolCallRequest {
    fn clone(&self) -> (r: Self)
        ensures
            r@ == self@,
    {
        ToolCallRequest {
            id: self.id.clone(),
            name: self.name.clone(),
            arguments: self.arguments.clone(),
            thought_signature: copy_opt(&self.thought_signature),
        }
    }
}

pub open spec fn calls_view(calls: Seq<ToolCallRequest>) -> Seq<ToolCallView> {
    calls.map_values(|c: ToolCallRequest| c@)
}

pub fn copy_calls(calls: &Vec<ToolCallRequest>) -> (r: Vec<ToolCallRequest>)
    ensures
        calls_view(r@) == calls_view(calls@),
{
    let mut r: Vec<ToolCallRequest> = Vec::new();
    let mut i: usize = 0;
    while i < calls.len()
        invariant
            i <= calls.len(),
            calls_view(r@) == calls_view(calls@).take(i as int),
        decreases calls.len() - i,
    {
        let ghost so_far = calls_view(r@);
        let call = calls[i].clone();
        r.push(call);
        assert(calls_view(r@) =~= so_far.push(call@));
        assert(calls_view(r@) =~= calls_view(calls@).take(i + 1));
        i += 1;
    }
    assert(calls_view(r@) =~= calls_view(calls@));
    r
}

pub open spec fn empty_object() -> JsonView {
    JsonView::Object(Seq::empty())
}

/// An object without members.
pub fn no_members() -> (r: Json)
    ensures
        r@ == empty_object(),
{
    let members: Vec<(String, Json)> = Vec::new();
    let r = Json::Object(members);
    assert(r@->Object_0 =~= Seq::empty());
    r
}

pub open spec fn or_empty(parsed: Option<JsonView>) -> JsonView {
    match parsed {
        Some(v) => v,
        None => empty_object(),
    }
}

pub open spec fn json_opt(value: Option<Json>) -> Option<JsonView> {
    match value {
        Some(v) => Some(v@),
        None => None,
    }
}

/// The value that was read, or an object without members where none could be.
pub fn or_empty_object(parsed: Option<Json>) -> (r: Json)
    ensures
        r@ == or_empty(json_opt(parsed)),
{
    match parsed {
        Some(v) => v,
        None => no_members(),
    }
}

/// The first of two members that is there, where it is a string.
pub open spec fn str_at_either(value: JsonView, first: Seq<char>, second: Seq<char>) -> Option<
    Seq<char>,
> {
    match value.get(first) {
        Some(v) => v.as_str(),
        None => value.str_at(second),
    }
}

/// The text that holds the arguments of a call: member `arguments` of the object `function`.
pub open spec fn encoded_arguments(value: JsonView) -> Option<Seq<char>> {
    match value.get("function"@) {
        Some(JsonView::Object(members)) => JsonView::Object(members).str_at("arguments"@),
        _ => None,
    }
}

/// The tool call that a JSON object stands for, once its encoded arguments were read as `parsed`.
///
/// The call is either nested, `{id, function: {name, arguments}}`, or flat,
/// `{id, name, arguments}`. What is missing is empty.
pub open spec fn decoded_call(value: JsonView, parsed: Option<JsonView>) -> Option<ToolCallView> {
    match value {
        JsonView::Object(_) => {
            let id = value.str_or("id"@, Seq::empty());
            let thought_signature = str_at_either(
                value,
                "thought_signature"@,
                "thoughtSignature"@,
            );
            match value.get("function"@) {
                Some(JsonView::Object(members)) => {
                    let func = JsonView::Object(members);
                    Some(
                        ToolCallView {
                            id,
                            name: func.str_or("name"@, Seq::empty()),
                            arguments: match func.get("arguments"@) {
                                Some(JsonView::Str(_)) => or_empty(parsed),
                                other => or_empty(other),
                            },
                            thought_signature,
                        },
                    )
                },
                _ => Some(
                    ToolCallView {
                        id,
                        name: value.str_or("name"@, Seq::empty()),
                        arguments: or_empty(value.get("arguments"@)),
                        thought_signature,
                    },
                ),
            }
        },
        _ => None,
    }
}

/// The tool call that a JSON object stands for.
pub open spec fn call_of_json(value: JsonView) -> Option<ToolCallView> {
    decoded_call(
        value,
        match encoded_arguments(value) {
            Some(text) => json_parsed(text),
            None => None,
        },
    )
}

/// The tool call that a JSON text stands for.
pub open spec fn call_of_text(text: Seq<char>) -> Option<ToolCallView> {
    match json_parsed(text) {
        Some(value) => call_of_json(value),
        None => None,
    }
}

/// The nested form of a tool call. The thought signature is not part of it.
pub open spec fn json_of_call(call: ToolCallView) -> JsonView {
    JsonView::Object(
        seq![
            (
                "function"@,
                JsonView::Object(
                    seq![
                        ("arguments"@, JsonView::Str(json_text(call.arguments))),
                        ("name"@, JsonView::Str(call.name)),
                    ],
                ),
            ),
            ("id"@, JsonView::Str(call.id)),
            ("type"@, JsonView::Str("function"@)),
        ],
    )
}

fn text_or_empty(text: Option<&str>) -> (r: String)
    ensures
        r@ == match text {
            Some(s) => s@,
            None => Seq::empty(),
        },
{
    match text {
        Some(s) => s.to_owned(),
        None => String::new(),
    }
}

impl ToolCallRequest {
    /// The text in `value` that holds the call's arguments, where they are encoded as text.
    pub fn encoded_arguments(value: &Json) -> (r: Option<&str>)
        ensures
            match r {
                Some(s) => encoded_arguments(value@) == Some(s@),
                None => encoded_arguments(value@) is None,
            },
    {
        match value.get("function") {
            Some(func) => match func {
                Json::Object(_) => func.str_at("arguments"),
                _ => None,
            },
            None => None,
        }
    }

    /// The call that `value` stands for, given what its encoded arguments were read as.
    pub fn decode(value: &Json, parsed: Option<Json>) -> (r: Option<ToolCallRequest>)
        ensures
            match r {
                Some(call) => decoded_call(value@, json_opt(parsed)) == Some(call@),
                None => decoded_call(value@, json_opt(parsed)) is None,
            },
    {
        match value {
            Json::Object(_) => {
                let id = text_or_empty(value.str_at("id"));
                let signature = match value.get("thought_signature") {
                    Some(v) => v.as_str(),
                    None => value.str_at("thoughtSignature"),
                };
                let thought_signature = match signature {
                    Some(s) => Some(s.to_owned()),
                    None => None,
                };
                if let Some(func) = value.get("function") {
                    if let Json::Object(_) = func {
                        let name = text_or_empty(func.str_at("name"));
                        let arguments = match func.get("arguments") {
                            Some(args) => match args {
                                Json::Str(_) => or_empty_object(parsed),
                                _ => args.clone(),
                            },
                            None => no_members(),
                        };
                        return Some(ToolCallRequest { id, name, arguments, thought_signature });
                    }
                }
                let name = text_or_empty(value.str_at("name"));
                let arguments = match value.get("arguments") {
                    Some(args) => args.clone(),
                    None => no_members(),
                };
                Some(ToolCallRequest { id, name, arguments, thought_signature })
            },
            _ => None,
        }
    }

    /// The call that a JSON object stands for; nothing where `value` is no object.
    pub fn from_json(value: &Json) -> (r: Option<ToolCallRequest>)
        ensures
            match r {
                Some(call) => call_of_json(value@) == Some(call@),
                None => call_of_json(value@) is None,
            },
    {
        let parsed = match Self::encoded_arguments(value) {
            Some(text) => parse(text),
            None => None,
        };
        Self::decode(value, parsed)
    }

    /// The nested form of the call. Where the arguments hold no numbers but integers and no keys
    /// out of order, and nest at most 127 deep, reading the form gives the call back without its
    /// thought signature.
    pub fn to_json(&self) -> (r: Json)
        ensures
            r@ == json_of_call(self@),
            plain(self@.arguments, 127) ==> call_of_json(r@) == Some(
                ToolCallView { thought_signature: None, ..self@ },
            ),
    {
        let arguments = render(&self.arguments);
        let func = object2(
            "arguments",
            Json::Str(arguments),
            "name",
            Json::Str(self.name.clone()),
        );
        let r = object3(
            "function",
            func,
            "id",
            Json::text(self.id.as_str()),
            "type",
            Json::text("function"),
        );
        proof {
            lemma_call_form(self@);
        }
        r
    }

    /// The nested form of the call as JSON text. Read again, it is that form, and gives the call
    /// back under the same conditions.
    pub fn serialize(&self) -> (r: String)
        ensures
            r@ == json_text(json_of_call(self@)),
            json_parsed(r@) == Some(json_of_call(self@)),
            plain(self@.arguments, 127) ==> call_of_text(r@) == Some(
                ToolCallView { thought_signature: None, ..self@ },
            ),
    {
        let form = self.to_json();
        proof {
            lemma_call_form_plain(self@);
        }
        render(&form)
    }

    /// The call that a JSON text stands for; nothing where it is not the text of an object.
    pub fn deserialize(text: &str) -> (r: Option<ToolCallRequest>)
        ensures
            match r {
                Some(call) => call_of_text(text@) == Some(call@),
                None => call_of_text(text@) is None,
            },
    {
        match parse(text) {
            Some(value) => Self::from_json(&value),
            None => None,
        }
    }
}

/// The nested form holds texts alone, and its keys ascend.
proof fn lemma_call_form_plain(call: ToolCallView)
    ensures
        plain(json_of_call(call), 127),
{
    reveal_strlit("function");
    reveal_strlit("id");
    reveal_strlit("type");
    reveal_strlit("name");
    reveal_strlit("arguments");
    reveal_with_fuel(plain, 4);
    assert("function"@[0] == 'f' && "id"@[0] == 'i' && "type"@[0] == 't');
    assert("arguments"@[0] == 'a' && "name"@[0] == 'n');
    assert(text_less("function"@, "id"@));
    assert(text_less("function"@, "type"@));
    assert(text_less("id"@, "type"@));
    assert(text_less("arguments"@, "name"@));
}

/// What the members of the nested form hold.
proof fn lemma_call_form(call: ToolCallView)
    ensures
        encoded_arguments(json_of_call(call)) == Some(json_text(call.arguments)),
        forall|parsed: JsonView|
            decoded_call(json_of_call(call), Some(parsed)) == Some(
                ToolCallView { thought_signature: None, arguments: parsed, ..call },
            ),
{
    reveal_strlit("function");
    reveal_strlit("id");
    reveal_strlit("type");
    reveal_strlit("name");
    reveal_strlit("arguments");
    reveal_strlit("thought_signature");
    reveal_strlit("thoughtSignature");
    reveal_with_fuel(crate::json::lookup, 4);
    let members = json_of_call(call)->Object_0;
    assert("function"@.len() == 8 && "id"@.len() == 2 && "type"@.len() == 4);
    assert("name"@.len() == 4 && "arguments"@.len() == 9);
    assert("thought_signature"@.len() == 17 && "thoughtSignature"@.len() == 16);
    assert(members.skip(1)[0] == members[1]);
    assert(members.skip(1).skip(1)[0] == members[2]);
    let func = members[0].1->Object_0;
    assert(func.skip(1)[0] == func[1]);
}

/// The parts of a streamed tool call, collected until the stream ends.
pub struct ToolCallAccumulator {
    pub id: String,
    pub name: String,
    pub arguments: String,
}

pub struct AccumulatorView {
    pub id: Seq<char>,
    pub name: Seq<char>,
    pub arguments: Seq<char>,
}

impl View for ToolCallAccumulator {
    type V = AccumulatorView;

    open spec fn view(&self) -> AccumulatorView {
        AccumulatorView { id: self.id@, name: self.name@, arguments: self.arguments@ }
    }
}

/// The call that collected parts make, once the argument text was read as `parsed`.
pub open spec fn accumulated_call(acc: AccumulatorView, parsed: Option<JsonView>) -> ToolCallView {
    ToolCallView {
        id: acc.id,
        name: acc.name,
        arguments: if acc.arguments.len() == 0 {
            empty_object()
        } else {
            or_empty(parsed)
        },
        thought_signature: None,
    }
}

impl ToolCallAccumulator {
    pub fn new() -> (r: Self)
        ensures
            r@ == (AccumulatorView {
                id: Seq::empty(),
                name: Seq::empty(),
                arguments: Seq::empty(),
            }),
    {
        ToolCallAccumulator { id: String::new(), name: String::new(), arguments: String::new() }
    }

    /// The call, given what the argument text was read as.
    pub fn finish(&self, parsed: Option<Json>) -> (r: ToolCallRequest)
        ensures
            r@ == accumulated_call(self@, json_opt(parsed)),
    {
        let arguments = if self.arguments.as_str().is_empty() {
            no_members()
        } else {
            or_empty_object(parsed)
        };
        ToolCallRequest {
            id: self.id.clone(),
            name: self.name.clone(),
            arguments,
            thought_signature: None,
        }
    }

    pub fn to_tool_call_request(&self) -> (r: ToolCallRequest)
        ensures
            r@ == accumulated_call(self@, json_parsed(self@.arguments)),
    {
        let parsed = parse(self.arguments.as_str());
        self.finish(parsed)
    }
}

impl Default for ToolCallAccumulator {
    fn default() -> (r: Self)
        ensures
            r@ == (AccumulatorView {
                id: Seq::empty(),
                name: Seq::empty(),
                arguments: Seq::empty(),
            }),
    {
        ToolCallAccumulator::new()
    }
}

// ---------------------------------------------------------------------------
// Model responses
// ---------------------------------------------------------------------------

pub struct LLMResponse {
    pub content: Option<String>,
    pub reasoning_content: Option<String>,
    pub tool_calls: Vec<ToolCallRequest>,
    pub finish_reason: String,
    pub usage: Json,
}

pub struct ResponseView {
    pub content: Option<Seq<char>>,
    pub reasoning_content: Option<Seq<char>>,
    pub tool_calls: Seq<ToolCallView>,
    pub finish_reason: Seq<char>,
    pub usage: JsonView,
}

impl View for LLMResponse {
    type V = ResponseView;

    open spec fn view(&self) -> ResponseView {
        ResponseView {
            content: opt_text(self.content),
            reasoning_content: opt_text(self.reasoning_content),
            tool_calls: calls_view(self.tool_calls@),
            finish_reason: self.finish_reason@,
            usage: self.usage@,
        }
    }
}

impl Default for LLMResponse {
    fn default() -> (r: Self)
        ensures
            r@ == (ResponseView {
                content: None,
                reasoning_content: None,
                tool_calls: Seq::empty(),
                finish_reason: Seq::empty(),
                usage: JsonView::Null,
            }),
    {
        let r = LLMResponse {
            content: None,
            reasoning_content: None,
            tool_calls: Vec::new(),
            finish_reason: String::new(),
            usage: Json::Null,
        };
        assert(r@.tool_calls =~= Seq::empty());
        r
    }
}

/// One piece of a streamed response.
pub enum StreamChunk {
    TextDelta { delta: String },
    ReasoningDelta { delta: String },
    ToolCallStart { index: usize, id: String, name: String },
    ToolCallDelta { index: usize, id: String, delta: String },
    Done { response: LLMResponse },
    Error { message: String },
}

pub enum ChunkView {
    TextDelta { delta: Seq<char> },
    ReasoningDelta { delta: Seq<char> },
    ToolCallStart { index: int, id: Seq<char>, name: Seq<char> },
    ToolCallDelta { index: int, id: Seq<char>, delta: Seq<char> },
    Done { response: ResponseView },
    Error { message: Seq<char> },
}

impl View for StreamChunk {
    type V = ChunkView;

    open spec fn view(&self) -> ChunkView {
        match *self {
            StreamChunk::TextDelta { delta } => ChunkView::TextDelta { delta: delta@ },
            StreamChunk::ReasoningDelta { delta } => ChunkView::ReasoningDelta { delta: delta@ },
            StreamChunk::ToolCallStart { index, id, name } => ChunkView::ToolCallStart {
                index: index as int,
                id: id@,
                name: name@,
            },
            StreamChunk::ToolCallDelta { index, id, delta } => ChunkView::ToolCallDelta {
                index: index as int,
                id: id@,
                delta: delta@,
            },
            StreamChunk::Done { response } => ChunkView::Done { response: response@ },
            StreamChunk::Error { message } => ChunkView::Error { message: message@ },
        }
    }
}

pub open spec fn chunks_view(chunks: Seq<StreamChunk>) -> Seq<ChunkView> {
    chunks.map_values(|c: StreamChunk| c@)
}

// ---------------------------------------------------------------------------
// Chat messages
// ---------------------------------------------------------------------------

pub struct ChatMessage {
    pub role: String,
    pub content: Json,
    pub reasoning_content: Option<String>,
    pub tool_calls: Option<Vec<ToolCallRequest>>,
    pub tool_call_id: Option<String>,
    pub name: Option<String>,
}

pub struct MessageView {
    pub role: Seq<char>,
    pub content: JsonView,
    pub reasoning_content: Option<Seq<char>>,
    pub tool_calls: Option<Seq<ToolCallView>>,
    pub tool_call_id: Option<Seq<char>>,
    pub name: Option<Seq<char>>,
}

pub open spec fn opt_calls(calls: Option<Vec<ToolCallRequest>>) -> Option<Seq<ToolCallView>> {
    match calls {
        Some(c) => Some(calls_view(c@)),
        None => None,
    }
}

impl View for ChatMessage {
    type V = MessageView;

    open spec fn view(&self) -> MessageView {
        MessageView {
            role: self.role@,
            content: self.content@,
            reasoning_content: opt_text(self.reasoning_content),
            tool_calls: opt_calls(self.tool_calls),
            tool_call_id: opt_text(self.tool_call_id),
            name: opt_text(self.name),
        }
    }
}

impl Clone for ChatMessage {
    fn clone(&self) -> (r: Self)
        ensures
            r@ == self@,
    {
        ChatMessage {
            role: self.role.clone(),
            content: self.content.clone(),
            reasoning_content: copy_opt(&self.reasoning_content),
            tool_calls: match &self.tool_calls {
                Some(calls) => Some(copy_calls(calls)),
                None => None,
            },
            tool_call_id: copy_opt(&self.tool_call_id),
            name: copy_opt(&self.name),
        }
    }
}

pub open spec fn messages_view(messages: Seq<ChatMessage>) -> Seq<MessageView> {
    messages.map_values(|m: ChatMessage| m@)
}

/// A copy of the messages from `from` up to `to`.
pub fn copy_messages(messages: &[ChatMessage], from: usize, to: usize) -> (r: Vec<ChatMessage>)
    requires
        from <= to <= messages@.len(),
    ensures
        messages_view(r@) == messages_view(messages@).subrange(from as int, to as int),
{
    let mut r: Vec<ChatMessage> = Vec::new();
    let mut i: usize = from;
    while i < to
        invariant
            from <= i <= to <= messages@.len(),
            messages_view(r@) == messages_view(messages@).subrange(from as int, i as int),
        decreases to - i,
    {
        let ghost so_far = messages_view(r@);
        let message = messages[i].clone();
        r.push(message);
        assert(messages_view(r@) =~= so_far.push(message@));
        assert(messages_view(r@) =~= messages_view(messages@).subrange(from as int, i + 1));
        i += 1;
    }
    r
}

/// A message of the given role that holds a text alone.
pub open spec fn text_message(role: Seq<char>, content: Seq<char>) -> MessageView {
    MessageView {
        role,
        content: JsonView::Str(content),
        reasoning_content: None,
        tool_calls: None,
        tool_call_id: None,
        name: None,
    }
}

impl ChatMessage {
    fn plain_text(role: &str, content: &str) -> (r: Self)
        ensures
            r@ == text_message(role@, content@),
    {
        ChatMessage {
            role: role.to_owned(),
            content: Json::text(content),
            reasoning_content: None,
            tool_calls: None,
            tool_call_id: None,
            name: None,
        }
    }

    pub fn system(content: &str) -> (r: Self)
        ensures
            r@ == text_message("system"@, content@),
    {
        Self::plain_text("system", content)
    }

    pub fn user(content: &str) -> (r: Self)
        ensures
            r@ == text_message("user"@, content@),
    {
        Self::plain_text("user", content)
    }

    pub fn assistant(content: &str) -> (r: Self)
        ensures
            r@ == text_message("assistant"@, content@),
    {
        Self::plain_text("assistant", content)
    }

    pub fn tool_result(tool_call_id: &str, content: &str) -> (r: Self)
        ensures
            r@ == (MessageView {
                tool_call_id: Some(tool_call_id@),
                ..text_message("tool"@, content@)
            }),
    {
        let mut r = Self::plain_text("tool", content);
        r.tool_call_id = Some(tool_call_id.to_owned());
        r
    }
}

// ---------------------------------------------------------------------------
// Permissions
// ---------------------------------------------------------------------------

/// A set of permission names. No name is held twice.
pub struct PermissionSet {
    permissions: Vec<String>,
}

impl View for PermissionSet {
    type V = Set<Seq<char>>;

    closed spec fn view(&self) -> Set<Seq<char>> {
        texts_view(self.permissions@).to_set()
    }
}

impl PermissionSet {
    #[verifier::type_invariant]
    spec fn distinct(self) -> bool {
        texts_view(self.permissions@).no_duplicates()
    }

    pub fn new() -> (r: Self)
        ensures
            r@ == Set::<Seq<char>>::empty(),
    {
        let r = PermissionSet { permissions: Vec::new() };
        assert(r@ =~= Set::<Seq<char>>::empty());
        r
    }

    pub fn with_permission(self, perm: &str) -> (r: Self)
        ensures
            r@ == self@.insert(perm@),
    {
        proof {
            use_type_invariant(&self);
        }
        if self.has(perm) {
            assert(self@.insert(perm@) =~= self@);
            return self;
        }
        let ghost before = texts_view(self.permissions@);
        let mut permissions = self.permissions;
        permissions.push(perm.to_owned());
        let ghost now = texts_view(permissions@);
        proof {
            assert(now =~= before.push(perm@));
            assert forall|t: Seq<char>| now.to_set().contains(t) <==> before.to_set().insert(
                perm@,
            ).contains(t) by {
                if before.contains(t) {
                    let i = choose|i: int| 0 <= i < before.len() && before[i] == t;
                    assert(now[i] == t);
                }
                if t == perm@ {
                    assert(now[before.len() as int] == t);
                }
            }
            assert(now.to_set() =~= before.to_set().insert(perm@));
            assert(!before.contains(perm@));
        }
        PermissionSet { permissions }
    }

    pub fn has(&self, perm: &str) -> (r: bool)
        ensures
            r == self@.contains(perm@),
    {
        let ghost texts = texts_view(self.permissions@);
        let mut i: usize = 0;
        while i < self.permissions.len()
            invariant
                i <= self.permissions.len(),
                texts == texts_view(self.permissions@),
                forall|j: int| 0 <= j < i ==> texts[j] != perm@,
            decreases self.permissions.len() - i,
        {
            if same_text(self.permissions[i].as_str(), perm) {
                assert(texts[i as int] == perm@);
                assert(texts.contains(perm@));
                return true;
            }
            i += 1;
        }
        assert(!texts.contains(perm@));
        false
    }

    pub fn is_subset_of(&self, other: &PermissionSet) -> (r: bool)
        ensures
            r == self@.subset_of(other@),
    {
        let ghost texts = texts_view(self.permissions@);
        let mut i: usize = 0;
        while i < self.permissions.len()
            invariant
                i <= self.permissions.len(),
                texts == texts_view(self.permissions@),
                forall|j: int| 0 <= j < i ==> other@.contains(#[trigger] texts[j]),
            decreases self.permissions.len() - i,
        {
            if !other.has(self.permissions[i].as_str()) {
                assert(texts[i as int] == self.permissions@[i as int]@);
                assert(self@.contains(texts[i as int]));
                return false;
            }
            i += 1;
        }
        assert forall|t: Seq<char>| self@.contains(t) implies other@.contains(t) by {
            let j = choose|j: int| 0 <= j < texts.len() && texts[j] == t;
            assert(other@.contains(texts[j]));
        }
        true
    }
}

impl Default for PermissionSet {
    fn default() -> (r: Self)
        ensures
            r@ == Set::<Seq<char>>::empty(),
    {
        PermissionSet::new()
    }
}

/// A permission set is within itself, and being within is passed on along a chain.
pub proof fn law_subset_order(a: PermissionSet, b: PermissionSet, c: PermissionSet)
    ensures
        a@.subset_of(a@),
        a@.subset_of(b@) && b@.subset_of(c@) ==> a@.subset_of(c@),
        a@.subset_of(b@) && b@.subset_of(a@) ==> a@ == b@,
{
    if a@.subset_of(b@) && b@.subset_of(a@) {
        assert(a@ =~= b@);
    }
}

} // verus!
