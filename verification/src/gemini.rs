//! Messages, tools and answers in the form of the Gemini service.

use crate::chat::copy_items;
use crate::json::{json_parsed, object1, object2, object3, parse};
use crate::stream::or_else;
use crate::text::{
    chars_of, opt_text, same_text, split, split_chars, strip_prefix, strip_prefix_chars, text_of,
};
use crate::types::{
    calls_view, empty_object, json_opt, messages_view, no_members, ChatMessage, MessageView,
    ToolCallRequest, ToolCallView,
};
use crate::value::{group_json_view, items_view, Json, JsonView};
use vstd::prelude::*;

verus! {

broadcast use group_json_view;

pub struct GeminiProvider;

/// A turn of a conversation: who speaks, and the parts of what is said.
pub struct Turn {
    pub role: String,
    pub parts: Vec<Json>,
}

pub struct TurnView {
    pub role: Seq<char>,
    pub parts: Seq<JsonView>,
}

impl View for Turn {
    type V = TurnView;

    open spec fn view(&self) -> TurnView {
        TurnView { role: self.role@, parts: items_view(self.parts@) }
    }
}

pub open spec fn turns_view(turns: Seq<Turn>) -> Seq<TurnView> {
    turns.map_values(|t: Turn| t@)
}

// ---------------------------------------------------------------------------
// Parts
// ---------------------------------------------------------------------------

pub open spec fn text_part(text: Seq<char>) -> JsonView {
    JsonView::Object(seq![("text"@, JsonView::Str(text))])
}

/// The media type and the data of a URL `data:type;base64,data`.
pub open spec fn data_url(url: Seq<char>) -> Option<(Seq<char>, Seq<char>)> {
    match strip_prefix(url, "data:"@) {
        None => None,
        Some(rest) => match split(rest, ";"@) {
            None => None,
            Some((mime, tail)) => match strip_prefix(tail, "base64,"@) {
                None => None,
                Some(data) => Some((mime, data)),
            },
        },
    }
}

/// The URL in an image block.
pub open spec fn image_url(block: JsonView) -> Option<Seq<char>> {
    match block.get("image_url"@) {
        Some(image) => image.str_at("url"@),
        None => None,
    }
}

pub open spec fn data_part(mime: Seq<char>, data: Seq<char>) -> JsonView {
    JsonView::Object(
        seq![
            (
                "inlineData"@,
                JsonView::Object(
                    seq![("data"@, JsonView::Str(data)), ("mimeType"@, JsonView::Str(mime))],
                ),
            ),
        ],
    )
}

/// The part that a content block becomes: text, or an image given as data.
pub open spec fn block_part(block: JsonView) -> Option<JsonView> {
    let kind = block.str_or("type"@, Seq::empty());
    if kind == "text"@ {
        match block.str_at("text"@) {
            Some(text) => Some(text_part(text)),
            None => None,
        }
    } else if kind == "image_url"@ {
        match image_url(block) {
            Some(url) => match data_url(url) {
                Some((mime, data)) => Some(data_part(mime, data)),
                None => None,
            },
            None => None,
        }
    } else {
        None
    }
}

pub open spec fn block_parts(blocks: Seq<JsonView>) -> Seq<JsonView>
    decreases blocks.len(),
{
    if blocks.len() == 0 {
        Seq::empty()
    } else {
        match block_part(blocks.last()) {
            Some(part) => block_parts(blocks.drop_last()).push(part),
            None => block_parts(blocks.drop_last()),
        }
    }
}

/// The parts, or one empty text where there is none.
pub open spec fn some_part(parts: Seq<JsonView>) -> Seq<JsonView> {
    if parts.len() == 0 {
        seq![text_part(Seq::empty())]
    } else {
        parts
    }
}

pub open spec fn call_part(call: ToolCallView) -> JsonView {
    let func = JsonView::Object(
        seq![("args"@, call.arguments), ("name"@, JsonView::Str(call.name))],
    );
    match call.thought_signature {
        Some(signature) => JsonView::Object(
            seq![("functionCall"@, func), ("thoughtSignature"@, JsonView::Str(signature))],
        ),
        None => JsonView::Object(seq![("functionCall"@, func)]),
    }
}

pub open spec fn content_str(content: JsonView) -> Seq<char> {
    match content {
        JsonView::Str(text) => text,
        _ => Seq::empty(),
    }
}

pub open spec fn assistant_parts(message: MessageView) -> Seq<JsonView> {
    let text = content_str(message.content);
    let calls = match message.tool_calls {
        Some(list) => list.map_values(|c: ToolCallView| call_part(c)),
        None => Seq::empty(),
    };
    some_part(
        (if text.len() > 0 {
            seq![text_part(text)]
        } else {
            Seq::empty()
        }) + calls,
    )
}

/// The result of a tool as a part, once its text was read as JSON with result `parsed`.
pub open spec fn result_part(message: MessageView, parsed: Option<JsonView>) -> JsonView {
    let name = match message.name {
        Some(n) => n,
        None => or_else(message.tool_call_id, Seq::empty()),
    };
    let response = match parsed {
        Some(v) => v,
        None => JsonView::Object(
            seq![("result"@, JsonView::Str(content_str(message.content)))],
        ),
    };
    JsonView::Object(
        seq![
            (
                "functionResponse"@,
                JsonView::Object(seq![("name"@, JsonView::Str(name)), ("response"@, response)]),
            ),
        ],
    )
}

// ---------------------------------------------------------------------------
// Conversations
// ---------------------------------------------------------------------------

/// The turn holds results of tools, to which another result can be added.
pub open spec fn holds_results(turn: TurnView) -> bool {
    &&& turn.role == "user"@
    &&& turn.parts.len() > 0
    &&& turn.parts[0].get("functionResponse"@) is Some
}

/// The system text and the turns after one more message, whose text was read as JSON with
/// result `parsed`.
pub open spec fn add_turn(
    state: (Option<Seq<char>>, Seq<TurnView>),
    message: MessageView,
    parsed: Option<JsonView>,
) -> (Option<Seq<char>>, Seq<TurnView>) {
    let (system, turns) = state;
    let text = content_str(message.content);
    if message.role == "system"@ {
        (
            Some(
                match system {
                    Some(existing) => existing + "\n\n"@ + text,
                    None => text,
                },
            ),
            turns,
        )
    } else if message.role == "user"@ {
        let parts = match message.content {
            JsonView::Array(blocks) => some_part(block_parts(blocks)),
            _ => seq![text_part(text)],
        };
        (system, turns.push(TurnView { role: "user"@, parts }))
    } else if message.role == "assistant"@ {
        (system, turns.push(TurnView { role: "model"@, parts: assistant_parts(message) }))
    } else if message.role == "tool"@ {
        let part = result_part(message, parsed);
        if turns.len() > 0 && holds_results(turns.last()) {
            let last = turns.last();
            (
                system,
                turns.update(
                    turns.len() - 1,
                    TurnView { role: last.role, parts: last.parts.push(part) },
                ),
            )
        } else {
            (system, turns.push(TurnView { role: "user"@, parts: seq![part] }))
        }
    } else {
        (system, turns.push(TurnView { role: "user"@, parts: seq![text_part(text)] }))
    }
}

pub open spec fn all_turns(messages: Seq<MessageView>) -> (Option<Seq<char>>, Seq<TurnView>)
    decreases messages.len(),
{
    if messages.len() == 0 {
        (None, Seq::empty())
    } else {
        add_turn(
            all_turns(messages.drop_last()),
            messages.last(),
            json_parsed(content_str(messages.last().content)),
        )
    }
}

/// The turns with consecutive ones of the same role joined into one.
pub open spec fn merged(turns: Seq<TurnView>) -> Seq<TurnView>
    decreases turns.len(),
{
    if turns.len() == 0 {
        Seq::empty()
    } else {
        let before = merged(turns.drop_last());
        let turn = turns.last();
        if before.len() > 0 && before.last().role == turn.role {
            before.update(
                before.len() - 1,
                TurnView { role: turn.role, parts: before.last().parts + turn.parts },
            )
        } else {
            before.push(turn)
        }
    }
}

/// The parts of all turns, in order.
pub open spec fn parts_of(turns: Seq<TurnView>) -> Seq<JsonView>
    decreases turns.len(),
{
    if turns.len() == 0 {
        Seq::empty()
    } else {
        parts_of(turns.drop_last()) + turns.last().parts
    }
}

/// In joined turns the roles alternate, and no part is lost or moved.
pub proof fn law_merged_turns_alternate(turns: Seq<TurnView>)
    ensures
        forall|i: int|
            0 < i < merged(turns).len() ==> (#[trigger] merged(turns)[i]).role != merged(
                turns,
            )[i - 1].role,
        parts_of(merged(turns)) == parts_of(turns),
    decreases turns.len(),
{
    if turns.len() > 0 {
        law_merged_turns_alternate(turns.drop_last());
        let before = merged(turns.drop_last());
        let now = merged(turns);
        let turn = turns.last();
        if before.len() > 0 && before.last().role == turn.role {
            assert forall|i: int| 0 < i < now.len() implies (#[trigger] now[i]).role != now[i
                - 1].role by {
                assert(now[i].role == before[i].role);
                assert(now[i - 1].role == before[i - 1].role);
                assert(before[i].role != before[i - 1].role);
            }
            assert(now.drop_last() =~= before.drop_last());
            assert(parts_of(now) =~= parts_of(before) + turn.parts);
        } else {
            assert forall|i: int| 0 < i < now.len() implies (#[trigger] now[i]).role != now[i
                - 1].role by {
                if i < before.len() {
                    assert(now[i] == before[i]);
                    assert(now[i - 1] == before[i - 1]);
                    assert(before[i].role != before[i - 1].role);
                } else {
                    assert(now[i - 1] == before.last());
                }
            }
            assert(now.drop_last() =~= before);
        }
    }
}

/// A turn of the user or of the model that says something.
pub open spec fn says_something(turn: TurnView) -> bool {
    (turn.role == "user"@ || turn.role == "model"@) && turn.parts.len() > 0
}

proof fn lemma_all_turns_say_something(messages: Seq<MessageView>)
    ensures
        forall|i: int|
            0 <= i < all_turns(messages).1.len() ==> says_something(
                #[trigger] all_turns(messages).1[i],
            ),
    decreases messages.len(),
{
    if messages.len() > 0 {
        lemma_all_turns_say_something(messages.drop_last());
        let before = all_turns(messages.drop_last()).1;
        let now = all_turns(messages).1;
        assert forall|i: int| 0 <= i < now.len() implies says_something(#[trigger] now[i]) by {
            if i < before.len() {
                assert(says_something(before[i]));
            }
        }
    }
}

proof fn lemma_merged_say_something(turns: Seq<TurnView>)
    requires
        forall|i: int| 0 <= i < turns.len() ==> says_something(#[trigger] turns[i]),
    ensures
        forall|i: int| 0 <= i < merged(turns).len() ==> says_something(#[trigger] merged(turns)[i]),
    decreases turns.len(),
{
    if turns.len() > 0 {
        let prior = turns.drop_last();
        assert forall|i: int| 0 <= i < prior.len() implies says_something(#[trigger] prior[i]) by {
            assert(prior[i] == turns[i]);
        }
        lemma_merged_say_something(prior);
        let before = merged(prior);
        let now = merged(turns);
        assert(says_something(turns[turns.len() - 1]));
        assert forall|i: int| 0 <= i < now.len() implies says_something(#[trigger] now[i]) by {
            if i < before.len() {
                assert(says_something(before[i]));
            }
        }
    }
}

/// Every turn that is sent is one of the user or of the model, has a part, and is followed by one
/// of the other.
pub proof fn law_turns_can_be_sent(messages: Seq<MessageView>)
    ensures
        ({
            let turns = merged(all_turns(messages).1);
            &&& forall|i: int| 0 <= i < turns.len() ==> says_something(#[trigger] turns[i])
            &&& forall|i: int|
                0 < i < turns.len() ==> (#[trigger] turns[i]).role != turns[i - 1].role
        }),
{
    lemma_all_turns_say_something(messages);
    lemma_merged_say_something(all_turns(messages).1);
    law_merged_turns_alternate(all_turns(messages).1);
}

/// A turn as the service takes it.
pub open spec fn turn_json(turn: TurnView) -> JsonView {
    JsonView::Object(
        seq![("parts"@, JsonView::Array(turn.parts)), ("role"@, JsonView::Str(turn.role))],
    )
}

// ---------------------------------------------------------------------------
// Tools
// ---------------------------------------------------------------------------

pub open spec fn default_parameters() -> JsonView {
    JsonView::Object(
        seq![("properties"@, empty_object()), ("type"@, JsonView::Str("object"@))],
    )
}

/// The declaration of a tool; nothing where it is no function with a name.
pub open spec fn declaration(tool: JsonView) -> Option<JsonView> {
    match tool.get("function"@) {
        None => None,
        Some(func) => match func.str_at("name"@) {
            None => None,
            Some(name) => Some(
                JsonView::Object(
                    seq![
                        (
                            "description"@,
                            JsonView::Str(func.str_or("description"@, Seq::empty())),
                        ),
                        ("name"@, JsonView::Str(name)),
                        (
                            "parameters"@,
                            match func.get("parameters"@) {
                                Some(p) => p,
                                None => default_parameters(),
                            },
                        ),
                    ],
                ),
            ),
        },
    }
}

pub open spec fn declarations(tools: Seq<JsonView>) -> Seq<JsonView>
    decreases tools.len(),
{
    if tools.len() == 0 {
        Seq::empty()
    } else {
        match declaration(tools.last()) {
            Some(d) => declarations(tools.drop_last()).push(d),
            None => declarations(tools.drop_last()),
        }
    }
}

pub open spec fn tool_group(tools: Seq<JsonView>) -> Seq<JsonView> {
    let list = declarations(tools);
    if list.len() == 0 {
        Seq::empty()
    } else {
        seq![JsonView::Object(seq![("functionDeclarations"@, JsonView::Array(list))])]
    }
}

// ---------------------------------------------------------------------------
// Executable conversions
// ---------------------------------------------------------------------------

pub fn data_url_of(url: &str) -> (r: Option<(String, String)>)
    ensures
        match r {
            Some((mime, data)) => data_url(url@) == Some((mime@, data@)),
            None => data_url(url@) is None,
        },
{
    let chars = chars_of(url);
    match strip_prefix_chars(chars.as_slice(), "data:") {
        None => None,
        Some(rest) => match split_chars(rest, ";") {
            None => None,
            Some((mime, tail)) => match strip_prefix_chars(tail, "base64,") {
                None => None,
                Some(data) => Some((text_of(mime), text_of(data))),
            },
        },
    }
}

pub fn image_url_of(block: &Json) -> (r: Option<&str>)
    ensures
        match r {
            Some(url) => image_url(block@) == Some(url@),
            None => image_url(block@) is None,
        },
{
    match block.get("image_url") {
        Some(image) => image.str_at("url"),
        None => None,
    }
}

fn text_part_of(text: &str) -> (r: Json)
    ensures
        r@ == text_part(text@),
{
    object1("text", Json::text(text))
}

fn block_part_of(block: &Json) -> (r: Option<Json>)
    ensures
        json_opt(r) == block_part(block@),
{
    let kind = match block.str_at("type") {
        Some(kind) => kind.to_owned(),
        None => String::new(),
    };
    if same_text(kind.as_str(), "text") {
        match block.str_at("text") {
            Some(text) => Some(text_part_of(text)),
            None => None,
        }
    } else if same_text(kind.as_str(), "image_url") {
        match image_url_of(block) {
            Some(url) => match data_url_of(url) {
                Some((mime, data)) => Some(
                    object1(
                        "inlineData",
                        object2("data", Json::Str(data), "mimeType", Json::Str(mime)),
                    ),
                ),
                None => None,
            },
            None => None,
        }
    } else {
        None
    }
}

fn block_parts_of(blocks: &Vec<Json>) -> (r: Vec<Json>)
    ensures
        items_view(r@) == block_parts(items_view(blocks@)),
{
    let mut r: Vec<Json> = Vec::new();
    let ghost views = items_view(blocks@);
    let mut i: usize = 0;
    assert(items_view(r@) =~= Seq::empty());
    while i < blocks.len()
        invariant
            i <= blocks.len(),
            views == items_view(blocks@),
            items_view(r@) == block_parts(views.take(i as int)),
        decreases blocks.len() - i,
    {
        assert(views.take(i + 1).drop_last() =~= views.take(i as int));
        let ghost so_far = items_view(r@);
        if let Some(part) = block_part_of(&blocks[i]) {
            r.push(part);
            assert(items_view(r@) =~= so_far.push(part@));
        }
        i += 1;
    }
    assert(views.take(views.len() as int) =~= views);
    r
}

fn some_part_of(parts: Vec<Json>) -> (r: Vec<Json>)
    ensures
        items_view(r@) == some_part(items_view(parts@)),
{
    if parts.len() == 0 {
        let mut r: Vec<Json> = Vec::new();
        let part = text_part_of("");
        proof {
            reveal_strlit("");
            assert(""@ =~= Seq::empty());
        }
        r.push(part);
        assert(items_view(r@) =~= seq![part@]);
        r
    } else {
        parts
    }
}

fn one_part(part: Json) -> (r: Vec<Json>)
    ensures
        items_view(r@) == seq![part@],
{
    let mut r: Vec<Json> = Vec::new();
    r.push(part);
    assert(items_view(r@) =~= seq![part@]);
    r
}

fn call_part_of(call: &ToolCallRequest) -> (r: Json)
    ensures
        r@ == call_part(call@),
{
    let func = object2("args", call.arguments.clone(), "name", Json::text(call.name.as_str()));
    match &call.thought_signature {
        Some(signature) => object2(
            "functionCall",
            func,
            "thoughtSignature",
            Json::text(signature.as_str()),
        ),
        None => object1("functionCall", func),
    }
}

fn content_str_of(content: &Json) -> (r: &str)
    ensures
        r@ == content_str(content@),
{
    match content {
        Json::Str(text) => text.as_str(),
        _ => {
            proof {
                reveal_strlit("");
                assert(""@ =~= Seq::empty());
            }
            ""
        },
    }
}

fn assistant_parts_of(message: &ChatMessage) -> (r: Vec<Json>)
    ensures
        items_view(r@) == assistant_parts(message@),
{
    let mut parts: Vec<Json> = Vec::new();
    let text = content_str_of(&message.content);
    if !text.is_empty() {
        parts = one_part(text_part_of(text));
    } else {
        assert(items_view(parts@) =~= Seq::empty());
    }
    let ghost first = items_view(parts@);
    if let Some(calls) = &message.tool_calls {
        let ghost views = calls_view(calls@).map_values(|c: ToolCallView| call_part(c));
        let mut i: usize = 0;
        assert(first + views.take(0) =~= first);
        while i < calls.len()
            invariant
                i <= calls.len(),
                views == calls_view(calls@).map_values(|c: ToolCallView| call_part(c)),
                items_view(parts@) == first + views.take(i as int),
            decreases calls.len() - i,
        {
            let ghost so_far = items_view(parts@);
            let part = call_part_of(&calls[i]);
            assert(part@ == views[i as int]);
            parts.push(part);
            assert(items_view(parts@) =~= so_far.push(part@));
            assert(items_view(parts@) =~= first + views.take(i + 1));
            i += 1;
        }
        assert(views.take(views.len() as int) =~= views);
    } else {
        assert(first + Seq::empty() =~= first);
    }
    some_part_of(parts)
}

fn result_part_of(message: &ChatMessage, parsed: Option<Json>) -> (r: Json)
    ensures
        r@ == result_part(message@, json_opt(parsed)),
{
    let name = match &message.name {
        Some(name) => name.clone(),
        None => match &message.tool_call_id {
            Some(id) => id.clone(),
            None => String::new(),
        },
    };
    let response = match parsed {
        Some(value) => value,
        None => object1("result", Json::text(content_str_of(&message.content))),
    };
    object1("functionResponse", object2("name", Json::Str(name), "response", response))
}

/// A conversation in the form of the service: the system text, and the turns.
pub struct Conversation {
    pub system: Option<String>,
    pub turns: Vec<Turn>,
}

impl View for Conversation {
    type V = (Option<Seq<char>>, Seq<TurnView>);

    open spec fn view(&self) -> (Option<Seq<char>>, Seq<TurnView>) {
        (opt_text(self.system), turns_view(self.turns@))
    }
}

fn push_turn(turns: &mut Vec<Turn>, role: &str, parts: Vec<Json>)
    ensures
        turns_view(final(turns)@) == turns_view(old(turns)@).push(
            TurnView { role: role@, parts: items_view(parts@) },
        ),
{
    let ghost before = turns_view(turns@);
    let turn = Turn { role: role.to_owned(), parts };
    turns.push(turn);
    assert(turns_view(turns@) =~= before.push(turn@));
}

impl Conversation {
    pub fn new() -> (r: Self)
        ensures
            r@ == (None::<Seq<char>>, Seq::<TurnView>::empty()),
    {
        let r = Conversation { system: None, turns: Vec::new() };
        assert(r@.1 =~= Seq::empty());
        r
    }

    /// Adds a message, given what its text was read as.
    pub fn add_message(&mut self, message: &ChatMessage, parsed: Option<Json>)
        ensures
            final(self)@ == add_turn(old(self)@, message@, json_opt(parsed)),
    {
        let role = message.role.as_str();
        let ghost before = self@;
        if same_text(role, "system") {
            let mut system = match &self.system {
                Some(existing) => {
                    let mut text = existing.clone();
                    text.push_str("\n\n");
                    text
                },
                None => String::new(),
            };
            system.push_str(content_str_of(&message.content));
            proof {
                if before.0 is None {
                    assert(system@ =~= content_str(message@.content));
                }
            }
            self.system = Some(system);
        } else if same_text(role, "user") {
            let parts = match &message.content {
                Json::Array(blocks) => some_part_of(block_parts_of(blocks)),
                _ => one_part(text_part_of(content_str_of(&message.content))),
            };
            push_turn(&mut self.turns, "user", parts);
        } else if same_text(role, "assistant") {
            push_turn(&mut self.turns, "model", assistant_parts_of(message));
        } else if same_text(role, "tool") {
            let part = result_part_of(message, parsed);
            let joins = self.turns.len() > 0 && {
                let last = &self.turns[self.turns.len() - 1];
                assert(before.1.last() == last@);
                same_text(last.role.as_str(), "user") && last.parts.len() > 0
                    && last.parts[0].get("functionResponse").is_some()
            };
            if joins {
                assert(holds_results(before.1.last()));
                if let Some(last) = self.turns.pop() {
                    let mut turn = last;
                    let ghost old_parts = items_view(turn.parts@);
                    turn.parts.push(part);
                    assert(items_view(turn.parts@) =~= old_parts.push(part@));
                    self.turns.push(turn);
                    assert(turns_view(self.turns@) =~= before.1.update(
                        before.1.len() - 1,
                        TurnView { role: before.1.last().role, parts: old_parts.push(part@) },
                    ));
                }
            } else {
                assert(!(before.1.len() > 0 && holds_results(before.1.last())));
                push_turn(&mut self.turns, "user", one_part(part));
            }
        } else {
            push_turn(
                &mut self.turns,
                "user",
                one_part(text_part_of(content_str_of(&message.content))),
            );
        }
    }
}

fn all_turns_of(messages: &[ChatMessage]) -> (r: Conversation)
    ensures
        r@ == all_turns(messages_view(messages@)),
{
    let mut r = Conversation::new();
    let ghost views = messages_view(messages@);
    let mut i: usize = 0;
    while i < messages.len()
        invariant
            i <= messages.len(),
            views == messages_view(messages@),
            r@ == all_turns(views.take(i as int)),
        decreases messages.len() - i,
    {
        assert(views.take(i + 1).drop_last() =~= views.take(i as int));
        assert(views[i as int] == messages@[i as int]@);
        let parsed = parse(content_str_of(&messages[i].content));
        r.add_message(&messages[i], parsed);
        i += 1;
    }
    assert(views.take(views.len() as int) =~= views);
    r
}

impl GeminiProvider {
    /// The name of a model without the prefix `gemini/`.
    pub fn normalize_model(model: &str) -> (r: String)
        ensures
            r@ == or_else(strip_prefix(model@, "gemini/"@), model@),
    {
        let chars = chars_of(model);
        match strip_prefix_chars(chars.as_slice(), "gemini/") {
            Some(rest) => text_of(rest),
            None => model.to_owned(),
        }
    }

    /// The turns with consecutive ones of the same role joined into one.
    pub fn merge_consecutive_roles(turns: &Vec<Turn>) -> (r: Vec<Turn>)
        ensures
            turns_view(r@) == merged(turns_view(turns@)),
    {
        let ghost views = turns_view(turns@);
        let mut r: Vec<Turn> = Vec::new();
        let mut i: usize = 0;
        assert(turns_view(r@) =~= merged(views.take(0)));
        while i < turns.len()
            invariant
                i <= turns.len(),
                views == turns_view(turns@),
                turns_view(r@) == merged(views.take(i as int)),
            decreases turns.len() - i,
        {
            assert(views.take(i + 1).drop_last() =~= views.take(i as int));
            let ghost before = turns_view(r@);
            let turn = &turns[i];
            let ghost more = items_view(turn.parts@);
            assert(views[i as int] == turn@);
            assert(before.len() > 0 ==> before.last() == r@.last()@);
            let mut copy = copy_items(&turn.parts);
            if r.len() > 0 && same_text(r[r.len() - 1].role.as_str(), turn.role.as_str()) {
                if let Some(mut last) = r.pop() {
                    let ghost parts = items_view(last.parts@);
                    assert(before.last() == last@);
                    last.parts.append(&mut copy);
                    assert(items_view(last.parts@) =~= parts + more);
                    r.push(last);
                    assert(turns_view(r@) =~= before.update(
                        before.len() - 1,
                        TurnView { role: turn.role@, parts: parts + more },
                    ));
                }
            } else {
                push_turn(&mut r, turn.role.as_str(), copy);
            }
            i += 1;
        }
        assert(views.take(views.len() as int) =~= views);
        r
    }

    /// The messages in the form of the service: the system text apart, and turns of alternating
    /// roles.
    pub fn convert_messages(messages: &[ChatMessage]) -> (r: (Option<String>, Vec<Json>))
        ensures
            opt_text(r.0) == all_turns(messages_view(messages@)).0,
            items_view(r.1@) == merged(all_turns(messages_view(messages@)).1).map_values(
                |t: TurnView| turn_json(t),
            ),
    {
        let conversation = all_turns_of(messages);
        let system = conversation.system;
        let turns = Self::merge_consecutive_roles(&conversation.turns);
        let ghost all = turns_view(turns@).map_values(|t: TurnView| turn_json(t));
        let mut r: Vec<Json> = Vec::new();
        let mut i: usize = 0;
        assert(items_view(r@) =~= all.take(0));
        while i < turns.len()
            invariant
                i <= turns.len(),
                all == turns_view(turns@).map_values(|t: TurnView| turn_json(t)),
                items_view(r@) == all.take(i as int),
            decreases turns.len() - i,
        {
            let ghost so_far = items_view(r@);
            let turn = &turns[i];
            let json = object2(
                "parts",
                Json::Array(copy_items(&turn.parts)),
                "role",
                Json::text(turn.role.as_str()),
            );
            assert(json@ == all[i as int]);
            r.push(json);
            assert(items_view(r@) =~= so_far.push(json@));
            assert(items_view(r@) =~= all.take(i + 1));
            i += 1;
        }
        assert(items_view(r@) =~= all);
        (system, r)
    }

    /// The tools as one group of function declarations; none where no tool can be declared.
    pub fn convert_tools(tools: &Vec<Json>) -> (r: Vec<Json>)
        ensures
            items_view(r@) == tool_group(items_view(tools@)),
    {
        let mut list: Vec<Json> = Vec::new();
        let ghost views = items_view(tools@);
        let mut i: usize = 0;
        assert(items_view(list@) =~= Seq::empty());
        while i < tools.len()
            invariant
                i <= tools.len(),
                views == items_view(tools@),
                items_view(list@) == declarations(views.take(i as int)),
            decreases tools.len() - i,
        {
            assert(views.take(i + 1).drop_last() =~= views.take(i as int));
            let ghost so_far = items_view(list@);
            if let Some(d) = declaration_of(&tools[i]) {
                list.push(d);
                assert(items_view(list@) =~= so_far.push(d@));
            }
            i += 1;
        }
        assert(views.take(views.len() as int) =~= views);
        if list.len() == 0 {
            assert(items_view(list@) =~= Seq::empty());
            list
        } else {
            one_part(object1("functionDeclarations", Json::Array(list)))
        }
    }
}

fn declaration_of(tool: &Json) -> (r: Option<Json>)
    ensures
        json_opt(r) == declaration(tool@),
{
    match tool.get("function") {
        None => None,
        Some(func) => match func.str_at("name") {
            None => None,
            Some(name) => {
                let description = match func.str_at("description") {
                    Some(text) => text.to_owned(),
                    None => String::new(),
                };
                let parameters = match func.get("parameters") {
                    Some(p) => p.clone(),
                    None => object2("properties", no_members(), "type", Json::text("object")),
                };
                assert(description@ == func@.str_or("description"@, Seq::empty()));
                assert(parameters@ == match func@.get("parameters"@) {
                    Some(p) => p,
                    None => default_parameters(),
                });
                let d = object3(
                    "description",
                    Json::Str(description),
                    "name",
                    Json::text(name),
                    "parameters",
                    parameters,
                );
                assert(d@->Object_0 =~= declaration(tool@)->0->Object_0);
                Some(d)
            },
        },
    }
}

} // verus!
