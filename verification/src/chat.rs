//! Requests to OpenAI-style services and what their answers mean.

use crate::error::{Error, ErrorView};
use crate::json::{json_parsed, json_pretty, parse, render_pretty};
use crate::openai::{text_tool_calls, OpenAIProvider};
use crate::text::{copy_opt, opt_text, same_text};
use crate::types::{
    calls_view, copy_messages, messages_view, or_empty, or_empty_object, text_message, ChatMessage,
    LLMResponse, MessageView, ResponseView, ToolCallRequest, ToolCallView,
};
use crate::value::{group_json_view, items_view, Json, JsonView};
use vstd::prelude::*;

verus! {

broadcast use group_json_view;

/// How tools are offered to a model.
#[derive(Clone, Copy, PartialEq, Eq, Structural)]
pub enum ToolCallMode {
    /// By the service's own tool interface.
    Native,
    /// By a description in the system message; calls come back as text.
    Text,
    /// Not at all.
    Off,
    /// By the tool interface until an answer shows that the model writes calls as text.
    Auto,
}

pub open spec fn mode_code(mode: ToolCallMode) -> u8 {
    match mode {
        ToolCallMode::Native => 0,
        ToolCallMode::Text => 1,
        ToolCallMode::Off => 2,
        ToolCallMode::Auto => 3,
    }
}

pub open spec fn mode_of_code(code: u8) -> ToolCallMode {
    match code {
        1 => ToolCallMode::Text,
        2 => ToolCallMode::Off,
        3 => ToolCallMode::Auto,
        _ => ToolCallMode::Native,
    }
}

/// A mode is read back from its code.
pub proof fn law_mode_codes(mode: ToolCallMode)
    ensures
        mode_of_code(mode_code(mode)) == mode,
{
}

/// The tools are offered by the service's own interface.
pub open spec fn offers_natively(mode: ToolCallMode, tool_count: nat) -> bool {
    tool_count > 0 && mode != ToolCallMode::Text && mode != ToolCallMode::Off
}

// ---------------------------------------------------------------------------
// Tools as text
// ---------------------------------------------------------------------------

pub const TOOLS_INTRO: &'static str = "\n\n## Available Tools\nYou MUST use tools to accomplish tasks. To call a tool, output a `<tool_call>` block with JSON inside.\nYou may call multiple tools in one response. Each call must be a separate `<tool_call>` block.\n\nFormat (you MUST follow this exact format):\n```\n<tool_call>\n{\"name\": \"tool_name\", \"arguments\": {\"param1\": \"value1\"}}\n</tool_call>\n```\n\nIMPORTANT RULES:\n- When the user asks you to do something that requires a tool, you MUST output <tool_call> blocks. Do NOT just describe what you would do.\n- After outputting tool calls, STOP and wait for the results. Do NOT guess or fabricate results.\n- If you don't need any tool, just respond normally with text.\n- For web content, use web_fetch. For search, use web_search.\n\nTools:\n";

/// The entry of one tool: its name, its description and the schema of its parameters.
pub open spec fn tool_entry(tool: JsonView) -> Seq<char> {
    match tool.get("function"@) {
        None => Seq::empty(),
        Some(func) => {
            let parameters = match func.get("parameters"@) {
                Some(p) => p,
                None => JsonView::Null,
            };
            "### "@ + func.str_or("name"@, "unknown"@) + "\n"@ + func.str_or(
                "description"@,
                Seq::empty(),
            ) + "\n"@ + (if parameters == JsonView::Null {
                Seq::empty()
            } else {
                "Parameters: "@ + json_pretty(parameters) + "\n"@
            }) + "\n"@
        },
    }
}

pub open spec fn tool_entries(tools: Seq<JsonView>) -> Seq<char>
    decreases tools.len(),
{
    if tools.len() == 0 {
        Seq::empty()
    } else {
        tool_entries(tools.drop_last()) + tool_entry(tools.last())
    }
}

fn push_tool_entry(text: &mut String, tool: &Json)
    ensures
        final(text)@ == old(text)@ + tool_entry(tool@),
{
    let ghost before = text@;
    match tool.get("function") {
        None => {
            assert(before + Seq::empty() =~= before);
        },
        Some(func) => {
            text.push_str("### ");
            match func.str_at("name") {
                Some(name) => text.push_str(name),
                None => text.push_str("unknown"),
            }
            text.push_str("\n");
            match func.str_at("description") {
                Some(description) => text.push_str(description),
                None => {
                    assert(text@ + Seq::empty() =~= text@);
                },
            }
            text.push_str("\n");
            match func.get("parameters") {
                Some(parameters) => {
                    if !parameters.is_null() {
                        text.push_str("Parameters: ");
                        text.push_str(render_pretty(parameters).as_str());
                        text.push_str("\n");
                    }
                },
                None => {},
            }
            text.push_str("\n");
            assert(text@ =~= before + tool_entry(tool@));
        },
    }
}

/// The introduction followed by the entries of the tools.
pub fn describe_tools(intro: &str, tools: &Vec<Json>) -> (r: String)
    ensures
        r@ == intro@ + tool_entries(items_view(tools@)),
{
    let mut text = intro.to_owned();
    let ghost views = items_view(tools@);
    let mut i: usize = 0;
    assert(intro@ + tool_entries(views.take(0)) =~= intro@);
    while i < tools.len()
        invariant
            i <= tools.len(),
            views == items_view(tools@),
            text@ == intro@ + tool_entries(views.take(i as int)),
        decreases tools.len() - i,
    {
        assert(views.take(i + 1).drop_last() =~= views.take(i as int));
        push_tool_entry(&mut text, &tools[i]);
        assert(text@ =~= intro@ + tool_entries(views.take(i + 1)));
        i += 1;
    }
    assert(views.take(views.len() as int) =~= views);
    text
}

/// The messages with a description of the tools in their system message, which is added where
/// the first message is of another role.
pub open spec fn with_tools(messages: Seq<MessageView>, prompt: Seq<char>) -> Seq<MessageView> {
    if messages.len() > 0 && messages[0].role == "system"@ {
        match messages[0].content {
            JsonView::Str(text) => messages.update(
                0,
                MessageView { content: JsonView::Str(text + prompt), ..messages[0] },
            ),
            _ => messages,
        }
    } else {
        seq![text_message("system"@, prompt)] + messages
    }
}

/// The messages with `prompt` behind the text of the system message that they start with.
pub fn append_to_system(messages: &Vec<ChatMessage>, prompt: &str) -> (r: Vec<ChatMessage>)
    requires
        messages@.len() > 0,
    ensures
        messages_view(r@) == (match messages@[0]@.content {
            JsonView::Str(text) => messages_view(messages@).update(
                0,
                MessageView { content: JsonView::Str(text + prompt@), ..messages@[0]@ },
            ),
            _ => messages_view(messages@),
        }),
{
    let mut r = copy_messages(messages.as_slice(), 0, messages.len());
    let ghost views = messages_view(messages@);
    assert(views.subrange(0, views.len() as int) =~= views);
    assert(messages_view(r@)[0] == views[0]);
    assert(r@[0]@ == messages@[0]@);
    if let Json::Str(text) = &messages[0].content {
        let mut content = text.clone();
        content.push_str(prompt);
        let mut first = messages[0].clone();
        first.content = Json::Str(content);
        r.set(0, first);
        assert(messages_view(r@) =~= views.update(0, first@));
    }
    r
}

pub fn prepend_message(message: ChatMessage, messages: &Vec<ChatMessage>) -> (r: Vec<ChatMessage>)
    ensures
        messages_view(r@) == seq![message@] + messages_view(messages@),
{
    let mut r: Vec<ChatMessage> = Vec::new();
    r.push(message);
    let mut rest = copy_messages(messages.as_slice(), 0, messages.len());
    let ghost tail = messages_view(rest@);
    assert(tail =~= messages_view(messages@));
    r.append(&mut rest);
    assert(messages_view(r@) =~= seq![message@] + tail);
    r
}

// ---------------------------------------------------------------------------
// Requests
// ---------------------------------------------------------------------------

/// What is sent to the service, but for the settings of the model.
pub struct RequestPlan {
    pub messages: Vec<ChatMessage>,
    pub tools: Vec<Json>,
    pub tool_choice: Option<String>,
}

pub fn copy_items(items: &Vec<Json>) -> (r: Vec<Json>)
    ensures
        items_view(r@) == items_view(items@),
{
    let mut r: Vec<Json> = Vec::new();
    let mut i: usize = 0;
    while i < items.len()
        invariant
            i <= items.len(),
            items_view(r@) == items_view(items@).take(i as int),
        decreases items.len() - i,
    {
        let item = items[i].clone();
        let ghost so_far = items_view(r@);
        r.push(item);
        assert(items_view(r@) =~= so_far.push(item@));
        assert(items_view(r@) =~= items_view(items@).take(i + 1));
        i += 1;
    }
    assert(items_view(r@) =~= items_view(items@));
    r
}

impl OpenAIProvider {
    pub fn mode_to_u8(mode: ToolCallMode) -> (r: u8)
        ensures
            r == mode_code(mode),
    {
        match mode {
            ToolCallMode::Native => 0,
            ToolCallMode::Text => 1,
            ToolCallMode::Off => 2,
            ToolCallMode::Auto => 3,
        }
    }

    pub fn mode_from_u8(mode: u8) -> (r: ToolCallMode)
        ensures
            r == mode_of_code(mode),
    {
        match mode {
            1 => ToolCallMode::Text,
            2 => ToolCallMode::Off,
            3 => ToolCallMode::Auto,
            _ => ToolCallMode::Native,
        }
    }

    /// A description of the tools for a system message.
    pub fn build_tools_prompt(tools: &Vec<Json>) -> (r: String)
        ensures
            r@ == TOOLS_INTRO@ + tool_entries(items_view(tools@)),
    {
        describe_tools(TOOLS_INTRO, tools)
    }

    /// The messages with a description of the tools in their system message.
    pub fn inject_tools_into_messages(messages: &Vec<ChatMessage>, tools: &Vec<Json>) -> (r: Vec<
        ChatMessage,
    >)
        ensures
            messages_view(r@) == with_tools(
                messages_view(messages@),
                TOOLS_INTRO@ + tool_entries(items_view(tools@)),
            ),
    {
        let prompt = Self::build_tools_prompt(tools);
        if messages.len() > 0 && same_text(messages[0].role.as_str(), "system") {
            append_to_system(messages, prompt.as_str())
        } else {
            prepend_message(ChatMessage::system(prompt.as_str()), messages)
        }
    }

    /// What is sent for the given messages and tools: with `use_native_tools` the tools as such,
    /// otherwise a description of them in the system message.
    pub fn plan_request(
        messages: &Vec<ChatMessage>,
        tools: &Vec<Json>,
        use_native_tools: bool,
    ) -> (r: RequestPlan)
        ensures
            messages_view(r.messages@) == (if tools@.len() == 0 || use_native_tools {
                messages_view(messages@)
            } else {
                with_tools(
                    messages_view(messages@),
                    TOOLS_INTRO@ + tool_entries(items_view(tools@)),
                )
            }),
            items_view(r.tools@) == (if use_native_tools {
                items_view(tools@)
            } else {
                Seq::empty()
            }),
            opt_text(r.tool_choice) == (if use_native_tools && tools@.len() > 0 {
                Some("auto"@)
            } else {
                None
            }),
    {
        let ghost views = messages_view(messages@);
        assert(views.subrange(0, views.len() as int) =~= views);
        if tools.len() == 0 {
            let none: Vec<Json> = Vec::new();
            assert(items_view(none@) =~= items_view(tools@));
            assert(items_view(none@) =~= Seq::empty());
            RequestPlan {
                messages: copy_messages(messages.as_slice(), 0, messages.len()),
                tools: none,
                tool_choice: None,
            }
        } else if use_native_tools {
            RequestPlan {
                messages: copy_messages(messages.as_slice(), 0, messages.len()),
                tools: copy_items(tools),
                tool_choice: Some("auto".to_owned()),
            }
        } else {
            let none: Vec<Json> = Vec::new();
            assert(items_view(none@) =~= Seq::empty());
            RequestPlan {
                messages: Self::inject_tools_into_messages(messages, tools),
                tools: none,
                tool_choice: None,
            }
        }
    }

    /// Whether the first request of a chat offers the tools by the service's own interface.
    pub fn starts_natively(mode: ToolCallMode, tool_count: usize) -> (r: bool)
        ensures
            r == offers_natively(mode, tool_count as nat),
    {
        tool_count > 0 && mode != ToolCallMode::Text && mode != ToolCallMode::Off
    }
}

// ---------------------------------------------------------------------------
// Answers
// ---------------------------------------------------------------------------

/// A call as the service's tool interface hands it over.
pub struct ToolCall {
    pub id: String,
    pub name: String,
    pub arguments: String,
}

pub struct ResponseMessage {
    pub content: Option<String>,
    pub reasoning_content: Option<String>,
    pub tool_calls: Option<Vec<ToolCall>>,
}

pub struct Choice {
    pub message: ResponseMessage,
    pub finish_reason: Option<String>,
}

/// An answer of the service.
pub struct ChatResponse {
    pub choices: Vec<Choice>,
    pub usage: Option<Json>,
}

pub open spec fn native_call(call: ToolCall, parsed: Option<JsonView>) -> ToolCallView {
    ToolCallView {
        id: call.id@,
        name: call.name@,
        arguments: or_empty(parsed),
        thought_signature: None,
    }
}

pub open spec fn native_calls(calls: Option<Vec<ToolCall>>) -> Seq<ToolCallView> {
    match calls {
        Some(list) => list@.map_values(|c: ToolCall| native_call(c, json_parsed(c.arguments@))),
        None => Seq::empty(),
    }
}

pub open spec fn text_or_empty(text: Option<String>) -> Seq<char> {
    match text {
        Some(s) => s@,
        None => Seq::empty(),
    }
}

pub open spec fn nonempty(text: Seq<char>) -> Option<Seq<char>> {
    if text.len() == 0 {
        None
    } else {
        Some(text)
    }
}

pub open spec fn or_stop(reason: Option<String>) -> Seq<char> {
    match reason {
        Some(r) => r@,
        None => "stop"@,
    }
}

pub open spec fn or_null(usage: Option<Json>) -> JsonView {
    match usage {
        Some(u) => u@,
        None => JsonView::Null,
    }
}

/// What a chat does once the answer to a native request is there.
pub enum NativeStep {
    /// It ends with this response, and further chats use this mode.
    Answer { response: LLMResponse, mode: ToolCallMode },
    /// It asks again with the tools as text, and further chats do so at once.
    AskAsText,
    Fail { error: Error },
}

pub enum NativeStepView {
    Answer { response: ResponseView, mode: ToolCallMode },
    AskAsText,
    Fail { error: ErrorView },
}

impl View for NativeStep {
    type V = NativeStepView;

    open spec fn view(&self) -> NativeStepView {
        match *self {
            NativeStep::Answer { response, mode } => NativeStepView::Answer {
                response: response@,
                mode,
            },
            NativeStep::AskAsText => NativeStepView::AskAsText,
            NativeStep::Fail { error } => NativeStepView::Fail { error: error@ },
        }
    }
}

/// The step after a native answer whose calls were read as `calls` and whose text holds the
/// calls and the remaining text `in_text`.
pub open spec fn native_step(
    choice: Choice,
    usage: Option<Json>,
    mode: ToolCallMode,
    calls: Seq<ToolCallView>,
    in_text: (Seq<char>, Seq<ToolCallView>),
) -> NativeStepView {
    let content = text_or_empty(choice.message.content);
    let reasoning_content = opt_text(choice.message.reasoning_content);
    if calls.len() > 0 {
        NativeStepView::Answer {
            response: ResponseView {
                content: nonempty(content),
                reasoning_content,
                tool_calls: calls,
                finish_reason: or_stop(choice.finish_reason),
                usage: or_null(usage),
            },
            mode,
        }
    } else if in_text.1.len() > 0 {
        NativeStepView::Answer {
            response: ResponseView {
                content: nonempty(in_text.0),
                reasoning_content,
                tool_calls: in_text.1,
                finish_reason: "tool_calls"@,
                usage: or_null(usage),
            },
            mode: if mode == ToolCallMode::Auto {
                ToolCallMode::Text
            } else {
                mode
            },
        }
    } else if content.len() > 0 || mode == ToolCallMode::Native {
        NativeStepView::Answer {
            response: ResponseView {
                content: Some(content),
                reasoning_content,
                tool_calls: Seq::empty(),
                finish_reason: or_stop(choice.finish_reason),
                usage: or_null(usage),
            },
            mode,
        }
    } else {
        NativeStepView::AskAsText
    }
}

/// The response to a request with the tools as text.
pub open spec fn text_response(
    choice: Choice,
    usage: Option<Json>,
    found: (Seq<char>, Seq<ToolCallView>),
) -> ResponseView {
    ResponseView {
        content: nonempty(found.0),
        reasoning_content: opt_text(choice.message.reasoning_content),
        tool_calls: found.1,
        finish_reason: or_stop(choice.finish_reason),
        usage: or_null(usage),
    }
}

fn take_text(text: &Option<String>) -> (r: String)
    ensures
        r@ == text_or_empty(*text),
{
    match text {
        Some(s) => s.clone(),
        None => String::new(),
    }
}

pub fn some_unless_empty(text: String) -> (r: Option<String>)
    ensures
        opt_text(r) == nonempty(text@),
{
    if text.as_str().is_empty() {
        None
    } else {
        Some(text)
    }
}

fn reason_or_stop(reason: &Option<String>) -> (r: String)
    ensures
        r@ == or_stop(*reason),
{
    match reason {
        Some(s) => s.clone(),
        None => "stop".to_owned(),
    }
}

fn usage_or_null(usage: Option<Json>) -> (r: Json)
    ensures
        r@ == or_null(usage),
{
    match usage {
        Some(u) => u,
        None => Json::Null,
    }
}

fn native_calls_of(calls: &Option<Vec<ToolCall>>) -> (r: Vec<ToolCallRequest>)
    ensures
        calls_view(r@) == native_calls(*calls),
{
    let mut r: Vec<ToolCallRequest> = Vec::new();
    assert(calls_view(r@) =~= Seq::empty());
    if let Some(list) = calls {
        let ghost all = native_calls(*calls);
        let mut i: usize = 0;
        while i < list.len()
            invariant
                i <= list.len(),
                all == native_calls(Some(*list)),
                calls_view(r@) == all.take(i as int),
            decreases list.len() - i,
        {
            let ghost so_far = calls_view(r@);
            let parsed = parse(list[i].arguments.as_str());
            let call = ToolCallRequest {
                id: list[i].id.clone(),
                name: list[i].name.clone(),
                arguments: or_empty_object(parsed),
                thought_signature: None,
            };
            r.push(call);
            assert(call@ == all[i as int]);
            assert(calls_view(r@) =~= so_far.push(call@));
            assert(calls_view(r@) =~= all.take(i + 1));
            i += 1;
        }
        assert(calls_view(r@) =~= all);
    }
    r
}

impl OpenAIProvider {
    /// The step after a native answer, given the calls of its tool interface and those that its
    /// text holds.
    pub fn decide_native(
        choice: &Choice,
        usage: Option<Json>,
        mode: ToolCallMode,
        calls: Vec<ToolCallRequest>,
        in_text: (String, Vec<ToolCallRequest>),
    ) -> (r: NativeStep)
        ensures
            r@ == native_step(
                *choice,
                usage,
                mode,
                calls_view(calls@),
                (in_text.0@, calls_view(in_text.1@)),
            ),
    {
        let content = take_text(&choice.message.content);
        let reasoning_content = copy_opt(&choice.message.reasoning_content);
        if calls.len() > 0 {
            return NativeStep::Answer {
                response: LLMResponse {
                    content: some_unless_empty(content),
                    reasoning_content,
                    tool_calls: calls,
                    finish_reason: reason_or_stop(&choice.finish_reason),
                    usage: usage_or_null(usage),
                },
                mode,
            };
        }
        if in_text.1.len() > 0 {
            return NativeStep::Answer {
                response: LLMResponse {
                    content: some_unless_empty(in_text.0),
                    reasoning_content,
                    tool_calls: in_text.1,
                    finish_reason: "tool_calls".to_owned(),
                    usage: usage_or_null(usage),
                },
                mode: if mode == ToolCallMode::Auto {
                    ToolCallMode::Text
                } else {
                    mode
                },
            };
        }
        if !content.as_str().is_empty() || mode == ToolCallMode::Native {
            let none: Vec<ToolCallRequest> = Vec::new();
            assert(calls_view(none@) =~= Seq::empty());
            return NativeStep::Answer {
                response: LLMResponse {
                    content: Some(content),
                    reasoning_content,
                    tool_calls: none,
                    finish_reason: reason_or_stop(&choice.finish_reason),
                    usage: usage_or_null(usage),
                },
                mode,
            };
        }
        NativeStep::AskAsText
    }

    /// What a chat does with the answer to its native request.
    pub fn after_native(response: ChatResponse, mode: ToolCallMode) -> (r: NativeStep)
        ensures
            r@ == (if response.choices@.len() == 0 {
                NativeStepView::Fail { error: ErrorView::Provider("No choices in response"@) }
            } else {
                native_step(
                    response.choices@[0],
                    response.usage,
                    mode,
                    native_calls(response.choices@[0].message.tool_calls),
                    text_tool_calls(text_or_empty(response.choices@[0].message.content)),
                )
            }),
    {
        if response.choices.len() == 0 {
            return NativeStep::Fail {
                error: Error::Provider("No choices in response".to_owned()),
            };
        }
        let choice = &response.choices[0];
        let calls = native_calls_of(&choice.message.tool_calls);
        let content = take_text(&choice.message.content);
        let in_text = Self::parse_text_tool_calls(content.as_str());
        Self::decide_native(choice, response.usage, mode, calls, in_text)
    }

    /// Whether the request with the tools as text offers any: not where tools are switched off.
    pub fn offers_text_tools(mode: ToolCallMode) -> (r: bool)
        ensures
            r == (mode != ToolCallMode::Off),
    {
        mode != ToolCallMode::Off
    }

    /// The response to a request with the tools as text, given what its text was taken apart into.
    pub fn decide_text(
        choice: &Choice,
        usage: Option<Json>,
        found: (String, Vec<ToolCallRequest>),
    ) -> (r: LLMResponse)
        ensures
            r@ == text_response(*choice, usage, (found.0@, calls_view(found.1@))),
    {
        LLMResponse {
            content: some_unless_empty(found.0),
            reasoning_content: copy_opt(&choice.message.reasoning_content),
            tool_calls: found.1,
            finish_reason: reason_or_stop(&choice.finish_reason),
            usage: usage_or_null(usage),
        }
    }

    /// What a chat ends with once the answer to its request with the tools as text is there.
    pub fn after_text(response: ChatResponse, tool_count: usize) -> (r: Result<LLMResponse, Error>)
        ensures
            match r {
                Ok(answer) => {
                    &&& response.choices@.len() > 0
                    &&& answer@ == text_response(
                        response.choices@[0],
                        response.usage,
                        if tool_count > 0 {
                            text_tool_calls(text_or_empty(response.choices@[0].message.content))
                        } else {
                            (
                                text_or_empty(response.choices@[0].message.content),
                                Seq::<ToolCallView>::empty(),
                            )
                        },
                    )
                },
                Err(error) => response.choices@.len() == 0 && error@ == ErrorView::Provider(
                    "No choices in response"@,
                ),
            },
    {
        if response.choices.len() == 0 {
            return Err(Error::Provider("No choices in response".to_owned()));
        }
        let choice = &response.choices[0];
        let content = take_text(&choice.message.content);
        let found = if tool_count > 0 {
            Self::parse_text_tool_calls(content.as_str())
        } else {
            let none: Vec<ToolCallRequest> = Vec::new();
            assert(calls_view(none@) =~= Seq::empty());
            (content, none)
        };
        Ok(Self::decide_text(choice, response.usage, found))
    }
}

} // verus!
