//! Messages, tools and answers in the form of the Ollama service.

use crate::chat::{
    append_to_system, copy_items, describe_tools, nonempty, some_unless_empty, tool_entries,
};
use crate::gemini::{content_str, data_url, data_url_of, image_url, image_url_of};
use crate::gemini_answer::{token_counts, token_counts_of};
use crate::json::{json_parsed, json_text, parse, render};
use crate::openai::standard_call;
use crate::stream::{lemma_streamed_concat, or_else, streamed_reasoning, streamed_text};
use crate::stream_run::{ends, response_opt, Collects};
use crate::text::{
    after, before, chars_of, decimal, decimal_text, join, join_texts, lemma_split, opt_text,
    same_text, split, split_chars, strip_prefix, strip_prefix_chars, text_of, texts_view, trim,
    trim_chars,
};
use crate::types::{
    calls_view, chunks_view, copy_calls, copy_messages, messages_view, text_message, ChatMessage,
    ChunkView, LLMResponse, MessageView, ResponseView, StreamChunk, ToolCallRequest, ToolCallView,
};
use crate::value::{group_json_view, items_view, Json, JsonView};
use vstd::prelude::*;

verus! {

broadcast use group_json_view;

pub struct OllamaProvider;

/// A message as the service takes it.
pub struct OllamaMessage {
    pub role: String,
    pub content: String,
    pub images: Option<Vec<String>>,
}

pub struct OllamaMessageView {
    pub role: Seq<char>,
    pub content: Seq<char>,
    pub images: Option<Seq<Seq<char>>>,
}

impl View for OllamaMessage {
    type V = OllamaMessageView;

    open spec fn view(&self) -> OllamaMessageView {
        OllamaMessageView {
            role: self.role@,
            content: self.content@,
            images: match self.images {
                Some(list) => Some(texts_view(list@)),
                None => None,
            },
        }
    }
}

/// The text of a text block.
pub open spec fn block_text(block: JsonView) -> Option<Seq<char>> {
    if block.str_or("type"@, Seq::empty()) == "text"@ {
        block.str_at("text"@)
    } else {
        None
    }
}

/// The data of an image block whose image is given as data.
pub open spec fn block_image(block: JsonView) -> Option<Seq<char>> {
    if block.str_or("type"@, Seq::empty()) == "image_url"@ {
        match image_url(block) {
            Some(url) => match data_url(url) {
                Some((_, data)) => Some(data),
                None => None,
            },
            None => None,
        }
    } else {
        None
    }
}

pub open spec fn push_some(list: Seq<Seq<char>>, item: Option<Seq<char>>) -> Seq<Seq<char>> {
    match item {
        Some(s) => list.push(s),
        None => list,
    }
}

pub open spec fn block_texts(blocks: Seq<JsonView>) -> Seq<Seq<char>>
    decreases blocks.len(),
{
    if blocks.len() == 0 {
        Seq::empty()
    } else {
        push_some(block_texts(blocks.drop_last()), block_text(blocks.last()))
    }
}

pub open spec fn block_images(blocks: Seq<JsonView>) -> Seq<Seq<char>>
    decreases blocks.len(),
{
    if blocks.len() == 0 {
        Seq::empty()
    } else {
        push_some(block_images(blocks.drop_last()), block_image(blocks.last()))
    }
}

/// A message in the form of the service: texts joined by line ends, images apart.
pub open spec fn ollama_message(message: MessageView) -> OllamaMessageView {
    match message.content {
        JsonView::Array(blocks) => OllamaMessageView {
            role: message.role,
            content: join(block_texts(blocks), "\n"@),
            images: if block_images(blocks).len() == 0 {
                None
            } else {
                Some(block_images(blocks))
            },
        },
        _ => OllamaMessageView {
            role: message.role,
            content: content_str(message.content),
            images: None,
        },
    }
}

fn block_text_of(block: &Json) -> (r: Option<String>)
    ensures
        opt_text(r) == block_text(block@),
{
    match block.str_at("type") {
        Some(kind) => if same_text(kind, "text") {
            match block.str_at("text") {
                Some(text) => Some(text.to_owned()),
                None => None,
            }
        } else {
            None
        },
        None => {
            proof {
                reveal_strlit("text");
                assert("text"@.len() == 4);
            }
            None
        },
    }
}

fn block_image_of(block: &Json) -> (r: Option<String>)
    ensures
        opt_text(r) == block_image(block@),
{
    match block.str_at("type") {
        Some(kind) => if same_text(kind, "image_url") {
            match image_url_of(block) {
                Some(url) => match data_url_of(url) {
                    Some((_, data)) => Some(data),
                    None => None,
                },
                None => None,
            }
        } else {
            None
        },
        None => {
            proof {
                reveal_strlit("image_url");
                assert("image_url"@.len() == 9);
            }
            None
        },
    }
}

fn ollama_message_of(message: &ChatMessage) -> (r: OllamaMessage)
    ensures
        r@ == ollama_message(message@),
{
    match &message.content {
        Json::Array(blocks) => {
            let mut texts: Vec<String> = Vec::new();
            let mut images: Vec<String> = Vec::new();
            let ghost views = items_view(blocks@);
            let mut i: usize = 0;
            assert(texts_view(texts@) =~= Seq::empty());
            assert(texts_view(images@) =~= Seq::empty());
            while i < blocks.len()
                invariant
                    i <= blocks.len(),
                    views == items_view(blocks@),
                    texts_view(texts@) == block_texts(views.take(i as int)),
                    texts_view(images@) == block_images(views.take(i as int)),
                decreases blocks.len() - i,
            {
                assert(views.take(i + 1).drop_last() =~= views.take(i as int));
                if let Some(text) = block_text_of(&blocks[i]) {
                    let ghost so_far = texts_view(texts@);
                    texts.push(text);
                    assert(texts_view(texts@) =~= so_far.push(text@));
                }
                if let Some(image) = block_image_of(&blocks[i]) {
                    let ghost so_far = texts_view(images@);
                    images.push(image);
                    assert(texts_view(images@) =~= so_far.push(image@));
                }
                i += 1;
            }
            assert(views.take(views.len() as int) =~= views);
            OllamaMessage {
                role: message.role.clone(),
                content: join_texts(&texts, "\n"),
                images: if images.len() == 0 {
                    None
                } else {
                    Some(images)
                },
            }
        },
        Json::Str(text) => OllamaMessage {
            role: message.role.clone(),
            content: text.clone(),
            images: None,
        },
        _ => OllamaMessage { role: message.role.clone(), content: String::new(), images: None },
    }
}

pub const OLLAMA_TOOLS_INTRO: &'static str = "\n\n## Available Tools\nYou MUST use tools to accomplish tasks. To call a tool, output a `<tool_call>` block with JSON inside.\nYou may call multiple tools in one response. Each call must be a separate `<tool_call>` block.\n\nFormat:\n```\n<tool_call>\n{\"name\": \"tool_name\", \"arguments\": {\"param1\": \"value1\"}}\n</tool_call>\n```\n\nTools:\n";

// ---------------------------------------------------------------------------
// Calls in text
// ---------------------------------------------------------------------------

pub open spec fn ollama_call_id(index: nat) -> Seq<char> {
    "ollama_call_"@ + decimal(index)
}

fn ollama_id(index: usize) -> (r: String)
    ensures
        r@ == ollama_call_id(index as nat),
{
    let mut id = "ollama_call_".to_owned();
    id.push_str(decimal_text(index as u64).as_str());
    id
}

/// The call that a JSON block asks for.
pub open spec fn ollama_block_call(value: JsonView, index: nat) -> ToolCallView {
    ToolCallView { id: ollama_call_id(index), ..standard_call(value, index) }
}

/// The call that a JSON block asks for.
pub fn ollama_block_call_of(value: &Json, index: usize) -> (r: ToolCallRequest)
    ensures
        r@ == ollama_block_call(value@, index as nat),
{
    let mut call = crate::openai::standard_call_of(value, index);
    call.id = ollama_id(index);
    call
}

/// Takes the `<tool_call>` blocks that hold JSON out of a text.
pub open spec fn ollama_pass(rest: Seq<char>, index: nat) -> (Seq<char>, Seq<ToolCallView>)
    decreases rest.len(),
{
    match split(rest, "<tool_call>"@) {
        None => (rest, Seq::empty()),
        Some((head, tail)) => match split(tail, "</tool_call>"@) {
            None => (rest, Seq::empty()),
            Some((inner, next)) => {
                proof {
                    reveal_strlit("<tool_call>");
                    lemma_split(rest, "<tool_call>"@);
                    lemma_split(tail, "</tool_call>"@);
                }
                match json_parsed(trim(inner)) {
                    Some(value) => {
                        let (text, calls) = ollama_pass(next, index + 1);
                        (head + text, seq![ollama_block_call(value, index)] + calls)
                    },
                    None => {
                        let (text, calls) = ollama_pass(next, index);
                        (head + ("<tool_call>"@ + inner + "</tool_call>"@) + text, calls)
                    },
                }
            },
        },
    }
}

pub open spec fn ollama_text_calls(content: Seq<char>) -> (Seq<char>, Seq<ToolCallView>) {
    let (text, calls) = ollama_pass(content, 0);
    (trim(text), calls)
}

proof fn lemma_ollama_ids(rest: Seq<char>, index: nat)
    ensures
        ({
            let calls = ollama_pass(rest, index).1;
            forall|i: int|
                0 <= i < calls.len() ==> (#[trigger] calls[i]).id == ollama_call_id(
                    (index + i) as nat,
                ) && calls[i].thought_signature is None
        }),
    decreases rest.len(),
{
    reveal_strlit("<tool_call>");
    lemma_split(rest, "<tool_call>"@);
    if let Some((_, tail)) = split(rest, "<tool_call>"@) {
        lemma_split(tail, "</tool_call>"@);
        if let Some((inner, next)) = split(tail, "</tool_call>"@) {
            match json_parsed(trim(inner)) {
                Some(value) => {
                    lemma_ollama_ids(next, index + 1);
                    let later = ollama_pass(next, index + 1).1;
                    let calls = ollama_pass(rest, index).1;
                    assert forall|i: int| 0 <= i < calls.len() implies (#[trigger] calls[i]).id
                        == ollama_call_id((index + i) as nat)
                        && calls[i].thought_signature is None by {
                        if i > 0 {
                            assert(calls[i] == later[i - 1]);
                        }
                    }
                },
                None => lemma_ollama_ids(next, index),
            }
        }
    }
}

/// The calls found in a text are numbered from zero in the order in which they stand, and none of
/// them has a thought signature.
pub proof fn law_ollama_call_ids(content: Seq<char>)
    ensures
        ({
            let calls = ollama_text_calls(content).1;
            forall|i: int|
                0 <= i < calls.len() ==> (#[trigger] calls[i]).id == ollama_call_id(i as nat)
                    && calls[i].thought_signature is None
        }),
{
    lemma_ollama_ids(content, 0);
}

fn take_json_blocks(content: &[char]) -> (r: (String, Vec<ToolCallRequest>))
    ensures
        (r.0@, calls_view(r.1@)) == ollama_pass(content@, 0),
{
    let mut text = String::new();
    let mut calls: Vec<ToolCallRequest> = Vec::new();
    let mut rest = content;
    assert(calls_view(calls@) =~= Seq::empty());
    assert(text@ + ollama_pass(content@, 0).0 =~= ollama_pass(content@, 0).0);
    assert(calls_view(calls@) + ollama_pass(content@, 0).1 =~= ollama_pass(content@, 0).1);
    loop
        invariant
            ollama_pass(content@, 0) == (
                text@ + ollama_pass(rest@, calls@.len()).0,
                calls_view(calls@) + ollama_pass(rest@, calls@.len()).1,
            ),
        decreases rest@.len(),
    {
        let ghost index = calls@.len();
        let ghost text_before = text@;
        let ghost calls_before = calls_view(calls@);
        proof {
            reveal_strlit("<tool_call>");
            lemma_split(rest@, "<tool_call>"@);
        }
        let parts = match split_chars(rest, "<tool_call>") {
            Some((head, tail)) => match split_chars(tail, "</tool_call>") {
                Some((inner, next)) => Some((head, tail, inner, next)),
                None => None,
            },
            None => None,
        };
        match parts {
            None => {
                text.push_str(text_of(rest).as_str());
                assert(calls_before + Seq::empty() =~= calls_before);
                return (text, calls);
            },
            Some((head, tail, inner, next)) => {
                proof {
                    lemma_split(tail@, "</tool_call>"@);
                }
                text.push_str(text_of(head).as_str());
                match parse(text_of(trim_chars(inner)).as_str()) {
                    Some(value) => {
                        let call = ollama_block_call_of(&value, calls.len());
                        calls.push(call);
                        let ghost after = ollama_pass(next@, index + 1);
                        assert(calls_view(calls@) =~= calls_before.push(call@));
                        assert(text_before + (head@ + after.0) =~= text_before + head@ + after.0);
                        assert(calls_before + (seq![call@] + after.1) =~= calls_before.push(call@)
                            + after.1);
                    },
                    None => {
                        text.push_str("<tool_call>");
                        text.push_str(text_of(inner).as_str());
                        text.push_str("</tool_call>");
                        let ghost kept = "<tool_call>"@ + inner@ + "</tool_call>"@;
                        assert(text_before + head@ + "<tool_call>"@ + inner@ + "</tool_call>"@
                            =~= text_before + (head@ + kept));
                        assert(text_before + (head@ + kept + ollama_pass(next@, index).0)
                            =~= text_before + (head@ + kept) + ollama_pass(next@, index).0);
                    },
                }
                rest = next;
            },
        }
    }
}

// ---------------------------------------------------------------------------
// Answers
// ---------------------------------------------------------------------------

pub struct OllamaFunctionCall {
    pub name: String,
    pub arguments: Json,
}

/// An answer, or a piece of a streamed one. A call may lack its function.
pub struct OllamaResponse {
    pub content: String,
    pub tool_calls: Option<Vec<Option<OllamaFunctionCall>>>,
    pub done: Option<bool>,
    pub prompt_eval_count: Option<u64>,
    pub eval_count: Option<u64>,
}

pub open spec fn ollama_function_call(call: OllamaFunctionCall, index: nat) -> ToolCallView {
    ToolCallView {
        id: ollama_call_id(index),
        name: call.name@,
        arguments: call.arguments@,
        thought_signature: None,
    }
}

/// The calls of an answer that have a function, each numbered by its place.
pub open spec fn function_calls(list: Seq<Option<OllamaFunctionCall>>) -> Seq<ToolCallView>
    decreases list.len(),
{
    if list.len() == 0 {
        Seq::empty()
    } else {
        match list.last() {
            Some(call) => function_calls(list.drop_last()).push(
                ollama_function_call(call, (list.len() - 1) as nat),
            ),
            None => function_calls(list.drop_last()),
        }
    }
}

pub open spec fn calls_of_answer(list: Option<Vec<Option<OllamaFunctionCall>>>) -> Seq<
    ToolCallView,
> {
    match list {
        Some(calls) => function_calls(calls@),
        None => Seq::empty(),
    }
}

/// The response that a whole answer makes, whose text holds the calls and the remaining text
/// `in_text`. Calls in the text count only where tools were offered and none came natively.
pub open spec fn ollama_answer(
    response: OllamaResponse,
    tool_count: nat,
    in_text: (Seq<char>, Seq<ToolCallView>),
) -> ResponseView {
    let native = calls_of_answer(response.tool_calls);
    let (content, calls) = if native.len() == 0 && tool_count > 0 && in_text.1.len() > 0 {
        in_text
    } else {
        (response.content@, native)
    };
    ResponseView {
        content: nonempty(content),
        reasoning_content: None,
        tool_calls: calls,
        finish_reason: if calls.len() > 0 {
            "tool_calls"@
        } else if response.done == Some(false) {
            "length"@
        } else {
            "stop"@
        },
        usage: token_counts(response.prompt_eval_count, response.eval_count),
    }
}

/// The response to a request with the tools as text.
pub open spec fn ollama_text_answer(
    response: OllamaResponse,
    in_text: (Seq<char>, Seq<ToolCallView>),
) -> ResponseView {
    ResponseView {
        content: nonempty(in_text.0),
        reasoning_content: None,
        tool_calls: in_text.1,
        finish_reason: "stop"@,
        usage: token_counts(response.prompt_eval_count, response.eval_count),
    }
}

fn function_call_of(call: &OllamaFunctionCall, index: usize) -> (r: ToolCallRequest)
    ensures
        r@ == ollama_function_call(*call, index as nat),
{
    ToolCallRequest {
        id: ollama_id(index),
        name: call.name.clone(),
        arguments: call.arguments.clone(),
        thought_signature: None,
    }
}

fn calls_of(list: &Option<Vec<Option<OllamaFunctionCall>>>) -> (r: Vec<ToolCallRequest>)
    ensures
        calls_view(r@) == calls_of_answer(*list),
{
    let mut r: Vec<ToolCallRequest> = Vec::new();
    assert(calls_view(r@) =~= Seq::empty());
    if let Some(calls) = list {
        let mut i: usize = 0;
        assert(calls@.take(0) =~= Seq::empty());
        while i < calls.len()
            invariant
                i <= calls.len(),
                calls_view(r@) == function_calls(calls@.take(i as int)),
            decreases calls.len() - i,
        {
            assert(calls@.take(i + 1).drop_last() =~= calls@.take(i as int));
            let ghost so_far = calls_view(r@);
            if let Some(call) = &calls[i] {
                let request = function_call_of(call, i);
                r.push(request);
                assert(calls_view(r@) =~= so_far.push(request@));
            }
            i += 1;
        }
        assert(calls@.take(calls@.len() as int) =~= calls@);
    }
    r
}

/// The system message, where the messages start with one, with the prompt behind its text. Other
/// messages stay as they are; no messages at all become one system message.
pub open spec fn with_text_tools(messages: Seq<MessageView>, prompt: Seq<char>) -> Seq<
    MessageView,
> {
    if messages.len() == 0 {
        seq![text_message("system"@, prompt)]
    } else if messages[0].role == "system"@ {
        match messages[0].content {
            JsonView::Str(text) => messages.update(
                0,
                MessageView { content: JsonView::Str(text + prompt), ..messages[0] },
            ),
            _ => messages,
        }
    } else {
        messages
    }
}

impl OllamaProvider {
    /// The name of a model without the prefix `ollama/`.
    pub fn normalize_model(model: &str) -> (r: String)
        ensures
            r@ == or_else(strip_prefix(model@, "ollama/"@), model@),
    {
        let chars = chars_of(model);
        match strip_prefix_chars(chars.as_slice(), "ollama/") {
            Some(rest) => text_of(rest),
            None => model.to_owned(),
        }
    }

    pub fn convert_messages(messages: &[ChatMessage]) -> (r: Vec<OllamaMessage>)
        ensures
            r@.map_values(|m: OllamaMessage| m@) == messages_view(messages@).map_values(
                |m: MessageView| ollama_message(m),
            ),
    {
        let mut r: Vec<OllamaMessage> = Vec::new();
        let ghost all = messages_view(messages@).map_values(|m: MessageView| ollama_message(m));
        let mut i: usize = 0;
        while i < messages.len()
            invariant
                i <= messages.len(),
                all == messages_view(messages@).map_values(|m: MessageView| ollama_message(m)),
                r@.map_values(|m: OllamaMessage| m@) == all.take(i as int),
            decreases messages.len() - i,
        {
            let ghost so_far = r@.map_values(|m: OllamaMessage| m@);
            let message = ollama_message_of(&messages[i]);
            assert(message@ == all[i as int]);
            r.push(message);
            assert(r@.map_values(|m: OllamaMessage| m@) =~= so_far.push(message@));
            assert(so_far.push(message@) =~= all.take(i + 1));
            i += 1;
        }
        assert(all.take(all.len() as int) =~= all);
        r
    }

    /// The service takes tools as they are.
    pub fn convert_tools(tools: &Vec<Json>) -> (r: Vec<Json>)
        ensures
            items_view(r@) == items_view(tools@),
    {
        copy_items(tools)
    }

    /// A description of the tools for a system message.
    pub fn build_tools_prompt(tools: &Vec<Json>) -> (r: String)
        ensures
            r@ == OLLAMA_TOOLS_INTRO@ + tool_entries(items_view(tools@)),
    {
        describe_tools(OLLAMA_TOOLS_INTRO, tools)
    }

    /// The calls in `<tool_call>` blocks of a text, and the text without them.
    pub fn parse_text_tool_calls(content: &str) -> (r: (String, Vec<ToolCallRequest>))
        ensures
            (r.0@, calls_view(r.1@)) == ollama_text_calls(content@),
    {
        let chars = chars_of(content);
        let (text, calls) = take_json_blocks(chars.as_slice());
        let text = chars_of(text.as_str());
        (text_of(trim_chars(text.as_slice())), calls)
    }

    /// The messages for a model that takes its tools as text.
    pub fn messages_with_text_tools(messages: &Vec<ChatMessage>, tools: &Vec<Json>) -> (r: Vec<
        ChatMessage,
    >)
        ensures
            messages_view(r@) == with_text_tools(
                messages_view(messages@),
                OLLAMA_TOOLS_INTRO@ + tool_entries(items_view(tools@)),
            ),
    {
        let prompt = Self::build_tools_prompt(tools);
        let ghost views = messages_view(messages@);
        if messages.len() == 0 {
            let mut r: Vec<ChatMessage> = Vec::new();
            let message = ChatMessage::system(prompt.as_str());
            r.push(message);
            assert(messages_view(r@) =~= seq![message@]);
            return r;
        }
        assert(views[0] == messages@[0]@);
        if same_text(messages[0].role.as_str(), "system") {
            append_to_system(messages, prompt.as_str())
        } else {
            assert(views.subrange(0, views.len() as int) =~= views);
            copy_messages(messages.as_slice(), 0, messages.len())
        }
    }

    /// The response that a whole answer makes, given what its text was taken apart into.
    pub fn decide_answer(
        response: &OllamaResponse,
        tool_count: usize,
        in_text: (String, Vec<ToolCallRequest>),
    ) -> (r: LLMResponse)
        ensures
            r@ == ollama_answer(
                *response,
                tool_count as nat,
                (in_text.0@, calls_view(in_text.1@)),
            ),
    {
        let native = calls_of(&response.tool_calls);
        let (content, calls) = if native.len() == 0 && tool_count > 0 && in_text.1.len() > 0 {
            in_text
        } else {
            (response.content.clone(), native)
        };
        let finish_reason = if calls.len() > 0 {
            "tool_calls".to_owned()
        } else {
            match response.done {
                Some(false) => "length".to_owned(),
                _ => "stop".to_owned(),
            }
        };
        LLMResponse {
            content: some_unless_empty(content),
            reasoning_content: None,
            tool_calls: calls,
            finish_reason,
            usage: token_counts_of(response.prompt_eval_count, response.eval_count),
        }
    }

    /// The response that a whole answer makes.
    pub fn read_answer(response: &OllamaResponse, tool_count: usize) -> (r: LLMResponse)
        ensures
            r@ == ollama_answer(
                *response,
                tool_count as nat,
                ollama_text_calls(response.content@),
            ),
    {
        let in_text = Self::parse_text_tool_calls(response.content.as_str());
        Self::decide_answer(response, tool_count, in_text)
    }

    /// The response to a request with the tools as text.
    pub fn read_text_answer(response: &OllamaResponse) -> (r: LLMResponse)
        ensures
            r@ == ollama_text_answer(*response, ollama_text_calls(response.content@)),
    {
        let (text, calls) = Self::parse_text_tool_calls(response.content.as_str());
        LLMResponse {
            content: some_unless_empty(text),
            reasoning_content: None,
            tool_calls: calls,
            finish_reason: "stop".to_owned(),
            usage: token_counts_of(response.prompt_eval_count, response.eval_count),
        }
    }

    /// Whether a chat whose native request failed asks again with the tools as text.
    pub fn falls_back(tool_count: usize) -> (r: bool)
        ensures
            r == (tool_count > 0),
    {
        tool_count > 0
    }
}

// ---------------------------------------------------------------------------
// Streams
// ---------------------------------------------------------------------------

pub struct OllamaStreamView {
    pub content: Seq<char>,
    pub tool_calls: Seq<ToolCallView>,
}

/// What is passed on for the calls of a piece.
pub open spec fn call_chunks(list: Seq<Option<OllamaFunctionCall>>) -> Seq<ChunkView>
    decreases list.len(),
{
    if list.len() == 0 {
        Seq::empty()
    } else {
        let index = (list.len() - 1) as nat;
        call_chunks(list.drop_last()) + match list.last() {
            Some(call) => seq![
                ChunkView::ToolCallStart {
                    index: index as int,
                    id: ollama_call_id(index),
                    name: call.name@,
                },
                ChunkView::ToolCallDelta {
                    index: index as int,
                    id: ollama_call_id(index),
                    delta: json_text(call.arguments@),
                },
            ],
            None => Seq::empty(),
        }
    }
}

pub open spec fn piece_chunks(piece: OllamaResponse) -> Seq<ChunkView> {
    (if piece.content@.len() > 0 {
        seq![ChunkView::TextDelta { delta: piece.content@ }]
    } else {
        Seq::empty()
    }) + (match piece.tool_calls {
        Some(list) => call_chunks(list@),
        None => Seq::empty(),
    })
}

/// The answer after one more piece.
pub open spec fn after_piece(state: OllamaStreamView, piece: OllamaResponse) -> OllamaStreamView {
    OllamaStreamView {
        content: state.content + piece.content@,
        tool_calls: state.tool_calls + calls_of_answer(piece.tool_calls),
    }
}

pub open spec fn stream_response(
    state: OllamaStreamView,
    finish_reason: Seq<char>,
    usage: JsonView,
) -> ResponseView {
    ResponseView {
        content: nonempty(state.content),
        reasoning_content: None,
        tool_calls: state.tool_calls,
        finish_reason,
        usage,
    }
}

/// The response where a piece says that the answer is complete; nothing before that.
pub open spec fn completed_answer(state: OllamaStreamView, piece: OllamaResponse) -> Option<
    ResponseView,
> {
    if piece.done == Some(true) {
        Some(
            stream_response(
                state,
                if state.tool_calls.len() > 0 {
                    "tool_calls"@
                } else {
                    "stop"@
                },
                token_counts(piece.prompt_eval_count, piece.eval_count),
            ),
        )
    } else {
        None
    }
}

/// Collects a streamed answer.
pub struct OllamaStream {
    pub content: String,
    pub tool_calls: Vec<ToolCallRequest>,
}

impl View for OllamaStream {
    type V = OllamaStreamView;

    open spec fn view(&self) -> OllamaStreamView {
        OllamaStreamView { content: self.content@, tool_calls: calls_view(self.tool_calls@) }
    }
}

impl OllamaStream {
    pub fn new() -> (r: Self)
        ensures
            r@ == (OllamaStreamView { content: Seq::empty(), tool_calls: Seq::empty() }),
    {
        let r = OllamaStream { content: String::new(), tool_calls: Vec::new() };
        assert(r@.tool_calls =~= Seq::empty());
        r
    }

    /// Adds a piece of the answer and returns what is passed on for it.
    pub fn apply(&mut self, piece: &OllamaResponse) -> (chunks: Vec<StreamChunk>)
        ensures
            final(self)@ == after_piece(old(self)@, *piece),
            chunks_view(chunks@) == piece_chunks(*piece),
    {
        let ghost before = self@;
        let mut chunks: Vec<StreamChunk> = Vec::new();
        if !piece.content.as_str().is_empty() {
            let chunk = StreamChunk::TextDelta { delta: piece.content.clone() };
            chunks.push(chunk);
            assert(chunks_view(chunks@) =~= seq![chunk@]);
        } else {
            assert(chunks_view(chunks@) =~= Seq::empty());
        }
        self.content.push_str(piece.content.as_str());
        let ghost sent = chunks_view(chunks@);
        if let Some(list) = &piece.tool_calls {
            let mut i: usize = 0;
            assert(list@.take(0) =~= Seq::empty());
            assert(sent + call_chunks(list@.take(0)) =~= sent);
            while i < list.len()
                invariant
                    i <= list.len(),
                    chunks_view(chunks@) == sent + call_chunks(list@.take(i as int)),
                decreases list.len() - i,
            {
                assert(list@.take(i + 1).drop_last() =~= list@.take(i as int));
                let ghost so_far = chunks_view(chunks@);
                match &list[i] {
                    Some(call) => {
                        let start = StreamChunk::ToolCallStart {
                            index: i,
                            id: ollama_id(i),
                            name: call.name.clone(),
                        };
                        let delta = StreamChunk::ToolCallDelta {
                            index: i,
                            id: ollama_id(i),
                            delta: render(&call.arguments),
                        };
                        chunks.push(start);
                        chunks.push(delta);
                        assert(chunks_view(chunks@) =~= so_far + seq![start@, delta@]);
                    },
                    None => {
                        assert(so_far + Seq::empty() =~= so_far);
                    },
                }
                assert(chunks_view(chunks@) =~= sent + call_chunks(list@.take(i + 1)));
                i += 1;
            }
            assert(list@.take(list@.len() as int) =~= list@);
        } else {
            assert(sent + Seq::empty() =~= sent);
        }
        let mut more = calls_of(&piece.tool_calls);
        let ghost added = calls_view(more@);
        self.tool_calls.append(&mut more);
        assert(calls_view(self.tool_calls@) =~= before.tool_calls + added);
        chunks
    }

    /// The response where a piece says that the answer is complete; nothing before that.
    pub fn completed(&self, piece: &OllamaResponse) -> (r: Option<LLMResponse>)
        ensures
            response_opt(r) == completed_answer(self@, *piece),
    {
        match piece.done {
            Some(true) => {
                let finish_reason = if self.tool_calls.len() > 0 {
                    "tool_calls".to_owned()
                } else {
                    "stop".to_owned()
                };
                Some(
                    LLMResponse {
                        content: some_unless_empty(self.content.clone()),
                        reasoning_content: None,
                        tool_calls: copy_calls(&self.tool_calls),
                        finish_reason,
                        usage: token_counts_of(piece.prompt_eval_count, piece.eval_count),
                    },
                )
            },
            _ => None,
        }
    }

    /// The response where the stream ended without saying that the answer is complete.
    pub fn cut_off(&self) -> (r: LLMResponse)
        ensures
            r@ == stream_response(self@, "stop"@, JsonView::Null),
    {
        LLMResponse {
            content: some_unless_empty(self.content.clone()),
            reasoning_content: None,
            tool_calls: copy_calls(&self.tool_calls),
            finish_reason: "stop".to_owned(),
            usage: Json::Null,
        }
    }
}

/// What is passed on for calls is no text, and ends nothing.
proof fn lemma_calls_passed_on(list: Seq<Option<OllamaFunctionCall>>)
    ensures
        forall|i: int| 0 <= i < call_chunks(list).len() ==> !ends(#[trigger] call_chunks(list)[i]),
        streamed_text(call_chunks(list)) == Seq::<char>::empty(),
        streamed_reasoning(call_chunks(list)) == Seq::<char>::empty(),
    decreases list.len(),
{
    if list.len() > 0 {
        lemma_calls_passed_on(list.drop_last());
        let chunks = call_chunks(list.drop_last());
        let all = call_chunks(list);
        let more = all.skip(chunks.len() as int);
        assert(all =~= chunks + more);
        assert forall|i: int| 0 <= i < all.len() implies !ends(#[trigger] all[i]) by {
            if i < chunks.len() {
                assert(all[i] == chunks[i]);
            }
        }
        lemma_streamed_concat(chunks, more);
        reveal_with_fuel(streamed_text, 3);
        reveal_with_fuel(streamed_reasoning, 3);
        assert(streamed_text(more) =~= Seq::empty());
        assert(streamed_reasoning(more) =~= Seq::empty());
        assert(streamed_text(all) =~= Seq::empty());
        assert(streamed_reasoning(all) =~= Seq::empty());
    }
}

impl Collects for OllamaStream {
    type Piece = OllamaResponse;

    type State = OllamaStreamView;

    open spec fn state(&self) -> OllamaStreamView {
        self@
    }

    open spec fn added(state: OllamaStreamView, piece: OllamaResponse) -> (
        OllamaStreamView,
        Seq<ChunkView>,
        Option<ResponseView>,
    ) {
        let now = after_piece(state, piece);
        (now, piece_chunks(piece), completed_answer(now, piece))
    }

    open spec fn ended(state: OllamaStreamView) -> ResponseView {
        stream_response(state, "stop"@, JsonView::Null)
    }

    open spec fn text(state: OllamaStreamView) -> Seq<char> {
        state.content
    }

    open spec fn reasoning(state: OllamaStreamView) -> Seq<char> {
        Seq::empty()
    }

    proof fn lemma_added(state: OllamaStreamView, piece: OllamaResponse) {
        let said: Seq<ChunkView> = if piece.content@.len() > 0 {
            seq![ChunkView::TextDelta { delta: piece.content@ }]
        } else {
            Seq::empty()
        };
        let calls: Seq<ChunkView> = match piece.tool_calls {
            Some(list) => call_chunks(list@),
            None => Seq::empty(),
        };
        if let Some(list) = piece.tool_calls {
            lemma_calls_passed_on(list@);
        }
        lemma_streamed_concat(said, calls);
        reveal_with_fuel(streamed_text, 2);
        reveal_with_fuel(streamed_reasoning, 2);
        assert(streamed_text(said + calls) =~= piece.content@);
        assert(streamed_reasoning(said + calls) =~= Seq::empty());
        assert(Seq::<char>::empty() + streamed_reasoning(said + calls) =~= Seq::empty());
    }

    proof fn lemma_ended(state: OllamaStreamView) {
    }

    fn collect(&mut self, piece: &OllamaResponse) -> (r: (Vec<StreamChunk>, Option<LLMResponse>)) {
        let chunks = self.apply(piece);
        let response = self.completed(piece);
        (chunks, response)
    }

    fn conclude(&self) -> (r: LLMResponse) {
        self.cut_off()
    }
}

} // verus!
