//! Collecting the answer of a model while it is streamed to the user.

use crate::delivery::{agent_name, agent_name_of};
use crate::json::{json_parsed, push_member};
use crate::paths::opt_str;
use crate::stream::{streamed_reasoning, streamed_text};
use crate::text::{copy_opt, same_text};
use crate::types::{
    accumulated_call, calls_view, copy_calls, empty_object, no_members, AccumulatorView,
    ChunkView, LLMResponse, ResponseView, StreamChunk, ToolCallAccumulator, ToolCallRequest,
    ToolCallView,
};
use crate::value::{group_json_view, Json, JsonView};
use vstd::prelude::*;

verus! {

broadcast use group_json_view;

/// What was collected of an answer.
pub struct ReplyView {
    pub content: Seq<char>,
    pub reasoning: Seq<char>,
    pub calls: Seq<AccumulatorView>,
}

/// The position of the call with this id, or the number of calls where there is none.
pub open spec fn call_slot(calls: Seq<AccumulatorView>, id: Seq<char>) -> int
    decreases calls.len(),
{
    if calls.len() == 0 || calls[0].id == id {
        0
    } else {
        1 + call_slot(calls.skip(1), id)
    }
}

/// What is collected once a chunk has come in. A call that starts again keeps its arguments; a
/// piece of arguments for a call that has not started is dropped.
pub open spec fn collected(reply: ReplyView, chunk: ChunkView) -> ReplyView {
    match chunk {
        ChunkView::TextDelta { delta } => ReplyView { content: reply.content + delta, ..reply },
        ChunkView::ReasoningDelta { delta } => ReplyView {
            reasoning: reply.reasoning + delta,
            ..reply
        },
        ChunkView::ToolCallStart { index, id, name } => {
            let at = call_slot(reply.calls, id);
            ReplyView {
                calls: if at < reply.calls.len() {
                    reply.calls.update(at, AccumulatorView { name, ..reply.calls[at] })
                } else {
                    reply.calls.push(AccumulatorView { id, name, arguments: Seq::empty() })
                },
                ..reply
            }
        },
        ChunkView::ToolCallDelta { index, id, delta } => {
            let at = call_slot(reply.calls, id);
            ReplyView {
                calls: if at < reply.calls.len() {
                    reply.calls.update(
                        at,
                        AccumulatorView {
                            arguments: reply.calls[at].arguments + delta,
                            ..reply.calls[at]
                        },
                    )
                } else {
                    reply.calls
                },
                ..reply
            }
        },
        ChunkView::Done { response } => reply,
        ChunkView::Error { message } => reply,
    }
}

pub open spec fn nothing_yet() -> ReplyView {
    ReplyView { content: Seq::empty(), reasoning: Seq::empty(), calls: Seq::empty() }
}

pub open spec fn collected_all(chunks: Seq<ChunkView>) -> ReplyView
    decreases chunks.len(),
{
    if chunks.len() == 0 {
        nothing_yet()
    } else {
        collected(collected_all(chunks.drop_last()), chunks.last())
    }
}

pub open spec fn whole_calls(calls: Seq<AccumulatorView>) -> Seq<ToolCallView> {
    calls.map_values(|a: AccumulatorView| accumulated_call(a, json_parsed(a.arguments)))
}

pub open spec fn some_if_full(text: Seq<char>, otherwise: Option<Seq<char>>) -> Option<Seq<char>> {
    if text.len() > 0 {
        Some(text)
    } else {
        otherwise
    }
}

/// The answer when the stream says that it is complete: what was collected, and the response in
/// the stream's last chunk where nothing was.
pub open spec fn complete(reply: ReplyView, response: ResponseView) -> ResponseView {
    ResponseView {
        content: some_if_full(reply.content, response.content),
        reasoning_content: some_if_full(reply.reasoning, response.reasoning_content),
        tool_calls: if reply.calls.len() > 0 {
            whole_calls(reply.calls)
        } else {
            response.tool_calls
        },
        finish_reason: response.finish_reason,
        usage: response.usage,
    }
}

/// The answer when the stream ends before it says that it is complete: one only where a tool was
/// called.
pub open spec fn cut_short(reply: ReplyView) -> Option<ResponseView> {
    if reply.calls.len() > 0 {
        Some(
            ResponseView {
                content: some_if_full(reply.content, None),
                reasoning_content: some_if_full(reply.reasoning, None),
                tool_calls: whole_calls(reply.calls),
                finish_reason: "stop"@,
                usage: JsonView::Null,
            },
        )
    } else {
        None
    }
}

/// Nothing of a streamed answer is lost or added: the collected text is the text of all chunks,
/// and so is the reasoning.
pub proof fn law_reply_holds_all_text(chunks: Seq<ChunkView>)
    ensures
        collected_all(chunks).content == streamed_text(chunks),
        collected_all(chunks).reasoning == streamed_reasoning(chunks),
    decreases chunks.len(),
{
    if chunks.len() > 0 {
        law_reply_holds_all_text(chunks.drop_last());
        let text = streamed_text(chunks.drop_last());
        let reasoning = streamed_reasoning(chunks.drop_last());
        assert(text + Seq::empty() =~= text);
        assert(reasoning + Seq::empty() =~= reasoning);
    }
}

// ---------------------------------------------------------------------------
// Events
// ---------------------------------------------------------------------------

/// The event that a chunk causes.
pub open spec fn chunk_event(
    agent_id: Option<Seq<char>>,
    chat_id: Seq<char>,
    chunk: ChunkView,
) -> Option<JsonView> {
    let agent = JsonView::Str(agent_name(agent_id));
    let chat = JsonView::Str(chat_id);
    match chunk {
        ChunkView::TextDelta { delta } => Some(
            JsonView::Object(
                seq![
                    ("agent_id"@, agent),
                    ("chat_id"@, chat),
                    ("delta"@, JsonView::Str(delta)),
                    ("type"@, JsonView::Str("token"@)),
                ],
            ),
        ),
        ChunkView::ReasoningDelta { delta } => Some(
            JsonView::Object(
                seq![
                    ("agent_id"@, agent),
                    ("chat_id"@, chat),
                    ("content"@, JsonView::Str(delta)),
                    ("type"@, JsonView::Str("thinking"@)),
                ],
            ),
        ),
        ChunkView::ToolCallStart { index, id, name } => Some(
            JsonView::Object(
                seq![
                    ("agent_id"@, agent),
                    ("call_id"@, JsonView::Str(id)),
                    ("chat_id"@, chat),
                    ("params"@, empty_object()),
                    ("tool"@, JsonView::Str(name)),
                    ("type"@, JsonView::Str("tool_call_start"@)),
                ],
            ),
        ),
        _ => None,
    }
}

fn text_event(agent_id: Option<&str>, chat_id: &str, key: &str, text: &str, kind: &str) -> (r: Json)
    ensures
        r@ == JsonView::Object(
            seq![
                ("agent_id"@, JsonView::Str(agent_name(opt_str(agent_id)))),
                ("chat_id"@, JsonView::Str(chat_id@)),
                (key@, JsonView::Str(text@)),
                ("type"@, JsonView::Str(kind@)),
            ],
        ),
{
    let mut m: Vec<(String, Json)> = Vec::new();
    push_member(&mut m, "agent_id", Json::Str(agent_name_of(agent_id)));
    push_member(&mut m, "chat_id", Json::text(chat_id));
    push_member(&mut m, key, Json::text(text));
    push_member(&mut m, "type", Json::text(kind));
    let r = Json::Object(m);
    assert(r@->Object_0 =~= seq![
        ("agent_id"@, JsonView::Str(agent_name(opt_str(agent_id)))),
        ("chat_id"@, JsonView::Str(chat_id@)),
        (key@, JsonView::Str(text@)),
        ("type"@, JsonView::Str(kind@)),
    ]);
    r
}

pub fn event_of_chunk(agent_id: Option<&str>, chat_id: &str, chunk: &StreamChunk) -> (r: Option<
    Json,
>)
    ensures
        crate::types::json_opt(r) == chunk_event(opt_str(agent_id), chat_id@, chunk@),
{
    match chunk {
        StreamChunk::TextDelta { delta } => Some(
            text_event(agent_id, chat_id, "delta", delta.as_str(), "token"),
        ),
        StreamChunk::ReasoningDelta { delta } => Some(
            text_event(agent_id, chat_id, "content", delta.as_str(), "thinking"),
        ),
        StreamChunk::ToolCallStart { index, id, name } => {
            let mut m: Vec<(String, Json)> = Vec::new();
            push_member(&mut m, "agent_id", Json::Str(agent_name_of(agent_id)));
            push_member(&mut m, "call_id", Json::text(id.as_str()));
            push_member(&mut m, "chat_id", Json::text(chat_id));
            push_member(&mut m, "params", no_members());
            push_member(&mut m, "tool", Json::text(name.as_str()));
            push_member(&mut m, "type", Json::text("tool_call_start"));
            let r = Json::Object(m);
            assert(r@->Object_0 =~= chunk_event(
                opt_str(agent_id),
                chat_id@,
                chunk@,
            )->0->Object_0);
            Some(r)
        },
        _ => None,
    }
}

// ---------------------------------------------------------------------------
// Collecting
// ---------------------------------------------------------------------------

/// Collects a streamed answer. Tool calls are kept in the order in which they started.
pub struct Reply {
    pub content: String,
    pub reasoning: String,
    pub calls: Vec<ToolCallAccumulator>,
}

pub open spec fn accumulators_view(calls: Seq<ToolCallAccumulator>) -> Seq<AccumulatorView> {
    calls.map_values(|a: ToolCallAccumulator| a@)
}

impl View for Reply {
    type V = ReplyView;

    open spec fn view(&self) -> ReplyView {
        ReplyView {
            content: self.content@,
            reasoning: self.reasoning@,
            calls: accumulators_view(self.calls@),
        }
    }
}

fn find_call(calls: &Vec<ToolCallAccumulator>, id: &str) -> (r: usize)
    ensures
        r == call_slot(accumulators_view(calls@), id@),
        r <= calls@.len(),
{
    let ghost views = accumulators_view(calls@);
    let mut i: usize = 0;
    assert(views.skip(0) =~= views);
    while i < calls.len()
        invariant
            i <= calls.len(),
            views == accumulators_view(calls@),
            call_slot(views, id@) == i + call_slot(views.skip(i as int), id@),
        decreases calls.len() - i,
    {
        assert(views.skip(i as int)[0] == calls@[i as int]@);
        if same_text(calls[i].id.as_str(), id) {
            return i;
        }
        assert(views.skip(i as int).skip(1) =~= views.skip(i + 1));
        i += 1;
    }
    i
}

fn calls_of(calls: &Vec<ToolCallAccumulator>) -> (r: Vec<ToolCallRequest>)
    ensures
        calls_view(r@) == whole_calls(accumulators_view(calls@)),
{
    let ghost all = whole_calls(accumulators_view(calls@));
    let mut r: Vec<ToolCallRequest> = Vec::new();
    let mut i: usize = 0;
    while i < calls.len()
        invariant
            i <= calls.len(),
            all == whole_calls(accumulators_view(calls@)),
            calls_view(r@) == all.take(i as int),
        decreases calls.len() - i,
    {
        let ghost so_far = calls_view(r@);
        let call = calls[i].to_tool_call_request();
        assert(call@ == all[i as int]);
        r.push(call);
        assert(calls_view(r@) =~= so_far.push(call@));
        assert(calls_view(r@) =~= all.take(i + 1));
        i += 1;
    }
    assert(calls_view(r@) =~= all);
    r
}

fn some_if_full_of(text: &String, otherwise: &Option<String>) -> (r: Option<String>)
    ensures
        crate::text::opt_text(r) == some_if_full(text@, crate::text::opt_text(*otherwise)),
{
    if !text.as_str().is_empty() {
        Some(text.clone())
    } else {
        copy_opt(otherwise)
    }
}

impl Reply {
    pub fn new() -> (r: Self)
        ensures
            r@ == nothing_yet(),
    {
        let r = Reply { content: String::new(), reasoning: String::new(), calls: Vec::new() };
        assert(r@.calls =~= Seq::empty());
        r
    }

    /// Takes a chunk in.
    pub fn apply(&mut self, chunk: &StreamChunk)
        ensures
            final(self)@ == collected(old(self)@, chunk@),
    {
        let ghost before = self@;
        match chunk {
            StreamChunk::TextDelta { delta } => {
                self.content.push_str(delta.as_str());
            },
            StreamChunk::ReasoningDelta { delta } => {
                self.reasoning.push_str(delta.as_str());
            },
            StreamChunk::ToolCallStart { index, id, name } => {
                let at = find_call(&self.calls, id.as_str());
                if at < self.calls.len() {
                    let entry = ToolCallAccumulator {
                        id: self.calls[at].id.clone(),
                        name: name.clone(),
                        arguments: self.calls[at].arguments.clone(),
                    };
                    assert(before.calls[at as int] == self.calls@[at as int]@);
                    self.calls.set(at, entry);
                    assert(self@.calls =~= before.calls.update(at as int, entry@));
                } else {
                    let entry = ToolCallAccumulator {
                        id: id.clone(),
                        name: name.clone(),
                        arguments: String::new(),
                    };
                    self.calls.push(entry);
                    assert(self@.calls =~= before.calls.push(entry@));
                }
            },
            StreamChunk::ToolCallDelta { index, id, delta } => {
                let at = find_call(&self.calls, id.as_str());
                if at < self.calls.len() {
                    let mut arguments = self.calls[at].arguments.clone();
                    arguments.push_str(delta.as_str());
                    let entry = ToolCallAccumulator {
                        id: self.calls[at].id.clone(),
                        name: self.calls[at].name.clone(),
                        arguments,
                    };
                    assert(before.calls[at as int] == self.calls@[at as int]@);
                    self.calls.set(at, entry);
                    assert(self@.calls =~= before.calls.update(at as int, entry@));
                }
            },
            StreamChunk::Done { response } => {},
            StreamChunk::Error { message } => {},
        }
    }

    /// The answer when the stream says that it is complete.
    pub fn finish(&self, response: &LLMResponse) -> (r: LLMResponse)
        ensures
            r@ == complete(self@, response@),
    {
        LLMResponse {
            content: some_if_full_of(&self.content, &response.content),
            reasoning_content: some_if_full_of(&self.reasoning, &response.reasoning_content),
            tool_calls: if self.calls.len() > 0 {
                calls_of(&self.calls)
            } else {
                copy_calls(&response.tool_calls)
            },
            finish_reason: response.finish_reason.clone(),
            usage: response.usage.clone(),
        }
    }

    /// The answer when the stream ends before it says that it is complete.
    pub fn cut_off(&self) -> (r: Option<LLMResponse>)
        ensures
            match r {
                Some(response) => cut_short(self@) == Some(response@),
                None => cut_short(self@) is None,
            },
    {
        if self.calls.len() == 0 {
            return None;
        }
        Some(
            LLMResponse {
                content: some_if_full_of(&self.content, &None),
                reasoning_content: some_if_full_of(&self.reasoning, &None),
                tool_calls: calls_of(&self.calls),
                finish_reason: "stop".to_owned(),
                usage: Json::Null,
            },
        )
    }
}

// ---------------------------------------------------------------------------
// Trying again
// ---------------------------------------------------------------------------

/// A time after it was doubled `times` times.
pub open spec fn doubled(time: nat, times: nat) -> nat
    decreases times,
{
    if times == 0 {
        time
    } else {
        2 * doubled(time, (times - 1) as nat)
    }
}

/// How long to wait before the call is tried again: twice as long each time, up to sixteen times
/// the first wait.
pub open spec fn retry_delay(base_ms: nat, attempt: nat) -> nat {
    doubled(
        base_ms,
        if attempt >= 5 {
            4
        } else {
            (attempt - 1) as nat
        },
    )
}

pub fn retry_delay_ms(base_ms: u64, attempt: u32) -> (r: u64)
    requires
        attempt >= 1,
        retry_delay(base_ms as nat, attempt as nat) <= u64::MAX,
    ensures
        r == retry_delay(base_ms as nat, attempt as nat),
{
    reveal_with_fuel(doubled, 5);
    if attempt >= 5 {
        base_ms * 16
    } else if attempt == 4 {
        base_ms * 8
    } else if attempt == 3 {
        base_ms * 4
    } else if attempt == 2 {
        base_ms * 2
    } else {
        base_ms
    }
}

} // verus!
