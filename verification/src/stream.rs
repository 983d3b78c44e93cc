//! Streamed answers of OpenAI-style services.

use crate::chat::{nonempty, some_unless_empty};
use crate::json::json_parsed;
use crate::stream_run::{
    ends, law_response_says_what_was_passed_on, law_stream_ends_once, run_events, says, Collects,
    StreamEvent,
};
use crate::text::{chars_equal, chars_of, opt_text, strip_prefix, strip_prefix_chars, text_of};
use crate::types::{
    accumulated_call, calls_view, chunks_view, empty_object, or_empty, AccumulatorView, ChunkView,
    LLMResponse, ResponseView, StreamChunk, ToolCallAccumulator, ToolCallRequest, ToolCallView,
};
use crate::value::{Json, JsonView};
use vstd::prelude::*;

verus! {

// ---------------------------------------------------------------------------
// Events
// ---------------------------------------------------------------------------

/// What a line of a server-sent event stream says.
pub enum LineEvent {
    /// The stream is complete.
    Done,
    /// A piece of the answer, as JSON text.
    Data(String),
    /// Nothing.
    Other,
}

/// The text behind `data: ` on a line.
pub open spec fn data_of_line(line: Seq<char>) -> Option<Seq<char>> {
    strip_prefix(line, "data: "@)
}

/// What an event line says.
pub fn line_event(line: &str) -> (r: LineEvent)
    ensures
        match data_of_line(line@) {
            None => r is Other,
            Some(data) => if data == "[DONE]"@ {
                r is Done
            } else {
                r matches LineEvent::Data(text) && text@ == data
            },
        },
{
    let chars = chars_of(line);
    match strip_prefix_chars(chars.as_slice(), "data: ") {
        None => LineEvent::Other,
        Some(data) => {
            let done = chars_of("[DONE]");
            if chars_equal(data, done.as_slice()) {
                LineEvent::Done
            } else {
                LineEvent::Data(text_of(data))
            }
        },
    }
}

/// A part of a tool call in a piece of a streamed answer.
pub struct StreamToolCall {
    pub index: usize,
    pub id: Option<String>,
    pub name: Option<String>,
    pub arguments: Option<String>,
}

pub struct CallPartView {
    pub index: int,
    pub id: Option<Seq<char>>,
    pub name: Option<Seq<char>>,
    pub arguments: Option<Seq<char>>,
}

impl View for StreamToolCall {
    type V = CallPartView;

    open spec fn view(&self) -> CallPartView {
        CallPartView {
            index: self.index as int,
            id: opt_text(self.id),
            name: opt_text(self.name),
            arguments: opt_text(self.arguments),
        }
    }
}

pub open spec fn parts_view(parts: Seq<StreamToolCall>) -> Seq<CallPartView> {
    parts.map_values(|p: StreamToolCall| p@)
}

pub struct StreamChoice {
    pub content: Option<String>,
    pub reasoning_content: Option<String>,
    pub tool_calls: Option<Vec<StreamToolCall>>,
    pub finish_reason: Option<String>,
}

pub struct StreamChoiceView {
    pub content: Option<Seq<char>>,
    pub reasoning_content: Option<Seq<char>>,
    pub tool_calls: Seq<CallPartView>,
    pub finish_reason: Option<Seq<char>>,
}

impl View for StreamChoice {
    type V = StreamChoiceView;

    open spec fn view(&self) -> StreamChoiceView {
        StreamChoiceView {
            content: opt_text(self.content),
            reasoning_content: opt_text(self.reasoning_content),
            tool_calls: match self.tool_calls {
                Some(parts) => parts_view(parts@),
                None => Seq::empty(),
            },
            finish_reason: opt_text(self.finish_reason),
        }
    }
}

/// A piece of a streamed answer: its first choice, and what was used up so far.
pub struct StreamResponse {
    pub choice: Option<StreamChoice>,
    pub usage: Option<Json>,
}

pub struct StreamResponseView {
    pub choice: Option<StreamChoiceView>,
    pub usage: Option<JsonView>,
}

impl View for StreamResponse {
    type V = StreamResponseView;

    open spec fn view(&self) -> StreamResponseView {
        StreamResponseView {
            choice: match self.choice {
                Some(c) => Some(c@),
                None => None,
            },
            usage: match self.usage {
                Some(u) => Some(u@),
                None => None,
            },
        }
    }
}

// ---------------------------------------------------------------------------
// The answer so far
// ---------------------------------------------------------------------------

pub struct StreamView {
    pub tool_calls: Seq<(int, AccumulatorView)>,
    pub content: Seq<char>,
    pub reasoning: Seq<char>,
    pub finish_reason: Seq<char>,
    pub usage: JsonView,
}

/// Where the call with this index stands; the length where there is none.
pub open spec fn slot(calls: Seq<(int, AccumulatorView)>, index: int) -> int
    decreases calls.len(),
{
    if calls.len() == 0 || calls[0].0 == index {
        0
    } else {
        1 + slot(calls.skip(1), index)
    }
}

pub open spec fn call_at(calls: Seq<(int, AccumulatorView)>, index: int) -> AccumulatorView {
    let i = slot(calls, index);
    if i < calls.len() {
        calls[i].1
    } else {
        AccumulatorView { id: Seq::empty(), name: Seq::empty(), arguments: Seq::empty() }
    }
}

pub open spec fn put_call(
    calls: Seq<(int, AccumulatorView)>,
    index: int,
    acc: AccumulatorView,
) -> Seq<(int, AccumulatorView)> {
    let i = slot(calls, index);
    if i < calls.len() {
        calls.update(i, (index, acc))
    } else {
        calls.push((index, acc))
    }
}

pub open spec fn or_else(a: Option<Seq<char>>, b: Seq<char>) -> Seq<char> {
    match a {
        Some(s) => s,
        None => b,
    }
}

/// A call with one more part: a new id or name replaces the old one, arguments are appended.
pub open spec fn grown(acc: AccumulatorView, part: CallPartView) -> AccumulatorView {
    AccumulatorView {
        id: or_else(part.id, acc.id),
        name: or_else(part.name, acc.name),
        arguments: acc.arguments + or_else(part.arguments, Seq::empty()),
    }
}

/// What is passed on for one part of a call.
pub open spec fn part_chunks(acc: AccumulatorView, part: CallPartView) -> Seq<ChunkView> {
    (match part.id {
        Some(id) => seq![
            ChunkView::ToolCallStart {
                index: part.index,
                id,
                name: or_else(part.name, Seq::empty()),
            },
        ],
        None => Seq::empty(),
    }) + (match part.arguments {
        Some(delta) => seq![
            ChunkView::ToolCallDelta { index: part.index, id: or_else(part.id, acc.id), delta },
        ],
        None => Seq::empty(),
    })
}

/// The calls after some parts, and what is passed on for them.
pub open spec fn apply_parts(
    calls: Seq<(int, AccumulatorView)>,
    parts: Seq<CallPartView>,
) -> (Seq<(int, AccumulatorView)>, Seq<ChunkView>)
    decreases parts.len(),
{
    if parts.len() == 0 {
        (calls, Seq::empty())
    } else {
        let (before, chunks) = apply_parts(calls, parts.drop_last());
        let part = parts.last();
        let acc = call_at(before, part.index);
        (put_call(before, part.index, grown(acc, part)), chunks + part_chunks(acc, part))
    }
}

pub open spec fn text_chunk(text: Option<Seq<char>>) -> Seq<ChunkView> {
    match text {
        Some(delta) => seq![ChunkView::TextDelta { delta }],
        None => Seq::empty(),
    }
}

pub open spec fn reasoning_chunk(text: Option<Seq<char>>) -> Seq<ChunkView> {
    match text {
        Some(delta) => seq![ChunkView::ReasoningDelta { delta }],
        None => Seq::empty(),
    }
}

/// The answer after one more piece, and what is passed on for the piece.
pub open spec fn apply_piece(state: StreamView, piece: StreamResponseView) -> (
    StreamView,
    Seq<ChunkView>,
) {
    let usage = match piece.usage {
        Some(u) => u,
        None => state.usage,
    };
    match piece.choice {
        None => (StreamView { usage, ..state }, Seq::empty()),
        Some(choice) => {
            let (tool_calls, call_chunks) = apply_parts(state.tool_calls, choice.tool_calls);
            (
                StreamView {
                    tool_calls,
                    content: state.content + or_else(choice.content, Seq::empty()),
                    reasoning: state.reasoning + or_else(choice.reasoning_content, Seq::empty()),
                    finish_reason: or_else(choice.finish_reason, state.finish_reason),
                    usage,
                },
                text_chunk(choice.content) + reasoning_chunk(choice.reasoning_content)
                    + call_chunks,
            )
        },
    }
}

/// The response once the stream is over.
pub open spec fn finished(state: StreamView) -> ResponseView {
    ResponseView {
        content: nonempty(state.content),
        reasoning_content: nonempty(state.reasoning),
        tool_calls: state.tool_calls.map_values(
            |c: (int, AccumulatorView)| accumulated_call(c.1, json_parsed(c.1.arguments)),
        ),
        finish_reason: state.finish_reason,
        usage: state.usage,
    }
}

pub open spec fn new_stream() -> StreamView {
    StreamView {
        tool_calls: Seq::empty(),
        content: Seq::empty(),
        reasoning: Seq::empty(),
        finish_reason: "stop"@,
        usage: JsonView::Null,
    }
}

/// The answer after a run of pieces, and all that was passed on.
pub open spec fn apply_pieces(state: StreamView, pieces: Seq<StreamResponseView>) -> (
    StreamView,
    Seq<ChunkView>,
)
    decreases pieces.len(),
{
    if pieces.len() == 0 {
        (state, Seq::empty())
    } else {
        let (before, chunks) = apply_pieces(state, pieces.drop_last());
        let (now, more) = apply_piece(before, pieces.last());
        (now, chunks + more)
    }
}

/// The text in the text deltas among some chunks.
pub open spec fn streamed_text(chunks: Seq<ChunkView>) -> Seq<char>
    decreases chunks.len(),
{
    if chunks.len() == 0 {
        Seq::empty()
    } else {
        streamed_text(chunks.drop_last()) + match chunks.last() {
            ChunkView::TextDelta { delta } => delta,
            _ => Seq::empty(),
        }
    }
}

pub open spec fn streamed_reasoning(chunks: Seq<ChunkView>) -> Seq<char>
    decreases chunks.len(),
{
    if chunks.len() == 0 {
        Seq::empty()
    } else {
        streamed_reasoning(chunks.drop_last()) + match chunks.last() {
            ChunkView::ReasoningDelta { delta } => delta,
            _ => Seq::empty(),
        }
    }
}

pub proof fn lemma_streamed_concat(a: Seq<ChunkView>, b: Seq<ChunkView>)
    ensures
        streamed_text(a + b) == streamed_text(a) + streamed_text(b),
        streamed_reasoning(a + b) == streamed_reasoning(a) + streamed_reasoning(b),
    decreases b.len(),
{
    if b.len() == 0 {
        assert(a + b =~= a);
        assert(streamed_text(a) + streamed_text(b) =~= streamed_text(a));
        assert(streamed_reasoning(a) + streamed_reasoning(b) =~= streamed_reasoning(a));
    } else {
        lemma_streamed_concat(a, b.drop_last());
        assert((a + b).drop_last() =~= a + b.drop_last());
        assert((a + b).last() == b.last());
        assert(streamed_text(a + b) =~= streamed_text(a) + streamed_text(b));
        assert(streamed_reasoning(a + b) =~= streamed_reasoning(a) + streamed_reasoning(b));
    }
}

proof fn lemma_parts_are_silent(calls: Seq<(int, AccumulatorView)>, parts: Seq<CallPartView>)
    ensures
        streamed_text(apply_parts(calls, parts).1) == Seq::<char>::empty(),
        streamed_reasoning(apply_parts(calls, parts).1) == Seq::<char>::empty(),
    decreases parts.len(),
{
    if parts.len() > 0 {
        lemma_parts_are_silent(calls, parts.drop_last());
        let (before, chunks) = apply_parts(calls, parts.drop_last());
        let part = parts.last();
        let more = part_chunks(call_at(before, part.index), part);
        lemma_streamed_concat(chunks, more);
        reveal_with_fuel(streamed_text, 3);
        reveal_with_fuel(streamed_reasoning, 3);
        assert(streamed_text(more) =~= Seq::empty());
        assert(streamed_reasoning(more) =~= Seq::empty());
        assert(streamed_text(chunks) + streamed_text(more) =~= Seq::empty());
        assert(streamed_reasoning(chunks) + streamed_reasoning(more) =~= Seq::empty());
    }
}

/// What is passed on for a piece is the text and the reasoning that it adds.
proof fn lemma_piece_text(state: StreamView, piece: StreamResponseView)
    ensures
        apply_piece(state, piece).0.content == state.content + streamed_text(
            apply_piece(state, piece).1,
        ),
        apply_piece(state, piece).0.reasoning == state.reasoning + streamed_reasoning(
            apply_piece(state, piece).1,
        ),
{
    let (now, more) = apply_piece(state, piece);
    match piece.choice {
        None => {
            assert(now.content =~= state.content + streamed_text(more));
            assert(now.reasoning =~= state.reasoning + streamed_reasoning(more));
        },
        Some(choice) => {
            let call_chunks = apply_parts(state.tool_calls, choice.tool_calls).1;
            let text = text_chunk(choice.content);
            let reasoning = reasoning_chunk(choice.reasoning_content);
            lemma_parts_are_silent(state.tool_calls, choice.tool_calls);
            lemma_streamed_concat(text, reasoning);
            lemma_streamed_concat(text + reasoning, call_chunks);
            reveal_with_fuel(streamed_text, 2);
            reveal_with_fuel(streamed_reasoning, 2);
            assert(streamed_text(more) =~= or_else(choice.content, Seq::empty()));
            assert(streamed_reasoning(more) =~= or_else(choice.reasoning_content, Seq::empty()));
        },
    }
}

/// Collects a streamed answer.
pub struct StreamState {
    pub tool_calls: Vec<(usize, ToolCallAccumulator)>,
    pub content: String,
    pub reasoning: String,
    pub finish_reason: String,
    pub usage: Json,
}

pub open spec fn slots_view(calls: Seq<(usize, ToolCallAccumulator)>) -> Seq<
    (int, AccumulatorView),
> {
    calls.map_values(|c: (usize, ToolCallAccumulator)| (c.0 as int, c.1@))
}

impl View for StreamState {
    type V = StreamView;

    open spec fn view(&self) -> StreamView {
        StreamView {
            tool_calls: slots_view(self.tool_calls@),
            content: self.content@,
            reasoning: self.reasoning@,
            finish_reason: self.finish_reason@,
            usage: self.usage@,
        }
    }
}

fn find_slot(calls: &Vec<(usize, ToolCallAccumulator)>, index: usize) -> (r: usize)
    ensures
        r == slot(slots_view(calls@), index as int),
        r <= calls@.len(),
{
    let ghost views = slots_view(calls@);
    let mut i: usize = 0;
    assert(views.skip(0) =~= views);
    while i < calls.len()
        invariant
            i <= calls.len(),
            views == slots_view(calls@),
            slot(views, index as int) == i + slot(views.skip(i as int), index as int),
        decreases calls.len() - i,
    {
        if calls[i].0 == index {
            return i;
        }
        assert(views.skip(i as int).skip(1) =~= views.skip(i + 1));
        i += 1;
    }
    i
}

fn copy_text(text: &Option<String>) -> (r: String)
    ensures
        r@ == or_else(opt_text(*text), Seq::empty()),
{
    match text {
        Some(s) => s.clone(),
        None => String::new(),
    }
}

/// Adds one part of a call, and appends to `chunks` what is passed on for it.
fn apply_part(
    calls: &mut Vec<(usize, ToolCallAccumulator)>,
    part: &StreamToolCall,
    chunks: &mut Vec<StreamChunk>,
)
    ensures
        slots_view(final(calls)@) == put_call(
            slots_view(old(calls)@),
            part@.index,
            grown(call_at(slots_view(old(calls)@), part@.index), part@),
        ),
        chunks_view(final(chunks)@) == chunks_view(old(chunks)@) + part_chunks(
            call_at(slots_view(old(calls)@), part@.index),
            part@,
        ),
{
    let ghost views = slots_view(calls@);
    let ghost sent = chunks_view(chunks@);
    let i = find_slot(calls, part.index);
    let (id, name, mut arguments) = if i < calls.len() {
        (calls[i].1.id.clone(), calls[i].1.name.clone(), calls[i].1.arguments.clone())
    } else {
        (String::new(), String::new(), String::new())
    };
    let ghost acc = call_at(views, part@.index);
    assert(i < views.len() ==> views[i as int] == (calls@[i as int].0 as int, calls@[i as int].1@));
    assert(acc.id == id@ && acc.name == name@ && acc.arguments == arguments@);
    let id = match &part.id {
        Some(id) => {
            let start = StreamChunk::ToolCallStart {
                index: part.index,
                id: id.clone(),
                name: copy_text(&part.name),
            };
            chunks.push(start);
            assert(chunks_view(chunks@) =~= sent.push(start@));
            id.clone()
        },
        None => id,
    };
    let name = match &part.name {
        Some(name) => name.clone(),
        None => name,
    };
    match &part.arguments {
        Some(delta) => {
            arguments.push_str(delta.as_str());
            let ghost sent_before = chunks_view(chunks@);
            let chunk = StreamChunk::ToolCallDelta {
                index: part.index,
                id: id.clone(),
                delta: delta.clone(),
            };
            chunks.push(chunk);
            assert(chunks_view(chunks@) =~= sent_before.push(chunk@));
        },
        None => {
            assert(acc.arguments + Seq::empty() =~= acc.arguments);
        },
    }
    assert(chunks_view(chunks@) =~= sent + part_chunks(acc, part@));
    let entry = (part.index, ToolCallAccumulator { id, name, arguments });
    assert(entry.1@ == grown(acc, part@));
    if i < calls.len() {
        calls.set(i, entry);
        assert(slots_view(calls@) =~= views.update(i as int, (part@.index, entry.1@)));
    } else {
        calls.push(entry);
        assert(slots_view(calls@) =~= views.push((part@.index, entry.1@)));
    }
}

impl StreamState {
    pub fn new() -> (r: Self)
        ensures
            r@ == new_stream(),
    {
        let r = StreamState {
            tool_calls: Vec::new(),
            content: String::new(),
            reasoning: String::new(),
            finish_reason: "stop".to_owned(),
            usage: Json::Null,
        };
        assert(r@.tool_calls =~= Seq::empty());
        r
    }

    /// Adds a piece of the answer and returns what is passed on for it.
    pub fn apply(&mut self, piece: &StreamResponse) -> (chunks: Vec<StreamChunk>)
        ensures
            (final(self)@, chunks_view(chunks@)) == apply_piece(old(self)@, piece@),
    {
        let mut chunks: Vec<StreamChunk> = Vec::new();
        assert(chunks_view(chunks@) =~= Seq::empty());
        if let Some(choice) = &piece.choice {
            if let Some(content) = &choice.content {
                self.content.push_str(content.as_str());
                let chunk = StreamChunk::TextDelta { delta: content.clone() };
                chunks.push(chunk);
                assert(chunks_view(chunks@) =~= seq![chunk@]);
            } else {
                assert(self@.content + Seq::empty() =~= self@.content);
            }
            let ghost sent = chunks_view(chunks@);
            assert(sent =~= text_chunk(choice@.content));
            if let Some(reasoning) = &choice.reasoning_content {
                self.reasoning.push_str(reasoning.as_str());
                let chunk = StreamChunk::ReasoningDelta { delta: reasoning.clone() };
                chunks.push(chunk);
                assert(chunks_view(chunks@) =~= sent + seq![chunk@]);
            } else {
                assert(self@.reasoning + Seq::empty() =~= self@.reasoning);
                assert(sent + Seq::empty() =~= sent);
            }
            let ghost sent = chunks_view(chunks@);
            let ghost calls = self@.tool_calls;
            if let Some(parts) = &choice.tool_calls {
                let ghost views = parts_view(parts@);
                let ghost state = self@;
                let mut i: usize = 0;
                assert(sent + apply_parts(calls, views.take(0)).1 =~= sent);
                while i < parts.len()
                    invariant
                        i <= parts.len(),
                        views == parts_view(parts@),
                        self@ == (StreamView {
                            tool_calls: apply_parts(calls, views.take(i as int)).0,
                            ..state
                        }),
                        chunks_view(chunks@) == sent + apply_parts(
                            calls,
                            views.take(i as int),
                        ).1,
                    decreases parts.len() - i,
                {
                    assert(views.take(i + 1).drop_last() =~= views.take(i as int));
                    apply_part(&mut self.tool_calls, &parts[i], &mut chunks);
                    assert(chunks_view(chunks@) =~= sent + apply_parts(calls, views.take(i + 1)).1);
                    i += 1;
                }
                assert(views.take(views.len() as int) =~= views);
            } else {
                assert(sent + Seq::empty() =~= sent);
            }
            if let Some(reason) = &choice.finish_reason {
                self.finish_reason = reason.clone();
            }
        }
        if let Some(usage) = &piece.usage {
            self.usage = usage.clone();
        }
        chunks
    }

    /// The response once the stream is over.
    pub fn finish(&self) -> (r: LLMResponse)
        ensures
            r@ == finished(self@),
    {
        let mut calls: Vec<ToolCallRequest> = Vec::new();
        let ghost all = finished(self@).tool_calls;
        let mut i: usize = 0;
        while i < self.tool_calls.len()
            invariant
                i <= self.tool_calls.len(),
                all == finished(self@).tool_calls,
                calls_view(calls@) == all.take(i as int),
            decreases self.tool_calls.len() - i,
        {
            let ghost so_far = calls_view(calls@);
            let call = self.tool_calls[i].1.to_tool_call_request();
            calls.push(call);
            assert(call@ == all[i as int]);
            assert(calls_view(calls@) =~= so_far.push(call@));
            assert(calls_view(calls@) =~= all.take(i + 1));
            i += 1;
        }
        assert(calls_view(calls@) =~= all);
        LLMResponse {
            content: some_unless_empty(self.content.clone()),
            reasoning_content: some_unless_empty(self.reasoning.clone()),
            tool_calls: calls,
            finish_reason: self.finish_reason.clone(),
            usage: self.usage.clone(),
        }
    }
}

proof fn lemma_parts_go_on(calls: Seq<(int, AccumulatorView)>, parts: Seq<CallPartView>)
    ensures
        forall|i: int|
            0 <= i < apply_parts(calls, parts).1.len() ==> !ends(
                #[trigger] apply_parts(calls, parts).1[i],
            ),
    decreases parts.len(),
{
    if parts.len() > 0 {
        lemma_parts_go_on(calls, parts.drop_last());
        let (before, chunks) = apply_parts(calls, parts.drop_last());
        let more = part_chunks(call_at(before, parts.last().index), parts.last());
        let all = chunks + more;
        assert forall|i: int| 0 <= i < all.len() implies !ends(#[trigger] all[i]) by {
            if i < chunks.len() {
                assert(all[i] == chunks[i]);
            } else {
                assert(all[i] == more[i - chunks.len()]);
            }
        }
    }
}

impl Collects for StreamState {
    type Piece = StreamResponse;

    type State = StreamView;

    open spec fn state(&self) -> StreamView {
        self@
    }

    open spec fn added(state: StreamView, piece: StreamResponse) -> (
        StreamView,
        Seq<ChunkView>,
        Option<ResponseView>,
    ) {
        let (now, chunks) = apply_piece(state, piece@);
        (now, chunks, None)
    }

    open spec fn ended(state: StreamView) -> ResponseView {
        finished(state)
    }

    open spec fn text(state: StreamView) -> Seq<char> {
        state.content
    }

    open spec fn reasoning(state: StreamView) -> Seq<char> {
        state.reasoning
    }

    proof fn lemma_added(state: StreamView, piece: StreamResponse) {
        lemma_piece_text(state, piece@);
        match piece@.choice {
            None => {},
            Some(choice) => lemma_parts_go_on(state.tool_calls, choice.tool_calls),
        }
    }

    proof fn lemma_ended(state: StreamView) {
    }

    fn collect(&mut self, piece: &StreamResponse) -> (r: (Vec<StreamChunk>, Option<LLMResponse>)) {
        (self.apply(piece), None)
    }

    fn conclude(&self) -> (r: LLMResponse) {
        self.finish()
    }
}

/// All parts of calls in some pieces, in order.
pub open spec fn call_parts(pieces: Seq<StreamResponseView>) -> Seq<CallPartView>
    decreases pieces.len(),
{
    if pieces.len() == 0 {
        Seq::empty()
    } else {
        call_parts(pieces.drop_last()) + match pieces.last().choice {
            Some(choice) => choice.tool_calls,
            None => Seq::empty(),
        }
    }
}

/// The argument texts of the parts with this index, one after the other.
pub open spec fn argument_text(parts: Seq<CallPartView>, index: int) -> Seq<char>
    decreases parts.len(),
{
    if parts.len() == 0 {
        Seq::empty()
    } else {
        argument_text(parts.drop_last(), index) + (if parts.last().index == index {
            or_else(parts.last().arguments, Seq::empty())
        } else {
            Seq::empty()
        })
    }
}

/// The last id that a part with this index has; empty where none has one.
pub open spec fn latest_id(parts: Seq<CallPartView>, index: int) -> Seq<char>
    decreases parts.len(),
{
    if parts.len() == 0 {
        Seq::empty()
    } else if parts.last().index == index && parts.last().id is Some {
        parts.last().id->0
    } else {
        latest_id(parts.drop_last(), index)
    }
}

/// The last name that a part with this index has; empty where none has one.
pub open spec fn latest_name(parts: Seq<CallPartView>, index: int) -> Seq<char>
    decreases parts.len(),
{
    if parts.len() == 0 {
        Seq::empty()
    } else if parts.last().index == index && parts.last().name is Some {
        parts.last().name->0
    } else {
        latest_name(parts.drop_last(), index)
    }
}

/// There is one call for each index among the parts, made of the parts with that index.
pub open spec fn calls_made_of(
    calls: Seq<(int, AccumulatorView)>,
    parts: Seq<CallPartView>,
) -> bool {
    &&& forall|i: int, j: int|
        0 <= i < j < calls.len() ==> (#[trigger] calls[i]).0 != (#[trigger] calls[j]).0
    &&& forall|i: int|
        0 <= i < calls.len() ==> (#[trigger] calls[i]).1 == (AccumulatorView {
            id: latest_id(parts, calls[i].0),
            name: latest_name(parts, calls[i].0),
            arguments: argument_text(parts, calls[i].0),
        })
    &&& forall|index: int| #[trigger] has_call(calls, index) <==> has_part(parts, index)
}

pub open spec fn has_call(calls: Seq<(int, AccumulatorView)>, index: int) -> bool {
    exists|i: int| 0 <= i < calls.len() && (#[trigger] calls[i]).0 == index
}

pub open spec fn has_part(parts: Seq<CallPartView>, index: int) -> bool {
    exists|k: int| 0 <= k < parts.len() && (#[trigger] parts[k]).index == index
}

proof fn lemma_slot(calls: Seq<(int, AccumulatorView)>, index: int)
    ensures
        0 <= slot(calls, index) <= calls.len(),
        slot(calls, index) < calls.len() ==> calls[slot(calls, index)].0 == index,
        forall|i: int| 0 <= i < slot(calls, index) ==> (#[trigger] calls[i]).0 != index,
    decreases calls.len(),
{
    if calls.len() > 0 && calls[0].0 != index {
        let rest = calls.skip(1);
        lemma_slot(rest, index);
        assert forall|i: int| 0 <= i < slot(calls, index) implies (#[trigger] calls[i]).0
            != index by {
            if i > 0 {
                assert(rest[i - 1] == calls[i]);
            }
        }
    }
}

/// Nothing is known of an index that no part has.
proof fn lemma_no_part(parts: Seq<CallPartView>, index: int)
    requires
        !has_part(parts, index),
    ensures
        latest_id(parts, index).len() == 0,
        latest_name(parts, index).len() == 0,
        argument_text(parts, index).len() == 0,
    decreases parts.len(),
{
    if parts.len() > 0 {
        let prior = parts.drop_last();
        assert(parts[parts.len() - 1].index != index);
        assert forall|k: int| 0 <= k < prior.len() implies (#[trigger] prior[k]).index
            != index by {
            assert(prior[k] == parts[k]);
        }
        lemma_no_part(prior, index);
    }
}

proof fn lemma_one_more_part(
    calls: Seq<(int, AccumulatorView)>,
    parts: Seq<CallPartView>,
    part: CallPartView,
)
    requires
        calls_made_of(calls, parts),
    ensures
        calls_made_of(
            put_call(calls, part.index, grown(call_at(calls, part.index), part)),
            parts.push(part),
        ),
{
    let index = part.index;
    let all = parts.push(part);
    let s = slot(calls, index);
    let acc = call_at(calls, index);
    let now = put_call(calls, index, grown(acc, part));
    lemma_slot(calls, index);
    assert(all.drop_last() =~= parts);
    if s >= calls.len() {
        assert(!has_call(calls, index));
        lemma_no_part(parts, index);
        assert(acc.id =~= latest_id(parts, index));
        assert(acc.name =~= latest_name(parts, index));
        assert(acc.arguments =~= argument_text(parts, index));
    }
    assert forall|i: int, j: int| 0 <= i < j < now.len() implies (#[trigger] now[i]).0 != (
    #[trigger] now[j]).0 by {
        assert(calls[i].0 == now[i].0);
        if j < calls.len() {
            assert(calls[j].0 == now[j].0);
        }
    }
    assert forall|i: int| 0 <= i < now.len() implies (#[trigger] now[i]).1 == (AccumulatorView {
        id: latest_id(all, now[i].0),
        name: latest_name(all, now[i].0),
        arguments: argument_text(all, now[i].0),
    }) by {
        if i == s {
            assert(now[i].1.arguments =~= argument_text(all, index));
        } else {
            assert(now[i] == calls[i]);
            assert(argument_text(all, now[i].0) =~= argument_text(parts, now[i].0));
        }
    }
    assert forall|other: int| #[trigger] has_call(now, other) <==> has_part(all, other) by {
        assert(all[all.len() - 1] == part);
        if has_call(now, other) {
            let i = choose|i: int| 0 <= i < now.len() && (#[trigger] now[i]).0 == other;
            if i != s {
                assert(calls[i].0 == other);
                assert(has_call(calls, other));
                let k = choose|k: int|
                    0 <= k < parts.len() && (#[trigger] parts[k]).index == other;
                assert(all[k].index == other);
            }
        }
        if has_part(all, other) {
            if other == index {
                assert(now[s].0 == other);
            } else {
                let k = choose|k: int| 0 <= k < all.len() && (#[trigger] all[k]).index == other;
                assert(parts[k].index == other);
                assert(has_call(calls, other));
                let i = choose|i: int| 0 <= i < calls.len() && (#[trigger] calls[i]).0 == other;
                assert(now[i].0 == other);
            }
        }
    }
}

proof fn lemma_more_parts(
    calls: Seq<(int, AccumulatorView)>,
    before: Seq<CallPartView>,
    parts: Seq<CallPartView>,
)
    requires
        calls_made_of(calls, before),
    ensures
        calls_made_of(apply_parts(calls, parts).0, before + parts),
    decreases parts.len(),
{
    if parts.len() == 0 {
        assert(before + parts =~= before);
    } else {
        lemma_more_parts(calls, before, parts.drop_last());
        lemma_one_more_part(
            apply_parts(calls, parts.drop_last()).0,
            before + parts.drop_last(),
            parts.last(),
        );
        assert((before + parts.drop_last()).push(parts.last()) =~= before + parts);
    }
}

/// The argument texts that were passed on for the call with this index, one after the other.
pub open spec fn streamed_arguments(chunks: Seq<ChunkView>, index: int) -> Seq<char>
    decreases chunks.len(),
{
    if chunks.len() == 0 {
        Seq::empty()
    } else {
        streamed_arguments(chunks.drop_last(), index) + match chunks.last() {
            ChunkView::ToolCallDelta { index: i, id: _, delta } if i == index => delta,
            _ => Seq::empty(),
        }
    }
}

proof fn lemma_arguments_concat(a: Seq<ChunkView>, b: Seq<ChunkView>, index: int)
    ensures
        streamed_arguments(a + b, index) == streamed_arguments(a, index) + streamed_arguments(
            b,
            index,
        ),
    decreases b.len(),
{
    if b.len() == 0 {
        assert(a + b =~= a);
        assert(streamed_arguments(a, index) + streamed_arguments(b, index) =~= streamed_arguments(
            a,
            index,
        ));
    } else {
        lemma_arguments_concat(a, b.drop_last(), index);
        assert((a + b).drop_last() =~= a + b.drop_last());
        assert((a + b).last() == b.last());
        assert(streamed_arguments(a + b, index) =~= streamed_arguments(a, index)
            + streamed_arguments(b, index));
    }
}

proof fn lemma_argument_text_concat(a: Seq<CallPartView>, b: Seq<CallPartView>, index: int)
    ensures
        argument_text(a + b, index) == argument_text(a, index) + argument_text(b, index),
    decreases b.len(),
{
    if b.len() == 0 {
        assert(a + b =~= a);
        assert(argument_text(a, index) + argument_text(b, index) =~= argument_text(a, index));
    } else {
        lemma_argument_text_concat(a, b.drop_last(), index);
        assert((a + b).drop_last() =~= a + b.drop_last());
        assert((a + b).last() == b.last());
        assert(argument_text(a + b, index) =~= argument_text(a, index) + argument_text(b, index));
    }
}

proof fn lemma_parts_arguments(
    calls: Seq<(int, AccumulatorView)>,
    parts: Seq<CallPartView>,
    index: int,
)
    ensures
        streamed_arguments(apply_parts(calls, parts).1, index) == argument_text(parts, index),
    decreases parts.len(),
{
    if parts.len() > 0 {
        lemma_parts_arguments(calls, parts.drop_last(), index);
        let (before, chunks) = apply_parts(calls, parts.drop_last());
        let part = parts.last();
        let more = part_chunks(call_at(before, part.index), part);
        lemma_arguments_concat(chunks, more, index);
        reveal_with_fuel(streamed_arguments, 3);
        assert(streamed_arguments(more, index) =~= if part.index == index {
            or_else(part.arguments, Seq::empty())
        } else {
            Seq::empty()
        });
    }
}

/// For each index, the argument texts of the pieces are passed on, one after the other.
pub proof fn law_stream_passes_on_all_arguments(pieces: Seq<StreamResponseView>, index: int)
    ensures
        streamed_arguments(apply_pieces(new_stream(), pieces).1, index) == argument_text(
            call_parts(pieces),
            index,
        ),
    decreases pieces.len(),
{
    if pieces.len() > 0 {
        law_stream_passes_on_all_arguments(pieces.drop_last(), index);
        let (before, chunks) = apply_pieces(new_stream(), pieces.drop_last());
        let more = apply_piece(before, pieces.last()).1;
        let earlier = call_parts(pieces.drop_last());
        lemma_arguments_concat(chunks, more, index);
        match pieces.last().choice {
            None => {
                assert(earlier + Seq::<CallPartView>::empty() =~= earlier);
                assert(streamed_arguments(chunks, index) + Seq::<char>::empty()
                    =~= streamed_arguments(chunks, index));
            },
            Some(choice) => {
                let parts = choice.tool_calls;
                let call_chunks = apply_parts(before.tool_calls, parts).1;
                let text = text_chunk(choice.content);
                let reasoning = reasoning_chunk(choice.reasoning_content);
                lemma_parts_arguments(before.tool_calls, parts, index);
                lemma_arguments_concat(text, reasoning, index);
                lemma_arguments_concat(text + reasoning, call_chunks, index);
                lemma_argument_text_concat(earlier, parts, index);
                reveal_with_fuel(streamed_arguments, 2);
                assert(streamed_arguments(text + reasoning, index) =~= Seq::empty());
                assert(streamed_arguments(more, index) =~= argument_text(parts, index));
            },
        }
    }
}

/// What the arguments of a call are read as: no members where there are none or they cannot be
/// read.
pub open spec fn read_arguments(text: Seq<char>) -> JsonView {
    if text.len() == 0 {
        empty_object()
    } else {
        or_empty(json_parsed(text))
    }
}

/// The response has one call for each index that the pieces mention. Its arguments are read from
/// the argument texts with that index, one after the other; it has the last id and the last name
/// with that index.
pub proof fn law_one_call_per_index(pieces: Seq<StreamResponseView>)
    ensures
        ({
            let state = apply_pieces(new_stream(), pieces).0;
            let parts = call_parts(pieces);
            let response = finished(state);
            &&& calls_made_of(state.tool_calls, parts)
            &&& response.tool_calls.len() == state.tool_calls.len()
            &&& forall|i: int|
                0 <= i < response.tool_calls.len() ==> {
                    let index = state.tool_calls[i].0;
                    (#[trigger] response.tool_calls[i]) == (ToolCallView {
                        id: latest_id(parts, index),
                        name: latest_name(parts, index),
                        arguments: read_arguments(argument_text(parts, index)),
                        thought_signature: None,
                    })
                }
        }),
    decreases pieces.len(),
{
    if pieces.len() == 0 {
        let calls = new_stream().tool_calls;
        assert forall|index: int| #[trigger] has_call(calls, index) <==> has_part(
            call_parts(pieces),
            index,
        ) by {}
    } else {
        law_one_call_per_index(pieces.drop_last());
        let before = apply_pieces(new_stream(), pieces.drop_last()).0;
        let earlier = call_parts(pieces.drop_last());
        match pieces.last().choice {
            Some(choice) => lemma_more_parts(before.tool_calls, earlier, choice.tool_calls),
            None => {
                assert(earlier + Seq::<CallPartView>::empty() =~= earlier);
            },
        }
    }
    let state = apply_pieces(new_stream(), pieces).0;
    assert forall|i: int| 0 <= i < finished(state).tool_calls.len() implies (
    #[trigger] finished(state).tool_calls[i]) == accumulated_call(
        state.tool_calls[i].1,
        json_parsed(state.tool_calls[i].1.arguments),
    ) by {}
}

pub open spec fn piece_events(pieces: Seq<StreamResponse>) -> Seq<StreamEvent<StreamResponse>> {
    pieces.map_values(|p: StreamResponse| StreamEvent::Piece(p))
}

pub open spec fn pieces_view(pieces: Seq<StreamResponse>) -> Seq<StreamResponseView> {
    pieces.map_values(|p: StreamResponse| p@)
}

proof fn lemma_piece_events(pieces: Seq<StreamResponse>)
    ensures
        ({
            let (run, chunks) = run_events::<StreamState>(new_stream(), piece_events(pieces));
            !run.over && (run.state, chunks) == apply_pieces(new_stream(), pieces_view(pieces))
        }),
    decreases pieces.len(),
{
    if pieces.len() > 0 {
        lemma_piece_events(pieces.drop_last());
        assert(piece_events(pieces).drop_last() =~= piece_events(pieces.drop_last()));
        assert(pieces_view(pieces).drop_last() =~= pieces_view(pieces.drop_last()));
    }
}

/// The text of the final response is the text deltas passed on, one after the other, and its
/// reasoning the reasoning deltas.
pub proof fn law_stream_passes_on_all_text(pieces: Seq<StreamResponseView>)
    ensures
        apply_pieces(new_stream(), pieces).0.content == streamed_text(
            apply_pieces(new_stream(), pieces).1,
        ),
        apply_pieces(new_stream(), pieces).0.reasoning == streamed_reasoning(
            apply_pieces(new_stream(), pieces).1,
        ),
    decreases pieces.len(),
{
    if pieces.len() > 0 {
        law_stream_passes_on_all_text(pieces.drop_last());
        let (before, chunks) = apply_pieces(new_stream(), pieces.drop_last());
        lemma_piece_text(before, pieces.last());
        lemma_streamed_concat(chunks, apply_piece(before, pieces.last()).1);
    }
}

/// A stream that is complete after some pieces passes on what each piece says and then, once and
/// last, the response. Its text and its reasoning are those that were passed on. It has one call
/// for each index that the pieces mention, with the arguments that were passed on for that index.
pub proof fn law_complete_stream_ends_in_its_response(pieces: Seq<StreamResponse>)
    ensures
        ({
            let chunks = run_events::<StreamState>(
                new_stream(),
                piece_events(pieces).push(StreamEvent::Complete),
            ).1;
            let (state, passed_on) = apply_pieces(new_stream(), pieces_view(pieces));
            let response = finished(state);
            &&& chunks == passed_on.push(ChunkView::Done { response })
            &&& forall|i: int| 0 <= i < chunks.len() - 1 ==> !ends(#[trigger] chunks[i])
            &&& says(response, streamed_text(chunks), streamed_reasoning(chunks))
            &&& calls_made_of(state.tool_calls, call_parts(pieces_view(pieces)))
            &&& response.tool_calls.len() == state.tool_calls.len()
            &&& forall|i: int|
                0 <= i < response.tool_calls.len() ==> (
                #[trigger] response.tool_calls[i]).arguments == read_arguments(
                    streamed_arguments(chunks, state.tool_calls[i].0),
                )
        }),
{
    let events = piece_events(pieces).push(StreamEvent::Complete);
    let views = pieces_view(pieces);
    let (state, passed_on) = apply_pieces(new_stream(), views);
    let response = finished(state);
    let chunks = run_events::<StreamState>(new_stream(), events).1;
    lemma_piece_events(pieces);
    assert(events.drop_last() =~= piece_events(pieces));
    assert(chunks =~= passed_on.push(ChunkView::Done { response }));
    law_stream_ends_once::<StreamState>(new_stream(), events);
    law_response_says_what_was_passed_on::<StreamState>(new_stream(), events);
    law_one_call_per_index(views);
    assert(chunks.drop_last() =~= passed_on);
    assert forall|i: int| 0 <= i < response.tool_calls.len() implies (
    #[trigger] response.tool_calls[i]).arguments == read_arguments(
        streamed_arguments(chunks, state.tool_calls[i].0),
    ) by {
        let index = state.tool_calls[i].0;
        law_stream_passes_on_all_arguments(views, index);
        assert(streamed_arguments(chunks, index) =~= streamed_arguments(passed_on, index));
    }
}

/// What is passed on where a response comes whole: its text and its reasoning, where they are
/// not empty, and the response.
pub open spec fn response_chunks(response: ResponseView) -> Seq<ChunkView> {
    (match response.content {
        Some(delta) if delta.len() > 0 => seq![ChunkView::TextDelta { delta }],
        _ => Seq::empty(),
    }) + (match response.reasoning_content {
        Some(delta) if delta.len() > 0 => seq![ChunkView::ReasoningDelta { delta }],
        _ => Seq::empty(),
    }) + seq![ChunkView::Done { response }]
}

/// A response that comes whole ends what is passed on once, and last.
pub proof fn law_whole_response_ends_once(response: ResponseView)
    ensures
        response_chunks(response).last() == (ChunkView::Done { response }),
        forall|i: int|
            0 <= i < response_chunks(response).len() - 1 ==> !ends(
                #[trigger] response_chunks(response)[i],
            ),
{
}

/// What is passed on where a response comes whole.
pub fn chunks_of_response(response: LLMResponse) -> (r: Vec<StreamChunk>)
    ensures
        chunks_view(r@) == response_chunks(response@),
{
    let mut r: Vec<StreamChunk> = Vec::new();
    if let Some(content) = &response.content {
        if !content.as_str().is_empty() {
            r.push(StreamChunk::TextDelta { delta: content.clone() });
        }
    }
    if let Some(reasoning) = &response.reasoning_content {
        if !reasoning.as_str().is_empty() {
            r.push(StreamChunk::ReasoningDelta { delta: reasoning.clone() });
        }
    }
    let ghost view = response@;
    r.push(StreamChunk::Done { response });
    assert(chunks_view(r@) =~= response_chunks(view));
    r
}

} // verus!
