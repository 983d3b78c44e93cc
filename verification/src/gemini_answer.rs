//! Answers of the Gemini service, whole and streamed.

use crate::chat::{nonempty, some_unless_empty};
use crate::error::{Error, ErrorView};
use crate::gemini::GeminiProvider;
use crate::json::{json_text, object2, render};
use crate::stream::{
    data_of_line, lemma_streamed_concat, streamed_reasoning, streamed_text,
};
use crate::stream_run::{ends, Collects};
use crate::text::{
    chars_of, copy_opt, decimal, decimal_text, join, join_texts, lowercase, opt_text, same_text,
    strip_prefix_chars, text_of, texts_view,
};
use crate::types::{
    calls_view, chunks_view, copy_calls, json_opt, no_members, or_empty, ChunkView, LLMResponse,
    ResponseView, StreamChunk, ToolCallRequest, ToolCallView,
};
use crate::value::{Json, JsonView};
use vstd::prelude::*;

verus! {

/// A function call in a part of an answer.
pub struct GeminiFunctionCall {
    pub name: String,
    pub args: Option<Json>,
}

pub struct FunctionCallView {
    pub name: Seq<char>,
    pub args: Option<JsonView>,
}

/// A part of an answer.
pub struct GeminiPart {
    pub text: Option<String>,
    pub function_call: Option<GeminiFunctionCall>,
    pub thought_signature: Option<String>,
}

pub struct PartView {
    pub text: Option<Seq<char>>,
    pub function_call: Option<FunctionCallView>,
    pub thought_signature: Option<Seq<char>>,
}

impl View for GeminiPart {
    type V = PartView;

    open spec fn view(&self) -> PartView {
        PartView {
            text: opt_text(self.text),
            function_call: match self.function_call {
                Some(fc) => Some(FunctionCallView { name: fc.name@, args: json_opt(fc.args) }),
                None => None,
            },
            thought_signature: opt_text(self.thought_signature),
        }
    }
}

pub open spec fn answer_parts(parts: Seq<GeminiPart>) -> Seq<PartView> {
    parts.map_values(|p: GeminiPart| p@)
}

pub struct GeminiCandidate {
    pub parts: Option<Vec<GeminiPart>>,
    pub finish_reason: Option<String>,
}

pub struct CandidateView {
    pub parts: Seq<PartView>,
    pub finish_reason: Option<Seq<char>>,
}

impl View for GeminiCandidate {
    type V = CandidateView;

    open spec fn view(&self) -> CandidateView {
        CandidateView {
            parts: match self.parts {
                Some(parts) => answer_parts(parts@),
                None => Seq::empty(),
            },
            finish_reason: opt_text(self.finish_reason),
        }
    }
}

/// How many tokens a request and its answer took.
#[derive(Clone, Copy)]
pub struct UsageMetadata {
    pub prompt_token_count: Option<u64>,
    pub candidates_token_count: Option<u64>,
}

/// An answer, or a piece of one: its first candidate, and the tokens used.
pub struct GeminiResponse {
    pub candidate: Option<GeminiCandidate>,
    pub usage: Option<UsageMetadata>,
}

pub struct GeminiResponseView {
    pub candidate: Option<CandidateView>,
    pub usage: Option<UsageMetadata>,
}

impl View for GeminiResponse {
    type V = GeminiResponseView;

    open spec fn view(&self) -> GeminiResponseView {
        GeminiResponseView {
            candidate: match self.candidate {
                Some(c) => Some(c@),
                None => None,
            },
            usage: self.usage,
        }
    }
}

pub open spec fn count_json(count: Option<u64>) -> JsonView {
    match count {
        Some(n) => JsonView::Number(decimal(n as nat)),
        None => JsonView::Null,
    }
}

pub open spec fn token_counts(prompt: Option<u64>, completion: Option<u64>) -> JsonView {
    JsonView::Object(
        seq![
            ("completion_tokens"@, count_json(completion)),
            ("prompt_tokens"@, count_json(prompt)),
        ],
    )
}

fn count_value(count: Option<u64>) -> (r: Json)
    ensures
        r@ == count_json(count),
{
    match count {
        Some(n) => Json::number(n),
        None => Json::Null,
    }
}

/// The counts of tokens as the runtime keeps them.
pub fn token_counts_of(prompt: Option<u64>, completion: Option<u64>) -> (r: Json)
    ensures
        r@ == token_counts(prompt, completion),
{
    object2(
        "completion_tokens",
        count_value(completion),
        "prompt_tokens",
        count_value(prompt),
    )
}

pub open spec fn gemini_call_id(index: nat) -> Seq<char> {
    "gemini_call_"@ + decimal(index)
}

fn gemini_id(index: usize) -> (r: String)
    ensures
        r@ == gemini_call_id(index as nat),
{
    let mut id = "gemini_call_".to_owned();
    id.push_str(decimal_text(index as u64).as_str());
    id
}

pub open spec fn part_call(part: PartView, index: nat) -> ToolCallView {
    let call = part.function_call->0;
    ToolCallView {
        id: gemini_call_id(index),
        name: call.name,
        arguments: or_empty(call.args),
        thought_signature: part.thought_signature,
    }
}

/// The texts of some parts that are not empty.
pub open spec fn part_texts(parts: Seq<PartView>) -> Seq<Seq<char>>
    decreases parts.len(),
{
    if parts.len() == 0 {
        Seq::empty()
    } else {
        match parts.last().text {
            Some(text) if text.len() > 0 => part_texts(parts.drop_last()).push(text),
            _ => part_texts(parts.drop_last()),
        }
    }
}

/// The calls in some parts, each numbered by the place of its part.
pub open spec fn part_calls(parts: Seq<PartView>) -> Seq<ToolCallView>
    decreases parts.len(),
{
    if parts.len() == 0 {
        Seq::empty()
    } else if parts.last().function_call is Some {
        part_calls(parts.drop_last()).push(part_call(parts.last(), (parts.len() - 1) as nat))
    } else {
        part_calls(parts.drop_last())
    }
}

/// The runtime's name for a reason to stop.
pub open spec fn stop_reason(reason: Seq<char>) -> Seq<char> {
    if reason == "STOP"@ {
        "stop"@
    } else if reason == "MAX_TOKENS"@ {
        "length"@
    } else if reason == "SAFETY"@ {
        "content_filter"@
    } else {
        lowercase(reason)
    }
}

fn stop_reason_of(reason: &str) -> (r: String)
    ensures
        r@ == stop_reason(reason@),
{
    if same_text(reason, "STOP") {
        "stop".to_owned()
    } else if same_text(reason, "MAX_TOKENS") {
        "length".to_owned()
    } else if same_text(reason, "SAFETY") {
        "content_filter".to_owned()
    } else {
        reason.to_lowercase()
    }
}

/// The response that a whole answer makes.
pub open spec fn gemini_answer(candidate: CandidateView, usage: Option<UsageMetadata>) -> ResponseView {
    let calls = part_calls(candidate.parts);
    let texts = part_texts(candidate.parts);
    ResponseView {
        content: if texts.len() == 0 {
            None
        } else {
            Some(join(texts, "\n"@))
        },
        reasoning_content: None,
        tool_calls: calls,
        finish_reason: match candidate.finish_reason {
            Some(reason) => stop_reason(reason),
            None => if calls.len() > 0 {
                "tool_calls"@
            } else {
                "stop"@
            },
        },
        usage: match usage {
            Some(meta) => token_counts(meta.prompt_token_count, meta.candidates_token_count),
            None => JsonView::Null,
        },
    }
}

fn part_call_of(part: &GeminiPart, call: &GeminiFunctionCall, index: usize) -> (r: ToolCallRequest)
    requires
        part.function_call == Some(*call),
    ensures
        r@ == part_call(part@, index as nat),
{
    ToolCallRequest {
        id: gemini_id(index),
        name: call.name.clone(),
        arguments: match &call.args {
            Some(args) => args.clone(),
            None => no_members(),
        },
        thought_signature: copy_opt(&part.thought_signature),
    }
}

impl GeminiProvider {
    /// The response that a whole answer makes; an error where it has no candidate.
    pub fn read_answer(response: &GeminiResponse) -> (r: Result<LLMResponse, Error>)
        ensures
            match r {
                Ok(answer) => response@.candidate is Some && answer@ == gemini_answer(
                    response@.candidate->0,
                    response.usage,
                ),
                Err(error) => response@.candidate is None && error@ == ErrorView::Provider(
                    "No candidates in Gemini response"@,
                ),
            },
    {
        let candidate = match &response.candidate {
            Some(candidate) => candidate,
            None => {
                return Err(Error::Provider("No candidates in Gemini response".to_owned()));
            },
        };
        let mut texts: Vec<String> = Vec::new();
        let mut calls: Vec<ToolCallRequest> = Vec::new();
        assert(texts_view(texts@) =~= Seq::empty());
        assert(calls_view(calls@) =~= Seq::empty());
        if let Some(parts) = &candidate.parts {
            let ghost views = answer_parts(parts@);
            let mut i: usize = 0;
            while i < parts.len()
                invariant
                    i <= parts.len(),
                    views == answer_parts(parts@),
                    texts_view(texts@) == part_texts(views.take(i as int)),
                    calls_view(calls@) == part_calls(views.take(i as int)),
                decreases parts.len() - i,
            {
                assert(views.take(i + 1).drop_last() =~= views.take(i as int));
                assert(views[i as int] == parts@[i as int]@);
                let part = &parts[i];
                if let Some(text) = &part.text {
                    if !text.as_str().is_empty() {
                        let ghost so_far = texts_view(texts@);
                        texts.push(text.clone());
                        assert(texts_view(texts@) =~= so_far.push(text@));
                    }
                }
                if let Some(call) = &part.function_call {
                    let ghost so_far = calls_view(calls@);
                    let request = part_call_of(part, call, i);
                    calls.push(request);
                    assert(calls_view(calls@) =~= so_far.push(request@));
                }
                i += 1;
            }
            assert(views.take(views.len() as int) =~= views);
        }
        let content = if texts.len() == 0 {
            None
        } else {
            Some(join_texts(&texts, "\n"))
        };
        let finish_reason = match &candidate.finish_reason {
            Some(reason) => stop_reason_of(reason.as_str()),
            None => if calls.len() > 0 {
                "tool_calls".to_owned()
            } else {
                "stop".to_owned()
            },
        };
        let usage = match &response.usage {
            Some(meta) => token_counts_of(meta.prompt_token_count, meta.candidates_token_count),
            None => Json::Null,
        };
        Ok(
            LLMResponse {
                content,
                reasoning_content: None,
                tool_calls: calls,
                finish_reason,
                usage,
            },
        )
    }

    /// The JSON text on an event line; nothing where the line carries none.
    pub fn line_data(line: &str) -> (r: Option<String>)
        ensures
            opt_text(r) == match data_of_line(line@) {
                Some(data) => nonempty(data),
                None => None,
            },
    {
        let chars = chars_of(line);
        match strip_prefix_chars(chars.as_slice(), "data: ") {
            Some(data) => some_unless_empty(text_of(data)),
            None => None,
        }
    }
}

// ---------------------------------------------------------------------------
// Streams
// ---------------------------------------------------------------------------

pub struct GeminiStreamView {
    pub content: Seq<char>,
    pub tool_calls: Seq<ToolCallView>,
    pub finish_reason: Seq<char>,
    pub usage: JsonView,
}

/// The answer after one more part, and what is passed on for it. A call is numbered by how many
/// came before it in the stream.
pub open spec fn add_part(state: GeminiStreamView, part: PartView) -> (
    GeminiStreamView,
    Seq<ChunkView>,
) {
    let text = match part.text {
        Some(t) if t.len() > 0 => t,
        _ => Seq::empty(),
    };
    let text_chunks: Seq<ChunkView> = if text.len() > 0 {
        seq![ChunkView::TextDelta { delta: text }]
    } else {
        Seq::empty()
    };
    let index = state.tool_calls.len();
    match part.function_call {
        None => (GeminiStreamView { content: state.content + text, ..state }, text_chunks),
        Some(_) => {
            let call = part_call(part, index);
            (
                GeminiStreamView {
                    content: state.content + text,
                    tool_calls: state.tool_calls.push(call),
                    ..state
                },
                text_chunks + seq![
                    ChunkView::ToolCallStart { index: index as int, id: call.id, name: call.name },
                    ChunkView::ToolCallDelta {
                        index: index as int,
                        id: call.id,
                        delta: json_text(call.arguments),
                    },
                ],
            )
        },
    }
}

pub open spec fn add_parts(state: GeminiStreamView, parts: Seq<PartView>) -> (
    GeminiStreamView,
    Seq<ChunkView>,
)
    decreases parts.len(),
{
    if parts.len() == 0 {
        (state, Seq::empty())
    } else {
        let (before, chunks) = add_parts(state, parts.drop_last());
        let (now, more) = add_part(before, parts.last());
        (now, chunks + more)
    }
}

/// The answer after one more piece, and what is passed on for it.
pub open spec fn add_piece(state: GeminiStreamView, piece: GeminiResponseView) -> (
    GeminiStreamView,
    Seq<ChunkView>,
) {
    let usage = match piece.usage {
        Some(meta) => token_counts(meta.prompt_token_count, meta.candidates_token_count),
        None => state.usage,
    };
    match piece.candidate {
        None => (GeminiStreamView { usage, ..state }, Seq::empty()),
        Some(candidate) => {
            let finish_reason = match candidate.finish_reason {
                Some(reason) => stop_reason(reason),
                None => state.finish_reason,
            };
            add_parts(GeminiStreamView { usage, finish_reason, ..state }, candidate.parts)
        },
    }
}

/// The response once the stream is over.
pub open spec fn gemini_finished(state: GeminiStreamView) -> ResponseView {
    ResponseView {
        content: nonempty(state.content),
        reasoning_content: None,
        tool_calls: state.tool_calls,
        finish_reason: if state.tool_calls.len() > 0 {
            "tool_calls"@
        } else {
            state.finish_reason
        },
        usage: state.usage,
    }
}

/// Collects a streamed answer.
pub struct GeminiStream {
    pub content: String,
    pub tool_calls: Vec<ToolCallRequest>,
    pub finish_reason: String,
    pub usage: Json,
}

impl View for GeminiStream {
    type V = GeminiStreamView;

    open spec fn view(&self) -> GeminiStreamView {
        GeminiStreamView {
            content: self.content@,
            tool_calls: calls_view(self.tool_calls@),
            finish_reason: self.finish_reason@,
            usage: self.usage@,
        }
    }
}

impl GeminiStream {
    pub fn new() -> (r: Self)
        ensures
            r@ == (GeminiStreamView {
                content: Seq::empty(),
                tool_calls: Seq::empty(),
                finish_reason: "stop"@,
                usage: JsonView::Null,
            }),
    {
        let r = GeminiStream {
            content: String::new(),
            tool_calls: Vec::new(),
            finish_reason: "stop".to_owned(),
            usage: Json::Null,
        };
        assert(r@.tool_calls =~= Seq::empty());
        r
    }

    fn apply_part(&mut self, part: &GeminiPart, chunks: &mut Vec<StreamChunk>)
        ensures
            final(self)@ == add_part(old(self)@, part@).0,
            chunks_view(final(chunks)@) == chunks_view(old(chunks)@) + add_part(
                old(self)@,
                part@,
            ).1,
    {
        let ghost state = self@;
        let ghost sent = chunks_view(chunks@);
        let mut said = false;
        if let Some(text) = &part.text {
            if !text.as_str().is_empty() {
                said = true;
                self.content.push_str(text.as_str());
                let chunk = StreamChunk::TextDelta { delta: text.clone() };
                chunks.push(chunk);
                assert(chunks_view(chunks@) =~= sent.push(chunk@));
            }
        }
        if !said {
            assert(state.content + Seq::empty() =~= state.content);
            assert(sent + Seq::empty() =~= sent);
        }
        let ghost sent_text = chunks_view(chunks@);
        if let Some(fc) = &part.function_call {
            let index = self.tool_calls.len();
            let call = part_call_of(part, fc, index);
            let start = StreamChunk::ToolCallStart {
                index,
                id: call.id.clone(),
                name: call.name.clone(),
            };
            let delta = StreamChunk::ToolCallDelta {
                index,
                id: call.id.clone(),
                delta: render(&call.arguments),
            };
            chunks.push(start);
            chunks.push(delta);
            assert(chunks_view(chunks@) =~= sent_text + seq![start@, delta@]);
            self.tool_calls.push(call);
            assert(calls_view(self.tool_calls@) =~= state.tool_calls.push(call@));
        }
        assert(chunks_view(chunks@) =~= sent + add_part(state, part@).1);
    }

    /// Adds a piece of the answer and returns what is passed on for it.
    pub fn apply(&mut self, piece: &GeminiResponse) -> (chunks: Vec<StreamChunk>)
        ensures
            (final(self)@, chunks_view(chunks@)) == add_piece(old(self)@, piece@),
    {
        let mut chunks: Vec<StreamChunk> = Vec::new();
        assert(chunks_view(chunks@) =~= Seq::empty());
        if let Some(meta) = &piece.usage {
            self.usage = token_counts_of(meta.prompt_token_count, meta.candidates_token_count);
        }
        if let Some(candidate) = &piece.candidate {
            if let Some(reason) = &candidate.finish_reason {
                self.finish_reason = stop_reason_of(reason.as_str());
            }
            if let Some(parts) = &candidate.parts {
                let ghost state = self@;
                let ghost views = answer_parts(parts@);
                let mut i: usize = 0;
                assert(add_parts(state, views.take(0)) == (state, Seq::<ChunkView>::empty()));
                while i < parts.len()
                    invariant
                        i <= parts.len(),
                        views == answer_parts(parts@),
                        self@ == add_parts(state, views.take(i as int)).0,
                        chunks_view(chunks@) == add_parts(state, views.take(i as int)).1,
                    decreases parts.len() - i,
                {
                    assert(views.take(i + 1).drop_last() =~= views.take(i as int));
                    assert(views[i as int] == parts@[i as int]@);
                    self.apply_part(&parts[i], &mut chunks);
                    i += 1;
                }
                assert(views.take(views.len() as int) =~= views);
            }
        }
        chunks
    }

    /// The response once the stream is over.
    pub fn finish(&self) -> (r: LLMResponse)
        ensures
            r@ == gemini_finished(self@),
    {
        let finish_reason = if self.tool_calls.len() > 0 {
            "tool_calls".to_owned()
        } else {
            self.finish_reason.clone()
        };
        LLMResponse {
            content: some_unless_empty(self.content.clone()),
            reasoning_content: None,
            tool_calls: copy_calls(&self.tool_calls),
            finish_reason,
            usage: self.usage.clone(),
        }
    }
}

/// What is passed on for the parts is the text that they add, and ends nothing.
proof fn lemma_parts_passed_on(state: GeminiStreamView, parts: Seq<PartView>)
    ensures
        ({
            let (now, chunks) = add_parts(state, parts);
            &&& forall|i: int| 0 <= i < chunks.len() ==> !ends(#[trigger] chunks[i])
            &&& now.content == state.content + streamed_text(chunks)
            &&& streamed_reasoning(chunks) == Seq::<char>::empty()
        }),
    decreases parts.len(),
{
    if parts.len() == 0 {
        assert(state.content + Seq::<char>::empty() =~= state.content);
    } else {
        lemma_parts_passed_on(state, parts.drop_last());
        let (before, chunks) = add_parts(state, parts.drop_last());
        let (now, more) = add_part(before, parts.last());
        let all = chunks + more;
        assert forall|i: int| 0 <= i < all.len() implies !ends(#[trigger] all[i]) by {
            if i < chunks.len() {
                assert(all[i] == chunks[i]);
            } else {
                assert(all[i] == more[i - chunks.len()]);
            }
        }
        lemma_streamed_concat(chunks, more);
        reveal_with_fuel(streamed_text, 4);
        reveal_with_fuel(streamed_reasoning, 4);
        assert(now.content =~= before.content + streamed_text(more));
        assert(streamed_reasoning(more) =~= Seq::empty());
        assert(now.content =~= state.content + streamed_text(all));
        assert(streamed_reasoning(all) =~= Seq::empty());
    }
}

impl Collects for GeminiStream {
    type Piece = GeminiResponse;

    type State = GeminiStreamView;

    open spec fn state(&self) -> GeminiStreamView {
        self@
    }

    open spec fn added(state: GeminiStreamView, piece: GeminiResponse) -> (
        GeminiStreamView,
        Seq<ChunkView>,
        Option<ResponseView>,
    ) {
        let (now, chunks) = add_piece(state, piece@);
        (now, chunks, None)
    }

    open spec fn ended(state: GeminiStreamView) -> ResponseView {
        gemini_finished(state)
    }

    open spec fn text(state: GeminiStreamView) -> Seq<char> {
        state.content
    }

    open spec fn reasoning(state: GeminiStreamView) -> Seq<char> {
        Seq::empty()
    }

    proof fn lemma_added(state: GeminiStreamView, piece: GeminiResponse) {
        let usage = match piece@.usage {
            Some(meta) => token_counts(meta.prompt_token_count, meta.candidates_token_count),
            None => state.usage,
        };
        let chunks = add_piece(state, piece@).1;
        match piece@.candidate {
            None => {
                assert(state.content + streamed_text(chunks) =~= state.content);
            },
            Some(candidate) => {
                let finish_reason = match candidate.finish_reason {
                    Some(reason) => stop_reason(reason),
                    None => state.finish_reason,
                };
                lemma_parts_passed_on(
                    GeminiStreamView { usage, finish_reason, ..state },
                    candidate.parts,
                );
            },
        }
        assert(Seq::<char>::empty() + streamed_reasoning(chunks) =~= Seq::empty());
    }

    proof fn lemma_ended(state: GeminiStreamView) {
    }

    fn collect(&mut self, piece: &GeminiResponse) -> (r: (Vec<StreamChunk>, Option<LLMResponse>)) {
        (self.apply(piece), None)
    }

    fn conclude(&self) -> (r: LLMResponse) {
        self.finish()
    }
}

} // verus!
