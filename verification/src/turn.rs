//! The rounds of a conversation in which a model calls tools until it answers.

use crate::history::{head_tail, trim_text_head_tail};
use crate::json::{json_parsed, object2, object3, parse};
use crate::media::{media_in, media_of};
use crate::messages::{InboundMessage, InboundView};
use crate::mid_loop::{compress_mid_loop, shortened};
use crate::prompt::{chat_channel, is_im_channel};
use crate::replies::{
    is_thin, is_tool_trace_content, reports_error, result_reports_error,
    should_supplement_tool_schema, strip_fake_tool_calls, thin, tool_trace, top_urls, top_urls_of,
    without_fake_calls, wrong_call,
};
use crate::safety::{asks_for_image, user_wants_send_image};
use crate::text::{
    chars_of, chars_start_with, copy_opt, decimal, decimal_text, join, join_texts, lowercase, opt_text,
    same_text, starts_with, text_of, texts_view, trim, trim_chars,
};
use crate::toolset::{any_full, is_any_full, others, replace_description};
use crate::types::{
    calls_view, copy_calls, copy_messages, json_opt, messages_view, text_message, ChatMessage,
    LLMResponse, MessageView, ResponseView, ToolCallRequest, ToolCallView,
};
use crate::value::{group_json_view, items_view, Json, JsonView};
use vstd::prelude::*;

verus! {

broadcast use group_json_view;

// ---------------------------------------------------------------------------
// The state
// ---------------------------------------------------------------------------

/// The state of a conversation while it is worked on: what the model is sent, what is kept, the
/// descriptions of the tools, how often each tool failed in a row, the media that tools made,
/// whether media were sent, and the answer.
pub struct TurnView {
    pub messages: Seq<MessageView>,
    pub history: Seq<MessageView>,
    pub tools: Seq<JsonView>,
    pub failures: Seq<(Seq<char>, nat)>,
    pub media: Seq<Seq<char>>,
    pub media_sent: bool,
    pub answer: Seq<char>,
}

/// The state of a round: whether a tool was described anew, the results, whether the model should
/// answer now, and the pages of searches that found nothing but titles.
pub struct RoundView {
    pub supplemented: bool,
    pub results: Seq<MessageView>,
    pub wants_answer: bool,
    pub thin_urls: Seq<Seq<char>>,
}

pub open spec fn new_round() -> RoundView {
    RoundView {
        supplemented: false,
        results: Seq::empty(),
        wants_answer: false,
        thin_urls: Seq::empty(),
    }
}

/// The message in which the model asks for tools. A text that only traces calls is dropped.
pub open spec fn request_message(response: ResponseView) -> MessageView {
    let said = match response.content {
        Some(text) => text,
        None => ""@,
    };
    MessageView {
        reasoning_content: response.reasoning_content,
        tool_calls: Some(response.tool_calls),
        ..text_message(
            "assistant"@,
            if tool_trace(said) {
                ""@
            } else {
                said
            },
        )
    }
}

/// The state once the model has asked for tools.
pub open spec fn begun(turn: TurnView, response: ResponseView) -> TurnView {
    TurnView {
        messages: turn.messages.push(request_message(response)),
        history: turn.history.push(request_message(response)),
        ..turn
    }
}

// ---------------------------------------------------------------------------
// Results of tools
// ---------------------------------------------------------------------------

/// Where the failures of a tool are counted, or the number of tools that failed.
pub open spec fn failure_slot(failures: Seq<(Seq<char>, nat)>, name: Seq<char>) -> int
    decreases failures.len(),
{
    if failures.len() == 0 || failures[0].0 == name {
        0
    } else {
        1 + failure_slot(failures.skip(1), name)
    }
}

/// One more, up to the greatest number that is counted.
pub open spec fn one_more(n: nat) -> nat {
    if n < u32::MAX {
        n + 1
    } else {
        n
    }
}

/// The failures after one more call of a tool: counted up where it failed, forgotten where it
/// did not.
pub open spec fn counted(
    failures: Seq<(Seq<char>, nat)>,
    name: Seq<char>,
    failed: bool,
) -> Seq<(Seq<char>, nat)> {
    let at = failure_slot(failures, name);
    if failed {
        if at < failures.len() {
            failures.update(at, (name, one_more(failures[at].1)))
        } else {
            failures.push((name, 1))
        }
    } else if at < failures.len() {
        failures.remove(at)
    } else {
        failures
    }
}

pub open spec fn searching(name: Seq<char>) -> bool {
    name == "web_search"@ || name == "web_fetch"@
}

/// A call that sends media to the user.
pub open spec fn sends_media(call: ToolCallView) -> bool {
    call.name == "message"@ && match call.arguments.get("media"@) {
        Some(JsonView::Array(items)) => items.len() > 0,
        _ => false,
    }
}

/// The media that the result of a call names. What the call itself has sent is not counted.
pub open spec fn made_media(call: ToolCallView, parsed: Option<JsonView>) -> Seq<Seq<char>> {
    match parsed {
        Some(value) if call.name != "message"@ => media_in(value),
        _ => Seq::empty(),
    }
}

/// The pages that a search found without telling what is on them.
pub open spec fn thin_pages(
    call: ToolCallView,
    result: Seq<char>,
    parsed: Option<JsonView>,
) -> Seq<Seq<char>> {
    match parsed {
        Some(value) if call.name == "web_search"@ && !starts_with(result, "Tool error:"@) && thin(
            value,
        ) => top_urls(value),
        _ => Seq::empty(),
    }
}

/// The result says that the call was wrong, and the model has not seen the full description of
/// the tool, which there is.
pub open spec fn lacks_description(
    tools: Seq<JsonView>,
    call: ToolCallView,
    result: Seq<char>,
    full: Option<JsonView>,
) -> bool {
    wrong_call(result) && full is Some && !any_full(tools, call.name)
}

pub open spec fn result_message(call: ToolCallView, result: Seq<char>) -> MessageView {
    MessageView {
        tool_call_id: Some(call.id),
        name: Some(call.name),
        ..text_message("tool"@, result)
    }
}

/// The state once a tool has given its result. `parsed` is what the result reads as, `full` the
/// full description of the tool where it has one.
pub open spec fn recorded(
    turn: TurnView,
    call: ToolCallView,
    result: Seq<char>,
    parsed: Option<JsonView>,
    full: Option<JsonView>,
) -> TurnView {
    TurnView {
        media_sent: turn.media_sent || sends_media(call),
        media: turn.media + made_media(call, parsed),
        failures: counted(turn.failures, call.name, reports_error(result, parsed)),
        tools: if lacks_description(turn.tools, call, result, full) {
            others(turn.tools, call.name).push(full->0)
        } else {
            turn.tools
        },
        ..turn
    }
}

pub open spec fn recorded_round(
    round: RoundView,
    tools: Seq<JsonView>,
    call: ToolCallView,
    result: Seq<char>,
    parsed: Option<JsonView>,
    full: Option<JsonView>,
) -> RoundView {
    RoundView {
        supplemented: round.supplemented || lacks_description(tools, call, result, full),
        results: round.results.push(result_message(call, result)),
        wants_answer: round.wants_answer || searching(call.name),
        thin_urls: round.thin_urls + thin_pages(call, result, parsed),
    }
}

// ---------------------------------------------------------------------------
// The end of a round
// ---------------------------------------------------------------------------

/// The result of a tool, cut in its middle where it is long.
pub open spec fn kept_result(message: MessageView) -> MessageView {
    match message.content {
        JsonView::Str(s) => MessageView { content: JsonView::Str(head_tail(s, 2400)), ..message },
        _ => message,
    }
}

pub open spec fn kept_results(results: Seq<MessageView>) -> Seq<MessageView> {
    results.map_values(|m: MessageView| kept_result(m))
}

pub const ANSWER_NOW: &'static str = "请基于刚才工具返回的结果直接给出最终答案（例如：整理成要点/列表/摘要）。除非结果明显不足，否则不要继续调用 web_search/web_fetch。";

/// What the model is told after a search: to read the pages where the search told nothing of
/// them, to answer otherwise.
pub open spec fn search_hint(thin_urls: Seq<Seq<char>>) -> Seq<char> {
    if thin_urls.len() > 0 {
        "搜索结果只包含链接标题，没有具体内容。**不要直接返回\"未找到\"，请立即改用 `web_fetch` 直接抓取以下页面获取真实数据**：\n- "@
            + join(
            thin_urls.take(
                if thin_urls.len() < 3 {
                    thin_urls.len() as int
                } else {
                    3
                },
            ),
            "\n- "@,
        ) + "\n\n抓取后给出最终答案。"@
    } else {
        ANSWER_NOW@
    }
}

/// The tools that failed twice or more, with how often.
pub open spec fn repeated(failures: Seq<(Seq<char>, nat)>) -> Seq<Seq<char>>
    decreases failures.len(),
{
    if failures.len() == 0 {
        Seq::empty()
    } else if failures.last().1 >= 2 {
        repeated(failures.drop_last()).push(
            failures.last().0 + " ("@ + decimal(failures.last().1) + "x)"@,
        )
    } else {
        repeated(failures.drop_last())
    }
}

pub open spec fn failure_hint(names: Seq<Seq<char>>) -> Seq<char> {
    "⚠️ 以下工具连续失败: "@ + join(names, ", "@)
        + "。请不要继续重试，改用其他可用工具完成任务。对于金融数据查询失败，可降级使用 `web_search` 搜索相关新闻。"@
}

/// How a round ends.
#[derive(Clone, Copy, PartialEq, Eq, Structural)]
pub enum RoundEnd {
    /// The model is asked again, with a tool described anew.
    Again,
    /// The model is asked again, with the results.
    Next,
    /// The tools have answered the user themselves.
    Stop,
    /// No round is left: the model is asked for an answer without tools.
    FinalCall,
}

/// What the model is sent after a round: the results, hints, and older rounds in short.
pub open spec fn sent_after(turn: TurnView, round: RoundView, more_rounds: bool) -> Seq<
    MessageView,
> {
    let with_results = turn.messages + kept_results(round.results);
    let with_hint = if round.wants_answer && more_rounds {
        with_results.push(text_message("user"@, search_hint(round.thin_urls)))
    } else {
        with_results
    };
    let failed = repeated(turn.failures);
    let with_failures = if failed.len() > 0 {
        with_hint.push(text_message("user"@, failure_hint(failed)))
    } else {
        with_hint
    };
    if with_failures.len() > 20 {
        shortened(with_failures)
    } else {
        with_failures
    }
}

pub open spec fn without_last(messages: Seq<MessageView>) -> Seq<MessageView> {
    if messages.len() > 0 {
        messages.drop_last()
    } else {
        messages
    }
}

/// The state after a round. A round in which a tool was described anew is taken back.
pub open spec fn ended(
    turn: TurnView,
    round: RoundView,
    more_rounds: bool,
    answered_by_tools: bool,
) -> TurnView {
    if round.supplemented {
        TurnView {
            messages: without_last(turn.messages),
            history: without_last(turn.history),
            ..turn
        }
    } else {
        TurnView {
            messages: sent_after(turn, round, more_rounds),
            history: turn.history + kept_results(round.results),
            answer: if answered_by_tools {
                Seq::empty()
            } else {
                turn.answer
            },
            ..turn
        }
    }
}

pub open spec fn round_end(round: RoundView, more_rounds: bool, answered_by_tools: bool) -> RoundEnd {
    if round.supplemented {
        RoundEnd::Again
    } else if answered_by_tools {
        RoundEnd::Stop
    } else if !more_rounds {
        RoundEnd::FinalCall
    } else {
        RoundEnd::Next
    }
}

/// The argument in member `key` is missing, no string, or this text.
pub open spec fn open_or(args: JsonView, key: Seq<char>, text: Seq<char>) -> bool {
    match args.str_at(key) {
        Some(s) => s == text,
        None => true,
    }
}

/// A call that writes to the user in the same chat.
pub open spec fn writes_back(call: ToolCallView, msg: InboundView) -> bool {
    call.name == "message"@ && open_or(call.arguments, "channel"@, msg.channel) && open_or(
        call.arguments,
        "chat_id"@,
        msg.chat_id,
    )
}

/// All calls write to the user in the same chat, so that no further answer is needed.
pub open spec fn all_write_back(calls: Seq<ToolCallView>, msg: InboundView) -> bool {
    chat_channel(msg.channel) && forall|i: int|
        0 <= i < calls.len() ==> writes_back(#[trigger] calls[i], msg)
}

// ---------------------------------------------------------------------------
// Laws
// ---------------------------------------------------------------------------

/// One recorded call: the call, its result, what the result reads as, and the full description of
/// the tool.
pub struct CallRecord {
    pub call: ToolCallView,
    pub result: Seq<char>,
    pub parsed: Option<JsonView>,
    pub full: Option<JsonView>,
}

/// The state of the conversation and of the round once all these calls were recorded.
pub open spec fn recorded_all(turn: TurnView, records: Seq<CallRecord>) -> (TurnView, RoundView)
    decreases records.len(),
{
    if records.len() == 0 {
        (turn, new_round())
    } else {
        let (so_far, round) = recorded_all(turn, records.drop_last());
        let r = records.last();
        (
            recorded(so_far, r.call, r.result, r.parsed, r.full),
            recorded_round(round, so_far.tools, r.call, r.result, r.parsed, r.full),
        )
    }
}

proof fn lemma_recorded_all(turn: TurnView, records: Seq<CallRecord>)
    ensures
        ({
            let (after, round) = recorded_all(turn, records);
            &&& after.messages == turn.messages
            &&& after.history == turn.history
            &&& round.results.len() == records.len()
            &&& forall|i: int|
                0 <= i < records.len() ==> #[trigger] round.results[i] == result_message(
                    records[i].call,
                    records[i].result,
                )
        }),
    decreases records.len(),
{
    if records.len() > 0 {
        lemma_recorded_all(turn, records.drop_last());
    }
}

/// A round that is taken back leaves no trace in what the model is sent and in what is kept.
pub proof fn law_round_taken_back(
    turn: TurnView,
    response: ResponseView,
    records: Seq<CallRecord>,
    more_rounds: bool,
    answered_by_tools: bool,
)
    requires
        recorded_all(begun(turn, response), records).1.supplemented,
    ensures
        ({
            let (after, round) = recorded_all(begun(turn, response), records);
            let end = ended(after, round, more_rounds, answered_by_tools);
            end.messages == turn.messages && end.history == turn.history
        }),
{
    lemma_recorded_all(begun(turn, response), records);
    let (after, round) = recorded_all(begun(turn, response), records);
    assert(after.messages.drop_last() =~= turn.messages);
    assert(after.history.drop_last() =~= turn.history);
}

/// A round that is kept adds to the history the message that asks for the tools and, directly
/// behind it, the result of each call in the order of the calls.
pub proof fn law_round_is_kept_whole(
    turn: TurnView,
    response: ResponseView,
    records: Seq<CallRecord>,
    more_rounds: bool,
    answered_by_tools: bool,
)
    requires
        !recorded_all(begun(turn, response), records).1.supplemented,
    ensures
        ({
            let (after, round) = recorded_all(begun(turn, response), records);
            let end = ended(after, round, more_rounds, answered_by_tools);
            &&& end.history.len() == turn.history.len() + 1 + records.len()
            &&& end.history[turn.history.len() as int] == request_message(response)
            &&& forall|i: int|
                0 <= i < records.len() ==> #[trigger] end.history[turn.history.len() + 1 + i]
                    == kept_result(result_message(records[i].call, records[i].result))
        }),
{
    lemma_recorded_all(begun(turn, response), records);
    let (after, round) = recorded_all(begun(turn, response), records);
    let end = ended(after, round, more_rounds, answered_by_tools);
    let first = turn.history.len() as int;
    assert(after.history[first] == request_message(response));
    assert forall|i: int| 0 <= i < records.len() implies #[trigger] end.history[first + 1 + i]
        == kept_result(result_message(records[i].call, records[i].result)) by {
        assert(end.history[first + 1 + i] == kept_results(round.results)[i]);
    }
}

// ---------------------------------------------------------------------------
// The work
// ---------------------------------------------------------------------------

/// A conversation while it is worked on.
pub struct Turn {
    pub messages: Vec<ChatMessage>,
    pub history: Vec<ChatMessage>,
    pub tools: Vec<Json>,
    pub failures: Vec<(String, u32)>,
    pub media: Vec<String>,
    pub media_sent: bool,
    pub answer: String,
}

pub open spec fn failures_view(failures: Seq<(String, u32)>) -> Seq<(Seq<char>, nat)> {
    failures.map_values(|f: (String, u32)| (f.0@, f.1 as nat))
}

impl View for Turn {
    type V = TurnView;

    open spec fn view(&self) -> TurnView {
        TurnView {
            messages: messages_view(self.messages@),
            history: messages_view(self.history@),
            tools: items_view(self.tools@),
            failures: failures_view(self.failures@),
            media: texts_view(self.media@),
            media_sent: self.media_sent,
            answer: self.answer@,
        }
    }
}

/// A round while it is worked on.
pub struct Round {
    pub supplemented: bool,
    pub results: Vec<ChatMessage>,
    pub wants_answer: bool,
    pub thin_urls: Vec<String>,
}

impl View for Round {
    type V = RoundView;

    open spec fn view(&self) -> RoundView {
        RoundView {
            supplemented: self.supplemented,
            results: messages_view(self.results@),
            wants_answer: self.wants_answer,
            thin_urls: texts_view(self.thin_urls@),
        }
    }
}

impl Round {
    pub fn new() -> (r: Self)
        ensures
            r@ == new_round(),
    {
        let r = Round {
            supplemented: false,
            results: Vec::new(),
            wants_answer: false,
            thin_urls: Vec::new(),
        };
        assert(r@.results =~= Seq::empty());
        assert(r@.thin_urls =~= Seq::empty());
        r
    }
}

fn push_message(list: &mut Vec<ChatMessage>, message: ChatMessage)
    ensures
        messages_view(final(list)@) == messages_view(old(list)@).push(message@),
{
    let ghost before = messages_view(list@);
    list.push(message);
    assert(messages_view(list@) =~= before.push(message@));
}

fn push_texts(list: &mut Vec<String>, mut more: Vec<String>)
    ensures
        texts_view(final(list)@) == texts_view(old(list)@) + texts_view(more@),
{
    let ghost before = texts_view(list@);
    let ghost added = texts_view(more@);
    list.append(&mut more);
    assert(texts_view(list@) =~= before + added);
}

fn find_failure(failures: &Vec<(String, u32)>, name: &str) -> (r: usize)
    ensures
        r == failure_slot(failures_view(failures@), name@),
        r <= failures@.len(),
{
    let ghost views = failures_view(failures@);
    let mut i: usize = 0;
    assert(views.skip(0) =~= views);
    while i < failures.len()
        invariant
            i <= failures.len(),
            views == failures_view(failures@),
            failure_slot(views, name@) == i + failure_slot(views.skip(i as int), name@),
        decreases failures.len() - i,
    {
        assert(views.skip(i as int)[0].0 == failures@[i as int].0@);
        if same_text(failures[i].0.as_str(), name) {
            return i;
        }
        assert(views.skip(i as int).skip(1) =~= views.skip(i + 1));
        i += 1;
    }
    i
}

fn count_failure(failures: &mut Vec<(String, u32)>, name: &str, failed: bool)
    ensures
        failures_view(final(failures)@) == counted(failures_view(old(failures)@), name@, failed),
{
    let ghost before = failures_view(failures@);
    let at = find_failure(failures, name);
    if failed {
        if at < failures.len() {
            let count = failures[at].1;
            assert(before[at as int].1 == count as nat);
            let count = if count < u32::MAX {
                count + 1
            } else {
                count
            };
            failures.set(at, (name.to_owned(), count));
            assert(failures_view(failures@) =~= before.update(at as int, (name@, count as nat)));
        } else {
            failures.push((name.to_owned(), 1));
            assert(failures_view(failures@) =~= before.push((name@, 1)));
        }
    } else if at < failures.len() {
        let gone = failures.remove(at);
        assert(failures_view(failures@) =~= before.remove(at as int));
    }
}

fn repeated_of(failures: &Vec<(String, u32)>) -> (r: Vec<String>)
    ensures
        texts_view(r@) == repeated(failures_view(failures@)),
{
    let ghost views = failures_view(failures@);
    let mut r: Vec<String> = Vec::new();
    let mut i: usize = 0;
    assert(texts_view(r@) =~= Seq::empty());
    while i < failures.len()
        invariant
            i <= failures.len(),
            views == failures_view(failures@),
            texts_view(r@) == repeated(views.take(i as int)),
        decreases failures.len() - i,
    {
        assert(views.take(i + 1).drop_last() =~= views.take(i as int));
        assert(views[i as int] == (failures@[i as int].0@, failures@[i as int].1 as nat));
        if failures[i].1 >= 2 {
            let mut text = failures[i].0.clone();
            text.push_str(" (");
            text.push_str(decimal_text(failures[i].1 as u64).as_str());
            text.push_str("x)");
            let ghost so_far = texts_view(r@);
            r.push(text);
            assert(texts_view(r@) =~= so_far.push(text@));
        }
        i += 1;
    }
    assert(views.take(views.len() as int) =~= views);
    r
}

fn search_hint_of(thin_urls: &Vec<String>) -> (r: String)
    ensures
        r@ == search_hint(texts_view(thin_urls@)),
{
    if thin_urls.len() == 0 {
        return ANSWER_NOW.to_owned();
    }
    let ghost all = texts_view(thin_urls@);
    let count: usize = if thin_urls.len() < 3 {
        thin_urls.len()
    } else {
        3
    };
    let mut first: Vec<String> = Vec::new();
    let mut i: usize = 0;
    while i < count
        invariant
            i <= count <= thin_urls@.len(),
            all == texts_view(thin_urls@),
            texts_view(first@) == all.take(i as int),
        decreases count - i,
    {
        let ghost so_far = texts_view(first@);
        let url = thin_urls[i].clone();
        first.push(url);
        assert(texts_view(first@) =~= so_far.push(url@));
        assert(texts_view(first@) =~= all.take(i + 1));
        i += 1;
    }
    let mut hint = "搜索结果只包含链接标题，没有具体内容。**不要直接返回\"未找到\"，请立即改用 `web_fetch` 直接抓取以下页面获取真实数据**：\n- ".to_owned();
    hint.push_str(join_texts(&first, "\n- ").as_str());
    hint.push_str("\n\n抓取后给出最终答案。");
    hint
}

fn kept_result_of(message: ChatMessage) -> (r: ChatMessage)
    ensures
        r@ == kept_result(message@),
{
    let mut message = message;
    let content = match &message.content {
        Json::Str(s) => Some(trim_text_head_tail(s.as_str(), 2400)),
        _ => None,
    };
    if let Some(text) = content {
        message.content = Json::Str(text);
    }
    message
}

fn is_media_sender(call: &ToolCallRequest) -> (r: bool)
    ensures
        r == sends_media(call@),
{
    same_text(call.name.as_str(), "message") && match call.arguments.get("media") {
        Some(found) => match found {
            Json::Array(items) => items.len() > 0,
            _ => false,
        },
        None => false,
    }
}

fn is_open_or(args: &Json, key: &str, text: &str) -> (r: bool)
    ensures
        r == open_or(args@, key@, text@),
{
    match args.str_at(key) {
        Some(s) => same_text(s, text),
        None => true,
    }
}

/// Whether the calls alone answer the user.
pub fn tools_answer(calls: &Vec<ToolCallRequest>, msg: &InboundMessage) -> (r: bool)
    ensures
        r == all_write_back(calls_view(calls@), msg@),
{
    if !is_im_channel(msg.channel.as_str()) {
        return false;
    }
    let ghost views = calls_view(calls@);
    let mut i: usize = 0;
    while i < calls.len()
        invariant
            i <= calls.len(),
            views == calls_view(calls@),
            chat_channel(msg@.channel),
            forall|j: int| 0 <= j < i ==> writes_back(#[trigger] views[j], msg@),
        decreases calls.len() - i,
    {
        assert(views[i as int] == calls@[i as int]@);
        if !(same_text(calls[i].name.as_str(), "message") && is_open_or(
            &calls[i].arguments,
            "channel",
            msg.channel.as_str(),
        ) && is_open_or(&calls[i].arguments, "chat_id", msg.chat_id.as_str())) {
            return false;
        }
        i += 1;
    }
    true
}

/// The full description of a tool.
pub fn full_description(name: &str, description: &str, parameters: Json) -> (r: Json)
    ensures
        r@ == JsonView::Object(
            seq![
                (
                    "function"@,
                    JsonView::Object(
                        seq![
                            ("description"@, JsonView::Str(description@)),
                            ("name"@, JsonView::Str(name@)),
                            ("parameters"@, parameters@),
                        ],
                    ),
                ),
                ("type"@, JsonView::Str("function"@)),
            ],
        ),
{
    object2(
        "function",
        object3(
            "description",
            Json::text(description),
            "name",
            Json::text(name),
            "parameters",
            parameters,
        ),
        "type",
        Json::text("function"),
    )
}

/// The text of an answer when the model could not be reached.
pub open spec fn failure_text(retries: nat, error: Seq<char>) -> Seq<char> {
    "抱歉，我在处理你的请求时遇到了问题（已重试 "@ + decimal(retries) + " 次）。\n\n错误信息："@ + error
        + "\n\n这可能是临时的网络或服务问题，请稍后再试。如果问题持续，我会自动学习并改进。"@
}

pub const FINAL_REQUEST: &'static str = "请基于以上工具调用的结果，直接给出最终答案。不要再调用任何工具，也不要输出类似[Called: ...]的过程信息。";

pub const NO_MORE_ROUNDS: &'static str = "I've reached the maximum number of tool iterations.";

/// The state once an answer was given.
pub open spec fn answered(turn: TurnView, answer: Seq<char>) -> TurnView {
    TurnView {
        answer,
        history: turn.history.push(text_message("assistant"@, answer)),
        ..turn
    }
}

/// The last message with a new text, where it is an answer.
pub open spec fn last_overwritten(history: Seq<MessageView>, text: Seq<char>) -> Seq<MessageView> {
    if history.len() > 0 && history.last().role == "assistant"@ {
        history.update(
            history.len() - 1,
            MessageView { content: JsonView::Str(text), ..history.last() },
        )
    } else {
        history
    }
}

pub fn overwrite_last_assistant_message(history: &mut Vec<ChatMessage>, new_text: &str)
    ensures
        messages_view(final(history)@) == last_overwritten(
            messages_view(old(history)@),
            new_text@,
        ),
{
    let ghost before = messages_view(history@);
    if history.len() == 0 {
        return;
    }
    let last: usize = history.len() - 1;
    assert(before.last() == history@[last as int]@);
    if same_text(history[last].role.as_str(), "assistant") {
        let mut message = history[last].clone();
        message.content = Json::text(new_text);
        history.set(last, message);
        assert(messages_view(history@) =~= before.update(last as int, message@));
    }
}

/// What follows a response of the model.
pub enum ResponseStep {
    /// The turn is answered.
    Answered,
    /// The tools that the response asks for are called.
    CallTools,
}

/// A response without tool calls answers the turn; any other begins a round of tools.
pub open spec fn heard(turn: TurnView, response: ResponseView) -> (TurnView, ResponseStep) {
    if response.tool_calls.len() == 0 {
        (
            answered(
                turn,
                match response.content {
                    Some(text) => text,
                    None => Seq::empty(),
                },
            ),
            ResponseStep::Answered,
        )
    } else {
        (begun(turn, response), ResponseStep::CallTools)
    }
}

/// The user asked for a picture and none was sent.
pub open spec fn owes_image(turn: TurnView, msg: InboundView) -> bool {
    chat_channel(msg.channel) && asks_for_image(lowercase(msg.content)) && !turn.media_sent
}

impl Turn {
    pub fn new(messages: Vec<ChatMessage>, history: Vec<ChatMessage>, tools: Vec<Json>) -> (r: Self)
        ensures
            r@ == (TurnView {
                messages: messages_view(messages@),
                history: messages_view(history@),
                tools: items_view(tools@),
                failures: Seq::empty(),
                media: Seq::empty(),
                media_sent: false,
                answer: Seq::empty(),
            }),
    {
        let r = Turn {
            messages,
            history,
            tools,
            failures: Vec::new(),
            media: Vec::new(),
            media_sent: false,
            answer: String::new(),
        };
        assert(r@.failures =~= Seq::empty());
        assert(r@.media =~= Seq::empty());
        r
    }

    /// Takes the model's request for tools in.
    pub fn begin(&mut self, response: &LLMResponse)
        ensures
            final(self)@ == begun(old(self)@, response@),
    {
        let said: &str = match &response.content {
            Some(text) => text.as_str(),
            None => "",
        };
        let mut message = if is_tool_trace_content(said) {
            ChatMessage::assistant("")
        } else {
            ChatMessage::assistant(said)
        };
        message.reasoning_content = copy_opt(&response.reasoning_content);
        message.tool_calls = Some(copy_calls(&response.tool_calls));
        push_message(&mut self.messages, message.clone());
        push_message(&mut self.history, message);
    }

    /// Takes a response of the model in, and says what follows it.
    pub fn hear(&mut self, response: &LLMResponse) -> (r: ResponseStep)
        ensures
            (final(self)@, r) == heard(old(self)@, response@),
    {
        if response.tool_calls.len() == 0 {
            self.answer(&response.content);
            ResponseStep::Answered
        } else {
            self.begin(response);
            ResponseStep::CallTools
        }
    }

    /// Takes the result of a tool in, given what the result reads as.
    pub fn record_parsed(
        &mut self,
        round: &mut Round,
        call: &ToolCallRequest,
        result: &str,
        parsed: Option<Json>,
        full: Option<Json>,
    )
        ensures
            final(self)@ == recorded(
                old(self)@,
                call@,
                result@,
                json_opt(parsed),
                json_opt(full),
            ),
            final(round)@ == recorded_round(
                old(round)@,
                old(self)@.tools,
                call@,
                result@,
                json_opt(parsed),
                json_opt(full),
            ),
    {
        let ghost start = self@;
        let ghost start_round = round@;
        let name = call.name.as_str();
        if same_text(name, "web_search") || same_text(name, "web_fetch") {
            round.wants_answer = true;
        }
        if is_media_sender(call) {
            self.media_sent = true;
        }
        if let Some(value) = &parsed {
            if !same_text(name, "message") {
                push_texts(&mut self.media, media_of(value));
            } else {
                assert(start.media + Seq::empty() =~= start.media);
            }
            let tool_error = chars_start_with(
                chars_of(result).as_slice(),
                chars_of("Tool error:").as_slice(),
            );
            if same_text(name, "web_search") && !tool_error && is_thin(value) {
                push_texts(&mut round.thin_urls, top_urls_of(value));
            } else {
                assert(start_round.thin_urls + Seq::empty() =~= start_round.thin_urls);
            }
        } else {
            assert(start.media + Seq::empty() =~= start.media);
            assert(start_round.thin_urls + Seq::empty() =~= start_round.thin_urls);
        }
        let wrong = should_supplement_tool_schema(result);
        let failed = result_reports_error(result, parsed);
        count_failure(&mut self.failures, name, failed);
        if wrong {
            if let Some(description) = full {
                if !is_any_full(&self.tools, name) {
                    let tools = replace_description(&self.tools, name, description);
                    self.tools = tools;
                    round.supplemented = true;
                }
            }
        }
        let mut message = ChatMessage::tool_result(call.id.as_str(), result);
        message.name = Some(call.name.clone());
        push_message(&mut round.results, message);
    }

    /// Takes the result of a tool in. `full` is the full description of the tool where it has one.
    pub fn record(
        &mut self,
        round: &mut Round,
        call: &ToolCallRequest,
        result: &str,
        full: Option<Json>,
    )
        ensures
            final(self)@ == recorded(
                old(self)@,
                call@,
                result@,
                json_parsed(result@),
                json_opt(full),
            ),
            final(round)@ == recorded_round(
                old(round)@,
                old(self)@.tools,
                call@,
                result@,
                json_parsed(result@),
                json_opt(full),
            ),
    {
        let parsed = parse(result);
        self.record_parsed(round, call, result, parsed, full)
    }

    /// Ends a round.
    pub fn end(&mut self, round: Round, more_rounds: bool, answered_by_tools: bool) -> (r: RoundEnd)
        ensures
            final(self)@ == ended(old(self)@, round@, more_rounds, answered_by_tools),
            r == round_end(round@, more_rounds, answered_by_tools),
    {
        let ghost start = self@;
        if round.supplemented {
            if self.messages.len() > 0 {
                let gone = self.messages.pop();
            }
            if self.history.len() > 0 {
                let gone = self.history.pop();
            }
            assert(self@.messages =~= without_last(start.messages));
            assert(self@.history =~= without_last(start.history));
            return RoundEnd::Again;
        }
        let Round { supplemented, results, wants_answer, thin_urls } = round;
        let ghost kept = kept_results(messages_view(results@));
        let mut i: usize = 0;
        assert(start.messages + kept.take(0) =~= start.messages);
        assert(start.history + kept.take(0) =~= start.history);
        while i < results.len()
            invariant
                i <= results.len(),
                kept == kept_results(messages_view(results@)),
                self@ == (TurnView {
                    messages: start.messages + kept.take(i as int),
                    history: start.history + kept.take(i as int),
                    ..start
                }),
            decreases results.len() - i,
        {
            let message = kept_result_of(results[i].clone());
            assert(message@ == kept[i as int]);
            push_message(&mut self.messages, message.clone());
            push_message(&mut self.history, message);
            assert((start.messages + kept.take(i as int)).push(message@) =~= start.messages
                + kept.take(i + 1));
            assert((start.history + kept.take(i as int)).push(message@) =~= start.history
                + kept.take(i + 1));
            i += 1;
        }
        assert(kept.take(kept.len() as int) =~= kept);
        if wants_answer && more_rounds {
            let hint = search_hint_of(&thin_urls);
            push_message(&mut self.messages, ChatMessage::user(hint.as_str()));
        }
        let failed = repeated_of(&self.failures);
        if failed.len() > 0 {
            let mut hint = "⚠️ 以下工具连续失败: ".to_owned();
            hint.push_str(join_texts(&failed, ", ").as_str());
            hint.push_str(
                "。请不要继续重试，改用其他可用工具完成任务。对于金融数据查询失败，可降级使用 `web_search` 搜索相关新闻。",
            );
            push_message(&mut self.messages, ChatMessage::user(hint.as_str()));
        }
        if self.messages.len() > 20 {
            compress_mid_loop(&mut self.messages);
        }
        if answered_by_tools {
            self.answer = String::new();
            return RoundEnd::Stop;
        }
        if !more_rounds {
            RoundEnd::FinalCall
        } else {
            RoundEnd::Next
        }
    }

    fn give(&mut self, answer: String)
        ensures
            final(self)@ == answered(old(self)@, answer@),
    {
        push_message(&mut self.history, ChatMessage::assistant(answer.as_str()));
        self.answer = answer;
    }

    /// Takes an answer without tool calls.
    pub fn answer(&mut self, content: &Option<String>)
        ensures
            final(self)@ == answered(
                old(self)@,
                match opt_text(*content) {
                    Some(text) => text,
                    None => Seq::empty(),
                },
            ),
    {
        let text = match content {
            Some(text) => text.clone(),
            None => String::new(),
        };
        self.give(text)
    }

    /// Gives up: the model could not be reached.
    pub fn fail(&mut self, retries: u32, error: &str)
        ensures
            final(self)@ == answered(old(self)@, failure_text(retries as nat, error@)),
    {
        let mut text = "抱歉，我在处理你的请求时遇到了问题（已重试 ".to_owned();
        text.push_str(decimal_text(retries as u64).as_str());
        text.push_str(" 次）。\n\n错误信息：");
        text.push_str(error);
        text.push_str(
            "\n\n这可能是临时的网络或服务问题，请稍后再试。如果问题持续，我会自动学习并改进。",
        );
        self.give(text)
    }

    /// What the model is sent when no round is left.
    pub fn final_messages(&self) -> (r: Vec<ChatMessage>)
        ensures
            messages_view(r@) == self@.messages.push(text_message("user"@, FINAL_REQUEST@)),
    {
        let mut r = copy_messages(self.messages.as_slice(), 0, self.messages.len());
        assert(messages_view(r@) =~= self@.messages);
        push_message(&mut r, ChatMessage::user(FINAL_REQUEST));
        r
    }

    /// Takes the answer when no round is left; `None` where the model could not be reached.
    pub fn final_answer(&mut self, response: Option<&LLMResponse>)
        ensures
            final(self)@ == answered(
                old(self)@,
                match response {
                    Some(r) => match r@.content {
                        Some(text) => text,
                        None => Seq::empty(),
                    },
                    None => NO_MORE_ROUNDS@,
                },
            ),
    {
        match response {
            Some(r) => self.answer(&r.content),
            None => self.give(NO_MORE_ROUNDS.to_owned()),
        }
    }

    /// Whether a picture still has to be sent.
    pub fn lacks_image(&self, msg: &InboundMessage) -> (r: bool)
        ensures
            r == owes_image(self@, msg@),
    {
        is_im_channel(msg.channel.as_str()) && user_wants_send_image(msg.content.as_str())
            && !self.media_sent
    }

    /// The picture was sent in place of an answer.
    pub fn image_sent(&mut self)
        ensures
            final(self)@ == (TurnView {
                answer: Seq::empty(),
                history: last_overwritten(old(self)@.history, ""@),
                ..old(self)@
            }),
    {
        self.answer = String::new();
        overwrite_last_assistant_message(&mut self.history, "");
    }

    /// The answer as the user reads it: trimmed, without what only looks like tool calls.
    pub fn conclude(&self) -> (r: String)
        ensures
            r@ == without_fake_calls(trim(self@.answer)),
    {
        let chars = chars_of(self.answer.as_str());
        let trimmed = text_of(trim_chars(chars.as_slice()));
        strip_fake_tool_calls(trimmed.as_str())
    }
}

} // verus!
