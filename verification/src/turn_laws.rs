//! What holds of a turn: of its rounds of tool calls and of what the model is sent after them.

use crate::mid_loop::{
    answers, call_names, kept_text, note, past_answers, short_middle, short_request, short_results,
    shortened, speaks, tail_start, tool_name, with_dots,
};
use crate::prompt_laws::{
    holds, lemma_holds, lemma_holds_before, lemma_holds_behind, lemma_join_holds,
};
use crate::reading_laws::lemma_lower_lacks;
use crate::replies::{
    condensed_page, reports_error, result_entries, says_nothing, short_snippet, snippet, tool_trace,
    top_urls, urls_among, without_brackets, without_fences, wrong_call,
};
use crate::text::{decimal, join, lower, trim};
use crate::text_laws::{
    lacks, law_no_split_fold_without_pattern, law_no_split_without_pattern, law_split_at_the_first,
    law_split_fold_at_the_first, lemma_lacks_leads,
};
use crate::turn::{
    counted, ended, failure_slot, heard, kept_result, kept_results, last_overwritten, made_media,
    recorded, recorded_all, repeated, search_hint, sends_media, sent_after, CallRecord,
    ResponseStep, RoundView, TurnView,
};
use crate::types::{text_message, MessageView, ResponseView, ToolCallView};
use crate::value::JsonView;
use vstd::prelude::*;

verus! {

// ---------------------------------------------------------------------------
// Rounds
// ---------------------------------------------------------------------------

/// An answer without calls ends the turn with what it says; any other is asked for its tools, and
/// both the request and the history hold all the calls, in order.
pub proof fn law_response_is_heard(turn: TurnView, response: ResponseView)
    ensures
        ({
            let (after, step) = heard(turn, response);
            &&& response.tool_calls.len() == 0 ==> {
                &&& step == ResponseStep::Answered
                &&& response.content is Some ==> after.answer == response.content->0
                &&& after.history.len() == turn.history.len() + 1
                &&& after.history.drop_last() == turn.history
                &&& after.history.last() == text_message("assistant"@, after.answer)
                &&& after.messages == turn.messages
            }
            &&& response.tool_calls.len() > 0 ==> {
                &&& step == ResponseStep::CallTools
                &&& after.answer == turn.answer
                &&& after.history.len() == turn.history.len() + 1
                &&& after.messages.len() == turn.messages.len() + 1
                &&& after.history.drop_last() == turn.history
                &&& after.messages.drop_last() == turn.messages
                &&& after.history.last() == after.messages.last()
                &&& after.messages.last().role == "assistant"@
                &&& after.messages.last().tool_calls == Some(response.tool_calls)
                &&& after.messages.last().reasoning_content == response.reasoning_content
                &&& response.content is Some && !tool_trace(response.content->0)
                    ==> after.messages.last().content == JsonView::Str(response.content->0)
            }
            &&& after.media == turn.media && after.media_sent == turn.media_sent
            &&& after.failures == turn.failures && after.tools == turn.tools
        }),
{
    let (after, step) = heard(turn, response);
    assert(after.history.drop_last() =~= turn.history);
    if response.tool_calls.len() > 0 {
        assert(after.messages.drop_last() =~= turn.messages);
    }
}

/// After a round there is one result for each call, in the order of the calls, which names its
/// call; the conversation itself is not touched before the round ends.
pub proof fn law_one_result_per_call(turn: TurnView, records: Seq<CallRecord>, i: int)
    requires
        0 <= i < records.len(),
    ensures
        ({
            let (after, round) = recorded_all(turn, records);
            &&& round.results.len() == records.len()
            &&& round.results[i].role == "tool"@
            &&& round.results[i].tool_call_id == Some(records[i].call.id)
            &&& round.results[i].name == Some(records[i].call.name)
            &&& round.results[i].content == JsonView::Str(records[i].result)
            &&& after.messages == turn.messages && after.history == turn.history
            &&& after.answer == turn.answer
        }),
    decreases records.len(),
{
    let prior = records.drop_last();
    if prior.len() == 0 {
        reveal_with_fuel(recorded_all, 2);
    } else if i < prior.len() {
        law_one_result_per_call(turn, prior, i);
        assert(prior[i] == records[i]);
    } else {
        law_one_result_per_call(turn, prior, 0);
    }
}

/// What the tools made is collected from all results, in order, after what there was.
pub proof fn law_all_media_is_collected(turn: TurnView, records: Seq<CallRecord>, record: CallRecord)
    ensures
        recorded_all(turn, Seq::empty()).0 == turn,
        recorded_all(turn, records.push(record)).0.media == recorded_all(turn, records).0.media
            + made_media(record.call, record.parsed),
        recorded_all(turn, records).0.media_sent ==> recorded_all(
            turn,
            records.push(record),
        ).0.media_sent,
{
    assert(records.push(record).drop_last() =~= records);
}

/// A round that ends adds its results to the history, one for each call, in order; a short result
/// is added as it is.
pub proof fn law_results_go_into_the_history(
    turn: TurnView,
    round: RoundView,
    more_rounds: bool,
    answered_by_tools: bool,
    i: int,
)
    requires
        !round.supplemented,
        0 <= i < round.results.len(),
    ensures
        ({
            let after = ended(turn, round, more_rounds, answered_by_tools);
            let n = turn.history.len() as int;
            let kept = after.history[n + i];
            &&& after.history.len() == n + round.results.len()
            &&& after.history.take(n) == turn.history
            &&& kept.tool_call_id == round.results[i].tool_call_id
            &&& kept.role == round.results[i].role && kept.name == round.results[i].name
            &&& (round.results[i].content matches JsonView::Str(s) ==> s.len() <= 2400)
                ==> kept == round.results[i]
        }),
{
    let after = ended(turn, round, more_rounds, answered_by_tools);
    let n = turn.history.len() as int;
    assert(after.history.take(n) =~= turn.history);
    assert(after.history[n + i] == kept_results(round.results)[i]);
    assert(kept_results(round.results)[i] == kept_result(round.results[i]));
}

/// As long as the conversation is short, the model is sent all that it was sent before, then the
/// results in order, and behind them at most two hints.
pub proof fn law_results_are_sent(turn: TurnView, round: RoundView, more_rounds: bool)
    requires
        turn.messages.len() + round.results.len() + 2 <= 20,
    ensures
        ({
            let sent = sent_after(turn, round, more_rounds);
            let n = (turn.messages.len() + round.results.len()) as int;
            let hints: int = (if round.wants_answer && more_rounds {
                1int
            } else {
                0
            }) + (if repeated(turn.failures).len() > 0 {
                1int
            } else {
                0
            });
            &&& sent.len() == n + hints
            &&& sent.take(n) == turn.messages + kept_results(round.results)
            &&& forall|k: int| n <= k < sent.len() ==> (#[trigger] sent[k]).role == "user"@
            &&& round.wants_answer && more_rounds ==> sent[n] == text_message(
                "user"@,
                search_hint(round.thin_urls),
            )
        }),
{
    let sent = sent_after(turn, round, more_rounds);
    let n = (turn.messages.len() + round.results.len()) as int;
    assert(sent.take(n) =~= turn.messages + kept_results(round.results));
}

/// Where a search told nothing of the pages that it found, the model is told the first three of
/// them.
pub proof fn law_thin_pages_are_named(urls: Seq<Seq<char>>, i: int)
    requires
        0 <= i < urls.len(),
        i < 3,
    ensures
        holds(search_hint(urls), urls[i]),
{
    let named = urls.take(if urls.len() < 3 {
        urls.len() as int
    } else {
        3
    });
    assert(named[i] == urls[i]);
    lemma_join_holds(named, "\n- "@, i);
    let lead = "搜索结果只包含链接标题，没有具体内容。**不要直接返回\"未找到\"，请立即改用 `web_fetch` 直接抓取以下页面获取真实数据**：\n- "@;
    lemma_holds_behind(lead, join(named, "\n- "@), urls[i]);
    lemma_holds_before(lead + join(named, "\n- "@), "\n\n抓取后给出最终答案。"@, urls[i]);
}

/// An answer that is given anew replaces the last one in the history and nothing else.
pub proof fn law_last_answer_is_replaced(history: Seq<MessageView>, text: Seq<char>)
    requires
        history.len() > 0,
        history.last().role == "assistant"@,
    ensures
        last_overwritten(history, text).len() == history.len(),
        last_overwritten(history, text).drop_last() == history.drop_last(),
        last_overwritten(history, text).last().role == "assistant"@,
        last_overwritten(history, text).last().content == JsonView::Str(text),
{
    assert(last_overwritten(history, text).drop_last() =~= history.drop_last());
}

// ---------------------------------------------------------------------------
// Failures
// ---------------------------------------------------------------------------

/// How often a tool has failed in a row.
pub open spec fn failed_times(failures: Seq<(Seq<char>, nat)>, name: Seq<char>) -> nat
    decreases failures.len(),
{
    if failures.len() == 0 {
        0
    } else if failures[0].0 == name {
        failures[0].1
    } else {
        failed_times(failures.skip(1), name)
    }
}

/// Each tool is counted once.
pub open spec fn counted_once(failures: Seq<(Seq<char>, nat)>) -> bool {
    forall|i: int, j: int|
        0 <= i < j < failures.len() ==> (#[trigger] failures[i]).0 != (#[trigger] failures[j]).0
}

proof fn lemma_failed_times(failures: Seq<(Seq<char>, nat)>, name: Seq<char>)
    ensures
        0 <= failure_slot(failures, name) <= failures.len(),
        failure_slot(failures, name) < failures.len() ==> failures[failure_slot(
            failures,
            name,
        )].0 == name && failed_times(failures, name) == failures[failure_slot(failures, name)].1,
        failure_slot(failures, name) == failures.len() ==> failed_times(failures, name) == 0
            && forall|i: int| 0 <= i < failures.len() ==> (#[trigger] failures[i]).0 != name,
    decreases failures.len(),
{
    if failures.len() > 0 && failures[0].0 != name {
        let rest = failures.skip(1);
        lemma_failed_times(rest, name);
        if failure_slot(rest, name) == rest.len() {
            assert forall|i: int| 0 <= i < failures.len() implies (#[trigger] failures[i]).0
                != name by {
                if i > 0 {
                    assert(rest[i - 1] == failures[i]);
                }
            }
        }
    }
}

proof fn lemma_times_at(failures: Seq<(Seq<char>, nat)>, name: Seq<char>, i: int)
    requires
        counted_once(failures),
        0 <= i < failures.len(),
        failures[i].0 == name,
    ensures
        failed_times(failures, name) == failures[i].1,
        failure_slot(failures, name) == i,
{
    lemma_failed_times(failures, name);
    let at = failure_slot(failures, name);
    if at < i {
        assert(failures[at].0 != failures[i].0);
    } else if i < at && at < failures.len() {
        assert(failures[i].0 != failures[at].0);
    } else if at == failures.len() {
        assert(failures[i].0 != name);
    }
}

/// A call that fails is counted, one that does not ends the count of its tool, and the counts of
/// the other tools stay.
pub proof fn law_failures_are_counted(
    failures: Seq<(Seq<char>, nat)>,
    name: Seq<char>,
    other: Seq<char>,
    failed: bool,
)
    requires
        counted_once(failures),
        other != name,
        failed_times(failures, name) < u32::MAX,
    ensures
        counted_once(counted(failures, name, failed)),
        failed ==> failed_times(counted(failures, name, true), name) == failed_times(failures, name)
            + 1,
        !failed ==> failed_times(counted(failures, name, false), name) == 0,
        failed_times(counted(failures, name, failed), other) == failed_times(failures, other),
{
    let now = counted(failures, name, failed);
    let at = failure_slot(failures, name);
    lemma_failed_times(failures, name);
    lemma_failed_times(failures, other);
    assert(counted_once(now)) by {
        assert forall|i: int, j: int| 0 <= i < j < now.len() implies (#[trigger] now[i]).0 != (
        #[trigger] now[j]).0 by {
            if !failed && at < failures.len() {
                let p = if i < at {
                    i
                } else {
                    i + 1
                };
                let q = if j < at {
                    j
                } else {
                    j + 1
                };
                assert(now[i] == failures[p] && now[j] == failures[q]);
                assert(failures[p].0 != failures[q].0);
            } else if j < failures.len() {
                assert(failures[i].0 != failures[j].0);
            }
        }
    }
    let o = failure_slot(failures, other);
    if o < failures.len() {
        let q = if !failed && at < o {
            o - 1
        } else {
            o
        };
        assert(now[q] == failures[o]);
        lemma_times_at(now, other, q);
    } else {
        lemma_failed_times(now, other);
        let k = failure_slot(now, other);
        if k < now.len() {
            if !failed && at < failures.len() {
                let p = if k < at {
                    k
                } else {
                    k + 1
                };
                assert(now[k] == failures[p]);
            } else if k < failures.len() && k != at {
                assert(now[k] == failures[k]);
            }
        }
    }
    if failed {
        let p = if at < failures.len() {
            at
        } else {
            failures.len() as int
        };
        assert(now[p].0 == name);
        lemma_times_at(now, name, p);
    } else {
        lemma_failed_times(now, name);
        let k = failure_slot(now, name);
        if k < now.len() && at < failures.len() {
            let p = if k < at {
                k
            } else {
                k + 1
            };
            assert(now[k] == failures[p]);
            if p < at {
                assert(failures[p].0 != failures[at].0);
            } else {
                assert(failures[at].0 != failures[p].0);
            }
        }
    }
}

/// The tools that failed twice or more are named, in order, each with its count; the others are
/// not.
pub proof fn law_repeated_failures_are_named(
    failures: Seq<(Seq<char>, nat)>,
    name: Seq<char>,
    times: nat,
)
    ensures
        times >= 2 ==> repeated(failures.push((name, times))) == repeated(failures).push(
            name + " ("@ + decimal(times) + "x)"@,
        ),
        times < 2 ==> repeated(failures.push((name, times))) == repeated(failures),
{
    assert(failures.push((name, times)).drop_last() =~= failures);
}

// ---------------------------------------------------------------------------
// Results
// ---------------------------------------------------------------------------

/// A `[TOOL_CALL]` block is taken out of a reply with its tags; what stands around it stays, in
/// order. A reply without brackets stays whole.
pub proof fn law_only_blocks_are_taken_out(
    head: Seq<char>,
    open: Seq<char>,
    inner: Seq<char>,
    close: Seq<char>,
    next: Seq<char>,
)
    requires
        lacks(head, '['),
        lacks(inner, '['),
        lacks(next, '['),
        lower(open) == "[tool_call]"@,
        lower(close) == "[/tool_call]"@,
    ensures
        without_brackets(head + open + inner + close + next) == head + next,
        without_brackets(head + open + inner) == head,
        without_brackets(head) == head,
{
    reveal_with_fuel(without_brackets, 2);
    reveal_strlit("[tool_call]");
    reveal_strlit("[/tool_call]");
    let tail = inner + close + next;
    assert(head + open + inner + close + next =~= head + open + tail);
    lemma_lower_lacks(head, '[');
    lemma_lower_lacks(inner, '[');
    lemma_lower_lacks(head + next, '[');
    lemma_lacks_leads(lower(head), lower(open));
    lemma_lacks_leads(lower(inner), lower(close));
    assert(open.len() == lower(open).len() && close.len() == lower(close).len());
    law_split_fold_at_the_first(head, open, tail);
    law_split_fold_at_the_first(inner, close, next);
    law_split_fold_at_the_first(head, open, inner);
    law_no_split_fold_without_pattern(inner, "[/tool_call]"@);
    law_no_split_fold_without_pattern(head + next, "[tool_call]"@);
    law_no_split_fold_without_pattern(head, "[tool_call]"@);
}

/// The same holds of fenced blocks.
pub proof fn law_only_fences_are_taken_out(head: Seq<char>, inner: Seq<char>, next: Seq<char>)
    requires
        lacks(head, '`'),
        lacks(inner, '`'),
        lacks(next, '`'),
    ensures
        without_fences(head + "```tool_call"@ + inner + "```"@ + next) == head + next,
        without_fences(head + "```tool_call"@ + inner) == head,
        without_fences(head) == head,
{
    reveal_with_fuel(without_fences, 2);
    reveal_strlit("```tool_call");
    reveal_strlit("```");
    let tail = inner + "```"@ + next;
    assert(head + "```tool_call"@ + inner + "```"@ + next =~= head + "```tool_call"@ + tail);
    lemma_lacks_leads(head, "```tool_call"@);
    lemma_lacks_leads(inner, "```"@);
    law_split_at_the_first(head, "```tool_call"@, tail);
    law_split_at_the_first(inner, "```"@, next);
    law_split_at_the_first(head, "```tool_call"@, inner);
    law_no_split_without_pattern(inner, "```"@);
    law_no_split_without_pattern(head + next, "```tool_call"@);
    law_no_split_without_pattern(head, "```tool_call"@);
}

/// Each search result that says anything is an entry with its number, its title, its address and
/// its text; the entries stand in order, and the others are passed over.
pub proof fn law_search_entries(results: Seq<JsonView>, result: JsonView)
    ensures
        says_nothing(result) ==> result_entries(results.push(result)) == result_entries(results),
        !says_nothing(result) ==> {
            let (text, n) = result_entries(results.push(result));
            &&& n == result_entries(results).1 + 1
            &&& text == result_entries(results).0 + (decimal(n) + ". "@ + result.str_or(
                "title"@,
                Seq::empty(),
            ) + "\n"@ + result.str_or("url"@, Seq::empty()) + "\n"@ + short_snippet(snippet(result))
                + "\n\n"@)
        },
        snippet(result).len() <= 240 ==> short_snippet(snippet(result)) == snippet(result),
{
    assert(results.push(result).drop_last() =~= results);
}

/// The addresses among results stand in order, each result with an address giving one.
pub proof fn law_addresses_in_order(results: Seq<JsonView>, result: JsonView)
    ensures
        result.str_at("url"@) is Some && result.str_at("url"@)->0.len() > 0 ==> urls_among(
            results.push(result),
        ) == urls_among(results).push(result.str_at("url"@)->0),
        result.str_at("url"@) is None || result.str_at("url"@)->0.len() == 0 ==> urls_among(
            results.push(result),
        ) == urls_among(results),
{
    assert(results.push(result).drop_last() =~= results);
}

/// At most three addresses are named, and they are the first.
pub proof fn law_top_addresses(value: JsonView, results: Seq<JsonView>)
    requires
        value.get("results"@) == Some(JsonView::Array(results)),
    ensures
        top_urls(value).len() <= 3,
        top_urls(value).len() == 3 || top_urls(value).len() == urls_among(results).len(),
        forall|i: int|
            0 <= i < top_urls(value).len() ==> #[trigger] top_urls(value)[i] == urls_among(
                results,
            )[i],
{
}

/// A page is kept whole where it is short; of a long one, the start and the end are kept, and it
/// is said how much is missing.
pub proof fn law_page_in_short(value: JsonView, content: Seq<char>)
    requires
        value.str_at("content"@) == Some(content),
        trim(content).len() > 0,
    ensures
        content.len() <= 1600 ==> condensed_page(value) == Some(trim(content)),
        content.len() > 1600 ==> condensed_page(value) is Some && {
            let text = condensed_page(value)->0;
            let head = trim(content.take(1100));
            let end = trim(content.skip(content.len() - 400));
            &&& text.len() >= head.len() + end.len()
            &&& text.take(head.len() as int) == head
            &&& text.skip(text.len() - end.len()) == end
            &&& holds(text, decimal((content.len() - 1500) as nat))
        },
{
    if content.len() > 1600 {
        let text = condensed_page(value)->0;
        let head = trim(content.take(1100));
        let end = trim(content.skip(content.len() - 400));
        let count = decimal((content.len() - 1500) as nat);
        assert(text.take(head.len() as int) =~= head);
        assert(text.skip(text.len() - end.len()) =~= end);
        crate::prompt_laws::lemma_holds(
            head + "\n...<trimmed "@,
            count,
            " chars>...\n"@ + end,
        );
        assert(text =~= head + "\n...<trimmed "@ + count + (" chars>...\n"@ + end));
    }
}

/// A recorded call that failed is counted for its tool, one that did not ends the count, and what
/// it sent and made is noted; nothing else of the conversation changes.
pub proof fn law_call_is_recorded(
    turn: TurnView,
    call: ToolCallView,
    result: Seq<char>,
    parsed: Option<JsonView>,
    full: Option<JsonView>,
)
    ensures
        ({
            let after = recorded(turn, call, result, parsed, full);
            &&& after.failures == counted(
                turn.failures,
                call.name,
                reports_error(result, parsed),
            )
            &&& after.media_sent == (turn.media_sent || sends_media(call))
            &&& after.media == turn.media + made_media(call, parsed)
            &&& call.name == "message"@ ==> after.media == turn.media
            &&& full is None ==> after.tools == turn.tools
            &&& !wrong_call(result) ==> after.tools == turn.tools
            &&& after.messages == turn.messages && after.history == turn.history
        }),
{
    if call.name == "message"@ {
        assert(turn.media + made_media(call, parsed) =~= turn.media);
    }
}

// ---------------------------------------------------------------------------
// Conversations in short
// ---------------------------------------------------------------------------

/// A text, or its start and a sign that it was cut.
pub open spec fn starts_as(shown: JsonView, s: Seq<char>, max: nat) -> bool {
    if s.len() <= max {
        shown == JsonView::Str(s)
    } else {
        shown == JsonView::Str(s.take(max as int) + "..."@)
    }
}

/// What is left of a message in short: the start of a question or of an answer, the names of the
/// tools that were called, and a short result whole.
pub open spec fn shows(short: MessageView, message: MessageView) -> bool {
    &&& message.role == "user"@ ==> (message.content matches JsonView::Str(s) ==> starts_as(
        short.content,
        s,
        150,
    ))
    &&& message.role == "assistant"@ && message.tool_calls is None ==> (
    message.content matches JsonView::Str(s) ==> starts_as(short.content, s, 200))
    &&& message.role == "assistant"@ && message.tool_calls is Some ==> short.content is Str
        && forall|j: int|
        0 <= j < message.tool_calls->0.len() ==> holds(
            short.content->Str_0,
            (#[trigger] message.tool_calls->0[j]).name,
        )
    &&& message.role == "tool"@ ==> (message.content matches JsonView::Str(s) ==> (s.len() <= 80
        && message.name != Some("web_search"@) && message.name != Some("web_fetch"@)
        ==> short.content is Str && holds(short.content->Str_0, s)))
}

proof fn lemma_request_shows(calls: Seq<ToolCallView>, j: int)
    requires
        0 <= j < calls.len(),
    ensures
        holds(short_request(calls).content->Str_0, calls[j].name),
{
    let names = call_names(calls);
    assert(names[j] == calls[j].name);
    lemma_join_holds(names, ", "@, j);
    lemma_holds_behind("[Called: "@, join(names, ", "@), calls[j].name);
    lemma_holds_before("[Called: "@ + join(names, ", "@), "]"@, calls[j].name);
}

proof fn lemma_note_shows(name: Seq<char>, text: Seq<char>)
    ensures
        holds(note(name, text), text),
{
    lemma_holds("["@ + name + ": "@, text, "]"@);
}

proof fn lemma_results_show(
    messages: Seq<MessageView>,
    calls: Seq<ToolCallView>,
    from: int,
    end: int,
)
    requires
        from <= end,
    ensures
        ({
            let to = past_answers(messages, calls, from, end);
            let short = short_results(messages, from, to);
            &&& from <= to <= end
            &&& short.len() == to - from
            &&& forall|k: int|
                0 <= k < short.len() ==> shows(#[trigger] short[k], messages[from + k])
        }),
    decreases end - from,
{
    reveal_strlit("assistant");
    reveal_strlit("tool");
    reveal_strlit("user");
    assert("assistant"@[0] == 'a' && "tool"@[0] == 't' && "user"@[0] == 'u');
    if from < end && answers(messages[from], calls) {
        lemma_results_show(messages, calls, from + 1, end);
        let to = past_answers(messages, calls, from, end);
        let short = short_results(messages, from, to);
        let later = short_results(messages, from + 1, to);
        let m = messages[from];
        assert forall|k: int| 0 <= k < short.len() implies shows(
            #[trigger] short[k],
            messages[from + k],
        ) by {
            if k == 0 {
                if let JsonView::Str(s) = m.content {
                    lemma_note_shows(tool_name(m), with_dots(s, 80));
                }
            } else {
                assert(short[k] == later[k - 1]);
                assert(shows(later[k - 1], messages[from + 1 + (k - 1)]));
            }
        }
    }
}

proof fn lemma_middle_shows(messages: Seq<MessageView>, i: int, end: int)
    requires
        0 <= i <= end <= messages.len(),
        forall|k: int| i <= k < end ==> speaks((#[trigger] messages[k]).role),
    ensures
        short_middle(messages, i, end).len() == end - i,
        forall|k: int|
            0 <= k < end - i ==> shows(
                #[trigger] short_middle(messages, i, end)[k],
                messages[i + k],
            ),
    decreases end - i,
{
    reveal_strlit("assistant");
    reveal_strlit("tool");
    reveal_strlit("user");
    reveal_strlit("web_search");
    reveal_strlit("web_fetch");
    assert("assistant"@[0] == 'a' && "tool"@[0] == 't' && "user"@[0] == 'u');
    assert("web_search"@[0] == 'w' && "web_fetch"@[0] == 'w');
    if i < end {
        let m = messages[i];
        assert(speaks(messages[i].role));
        let short = short_middle(messages, i, end);
        if m.role == "assistant"@ && m.tool_calls is Some {
            let calls = m.tool_calls->0;
            let next = past_answers(messages, calls, i + 1, end);
            lemma_results_show(messages, calls, i + 1, end);
            let results = short_results(messages, i + 1, next);
            lemma_middle_shows(messages, next, end);
            let later = short_middle(messages, next, end);
            assert(short == seq![short_request(calls)] + results + later);
            assert forall|k: int| 0 <= k < end - i implies shows(
                #[trigger] short[k],
                messages[i + k],
            ) by {
                if k == 0 {
                    assert forall|j: int| 0 <= j < calls.len() implies holds(
                        short[0].content->Str_0,
                        (#[trigger] calls[j]).name,
                    ) by {
                        lemma_request_shows(calls, j);
                    }
                } else if k < next - i {
                    assert(short[k] == results[k - 1]);
                    assert(shows(results[k - 1], messages[i + 1 + (k - 1)]));
                } else {
                    assert(short[k] == later[k - (next - i)]);
                    assert(shows(later[k - (next - i)], messages[next + (k - (next - i))]));
                }
            }
        } else {
            lemma_middle_shows(messages, i + 1, end);
            let later = short_middle(messages, i + 1, end);
            assert(short.skip(1) =~= later);
            if m.role == "tool"@ {
                if let JsonView::Str(s) = m.content {
                    lemma_note_shows(tool_name(m), kept_text(tool_name(m), m.content));
                }
            }
            assert forall|k: int| 0 <= k < end - i implies shows(
                #[trigger] short[k],
                messages[i + k],
            ) by {
                if k > 0 {
                    assert(short[k] == later[k - 1]);
                    assert(shows(later[k - 1], messages[i + 1 + (k - 1)]));
                }
            }
        }
    }
}

/// A long conversation is made short message by message: a question keeps its first hundred and
/// fifty characters, an answer its first two hundred, a request its tools, and a short result all
/// that it says; the first message and the last ten stay as they are.
pub proof fn law_shortened_conversation_shows(messages: Seq<MessageView>, k: int)
    requires
        messages.len() > 12,
        forall|j: int| 0 < j < messages.len() ==> speaks((#[trigger] messages[j]).role),
        0 <= k < messages.len(),
    ensures
        shortened(messages).len() == messages.len(),
        k == 0 || k >= messages.len() - 10 ==> shortened(messages)[k] == messages[k],
        shortened(messages)[k] == messages[k] || shows(shortened(messages)[k], messages[k]),
{
    let cut = tail_start(messages, messages.len() - 10);
    lemma_cut(messages, messages.len() - 10);
    lemma_middle_shows(messages, 1, cut);
    let middle = short_middle(messages, 1, cut);
    let short = shortened(messages);
    if 0 < k && k < cut {
        assert(short[k] == middle[k - 1]);
        assert(shows(middle[k - 1], messages[1 + (k - 1)]));
    } else if k > 0 {
        assert(short[k] == messages.skip(cut)[k - cut]);
    }
}

proof fn lemma_cut(messages: Seq<MessageView>, at: int)
    requires
        1 <= at,
    ensures
        1 <= tail_start(messages, at) <= at,
    decreases at,
{
    if at > 1 && messages[at].role == "tool"@ {
        lemma_cut(messages, at - 1);
    }
}

} // verus!
