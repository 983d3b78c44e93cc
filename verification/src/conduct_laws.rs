//! What holds of how a call is run, a model is asked, and results are judged.

use crate::access::{call_paths, facts_view, sift};
use crate::asking::{ask_step, reply_end, AskEventView, AskStepView, AskingView, Ending};
use crate::call_run::{call_run, danger_gate, new_run, ActionView, CallEvent};
use crate::delivery::reminder_text;
use crate::error::ErrorView;
use crate::gate::{call_result, switch_refusal, tool_done, tool_start, Learning, ToolOutcome};
use crate::gemini_answer::{
    add_parts, add_piece, gemini_finished, GeminiResponseView, GeminiStreamView,
};
use crate::json::{json_text, lookup};
use crate::messages::InboundView;
use crate::mid_loop::short_middle;
use crate::ollama::{
    after_piece, calls_of_answer, completed_answer, ollama_answer, OllamaResponse, OllamaStreamView,
};
use crate::paths::{joined, PathView};
use crate::presentation::PresentationView;
use crate::prompt::InteractionMode;
use crate::prompt_laws::{holds, lemma_holds};
use crate::replies::{reports_error, rich_count, snippet, thin};
use crate::reply::{complete, retry_delay, ReplyView};
use crate::routing::route;
use crate::scripts::{program_context, summary_request, worded};
use crate::skills::{asked_kind, flag, ResolvedSkillScriptKind};
use crate::text::{starts_with, texts_view};
use crate::toolset::mode_of;
use crate::turn::{all_write_back, round_end, sends_media, RoundEnd, RoundView};
use crate::types::{text_message, MessageView, ToolCallView};
use crate::value::JsonView;
use crate::wecom_crypto::{aes_blocks, base64_strict, media_bytes};
use crate::wecom_laws::law_padding_is_taken_off;
use crate::wecom_send::needed;
use vstd::prelude::*;

verus! {

// ---------------------------------------------------------------------------
// Calls
// ---------------------------------------------------------------------------

/// A call that is switched on, does nothing dangerous and stays where it may is run and answered
/// with its result: its paths are looked up, then it runs, and nobody is asked.
pub proof fn law_free_call_runs(
    call: ToolCallView,
    interactive: bool,
    message: Seq<char>,
    dirs: Seq<PathView>,
    on: CallEvent,
    places: CallEvent,
    value: crate::value::Json,
)
    requires
        on is Switches,
        switch_refusal(call.name, texts_view(on->tools@), texts_view(on->skills@)) is None,
        danger_gate(new_run(call, interactive, message)) is Proceed,
        places is Places,
        ({
            let sifted = sift(dirs, places->workspace@, facts_view(places->facts@), places->cache);
            !sifted.denied && sifted.asked.len() == 0
        }),
    ensures
        call_run(
            new_run(call, interactive, message),
            dirs,
            seq![on, places, CallEvent::Ran(ToolOutcome::Value(value))],
        ).2 == seq![
            ActionView::LookUp(call_paths(call.name, call.arguments)),
            ActionView::Run,
            ActionView::Answer(json_text(value@)),
        ],
{
    let run = new_run(call, interactive, message);
    let ran = CallEvent::Ran(ToolOutcome::Value(value));
    let all = seq![on, places, ran];
    let two = seq![on, places];
    let one = seq![on];
    assert(all.drop_last() =~= two);
    assert(two.drop_last() =~= one);
    assert(one.drop_last() =~= Seq::empty());
    assert(all.last() == ran && two.last() == places && one.last() == on);
    let r0 = call_run(run, dirs, Seq::empty());
    let r1 = call_run(run, dirs, one);
    let r2 = call_run(run, dirs, two);
    let r3 = call_run(run, dirs, all);
    assert(r0.2 =~= Seq::empty());
    assert(r1.2 =~= seq![ActionView::LookUp(call_paths(call.name, call.arguments))]);
    assert(r2.2 =~= seq![
        ActionView::LookUp(call_paths(call.name, call.arguments)),
        ActionView::Run,
    ]);
    assert(r3.2 =~= seq![
        ActionView::LookUp(call_paths(call.name, call.arguments)),
        ActionView::Run,
        ActionView::Answer(json_text(value@)),
    ]);
}

/// A result is told as it is; a failure says why.
pub proof fn law_result_is_told(name: Seq<char>, value: crate::value::Json, error: String)
    ensures
        call_result(name, ToolOutcome::Value(value), Learning::Quiet) == json_text(value@),
        holds(call_result(name, ToolOutcome::Failed(error), Learning::Quiet), "Error: "@ + error@),
{
    let text = "Error: "@ + error@;
    lemma_holds(Seq::empty(), text, Seq::empty());
    assert(Seq::empty() + text + Seq::empty() =~= text);
    let told = call_result(name, ToolOutcome::Failed(error), Learning::Quiet);
    if told != text {
        let rest = told.skip(text.len() as int);
        assert(told =~= Seq::empty() + text + rest);
        lemma_holds(Seq::empty(), text, rest);
    }
}

/// What watchers are told of a call names it, its tool, its chat, and what it was given or gave.
pub proof fn law_watchers_see_the_call(
    agent: Option<Seq<char>>,
    msg: InboundView,
    call: ToolCallView,
    result: JsonView,
    duration: nat,
)
    ensures
        ({
            let event = tool_start(agent, msg, call);
            &&& event.str_at("call_id"@) == Some(call.id)
            &&& event.str_at("chat_id"@) == Some(msg.chat_id)
            &&& event.get("params"@) == Some(call.arguments)
            &&& event.str_at("tool"@) == Some(call.name)
        }),
        ({
            let event = tool_done(agent, msg, call, result, duration);
            &&& event.str_at("call_id"@) == Some(call.id)
            &&& event.str_at("chat_id"@) == Some(msg.chat_id)
            &&& event.get("result"@) == Some(result)
            &&& event.str_at("tool"@) == Some(call.name)
        }),
{
    reveal_strlit("agent_id");
    reveal_strlit("call_id");
    reveal_strlit("chat_id");
    reveal_strlit("params");
    reveal_strlit("duration_ms");
    reveal_strlit("result");
    reveal_strlit("task_id");
    reveal_strlit("tool");
    reveal_strlit("type");
    assert("agent_id"@[0] == 'a' && "call_id"@[0] == 'c' && "call_id"@[1] == 'a');
    assert("chat_id"@[0] == 'c' && "chat_id"@[1] == 'h' && "params"@[0] == 'p');
    assert("duration_ms"@[0] == 'd' && "result"@[0] == 'r');
    assert("task_id"@[0] == 't' && "task_id"@[1] == 'a' && "tool"@[0] == 't' && "tool"@[1] == 'o');
    reveal_with_fuel(lookup, 8);
    let m = tool_start(agent, msg, call)->Object_0;
    let m1 = m.skip(1);
    let m2 = m1.skip(1);
    let m3 = m2.skip(1);
    let m4 = m3.skip(1);
    let m5 = m4.skip(1);
    assert(m1[0] == m[1] && m2[0] == m[2] && m3[0] == m[3] && m4[0] == m[4] && m5[0] == m[5]);
    let n = tool_done(agent, msg, call, result, duration)->Object_0;
    let n1 = n.skip(1);
    let n2 = n1.skip(1);
    let n3 = n2.skip(1);
    let n4 = n3.skip(1);
    let n5 = n4.skip(1);
    let n6 = n5.skip(1);
    assert(n1[0] == n[1] && n2[0] == n[2] && n3[0] == n[3] && n4[0] == n[4] && n5[0] == n[5]);
    assert(n6[0] == n[6]);
}

// ---------------------------------------------------------------------------
// Asking
// ---------------------------------------------------------------------------

/// An answer that has come is the answer; a model that could not be reached is asked again, after
/// a wait, as long as tries are left, and then the error is told.
pub proof fn law_question_is_answered(
    asking: AskingView,
    response: crate::types::ResponseView,
    error: ErrorView,
)
    ensures
        ask_step(asking, AskEventView::Ended(Some(response), None)) == AskStepView::Answer(response),
        asking.attempt < asking.retries ==> {
            let step = ask_step(asking, AskEventView::Unreached(error));
            &&& step is Again
            &&& step->asking.attempt == asking.attempt + 1
            &&& step->asking.error == Some(error)
            &&& step->asking.retries == asking.retries
            &&& step->wait_ms == retry_delay(asking.base_ms, asking.attempt + 1)
        },
        asking.attempt >= asking.retries ==> ask_step(asking, AskEventView::Unreached(error))
            == AskStepView::GiveUp(Some(error)),
        ask_step(asking, AskEventView::Ended(None, Some(error))) == AskStepView::GiveUp(Some(error)),
{
}

/// A reply that says it is complete ends in an answer; one that breaks off without a call does not,
/// and one that breaks off with calls is answered by them.
pub proof fn law_reply_ends(reply: ReplyView, response: crate::types::LLMResponse, message: String)
    ensures
        reply_end(reply, Ending::Done(response)) == AskEventView::Ended(
            Some(complete(reply, response@)),
            None,
        ),
        reply.calls.len() == 0 ==> reply_end(reply, Ending::Broken(message)) == AskEventView::Ended(
            None,
            Some(ErrorView::Provider(message@)),
        ),
        reply.calls.len() > 0 ==> {
            let end = reply_end(reply, Ending::Closed);
            end is Ended && end->Ended_0 is Some && end->Ended_0->0.tool_calls.len()
                == reply.calls.len()
        },
{
}

/// A message goes to the script that it asks for, a reminder is passed on with its text, and
/// everything else goes to the model.
pub proof fn law_messages_are_routed(msg: InboundView, found: Option<ResolvedSkillScriptKind>)
    ensures
        asked_kind(msg.metadata, found) is Some ==> route(msg, found) is Script,
        asked_kind(msg.metadata, found) is Some && msg.metadata.str_at("skill_name"@) is Some
            ==> Some(route(msg, found)->skill_name) == msg.metadata.str_at("skill_name"@),
        asked_kind(msg.metadata, found) is None && flag(msg.metadata, "reminder"@) ==> route(
            msg,
            found,
        ) is Reminder,
        asked_kind(msg.metadata, found) is None && !flag(msg.metadata, "reminder"@) ==> route(
            msg,
            found,
        ) is Model,
        msg.metadata.str_at("reminder_message"@) is Some ==> holds(
            reminder_text(msg),
            msg.metadata.str_at("reminder_message"@)->0,
        ),
        msg.metadata.str_at("reminder_message"@) is None ==> holds(reminder_text(msg), msg.content),
{
    let said = msg.metadata.str_or("reminder_message"@, msg.content);
    let lead = "⏰ ["@ + msg.metadata.str_or("job_name"@, "提醒"@) + "] "@;
    lemma_holds(lead, said, Seq::empty());
    assert(reminder_text(msg) =~= lead + said + Seq::empty());
}

// ---------------------------------------------------------------------------
// Answers
// ---------------------------------------------------------------------------

/// Calls that come as such are taken; calls in the text only where there are none of those and
/// tools were offered; an answer without calls says its text.
pub proof fn law_ollama_answer(
    response: OllamaResponse,
    tools: nat,
    in_text: (Seq<char>, Seq<ToolCallView>),
)
    ensures
        ({
            let answer = ollama_answer(response, tools, in_text);
            let native = calls_of_answer(response.tool_calls);
            &&& native.len() > 0 ==> answer.tool_calls == native && answer.finish_reason
                == "tool_calls"@ && (response.content@.len() > 0 ==> answer.content == Some(
                response.content@,
            ))
            &&& native.len() == 0 && tools > 0 && in_text.1.len() > 0 ==> answer.tool_calls
                == in_text.1 && answer.finish_reason == "tool_calls"@
            &&& native.len() == 0 && (tools == 0 || in_text.1.len() == 0) ==> answer.tool_calls.len()
                == 0 && (response.content@.len() > 0 ==> answer.content == Some(response.content@))
        }),
{
}

/// Each piece of an answer adds its text and its calls at the end, and the answer is complete only
/// where a piece says so.
pub proof fn law_ollama_pieces(state: OllamaStreamView, piece: OllamaResponse)
    ensures
        after_piece(state, piece).content == state.content + piece.content@,
        after_piece(state, piece).tool_calls == state.tool_calls + calls_of_answer(piece.tool_calls),
        completed_answer(state, piece) is Some <==> piece.done == Some(true),
        piece.done == Some(true) ==> completed_answer(state, piece)->0.tool_calls
            == state.tool_calls && (state.content.len() > 0 ==> completed_answer(
            state,
            piece,
        )->0.content == Some(state.content)),
{
}

/// A streamed answer ends with all that it said and called.
pub proof fn law_gemini_stream_ends(state: GeminiStreamView)
    ensures
        state.content.len() > 0 ==> gemini_finished(state).content == Some(state.content),
        gemini_finished(state).tool_calls == state.tool_calls,
        gemini_finished(state).usage == state.usage,
        state.tool_calls.len() == 0 ==> gemini_finished(state).finish_reason == state.finish_reason,
{
}

/// A piece adds its parts, and one without any changes nothing of what was said.
pub proof fn law_gemini_pieces(state: GeminiStreamView, piece: GeminiResponseView)
    ensures
        piece.candidate is None ==> add_piece(state, piece).0.content == state.content && add_piece(
            state,
            piece,
        ).0.tool_calls == state.tool_calls,
        piece.candidate is Some ==> add_piece(state, piece).0.content == add_parts(
            state,
            piece.candidate->0.parts,
        ).0.content,
{
    if piece.candidate is Some {
        let parts = piece.candidate->0.parts;
        let other = GeminiStreamView {
            usage: match piece.usage {
                Some(meta) => crate::gemini_answer::token_counts(
                    meta.prompt_token_count,
                    meta.candidates_token_count,
                ),
                None => state.usage,
            },
            finish_reason: match piece.candidate->0.finish_reason {
                Some(reason) => crate::gemini_answer::stop_reason(reason),
                None => state.finish_reason,
            },
            ..state
        };
        crate::answer_laws::law_streamed_parts_make_the_answer(state, parts);
        crate::answer_laws::law_streamed_parts_make_the_answer(other, parts);
    }
}

// ---------------------------------------------------------------------------
// Judging
// ---------------------------------------------------------------------------

/// A result that starts as an error, or has an error under that name, reports one; any other does
/// not.
pub proof fn law_errors_are_seen(rest: Seq<char>, result: Seq<char>, value: JsonView)
    ensures
        reports_error("Tool error:"@ + rest, None),
        reports_error("Error:"@ + rest, None),
        reports_error("Permission denied:"@ + rest, None),
        value.get("error"@) is Some ==> reports_error(result, Some(value)),
        value.str_at("status"@) == Some("error"@) ==> reports_error(result, Some(value)),
        !starts_with(result, "Tool error:"@) && !starts_with(result, "Error:"@) && !starts_with(
            result,
            "Validation error:"@,
        ) && !starts_with(result, "Config error:"@) && !starts_with(result, "Permission denied:"@)
            ==> !reports_error(result, None),
{
    lemma_starts("Tool error:"@, rest);
    lemma_starts("Error:"@, rest);
    lemma_starts("Permission denied:"@, rest);
}

proof fn lemma_starts(pat: Seq<char>, rest: Seq<char>)
    ensures
        starts_with(pat + rest, pat),
{
    assert((pat + rest).subrange(0, pat.len() as int) =~= pat);
}

/// The results of a search are thin where fewer than half of them say more than thirty characters.
pub proof fn law_thin_results(results: Seq<JsonView>, result: JsonView, value: JsonView)
    ensures
        rich_count(results.push(result)) == rich_count(results) + (if snippet(result).len() > 30 {
            1nat
        } else {
            0nat
        }),
        value.get("results"@) == Some(JsonView::Array(results)) ==> (thin(value) <==> results.len()
            > 0 && 2 * rich_count(results) < results.len()),
        value.get("results"@) is None ==> !thin(value),
{
    assert(results.push(result).drop_last() =~= results);
}

/// A round that was taken back is done again, one whose tools have answered ends the turn, and one
/// is followed by another only as long as there may be more.
pub proof fn law_rounds_end(round: RoundView, more: bool, answered: bool)
    ensures
        round.supplemented ==> round_end(round, more, answered) == RoundEnd::Again,
        !round.supplemented && answered ==> round_end(round, more, answered) == RoundEnd::Stop,
        !round.supplemented && !answered && more ==> round_end(round, more, answered)
            == RoundEnd::Next,
        !round.supplemented && !answered && !more ==> round_end(round, more, answered)
            == RoundEnd::FinalCall,
{
}

/// No further answer is needed only where every call writes into the chat that asked, and the
/// channel is a chat.
pub proof fn law_tools_have_answered(calls: Seq<ToolCallView>, msg: InboundView, i: int)
    ensures
        all_write_back(calls, msg) && 0 <= i < calls.len() ==> calls[i].name == "message"@ && (
        calls[i].arguments.str_at("chat_id"@) is Some ==> calls[i].arguments.str_at("chat_id"@)
            == Some(msg.chat_id)) && (calls[i].arguments.str_at("channel"@) is Some
            ==> calls[i].arguments.str_at("channel"@) == Some(msg.channel)),
        0 <= i < calls.len() && calls[i].name != "message"@ ==> !all_write_back(calls, msg),
        0 <= i < calls.len() && sends_media(calls[i]) ==> calls[i].name == "message"@,
{
    if all_write_back(calls, msg) && 0 <= i < calls.len() {
        assert(crate::turn::writes_back(calls[i], msg));
    }
    if 0 <= i < calls.len() && calls[i].name != "message"@ {
        assert(!crate::turn::writes_back(calls[i], msg));
    }
}

/// A skill that is meant is used; a message that is only talk is a chat; any other gets all tools.
pub proof fn law_modes(skill: bool, talk: bool)
    ensures
        skill ==> mode_of(skill, talk) == InteractionMode::Skill,
        !skill && talk ==> mode_of(skill, talk) == InteractionMode::Chat,
        !skill && !talk ==> mode_of(skill, talk) == InteractionMode::General,
{
}

// ---------------------------------------------------------------------------
// Scripts and files
// ---------------------------------------------------------------------------

/// A program of a skill is told the message, where it comes from, and the skill.
pub proof fn law_program_is_told(skill: Seq<char>, msg: InboundView)
    ensures
        program_context(skill, msg).str_at("user_input"@) == Some(msg.content),
        program_context(skill, msg).str_at("channel"@) == Some(msg.channel),
        program_context(skill, msg).str_at("chat_id"@) == Some(msg.chat_id),
        program_context(skill, msg).str_at("skill_name"@) == Some(skill),
        program_context(skill, msg).get("metadata"@) == Some(msg.metadata),
{
    reveal_strlit("channel");
    reveal_strlit("chat_id");
    reveal_strlit("metadata");
    reveal_strlit("skill_name");
    reveal_strlit("trigger");
    reveal_strlit("user_input");
    assert("channel"@[0] == 'c' && "channel"@[3] == 'n' && "chat_id"@[0] == 'c');
    assert("chat_id"@[3] == 't' && "metadata"@[0] == 'm' && "skill_name"@[0] == 's');
    assert("trigger"@[0] == 't' && "user_input"@[0] == 'u');
    reveal_with_fuel(lookup, 7);
    let m = program_context(skill, msg)->Object_0;
    let m1 = m.skip(1);
    let m2 = m1.skip(1);
    let m3 = m2.skip(1);
    let m4 = m3.skip(1);
    let m5 = m4.skip(1);
    assert(m1[0] == m[1] && m2[0] == m[2] && m3[0] == m[3] && m4[0] == m[4] && m5[0] == m[5]);
}

/// What a script gave is put into words with the instructions of its skill before it; the words of
/// the model are the answer, and where it could not be reached, what was prepared.
pub proof fn law_output_is_put_into_words(
    skill: Seq<char>,
    markdown: Seq<char>,
    input: Seq<char>,
    shown: PresentationView,
    text: Seq<char>,
)
    ensures
        summary_request(skill, markdown, input).len() == 2,
        summary_request(skill, markdown, input)[1].content is Str,
        holds(summary_request(skill, markdown, input)[1].content->Str_0, markdown),
        holds(summary_request(skill, markdown, input)[1].content->Str_0, input),
        worded(skill, shown, true, Some(text)) == text,
        worded(skill, shown, false, Some(text)) == shown.fallback_text,
{
    let a = "[定时任务·"@ + skill + "] 技能脚本执行完成。以下是该技能的 SKILL.md 指导：\n\n"@;
    let b = "\n\n以下是脚本产出的待整理数据：\n\n"@;
    let said = summary_request(skill, markdown, input)[1].content->Str_0;
    lemma_holds(a, markdown, b + input);
    assert(said =~= a + markdown + (b + input));
    lemma_holds(a + markdown + b, input, Seq::empty());
    assert(said =~= a + markdown + b + input + Seq::empty());
}

/// A file that was padded and encrypted for a key of thirty-two bytes is decrypted with that key.
pub proof fn law_encrypted_file_opens(
    cipher: Seq<u8>,
    key: Seq<char>,
    key_bytes: Seq<u8>,
    data: Seq<u8>,
    n: u8,
)
    requires
        base64_strict(key) == Ok::<Seq<u8>, Seq<char>>(key_bytes),
        key_bytes.len() == 32,
        cipher.len() % 16 == 0,
        0 < n <= 16,
        aes_blocks(key_bytes, key_bytes.take(16), cipher) == data + Seq::new(
            n as nat,
            |i: int| n,
        ),
    ensures
        media_bytes(cipher, key) == Ok::<Seq<u8>, Seq<char>>(data),
{
    law_padding_is_taken_off(data, n);
}

/// What a request needs is given where the service reports no error and has it.
pub proof fn law_what_is_needed(
    prefix: Seq<char>,
    errcode: int,
    errmsg: Seq<char>,
    value: Seq<char>,
    missing: Seq<char>,
)
    ensures
        needed(prefix, 0, errmsg, Some(value), missing) == Ok::<Seq<char>, Seq<char>>(value),
        needed(prefix, 0, errmsg, None, missing) == Err::<Seq<char>, Seq<char>>(missing),
        errcode != 0 ==> needed(prefix, errcode, errmsg, Some(value), missing) is Err && holds(
            needed(prefix, errcode, errmsg, Some(value), missing)->Err_0,
            errmsg,
        ),
{
    let lead = prefix + " error "@ + crate::text::decimal_int(errcode) + ": "@;
    lemma_holds(lead, errmsg, Seq::empty());
    assert(lead + errmsg + Seq::empty() =~= lead + errmsg);
}

/// A path below a base is the base, a slash and the path; an absolute path stands for itself.
pub proof fn law_path_below(base: Seq<char>, rest: Seq<char>)
    ensures
        rest.len() > 0 && rest[0] == '/' ==> joined(base, rest) == rest,
        base.len() > 0 && base.last() != '/' && (rest.len() == 0 || rest[0] != '/') ==> joined(
            base,
            rest,
        ) == base + "/"@ + rest,
        base.len() > 0 && base.last() == '/' && (rest.len() == 0 || rest[0] != '/') ==> joined(
            base,
            rest,
        ) == base + rest,
{
}

/// In short, a question keeps its start and its place, and what follows it is made short as well.
pub proof fn law_question_in_short(messages: Seq<MessageView>, i: int, end: int, s: Seq<char>)
    requires
        0 <= i < end <= messages.len(),
        messages[i].role == "user"@,
        messages[i].content == JsonView::Str(s),
        s.len() <= 150,
    ensures
        short_middle(messages, i, end) == seq![text_message("user"@, s)] + short_middle(
            messages,
            i + 1,
            end,
        ),
{
}

} // verus!
