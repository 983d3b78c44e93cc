//! What holds of the rules on messages, skills, commands, notices and accounts.

use crate::accounts::{enabled_ids, ids_where, labels_on, matched_ids, meant_account, switched_on};
use crate::config::{
    Account, ChannelView, ConfigView, DingTalkAccountConfig, DingTalkAccountView,
    DiscordAccountConfig, DiscordAccountView, FeishuAccountConfig, FeishuAccountView,
    LarkAccountConfig, LarkAccountView, SlackAccountConfig, SlackAccountView, TelegramAccountConfig,
    TelegramAccountView, WeComAccountConfig, WeComAccountView, WhatsAppAccountConfig,
    WhatsAppAccountView,
};
use crate::delivery::DeliveryView;
use crate::events::{
    noticed, notification_event, scope_target, EventScope, NotificationRequest, TargetView,
};
use crate::gate::{leads_out, script_block, script_file_tool, switch_refusal, ScriptPlaces};
use crate::history::{
    call_tokens, calls_tokens, content_text, estimate, head_tail, message_tokens, part_tokens,
    parts_tokens, texts_in_parts, trimmed_message, trimmed_part,
};
use crate::json::{json_parsed, json_text, law_insert_then_lookup, lookup};
use crate::manager::{dispatch_outcome, status, steps_tried, StepView};
use crate::messages::{contact, reply_metadata, InboundView};
use crate::prompt::{disabled_section, names_line, InteractionMode};
use crate::prompt_laws::{
    holds, lemma_holds, lemma_holds_before, lemma_holds_behind, lemma_join_holds,
};
use crate::requests::{api_error, first_chars};
use crate::safety::{confirms, dangerous, has_target, risky_removal, stops_processes};
use crate::skills::{
    asked_kind, context_of, flag, inferred_kind, selected_name, similar_name,
    ResolvedSkillScriptKind, SkillFiles, SkillInfo, SkillScriptKind,
};
use crate::sorting::{law_sorted_set, law_sorted_texts, sorted_texts};
use crate::text::{contains, decimal, join, lemma_find_from, occurs_at, opt_text};
use crate::text_laws::{lemma_trim_tight, tight};
use crate::toolset::{offered_names, routine_tools, with_missing};
use crate::types::{call_of_json, json_of_call, MessageView, ToolCallView};
use crate::value::JsonView;
use crate::wecom_conn::{held_said, LongConnFile, LongConnMsgBody};
use crate::wecom_webhook::{element, file_text, message_read, place_text, said_in};
use crate::work_laws::law_missing_names_are_added;
use vstd::prelude::*;

verus! {

// ---------------------------------------------------------------------------
// Messages
// ---------------------------------------------------------------------------

/// Each part and each call of a message counts, by itself; an image counts for two hundred.
pub proof fn law_parts_and_calls_count(
    parts: Seq<JsonView>,
    part: JsonView,
    calls: Seq<ToolCallView>,
    call: ToolCallView,
    message: MessageView,
)
    ensures
        parts_tokens(parts.push(part)) == parts_tokens(parts) + part_tokens(part),
        calls_tokens(calls.push(call)) == calls_tokens(calls) + call_tokens(call),
        part.str_at("text"@) is Some ==> part_tokens(part) == estimate(part.str_at("text"@)->0),
        part.str_at("text"@) is None && part.get("image_url"@) is Some ==> part_tokens(part) == 200,
        message.content == JsonView::Array(parts) && message.tool_calls == Some(calls)
            ==> message_tokens(message) == parts_tokens(parts) + calls_tokens(calls) + 4,
{
    assert(parts.push(part).drop_last() =~= parts);
    assert(calls.push(call).drop_last() =~= calls);
}

/// Shortening a message of parts keeps the parts, in order; of a text part only the text is cut,
/// and a part of another kind stays.
pub proof fn law_parts_are_shortened(
    message: MessageView,
    parts: Seq<JsonView>,
    i: int,
    members: Seq<(Seq<char>, JsonView)>,
    text: Seq<char>,
    other: Seq<char>,
    max: nat,
)
    requires
        message.content == JsonView::Array(parts),
        0 <= i < parts.len(),
        other != "text"@,
    ensures
        trimmed_message(message).content is Array,
        trimmed_message(message).content->Array_0.len() == parts.len(),
        parts[i].str_at("type"@) != Some("text"@) ==> trimmed_message(message).content->Array_0[i]
            == parts[i],
        JsonView::Object(members).str_at("type"@) == Some("text"@) && JsonView::Object(
            members,
        ).str_at("text"@) == Some(text) ==> {
            let short = trimmed_part(JsonView::Object(members), max);
            short.str_at("text"@) == Some(head_tail(text, max)) && short.get(other)
                == JsonView::Object(members).get(other)
        },
{
    law_insert_then_lookup(members, "text"@, JsonView::Str(head_tail(text, max)), other);
}

/// The text of a message of parts is that of all its texts, in order.
pub proof fn law_text_of_parts(parts: Seq<JsonView>, part: JsonView, sep: Seq<char>, i: int)
    ensures
        part.str_at("text"@) is Some ==> texts_in_parts(parts.push(part)) == texts_in_parts(
            parts,
        ).push(part.str_at("text"@)->0),
        part.str_at("text"@) is None ==> texts_in_parts(parts.push(part)) == texts_in_parts(parts),
        0 <= i < texts_in_parts(parts).len() ==> holds(
            content_text(JsonView::Array(parts), sep),
            texts_in_parts(parts)[i],
        ),
{
    assert(parts.push(part).drop_last() =~= parts);
    if 0 <= i < texts_in_parts(parts).len() {
        lemma_join_holds(texts_in_parts(parts), sep, i);
    }
}

/// A call in its flat form is read with its id, its name and its arguments.
pub proof fn law_flat_call(members: Seq<(Seq<char>, JsonView)>)
    requires
        JsonView::Object(members).get("function"@) is None,
    ensures
        ({
            let value = JsonView::Object(members);
            let call = call_of_json(value);
            &&& call is Some
            &&& value.str_at("id"@) is Some ==> Some(call->0.id) == value.str_at("id"@)
            &&& value.str_at("name"@) is Some ==> Some(call->0.name) == value.str_at("name"@)
            &&& value.get("arguments"@) is Some ==> Some(call->0.arguments) == value.get(
                "arguments"@,
            )
        }),
{
}

/// A call that is written in its nested form is read back, if its arguments are.
pub proof fn law_call_reads_back(call: ToolCallView)
    requires
        json_parsed(json_text(call.arguments)) == Some(call.arguments),
    ensures
        call_of_json(json_of_call(call)) == Some(ToolCallView { thought_signature: None, ..call }),
{
    reveal_strlit("function");
    reveal_strlit("id");
    reveal_strlit("type");
    reveal_strlit("arguments");
    reveal_strlit("name");
    reveal_strlit("thought_signature");
    reveal_strlit("thoughtSignature");
    assert("function"@.len() == 8 && "id"@.len() == 2 && "type"@.len() == 4);
    assert("arguments"@.len() == 9 && "name"@.len() == 4);
    assert("thought_signature"@.len() == 17 && "thoughtSignature"@.len() == 16);
    reveal_with_fuel(lookup, 4);
    let m = json_of_call(call)->Object_0;
    assert(m.skip(1)[0] == m[1]);
    assert(m.skip(1).skip(1)[0] == m[2]);
    let f = m[0].1->Object_0;
    assert(f.skip(1)[0] == f[1]);
}

// ---------------------------------------------------------------------------
// Skills
// ---------------------------------------------------------------------------

/// The script of the user decides, then the one that is built in; among scripts, a Rhai script
/// comes before one in Python, and both before instructions.
pub proof fn law_kind_of_a_skill(user: SkillFiles, builtin: SkillFiles)
    ensures
        user.exists && user.rhai ==> inferred_kind(user, builtin) == Some(
            ResolvedSkillScriptKind::Rhai,
        ),
        user.exists && !user.rhai && user.python ==> inferred_kind(user, builtin) == Some(
            ResolvedSkillScriptKind::Python,
        ),
        user.exists && !user.rhai && !user.python && user.markdown ==> inferred_kind(user, builtin)
            == Some(ResolvedSkillScriptKind::Markdown),
        !user.exists && builtin.exists && builtin.rhai ==> inferred_kind(user, builtin) == Some(
            ResolvedSkillScriptKind::Rhai,
        ),
        !user.exists && !builtin.exists ==> inferred_kind(user, builtin) is None,
{
}

/// A message that asks for no script is answered by none; one that asks for a script of a kind gets
/// that kind.
pub proof fn law_asked_script(metadata: JsonView, found: Option<ResolvedSkillScriptKind>)
    ensures
        !flag(metadata, "skill_rhai"@) && !flag(metadata, "skill_python"@) && !flag(
            metadata,
            "skill_markdown"@,
        ) && !flag(metadata, "skill_script"@) ==> asked_kind(metadata, found) is None,
        flag(metadata, "skill_rhai"@) ==> asked_kind(metadata, found) == Some(SkillScriptKind::Rhai),
        flag(metadata, "skill_python"@) && !flag(metadata, "skill_rhai"@) ==> asked_kind(
            metadata,
            found,
        ) == Some(SkillScriptKind::Python),
{
}

/// A skill with a prompt is known by it; the prompt is shown to the model unless a script runs the
/// skill.
pub proof fn law_skill_context(skill: SkillInfo)
    ensures
        skill.prompt_bundle is None ==> context_of(skill) is None,
        skill.prompt_bundle is Some ==> {
            let context = context_of(skill);
            &&& context is Some && context->0.name == skill.name
            &&& context->0.prompt_md == skill.prompt_bundle->0
            &&& context->0.tools == skill.tools
            &&& context->0.fallback_message == skill.fallback_message
            &&& context->0.inject_prompt_md <==> !skill.has_python && !skill.has_rhai
        },
{
}

/// A name that is a candidate means that candidate; otherwise the first one is meant that is part
/// of what was said, or of which that is part.
pub proof fn law_meant_skill(said: Seq<char>, names: Seq<Seq<char>>, k: int)
    requires
        said.len() > 0,
        tight(said),
    ensures
        names.contains(said) ==> selected_name(said, names) == Some(said),
        !names.contains(said) && 0 <= k < names.len() && (contains(said, names[k]) || contains(
            names[k],
            said,
        )) && (forall|j: int|
            0 <= j < k ==> !contains(said, #[trigger] names[j]) && !contains(names[j], said))
            ==> selected_name(said, names) == Some(names[k]),
        selected_name(said, names) is Some ==> names.contains(selected_name(said, names)->0),
{
    lemma_trim_tight(said);
    lemma_similar(said, names);
    if 0 <= k < names.len() && (contains(said, names[k]) || contains(names[k], said)) && (forall|
        j: int,
    |
        0 <= j < k ==> !contains(said, #[trigger] names[j]) && !contains(names[j], said)) {
        lemma_first_similar(said, names, k);
    }
}

proof fn lemma_first_similar(said: Seq<char>, names: Seq<Seq<char>>, k: int)
    requires
        0 <= k < names.len(),
        contains(said, names[k]) || contains(names[k], said),
        forall|j: int|
            0 <= j < k ==> !contains(said, #[trigger] names[j]) && !contains(names[j], said),
    ensures
        similar_name(said, names) == Some(names[k]),
    decreases k,
{
    if k > 0 {
        let rest = names.skip(1);
        assert(!contains(said, names[0]) && !contains(names[0], said));
        assert forall|j: int| 0 <= j < k - 1 implies !contains(said, #[trigger] rest[j])
            && !contains(rest[j], said) by {
            assert(rest[j] == names[j + 1]);
        }
        lemma_first_similar(said, rest, k - 1);
    }
}

proof fn lemma_similar(said: Seq<char>, names: Seq<Seq<char>>)
    ensures
        similar_name(said, names) is Some ==> names.contains(similar_name(said, names)->0),
    decreases names.len(),
{
    if names.len() > 0 {
        let rest = names.skip(1);
        lemma_similar(said, rest);
        if contains(said, names[0]) || contains(names[0], said) {
            assert(names[0] == similar_name(said, names)->0);
        } else if similar_name(said, rest) is Some {
            let n = similar_name(said, rest)->0;
            let k = choose|k: int| 0 <= k < rest.len() && rest[k] == n;
            assert(names[k + 1] == n);
        }
    }
}

// ---------------------------------------------------------------------------
// Commands
// ---------------------------------------------------------------------------

/// A text holds what stands in it.
pub proof fn lemma_contains(a: Seq<char>, pat: Seq<char>, b: Seq<char>)
    ensures
        contains(a + pat + b, pat),
{
    let s = a + pat + b;
    let n = a.len() as int;
    assert(s.subrange(n, n + pat.len()) =~= pat);
    assert(occurs_at(s, pat, n));
    lemma_find_from(s, pat, 0);
}

/// A command that stops processes is dangerous wherever the word for it stands.
pub proof fn law_stopping_is_dangerous(
    a: Seq<char>,
    b: Seq<char>,
    deletes: bool,
    removals: Seq<Seq<char>>,
)
    ensures
        dangerous(a + "kill "@ + b, deletes, removals),
        dangerous(a + "pkill"@ + b, deletes, removals),
        dangerous(a + "killall"@ + b, deletes, removals),
        dangerous(a + "taskkill"@ + b, deletes, removals),
        dangerous(a + "systemctl stop"@ + b, deletes, removals),
        dangerous(a + "launchctl bootout"@ + b, deletes, removals),
{
    reveal_strlit("kill ");
    reveal_strlit("pkill");
    reveal_strlit("killall");
    reveal_strlit("taskkill");
    reveal_strlit("systemctl stop");
    reveal_strlit("launchctl bootout");
    lemma_contains(a, "kill "@, b);
    lemma_contains(a, "pkill"@, b);
    lemma_contains(a, "killall"@, b);
    lemma_contains(a, "taskkill"@, b);
    lemma_contains(a, "systemctl stop"@, b);
    lemma_contains(a, "launchctl bootout"@, b);
}

/// Removing something by force, with all that is in it, or outside the directory is risky.
pub proof fn law_forced_removal_is_risky(a: Seq<char>, b: Seq<char>)
    ensures
        has_target(a + " -rf"@ + b) ==> risky_removal(a + " -rf"@ + b),
        has_target(a + " -r"@ + b) ==> risky_removal(a + " -r"@ + b),
        has_target(a + " -f"@ + b) ==> risky_removal(a + " -f"@ + b),
        has_target(a + "../"@ + b) ==> risky_removal(a + "../"@ + b),
        !has_target(a) ==> !risky_removal(a),
{
    lemma_contains(a, " -rf"@, b);
    lemma_contains(a, " -r"@, b);
    lemma_contains(a, " -f"@, b);
    lemma_contains(a, "../"@, b);
}

/// A command that deletes, or one of whose removals is risky, is dangerous; where it does neither
/// and stops nothing, it is not.
pub proof fn law_dangerous_commands(
    command: Seq<char>,
    deletes: bool,
    removals: Seq<Seq<char>>,
    i: int,
)
    requires
        command.len() > 0,
    ensures
        deletes ==> dangerous(command, deletes, removals),
        0 <= i < removals.len() && risky_removal(removals[i]) ==> dangerous(
            command,
            deletes,
            removals,
        ),
        !deletes && removals.len() == 0 && !stops_processes(command) ==> !dangerous(
            command,
            deletes,
            removals,
        ),
{
}

/// Who confirms and says what is to be done has confirmed.
pub proof fn law_confirmation(a: Seq<char>, b: Seq<char>, c: Seq<char>)
    requires
        tight(a + "确认"@ + b + "执行"@ + c),
    ensures
        confirms(a + "确认"@ + b + "执行"@ + c),
{
    let text = a + "确认"@ + b + "执行"@ + c;
    lemma_trim_tight(text);
    lemma_contains(a, "确认"@, b + "执行"@ + c);
    assert(text =~= a + "确认"@ + (b + "执行"@ + c));
    lemma_contains(a + "确认"@ + b, "执行"@, c);
}

/// A tool or a skill that is switched off is refused; any other is not refused on that account.
pub proof fn law_switched_off_is_refused(
    name: Seq<char>,
    tools: Seq<Seq<char>>,
    skills: Seq<Seq<char>>,
)
    ensures
        switch_refusal(name, tools, skills) is Some <==> tools.contains(name) || skills.contains(
            name,
        ),
{
}

/// A script may not call what is switched off, run a dangerous command, or reach out of the
/// workspace; anything else it may.
pub proof fn law_what_a_script_may_do(
    tool: Seq<char>,
    params: JsonView,
    tools: Seq<Seq<char>>,
    skills: Seq<Seq<char>>,
    danger: bool,
    workspace: Seq<char>,
    canonical: Option<Seq<char>>,
    places: ScriptPlaces,
)
    ensures
        ({
            let blocked = script_block(
                tool,
                params,
                tools,
                skills,
                danger,
                workspace,
                canonical,
                places,
            );
            blocked is Some <==> {
                ||| tools.contains(tool)
                ||| skills.contains(tool)
                ||| tool == "exec"@ && danger && params.str_at("command"@) is Some
                ||| script_file_tool(tool) && (leads_out(
                    params,
                    "path"@,
                    workspace,
                    canonical,
                    opt_text(places.path),
                ) || leads_out(
                    params,
                    "destination"@,
                    workspace,
                    canonical,
                    opt_text(places.destination),
                ) || leads_out(
                    params,
                    "output_path"@,
                    workspace,
                    canonical,
                    opt_text(places.output_path),
                ))
            }
        }),
{
    reveal_strlit("exec");
    reveal_strlit("read_file");
    reveal_strlit("write_file");
    reveal_strlit("edit_file");
    reveal_strlit("list_dir");
    reveal_strlit("file_ops");
    assert("exec"@.len() == 4 && "read_file"@.len() == 9 && "write_file"@.len() == 10);
    assert("edit_file"@.len() == 9 && "list_dir"@.len() == 8 && "file_ops"@.len() == 8);
}

// ---------------------------------------------------------------------------
// Notices, accounts, prompts
// ---------------------------------------------------------------------------

/// A notice is always an event, and a message to its target, unless that is a client that watches.
pub proof fn law_notice_goes_out(event: JsonView, target: TargetView, text: Seq<char>)
    ensures
        noticed(event, None, text) == seq![DeliveryView::Event(event)],
        target.channel != "ws"@ ==> {
            let sent = noticed(event, Some(target), text);
            &&& sent.len() == 2 && sent[0] == DeliveryView::Event(event) && sent[1] is Send
            &&& sent[1]->Send_0.channel == target.channel
            &&& sent[1]->Send_0.chat_id == target.chat_id
            &&& sent[1]->Send_0.account_id == target.account_id
            &&& sent[1]->Send_0.content == text
        },
        target.channel == "ws"@ ==> noticed(event, Some(target), text) == seq![
            DeliveryView::Event(event),
        ],
{
}

/// A notice for a chat goes to that chat, and one for all to the main conversation.
pub proof fn law_where_a_notice_goes(channel: String, chat_id: String, main: Option<TargetView>)
    ensures
        scope_target(EventScope::Channel { channel, chat_id }, main) is Some,
        scope_target(EventScope::Channel { channel, chat_id }, main)->0.channel == channel@,
        scope_target(EventScope::Channel { channel, chat_id }, main)->0.chat_id == chat_id@,
        scope_target(EventScope::MainSession, main) == main,
        scope_target(EventScope::Global, main) == main,
{
}

/// The ids of the accounts that are asked for stand in order, and no other does.
pub proof fn law_ids_in_order<V>(
    accounts: Seq<(Seq<char>, V)>,
    entry: (Seq<char>, V),
    p: spec_fn(V) -> bool,
)
    ensures
        p(entry.1) ==> ids_where(accounts.push(entry), p) == ids_where(accounts, p).push(entry.0),
        !p(entry.1) ==> ids_where(accounts.push(entry), p) == ids_where(accounts, p),
{
    assert(accounts.push(entry).drop_last() =~= accounts);
}

/// Sending goes on past files that could not be sent, and all steps are tried where no text fails.
pub proof fn law_all_steps_are_tried(steps: Seq<StepView>, failures: Seq<Option<crate::error::Error>>)
    requires
        failures.len() == steps.len(),
        forall|i: int|
            0 <= i < steps.len() ==> #[trigger] steps[i] is Media || failures[i] is None,
    ensures
        steps_tried(steps, failures) == steps.len(),
        dispatch_outcome(steps, failures) is Ok,
    decreases steps.len(),
{
    if steps.len() > 0 {
        let more = steps.skip(1);
        let later = failures.skip(1);
        assert(steps[0] is Media || failures[0] is None);
        assert forall|i: int| 0 <= i < more.len() implies #[trigger] more[i] is Media || later[i]
            is None by {
            assert(more[i] == steps[i + 1] && later[i] == failures[i + 1]);
        }
        law_all_steps_are_tried(more, later);
    }
}

/// The names of all tools and skills that are switched off are told.
pub proof fn law_disabled_names_are_told(
    skills: Seq<Seq<char>>,
    tools: Seq<Seq<char>>,
    name: Seq<char>,
)
    ensures
        skills.contains(name) || tools.contains(name) ==> holds(
            disabled_section(skills, tools),
            name,
        ),
{
    let a = names_line("Disabled skills: "@, skills);
    let b = names_line("Disabled tools: "@, tools);
    let head = crate::prompt::DISABLED_HEAD@;
    if skills.contains(name) {
        lemma_named("Disabled skills: "@, skills, name);
        lemma_holds_behind(head, a, name);
        lemma_holds_before(head + a, b, name);
        lemma_holds_before(head + a + b, "\n"@, name);
    } else if tools.contains(name) {
        lemma_named("Disabled tools: "@, tools, name);
        lemma_holds_behind(head + a, b, name);
        lemma_holds_before(head + a + b, "\n"@, name);
    }
}

proof fn lemma_named(label: Seq<char>, names: Seq<Seq<char>>, name: Seq<char>)
    requires
        names.contains(name),
    ensures
        holds(names_line(label, names), name),
{
    broadcast use vstd::seq_lib::group_to_multiset_ensures;

    law_sorted_texts(names);
    let sorted = sorted_texts(names);
    assert(names.to_multiset().count(name) > 0);
    assert(sorted.contains(name));
    let k = choose|k: int| 0 <= k < sorted.len() && sorted[k] == name;
    lemma_join_holds(sorted, ", "@, k);
    lemma_holds_behind(label, join(sorted, ", "@), name);
    lemma_holds_before(label + join(sorted, ", "@), "\n"@, name);
}

/// A place is told with its name and where it lies, and a file by its name.
pub proof fn law_place_and_file_are_told(label: Seq<char>, x: Seq<char>, y: Seq<char>)
    ensures
        holds(place_text(label, x, y), x),
        holds(place_text(label, x, y), y),
        holds(place_text(label, x, y), label),
        label.len() > 0 ==> holds(file_text(label), label),
{
    let text = place_text(label, x, y);
    if label.len() == 0 {
        lemma_holds("[位置] 纬度:"@, x, " 经度:"@ + y);
        assert(text =~= "[位置] 纬度:"@ + x + (" 经度:"@ + y));
        lemma_holds("[位置] 纬度:"@ + x + " 经度:"@, y, Seq::empty());
        assert(text =~= "[位置] 纬度:"@ + x + " 经度:"@ + y + Seq::empty());
        lemma_holds(text, label, Seq::empty());
        assert(text =~= text + label + Seq::empty());
    } else {
        let lead = "[位置] "@;
        lemma_holds(lead, label, " (纬度:"@ + x + " 经度:"@ + y + ")"@);
        assert(text =~= lead + label + (" (纬度:"@ + x + " 经度:"@ + y + ")"@));
        lemma_holds(lead + label + " (纬度:"@, x, " 经度:"@ + y + ")"@);
        assert(text =~= lead + label + " (纬度:"@ + x + (" 经度:"@ + y + ")"@));
        lemma_holds(lead + label + " (纬度:"@ + x + " 经度:"@, y, ")"@);
        let end = "」，请问您需要我做什么？（例如：读取内容、分析数据等）"@;
        lemma_holds("用户发来了文件「"@, label, end);
    }
}

// ---------------------------------------------------------------------------
// Channels
// ---------------------------------------------------------------------------

/// The event of a notice holds its title, its text, its id and the chat that it goes to.
pub proof fn law_notice_event(
    agent: Option<Seq<char>>,
    request: NotificationRequest,
    priority: JsonView,
    target: TargetView,
)
    ensures
        ({
            let event = notification_event(agent, request, priority, Some(target));
            &&& event.str_at("title"@) == Some(request.title@)
            &&& event.str_at("body"@) == Some(request.body@)
            &&& event.str_at("event_id"@) == Some(request.event_id@)
            &&& event.str_at("chat_id"@) == Some(target.chat_id)
            &&& event.str_at("channel"@) == Some(target.channel)
            &&& event.get("priority"@) == Some(priority)
        }),
{
    reveal_strlit("agent_id");
    reveal_strlit("body");
    reveal_strlit("channel");
    reveal_strlit("chat_id");
    reveal_strlit("event_id");
    reveal_strlit("priority");
    reveal_strlit("title");
    assert("agent_id"@[0] == 'a' && "body"@[0] == 'b' && "channel"@[0] == 'c');
    assert("channel"@[3] == 'n' && "chat_id"@[0] == 'c' && "chat_id"@[3] == 't');
    assert("event_id"@[0] == 'e' && "priority"@[0] == 'p' && "title"@[0] == 't');
    reveal_with_fuel(lookup, 8);
    let m = notification_event(agent, request, priority, Some(target))->Object_0;
    let m1 = m.skip(1);
    let m2 = m1.skip(1);
    let m3 = m2.skip(1);
    let m4 = m3.skip(1);
    let m5 = m4.skip(1);
    let m6 = m5.skip(1);
    assert(m1[0] == m[1] && m2[0] == m[2] && m3[0] == m[3] && m4[0] == m[4] && m5[0] == m[5]);
    assert(m6[0] == m[6]);
}

/// Nobody is remembered from the channels of the program itself; anyone else by their name, and as
/// one of a group unless the chat is theirs alone.
pub proof fn law_contacts(msg: InboundView, name: Seq<char>)
    ensures
        msg.channel == "ws"@ || msg.channel == "cli"@ || msg.channel == "system"@ ==> contact(msg)
            is None,
        msg.channel != "ws"@ && msg.channel != "cli"@ && msg.channel != "system"@ ==> contact(msg)
            is Some,
        contact(msg) is Some && msg.metadata.str_at("sender_nick"@) == Some(name) ==> (contact(
            msg,
        )->0).0 == name,
        contact(msg) is Some && msg.metadata.str_at("conversation_type"@) is None && !flag(
            msg.metadata,
            "is_group"@,
        ) && msg.sender_id == msg.chat_id ==> (contact(msg)->0).1 == "private"@,
        contact(msg) is Some && msg.metadata.str_at("conversation_type"@) is None && flag(
            msg.metadata,
            "is_group"@,
        ) ==> (contact(msg)->0).1 == "group"@,
{
}

/// A message of a group is quoted in the answer, one of a conversation between two is not.
pub proof fn law_groups_are_quoted(msg: InboundView, id: Seq<char>)
    requires
        msg.metadata.str_at("message_id"@) == Some(id),
    ensures
        msg.channel == "feishu"@ && msg.metadata.str_at("chat_type"@) == Some("group"@)
            ==> reply_metadata(msg).str_at("reply_to_message_id"@) == Some(id),
        msg.channel == "feishu"@ && msg.metadata.str_at("chat_type"@) != Some("group"@)
            ==> reply_metadata(msg) == JsonView::Null,
        msg.channel == "discord"@ && msg.metadata.str_at("guild_id"@) is None ==> reply_metadata(
            msg,
        ) == JsonView::Null,
        msg.channel == "wecom"@ ==> reply_metadata(msg) == JsonView::Null,
{
    reveal_strlit("telegram");
    reveal_strlit("feishu");
    reveal_strlit("lark");
    reveal_strlit("discord");
    reveal_strlit("slack");
    reveal_strlit("dingtalk");
    reveal_strlit("wecom");
    assert("telegram"@[0] == 't' && "feishu"@[0] == 'f' && "lark"@[0] == 'l');
    assert("discord"@[0] == 'd' && "discord"@.len() == 7 && "slack"@[0] == 's');
    assert("dingtalk"@[0] == 'd' && "dingtalk"@.len() == 8 && "wecom"@[0] == 'w');
}

/// A picture that came over the connection is asked for at its address with its key, if both are
/// known.
pub proof fn law_held_file_is_asked_for(body: LongConnMsgBody, file: LongConnFile)
    requires
        body.msgtype@ == "image"@,
        body.image == Some(file),
    ensures
        held_said(body) is Some,
        file.url@.len() > 0 && file.aeskey@.len() > 0 ==> {
            let wanted = held_said(body)->0.download;
            &&& wanted is Some && wanted->0.url == file.url@ && wanted->0.aeskey == file.aeskey@
            &&& wanted->0.media_type == "image"@
        },
        file.url@.len() == 0 || file.aeskey@.len() == 0 ==> held_said(body)->0.download is None,
{
    reveal_strlit("text");
    reveal_strlit("image");
    assert("text"@.len() == 4 && "image"@.len() == 5);
}

/// Places and links are told in words.
pub proof fn law_places_and_links(body: Seq<char>, title: Seq<char>, url: Seq<char>)
    requires
        element(body, "Title"@) == title,
        element(body, "Url"@) == url,
    ensures
        said_in(body, "link"@) is Some,
        holds(said_in(body, "link"@)->0.content, title),
        holds(said_in(body, "link"@)->0.content, url),
        said_in(body, "location"@) is Some,
        said_in(body, "location"@)->0.content == place_text(
            element(body, "Label"@),
            element(body, "Location_X"@),
            element(body, "Location_Y"@),
        ),
{
    reveal_strlit("text");
    reveal_strlit("image");
    reveal_strlit("voice");
    reveal_strlit("video");
    reveal_strlit("shortvideo");
    reveal_strlit("file");
    reveal_strlit("location");
    reveal_strlit("link");
    assert("text"@[0] == 't' && "image"@[0] == 'i' && "voice"@[0] == 'v' && "video"@[0] == 'v');
    assert("shortvideo"@[0] == 's' && "file"@[0] == 'f' && "location"@[0] == 'l');
    assert("location"@.len() == 8 && "link"@[0] == 'l' && "link"@.len() == 4);
    let said = said_in(body, "link"@)->0.content;
    lemma_holds("[链接] "@, title, " "@ + url);
    assert(said =~= "[链接] "@ + title + (" "@ + url));
    lemma_holds("[链接] "@ + title + " "@, url, Seq::empty());
    assert(said =~= "[链接] "@ + title + " "@ + url + Seq::empty());
}

/// What nobody may write is not passed on: a message of a program, of someone who is not named
/// where some are, or one that came in before.
pub proof fn law_not_passed_on(settings: ConfigView, body: Seq<char>, seen: Seq<Seq<char>>, user: Seq<char>)
    requires
        element(body, "FromUserName"@) == user,
    ensures
        user.len() > 0 && user[0] == '@' ==> message_read(settings, body, seen) is None,
        settings.wecom.active.allow_from.len() > 0 && !settings.wecom.active.allow_from.contains(
            user,
        ) ==> message_read(settings, body, seen) is None,
{
}

/// The tools that were selected are offered, and to a routine of the agent itself also those that
/// it needs; no others.
pub proof fn law_selected_tools_are_offered(
    selected: Seq<Seq<char>>,
    core: Seq<Seq<char>>,
    available: Seq<Seq<char>>,
    mode: InteractionMode,
    routine: bool,
    name: Seq<char>,
)
    requires
        selected.len() > 0 || mode == InteractionMode::Chat,
    ensures
        offered_names(selected, core, available, mode, routine).contains(name)
            <==> selected.contains(name) || (routine && routine_tools().contains(name)),
{
    law_sorted_set(selected);
    law_sorted_set(with_missing(selected, routine_tools()));
    law_missing_names_are_added(selected, routine_tools(), name);
}

/// The account that is meant is the one that matches what is in use, or the only one that is
/// enabled where none does; where it cannot be told, none is.
pub proof fn law_meant_account<A: Account>(channel: ChannelView<A::V>, id: Seq<char>)
    ensures
        matched_ids::<A>(channel.accounts, channel.active) == seq![id] ==> meant_account::<A>(channel)
            == Some(id),
        matched_ids::<A>(channel.accounts, channel.active).len() == 0 && enabled_ids::<A>(
            channel.accounts,
        ) == seq![id] ==> meant_account::<A>(channel) == Some(id),
        matched_ids::<A>(channel.accounts, channel.active).len() > 1 ==> meant_account::<A>(channel)
            is None,
{
}

/// A channel that is switched off has no listener; one that has some names them all.
pub proof fn law_channel_status(config: ConfigView, channel: Seq<char>, i: int)
    ensures
        !switched_on(config, channel) ==> status(config, channel) == (false, "disabled"@),
        switched_on(config, channel) && 0 <= i < labels_on(config, channel).len() ==> {
            let told = status(config, channel);
            told.0 && holds(told.1, labels_on(config, channel)[i])
        },
        switched_on(config, channel) && labels_on(config, channel).len() == 0 ==> !status(
            config,
            channel,
        ).0,
{
    if switched_on(config, channel) && 0 <= i < labels_on(config, channel).len() {
        let labels = labels_on(config, channel);
        lemma_join_holds(labels, ", "@, i);
        let lead = decimal(labels.len()) + " "@ + (if labels.len() == 1 {
            "listener"@
        } else {
            "listeners"@
        }) + " active: "@;
        lemma_holds_behind(lead, join(labels, ", "@), labels[i]);
    }
}

/// An error of a service names the service and its status and says what the service said.
pub proof fn law_service_errors(name: Seq<char>, code: Seq<char>, body: Seq<char>, max: nat)
    ensures
        holds(api_error(name, code, body), name),
        holds(api_error(name, code, body), code),
        holds(api_error(name, code, body), body),
        body.len() <= max ==> first_chars(body, max) == body,
        body.len() > max ==> first_chars(body, max) == body.take(max as int),
{
    let text = api_error(name, code, body);
    lemma_holds(Seq::empty(), name, " error "@ + code + ": "@ + body);
    assert(text =~= Seq::empty() + name + (" error "@ + code + ": "@ + body));
    lemma_holds(name + " error "@, code, ": "@ + body);
    assert(text =~= name + " error "@ + code + (": "@ + body));
    lemma_holds(name + " error "@ + code + ": "@, body, Seq::empty());
    assert(text =~= name + " error "@ + code + ": "@ + body + Seq::empty());
}

/// An account that has what identifies it is the one in use where it is in use, whichever channel
/// it is on; settings that identify nothing are those of no account.
pub proof fn law_account_matches_itself(
    telegram: TelegramAccountView,
    whatsapp: WhatsAppAccountView,
    feishu: FeishuAccountView,
    slack: SlackAccountView,
    discord: DiscordAccountView,
    dingtalk: DingTalkAccountView,
    wecom: WeComAccountView,
    lark: LarkAccountView,
)
    ensures
        TelegramAccountConfig::matches(telegram, telegram) <==> TelegramAccountConfig::keyed(telegram),
        WhatsAppAccountConfig::matches(whatsapp, whatsapp) <==> WhatsAppAccountConfig::keyed(whatsapp),
        FeishuAccountConfig::matches(feishu, feishu) <==> FeishuAccountConfig::keyed(feishu),
        SlackAccountConfig::keyed(slack) ==> SlackAccountConfig::matches(slack, slack),
        DiscordAccountConfig::matches(discord, discord) <==> DiscordAccountConfig::keyed(discord),
        DingTalkAccountConfig::matches(dingtalk, dingtalk) <==> DingTalkAccountConfig::keyed(dingtalk),
        WeComAccountConfig::matches(wecom, wecom) <==> WeComAccountConfig::keyed(wecom),
        LarkAccountConfig::matches(lark, lark) <==> LarkAccountConfig::keyed(lark),
        TelegramAccountConfig::on(telegram) == telegram.enabled,
        WhatsAppAccountConfig::on(whatsapp) == whatsapp.enabled,
        FeishuAccountConfig::on(feishu) == feishu.enabled,
        SlackAccountConfig::on(slack) == slack.enabled,
        DiscordAccountConfig::on(discord) == discord.enabled,
        DingTalkAccountConfig::on(dingtalk) == dingtalk.enabled,
        WeComAccountConfig::on(wecom) == wecom.enabled,
        LarkAccountConfig::on(lark) == lark.enabled,
{
}

} // verus!
