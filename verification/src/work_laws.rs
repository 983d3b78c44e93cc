//! What holds of what is sent, of the scripts that are run, and of what a call may do.

use crate::access::{authorized, call_paths, many_paths, place, sift, strings_among, FactsView};
use crate::delivery::{agent_job, final_answer, message_done, reminder_answer, script_answer};
use crate::gate::{call_gate, file_items, GateView};
use crate::json::{law_insert_then_lookup, lookup, strings_json};
use crate::messages::InboundView;
use crate::paths::{within, PathView};
use crate::prompt_laws::{holds, lemma_holds};
use crate::scripts::{
    capped_output, found_script, python_output, routed_message, script_output, without_member,
};
use crate::skills::flag;
use crate::subagent::{skill_task, SKILL_EXEC};
use crate::tasks::requests;
use crate::text::trim;
use crate::text_laws::{lacks, law_prefix_is_stripped, law_split_at_the_first, lemma_lacks_leads};
use crate::toolset::{
    among, described_name, disabled_in, enabled_tools, others, switched_off, with_missing,
};
use crate::types::ToolCallView;
use crate::value::JsonView;
use vstd::prelude::*;
use vstd::utf8::encode_utf8;

verus! {

// ---------------------------------------------------------------------------
// Answers
// ---------------------------------------------------------------------------

/// The answer to a message that names no target goes to the chat and the account that the message
/// came from, once, with all that it says and shows.
pub proof fn law_answer_is_whole(
    msg: InboundView,
    agent_id: Option<Seq<char>>,
    content: Seq<char>,
    media: Seq<Seq<char>>,
)
    requires
        msg.channel != "ghost"@,
        msg.channel != "ws"@,
        msg.channel != "cron"@,
    ensures
        ({
            let sent = final_answer(msg, agent_id, content, media);
            &&& sent.len() == 1
            &&& sent[0] is Send
            &&& sent[0]->Send_0.channel == msg.channel
            &&& sent[0]->Send_0.chat_id == msg.chat_id
            &&& sent[0]->Send_0.account_id == msg.account_id
            &&& sent[0]->Send_0.content == content
            &&& sent[0]->Send_0.media == media
        }),
{
}

/// A client that watches is told of the answer before it is sent; where the agent spoke to itself,
/// nothing is sent.
pub proof fn law_watchers_are_told(
    msg: InboundView,
    agent_id: Option<Seq<char>>,
    content: Seq<char>,
    media: Seq<Seq<char>>,
)
    ensures
        msg.channel == "ws"@ ==> {
            let sent = final_answer(msg, agent_id, content, media);
            &&& sent.len() == 2
            &&& sent[0] is Event && sent[0]->Event_0.str_at("content"@) == Some(content)
            &&& sent[0]->Event_0.str_at("chat_id"@) == Some(msg.chat_id)
            &&& sent[0]->Event_0.get("media"@) == Some(strings_json(media))
            &&& sent[0]->Event_0.str_at("type"@) == Some("message_done"@)
            &&& sent[1] is Send && sent[1]->Send_0.content == content
        },
        msg.channel == "ghost"@ ==> final_answer(msg, agent_id, content, media).len() == 0,
{
    reveal_strlit("ws");
    reveal_strlit("ghost");
    reveal_strlit("cron");
    assert("ws"@.len() == 2 && "ghost"@.len() == 5 && "cron"@.len() == 4);
    lemma_message_done(agent_id, msg.chat_id, content, media);
}

proof fn lemma_message_done(
    agent_id: Option<Seq<char>>,
    chat_id: Seq<char>,
    content: Seq<char>,
    media: Seq<Seq<char>>,
)
    ensures
        ({
            let event = message_done(agent_id, chat_id, content, media);
            &&& event.str_at("content"@) == Some(content)
            &&& event.str_at("chat_id"@) == Some(chat_id)
            &&& event.get("media"@) == Some(strings_json(media))
            &&& event.str_at("type"@) == Some("message_done"@)
        }),
{
    reveal_strlit("agent_id");
    reveal_strlit("chat_id");
    reveal_strlit("content");
    reveal_strlit("duration_ms");
    reveal_strlit("media");
    reveal_strlit("task_id");
    reveal_strlit("tool_calls");
    reveal_strlit("type");
    assert("agent_id"@[0] == 'a' && "chat_id"@[0] == 'c' && "chat_id"@[1] == 'h');
    assert("content"@[0] == 'c' && "content"@[1] == 'o' && "duration_ms"@[0] == 'd');
    assert("media"@[0] == 'm' && "task_id"@[0] == 't' && "task_id"@[1] == 'a');
    assert("tool_calls"@[0] == 't' && "tool_calls"@[1] == 'o');
    assert("type"@[0] == 't' && "type"@[1] == 'y');
    reveal_with_fuel(lookup, 9);
    let m = message_done(agent_id, chat_id, content, media)->Object_0;
    let m1 = m.skip(1);
    let m2 = m1.skip(1);
    let m3 = m2.skip(1);
    let m4 = m3.skip(1);
    let m5 = m4.skip(1);
    let m6 = m5.skip(1);
    let m7 = m6.skip(1);
    assert(m1[0] == m[1] && m2[0] == m[2] && m3[0] == m[3] && m4[0] == m[4]);
    assert(m5[0] == m[5] && m6[0] == m[6] && m7[0] == m[7]);
}

/// A job that names where its answer is to go has it sent there: that of a script there alone,
/// that of an agent also back, with what it shows.
pub proof fn law_jobs_deliver_to_their_target(
    msg: InboundView,
    agent_id: Option<Seq<char>>,
    content: Seq<char>,
    media: Seq<Seq<char>>,
    channel: Seq<char>,
    to: Seq<char>,
)
    requires
        channel.len() > 0,
        to.len() > 0,
        flag(msg.metadata, "deliver"@),
        msg.metadata.str_at("deliver_channel"@) == Some(channel),
        msg.metadata.str_at("deliver_to"@) == Some(to),
    ensures
        channel != "ws"@ ==> {
            let sent = script_answer(msg, agent_id, content);
            &&& sent.len() == 1 && sent[0] is Send
            &&& sent[0]->Send_0.channel == channel && sent[0]->Send_0.chat_id == to
            &&& sent[0]->Send_0.content == content && sent[0]->Send_0.account_id == msg.account_id
        },
        agent_job(msg) ==> {
            let sent = final_answer(msg, agent_id, content, media);
            &&& sent.len() >= 2 && sent[0] is Send && sent.last() is Send
            &&& sent[0]->Send_0.channel == msg.channel && sent[0]->Send_0.chat_id == msg.chat_id
            &&& sent[0]->Send_0.content == content && sent[0]->Send_0.media == media
            &&& sent.last()->Send_0.channel == channel && sent.last()->Send_0.chat_id == to
            &&& sent.last()->Send_0.content == content && sent.last()->Send_0.media == media
            &&& sent.last()->Send_0.account_id == msg.account_id
        },
        ({
            let sent = reminder_answer(msg, agent_id, content);
            &&& sent.len() >= 2 && sent[0] is Send && sent.last() is Send
            &&& sent[0]->Send_0.channel == msg.channel && sent[0]->Send_0.chat_id == msg.chat_id
            &&& sent[0]->Send_0.content == content
            &&& sent.last()->Send_0.channel == channel && sent.last()->Send_0.chat_id == to
            &&& sent.last()->Send_0.content == content
        }),
{
}

// ---------------------------------------------------------------------------
// Scripts
// ---------------------------------------------------------------------------

proof fn lemma_lookup_push(
    members: Seq<(Seq<char>, JsonView)>,
    member: (Seq<char>, JsonView),
    key: Seq<char>,
)
    ensures
        lookup(members.push(member), key) == match lookup(members, key) {
            Some(value) => Some(value),
            None => if member.0 == key {
                Some(member.1)
            } else {
                None
            },
        },
    decreases members.len(),
{
    let all = members.push(member);
    if members.len() == 0 {
        reveal_with_fuel(lookup, 2);
    } else {
        assert(all[0] == members[0]);
        assert(all.skip(1) =~= members.skip(1).push(member));
        lemma_lookup_push(members.skip(1), member, key);
    }
}

/// What is taken out of some members is missing then, and nothing else is.
pub proof fn law_member_is_taken_out(
    members: Seq<(Seq<char>, JsonView)>,
    key: Seq<char>,
    other: Seq<char>,
)
    requires
        other != key,
    ensures
        lookup(without_member(members, key), key) is None,
        lookup(without_member(members, key), other) == lookup(members, other),
    decreases members.len(),
{
    if members.len() > 0 {
        let prior = members.drop_last();
        let last = members.last();
        law_member_is_taken_out(prior, key, other);
        assert(members =~= prior.push(last));
        lemma_lookup_push(prior, last, other);
        lemma_lookup_push(without_member(prior, key), last, key);
        lemma_lookup_push(without_member(prior, key), last, other);
    }
}

/// A message that is routed to a skill names it, asks for no script again, and keeps what else was
/// known of it and said in it, behind the words that mean the skill.
pub proof fn law_message_is_routed(
    msg: InboundView,
    members: Seq<(Seq<char>, JsonView)>,
    skill: Seq<char>,
    trigger: Seq<char>,
    other: Seq<char>,
)
    requires
        msg.metadata == JsonView::Object(members),
        other != "skill_script"@,
        other != "skill_script_kind"@,
        other != "skill_markdown"@,
        other != "forced_skill_name"@,
    ensures
        ({
            let routed = routed_message(msg, skill, trigger);
            &&& routed.metadata.str_at("forced_skill_name"@) == Some(skill)
            &&& routed.metadata.get("skill_script"@) is None
            &&& routed.metadata.get("skill_script_kind"@) is None
            &&& routed.metadata.get("skill_markdown"@) is None
            &&& routed.metadata.get(other) == msg.metadata.get(other)
            &&& routed.channel == msg.channel && routed.chat_id == msg.chat_id
            &&& routed.sender_id == msg.sender_id && routed.media == msg.media
            &&& trim(msg.content).len() > 0 ==> routed.content == trigger + "\n"@ + msg.content
            &&& trim(msg.content).len() == 0 ==> routed.content == trigger
        }),
{
    reveal_strlit("skill_script");
    reveal_strlit("skill_script_kind");
    reveal_strlit("skill_markdown");
    reveal_strlit("forced_skill_name");
    assert("skill_script"@.len() == 12 && "skill_script_kind"@.len() == 17);
    assert("skill_markdown"@.len() == 14 && "forced_skill_name"@.len() == 17);
    assert("skill_script_kind"@[0] == 's' && "forced_skill_name"@[0] == 'f');
    let a = without_member(members, "skill_script"@);
    let b = without_member(a, "skill_script_kind"@);
    let c = without_member(b, "skill_markdown"@);
    let value = JsonView::Str(skill);
    law_member_is_taken_out(members, "skill_script"@, other);
    law_member_is_taken_out(a, "skill_script_kind"@, other);
    law_member_is_taken_out(b, "skill_markdown"@, other);
    law_member_is_taken_out(a, "skill_script_kind"@, "skill_script"@);
    law_member_is_taken_out(b, "skill_markdown"@, "skill_script"@);
    law_member_is_taken_out(b, "skill_markdown"@, "skill_script_kind"@);
    law_insert_then_lookup(c, "forced_skill_name"@, value, other);
    law_insert_then_lookup(c, "forced_skill_name"@, value, "skill_script"@);
    law_insert_then_lookup(c, "forced_skill_name"@, value, "skill_script_kind"@);
    law_insert_then_lookup(c, "forced_skill_name"@, value, "skill_markdown"@);
}

/// A task that runs a skill names it and holds the words of the user; what was written so is read
/// back, and any other task is none.
pub proof fn law_skill_task_reads_back(
    name: Seq<char>,
    parameters: Seq<char>,
    words: Seq<char>,
    task: Seq<char>,
)
    requires
        lacks(name, ':'),
        lacks(parameters, ':'),
    ensures
        skill_task(SKILL_EXEC@ + (name + ":"@ + (parameters + ":"@ + words))) == Some((name, words)),
        skill_task(SKILL_EXEC@ + name) == Some((name, Seq::<char>::empty())),
        skill_task(task) is Some <==> exists|rest: Seq<char>| task == SKILL_EXEC@ + rest,
{
    reveal_strlit(":");
    let tail = parameters + ":"@ + words;
    let rest = name + ":"@ + tail;
    law_prefix_is_stripped(SKILL_EXEC@ + rest, SKILL_EXEC@, rest);
    law_prefix_is_stripped(SKILL_EXEC@ + name, SKILL_EXEC@, name);
    lemma_lacks_leads(name, ":"@);
    lemma_lacks_leads(parameters, ":"@);
    law_split_at_the_first(name, ":"@, tail);
    law_split_at_the_first(parameters, ":"@, words);
    crate::text_laws::law_no_split_without_pattern(name, ":"@);
    if skill_task(task) is Some {
        let r = crate::text::strip_prefix(task, SKILL_EXEC@)->0;
        law_prefix_is_stripped(task, SKILL_EXEC@, r);
    }
    if exists|r: Seq<char>| task == SKILL_EXEC@ + r {
        let r = choose|r: Seq<char>| task == SKILL_EXEC@ + r;
        law_prefix_is_stripped(task, SKILL_EXEC@, r);
    }
}

/// The script of the user is run before the one that is built in; where there is neither, the
/// complaint names both places.
pub proof fn law_own_script_comes_first(
    skill: Seq<char>,
    file: Seq<char>,
    own: Seq<char>,
    built_in: Seq<char>,
    exists_own: bool,
    exists_built_in: bool,
)
    ensures
        exists_own ==> found_script(skill, file, own, exists_own, built_in, exists_built_in) == Ok::<
            Seq<char>,
            Seq<char>,
        >(own),
        !exists_own && exists_built_in ==> found_script(
            skill,
            file,
            own,
            exists_own,
            built_in,
            exists_built_in,
        ) == Ok::<Seq<char>, Seq<char>>(built_in),
        !exists_own && !exists_built_in ==> {
            let r = found_script(skill, file, own, exists_own, built_in, exists_built_in);
            r is Err && holds(r->Err_0, own) && holds(r->Err_0, built_in) && holds(r->Err_0, skill)
        },
{
    let text = file + " not found for skill '"@ + skill + "' (checked "@ + own + " and "@ + built_in
        + ")"@;
    let a = file + " not found for skill '"@;
    let b = a + skill + "' (checked "@;
    let c = b + own + " and "@;
    lemma_holds(a, skill, "' (checked "@ + own + " and "@ + built_in + ")"@);
    assert(text =~= a + skill + ("' (checked "@ + own + " and "@ + built_in + ")"@));
    lemma_holds(b, own, " and "@ + built_in + ")"@);
    assert(text =~= b + own + (" and "@ + built_in + ")"@));
    lemma_holds(c, built_in, ")"@);
    assert(text =~= c + built_in + ")"@);
}

/// What a script says comes out: its text as it is, that of a program trimmed; what goes wrong is
/// an error with its complaint.
pub proof fn law_script_says(text: Seq<char>, other: Seq<char>, code: Option<i32>)
    ensures
        script_output(true, JsonView::Str(text), None) == Ok::<Seq<char>, Seq<char>>(text),
        script_output(false, JsonView::Null, Some(text)) == Err::<Seq<char>, Seq<char>>(text),
        encode_utf8(text).len() <= 10000 ==> capped_output(text, other) == text,
        encode_utf8(text).len() <= 10000 && trim(text).len() > 0 ==> python_output(
            text,
            other,
            true,
            code,
        ) == Ok::<Seq<char>, Seq<char>>(trim(text)),
        encode_utf8(text).len() <= 10000 && trim(text).len() > 0 ==> python_output(
            other,
            text,
            false,
            code,
        ) is Err && holds(python_output(other, text, false, code)->Err_0, trim(text)),
{
    if encode_utf8(text).len() <= 10000 && trim(text).len() > 0 {
        let status = "SKILL.py exited with status "@ + crate::scripts::exit_name(code);
        lemma_holds(status + ": "@, trim(text), Seq::empty());
        assert(status + ": "@ + trim(text) + Seq::empty() =~= status + ": "@ + trim(text));
    }
}

// ---------------------------------------------------------------------------
// Tools
// ---------------------------------------------------------------------------

/// The names that stay are those that are available, in order.
pub proof fn law_available_names_stay(
    list: Seq<Seq<char>>,
    name: Seq<char>,
    available: Seq<Seq<char>>,
)
    ensures
        available.contains(name) ==> among(list.push(name), available) == among(
            list,
            available,
        ).push(name),
        !available.contains(name) ==> among(list.push(name), available) == among(list, available),
{
    assert(list.push(name).drop_last() =~= list);
}

/// A tool is offered unless it is switched off; the others keep their order.
pub proof fn law_enabled_tools_are_offered(
    tools: Seq<JsonView>,
    tool: JsonView,
    disabled: Seq<Seq<char>>,
    name: Seq<char>,
)
    requires
        described_name(tool) == Some(name),
    ensures
        disabled.contains(name) ==> enabled_tools(tools.push(tool), disabled) == enabled_tools(
            tools,
            disabled,
        ),
        !disabled.contains(name) ==> enabled_tools(tools.push(tool), disabled) == enabled_tools(
            tools,
            disabled,
        ).push(tool),
{
    assert(tools.push(tool).drop_last() =~= tools);
}

/// A switch that is off, and no other, switches its name off.
pub proof fn law_switches(
    members: Seq<(Seq<char>, JsonView)>,
    name: Seq<char>,
    value: JsonView,
    switches: JsonView,
    category: Seq<char>,
)
    ensures
        value == JsonView::Bool(false) ==> switched_off(members.push((name, value)))
            == switched_off(members).push(name),
        value != JsonView::Bool(false) ==> switched_off(members.push((name, value)))
            == switched_off(members),
        switches.get(category) == Some(JsonView::Object(members)) ==> disabled_in(
            switches,
            category,
        ) == switched_off(members),
        switches.get(category) is None ==> disabled_in(switches, category).len() == 0,
{
    assert(members.push((name, value)).drop_last() =~= members);
}

/// Missing names are added behind the list, each once, and none is lost.
pub proof fn law_missing_names_are_added(list: Seq<Seq<char>>, more: Seq<Seq<char>>, name: Seq<char>)
    ensures
        with_missing(list, more).contains(name) <==> list.contains(name) || more.contains(name),
        with_missing(list, more).len() >= list.len(),
        with_missing(list, more).take(list.len() as int) == list,
        list.no_duplicates() ==> with_missing(list, more).no_duplicates(),
    decreases more.len(),
{
    let all = with_missing(list, more);
    if more.len() == 0 {
        assert(all.take(list.len() as int) =~= list);
    } else {
        let prior = more.drop_last();
        let last = more.last();
        law_missing_names_are_added(list, prior, name);
        law_missing_names_are_added(list, prior, last);
        let so_far = with_missing(list, prior);
        assert(more =~= prior.push(last));
        assert(more[more.len() - 1] == last);
        if prior.contains(name) {
            let k = choose|k: int| 0 <= k < prior.len() && prior[k] == name;
            assert(more[k] == name);
        }
        if more.contains(name) && name != last {
            let k = choose|k: int| 0 <= k < more.len() && more[k] == name;
            assert(prior[k] == name);
        }
        if !so_far.contains(last) {
            assert(all[all.len() - 1] == last);
            assert(all.take(list.len() as int) =~= so_far.take(list.len() as int));
            if so_far.contains(name) {
                let k = choose|k: int| 0 <= k < so_far.len() && so_far[k] == name;
                assert(all[k] == name);
            }
            if all.contains(name) && name != last {
                let k = choose|k: int| 0 <= k < all.len() && all[k] == name;
                assert(so_far[k] == name);
            }
        }
    }
}

/// A tool that is described anew takes the place of its old descriptions, and the other tools stay
/// in order.
pub proof fn law_other_tools_stay(tools: Seq<JsonView>, tool: JsonView, name: Seq<char>)
    ensures
        described_name(tool) == Some(name) ==> others(tools.push(tool), name) == others(tools, name),
        described_name(tool) != Some(name) ==> others(tools.push(tool), name) == others(
            tools,
            name,
        ).push(tool),
{
    assert(tools.push(tool).drop_last() =~= tools);
}

// ---------------------------------------------------------------------------
// Permission
// ---------------------------------------------------------------------------

/// A call that does nothing dangerous goes on, wherever it comes from; a dangerous one goes on
/// unasked only where the channel cannot ask and the user has said so.
pub proof fn law_gate(call: ToolCallView, dangerous: bool, interactive: bool, said: bool)
    ensures
        call.name != "exec"@ && call.name != "file_ops"@ ==> call_gate(
            call,
            dangerous,
            interactive,
            said,
        ) == GateView::Proceed,
        call.name == "exec"@ && !dangerous ==> call_gate(call, dangerous, interactive, said)
            == GateView::Proceed,
        call.name == "exec"@ && dangerous && call.arguments.str_at("command"@) is Some ==> {
            let gate = call_gate(call, dangerous, interactive, said);
            &&& interactive ==> gate is Confirm && gate->items.len() == 1
                && gate->items[0] == "command: "@ + call.arguments.str_at("command"@)->0
            &&& !interactive && said ==> gate == GateView::Proceed
            &&& !interactive && !said ==> gate is Refuse
        },
{
    reveal_strlit("exec");
    reveal_strlit("file_ops");
    assert("exec"@.len() == 4 && "file_ops"@.len() == 8);
}

/// Taking a directory away with all that is in it is asked about, whatever its name.
pub proof fn law_recursive_removal_is_asked_about(args: JsonView, path: Seq<char>)
    requires
        args.str_at("action"@) == Some("delete"@),
        args.str_at("path"@) == Some(path),
        args.get("recursive"@) == Some(JsonView::Bool(true)),
    ensures
        file_items(args).len() >= 1,
        holds(file_items(args)[0], path),
{
    let lead = "file_ops delete recursive=true path="@;
    lemma_holds(lead, path, Seq::empty());
    assert(lead + path + Seq::empty() =~= lead + path);
}

/// The strings among some values are those that are strings, in order; the paths of a call that
/// names many are all of them.
pub proof fn law_all_paths_are_looked_at(
    items: Seq<JsonView>,
    item: JsonView,
    text: Seq<char>,
    args: JsonView,
    key: Seq<char>,
)
    ensures
        item == JsonView::Str(text) ==> strings_among(items.push(item)) == strings_among(
            items,
        ).push(text),
        !(item is Str) ==> strings_among(items.push(item)) == strings_among(items),
        args.get(key) == Some(JsonView::Array(items)) ==> many_paths(args, key) == strings_among(
            items,
        ),
{
    assert(items.push(item).drop_last() =~= items);
}

/// The paths that a tool which converts files is given are looked at, all of them.
pub proof fn law_converted_files_are_looked_at(args: JsonView, path: Seq<char>, to: Seq<char>)
    requires
        args.str_at("path"@) == Some(path),
        args.str_at("destination"@) == Some(to),
    ensures
        call_paths("file_ops"@, args).contains(path),
        call_paths("file_ops"@, args).contains(to),
        call_paths("read_file"@, args) == seq![path],
        call_paths("write_file"@, args) == seq![path],
{
    reveal_strlit("read_file");
    reveal_strlit("write_file");
    reveal_strlit("edit_file");
    reveal_strlit("list_dir");
    reveal_strlit("file_ops");
    assert("read_file"@.len() == 9 && "write_file"@.len() == 10 && "edit_file"@.len() == 9);
    assert("list_dir"@[0] == 'l' && "file_ops"@[0] == 'f' && "file_ops"@.len() == 8);
    let paths = call_paths("file_ops"@, args);
    assert(paths[0] == path);
    assert(paths[1] == to);
}

/// A path in the workspace or in an authorized directory changes nothing; one that the rules deny
/// has the call refused, one that they leave open is asked about, and one that they allow is free.
pub proof fn law_each_path_is_sifted(
    dirs: Seq<PathView>,
    workspace: PathView,
    facts: Seq<FactsView>,
    fact: FactsView,
    cache: bool,
)
    ensures
        ({
            let before = sift(dirs, workspace, facts, cache);
            let after = sift(dirs, workspace, facts.push(fact), cache);
            let free = within(workspace, place(fact)) || authorized(before.dirs, place(fact));
            &&& free ==> after == before
            &&& !free && fact.action == crate::access::PolicyAction::Deny ==> after.denied
                && after.dirs == before.dirs
            &&& !free && fact.action == crate::access::PolicyAction::Confirm ==> after.asked
                == before.asked.push(facts.len() as int) && after.dirs == before.dirs
                && after.denied == before.denied
            &&& !free && fact.action == crate::access::PolicyAction::Allow ==> after.asked
                == before.asked && after.denied == before.denied
        }),
{
    assert(facts.push(fact).drop_last() =~= facts);
}

/// A capability that was not asked for within a day is asked for, under its name and for the skill
/// that lacks it, and the time is noted; one that was is not.
pub proof fn law_due_capability_is_asked_for(
    times: Map<Seq<char>, int>,
    missing: Seq<(Seq<char>, Seq<char>)>,
    skill: Seq<char>,
    capability: Seq<char>,
    now: int,
)
    ensures
        ({
            let (before, list) = requests(times, missing, now);
            let (after, all) = requests(times, missing.push((skill, capability)), now);
            let asked = before.contains_key(capability) && now - before[capability] < 86400;
            &&& asked ==> all == list && after == before
            &&& !asked ==> {
                &&& all.len() == list.len() + 1 && all.drop_last() == list
                &&& all.last().0 == capability && holds(all.last().1, skill)
                &&& after == before.insert(capability, now)
            }
        }),
{
    assert(missing.push((skill, capability)).drop_last() =~= missing);
    let (before, list) = requests(times, missing, now);
    let (after, all) = requests(times, missing.push((skill, capability)), now);
    lemma_holds("Auto-requested: required by skill '"@, skill, "'"@);
    if !(before.contains_key(capability) && now - before[capability] < 86400) {
        assert(all.drop_last() =~= list);
    }
}

} // verus!
