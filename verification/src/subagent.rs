//! Agents that work on a task in the background.

use crate::json::{insert_member, push_member, set_member};
use crate::messages::{outbound, InboundMessage, InboundView, OutboundMessage};
use crate::paths::opt_str;
use crate::presentation::{truncate_str, truncated};
use crate::skills::{kind_name, runtime_kind, ResolvedSkillScriptKind};
use crate::text::{
    chars_of, split, split_chars, strip_prefix, strip_prefix_chars, text_of, texts_view,
};
use crate::toolset::{agent_metadata, build_subagent_metadata};
use crate::value::{group_json_view, members_view, Json, JsonView};
use vstd::prelude::*;

verus! {

broadcast use group_json_view;

// ---------------------------------------------------------------------------
// Tasks that run a skill
// ---------------------------------------------------------------------------

/// How a task that runs a skill starts.
pub const SKILL_EXEC: &'static str = "__SKILL_EXEC__:";

/// The name of the skill and the words of the user in `name:parameters:words`.
pub open spec fn skill_task_parts(rest: Seq<char>) -> (Seq<char>, Seq<char>) {
    match split(rest, ":"@) {
        None => (rest, Seq::empty()),
        Some((name, tail)) => (
            name,
            match split(tail, ":"@) {
                None => Seq::empty(),
                Some((parameters, words)) => words,
            },
        ),
    }
}

/// The skill that a task runs and the words of the user.
pub open spec fn skill_task(task: Seq<char>) -> Option<(Seq<char>, Seq<char>)> {
    match strip_prefix(task, SKILL_EXEC@) {
        Some(rest) => Some(skill_task_parts(rest)),
        None => None,
    }
}

pub fn parse_skill_task(task: &str) -> (r: Option<(String, String)>)
    ensures
        crate::delivery::pair_view(r) == skill_task(task@),
{
    let chars = chars_of(task);
    match strip_prefix_chars(chars.as_slice(), SKILL_EXEC) {
        None => None,
        Some(rest) => match split_chars(rest, ":") {
            None => Some((text_of(rest), String::new())),
            Some((name, tail)) => match split_chars(tail, ":") {
                None => Some((text_of(name), String::new())),
                Some((parameters, words)) => Some((text_of(name), text_of(words))),
            },
        },
    }
}

// ---------------------------------------------------------------------------
// The message to a subagent
// ---------------------------------------------------------------------------

/// The members that every message to a subagent has.
pub open spec fn origin_members(
    agent_id: Option<Seq<char>>,
    channel: Seq<char>,
    chat_id: Seq<char>,
) -> Seq<(Seq<char>, JsonView)> {
    let start = match agent_metadata(agent_id) {
        JsonView::Object(members) => members,
        _ => Seq::empty(),
    };
    insert_member(
        insert_member(start, "origin_channel"@, JsonView::Str(channel)),
        "origin_chat_id"@,
        JsonView::Str(chat_id),
    )
}

/// The flag that stands for a kind of script.
pub open spec fn kind_flag(kind: ResolvedSkillScriptKind) -> Seq<char> {
    match kind {
        ResolvedSkillScriptKind::Rhai => "skill_rhai"@,
        ResolvedSkillScriptKind::Python => "skill_python"@,
        ResolvedSkillScriptKind::Markdown => "skill_markdown"@,
    }
}

/// The members that have a skill run.
pub open spec fn skill_members(
    start: Seq<(Seq<char>, JsonView)>,
    skill: Seq<char>,
    kind: Option<ResolvedSkillScriptKind>,
) -> Seq<(Seq<char>, JsonView)> {
    let named = insert_member(
        insert_member(start, "skill_script"@, JsonView::Bool(true)),
        "skill_name"@,
        JsonView::Str(skill),
    );
    match kind {
        Some(k) => insert_member(
            insert_member(
                named,
                "skill_script_kind"@,
                JsonView::Str(kind_name(runtime_kind(k))),
            ),
            kind_flag(k),
            JsonView::Bool(true),
        ),
        None => named,
    }
}

/// The message that a subagent works on. `kind` is the kind of script that was found for the
/// skill that the task runs.
pub open spec fn subagent_message(
    task: Seq<char>,
    task_id: Seq<char>,
    channel: Seq<char>,
    chat_id: Seq<char>,
    agent_id: Option<Seq<char>>,
    kind: Option<ResolvedSkillScriptKind>,
    timestamp_ms: int,
) -> InboundView {
    let origin = origin_members(agent_id, channel, chat_id);
    let (content, members) = match skill_task(task) {
        Some((skill, words)) => (words, skill_members(origin, skill, kind)),
        None => (task, origin),
    };
    InboundView {
        channel,
        account_id: None,
        sender_id: "system"@,
        chat_id,
        content,
        media: Seq::empty(),
        metadata: JsonView::Object(
            insert_member(
                members,
                "subagent_session_key"@,
                JsonView::Str("subagent:"@ + task_id),
            ),
        ),
        timestamp_ms,
    }
}

pub fn subagent_inbound(
    task: &str,
    task_id: &str,
    channel: &str,
    chat_id: &str,
    agent_id: Option<&str>,
    kind: Option<ResolvedSkillScriptKind>,
    timestamp_ms: i64,
) -> (r: InboundMessage)
    ensures
        r@ == subagent_message(
            task@,
            task_id@,
            channel@,
            chat_id@,
            opt_str(agent_id),
            kind,
            timestamp_ms as int,
        ),
{
    let mut members: Vec<(String, Json)> = match build_subagent_metadata(agent_id) {
        Json::Object(members) => members,
        _ => Vec::new(),
    };
    assert(members_view(members@) =~= match agent_metadata(opt_str(agent_id)) {
        JsonView::Object(m) => m,
        _ => Seq::empty(),
    });
    set_member(&mut members, "origin_channel".to_owned(), Json::text(channel));
    set_member(&mut members, "origin_chat_id".to_owned(), Json::text(chat_id));
    let content = match parse_skill_task(task) {
        Some((skill, words)) => {
            set_member(&mut members, "skill_script".to_owned(), Json::Bool(true));
            set_member(&mut members, "skill_name".to_owned(), Json::text(skill.as_str()));
            if let Some(k) = kind {
                set_member(
                    &mut members,
                    "skill_script_kind".to_owned(),
                    Json::text(k.as_metadata_kind()),
                );
                let flag = match k {
                    ResolvedSkillScriptKind::Rhai => "skill_rhai",
                    ResolvedSkillScriptKind::Python => "skill_python",
                    ResolvedSkillScriptKind::Markdown => "skill_markdown",
                };
                set_member(&mut members, flag.to_owned(), Json::Bool(true));
            }
            words
        },
        None => task.to_owned(),
    };
    let mut session_key = "subagent:".to_owned();
    session_key.push_str(task_id);
    set_member(&mut members, "subagent_session_key".to_owned(), Json::Str(session_key));
    let r = InboundMessage {
        channel: channel.to_owned(),
        account_id: None,
        sender_id: "system".to_owned(),
        chat_id: chat_id.to_owned(),
        content,
        media: Vec::new(),
        metadata: Json::Object(members),
        timestamp_ms,
    };
    assert(r@.media =~= Seq::empty());
    r
}

/// A message to a subagent asks for the script of the kind that was found, whatever the task is.
pub proof fn law_subagent_runs_found_script(
    task: Seq<char>,
    task_id: Seq<char>,
    channel: Seq<char>,
    chat_id: Seq<char>,
    agent_id: Option<Seq<char>>,
    kind: ResolvedSkillScriptKind,
    timestamp_ms: int,
)
    requires
        skill_task(task) is Some,
    ensures
        crate::skills::asked_kind(
            subagent_message(
                task,
                task_id,
                channel,
                chat_id,
                agent_id,
                Some(kind),
                timestamp_ms,
            ).metadata,
            Some(kind),
        ) == Some(runtime_kind(kind)),
{
    use_literals();
    let origin = origin_members(agent_id, channel, chat_id);
    let (skill, words) = skill_task(task)->0;
    let session = JsonView::Str("subagent:"@ + task_id);
    let named = insert_member(
        insert_member(origin, "skill_script"@, JsonView::Bool(true)),
        "skill_name"@,
        JsonView::Str(skill),
    );
    let with_kind = insert_member(
        named,
        "skill_script_kind"@,
        JsonView::Str(kind_name(runtime_kind(kind))),
    );
    let flagged = insert_member(with_kind, kind_flag(kind), JsonView::Bool(true));
    lemma_flags(origin, agent_id, channel, chat_id);
    assert forall|f: Seq<char>| script_flag(f) implies #[trigger] crate::json::lookup(
        insert_member(flagged, "subagent_session_key"@, session),
        f,
    ) == (if f == kind_flag(kind) {
        Some(JsonView::Bool(true))
    } else {
        None::<JsonView>
    }) by {
        assert(crate::json::lookup(origin, f) is None);
        crate::json::law_insert_then_lookup(
            origin,
            "skill_script"@,
            JsonView::Bool(true),
            f,
        );
        crate::json::law_insert_then_lookup(
            insert_member(origin, "skill_script"@, JsonView::Bool(true)),
            "skill_name"@,
            JsonView::Str(skill),
            f,
        );
        crate::json::law_insert_then_lookup(
            named,
            "skill_script_kind"@,
            JsonView::Str(kind_name(runtime_kind(kind))),
            f,
        );
        let other = if f == kind_flag(kind) {
            "skill_name"@
        } else {
            f
        };
        crate::json::law_insert_then_lookup(with_kind, kind_flag(kind), JsonView::Bool(true), other);
        crate::json::law_insert_then_lookup(flagged, "subagent_session_key"@, session, f);
    }
}

pub open spec fn script_flag(f: Seq<char>) -> bool {
    f == "skill_rhai"@ || f == "skill_python"@ || f == "skill_markdown"@
}

proof fn use_literals()
    ensures
        "skill_rhai"@ != "skill_python"@,
        "skill_rhai"@ != "skill_markdown"@,
        "skill_python"@ != "skill_markdown"@,
        forall|f: Seq<char>| #[trigger]
            script_flag(f) ==> f != "skill_script"@ && f != "skill_name"@ && f
                != "skill_script_kind"@ && f != "subagent_session_key"@ && f != "origin_channel"@
                && f != "origin_chat_id"@ && f != "route_agent_id"@,
{
    reveal_strlit("skill_rhai");
    reveal_strlit("skill_python");
    reveal_strlit("skill_markdown");
    reveal_strlit("skill_script");
    reveal_strlit("skill_name");
    reveal_strlit("skill_script_kind");
    reveal_strlit("subagent_session_key");
    reveal_strlit("origin_channel");
    reveal_strlit("origin_chat_id");
    reveal_strlit("route_agent_id");
    assert("skill_rhai"@[6] == 'r');
    assert("skill_python"@[6] == 'p');
    assert("skill_markdown"@[6] == 'm');
    assert("skill_script"@[6] == 's');
    assert("skill_name"@[6] == 'n');
    assert("skill_script_kind"@[6] == 's');
    assert("subagent_session_key"@[1] == 'u' && "skill_rhai"@[1] == 'k' && "skill_python"@[1]
        == 'k' && "skill_markdown"@[1] == 'k');
    assert("origin_channel"@[1] == 'r' && "origin_chat_id"@[1] == 'r' && "route_agent_id"@[1]
        == 'o');
}

proof fn lemma_flags(
    origin: Seq<(Seq<char>, JsonView)>,
    agent_id: Option<Seq<char>>,
    channel: Seq<char>,
    chat_id: Seq<char>,
)
    requires
        origin == origin_members(agent_id, channel, chat_id),
    ensures
        forall|f: Seq<char>| script_flag(f) ==> #[trigger] crate::json::lookup(origin, f) is None,
{
    use_literals();
    let start = match agent_metadata(agent_id) {
        JsonView::Object(members) => members,
        _ => Seq::empty(),
    };
    assert forall|f: Seq<char>| script_flag(f) implies #[trigger] crate::json::lookup(
        origin,
        f,
    ) is None by {
        if start.len() > 0 {
            assert(start.skip(1) =~= Seq::empty());
        }
        assert(crate::json::lookup(start, f) is None);
        crate::json::law_insert_then_lookup(start, "origin_channel"@, JsonView::Str(channel), f);
        crate::json::law_insert_then_lookup(
            insert_member(start, "origin_channel"@, JsonView::Str(channel)),
            "origin_chat_id"@,
            JsonView::Str(chat_id),
            f,
        );
    }
}

// ---------------------------------------------------------------------------
// Results
// ---------------------------------------------------------------------------

/// What a tool gives back that has started a subagent.
pub open spec fn spawn_value(task_id: Seq<char>, label: Seq<char>) -> JsonView {
    JsonView::Object(
        seq![
            ("label"@, JsonView::Str(label)),
            (
                "note"@,
                JsonView::Str(
                    "Subagent is now processing this "@
                        + "task in the background. Use list_tasks to check progress."@,
                ),
            ),
            ("status"@, JsonView::Str("running"@)),
            ("task_id"@, JsonView::Str(task_id)),
        ],
    )
}

pub fn spawn_result(task_id: &str, label: &str) -> (r: Json)
    ensures
        r@ == spawn_value(task_id@, label@),
{
    let mut note = "Subagent is now processing this ".to_owned();
    note.push_str("task in the background. Use list_tasks to check progress.");
    let mut m: Vec<(String, Json)> = Vec::new();
    push_member(&mut m, "label", Json::text(label));
    push_member(&mut m, "note", Json::Str(note));
    push_member(&mut m, "status", Json::text("running"));
    push_member(&mut m, "task_id", Json::text(task_id));
    let r = Json::Object(m);
    assert(r@->Object_0 =~= spawn_value(task_id@, label@)->Object_0);
    r
}

/// The text that tells of a task that failed.
pub open spec fn task_failure(label: Seq<char>, task_id: Seq<char>, error: Seq<char>) -> Seq<char> {
    "\n❌ 后台任务失败: **"@ + label + "** (ID: "@ + truncated(task_id, 8) + ")\n错误: "@ + error
}

/// The message about the end of a task: its result, or what went wrong.
pub fn task_notice(
    channel: &str,
    chat_id: &str,
    label: &str,
    task_id: &str,
    result: Result<&str, &str>,
) -> (r: OutboundMessage)
    ensures
        r@ == outbound(
            channel@,
            chat_id@,
            match result {
                Ok(text) => text@,
                Err(error) => task_failure(label@, task_id@, error@),
            },
        ),
{
    match result {
        Ok(text) => OutboundMessage::new(channel, chat_id, text),
        Err(error) => {
            let mut text = "\n❌ 后台任务失败: **".to_owned();
            text.push_str(label);
            text.push_str("** (ID: ");
            text.push_str(truncate_str(task_id, 8).as_str());
            text.push_str(")\n错误: ");
            text.push_str(error);
            OutboundMessage::new(channel, chat_id, text.as_str())
        },
    }
}

// ---------------------------------------------------------------------------
// Tools
// ---------------------------------------------------------------------------

/// The tools of a subagent.
pub open spec fn subagent_tools() -> Seq<Seq<char>> {
    seq![
        "read_file"@,
        "write_file"@,
        "edit_file"@,
        "list_dir"@,
        "exec"@,
        "web_search"@,
        "web_fetch"@,
        "list_tasks"@,
        "browse"@,
        "memory_query"@,
        "memory_upsert"@,
        "memory_forget"@,
        "list_skills"@,
        "system_info"@,
        "capability_evolve"@,
        "camera_capture"@,
        "app_control"@,
        "file_ops"@,
        "data_process"@,
        "http_request"@,
        "email"@,
        "audio_transcribe"@,
        "chart_generate"@,
        "office_write"@,
        "tts"@,
        "ocr"@,
        "image_understand"@,
        "video_process"@,
        "encrypt"@,
        "network_monitor"@,
        "knowledge_graph"@,
        "stream_subscribe"@,
        "alert_rule"@,
        "community_hub"@,
        "memory_maintenance"@,
        "toggle_manage"@,
        "termux_api"@,
    ]
}

pub fn subagent_tool_registry() -> (r: Vec<String>)
    ensures
        texts_view(r@) == subagent_tools(),
{
    let mut r: Vec<String> = Vec::new();
    r.push("read_file".to_owned());
    r.push("write_file".to_owned());
    r.push("edit_file".to_owned());
    r.push("list_dir".to_owned());
    r.push("exec".to_owned());
    r.push("web_search".to_owned());
    r.push("web_fetch".to_owned());
    r.push("list_tasks".to_owned());
    r.push("browse".to_owned());
    r.push("memory_query".to_owned());
    r.push("memory_upsert".to_owned());
    r.push("memory_forget".to_owned());
    r.push("list_skills".to_owned());
    r.push("system_info".to_owned());
    r.push("capability_evolve".to_owned());
    r.push("camera_capture".to_owned());
    r.push("app_control".to_owned());
    r.push("file_ops".to_owned());
    r.push("data_process".to_owned());
    r.push("http_request".to_owned());
    r.push("email".to_owned());
    r.push("audio_transcribe".to_owned());
    r.push("chart_generate".to_owned());
    r.push("office_write".to_owned());
    r.push("tts".to_owned());
    r.push("ocr".to_owned());
    r.push("image_understand".to_owned());
    r.push("video_process".to_owned());
    r.push("encrypt".to_owned());
    r.push("network_monitor".to_owned());
    r.push("knowledge_graph".to_owned());
    r.push("stream_subscribe".to_owned());
    r.push("alert_rule".to_owned());
    r.push("community_hub".to_owned());
    r.push("memory_maintenance".to_owned());
    r.push("toggle_manage".to_owned());
    r.push("termux_api".to_owned());
    assert(texts_view(r@) =~= subagent_tools());
    r
}

/// A subagent can start no further subagent, write to no one and plan no job.
pub proof fn law_subagent_is_confined()
    ensures
        !subagent_tools().contains("spawn"@),
        !subagent_tools().contains("message"@),
        !subagent_tools().contains("cron"@),
{
    let tools = subagent_tools();
    reveal_strlit("spawn");
    reveal_strlit("message");
    reveal_strlit("cron");
    assert("spawn"@.len() == 5 && "spawn"@[0] == 's');
    assert("message"@.len() == 7 && "message"@[0] == 'm');
    assert("cron"@.len() == 4 && "cron"@[0] == 'c');
    reveal_strlit("read_file");
    reveal_strlit("write_file");
    reveal_strlit("edit_file");
    reveal_strlit("list_dir");
    reveal_strlit("exec");
    reveal_strlit("web_search");
    reveal_strlit("web_fetch");
    reveal_strlit("list_tasks");
    reveal_strlit("browse");
    reveal_strlit("memory_query");
    reveal_strlit("memory_upsert");
    reveal_strlit("memory_forget");
    reveal_strlit("list_skills");
    reveal_strlit("system_info");
    reveal_strlit("capability_evolve");
    reveal_strlit("camera_capture");
    reveal_strlit("app_control");
    reveal_strlit("file_ops");
    reveal_strlit("data_process");
    reveal_strlit("http_request");
    reveal_strlit("email");
    reveal_strlit("audio_transcribe");
    reveal_strlit("chart_generate");
    reveal_strlit("office_write");
    reveal_strlit("tts");
    reveal_strlit("ocr");
    reveal_strlit("image_understand");
    reveal_strlit("video_process");
    reveal_strlit("encrypt");
    reveal_strlit("network_monitor");
    reveal_strlit("knowledge_graph");
    reveal_strlit("stream_subscribe");
    reveal_strlit("alert_rule");
    reveal_strlit("community_hub");
    reveal_strlit("memory_maintenance");
    reveal_strlit("toggle_manage");
    reveal_strlit("termux_api");
    assert(tools[0].len() == 9);
    assert(tools[1].len() == 10);
    assert(tools[2].len() == 9);
    assert(tools[3].len() == 8);
    assert(tools[4].len() == 4 && tools[4][0] == 'e');
    assert(tools[5].len() == 10);
    assert(tools[6].len() == 9);
    assert(tools[7].len() == 10);
    assert(tools[8].len() == 6);
    assert(tools[9].len() == 12);
    assert(tools[10].len() == 13);
    assert(tools[11].len() == 13);
    assert(tools[12].len() == 11);
    assert(tools[13].len() == 11);
    assert(tools[14].len() == 17);
    assert(tools[15].len() == 14);
    assert(tools[16].len() == 11);
    assert(tools[17].len() == 8);
    assert(tools[18].len() == 12);
    assert(tools[19].len() == 12);
    assert(tools[20].len() == 5 && tools[20][0] == 'e');
    assert(tools[21].len() == 16);
    assert(tools[22].len() == 14);
    assert(tools[23].len() == 12);
    assert(tools[24].len() == 3);
    assert(tools[25].len() == 3);
    assert(tools[26].len() == 16);
    assert(tools[27].len() == 13);
    assert(tools[28].len() == 7 && tools[28][0] == 'e');
    assert(tools[29].len() == 15);
    assert(tools[30].len() == 15);
    assert(tools[31].len() == 16);
    assert(tools[32].len() == 10);
    assert(tools[33].len() == 13);
    assert(tools[34].len() == 18);
    assert(tools[35].len() == 13);
    assert(tools[36].len() == 10);
    assert forall|i: int| 0 <= i < 37 implies (#[trigger] tools[i]) != "spawn"@ && tools[i]
        != "message"@ && tools[i] != "cron"@ by {
        assert(tools.len() == 37);
    }
}

} // verus!
