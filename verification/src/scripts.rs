//! Running the script of a skill, and what becomes of its output.

use crate::error::{Error, ErrorView};
use crate::json::{
    insert_member, json_pretty, push_member, render_pretty, set_member,
};
use crate::messages::{InboundMessage, InboundView};
use crate::paths::{join_path, joined};
use crate::presentation::{truncate_str, truncated, PresentationView, SkillResultPresentation};
use crate::text::{
    chars_of, decimal_int, decimal_int_text, opt_text, same_text, text_of, trim, trim_chars,
};
use crate::types::{messages_view, text_message, ChatMessage, MessageView};
use crate::value::{group_json_view, members_view, Json, JsonView};
use vstd::prelude::*;
use vstd::utf8::encode_utf8;

verus! {

broadcast use group_json_view;

// ---------------------------------------------------------------------------
// Where a script lies
// ---------------------------------------------------------------------------

pub open spec fn script_path(skills_dir: Seq<char>, skill: Seq<char>, file: Seq<char>) -> Seq<char> {
    joined(joined(skills_dir, skill), file)
}

/// The path of a file of a skill.
pub fn script_path_of(skills_dir: &str, skill: &str, file: &str) -> (r: String)
    ensures
        r@ == script_path(skills_dir@, skill@, file@),
{
    let dir = join_path(skills_dir, skill);
    join_path(dir.as_str(), file)
}

/// The file of a skill: the user's own where it exists, otherwise the built-in one.
pub open spec fn found_script(
    skill: Seq<char>,
    file: Seq<char>,
    user_path: Seq<char>,
    user_exists: bool,
    builtin_path: Seq<char>,
    builtin_exists: bool,
) -> Result<Seq<char>, Seq<char>> {
    if user_exists {
        Ok(user_path)
    } else if builtin_exists {
        Ok(builtin_path)
    } else {
        Err(
            file + " not found for skill '"@ + skill + "' (checked "@ + user_path + " and "@
                + builtin_path + ")"@,
        )
    }
}

/// What was done, or why a skill could not do it.
pub open spec fn skill_outcome(r: Result<String, Error>, expected: Result<Seq<char>, Seq<char>>) -> bool {
    match expected {
        Ok(text) => r is Ok && r->Ok_0@ == text,
        Err(text) => r is Err && r->Err_0@ == ErrorView::Skill(text),
    }
}

pub fn resolve_skill_script_path(
    skill_name: &str,
    file_name: &str,
    user_path: &str,
    user_exists: bool,
    builtin_path: &str,
    builtin_exists: bool,
) -> (r: Result<String, Error>)
    ensures
        skill_outcome(
            r,
            found_script(
                skill_name@,
                file_name@,
                user_path@,
                user_exists,
                builtin_path@,
                builtin_exists,
            ),
        ),
{
    if user_exists {
        return Ok(user_path.to_owned());
    }
    if builtin_exists {
        return Ok(builtin_path.to_owned());
    }
    let mut text = file_name.to_owned();
    text.push_str(" not found for skill '");
    text.push_str(skill_name);
    text.push_str("' (checked ");
    text.push_str(user_path);
    text.push_str(" and ");
    text.push_str(builtin_path);
    text.push_str(")");
    Err(Error::Skill(text))
}

// ---------------------------------------------------------------------------
// Skills without a program
// ---------------------------------------------------------------------------

/// The members without those of this name.
pub open spec fn without_member(members: Seq<(Seq<char>, JsonView)>, key: Seq<char>) -> Seq<
    (Seq<char>, JsonView),
>
    decreases members.len(),
{
    if members.len() == 0 {
        Seq::empty()
    } else if members.last().0 == key {
        without_member(members.drop_last(), key)
    } else {
        without_member(members.drop_last(), key).push(members.last())
    }
}

fn drop_member(members: &Vec<(String, Json)>, key: &str) -> (r: Vec<(String, Json)>)
    ensures
        members_view(r@) == without_member(members_view(members@), key@),
{
    let ghost views = members_view(members@);
    let mut r: Vec<(String, Json)> = Vec::new();
    let mut i: usize = 0;
    assert(members_view(r@) =~= Seq::empty());
    while i < members.len()
        invariant
            i <= members.len(),
            views == members_view(members@),
            members_view(r@) == without_member(views.take(i as int), key@),
        decreases members.len() - i,
    {
        assert(views.take(i + 1).drop_last() =~= views.take(i as int));
        assert(views[i as int] == (members@[i as int].0@, members@[i as int].1@));
        if !same_text(members[i].0.as_str(), key) {
            let name = members[i].0.clone();
            let value = members[i].1.clone();
            push_member(&mut r, name.as_str(), value);
        }
        i += 1;
    }
    assert(views.take(views.len() as int) =~= views);
    r
}

/// The metadata of a message that is routed to a skill: the script is not asked for again, and
/// the skill is forced.
pub open spec fn routed_metadata(metadata: JsonView, skill: Seq<char>) -> JsonView {
    let members = match metadata {
        JsonView::Object(m) => m,
        _ => Seq::empty(),
    };
    JsonView::Object(
        insert_member(
            without_member(
                without_member(without_member(members, "skill_script"@), "skill_script_kind"@),
                "skill_markdown"@,
            ),
            "forced_skill_name"@,
            JsonView::Str(skill),
        ),
    )
}

/// The message with the words that mean the skill in front.
pub open spec fn routed_message(msg: InboundView, skill: Seq<char>, trigger: Seq<char>) -> InboundView {
    InboundView {
        content: if trim(msg.content).len() == 0 {
            trigger
        } else {
            trigger + "\n"@ + msg.content
        },
        metadata: routed_metadata(msg.metadata, skill),
        ..msg
    }
}

/// What is known of a skill that has a description alone: its first trigger where it has one.
pub struct MarkdownSkill {
    pub first_trigger: Option<String>,
}

/// Routes a message to a skill that has a description alone.
pub fn route_to_markdown(
    skill: Option<&MarkdownSkill>,
    skill_name: &str,
    md_exists: bool,
    msg: &InboundMessage,
) -> (r: Result<InboundMessage, Error>)
    ensures
        match skill {
            None => r is Err && r->Err_0@ == ErrorView::Skill(
                "Skill '"@ + skill_name@ + "' not found"@,
            ),
            Some(s) => if !md_exists {
                r is Err && r->Err_0@ == ErrorView::Skill(
                    "SKILL.md not found for skill '"@ + skill_name@ + "'"@,
                )
            } else {
                r is Ok && r->Ok_0@ == routed_message(
                    msg@,
                    skill_name@,
                    match opt_text(s.first_trigger) {
                        Some(trigger) => trigger,
                        None => skill_name@,
                    },
                )
            },
        },
{
    match skill {
        None => {
            let mut text = "Skill '".to_owned();
            text.push_str(skill_name);
            text.push_str("' not found");
            Err(Error::Skill(text))
        },
        Some(s) => {
            if !md_exists {
                let mut text = "SKILL.md not found for skill '".to_owned();
                text.push_str(skill_name);
                text.push_str("'");
                return Err(Error::Skill(text));
            }
            let mut content = match &s.first_trigger {
                Some(trigger) => trigger.clone(),
                None => skill_name.to_owned(),
            };
            if trim_chars(chars_of(msg.content.as_str()).as_slice()).len() > 0 {
                content.push_str("\n");
                content.push_str(msg.content.as_str());
            }
            let copy = msg.metadata.clone();
            let start: Vec<(String, Json)> = match copy {
                Json::Object(members) => members,
                _ => Vec::new(),
            };
            assert(members_view(start@) =~= match msg@.metadata {
                JsonView::Object(m) => m,
                _ => Seq::empty(),
            });
            let first = drop_member(&start, "skill_script");
            let second = drop_member(&first, "skill_script_kind");
            let mut members = drop_member(&second, "skill_markdown");
            set_member(&mut members, "forced_skill_name".to_owned(), Json::text(skill_name));
            let mut routed = msg.clone();
            routed.content = content;
            routed.metadata = Json::Object(members);
            Ok(routed)
        },
    }
}

// ---------------------------------------------------------------------------
// What a script is told
// ---------------------------------------------------------------------------

/// What a program of a skill reads of the message.
pub open spec fn program_context(skill: Seq<char>, msg: InboundView) -> JsonView {
    JsonView::Object(
        seq![
            ("channel"@, JsonView::Str(msg.channel)),
            ("chat_id"@, JsonView::Str(msg.chat_id)),
            ("metadata"@, msg.metadata),
            ("skill_name"@, JsonView::Str(skill)),
            ("trigger"@, JsonView::Str("cron"@)),
            ("user_input"@, JsonView::Str(msg.content)),
        ],
    )
}

pub fn program_context_of(skill_name: &str, msg: &InboundMessage) -> (r: Json)
    ensures
        r@ == program_context(skill_name@, msg@),
{
    let mut m: Vec<(String, Json)> = Vec::new();
    push_member(&mut m, "channel", Json::text(msg.channel.as_str()));
    push_member(&mut m, "chat_id", Json::text(msg.chat_id.as_str()));
    push_member(&mut m, "metadata", msg.metadata.clone());
    push_member(&mut m, "skill_name", Json::text(skill_name));
    push_member(&mut m, "trigger", Json::text("cron"));
    push_member(&mut m, "user_input", Json::text(msg.content.as_str()));
    let r = Json::Object(m);
    assert(r@->Object_0 =~= program_context(skill_name@, msg@)->Object_0);
    r
}

/// The variables of a script of a skill: the message as `ctx`, the skill and the trigger.
pub open spec fn script_variables(skill: Seq<char>, msg: InboundView) -> JsonView {
    JsonView::Object(
        seq![
            (
                "ctx"@,
                JsonView::Object(
                    seq![
                        ("channel"@, JsonView::Str(msg.channel)),
                        ("chat_id"@, JsonView::Str(msg.chat_id)),
                        ("message"@, JsonView::Str(msg.content)),
                        ("metadata"@, msg.metadata),
                        ("skill_name"@, JsonView::Str(skill)),
                        ("trigger"@, JsonView::Str("cron"@)),
                        ("user_input"@, JsonView::Str(msg.content)),
                    ],
                ),
            ),
            ("skill_name"@, JsonView::Str(skill)),
            ("trigger"@, JsonView::Str("cron"@)),
        ],
    )
}

pub fn script_variables_of(skill_name: &str, msg: &InboundMessage) -> (r: Json)
    ensures
        r@ == script_variables(skill_name@, msg@),
{
    let mut c: Vec<(String, Json)> = Vec::new();
    push_member(&mut c, "channel", Json::text(msg.channel.as_str()));
    push_member(&mut c, "chat_id", Json::text(msg.chat_id.as_str()));
    push_member(&mut c, "message", Json::text(msg.content.as_str()));
    push_member(&mut c, "metadata", msg.metadata.clone());
    push_member(&mut c, "skill_name", Json::text(skill_name));
    push_member(&mut c, "trigger", Json::text("cron"));
    push_member(&mut c, "user_input", Json::text(msg.content.as_str()));
    let ctx = Json::Object(c);
    let ghost inner = script_variables(skill_name@, msg@)->Object_0[0].1;
    assert(ctx@->Object_0 =~= inner->Object_0);
    let mut m: Vec<(String, Json)> = Vec::new();
    push_member(&mut m, "ctx", ctx);
    push_member(&mut m, "skill_name", Json::text(skill_name));
    push_member(&mut m, "trigger", Json::text("cron"));
    let r = Json::Object(m);
    assert(r@->Object_0 =~= script_variables(skill_name@, msg@)->Object_0);
    r
}

// ---------------------------------------------------------------------------
// What a script gives back
// ---------------------------------------------------------------------------

/// The output of a script: its text, or its value written out.
pub open spec fn script_output(
    success: bool,
    output: JsonView,
    error: Option<Seq<char>>,
) -> Result<Seq<char>, Seq<char>> {
    if success {
        Ok(
            match output {
                JsonView::Str(s) => s,
                _ => json_pretty(output),
            },
        )
    } else {
        Err(
            match error {
                Some(e) => e,
                None => "Unknown error"@,
            },
        )
    }
}

pub fn script_result(success: bool, output: &Json, error: Option<String>) -> (r: Result<
    String,
    Error,
>)
    ensures
        skill_outcome(r, script_output(success, output@, opt_text(error))),
{
    if success {
        Ok(
            match output {
                Json::Str(s) => s.clone(),
                _ => render_pretty(output),
            },
        )
    } else {
        Err(
            Error::Skill(
                match error {
                    Some(e) => e,
                    None => "Unknown error".to_owned(),
                },
            ),
        )
    }
}

/// The program that runs Python scripts.
pub fn choose_python(has_python3: bool, has_python: bool) -> (r: Result<&'static str, Error>)
    ensures
        if has_python3 {
            r is Ok && r->Ok_0@ == "python3"@
        } else if has_python {
            r is Ok && r->Ok_0@ == "python"@
        } else {
            r is Err && r->Err_0@ == ErrorView::Skill(
                "Python runtime not found (python3/python)"@,
            )
        },
{
    if has_python3 {
        Ok("python3")
    } else if has_python {
        Ok("python")
    } else {
        Err(Error::Skill("Python runtime not found (python3/python)".to_owned()))
    }
}

/// An output of a program, cut to ten thousand characters with a note where it takes more than
/// ten thousand bytes.
pub open spec fn capped_output(text: Seq<char>, note: Seq<char>) -> Seq<char> {
    if encode_utf8(text).len() > 10000 {
        truncated(text, 10000) + note
    } else {
        text
    }
}

fn cap_output(text: &str, note: &str) -> (r: String)
    ensures
        r@ == capped_output(text@, note@),
{
    if text.as_bytes().len() > 10000 {
        let mut r = truncate_str(text, 10000);
        r.push_str(note);
        r
    } else {
        text.to_owned()
    }
}

pub const OUTPUT_CUT: &'static str = "\n... (output truncated)";

pub const STDERR_CUT: &'static str = "\n... (stderr truncated)";

pub open spec fn exit_name(code: Option<i32>) -> Seq<char> {
    match code {
        Some(c) => decimal_int(c as int),
        None => "terminated"@,
    }
}

/// The result of a Python script, from what it wrote and how it ended.
pub open spec fn python_output(
    stdout: Seq<char>,
    stderr: Seq<char>,
    success: bool,
    code: Option<i32>,
) -> Result<Seq<char>, Seq<char>> {
    if !success {
        let complaint = trim(capped_output(stderr, STDERR_CUT@));
        let status = "SKILL.py exited with status "@ + exit_name(code);
        Err(
            if complaint.len() == 0 {
                status
            } else {
                status + ": "@ + complaint
            },
        )
    } else {
        let text = trim(capped_output(stdout, OUTPUT_CUT@));
        Ok(
            if text.len() == 0 {
                "Python skill executed successfully (no output)"@
            } else {
                text
            },
        )
    }
}

fn trimmed(text: &str) -> (r: String)
    ensures
        r@ == trim(text@),
{
    let chars = chars_of(text);
    text_of(trim_chars(chars.as_slice()))
}

pub fn python_result(stdout: &str, stderr: &str, success: bool, code: Option<i32>) -> (r: Result<
    String,
    Error,
>)
    ensures
        skill_outcome(r, python_output(stdout@, stderr@, success, code)),
{
    if !success {
        let complaint = trimmed(cap_output(stderr, STDERR_CUT).as_str());
        let mut text = "SKILL.py exited with status ".to_owned();
        match code {
            Some(c) => text.push_str(decimal_int_text(c as i64).as_str()),
            None => text.push_str("terminated"),
        }
        if !complaint.as_str().is_empty() {
            text.push_str(": ");
            text.push_str(complaint.as_str());
        }
        return Err(Error::Skill(text));
    }
    let text = trimmed(cap_output(stdout, OUTPUT_CUT).as_str());
    if text.as_str().is_empty() {
        Ok("Python skill executed successfully (no output)".to_owned())
    } else {
        Ok(text)
    }
}

// ---------------------------------------------------------------------------
// What the user is told
// ---------------------------------------------------------------------------

pub const SUMMARY_ROLE: &'static str = "你是一个定时任务结果整理助手。技能脚本已经执行完成。请优先依据输入中的技能说明、instruction 和 summary_data 整理结果。如果已经是轻量结构化摘要，就直接整理成清晰友好的最终回复。不要再调用任何工具，不要编造未提供的信息。";

/// What a model is sent to put the output of a script into words.
pub open spec fn summary_request(
    skill: Seq<char>,
    markdown: Seq<char>,
    input: Seq<char>,
) -> Seq<MessageView> {
    seq![
        text_message("system"@, SUMMARY_ROLE@),
        text_message(
            "user"@,
            "[定时任务·"@ + skill + "] 技能脚本执行完成。以下是该技能的 SKILL.md 指导：\n\n"@
                + markdown + "\n\n以下是脚本产出的待整理数据：\n\n"@ + input,
        ),
    ]
}

/// What the model is to put into words: what was picked of the output, or its start.
pub open spec fn summary_input(presentation: PresentationView, output: Seq<char>) -> Seq<char> {
    match presentation.llm_payload {
        Some(payload) => payload,
        None => truncated(output, 4000),
    }
}

pub fn summary_messages(
    skill_name: &str,
    skill_markdown: &str,
    presentation: &SkillResultPresentation,
    output: &str,
) -> (r: Vec<ChatMessage>)
    ensures
        messages_view(r@) == summary_request(
            skill_name@,
            skill_markdown@,
            summary_input(presentation@, output@),
        ),
{
    let input = match &presentation.llm_payload {
        Some(payload) => payload.clone(),
        None => truncate_str(output, 4000),
    };
    let mut text = "[定时任务·".to_owned();
    text.push_str(skill_name);
    text.push_str("] 技能脚本执行完成。以下是该技能的 SKILL.md 指导：\n\n");
    text.push_str(skill_markdown);
    text.push_str("\n\n以下是脚本产出的待整理数据：\n\n");
    text.push_str(input.as_str());
    let mut r: Vec<ChatMessage> = Vec::new();
    r.push(ChatMessage::system(SUMMARY_ROLE));
    r.push(ChatMessage::user(text.as_str()));
    assert(messages_view(r@) =~= summary_request(
        skill_name@,
        skill_markdown@,
        summary_input(presentation@, output@),
    ));
    r
}

/// The answer that the model has put into words: a stand-in where it said nothing, the plain
/// presentation where it could not be reached.
pub open spec fn worded(
    skill: Seq<char>,
    presentation: PresentationView,
    reached: bool,
    content: Option<Seq<char>>,
) -> Seq<char> {
    if reached {
        match content {
            Some(text) => text,
            None => "["@ + skill + "] 定时任务执行完成（LLM 未返回内容）"@,
        }
    } else {
        presentation.fallback_text
    }
}

pub fn worded_result(
    skill_name: &str,
    presentation: &SkillResultPresentation,
    reached: bool,
    content: Option<String>,
) -> (r: String)
    ensures
        r@ == worded(skill_name@, presentation@, reached, opt_text(content)),
{
    if reached {
        match content {
            Some(text) => text,
            None => {
                let mut text = "[".to_owned();
                text.push_str(skill_name);
                text.push_str("] 定时任务执行完成（LLM 未返回内容）");
                text
            },
        }
    } else {
        presentation.fallback_text.clone()
    }
}

/// The answer when the script failed.
pub fn failed_script(skill_name: &str, error: &str) -> (r: String)
    ensures
        r@ == "["@ + skill_name@ + "] 定时任务执行失败: "@ + error@,
{
    let mut text = "[".to_owned();
    text.push_str(skill_name);
    text.push_str("] 定时任务执行失败: ");
    text.push_str(error);
    text
}

} // verus!
