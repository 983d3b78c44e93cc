//! What stands between a model's tool call and the tool, and what becomes of the result.

use crate::delivery::{agent_name, agent_name_of};
use crate::error::{Error, ErrorView};
use crate::json::{json_text, object1, object3, push_member, render};
use crate::messages::{InboundMessage, InboundView};
use crate::paths::{
    components, components_of_path, is_path_within_base, is_sensitive_filename, joined, join_path,
    opt_str, resolved, sensitive, starts_with_path, within,
};
use crate::safety::{
    confirms, dangerous_command, is_dangerous_exec_command, user_explicitly_confirms_dangerous_op,
};
use crate::skills::{flag, flag_of};
use crate::sorting::holds_text;
use crate::text::{
    contains, decimal, has_text, opt_text, same_text, texts_view,
};
use crate::types::{ToolCallRequest, ToolCallView};
use crate::value::{group_json_view, Json, JsonView};
use vstd::prelude::*;

verus! {

broadcast use group_json_view;

// ---------------------------------------------------------------------------
// Refusals
// ---------------------------------------------------------------------------

/// The result of a call that is refused, as the model reads it.
pub open spec fn refusal(error: Seq<char>, hint: Seq<char>, tool: Seq<char>) -> Seq<char> {
    json_text(
        JsonView::Object(
            seq![
                ("error"@, JsonView::Str(error)),
                ("hint"@, JsonView::Str(hint)),
                ("tool"@, JsonView::Str(tool)),
            ],
        ),
    )
}

fn refuse(error: &str, hint: &str, tool: &str) -> (r: String)
    ensures
        r@ == refusal(error@, hint@, tool@),
{
    let value = object3(
        "error",
        Json::text(error),
        "hint",
        Json::text(hint),
        "tool",
        Json::text(tool),
    );
    render(&value)
}

/// The refusal of a call to a tool or a skill that is switched off.
pub open spec fn switch_refusal(
    name: Seq<char>,
    disabled_tools: Seq<Seq<char>>,
    disabled_skills: Seq<Seq<char>>,
) -> Option<Seq<char>> {
    if disabled_tools.contains(name) {
        Some(
            refusal(
                "Tool '"@ + name + "' is currently disabled via toggles."@,
                "This tool has been disabled by the user. Use toggle_manage to re-enable it, or use an alternative tool."@,
                name,
            ),
        )
    } else if disabled_skills.contains(name) {
        Some(
            refusal(
                "Skill '"@ + name + "' is currently disabled via toggles."@,
                "This skill has been disabled by the user. Use toggle_manage to re-enable it."@,
                name,
            ),
        )
    } else {
        None
    }
}

fn around(before: &str, name: &str, after: &str) -> (r: String)
    ensures
        r@ == before@ + name@ + after@,
{
    let mut r = before.to_owned();
    r.push_str(name);
    r.push_str(after);
    r
}

pub fn check_switches(
    name: &str,
    disabled_tools: &Vec<String>,
    disabled_skills: &Vec<String>,
) -> (r: Option<String>)
    ensures
        opt_text(r) == switch_refusal(
            name@,
            texts_view(disabled_tools@),
            texts_view(disabled_skills@),
        ),
{
    if holds_text(disabled_tools, name) {
        let error = around("Tool '", name, "' is currently disabled via toggles.");
        Some(
            refuse(
                error.as_str(),
                "This tool has been disabled by the user. Use toggle_manage to re-enable it, or use an alternative tool.",
                name,
            ),
        )
    } else if holds_text(disabled_skills, name) {
        let error = around("Skill '", name, "' is currently disabled via toggles.");
        Some(
            refuse(
                error.as_str(),
                "This skill has been disabled by the user. Use toggle_manage to re-enable it.",
                name,
            ),
        )
    } else {
        None
    }
}

/// The refusal of a call whose paths the user did not allow.
pub open spec fn path_denial(tool: Seq<char>) -> Seq<char> {
    refusal(
        "Permission denied: user rejected access to paths outside the safe workspace directory."@,
        "The requested path is outside the workspace. The user has denied this operation. Please inform the user and suggest an alternative within the workspace, or ask the user to confirm."@,
        tool,
    )
}

pub fn path_refusal(tool: &str) -> (r: String)
    ensures
        r@ == path_denial(tool@),
{
    refuse(
        "Permission denied: user rejected access to paths outside the safe workspace directory.",
        "The requested path is outside the workspace. The user has denied this operation. Please inform the user and suggest an alternative within the workspace, or ask the user to confirm.",
        tool,
    )
}

// ---------------------------------------------------------------------------
// Dangerous operations
// ---------------------------------------------------------------------------

pub const EXEC_DENIED: &'static str = "Permission denied: dangerous exec command requires explicit user confirmation.";

pub const EXEC_SAY_SO: &'static str = "This channel cannot show an interactive confirm prompt. Reply with '确认执行' (or '确认重启') to proceed, otherwise I will not run kill/pkill/killall/service-stop commands.";

pub const EXEC_ASK: &'static str = "The command looks dangerous (e.g. kill/pkill/killall/service stop). Ask the user to confirm explicitly before running it.";

pub const FILES_DENIED: &'static str = "Permission denied: destructive file operation requires explicit user confirmation.";

pub const FILES_SAY_SO: &'static str = "This channel cannot show an interactive confirm prompt. Reply with '确认执行' to proceed with recursive delete / config file modifications.";

pub const FILES_ASK: &'static str = "Deleting recursively or modifying config files is considered dangerous. Ask the user to confirm before proceeding.";

/// Whether a call may go on: at once, not at all, or when the user confirms the items.
pub enum Gate {
    Proceed,
    Refuse(String),
    Confirm { items: Vec<String>, refusal: String },
}

pub enum GateView {
    Proceed,
    Refuse(Seq<char>),
    Confirm { items: Seq<Seq<char>>, refusal: Seq<char> },
}

impl View for Gate {
    type V = GateView;

    open spec fn view(&self) -> GateView {
        match self {
            Gate::Proceed => GateView::Proceed,
            Gate::Refuse(text) => GateView::Refuse(text@),
            Gate::Confirm { items, refusal } => GateView::Confirm {
                items: texts_view(items@),
                refusal: refusal@,
            },
        }
    }
}

/// What happens to dangerous items: the user is asked where the channel can ask; elsewhere the
/// message itself has to say so.
pub open spec fn gate_for(
    items: Seq<Seq<char>>,
    interactive: bool,
    said: bool,
    ask: Seq<char>,
    say_so: Seq<char>,
) -> GateView {
    if items.len() == 0 {
        GateView::Proceed
    } else if interactive {
        GateView::Confirm { items, refusal: ask }
    } else if said {
        GateView::Proceed
    } else {
        GateView::Refuse(say_so)
    }
}

/// The command that a call would run, where it is dangerous.
pub open spec fn exec_items(args: JsonView, dangerous: bool) -> Seq<Seq<char>> {
    match args.str_at("command"@) {
        Some(command) if dangerous => seq!["command: "@ + command],
        _ => Seq::empty(),
    }
}

/// What a call would do to files that it should not do unasked: delete a directory with all that
/// is in it, or take the configuration away.
pub open spec fn file_items(args: JsonView) -> Seq<Seq<char>> {
    let action = args.str_or("action"@, ""@);
    let path = args.str_or("path"@, ""@);
    let destination = args.str_or("destination"@, ""@);
    let deletes = if action == "delete"@ && flag(args, "recursive"@) {
        seq!["file_ops delete recursive=true path="@ + path]
    } else {
        Seq::empty()
    };
    if (action == "delete"@ || action == "rename"@ || action == "move"@) && (sensitive(path)
        || sensitive(destination)) {
        deletes.push(
            "file_ops "@ + action + " sensitive file (config*) path="@ + path + " destination="@
                + destination,
        )
    } else {
        deletes
    }
}

/// What happens to a call. `dangerous` says whether the command in it is, `said` whether the user's
/// message confirms dangerous operations.
pub open spec fn call_gate(
    call: ToolCallView,
    dangerous: bool,
    interactive: bool,
    said: bool,
) -> GateView {
    if call.name == "exec"@ {
        gate_for(
            exec_items(call.arguments, dangerous),
            interactive,
            said,
            refusal(EXEC_DENIED@, EXEC_ASK@, "exec"@),
            refusal(EXEC_DENIED@, EXEC_SAY_SO@, "exec"@),
        )
    } else if call.name == "file_ops"@ {
        gate_for(
            file_items(call.arguments),
            interactive,
            said,
            refusal(FILES_DENIED@, FILES_ASK@, "file_ops"@),
            refusal(FILES_DENIED@, FILES_SAY_SO@, "file_ops"@),
        )
    } else {
        GateView::Proceed
    }
}

fn str_or<'a>(args: &'a Json, key: &str) -> (r: &'a str)
    ensures
        r@ == args@.str_or(key@, ""@),
{
    match args.str_at(key) {
        Some(s) => s,
        None => "",
    }
}

fn file_items_of(args: &Json) -> (r: Vec<String>)
    ensures
        texts_view(r@) == file_items(args@),
{
    let action = str_or(args, "action");
    let path = str_or(args, "path");
    let destination = str_or(args, "destination");
    let mut items: Vec<String> = Vec::new();
    if same_text(action, "delete") && flag_of(args, "recursive") {
        let mut text = "file_ops delete recursive=true path=".to_owned();
        text.push_str(path);
        items.push(text);
        assert(texts_view(items@) =~= seq![text@]);
    } else {
        assert(texts_view(items@) =~= Seq::empty());
    }
    if (same_text(action, "delete") || same_text(action, "rename") || same_text(action, "move"))
        && (is_sensitive_filename(path) || is_sensitive_filename(destination)) {
        let mut text = "file_ops ".to_owned();
        text.push_str(action);
        text.push_str(" sensitive file (config*) path=");
        text.push_str(path);
        text.push_str(" destination=");
        text.push_str(destination);
        let ghost before = texts_view(items@);
        items.push(text);
        assert(texts_view(items@) =~= before.push(text@));
    }
    items
}

fn decide_gate(
    items: Vec<String>,
    interactive: bool,
    said: bool,
    ask: String,
    say_so: String,
) -> (r: Gate)
    ensures
        r@ == gate_for(texts_view(items@), interactive, said, ask@, say_so@),
{
    if items.len() == 0 {
        Gate::Proceed
    } else if interactive {
        Gate::Confirm { items, refusal: ask }
    } else if said {
        Gate::Proceed
    } else {
        Gate::Refuse(say_so)
    }
}

/// What happens to a call, given whether the command in it is dangerous.
pub fn decide_call(
    call: &ToolCallRequest,
    dangerous: bool,
    interactive: bool,
    user_text: &str,
) -> (r: Gate)
    ensures
        r@ == call_gate(call@, dangerous, interactive, confirms(user_text@)),
{
    let said = user_explicitly_confirms_dangerous_op(user_text);
    if same_text(call.name.as_str(), "exec") {
        let mut items: Vec<String> = Vec::new();
        assert(texts_view(items@) =~= Seq::empty());
        if let Some(command) = call.arguments.str_at("command") {
            if dangerous {
                let mut text = "command: ".to_owned();
                text.push_str(command);
                items.push(text);
                assert(texts_view(items@) =~= seq![text@]);
            }
        }
        decide_gate(
            items,
            interactive,
            said,
            refuse(EXEC_DENIED, EXEC_ASK, "exec"),
            refuse(EXEC_DENIED, EXEC_SAY_SO, "exec"),
        )
    } else if same_text(call.name.as_str(), "file_ops") {
        decide_gate(
            file_items_of(&call.arguments),
            interactive,
            said,
            refuse(FILES_DENIED, FILES_ASK, "file_ops"),
            refuse(FILES_DENIED, FILES_SAY_SO, "file_ops"),
        )
    } else {
        Gate::Proceed
    }
}

/// The command in the arguments of a call is dangerous.
pub open spec fn runs_danger(args: JsonView) -> bool {
    match args.str_at("command"@) {
        Some(command) => dangerous_command(command),
        None => false,
    }
}

fn is_running_danger(args: &Json) -> (r: bool)
    ensures
        r == runs_danger(args@),
{
    match args.str_at("command") {
        Some(command) => is_dangerous_exec_command(command),
        None => false,
    }
}

pub fn check_call(call: &ToolCallRequest, interactive: bool, user_text: &str) -> (r: Gate)
    ensures
        r@ == call_gate(
            call@,
            runs_danger(call@.arguments),
            interactive,
            confirms(user_text@),
        ),
{
    let dangerous = is_running_danger(&call.arguments);
    decide_call(call, dangerous, interactive, user_text)
}

/// A dangerous command never runs unasked: where the channel can ask, the user is asked; where
/// it cannot, the message has to confirm it.
pub proof fn law_danger_needs_consent(call: ToolCallView, interactive: bool, said: bool)
    requires
        call.name == "exec"@,
        call.arguments.str_at("command"@) is Some,
    ensures
        interactive ==> call_gate(call, true, interactive, said) is Confirm,
        !interactive && !said ==> call_gate(call, true, interactive, said) is Refuse,
{
}

// ---------------------------------------------------------------------------
// Calls of scripts
// ---------------------------------------------------------------------------

/// A tool whose paths are held to the workspace when a script calls it.
pub open spec fn script_file_tool(tool: Seq<char>) -> bool {
    tool == "read_file"@ || tool == "write_file"@ || tool == "edit_file"@ || tool == "list_dir"@
        || tool == "file_ops"@
}

/// The canonical forms of the places that the arguments of a script's call name, where the file
/// system knows them.
pub struct ScriptPlaces {
    pub path: Option<String>,
    pub destination: Option<String>,
    pub output_path: Option<String>,
}

/// The path in member `key` leads out of the workspace.
pub open spec fn leads_out(
    params: JsonView,
    key: Seq<char>,
    workspace: Seq<char>,
    workspace_canonical: Option<Seq<char>>,
    canonical: Option<Seq<char>>,
) -> bool {
    match params.str_at(key) {
        Some(p) => !within(
            resolved(workspace, workspace_canonical),
            resolved(joined(workspace, p), canonical),
        ),
        None => false,
    }
}

pub open spec fn outside_text(p: Seq<char>) -> Seq<char> {
    "Path '"@ + p + "' is outside workspace — blocked in skill script"@
}

/// Why a script's call is blocked.
pub open spec fn script_block(
    tool: Seq<char>,
    params: JsonView,
    disabled_tools: Seq<Seq<char>>,
    disabled_skills: Seq<Seq<char>>,
    dangerous: bool,
    workspace: Seq<char>,
    workspace_canonical: Option<Seq<char>>,
    places: ScriptPlaces,
) -> Option<Seq<char>> {
    if disabled_tools.contains(tool) {
        Some("Tool '"@ + tool + "' is disabled via toggles"@)
    } else if disabled_skills.contains(tool) {
        Some("Skill '"@ + tool + "' is disabled via toggles"@)
    } else if tool == "exec"@ && dangerous && params.str_at("command"@) is Some {
        Some("Dangerous command blocked in skill script: "@ + params.str_at("command"@)->0)
    } else if !script_file_tool(tool) {
        None
    } else if leads_out(params, "path"@, workspace, workspace_canonical, opt_text(places.path)) {
        Some(outside_text(params.str_at("path"@)->0))
    } else if leads_out(
        params,
        "destination"@,
        workspace,
        workspace_canonical,
        opt_text(places.destination),
    ) {
        Some(outside_text(params.str_at("destination"@)->0))
    } else if leads_out(
        params,
        "output_path"@,
        workspace,
        workspace_canonical,
        opt_text(places.output_path),
    ) {
        Some(outside_text(params.str_at("output_path"@)->0))
    } else {
        None
    }
}

fn borrowed(text: &Option<String>) -> (r: Option<&str>)
    ensures
        opt_str(r) == opt_text(*text),
{
    match text {
        Some(s) => Some(s.as_str()),
        None => None,
    }
}

fn outside<'a>(
    params: &'a Json,
    key: &str,
    workspace: &str,
    workspace_canonical: Option<&str>,
    canonical: Option<&str>,
) -> (r: Option<&'a str>)
    ensures
        opt_str(r) == (if leads_out(
            params@,
            key@,
            workspace@,
            opt_str(workspace_canonical),
            opt_str(canonical),
        ) {
            params@.str_at(key@)
        } else {
            None
        }),
{
    match params.str_at(key) {
        Some(p) => {
            let full = join_path(workspace, p);
            if is_path_within_base(workspace, workspace_canonical, full.as_str(), canonical) {
                None
            } else {
                Some(p)
            }
        },
        None => None,
    }
}

fn outside_error(p: &str) -> (r: Error)
    ensures
        r@ == ErrorView::Tool(outside_text(p@)),
{
    Error::Tool(around("Path '", p, "' is outside workspace — blocked in skill script"))
}

/// Decides whether a script may make a call, given whether the command in it is dangerous.
pub fn decide_script_call(
    tool: &str,
    params: &Json,
    disabled_tools: &Vec<String>,
    disabled_skills: &Vec<String>,
    dangerous: bool,
    workspace: &str,
    workspace_canonical: Option<&str>,
    places: &ScriptPlaces,
) -> (r: Result<(), Error>)
    ensures
        match script_block(
            tool@,
            params@,
            texts_view(disabled_tools@),
            texts_view(disabled_skills@),
            dangerous,
            workspace@,
            opt_str(workspace_canonical),
            *places,
        ) {
            Some(text) => r is Err && r->Err_0@ == ErrorView::Tool(text),
            None => r is Ok,
        },
{
    if holds_text(disabled_tools, tool) {
        return Err(Error::Tool(around("Tool '", tool, "' is disabled via toggles")));
    }
    if holds_text(disabled_skills, tool) {
        return Err(Error::Tool(around("Skill '", tool, "' is disabled via toggles")));
    }
    if same_text(tool, "exec") && dangerous {
        if let Some(command) = params.str_at("command") {
            let mut text = "Dangerous command blocked in skill script: ".to_owned();
            text.push_str(command);
            return Err(Error::Tool(text));
        }
    }
    if same_text(tool, "read_file") || same_text(tool, "write_file") || same_text(
        tool,
        "edit_file",
    ) || same_text(tool, "list_dir") || same_text(tool, "file_ops") {
        if let Some(p) = outside(
            params,
            "path",
            workspace,
            workspace_canonical,
            borrowed(&places.path),
        ) {
            return Err(outside_error(p));
        }
        if let Some(p) = outside(
            params,
            "destination",
            workspace,
            workspace_canonical,
            borrowed(&places.destination),
        ) {
            return Err(outside_error(p));
        }
        if let Some(p) = outside(
            params,
            "output_path",
            workspace,
            workspace_canonical,
            borrowed(&places.output_path),
        ) {
            return Err(outside_error(p));
        }
    }
    Ok(())
}

/// Decides whether a script may make a call.
pub fn check_script_call(
    tool: &str,
    params: &Json,
    disabled_tools: &Vec<String>,
    disabled_skills: &Vec<String>,
    workspace: &str,
    workspace_canonical: Option<&str>,
    places: &ScriptPlaces,
) -> (r: Result<(), Error>)
    ensures
        match script_block(
            tool@,
            params@,
            texts_view(disabled_tools@),
            texts_view(disabled_skills@),
            runs_danger(params@),
            workspace@,
            opt_str(workspace_canonical),
            *places,
        ) {
            Some(text) => r is Err && r->Err_0@ == ErrorView::Tool(text),
            None => r is Ok,
        },
{
    let dangerous = is_running_danger(params);
    decide_script_call(
        tool,
        params,
        disabled_tools,
        disabled_skills,
        dangerous,
        workspace,
        workspace_canonical,
        places,
    )
}

// ---------------------------------------------------------------------------
// Results
// ---------------------------------------------------------------------------

/// What a tool gave back: a value, or what went wrong.
pub enum ToolOutcome {
    Value(Json),
    Failed(String),
}

pub open spec fn outcome_text(outcome: ToolOutcome) -> Seq<char> {
    match outcome {
        ToolOutcome::Value(v) => json_text(v@),
        ToolOutcome::Failed(e) => "Error: "@ + e@,
    }
}

pub open spec fn outcome_value(outcome: ToolOutcome) -> JsonView {
    match outcome {
        ToolOutcome::Value(v) => v@,
        ToolOutcome::Failed(e) => JsonView::Object(
            seq![("error"@, JsonView::Str("Error: "@ + e@))],
        ),
    }
}

/// The result of a tool as text and as a value.
pub fn outcome_parts(outcome: &ToolOutcome) -> (r: (String, Json))
    ensures
        r.0@ == outcome_text(*outcome),
        r.1@ == outcome_value(*outcome),
{
    match outcome {
        ToolOutcome::Value(v) => (render(v), v.clone()),
        ToolOutcome::Failed(e) => {
            let mut text = "Error: ".to_owned();
            text.push_str(e.as_str());
            let value = object1("error", Json::text(text.as_str()));
            (text, value)
        },
    }
}

/// What learning from an error has led to.
#[derive(Clone, Copy, PartialEq, Eq, Structural)]
pub enum Learning {
    /// Nothing is learned, or it could not be found out.
    Quiet,
    /// The skill is being learned since this error.
    Started,
    /// The skill was being learned already.
    Underway,
}

pub open spec fn unknown_tool(text: Seq<char>) -> bool {
    contains(text, "Unknown tool:"@)
}

/// What the model is told about learning, where a call failed.
pub open spec fn learning_hint(name: Seq<char>, text: Seq<char>, learning: Learning) -> Option<
    Seq<char>,
> {
    if unknown_tool(text) {
        Some(
            "[系统] 工具 `"@ + name
                + "` 未注册/不可用（Unknown tool）。这不是可通过技能自进化修复的问题。请改用已存在的工具完成任务，或提示用户安装/启用对应工具。"@,
        )
    } else {
        match learning {
            Learning::Quiet => None,
            Learning::Started => Some(
                "[系统] 技能 `"@ + name
                    + "` 执行失败，已自动触发进化学习。请向用户坦诚说明：你暂时还不具备这个技能，但已经开始学习，学会后会自动生效。同时尝试用其他方式帮助用户解决当前问题。"@,
            ),
            Learning::Underway => Some(
                "[系统] 技能 `"@ + name
                    + "` 执行失败，该技能正在学习改进中。请告诉用户：这个技能正在学习中，请稍后再试。"@,
            ),
        }
    }
}

/// Whether an error should be reported, so that the skill can be learned.
pub fn should_report_error(outcome: &ToolOutcome) -> (r: bool)
    ensures
        r == (outcome is Failed && !unknown_tool(outcome_text(*outcome))),
{
    match outcome {
        ToolOutcome::Value(_) => false,
        ToolOutcome::Failed(_) => {
            let (text, value) = outcome_parts(outcome);
            !has_text(text.as_str(), "Unknown tool:")
        },
    }
}

/// The result of a call as the model reads it.
pub open spec fn call_result(name: Seq<char>, outcome: ToolOutcome, learning: Learning) -> Seq<
    char,
> {
    let text = outcome_text(outcome);
    if outcome is Failed {
        match learning_hint(name, text, learning) {
            Some(hint) => text + "\n\n"@ + hint,
            None => text,
        }
    } else {
        text
    }
}

pub fn finish_call(name: &str, outcome: &ToolOutcome, learning: Learning) -> (r: String)
    ensures
        r@ == call_result(name@, *outcome, learning),
{
    let (mut text, value) = outcome_parts(outcome);
    match outcome {
        ToolOutcome::Value(_) => text,
        ToolOutcome::Failed(_) => {
            let hint = if has_text(text.as_str(), "Unknown tool:") {
                Some(
                    around(
                        "[系统] 工具 `",
                        name,
                        "` 未注册/不可用（Unknown tool）。这不是可通过技能自进化修复的问题。请改用已存在的工具完成任务，或提示用户安装/启用对应工具。",
                    ),
                )
            } else {
                match learning {
                    Learning::Quiet => None,
                    Learning::Started => Some(
                        around(
                            "[系统] 技能 `",
                            name,
                            "` 执行失败，已自动触发进化学习。请向用户坦诚说明：你暂时还不具备这个技能，但已经开始学习，学会后会自动生效。同时尝试用其他方式帮助用户解决当前问题。",
                        ),
                    ),
                    Learning::Underway => Some(
                        around(
                            "[系统] 技能 `",
                            name,
                            "` 执行失败，该技能正在学习改进中。请告诉用户：这个技能正在学习中，请稍后再试。",
                        ),
                    ),
                }
            };
            if let Some(hint) = hint {
                text.push_str("\n\n");
                text.push_str(hint.as_str());
            }
            text
        },
    }
}

/// The call wrote a file into the directory of the skills. The canonical forms are given where
/// the file system knows them.
pub open spec fn wrote_skill(
    call: ToolCallView,
    failed: bool,
    at: Seq<char>,
    at_canonical: Option<Seq<char>>,
    skills_dir: Seq<char>,
    skills_canonical: Option<Seq<char>>,
) -> bool {
    &&& !failed
    &&& call.name == "write_file"@ || call.name == "edit_file"@
    &&& call.arguments.str_at("path"@) is Some
    &&& within(components(skills_dir), components(at)) || (at_canonical is Some && skills_canonical
        is Some && within(components(skills_canonical->0), components(at_canonical->0)))
}

pub fn is_skill_write(
    call: &ToolCallRequest,
    failed: bool,
    at: &str,
    at_canonical: Option<&str>,
    skills_dir: &str,
    skills_canonical: Option<&str>,
) -> (r: bool)
    ensures
        r == wrote_skill(
            call@,
            failed,
            at@,
            opt_str(at_canonical),
            skills_dir@,
            opt_str(skills_canonical),
        ),
{
    if failed || !(same_text(call.name.as_str(), "write_file") || same_text(
        call.name.as_str(),
        "edit_file",
    )) || call.arguments.str_at("path").is_none() {
        return false;
    }
    if starts_with_path(&components_of_path(skills_dir), &components_of_path(at)) {
        return true;
    }
    match (at_canonical, skills_canonical) {
        (Some(a), Some(s)) => starts_with_path(&components_of_path(s), &components_of_path(a)),
        _ => false,
    }
}

// ---------------------------------------------------------------------------
// Events
// ---------------------------------------------------------------------------

/// The event that a tool was called.
pub open spec fn tool_start(
    agent_id: Option<Seq<char>>,
    msg: InboundView,
    call: ToolCallView,
) -> JsonView {
    JsonView::Object(
        seq![
            ("agent_id"@, JsonView::Str(agent_name(agent_id))),
            ("call_id"@, JsonView::Str(call.id)),
            ("chat_id"@, JsonView::Str(msg.chat_id)),
            ("params"@, call.arguments),
            ("task_id"@, JsonView::Str(""@)),
            ("tool"@, JsonView::Str(call.name)),
            ("type"@, JsonView::Str("tool_call_start"@)),
        ],
    )
}

pub fn tool_start_event(agent_id: Option<&str>, msg: &InboundMessage, call: &ToolCallRequest) -> (r:
    Json)
    ensures
        r@ == tool_start(opt_str(agent_id), msg@, call@),
{
    let mut m: Vec<(String, Json)> = Vec::new();
    push_member(&mut m, "agent_id", Json::Str(agent_name_of(agent_id)));
    push_member(&mut m, "call_id", Json::text(call.id.as_str()));
    push_member(&mut m, "chat_id", Json::text(msg.chat_id.as_str()));
    push_member(&mut m, "params", call.arguments.clone());
    push_member(&mut m, "task_id", Json::text(""));
    push_member(&mut m, "tool", Json::text(call.name.as_str()));
    push_member(&mut m, "type", Json::text("tool_call_start"));
    let r = Json::Object(m);
    assert(r@->Object_0 =~= tool_start(opt_str(agent_id), msg@, call@)->Object_0);
    r
}

/// The event that a tool gave its result.
pub open spec fn tool_done(
    agent_id: Option<Seq<char>>,
    msg: InboundView,
    call: ToolCallView,
    result: JsonView,
    duration_ms: nat,
) -> JsonView {
    JsonView::Object(
        seq![
            ("agent_id"@, JsonView::Str(agent_name(agent_id))),
            ("call_id"@, JsonView::Str(call.id)),
            ("chat_id"@, JsonView::Str(msg.chat_id)),
            ("duration_ms"@, JsonView::Number(decimal(duration_ms))),
            ("result"@, result),
            ("task_id"@, JsonView::Str(""@)),
            ("tool"@, JsonView::Str(call.name)),
            ("type"@, JsonView::Str("tool_call_result"@)),
        ],
    )
}

pub fn tool_done_event(
    agent_id: Option<&str>,
    msg: &InboundMessage,
    call: &ToolCallRequest,
    result: Json,
    duration_ms: u64,
) -> (r: Json)
    ensures
        r@ == tool_done(opt_str(agent_id), msg@, call@, result@, duration_ms as nat),
{
    let mut m: Vec<(String, Json)> = Vec::new();
    push_member(&mut m, "agent_id", Json::Str(agent_name_of(agent_id)));
    push_member(&mut m, "call_id", Json::text(call.id.as_str()));
    push_member(&mut m, "chat_id", Json::text(msg.chat_id.as_str()));
    push_member(&mut m, "duration_ms", Json::number(duration_ms));
    push_member(&mut m, "result", result);
    push_member(&mut m, "task_id", Json::text(""));
    push_member(&mut m, "tool", Json::text(call.name.as_str()));
    push_member(&mut m, "type", Json::text("tool_call_result"));
    let r = Json::Object(m);
    assert(r@->Object_0 =~= tool_done(
        opt_str(agent_id),
        msg@,
        call@,
        result@,
        duration_ms as nat,
    )->Object_0);
    r
}

} // verus!
