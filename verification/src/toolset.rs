//! Which tools a model is offered.

use crate::json::{json_parsed, object1, parse};
use crate::messages::copy_texts;
use crate::paths::opt_str;
use crate::prompt::InteractionMode;
use crate::skills::{flag, flag_of};
use crate::sorting::{
    dedup, dedup_texts, holds_text, law_sorted_set, sort_texts, sorted_texts,
};
use crate::text::{
    chars_of, has_text, opt_text, same_text, text_less, text_of, texts_view, trim, trim_chars,
};
use crate::types::ToolCallRequest;
use crate::value::{group_json_view, items_view, members_view, Json, JsonView};
use vstd::prelude::*;

verus! {

broadcast use group_json_view;

// ---------------------------------------------------------------------------
// Names
// ---------------------------------------------------------------------------

/// The texts of `list` that are in `available`.
pub open spec fn among(list: Seq<Seq<char>>, available: Seq<Seq<char>>) -> Seq<Seq<char>>
    decreases list.len(),
{
    if list.len() == 0 {
        Seq::empty()
    } else if available.contains(list.last()) {
        among(list.drop_last(), available).push(list.last())
    } else {
        among(list.drop_last(), available)
    }
}

pub fn keep_available(list: &Vec<String>, available: &Vec<String>) -> (r: Vec<String>)
    ensures
        texts_view(r@) == among(texts_view(list@), texts_view(available@)),
{
    let ghost views = texts_view(list@);
    let mut r: Vec<String> = Vec::new();
    let mut i: usize = 0;
    assert(texts_view(r@) =~= Seq::empty());
    while i < list.len()
        invariant
            i <= list.len(),
            views == texts_view(list@),
            texts_view(r@) == among(views.take(i as int), texts_view(available@)),
        decreases list.len() - i,
    {
        assert(views.take(i + 1).drop_last() =~= views.take(i as int));
        assert(views[i as int] == list@[i as int]@);
        if holds_text(available, list[i].as_str()) {
            let ghost so_far = texts_view(r@);
            let name = list[i].clone();
            r.push(name);
            assert(texts_view(r@) =~= so_far.push(name@));
        }
        i += 1;
    }
    assert(views.take(views.len() as int) =~= views);
    r
}

/// The tools of a conversation: the core ones, those of the profile and those of the skill, as
/// far as they are available, in ascending order and each once.
pub open spec fn effective_names(
    core: Seq<Seq<char>>,
    profile: Seq<Seq<char>>,
    skill: Seq<Seq<char>>,
    available: Seq<Seq<char>>,
) -> Seq<Seq<char>> {
    dedup(sorted_texts(among(core + profile + skill, available)))
}

pub fn resolve_effective_tool_names(
    core: &Vec<String>,
    profile: &Vec<String>,
    skill_tools: &Vec<String>,
    available: &Vec<String>,
) -> (r: Vec<String>)
    ensures
        texts_view(r@) == effective_names(
            texts_view(core@),
            texts_view(profile@),
            texts_view(skill_tools@),
            texts_view(available@),
        ),
{
    let mut all = copy_texts(core);
    let mut second = copy_texts(profile);
    let mut third = copy_texts(skill_tools);
    let ghost b = texts_view(second@);
    let ghost c = texts_view(third@);
    let ghost a = texts_view(all@);
    all.append(&mut second);
    assert(texts_view(all@) =~= a + b);
    all.append(&mut third);
    assert(texts_view(all@) =~= a + b + c);
    let kept = keep_available(&all, available);
    let sorted = sort_texts(&kept);
    dedup_texts(sorted)
}

proof fn lemma_among(list: Seq<Seq<char>>, available: Seq<Seq<char>>, name: Seq<char>)
    ensures
        among(list, available).contains(name) <==> list.contains(name) && available.contains(name),
    decreases list.len(),
{
    let kept = among(list, available);
    if list.len() > 0 {
        let prior = list.drop_last();
        lemma_among(prior, available, name);
        let before = among(prior, available);
        if list.contains(name) && available.contains(name) {
            let k = choose|k: int| 0 <= k < list.len() && list[k] == name;
            if k == list.len() - 1 {
                assert(kept.last() == name);
            } else {
                assert(prior[k] == name);
                let j = choose|j: int| 0 <= j < before.len() && before[j] == name;
                assert(kept[j] == name);
            }
        }
        if kept.contains(name) {
            let k = choose|k: int| 0 <= k < kept.len() && kept[k] == name;
            if k < before.len() {
                assert(before[k] == name);
                let j = choose|j: int| 0 <= j < prior.len() && prior[j] == name;
                assert(list[j] == name);
            } else {
                assert(list.last() == name);
            }
        }
    }
}

/// A tool is offered if and only if it is available and a core tool, one of the profile or one of
/// the skill; the names ascend strictly, so that none is offered twice.
pub proof fn law_effective_names(
    core: Seq<Seq<char>>,
    profile: Seq<Seq<char>>,
    skill: Seq<Seq<char>>,
    available: Seq<Seq<char>>,
    name: Seq<char>,
)
    ensures
        effective_names(core, profile, skill, available).contains(name) <==> available.contains(
            name,
        ) && (core.contains(name) || profile.contains(name) || skill.contains(name)),
        forall|i: int, j: int|
            0 <= i < j < effective_names(core, profile, skill, available).len() ==> text_less(
                #[trigger] effective_names(core, profile, skill, available)[i],
                #[trigger] effective_names(core, profile, skill, available)[j],
            ),
{
    let all = core + profile + skill;
    lemma_among(all, available, name);
    law_sorted_set(among(all, available));
    if core.contains(name) {
        let k = choose|k: int| 0 <= k < core.len() && core[k] == name;
        assert(all[k] == name);
    }
    if profile.contains(name) {
        let k = choose|k: int| 0 <= k < profile.len() && profile[k] == name;
        assert(all[core.len() + k] == name);
    }
    if skill.contains(name) {
        let k = choose|k: int| 0 <= k < skill.len() && skill[k] == name;
        assert(all[core.len() + profile.len() + k] == name);
    }
    if all.contains(name) {
        let k = choose|k: int| 0 <= k < all.len() && all[k] == name;
        if k < core.len() {
            assert(core[k] == name);
        } else if k < core.len() + profile.len() {
            assert(profile[k - core.len()] == name);
        } else {
            assert(skill[k - core.len() - profile.len()] == name);
        }
    }
}

// ---------------------------------------------------------------------------
// Conversations
// ---------------------------------------------------------------------------

/// How a message is dealt with: by the skill that it means, as a chat where it is nothing else,
/// with all tools otherwise.
pub open spec fn mode_of(has_skill: bool, only_chat: bool) -> InteractionMode {
    if has_skill {
        InteractionMode::Skill
    } else if only_chat {
        InteractionMode::Chat
    } else {
        InteractionMode::General
    }
}

pub fn decide_mode(has_skill: bool, only_chat: bool) -> (r: InteractionMode)
    ensures
        r == mode_of(has_skill, only_chat),
{
    if has_skill {
        InteractionMode::Skill
    } else if only_chat {
        InteractionMode::Chat
    } else {
        InteractionMode::General
    }
}

/// The names under which the mode is known to the rules of the tools.
pub fn mode_names(mode: InteractionMode, skill_name: Option<&str>) -> (r: Vec<String>)
    ensures
        texts_view(r@) == seq![
            match mode {
                InteractionMode::Chat => "Chat"@,
                InteractionMode::General => "General"@,
                InteractionMode::Skill => match opt_str(skill_name) {
                    Some(name) => "Skill:"@ + name,
                    None => "Skill"@,
                },
            },
        ],
{
    let name = match mode {
        InteractionMode::Chat => "Chat".to_owned(),
        InteractionMode::General => "General".to_owned(),
        InteractionMode::Skill => match skill_name {
            Some(skill) => {
                let mut text = "Skill:".to_owned();
                text.push_str(skill);
                text
            },
            None => "Skill".to_owned(),
        },
    };
    let mut r: Vec<String> = Vec::new();
    r.push(name);
    assert(texts_view(r@) =~= seq![name@]);
    r
}

/// The tools that a routine of the agent itself needs.
pub open spec fn routine_tools() -> Seq<Seq<char>> {
    seq![
        "community_hub"@,
        "memory_maintenance"@,
        "memory_query"@,
        "memory_upsert"@,
        "list_dir"@,
        "read_file"@,
        "file_ops"@,
        "notification"@,
    ]
}

fn routine_tools_list() -> (r: Vec<String>)
    ensures
        texts_view(r@) == routine_tools(),
{
    let mut r: Vec<String> = Vec::new();
    r.push("community_hub".to_owned());
    r.push("memory_maintenance".to_owned());
    r.push("memory_query".to_owned());
    r.push("memory_upsert".to_owned());
    r.push("list_dir".to_owned());
    r.push("read_file".to_owned());
    r.push("file_ops".to_owned());
    r.push("notification".to_owned());
    assert(texts_view(r@) =~= routine_tools());
    r
}

/// The list with those of `more` that it does not hold yet.
pub open spec fn with_missing(list: Seq<Seq<char>>, more: Seq<Seq<char>>) -> Seq<Seq<char>>
    decreases more.len(),
{
    if more.len() == 0 {
        list
    } else {
        let so_far = with_missing(list, more.drop_last());
        if so_far.contains(more.last()) {
            so_far
        } else {
            so_far.push(more.last())
        }
    }
}

/// The tools that the model is offered: where nothing was selected and the message is no chat,
/// the core ones; a routine of the agent itself gets what it needs.
pub open spec fn offered_names(
    effective: Seq<Seq<char>>,
    core: Seq<Seq<char>>,
    available: Seq<Seq<char>>,
    mode: InteractionMode,
    routine: bool,
) -> Seq<Seq<char>> {
    let chosen = if effective.len() == 0 && mode != InteractionMode::Chat {
        among(core, available)
    } else {
        effective
    };
    dedup(
        sorted_texts(
            if routine {
                with_missing(chosen, routine_tools())
            } else {
                chosen
            },
        ),
    )
}

pub fn offered_tool_names(
    effective: Vec<String>,
    core: &Vec<String>,
    available: &Vec<String>,
    mode: InteractionMode,
    metadata: &Json,
) -> (r: Vec<String>)
    ensures
        texts_view(r@) == offered_names(
            texts_view(effective@),
            texts_view(core@),
            texts_view(available@),
            mode,
            flag(metadata@, "ghost"@),
        ),
{
    let is_chat = match mode {
        InteractionMode::Chat => true,
        _ => false,
    };
    let mut chosen = if effective.len() == 0 && !is_chat {
        keep_available(core, available)
    } else {
        effective
    };
    if flag_of(metadata, "ghost") {
        let needed = routine_tools_list();
        let ghost start = texts_view(chosen@);
        let ghost views = texts_view(needed@);
        let mut i: usize = 0;
        while i < needed.len()
            invariant
                i <= needed.len(),
                views == texts_view(needed@),
                texts_view(chosen@) == with_missing(start, views.take(i as int)),
            decreases needed.len() - i,
        {
            assert(views.take(i + 1).drop_last() =~= views.take(i as int));
            assert(views[i as int] == needed@[i as int]@);
            if !holds_text(&chosen, needed[i].as_str()) {
                let ghost so_far = texts_view(chosen@);
                let name = needed[i].clone();
                chosen.push(name);
                assert(texts_view(chosen@) =~= so_far.push(name@));
            }
            i += 1;
        }
        assert(views.take(views.len() as int) =~= views);
    }
    let sorted = sort_texts(&chosen);
    dedup_texts(sorted)
}

/// Whether a call is one of a tool that was offered.
pub fn in_scope(names: &Vec<String>, call: &ToolCallRequest) -> (r: bool)
    ensures
        r == texts_view(names@).contains(call@.name),
{
    holds_text(names, call.name.as_str())
}

/// The rule that is added where a tool of a connected server is offered.
pub const MCP_RULE: &'static str = "- **MCP (Model Context Protocol)**: blockcell **已内置 MCP 客户端支持**，可连接任意 MCP 服务器（SQLite、GitHub、文件系统、数据库等）。MCP 工具会以 `<serverName>__<toolName>` 格式出现在工具列表中。若用户询问 MCP 功能或当前工具列表中无 MCP 工具，说明尚未配置 MCP 服务器，请引导用户使用 `blockcell mcp add <template>` 快捷添加，或直接编辑 `~/.blockcell/mcp.json` / `~/.blockcell/mcp.d/*.json`。例如：`blockcell mcp add sqlite --db-path /tmp/test.db`，重启后即可使用。";

/// Some name is that of a tool of a connected server.
pub open spec fn any_connected(names: Seq<Seq<char>>) -> bool {
    exists|i: int| 0 <= i < names.len() && crate::text::contains(#[trigger] names[i], "__"@)
}

pub fn add_connected_rule(rules: &mut Vec<String>, tool_names: &Vec<String>)
    ensures
        texts_view(final(rules)@) == (if any_connected(texts_view(tool_names@)) {
            texts_view(old(rules)@).push(MCP_RULE@)
        } else {
            texts_view(old(rules)@)
        }),
{
    let ghost views = texts_view(tool_names@);
    let mut i: usize = 0;
    while i < tool_names.len()
        invariant
            i <= tool_names.len(),
            views == texts_view(tool_names@),
            rules@ == old(rules)@,
            forall|j: int| 0 <= j < i ==> !crate::text::contains(#[trigger] views[j], "__"@),
        decreases tool_names.len() - i,
    {
        assert(views[i as int] == tool_names@[i as int]@);
        if has_text(tool_names[i].as_str(), "__") {
            assert(any_connected(views));
            let ghost before = texts_view(rules@);
            let rule = MCP_RULE.to_owned();
            rules.push(rule);
            assert(texts_view(rules@) =~= before.push(rule@));
            return;
        }
        i += 1;
    }
}

// ---------------------------------------------------------------------------
// Descriptions
// ---------------------------------------------------------------------------

/// The name in the description of a tool.
pub open spec fn described_name(tool: JsonView) -> Option<Seq<char>> {
    match tool.get("function"@) {
        Some(func) => func.str_at("name"@),
        None => None,
    }
}

pub fn described_name_of(tool: &Json) -> (r: Option<&str>)
    ensures
        opt_str(r) == described_name(tool@),
{
    match tool.get("function") {
        Some(func) => func.str_at("name"),
        None => None,
    }
}

pub open spec fn or_nameless(name: Option<Seq<char>>) -> Seq<char> {
    match name {
        Some(n) => n,
        None => ""@,
    }
}

/// The descriptions of the tools that are not disabled.
pub open spec fn enabled_tools(tools: Seq<JsonView>, disabled: Seq<Seq<char>>) -> Seq<JsonView>
    decreases tools.len(),
{
    if tools.len() == 0 {
        Seq::empty()
    } else if disabled.contains(or_nameless(described_name(tools.last()))) {
        enabled_tools(tools.drop_last(), disabled)
    } else {
        enabled_tools(tools.drop_last(), disabled).push(tools.last())
    }
}

pub fn without_disabled(tools: &Vec<Json>, disabled: &Vec<String>) -> (r: Vec<Json>)
    ensures
        items_view(r@) == enabled_tools(items_view(tools@), texts_view(disabled@)),
{
    let ghost views = items_view(tools@);
    let mut r: Vec<Json> = Vec::new();
    let mut i: usize = 0;
    assert(items_view(r@) =~= Seq::empty());
    while i < tools.len()
        invariant
            i <= tools.len(),
            views == items_view(tools@),
            items_view(r@) == enabled_tools(views.take(i as int), texts_view(disabled@)),
        decreases tools.len() - i,
    {
        assert(views.take(i + 1).drop_last() =~= views.take(i as int));
        assert(views[i as int] == tools@[i as int]@);
        let name = match described_name_of(&tools[i]) {
            Some(n) => n,
            None => "",
        };
        if !holds_text(disabled, name) {
            let ghost so_far = items_view(r@);
            let tool = tools[i].clone();
            r.push(tool);
            assert(items_view(r@) =~= so_far.push(tool@));
        }
        i += 1;
    }
    assert(views.take(views.len() as int) =~= views);
    r
}

/// The description of this tool names its parameters.
pub open spec fn fully_described(tool: JsonView, name: Seq<char>) -> bool {
    &&& described_name(tool) == Some(name)
    &&& match tool.get("function"@)->0.get("parameters"@) {
        Some(parameters) => match parameters.get("properties"@) {
            Some(JsonView::Object(members)) => members.len() > 0,
            _ => false,
        },
        None => false,
    }
}

fn is_fully_described(tool: &Json, name: &str) -> (r: bool)
    ensures
        r == fully_described(tool@, name@),
{
    match tool.get("function") {
        Some(func) => match func.str_at("name") {
            Some(n) => same_text(n, name) && match func.get("parameters") {
                Some(parameters) => match parameters.get("properties") {
                    Some(properties) => match properties {
                        Json::Object(members) => members.len() > 0,
                        _ => false,
                    },
                    None => false,
                },
                None => false,
            },
            None => false,
        },
        None => false,
    }
}

/// Some description of this tool names its parameters.
pub open spec fn any_full(tools: Seq<JsonView>, name: Seq<char>) -> bool {
    exists|i: int| 0 <= i < tools.len() && fully_described(#[trigger] tools[i], name)
}

pub fn is_any_full(tools: &Vec<Json>, name: &str) -> (r: bool)
    ensures
        r == any_full(items_view(tools@), name@),
{
    let ghost views = items_view(tools@);
    let mut i: usize = 0;
    while i < tools.len()
        invariant
            i <= tools.len(),
            views == items_view(tools@),
            forall|j: int| 0 <= j < i ==> !fully_described(#[trigger] views[j], name@),
        decreases tools.len() - i,
    {
        assert(views[i as int] == tools@[i as int]@);
        if is_fully_described(&tools[i], name) {
            return true;
        }
        i += 1;
    }
    false
}

/// The descriptions of all tools but this one.
pub open spec fn others(tools: Seq<JsonView>, name: Seq<char>) -> Seq<JsonView>
    decreases tools.len(),
{
    if tools.len() == 0 {
        Seq::empty()
    } else if described_name(tools.last()) == Some(name) {
        others(tools.drop_last(), name)
    } else {
        others(tools.drop_last(), name).push(tools.last())
    }
}

/// The full description of a tool in place of a short one.
pub fn replace_description(tools: &Vec<Json>, name: &str, full: Json) -> (r: Vec<Json>)
    ensures
        items_view(r@) == others(items_view(tools@), name@).push(full@),
{
    let ghost views = items_view(tools@);
    let mut r: Vec<Json> = Vec::new();
    let mut i: usize = 0;
    assert(items_view(r@) =~= Seq::empty());
    while i < tools.len()
        invariant
            i <= tools.len(),
            views == items_view(tools@),
            items_view(r@) == others(views.take(i as int), name@),
        decreases tools.len() - i,
    {
        assert(views.take(i + 1).drop_last() =~= views.take(i as int));
        assert(views[i as int] == tools@[i as int]@);
        let is_it = match described_name_of(&tools[i]) {
            Some(n) => same_text(n, name),
            None => false,
        };
        if !is_it {
            let ghost so_far = items_view(r@);
            let tool = tools[i].clone();
            r.push(tool);
            assert(items_view(r@) =~= so_far.push(tool@));
        }
        i += 1;
    }
    assert(views.take(views.len() as int) =~= views);
    let ghost so_far = items_view(r@);
    r.push(full);
    assert(items_view(r@) =~= so_far.push(full@));
    r
}

// ---------------------------------------------------------------------------
// Switches
// ---------------------------------------------------------------------------

/// The names that are switched off among the members.
pub open spec fn switched_off(members: Seq<(Seq<char>, JsonView)>) -> Seq<Seq<char>>
    decreases members.len(),
{
    if members.len() == 0 {
        Seq::empty()
    } else if members.last().1 == JsonView::Bool(false) {
        switched_off(members.drop_last()).push(members.last().0)
    } else {
        switched_off(members.drop_last())
    }
}

/// The names that are switched off in a category of the switches.
pub open spec fn disabled_in(switches: JsonView, category: Seq<char>) -> Seq<Seq<char>> {
    match switches.get(category) {
        Some(JsonView::Object(members)) => switched_off(members),
        _ => Seq::empty(),
    }
}

pub fn disabled_names(switches: &Json, category: &str) -> (r: Vec<String>)
    ensures
        texts_view(r@) == disabled_in(switches@, category@),
{
    let mut r: Vec<String> = Vec::new();
    assert(texts_view(r@) =~= Seq::empty());
    if let Some(found) = switches.get(category) {
        if let Json::Object(members) = found {
            let ghost views = members_view(members@);
            let mut i: usize = 0;
            while i < members.len()
                invariant
                    i <= members.len(),
                    views == members_view(members@),
                    texts_view(r@) == switched_off(views.take(i as int)),
                decreases members.len() - i,
            {
                assert(views.take(i + 1).drop_last() =~= views.take(i as int));
                assert(views[i as int] == (members@[i as int].0@, members@[i as int].1@));
                let off = match &members[i].1 {
                    Json::Bool(b) => !*b,
                    _ => false,
                };
                if off {
                    let ghost so_far = texts_view(r@);
                    let name = members[i].0.clone();
                    r.push(name);
                    assert(texts_view(r@) =~= so_far.push(name@));
                }
                i += 1;
            }
            assert(views.take(views.len() as int) =~= views);
        }
    }
    r
}

/// The names that are switched off, from what the file of the switches holds; none where there is
/// no file or no JSON in it.
pub fn load_disabled_toggles(content: Option<&str>, category: &str) -> (r: Vec<String>)
    ensures
        texts_view(r@) == (match content {
            Some(text) => match json_parsed(text@) {
                Some(switches) => disabled_in(switches, category@),
                None => Seq::empty(),
            },
            None => Seq::empty(),
        }),
{
    if let Some(text) = content {
        if let Some(switches) = parse(text) {
            return disabled_names(&switches, category);
        }
    }
    let r: Vec<String> = Vec::new();
    assert(texts_view(r@) =~= Seq::empty());
    r
}

// ---------------------------------------------------------------------------
// Agents
// ---------------------------------------------------------------------------

pub open spec fn some_name(text: Option<Seq<char>>) -> Option<Seq<char>> {
    match text {
        Some(s) if trim(s).len() > 0 => Some(trim(s)),
        _ => None,
    }
}

fn some_name_of(text: Option<&str>) -> (r: Option<String>)
    ensures
        opt_text(r) == some_name(opt_str(text)),
{
    match text {
        Some(s) => {
            let chars = chars_of(s);
            let name = trim_chars(chars.as_slice());
            if name.len() > 0 {
                Some(text_of(name))
            } else {
                None
            }
        },
        None => None,
    }
}

/// The agent that a message is routed to.
pub fn resolve_routed_agent_id(metadata: &Json) -> (r: Option<String>)
    ensures
        opt_text(r) == some_name(metadata@.str_at("route_agent_id"@)),
{
    some_name_of(metadata.str_at("route_agent_id"))
}

/// The metadata that keep the agent in the messages of a subagent.
pub open spec fn agent_metadata(agent_id: Option<Seq<char>>) -> JsonView {
    match some_name(agent_id) {
        Some(id) => JsonView::Object(seq![("route_agent_id"@, JsonView::Str(id))]),
        None => JsonView::Null,
    }
}

pub fn build_subagent_metadata(agent_id: Option<&str>) -> (r: Json)
    ensures
        r@ == agent_metadata(opt_str(agent_id)),
{
    match some_name_of(agent_id) {
        Some(id) => object1("route_agent_id", Json::Str(id)),
        None => Json::Null,
    }
}

/// A message that a subagent writes is routed to the agent that the subagent was started by.
pub proof fn law_subagent_keeps_agent(agent_id: Seq<char>)
    ensures
        some_name(agent_metadata(Some(agent_id)).str_at("route_agent_id"@)) == some_name(
            Some(agent_id),
        ),
{
    let m = agent_metadata(Some(agent_id));
    match some_name(Some(agent_id)) {
        Some(id) => {
            assert(m.str_at("route_agent_id"@) == Some(id));
            crate::text::lemma_trim_again(agent_id);
        },
        None => {},
    }
}

} // verus!
