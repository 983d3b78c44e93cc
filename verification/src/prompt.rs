//! The system prompt and the messages of a request.

use crate::compress::{compress_history, compressed, find_safe_history_start, safe_start};
use crate::history::{
    capped, estimate, estimate_message_tokens, estimate_tokens, head_tail, message_tokens,
    trim_text_head_tail,
};
use crate::json::{object1, object2};
use crate::sorting::{sort_texts, sorted_texts};
use crate::text::{chars_of, join, join_texts, opt_text, same_text, texts_view};
use crate::types::{copy_messages, messages_view, text_message, ChatMessage, MessageView};
use crate::value::{group_json_view, items_view, Json, JsonView};
use vstd::prelude::*;

verus! {

broadcast use group_json_view;

/// What a conversation is about at the moment.
#[derive(Clone, Copy, PartialEq, Eq, Structural)]
pub enum InteractionMode {
    /// An installed skill handles it.
    Skill,
    /// Plain talk without tools.
    Chat,
    /// Everything else.
    General,
}

/// The skill that handles a conversation.
pub struct ActiveSkillContext {
    pub name: String,
    pub prompt_md: String,
    pub inject_prompt_md: bool,
    pub tools: Vec<String>,
    pub fallback_message: Option<String>,
}

/// What is remembered: a brief out of the memory store, or the memory files.
pub enum Memory {
    Store { brief: Option<String> },
    Files { long_term: Option<String>, today: Option<String> },
}

/// Which brief is asked of the memory store.
pub enum BriefRequest {
    /// So many entries of the long and of the short term.
    General { long_term: usize, short_term: usize },
    /// So many entries that go with what the user says.
    Related { count: usize },
}

/// The brief that goes with what the user says, or a general one where they say nothing.
pub fn brief_request(query: &str) -> (r: BriefRequest)
    ensures
        r == (if query@.len() == 0 {
            BriefRequest::General { long_term: 5, short_term: 3 }
        } else {
            BriefRequest::Related { count: 8 }
        }),
{
    if query.is_empty() {
        BriefRequest::General { long_term: 5, short_term: 3 }
    } else {
        BriefRequest::Related { count: 8 }
    }
}

/// What the system prompt takes from files, the clock and the memory.
pub struct PromptSources {
    pub guidelines: Option<String>,
    pub personality: Option<String>,
    pub preferences: Option<String>,
    pub time: String,
    pub workspace: String,
    pub memory: Memory,
}

/// How every system prompt starts.
pub const INTRO: &'static str = "You are blockcell, an AI assistant with access to tools.\n\n";

/// General rules on tools.
pub const TOOLS_HEAD: &'static str = "\n## Tools\n- Use tools when needed; otherwise answer directly.\n- Prefer fewer tool calls; batch related work.\n- Validate tool parameters against schema.\n- For filesystem tools such as `list_dir`, `read_file`, `write_file`, and `edit_file`, always pass the required `path` explicitly. Do not call them with `{}` and do not assume an implicit current directory.\n- When the user asks about agent nodes, node status, configured agents, or which agent owns which channel/account, use `agent_status` instead of guessing.\n- Never hardcode credentials — ask the user or read from config/memory.\n";

/// What is said where no tool can be called.
pub const NO_TOOLS: &'static str = "- There are no callable tools available in the current agent scope for this interaction. Do not claim tools outside the current scope.\n";

/// What is said behind the list of tools.
pub const ONLY_THESE_TOOLS: &'static str = "- When the user asks which tools/capabilities you have, answer only from the current callable tool list above. Do not mention globally registered tools that are not in the current agent scope.\n";

/// What is said where no tool brings a rule of its own.
pub const MCP_HINT: &'static str = "- **MCP (Model Context Protocol)**: blockcell **已内置 MCP 客户端支持**，可连接任意 MCP 服务器（SQLite、GitHub、文件系统、数据库等）。MCP 工具会以 `<serverName>__<toolName>` 格式出现在工具列表中。若用户询问 MCP 功能或当前工具列表中无 MCP 工具，说明尚未配置 MCP 服务器，请引导用户使用 `blockcell mcp add <template>` 快捷添加，或直接编辑 `~/.blockcell/mcp.json` / `~/.blockcell/mcp.d/*.json`。例如：`blockcell mcp add sqlite --db-path /tmp/test.db`，重启后即可使用。\n";

/// How the list of disabled items starts.
pub const DISABLED_HEAD: &'static str = "## ⚠️ Disabled Items\nThe following items have been disabled by the user via toggle.\nIMPORTANT: When user asks to 打开/开启/启用/enable any of these, you MUST call `toggle_manage` tool with action='set', category, name, enabled=true. Do NOT use list_skills.\n";

/// How the list of evolved tools starts.
pub const EVOLVED_HEAD: &'static str = "## Dynamic Evolved Tools\nThe following tools have been dynamically evolved and are available. Use `capability_evolve` tool with action='execute' to invoke them.\n";

/// What is said of an active skill whose prompt follows.
pub const SKILL_WITH_PROMPT: &'static str = "The user's input matches this installed skill. Follow the skill's instructions below. Prefer the skill's scoped tools and avoid unrelated tools.\n\n";

/// What is said of an active skill that runs a script.
pub const SKILL_WITHOUT_PROMPT: &'static str = "The user's input matches this installed skill. Use the skill's scoped tools and avoid unrelated tools.\n\n";

/// What is said of the tools of a general conversation.
pub const CORE_SCOPE: &'static str = "## Core Tool Scope\nYou currently have access to the minimal built-in tool kernel only. Specialized domain tools are activated by matching installed skills. Prefer the available core tools unless a skill is explicitly active. If the user's request would be better served by specialized domain capabilities that are not currently active, briefly remind the user that they can install the corresponding skills to extend blockcell.\n\n";

// ---------------------------------------------------------------------------
// Sections
// ---------------------------------------------------------------------------

/// A section under a heading; nothing where there is no content.
pub open spec fn section(heading: Seq<char>, content: Option<Seq<char>>) -> Seq<char> {
    match content {
        Some(text) => heading + text + "\n\n"@,
        None => Seq::empty(),
    }
}

fn push_section(prompt: &mut String, heading: &str, content: &Option<String>)
    ensures
        final(prompt)@ == old(prompt)@ + section(heading@, opt_text(*content)),
{
    let ghost before = prompt@;
    match content {
        Some(text) => {
            prompt.push_str(heading);
            prompt.push_str(text.as_str());
            prompt.push_str("\n\n");
            assert(prompt@ =~= before + section(heading@, Some(text@)));
        },
        None => {
            assert(before + Seq::empty() =~= before);
        },
    }
}

/// The rules of tools, each on a line of its own.
pub open spec fn rule_lines(rules: Seq<Seq<char>>) -> Seq<char>
    decreases rules.len(),
{
    if rules.len() == 0 {
        Seq::empty()
    } else {
        let rule = rules.last();
        rule_lines(rules.drop_last()) + rule + (if rule.len() > 0 && rule.last() == '\n' {
            Seq::empty()
        } else {
            seq!['\n']
        })
    }
}

/// What is said of tools: general rules, which tools there are, and their own rules.
pub open spec fn tools_section(tools: Seq<Seq<char>>, rules: Seq<Seq<char>>) -> Seq<char> {
    TOOLS_HEAD@ + (if tools.len() == 0 {
        NO_TOOLS@
    } else {
        "- Current callable tools in this interaction: "@ + join(tools, ", "@) + "\n"@
            + ONLY_THESE_TOOLS@
    }) + rule_lines(rules) + (if rules.len() == 0 {
        MCP_HINT@
    } else {
        Seq::empty()
    }) + "\n"@
}

fn rule_lines_of(rules: &Vec<String>) -> (r: String)
    ensures
        r@ == rule_lines(texts_view(rules@)),
{
    let ghost views = texts_view(rules@);
    let mut r = String::new();
    let mut i: usize = 0;
    while i < rules.len()
        invariant
            i <= rules.len(),
            views == texts_view(rules@),
            r@ == rule_lines(views.take(i as int)),
        decreases rules.len() - i,
    {
        assert(views.take(i + 1).drop_last() =~= views.take(i as int));
        assert(views[i as int] == rules@[i as int]@);
        let chars = chars_of(rules[i].as_str());
        let ghost so_far = r@;
        r.push_str(rules[i].as_str());
        if !(chars.len() > 0 && chars[chars.len() - 1] == '\n') {
            let ghost with_rule = r@;
            r.push('\n');
            assert(r@ =~= with_rule + seq!['\n']);
        } else {
            assert(r@ + Seq::empty() =~= r@);
        }
        i += 1;
    }
    assert(views.take(views.len() as int) =~= views);
    r
}

fn tools_section_of(tools: &Vec<String>, rules: &Vec<String>) -> (r: String)
    ensures
        r@ == tools_section(texts_view(tools@), texts_view(rules@)),
{
    let mut r = TOOLS_HEAD.to_owned();
    if tools.len() == 0 {
        r.push_str(NO_TOOLS);
    } else {
        let mut list = "- Current callable tools in this interaction: ".to_owned();
        list.push_str(join_texts(tools, ", ").as_str());
        list.push_str("\n");
        list.push_str(ONLY_THESE_TOOLS);
        r.push_str(list.as_str());
    }
    r.push_str(rule_lines_of(rules).as_str());
    if rules.len() == 0 {
        r.push_str(MCP_HINT);
    } else {
        assert(r@ + Seq::empty() =~= r@);
    }
    r.push_str("\n");
    r
}

pub open spec fn memory_section(memory: Memory) -> Seq<char> {
    match memory {
        Memory::Store { brief } => match brief {
            Some(text) if text@.len() > 0 => section("## Memory Brief\n"@, Some(text@)),
            _ => Seq::empty(),
        },
        Memory::Files { long_term, today } => section(
            "## Long-term Memory\n"@,
            opt_text(long_term),
        ) + section("## Today's Notes\n"@, opt_text(today)),
    }
}

fn memory_section_of(memory: &Memory) -> (r: String)
    ensures
        r@ == memory_section(*memory),
{
    let mut r = String::new();
    match memory {
        Memory::Store { brief } => {
            if let Some(text) = brief {
                if !text.as_str().is_empty() {
                    push_section(&mut r, "## Memory Brief\n", brief);
                    assert(r@ =~= section("## Memory Brief\n"@, Some(text@)));
                }
            }
        },
        Memory::Files { long_term, today } => {
            push_section(&mut r, "## Long-term Memory\n", long_term);
            assert(r@ =~= section("## Long-term Memory\n"@, opt_text(*long_term)));
            push_section(&mut r, "## Today's Notes\n", today);
        },
    }
    r
}

/// A line that lists the names in order; nothing where there is none.
pub open spec fn names_line(label: Seq<char>, names: Seq<Seq<char>>) -> Seq<char> {
    if names.len() == 0 {
        Seq::empty()
    } else {
        label + join(sorted_texts(names), ", "@) + "\n"@
    }
}

fn names_line_of(label: &str, names: &Vec<String>) -> (r: String)
    ensures
        r@ == names_line(label@, texts_view(names@)),
{
    if names.len() == 0 {
        return String::new();
    }
    let mut r = label.to_owned();
    r.push_str(join_texts(&sort_texts(names), ", ").as_str());
    r.push_str("\n");
    r
}

/// What is said of disabled skills and tools.
pub open spec fn disabled_section(skills: Seq<Seq<char>>, tools: Seq<Seq<char>>) -> Seq<char> {
    if skills.len() == 0 && tools.len() == 0 {
        Seq::empty()
    } else {
        DISABLED_HEAD@ + names_line("Disabled skills: "@, skills) + names_line(
            "Disabled tools: "@,
            tools,
        ) + "\n"@
    }
}

fn disabled_section_of(skills: &Vec<String>, tools: &Vec<String>) -> (r: String)
    ensures
        r@ == disabled_section(texts_view(skills@), texts_view(tools@)),
{
    if skills.len() == 0 && tools.len() == 0 {
        return String::new();
    }
    let mut r = DISABLED_HEAD.to_owned();
    r.push_str(names_line_of("Disabled skills: ", skills).as_str());
    r.push_str(names_line_of("Disabled tools: ", tools).as_str());
    r.push_str("\n");
    r
}

/// What is said of the active skill. Its prompt is part of it only where the skill asks for that.
pub open spec fn skill_section(skill: Option<ActiveSkillContext>) -> Seq<char> {
    match skill {
        None => Seq::empty(),
        Some(s) => "## Active Skill: "@ + s.name@ + "\n"@ + (if s.inject_prompt_md {
            SKILL_WITH_PROMPT@ + s.prompt_md@ + "\n\n"@
        } else {
            SKILL_WITHOUT_PROMPT@
        }) + section("## Skill Fallback\n"@, opt_text(s.fallback_message)),
    }
}

fn skill_section_of(skill: &ActiveSkillContext) -> (r: String)
    ensures
        r@ == skill_section(Some(*skill)),
{
    let mut r = "## Active Skill: ".to_owned();
    r.push_str(skill.name.as_str());
    r.push_str("\n");
    if skill.inject_prompt_md {
        let mut text = SKILL_WITH_PROMPT.to_owned();
        text.push_str(skill.prompt_md.as_str());
        text.push_str("\n\n");
        r.push_str(text.as_str());
    } else {
        r.push_str(SKILL_WITHOUT_PROMPT);
    }
    push_section(&mut r, "## Skill Fallback\n", &skill.fallback_message);
    r
}

/// The system prompt.
pub open spec fn system_prompt(
    mode: InteractionMode,
    skill: Option<ActiveSkillContext>,
    disabled_skills: Seq<Seq<char>>,
    disabled_tools: Seq<Seq<char>>,
    sources: PromptSources,
    capability_brief: Option<Seq<char>>,
    tools: Seq<Seq<char>>,
    rules: Seq<Seq<char>>,
) -> Seq<char> {
    INTRO@ + section("## Agent Guidelines\n"@, opt_text(sources.guidelines)) + section(
        "## Personality\n"@,
        opt_text(sources.personality),
    ) + section("## User Preferences\n"@, opt_text(sources.preferences)) + (if mode
        == InteractionMode::Chat {
        Seq::empty()
    } else {
        tools_section(tools, rules)
    }) + ("Current time: "@ + sources.time@ + "\nWorkspace: "@ + sources.workspace@ + "\n\n"@) + (
    if mode == InteractionMode::Chat {
        Seq::empty()
    } else {
        memory_section(sources.memory)
    }) + disabled_section(disabled_skills, disabled_tools) + (if mode == InteractionMode::Skill {
        section(EVOLVED_HEAD@, capability_brief)
    } else {
        Seq::empty()
    }) + skill_section(skill) + (if mode == InteractionMode::General {
        CORE_SCOPE@
    } else {
        Seq::empty()
    })
}

fn push_if(prompt: &mut String, condition: bool, text: &str)
    ensures
        final(prompt)@ == old(prompt)@ + (if condition {
            text@
        } else {
            Seq::empty()
        }),
{
    if condition {
        prompt.push_str(text);
    } else {
        assert(prompt@ + Seq::empty() =~= prompt@);
    }
}

// ---------------------------------------------------------------------------
// The message of the user
// ---------------------------------------------------------------------------

pub const ATTACHMENTS: &'static str = "\n\n[附件本地路径（发回给用户时请用此路径）]\n";

pub open spec fn path_lines(media: Seq<Seq<char>>) -> Seq<Seq<char>>
    decreases media.len(),
{
    if media.len() == 0 {
        Seq::empty()
    } else if media.last().len() == 0 {
        path_lines(media.drop_last())
    } else {
        path_lines(media.drop_last()).push("- `"@ + media.last() + "`"@)
    }
}

/// What the user said, cut to four thousand characters, and where the attachments lie.
pub open spec fn user_text(content: Seq<char>, media: Seq<Seq<char>>) -> Seq<char> {
    let said = head_tail(content, 4000);
    let lines = path_lines(media);
    if lines.len() == 0 {
        said
    } else {
        said + ATTACHMENTS@ + join(lines, "\n"@)
    }
}

pub open spec fn image_block(url: Seq<char>) -> JsonView {
    JsonView::Object(
        seq![
            ("image_url"@, JsonView::Object(seq![("url"@, JsonView::Str(url))])),
            ("type"@, JsonView::Str("image_url"@)),
        ],
    )
}

pub open spec fn text_block(text: Seq<char>) -> JsonView {
    JsonView::Object(
        seq![("text"@, JsonView::Str(text)), ("type"@, JsonView::Str("text"@))],
    )
}

pub open spec fn image_blocks(images: Seq<Option<Seq<char>>>) -> Seq<JsonView>
    decreases images.len(),
{
    if images.len() == 0 {
        Seq::empty()
    } else {
        match images.last() {
            Some(url) => image_blocks(images.drop_last()).push(image_block(url)),
            None => image_blocks(images.drop_last()),
        }
    }
}

/// A message with images, given as data URLs where they could be read, and a text.
pub open spec fn multimodal_message(text: Seq<char>, images: Seq<Option<Seq<char>>>) -> MessageView {
    MessageView {
        content: JsonView::Array(
            image_blocks(images) + (if text.len() == 0 {
                Seq::empty()
            } else {
                seq![text_block(text)]
            }),
        ),
        ..text_message("user"@, Seq::empty())
    }
}

/// The message of the user; with attachments it carries their images, unless its meaning is
/// still to be found out.
pub open spec fn user_message(
    content: Seq<char>,
    media: Seq<Seq<char>>,
    images: Seq<Option<Seq<char>>>,
    pending_intent: bool,
) -> MessageView {
    let text = user_text(content, media);
    if media.len() == 0 || pending_intent {
        text_message("user"@, text)
    } else {
        multimodal_message(text, images)
    }
}

pub open spec fn opt_texts(list: Seq<Option<String>>) -> Seq<Option<Seq<char>>> {
    list.map_values(|t: Option<String>| opt_text(t))
}

fn user_text_of(content: &str, media: &Vec<String>) -> (r: String)
    ensures
        r@ == user_text(content@, texts_view(media@)),
{
    let mut said = trim_text_head_tail(content, 4000);
    let ghost views = texts_view(media@);
    let mut lines: Vec<String> = Vec::new();
    let mut i: usize = 0;
    assert(texts_view(lines@) =~= Seq::empty());
    while i < media.len()
        invariant
            i <= media.len(),
            views == texts_view(media@),
            texts_view(lines@) == path_lines(views.take(i as int)),
        decreases media.len() - i,
    {
        assert(views.take(i + 1).drop_last() =~= views.take(i as int));
        assert(views[i as int] == media@[i as int]@);
        if !media[i].as_str().is_empty() {
            let ghost so_far = texts_view(lines@);
            let mut line = "- `".to_owned();
            line.push_str(media[i].as_str());
            line.push_str("`");
            lines.push(line);
            assert(texts_view(lines@) =~= so_far.push(line@));
        }
        i += 1;
    }
    assert(views.take(views.len() as int) =~= views);
    if lines.len() > 0 {
        said.push_str(ATTACHMENTS);
        said.push_str(join_texts(&lines, "\n").as_str());
    }
    said
}

/// A message with images, given as data URLs where they could be read, and a text.
pub fn build_multimodal_message(text: &str, images: &Vec<Option<String>>) -> (r: ChatMessage)
    ensures
        r@ == multimodal_message(text@, opt_texts(images@)),
{
    let ghost views = opt_texts(images@);
    let mut parts: Vec<Json> = Vec::new();
    let mut i: usize = 0;
    assert(items_view(parts@) =~= Seq::empty());
    while i < images.len()
        invariant
            i <= images.len(),
            views == opt_texts(images@),
            items_view(parts@) == image_blocks(views.take(i as int)),
        decreases images.len() - i,
    {
        assert(views.take(i + 1).drop_last() =~= views.take(i as int));
        assert(views[i as int] == opt_text(images@[i as int]));
        if let Some(url) = &images[i] {
            let ghost so_far = items_view(parts@);
            let block = object2(
                "image_url",
                object1("url", Json::text(url.as_str())),
                "type",
                Json::text("image_url"),
            );
            parts.push(block);
            assert(items_view(parts@) =~= so_far.push(block@));
        }
        i += 1;
    }
    assert(views.take(views.len() as int) =~= views);
    let ghost pictures = items_view(parts@);
    if !text.is_empty() {
        let block = object2("text", Json::text(text), "type", Json::text("text"));
        parts.push(block);
        assert(items_view(parts@) =~= pictures + seq![block@]);
    } else {
        assert(pictures + Seq::empty() =~= pictures);
    }
    let mut message = ChatMessage::user("");
    proof {
        reveal_strlit("");
        assert(""@ =~= Seq::empty());
    }
    message.content = Json::Array(parts);
    message
}

// ---------------------------------------------------------------------------
// The messages of a request
// ---------------------------------------------------------------------------

/// Channels on which people write to each other.
pub open spec fn chat_channel(channel: Seq<char>) -> bool {
    ||| channel == "wecom"@
    ||| channel == "feishu"@
    ||| channel == "lark"@
    ||| channel == "telegram"@
    ||| channel == "slack"@
    ||| channel == "discord"@
    ||| channel == "dingtalk"@
    ||| channel == "whatsapp"@
}

/// Whether people write to each other on this channel.
pub fn is_im_channel(channel: &str) -> (r: bool)
    ensures
        r == chat_channel(channel@),
{
    same_text(channel, "wecom") || same_text(channel, "feishu") || same_text(channel, "lark")
        || same_text(channel, "telegram") || same_text(channel, "slack") || same_text(
        channel,
        "discord",
    ) || same_text(channel, "dingtalk") || same_text(channel, "whatsapp")
}

pub open spec fn minus(a: nat, b: nat) -> nat {
    if a >= b {
        (a - b) as nat
    } else {
        0
    }
}

/// The tokens that are left for the history: what the context holds beyond the system prompt,
/// the message of the user, the answer and a margin of five hundred.
pub open spec fn history_budget(
    max_context: nat,
    max_tokens: nat,
    system: Seq<char>,
    user: MessageView,
) -> nat {
    minus(
        minus(
            minus(minus(max_context, capped(estimate(system))), capped(message_tokens(user))),
            max_tokens,
        ),
        500,
    )
}

/// The history that goes with a request: compressed to the budget, from a safe start on.
pub open spec fn usable_history(history: Seq<MessageView>, budget: nat) -> Seq<MessageView> {
    let short = compressed(history, budget);
    short.skip(safe_start(short))
}

/// Messages cut for a chat channel: the first, and the last twenty-four.
pub open spec fn cut_for_chat(messages: Seq<MessageView>) -> Seq<MessageView> {
    if messages.len() > 24 {
        seq![messages[0]] + messages.skip(messages.len() - 24)
    } else {
        messages
    }
}

/// The messages of a request.
pub open spec fn request_messages(
    system: Seq<char>,
    history: Seq<MessageView>,
    user: MessageView,
    channel: Seq<char>,
    max_context: nat,
    max_tokens: nat,
) -> Seq<MessageView> {
    let budget = history_budget(max_context, max_tokens, system, user);
    let all = seq![text_message("system"@, system)] + usable_history(history, budget);
    (if chat_channel(channel) {
        cut_for_chat(all)
    } else {
        all
    }).push(user)
}

/// Every request starts with the system prompt and ends with the message of the user; on a chat
/// channel it has at most twenty-six messages.
pub proof fn law_request_frame(
    system: Seq<char>,
    history: Seq<MessageView>,
    user: MessageView,
    channel: Seq<char>,
    max_context: nat,
    max_tokens: nat,
)
    ensures
        ({
            let all = request_messages(system, history, user, channel, max_context, max_tokens);
            &&& all.len() >= 2
            &&& all[0] == text_message("system"@, system)
            &&& all.last() == user
            &&& chat_channel(channel) ==> all.len() <= 26
        }),
{
}

/// Builds the prompts of a conversation.
pub struct ContextBuilder {
    pub max_context_tokens: usize,
    pub max_tokens: usize,
    pub capability_brief: Option<String>,
}

impl ContextBuilder {
    pub fn new(max_context_tokens: usize, max_tokens: usize) -> (r: Self)
        ensures
            r.max_context_tokens == max_context_tokens,
            r.max_tokens == max_tokens,
            r.capability_brief is None,
    {
        ContextBuilder { max_context_tokens, max_tokens, capability_brief: None }
    }

    /// Remembers what evolved tools there are; an empty text means none.
    pub fn set_capability_brief(&mut self, brief: String)
        ensures
            opt_text(final(self).capability_brief) == (if brief@.len() == 0 {
                None
            } else {
                Some(brief@)
            }),
            final(self).max_context_tokens == old(self).max_context_tokens,
            final(self).max_tokens == old(self).max_tokens,
    {
        if brief.as_str().is_empty() {
            self.capability_brief = None;
        } else {
            self.capability_brief = Some(brief);
        }
    }

    /// The system prompt.
    pub fn build_system_prompt_for_mode_with_channel(
        &self,
        mode: InteractionMode,
        active_skill: Option<&ActiveSkillContext>,
        disabled_skills: &Vec<String>,
        disabled_tools: &Vec<String>,
        sources: &PromptSources,
        available_tool_names: &Vec<String>,
        tool_prompt_rules: &Vec<String>,
    ) -> (r: String)
        ensures
            r@ == system_prompt(
                mode,
                match active_skill {
                    Some(skill) => Some(*skill),
                    None => None,
                },
                texts_view(disabled_skills@),
                texts_view(disabled_tools@),
                *sources,
                opt_text(self.capability_brief),
                texts_view(available_tool_names@),
                texts_view(tool_prompt_rules@),
            ),
    {
        let chat = mode == InteractionMode::Chat;
        let mut prompt = INTRO.to_owned();
        push_section(&mut prompt, "## Agent Guidelines\n", &sources.guidelines);
        push_section(&mut prompt, "## Personality\n", &sources.personality);
        push_section(&mut prompt, "## User Preferences\n", &sources.preferences);
        push_if(
            &mut prompt,
            !chat,
            tools_section_of(available_tool_names, tool_prompt_rules).as_str(),
        );
        let mut frame = "Current time: ".to_owned();
        frame.push_str(sources.time.as_str());
        frame.push_str("\nWorkspace: ");
        frame.push_str(sources.workspace.as_str());
        frame.push_str("\n\n");
        prompt.push_str(frame.as_str());
        push_if(&mut prompt, !chat, memory_section_of(&sources.memory).as_str());
        prompt.push_str(disabled_section_of(disabled_skills, disabled_tools).as_str());
        if mode == InteractionMode::Skill {
            push_section(&mut prompt, EVOLVED_HEAD, &self.capability_brief);
        } else {
            assert(prompt@ + Seq::empty() =~= prompt@);
        }
        match active_skill {
            Some(skill) => prompt.push_str(skill_section_of(skill).as_str()),
            None => {
                assert(prompt@ + Seq::empty() =~= prompt@);
            },
        }
        push_if(&mut prompt, mode == InteractionMode::General, CORE_SCOPE);
        prompt
    }

    /// The system prompt of a general conversation with nothing disabled and no tools.
    pub fn build_system_prompt(&self, sources: &PromptSources) -> (r: String)
        ensures
            r@ == system_prompt(
                InteractionMode::General,
                None,
                Seq::empty(),
                Seq::empty(),
                *sources,
                opt_text(self.capability_brief),
                Seq::empty(),
                Seq::empty(),
            ),
    {
        let none: Vec<String> = Vec::new();
        assert(texts_view(none@) =~= Seq::empty());
        self.build_system_prompt_for_mode_with_channel(
            InteractionMode::General,
            None,
            &none,
            &none,
            sources,
            &none,
            &none,
        )
    }

    /// The message of the user; `images` holds a data URL for each attachment that is an image.
    pub fn build_user_message(
        content: &str,
        media: &Vec<String>,
        images: &Vec<Option<String>>,
        pending_intent: bool,
    ) -> (r: ChatMessage)
        ensures
            r@ == user_message(
                content@,
                texts_view(media@),
                opt_texts(images@),
                pending_intent,
            ),
    {
        let text = user_text_of(content, media);
        if media.len() == 0 || pending_intent {
            ChatMessage::user(text.as_str())
        } else {
            build_multimodal_message(text.as_str(), images)
        }
    }

    /// The messages of a request, given its system prompt and the message of the user.
    pub fn build_messages_for_mode_with_channel(
        &self,
        system_prompt: &str,
        history: &[ChatMessage],
        user: ChatMessage,
        channel: &str,
    ) -> (r: Vec<ChatMessage>)
        ensures
            messages_view(r@) == request_messages(
                system_prompt@,
                messages_view(history@),
                user@,
                channel@,
                self.max_context_tokens as nat,
                self.max_tokens as nat,
            ),
    {
        let system_tokens = estimate_tokens(system_prompt);
        let user_tokens = estimate_message_tokens(&user);
        let budget = self.max_context_tokens.saturating_sub(system_tokens).saturating_sub(
            user_tokens,
        ).saturating_sub(self.max_tokens).saturating_sub(500);
        let short = compress_history(history, budget);
        let start = find_safe_history_start(short.as_slice());
        let mut tail = copy_messages(short.as_slice(), start, short.len());
        let ghost used = messages_view(tail@);
        assert(used =~= usable_history(messages_view(history@), budget as nat));
        let first = ChatMessage::system(system_prompt);
        let mut messages: Vec<ChatMessage> = Vec::new();
        messages.push(first);
        messages.append(&mut tail);
        let ghost all = seq![first@] + used;
        assert(messages_view(messages@) =~= all);
        if is_im_channel(channel) && messages.len() > 24 {
            let mut last = copy_messages(messages.as_slice(), messages.len() - 24, messages.len());
            let ghost end = messages_view(last@);
            assert(end =~= all.skip(all.len() - 24));
            let mut cut: Vec<ChatMessage> = Vec::new();
            cut.push(messages[0].clone());
            cut.append(&mut last);
            assert(messages_view(cut@) =~= seq![all[0]] + end);
            messages = cut;
        }
        let ghost before = messages_view(messages@);
        messages.push(user);
        assert(messages_view(messages@) =~= before.push(user@));
        messages
    }
}

// ---------------------------------------------------------------------------
// Writing skills
// ---------------------------------------------------------------------------

pub const EVOLUTION_ROLE: &'static str =
    "You are a skill evolution assistant. Follow instructions precisely.";

/// What a model is sent that works on a skill.
pub fn evolution_messages(prompt: &str) -> (r: Vec<ChatMessage>)
    ensures
        messages_view(r@) == seq![
            text_message("system"@, EVOLUTION_ROLE@),
            text_message("user"@, prompt@),
        ],
{
    let mut r: Vec<ChatMessage> = Vec::new();
    r.push(ChatMessage::system(EVOLUTION_ROLE));
    r.push(ChatMessage::user(prompt));
    assert(messages_view(r@) =~= seq![
        text_message("system"@, EVOLUTION_ROLE@),
        text_message("user"@, prompt@),
    ]);
    r
}

} // verus!
