//! What holds of the requests that are sent to a model.

use crate::compress::{clean_start, compressed, law_safe_start, safe_start};
use crate::history::{
    estimate, head_tail, history_tokens, message_tokens, trimmed_message, trimmed_messages,
};
use crate::history_laws::{law_newest_rounds_stay, rounds_from};
use crate::prompt::{
    chat_channel, disabled_section, history_budget, image_blocks, memory_section,
    multimodal_message, path_lines, request_messages, rule_lines, section, skill_section,
    system_prompt, tools_section, user_message, user_text, ActiveSkillContext, InteractionMode,
    Memory, PromptSources, CORE_SCOPE, EVOLVED_HEAD, MCP_HINT, NO_TOOLS, ONLY_THESE_TOOLS,
    SKILL_WITHOUT_PROMPT, SKILL_WITH_PROMPT, TOOLS_HEAD,
};
use crate::text::{join, occurs_at, opt_text};
use crate::types::{text_message, MessageView};
use vstd::prelude::*;

verus! {

// ---------------------------------------------------------------------------
// The messages
// ---------------------------------------------------------------------------

/// What is left for the history is the context without the prompt, the message, the answer and a
/// reserve; nothing is left where they fill it.
pub proof fn law_room_for_the_history(
    system: Seq<char>,
    user: MessageView,
    max_context: nat,
    max_tokens: nat,
)
    requires
        max_context <= usize::MAX,
    ensures
        ({
            let taken = estimate(system) + message_tokens(user) + max_tokens + 500;
            &&& taken <= max_context ==> history_budget(max_context, max_tokens, system, user)
                + taken == max_context
            &&& taken >= max_context ==> history_budget(max_context, max_tokens, system, user) == 0
        }),
{
}

/// Off the chat channels a request is the system prompt, the compressed history from its first
/// clean position `k` to its end, and the message of the user.
pub proof fn law_request_holds_the_compressed_history(
    system: Seq<char>,
    history: Seq<MessageView>,
    user: MessageView,
    channel: Seq<char>,
    max_context: nat,
    max_tokens: nat,
    k: int,
)
    requires
        !chat_channel(channel),
        ({
            let short = compressed(
                history,
                history_budget(max_context, max_tokens, system, user),
            );
            &&& 0 <= k <= short.len()
            &&& k < short.len() ==> clean_start(short, k)
            &&& forall|j: int| 0 <= j < k ==> !#[trigger] clean_start(short, j)
        }),
    ensures
        request_messages(system, history, user, channel, max_context, max_tokens) == seq![
            text_message("system"@, system),
        ] + compressed(history, history_budget(max_context, max_tokens, system, user)).skip(k)
            + seq![user],
{
    let short = compressed(history, history_budget(max_context, max_tokens, system, user));
    law_safe_start(short);
    let s = safe_start(short);
    if s < k {
        assert(!clean_start(short, s));
    } else if k < s {
        assert(!clean_start(short, k));
    }
    assert(request_messages(system, history, user, channel, max_context, max_tokens) =~= seq![
        text_message("system"@, system),
    ] + short.skip(k) + seq![user]);
}

/// Where a conversation of at most six rounds of short messages fits into the context together
/// with the prompt, the message and the answer, all of it is sent, in order, between the prompt and
/// the message.
pub proof fn law_request_holds_the_whole_history(
    system: Seq<char>,
    history: Seq<MessageView>,
    user: MessageView,
    channel: Seq<char>,
    max_context: nat,
    max_tokens: nat,
)
    requires
        !chat_channel(channel) || history.len() < 24,
        max_context <= usize::MAX,
        history.len() > 0,
        history[0].role == "user"@,
        rounds_from(history, 0) <= 6,
        forall|i: int| 0 <= i < history.len() ==> trimmed_message(#[trigger] history[i])
            == history[i],
        history_tokens(history) + estimate(system) + message_tokens(user) + max_tokens + 500
            < max_context,
    ensures
        request_messages(system, history, user, channel, max_context, max_tokens) == seq![
            text_message("system"@, system),
        ] + history + seq![user],
{
    reveal_strlit("user");
    reveal_strlit("tool");
    reveal_strlit("assistant");
    assert("user"@[0] == 'u' && "tool"@[0] == 't' && "assistant"@[0] == 'a');
    let budget = history_budget(max_context, max_tokens, system, user);
    assert(trimmed_messages(history) =~= history);
    assert(history.skip(0) =~= history);
    law_newest_rounds_stay(history, budget, 0);
    let short = compressed(history, budget);
    assert(short == history);
    law_safe_start(short);
    assert(clean_start(short, 0));
    assert(safe_start(short) == 0);
    assert(request_messages(system, history, user, channel, max_context, max_tokens) =~= seq![
        text_message("system"@, system),
    ] + history + seq![user]);
}

/// On a chat channel a longer request keeps the prompt, the last twenty-four messages before the
/// user's and the user's; a shorter one is as on any other channel.
pub proof fn law_chat_request_is_cut(
    system: Seq<char>,
    history: Seq<MessageView>,
    user: MessageView,
    chat: Seq<char>,
    other: Seq<char>,
    max_context: nat,
    max_tokens: nat,
)
    requires
        chat_channel(chat),
        !chat_channel(other),
    ensures
        ({
            let cut = request_messages(system, history, user, chat, max_context, max_tokens);
            let all = request_messages(system, history, user, other, max_context, max_tokens);
            &&& all.len() <= 25 ==> cut == all
            &&& all.len() > 25 ==> cut == seq![all[0]] + all.skip(all.len() - 25)
        }),
{
    let cut = request_messages(system, history, user, chat, max_context, max_tokens);
    let all = request_messages(system, history, user, other, max_context, max_tokens);
    if all.len() > 25 {
        assert(cut =~= seq![all[0]] + all.skip(all.len() - 25));
    }
}

// ---------------------------------------------------------------------------
// The message of the user
// ---------------------------------------------------------------------------

/// The images of a message are shown in order, one behind the other; what could not be read is left
/// out.
pub proof fn law_images_in_order(a: Seq<Option<Seq<char>>>, b: Seq<Option<Seq<char>>>, url: Seq<char>)
    ensures
        image_blocks(a + b) == image_blocks(a) + image_blocks(b),
        image_blocks(seq![None::<Seq<char>>]).len() == 0,
        image_blocks(seq![Some(url)]).len() == 1,
        image_blocks(seq![Some(url)])[0].str_at("type"@) == Some("image_url"@),
        image_blocks(seq![Some(url)])[0].get("image_url"@) is Some,
        image_blocks(seq![Some(url)])[0].get("image_url"@)->0.str_at("url"@) == Some(url),
    decreases b.len(),
{
    reveal_strlit("image_url");
    reveal_strlit("type");
    assert("image_url"@.len() == 9 && "type"@.len() == 4);
    reveal_with_fuel(crate::json::lookup, 3);
    reveal_with_fuel(image_blocks, 2);
    assert(seq![Some(url)].drop_last() =~= Seq::empty());
    assert(seq![None::<Seq<char>>].drop_last() =~= Seq::empty());
    let block = crate::prompt::image_block(url);
    assert(image_blocks(seq![Some(url)]) =~= seq![block]);
    let members = block->Object_0;
    assert(members.skip(1)[0] == members[1]);
    if b.len() == 0 {
        assert(a + b =~= a);
        assert(image_blocks(a) + image_blocks(b) =~= image_blocks(a));
    } else {
        law_images_in_order(a, b.drop_last(), url);
        assert((a + b).drop_last() =~= a + b.drop_last());
        assert((a + b).last() == b.last());
        assert(image_blocks(a + b) =~= image_blocks(a) + image_blocks(b));
    }
}

/// Without attachments a message says what the user said; a long one keeps both ends.
pub proof fn law_user_says_what_they_said(
    content: Seq<char>,
    images: Seq<Option<Seq<char>>>,
    pending: bool,
)
    ensures
        content.len() <= 4000 ==> user_message(content, Seq::empty(), images, pending)
            == text_message("user"@, content),
        content.len() > 4000 ==> user_message(content, Seq::empty(), images, pending)
            == text_message("user"@, head_tail(content, 4000)),
{
    assert(path_lines(Seq::empty()) =~= Seq::empty());
}

/// With attachments a message says what the user said and then where each of them lies, and shows
/// the images before that text.
pub proof fn law_attachments_are_named_and_shown(
    content: Seq<char>,
    media: Seq<Seq<char>>,
    images: Seq<Option<Seq<char>>>,
    i: int,
)
    requires
        0 < content.len() <= 4000,
        0 <= i < media.len(),
        media[i].len() > 0,
    ensures
        ({
            let text = user_text(content, media);
            &&& text.len() > content.len() && text.take(content.len() as int) == content
            &&& holds(text, "- `"@ + media[i] + "`"@)
            &&& user_message(content, media, images, true) == text_message("user"@, text)
            &&& user_message(content, media, images, false).role == "user"@
            &&& user_message(content, media, images, false).content is Array
            &&& ({
                let blocks = user_message(content, media, images, false).content->Array_0;
                &&& blocks.len() == image_blocks(images).len() + 1
                &&& blocks.drop_last() == image_blocks(images)
                &&& blocks.last().str_at("text"@) == Some(text)
                &&& blocks.last().str_at("type"@) == Some("text"@)
            })
        }),
{
    reveal_strlit("text");
    reveal_strlit("type");
    assert("text"@[0] == 't' && "text"@[1] == 'e' && "type"@[1] == 'y');
    reveal_with_fuel(crate::json::lookup, 3);
    let lines = path_lines(media);
    lemma_path_line(media, i);
    let k = choose|k: int| 0 <= k < lines.len() && lines[k] == "- `"@ + media[i] + "`"@;
    lemma_join_holds(lines, "\n"@, k);
    let text = user_text(content, media);
    let said = content + crate::prompt::ATTACHMENTS@;
    assert(text =~= said + join(lines, "\n"@));
    lemma_holds_behind(said, join(lines, "\n"@), lines[k]);
    reveal_strlit("- `");
    assert(lines[k].len() > 0);
    let at = choose|at: int| occurs_at(join(lines, "\n"@), lines[k], at);
    assert(text.take(content.len() as int) =~= content);
    let blocks = multimodal_message(text, images).content->Array_0;
    let block = crate::prompt::text_block(text);
    assert(blocks =~= image_blocks(images) + seq![block]);
    assert(blocks.drop_last() =~= image_blocks(images));
    let members = block->Object_0;
    assert(members.skip(1)[0] == members[1]);
}

proof fn lemma_path_line(media: Seq<Seq<char>>, i: int)
    requires
        0 <= i < media.len(),
        media[i].len() > 0,
    ensures
        exists|k: int|
            0 <= k < path_lines(media).len() && path_lines(media)[k] == "- `"@ + media[i] + "`"@,
    decreases media.len(),
{
    let lines = path_lines(media);
    if i == media.len() - 1 {
        assert(lines[lines.len() - 1] == "- `"@ + media[i] + "`"@);
    } else {
        let prior = media.drop_last();
        lemma_path_line(prior, i);
        let k = choose|k: int|
            0 <= k < path_lines(prior).len() && path_lines(prior)[k] == "- `"@ + prior[i] + "`"@;
        assert(lines[k] == path_lines(prior)[k]);
    }
}

// ---------------------------------------------------------------------------
// The system prompt
// ---------------------------------------------------------------------------

/// The text holds the piece.
pub open spec fn holds(text: Seq<char>, piece: Seq<char>) -> bool {
    exists|i: int| occurs_at(text, piece, i)
}

/// A piece stands in a text between what comes before and after it.
pub proof fn lemma_holds(a: Seq<char>, piece: Seq<char>, b: Seq<char>)
    ensures
        holds(a + piece + b, piece),
{
    let n = a.len() as int;
    assert((a + piece + b).subrange(n, n + piece.len()) =~= piece);
    assert(occurs_at(a + piece + b, piece, n));
}

pub proof fn lemma_holds_behind(a: Seq<char>, b: Seq<char>, piece: Seq<char>)
    requires
        holds(b, piece),
    ensures
        holds(a + b, piece),
{
    let i = choose|i: int| occurs_at(b, piece, i);
    let n = a.len() + i;
    assert((a + b).subrange(n, n + piece.len()) =~= b.subrange(i, i + piece.len()));
    assert(occurs_at(a + b, piece, n));
}

pub proof fn lemma_holds_before(a: Seq<char>, b: Seq<char>, piece: Seq<char>)
    requires
        holds(a, piece),
    ensures
        holds(a + b, piece),
{
    let i = choose|i: int| occurs_at(a, piece, i);
    assert((a + b).subrange(i, i + piece.len()) =~= a.subrange(i, i + piece.len()));
    assert(occurs_at(a + b, piece, i));
}

pub proof fn lemma_join_holds(parts: Seq<Seq<char>>, sep: Seq<char>, k: int)
    requires
        0 <= k < parts.len(),
    ensures
        holds(join(parts, sep), parts[k]),
    decreases parts.len(),
{
    if parts.len() == 1 {
        lemma_holds(Seq::empty(), parts[0], Seq::empty());
        assert(Seq::empty() + parts[0] + Seq::empty() =~= parts[0]);
    } else if k == parts.len() - 1 {
        lemma_holds(join(parts.drop_last(), sep) + sep, parts[k], Seq::empty());
        assert(join(parts.drop_last(), sep) + sep + parts[k] + Seq::empty() =~= join(parts, sep));
    } else {
        lemma_join_holds(parts.drop_last(), sep, k);
        lemma_holds_before(join(parts.drop_last(), sep), sep, parts[k]);
        lemma_holds_before(join(parts.drop_last(), sep) + sep, parts.last(), parts[k]);
    }
}

proof fn lemma_rule_held(rules: Seq<Seq<char>>, k: int)
    requires
        0 <= k < rules.len(),
    ensures
        holds(rule_lines(rules), rules[k]),
    decreases rules.len(),
{
    let before = rule_lines(rules.drop_last());
    let end = if rules.last().len() > 0 && rules.last().last() == '\n' {
        Seq::empty()
    } else {
        seq!['\n']
    };
    if k == rules.len() - 1 {
        lemma_holds(before, rules[k], end);
    } else {
        lemma_rule_held(rules.drop_last(), k);
        lemma_holds_before(before, rules.last(), rules[k]);
        lemma_holds_before(before + rules.last(), end, rules[k]);
    }
}

/// The parts of a prompt that stand in every mode: the guidelines, the personality and the
/// preferences under their headings, the time and the workspace, and the active skill with its
/// prompt, where that is asked for, and its fallback.
pub proof fn law_prompt_holds_its_sources(
    mode: InteractionMode,
    skill: Option<ActiveSkillContext>,
    disabled_skills: Seq<Seq<char>>,
    disabled_tools: Seq<Seq<char>>,
    sources: PromptSources,
    capability_brief: Option<Seq<char>>,
    tools: Seq<Seq<char>>,
    rules: Seq<Seq<char>>,
)
    ensures
        ({
            let prompt = system_prompt(
                mode,
                skill,
                disabled_skills,
                disabled_tools,
                sources,
                capability_brief,
                tools,
                rules,
            );
            &&& sources.guidelines is Some ==> holds(
                prompt,
                "## Agent Guidelines\n"@ + sources.guidelines->0@,
            )
            &&& sources.personality is Some ==> holds(
                prompt,
                "## Personality\n"@ + sources.personality->0@,
            )
            &&& sources.preferences is Some ==> holds(
                prompt,
                "## User Preferences\n"@ + sources.preferences->0@,
            )
            &&& holds(prompt, "Current time: "@ + sources.time@)
            &&& holds(prompt, "Workspace: "@ + sources.workspace@)
            &&& skill is Some ==> holds(prompt, "## Active Skill: "@ + skill->0.name@)
            &&& skill is Some && skill->0.inject_prompt_md ==> holds(prompt, skill->0.prompt_md@)
            &&& skill is Some && skill->0.fallback_message is Some ==> holds(
                prompt,
                "## Skill Fallback\n"@ + skill->0.fallback_message->0@,
            )
        }),
{
    let prompt = system_prompt(
        mode,
        skill,
        disabled_skills,
        disabled_tools,
        sources,
        capability_brief,
        tools,
        rules,
    );
    let p0 = crate::prompt::INTRO@;
    let p1 = section("## Agent Guidelines\n"@, opt_text(sources.guidelines));
    let p2 = section("## Personality\n"@, opt_text(sources.personality));
    let p3 = section("## User Preferences\n"@, opt_text(sources.preferences));
    let p4 = if mode == InteractionMode::Chat {
        Seq::empty()
    } else {
        tools_section(tools, rules)
    };
    let p5 = "Current time: "@ + sources.time@ + "\nWorkspace: "@ + sources.workspace@ + "\n\n"@;
    let p6 = if mode == InteractionMode::Chat {
        Seq::empty()
    } else {
        memory_section(sources.memory)
    };
    let p7 = disabled_section(disabled_skills, disabled_tools);
    let p8 = if mode == InteractionMode::Skill {
        section(EVOLVED_HEAD@, capability_brief)
    } else {
        Seq::empty()
    };
    let p9 = skill_section(skill);
    let p10 = if mode == InteractionMode::General {
        CORE_SCOPE@
    } else {
        Seq::empty()
    };
    assert(prompt == p0 + p1 + p2 + p3 + p4 + p5 + p6 + p7 + p8 + p9 + p10);
    if sources.guidelines is Some {
        let text = sources.guidelines->0@;
        lemma_section_holds("## Agent Guidelines\n"@, text);
        lemma_sum_holds(p0, p1, p2, p3, p4, p5, p6, p7, p8, p9, p10, "## Agent Guidelines\n"@ + text);
    }
    if sources.personality is Some {
        let text = sources.personality->0@;
        lemma_section_holds("## Personality\n"@, text);
        lemma_sum_holds(p0, p1, p2, p3, p4, p5, p6, p7, p8, p9, p10, "## Personality\n"@ + text);
    }
    if sources.preferences is Some {
        let text = sources.preferences->0@;
        lemma_section_holds("## User Preferences\n"@, text);
        lemma_sum_holds(p0, p1, p2, p3, p4, p5, p6, p7, p8, p9, p10, "## User Preferences\n"@ + text);
    }
    lemma_place(sources.time@, sources.workspace@);
    lemma_sum_holds(p0, p1, p2, p3, p4, p5, p6, p7, p8, p9, p10, "Current time: "@ + sources.time@);
    lemma_sum_holds(p0, p1, p2, p3, p4, p5, p6, p7, p8, p9, p10, "Workspace: "@ + sources.workspace@);
    if skill is Some {
        let s = skill->0;
        lemma_skill_holds(s);
        lemma_sum_holds(p0, p1, p2, p3, p4, p5, p6, p7, p8, p9, p10, "## Active Skill: "@ + s.name@);
        if s.inject_prompt_md {
            lemma_sum_holds(p0, p1, p2, p3, p4, p5, p6, p7, p8, p9, p10, s.prompt_md@);
        }
        if s.fallback_message is Some {
            let piece = "## Skill Fallback\n"@ + s.fallback_message->0@;
            lemma_sum_holds(p0, p1, p2, p3, p4, p5, p6, p7, p8, p9, p10, piece);
        }
    }
}

proof fn lemma_section_holds(heading: Seq<char>, text: Seq<char>)
    ensures
        holds(section(heading, Some(text)), heading + text),
{
    lemma_holds(Seq::empty(), heading + text, "\n\n"@);
    assert(Seq::empty() + (heading + text) =~= heading + text);
}

proof fn lemma_place(time: Seq<char>, workspace: Seq<char>)
    ensures
        ({
            let text = "Current time: "@ + time + "\nWorkspace: "@ + workspace + "\n\n"@;
            holds(text, "Current time: "@ + time) && holds(text, "Workspace: "@ + workspace)
        }),
{
    let text = "Current time: "@ + time + "\nWorkspace: "@ + workspace + "\n\n"@;
    let first = "Current time: "@ + time;
    let second = "Workspace: "@ + workspace;
    reveal_strlit("\nWorkspace: ");
    reveal_strlit("Workspace: ");
    assert("\nWorkspace: "@ =~= seq!['\n'] + "Workspace: "@);
    lemma_holds(Seq::empty(), first, "\nWorkspace: "@ + workspace + "\n\n"@);
    assert(text =~= Seq::empty() + first + ("\nWorkspace: "@ + workspace + "\n\n"@));
    lemma_holds(first + seq!['\n'], second, "\n\n"@);
    assert(text =~= first + seq!['\n'] + second + "\n\n"@);
}

proof fn lemma_skill_holds(s: ActiveSkillContext)
    ensures
        holds(skill_section(Some(s)), "## Active Skill: "@ + s.name@),
        s.inject_prompt_md ==> holds(skill_section(Some(s)), s.prompt_md@),
        s.fallback_message is Some ==> holds(
            skill_section(Some(s)),
            "## Skill Fallback\n"@ + s.fallback_message->0@,
        ),
{
    let title = "## Active Skill: "@ + s.name@;
    let body = if s.inject_prompt_md {
        SKILL_WITH_PROMPT@ + s.prompt_md@ + "\n\n"@
    } else {
        SKILL_WITHOUT_PROMPT@
    };
    let fallback = section("## Skill Fallback\n"@, opt_text(s.fallback_message));
    assert(skill_section(Some(s)) == title + "\n"@ + body + fallback);
    lemma_holds(Seq::empty(), title, "\n"@);
    assert(Seq::empty() + title + "\n"@ =~= title + "\n"@);
    lemma_holds_before(title + "\n"@, body, title);
    lemma_holds_before(title + "\n"@ + body, fallback, title);
    if s.inject_prompt_md {
        lemma_holds(SKILL_WITH_PROMPT@, s.prompt_md@, "\n\n"@);
        lemma_holds_behind(title + "\n"@, body, s.prompt_md@);
        lemma_holds_before(title + "\n"@ + body, fallback, s.prompt_md@);
    }
    if s.fallback_message is Some {
        lemma_section_holds("## Skill Fallback\n"@, s.fallback_message->0@);
        lemma_holds_behind(
            title + "\n"@ + body,
            fallback,
            "## Skill Fallback\n"@ + s.fallback_message->0@,
        );
    }
}

proof fn lemma_pair_holds(a: Seq<char>, b: Seq<char>, piece: Seq<char>)
    ensures
        holds(a, piece) || holds(b, piece) ==> holds(a + b, piece),
{
    if holds(a, piece) {
        lemma_holds_before(a, b, piece);
    }
    if holds(b, piece) {
        lemma_holds_behind(a, b, piece);
    }
}

/// What one of eleven parts holds, their sum holds.
proof fn lemma_sum_holds(
    p0: Seq<char>,
    p1: Seq<char>,
    p2: Seq<char>,
    p3: Seq<char>,
    p4: Seq<char>,
    p5: Seq<char>,
    p6: Seq<char>,
    p7: Seq<char>,
    p8: Seq<char>,
    p9: Seq<char>,
    p10: Seq<char>,
    piece: Seq<char>,
)
    requires
        holds(p1, piece) || holds(p2, piece) || holds(p3, piece) || holds(p4, piece) || holds(
            p5,
            piece,
        ) || holds(p6, piece) || holds(p8, piece) || holds(p9, piece),
    ensures
        holds(p0 + p1 + p2 + p3 + p4 + p5 + p6 + p7 + p8 + p9 + p10, piece),
{
    lemma_pair_holds(p0, p1, piece);
    lemma_pair_holds(p0 + p1, p2, piece);
    lemma_pair_holds(p0 + p1 + p2, p3, piece);
    lemma_pair_holds(p0 + p1 + p2 + p3, p4, piece);
    lemma_pair_holds(p0 + p1 + p2 + p3 + p4, p5, piece);
    lemma_pair_holds(p0 + p1 + p2 + p3 + p4 + p5, p6, piece);
    lemma_pair_holds(p0 + p1 + p2 + p3 + p4 + p5 + p6, p7, piece);
    lemma_pair_holds(p0 + p1 + p2 + p3 + p4 + p5 + p6 + p7, p8, piece);
    lemma_pair_holds(p0 + p1 + p2 + p3 + p4 + p5 + p6 + p7 + p8, p9, piece);
    lemma_pair_holds(p0 + p1 + p2 + p3 + p4 + p5 + p6 + p7 + p8 + p9, p10, piece);
}

/// A prompt for more than a chat names every tool that can be called and every rule of a tool, and
/// holds the memory under its heading.
pub proof fn law_prompt_names_tools_and_memory(
    mode: InteractionMode,
    skill: Option<ActiveSkillContext>,
    disabled_skills: Seq<Seq<char>>,
    disabled_tools: Seq<Seq<char>>,
    sources: PromptSources,
    capability_brief: Option<Seq<char>>,
    tools: Seq<Seq<char>>,
    rules: Seq<Seq<char>>,
)
    requires
        mode != InteractionMode::Chat,
    ensures
        ({
            let prompt = system_prompt(
                mode,
                skill,
                disabled_skills,
                disabled_tools,
                sources,
                capability_brief,
                tools,
                rules,
            );
            &&& forall|i: int| 0 <= i < tools.len() ==> holds(prompt, #[trigger] tools[i])
            &&& forall|i: int| 0 <= i < rules.len() ==> holds(prompt, #[trigger] rules[i])
            &&& sources.memory matches Memory::Store { brief: Some(text) } ==> text@.len() > 0
                ==> holds(prompt, "## Memory Brief\n"@ + text@)
            &&& sources.memory matches Memory::Files { long_term: Some(text), today: _ } ==> holds(
                prompt,
                "## Long-term Memory\n"@ + text@,
            )
            &&& sources.memory matches Memory::Files { long_term: _, today: Some(text) } ==> holds(
                prompt,
                "## Today's Notes\n"@ + text@,
            )
            &&& mode == InteractionMode::Skill && capability_brief is Some ==> holds(
                prompt,
                capability_brief->0,
            )
        }),
{
    let p0 = crate::prompt::INTRO@;
    let p1 = section("## Agent Guidelines\n"@, opt_text(sources.guidelines));
    let p2 = section("## Personality\n"@, opt_text(sources.personality));
    let p3 = section("## User Preferences\n"@, opt_text(sources.preferences));
    let p4 = tools_section(tools, rules);
    let p5 = "Current time: "@ + sources.time@ + "\nWorkspace: "@ + sources.workspace@ + "\n\n"@;
    let p6 = memory_section(sources.memory);
    let p7 = disabled_section(disabled_skills, disabled_tools);
    let p8 = if mode == InteractionMode::Skill {
        section(EVOLVED_HEAD@, capability_brief)
    } else {
        Seq::empty()
    };
    let p9 = skill_section(skill);
    let p10 = if mode == InteractionMode::General {
        CORE_SCOPE@
    } else {
        Seq::empty()
    };
    assert forall|i: int| 0 <= i < tools.len() implies holds(
        p0 + p1 + p2 + p3 + p4 + p5 + p6 + p7 + p8 + p9 + p10,
        #[trigger] tools[i],
    ) by {
        lemma_tool_named(tools, rules, i);
        lemma_sum_holds(p0, p1, p2, p3, p4, p5, p6, p7, p8, p9, p10, tools[i]);
    }
    assert forall|i: int| 0 <= i < rules.len() implies holds(
        p0 + p1 + p2 + p3 + p4 + p5 + p6 + p7 + p8 + p9 + p10,
        #[trigger] rules[i],
    ) by {
        lemma_rule_named(tools, rules, i);
        lemma_sum_holds(p0, p1, p2, p3, p4, p5, p6, p7, p8, p9, p10, rules[i]);
    }
    match sources.memory {
        Memory::Store { brief } => {
            if let Some(text) = brief {
                if text@.len() > 0 {
                    let piece = "## Memory Brief\n"@ + text@;
                    lemma_section_holds("## Memory Brief\n"@, text@);
                    lemma_sum_holds(p0, p1, p2, p3, p4, p5, p6, p7, p8, p9, p10, piece);
                }
            }
        },
        Memory::Files { long_term, today } => {
            let first = section("## Long-term Memory\n"@, opt_text(long_term));
            let second = section("## Today's Notes\n"@, opt_text(today));
            if let Some(text) = long_term {
                let piece = "## Long-term Memory\n"@ + text@;
                lemma_section_holds("## Long-term Memory\n"@, text@);
                lemma_pair_holds(first, second, piece);
                lemma_sum_holds(p0, p1, p2, p3, p4, p5, p6, p7, p8, p9, p10, piece);
            }
            if let Some(text) = today {
                let piece = "## Today's Notes\n"@ + text@;
                lemma_section_holds("## Today's Notes\n"@, text@);
                lemma_pair_holds(first, second, piece);
                lemma_sum_holds(p0, p1, p2, p3, p4, p5, p6, p7, p8, p9, p10, piece);
            }
        },
    }
    if mode == InteractionMode::Skill && capability_brief is Some {
        lemma_holds(EVOLVED_HEAD@, capability_brief->0, "\n\n"@);
        lemma_sum_holds(p0, p1, p2, p3, p4, p5, p6, p7, p8, p9, p10, capability_brief->0);
    }
}

proof fn lemma_tool_named(tools: Seq<Seq<char>>, rules: Seq<Seq<char>>, i: int)
    requires
        0 <= i < tools.len(),
    ensures
        holds(tools_section(tools, rules), tools[i]),
{
    lemma_join_holds(tools, ", "@, i);
    let lead = "- Current callable tools in this interaction: "@;
    let named = join(tools, ", "@);
    lemma_pair_holds(lead, named, tools[i]);
    lemma_pair_holds(lead + named, "\n"@, tools[i]);
    lemma_pair_holds(lead + named + "\n"@, ONLY_THESE_TOOLS@, tools[i]);
    let list = lead + named + "\n"@ + ONLY_THESE_TOOLS@;
    let hint = if rules.len() == 0 {
        MCP_HINT@
    } else {
        Seq::empty()
    };
    lemma_pair_holds(TOOLS_HEAD@, list, tools[i]);
    lemma_pair_holds(TOOLS_HEAD@ + list, rule_lines(rules), tools[i]);
    lemma_pair_holds(TOOLS_HEAD@ + list + rule_lines(rules), hint, tools[i]);
    lemma_pair_holds(TOOLS_HEAD@ + list + rule_lines(rules) + hint, "\n"@, tools[i]);
}

proof fn lemma_rule_named(tools: Seq<Seq<char>>, rules: Seq<Seq<char>>, i: int)
    requires
        0 <= i < rules.len(),
    ensures
        holds(tools_section(tools, rules), rules[i]),
{
    lemma_rule_held(rules, i);
    let list = if tools.len() == 0 {
        NO_TOOLS@
    } else {
        "- Current callable tools in this interaction: "@ + join(tools, ", "@) + "\n"@
            + ONLY_THESE_TOOLS@
    };
    let hint: Seq<char> = Seq::empty();
    lemma_pair_holds(TOOLS_HEAD@ + list, rule_lines(rules), rules[i]);
    lemma_pair_holds(TOOLS_HEAD@ + list + rule_lines(rules), hint, rules[i]);
    lemma_pair_holds(TOOLS_HEAD@ + list + rule_lines(rules) + hint, "\n"@, rules[i]);
}

/// What a chat is told depends on no tool, no rule and no memory.
pub proof fn law_chat_prompt_has_no_tools(
    skill: Option<ActiveSkillContext>,
    disabled_skills: Seq<Seq<char>>,
    disabled_tools: Seq<Seq<char>>,
    sources: PromptSources,
    brief: Option<Seq<char>>,
    tools: Seq<Seq<char>>,
    rules: Seq<Seq<char>>,
    other_memory: Memory,
    other_brief: Option<Seq<char>>,
    other_tools: Seq<Seq<char>>,
    other_rules: Seq<Seq<char>>,
)
    ensures
        system_prompt(
            InteractionMode::Chat,
            skill,
            disabled_skills,
            disabled_tools,
            sources,
            brief,
            tools,
            rules,
        ) == system_prompt(
            InteractionMode::Chat,
            skill,
            disabled_skills,
            disabled_tools,
            PromptSources { memory: other_memory, ..sources },
            other_brief,
            other_tools,
            other_rules,
        ),
{
}

} // verus!
