//! How much of a conversation fits into a model's context, and how the rest is shortened.

use crate::json::{insert_member, json_text, render, set_member};
use crate::text::{
    after, before, chars_of, decimal, decimal_text, join, join_texts, same_text, text_of,
    texts_view,
};
use crate::types::{
    calls_view, messages_view, ChatMessage, MessageView, ToolCallRequest, ToolCallView,
};
use crate::value::{group_json_view, items_view, Json, JsonView};
use vstd::prelude::*;

verus! {

broadcast use group_json_view;

// ---------------------------------------------------------------------------
// Estimates
// ---------------------------------------------------------------------------

/// A count as the machine holds it: it stops at the greatest number.
pub open spec fn capped(n: nat) -> nat {
    if n <= usize::MAX {
        n
    } else {
        usize::MAX as nat
    }
}

/// A character that ends a word: white space and punctuation of ASCII, and every character
/// beyond ASCII.
pub open spec fn ends_word(c: char) -> bool {
    ||| c == ' '
    ||| c == '\t'
    ||| c == '\n'
    ||| c == '\u{c}'
    ||| c == '\r'
    ||| '!' <= c <= '/'
    ||| ':' <= c <= '@'
    ||| '[' <= c <= '`'
    ||| '{' <= c <= '~'
    ||| '\u{80}' <= c
}

fn char_ends_word(c: char) -> (r: bool)
    ensures
        r == ends_word(c),
{
    c == ' ' || c == '\t' || c == '\n' || c == '\u{c}' || c == '\r' || ('!' <= c && c <= '/') || (':'
        <= c && c <= '@') || ('[' <= c && c <= '`') || ('{' <= c && c <= '~') || '\u{80}' <= c
}

/// The tokens of a word of so many letters: one, and one more for every four.
pub open spec fn word_tokens(letters: nat) -> nat {
    if letters == 0 {
        0
    } else {
        1 + letters / 4
    }
}

/// The tokens of a text that follows `letters` letters of a word.
pub open spec fn text_tokens(s: Seq<char>, letters: nat) -> nat
    decreases s.len(),
{
    if s.len() == 0 {
        word_tokens(letters)
    } else if ends_word(s[0]) {
        word_tokens(letters) + 1 + text_tokens(s.skip(1), 0)
    } else {
        text_tokens(s.skip(1), letters + 1)
    }
}

/// The estimate for a text: none where it is empty, otherwise its tokens and four for the frame.
pub open spec fn estimate(text: Seq<char>) -> nat {
    if text.len() == 0 {
        0
    } else {
        text_tokens(text, 0) + 4
    }
}

pub fn estimate_tokens(text: &str) -> (r: usize)
    ensures
        r == capped(estimate(text@)),
{
    if text.is_empty() {
        return 0;
    }
    let chars = chars_of(text);
    let mut tokens: usize = 0;
    let mut letters: usize = 0;
    let mut i: usize = 0;
    assert(chars@.skip(0) =~= chars@);
    while i < chars.len()
        invariant
            i <= chars.len(),
            tokens + letters <= i,
            tokens + text_tokens(chars@.skip(i as int), letters as nat) == text_tokens(chars@, 0),
        decreases chars.len() - i,
    {
        assert(chars@.skip(i as int).skip(1) =~= chars@.skip(i + 1));
        if char_ends_word(chars[i]) {
            if letters > 0 {
                tokens = tokens + 1 + letters / 4;
                letters = 0;
            }
            tokens = tokens + 1;
        } else {
            letters = letters + 1;
        }
        i += 1;
    }
    assert(chars@.skip(chars@.len() as int) =~= Seq::empty());
    if letters > 0 {
        tokens = tokens + 1 + letters / 4;
    }
    tokens.saturating_add(4)
}

/// The estimate for a part of a message: its text, a fixed amount for an image, a small one
/// for anything else.
pub open spec fn part_tokens(part: JsonView) -> nat {
    match part.str_at("text"@) {
        Some(text) => estimate(text),
        None => if part.get("image_url"@) is Some {
            200
        } else {
            10
        },
    }
}

pub open spec fn parts_tokens(parts: Seq<JsonView>) -> nat
    decreases parts.len(),
{
    if parts.len() == 0 {
        0
    } else {
        parts_tokens(parts.drop_last()) + part_tokens(parts.last())
    }
}

pub open spec fn call_tokens(call: ToolCallView) -> nat {
    estimate(call.name) + estimate(json_text(call.arguments)) + 10
}

pub open spec fn calls_tokens(calls: Seq<ToolCallView>) -> nat
    decreases calls.len(),
{
    if calls.len() == 0 {
        0
    } else {
        calls_tokens(calls.drop_last()) + call_tokens(calls.last())
    }
}

/// The estimate for a message: its content, its tool calls, and four for its role.
pub open spec fn message_tokens(message: MessageView) -> nat {
    (match message.content {
        JsonView::Str(text) => estimate(text),
        JsonView::Array(parts) => parts_tokens(parts),
        _ => 0,
    }) + (match message.tool_calls {
        Some(calls) => calls_tokens(calls),
        None => 0,
    }) + 4
}

/// The estimate for a run of messages.
pub open spec fn history_tokens(messages: Seq<MessageView>) -> nat
    decreases messages.len(),
{
    if messages.len() == 0 {
        0
    } else {
        history_tokens(messages.drop_last()) + message_tokens(messages.last())
    }
}

fn parts_tokens_of(parts: &Vec<Json>) -> (r: usize)
    ensures
        r == capped(parts_tokens(items_view(parts@))),
{
    let ghost views = items_view(parts@);
    let mut total: usize = 0;
    let mut i: usize = 0;
    while i < parts.len()
        invariant
            i <= parts.len(),
            views == items_view(parts@),
            total == capped(parts_tokens(views.take(i as int))),
        decreases parts.len() - i,
    {
        assert(views.take(i + 1).drop_last() =~= views.take(i as int));
        let part = &parts[i];
        let tokens: usize = match part.str_at("text") {
            Some(text) => estimate_tokens(text),
            None => if part.get("image_url").is_some() {
                200
            } else {
                10
            },
        };
        total = total.saturating_add(tokens);
        i += 1;
    }
    assert(views.take(views.len() as int) =~= views);
    total
}

fn calls_tokens_of(calls: &Vec<ToolCallRequest>) -> (r: usize)
    ensures
        r == capped(calls_tokens(calls_view(calls@))),
{
    let ghost views = calls_view(calls@);
    let mut total: usize = 0;
    let mut i: usize = 0;
    while i < calls.len()
        invariant
            i <= calls.len(),
            views == calls_view(calls@),
            total == capped(calls_tokens(views.take(i as int))),
        decreases calls.len() - i,
    {
        assert(views.take(i + 1).drop_last() =~= views.take(i as int));
        assert(views[i as int] == calls@[i as int]@);
        let name = estimate_tokens(calls[i].name.as_str());
        let arguments = estimate_tokens(render(&calls[i].arguments).as_str());
        let tokens = name.saturating_add(arguments).saturating_add(10);
        total = total.saturating_add(tokens);
        i += 1;
    }
    assert(views.take(views.len() as int) =~= views);
    total
}

pub fn estimate_message_tokens(message: &ChatMessage) -> (r: usize)
    ensures
        r == capped(message_tokens(message@)),
{
    let content: usize = match &message.content {
        Json::Str(text) => estimate_tokens(text.as_str()),
        Json::Array(parts) => parts_tokens_of(parts),
        _ => 0,
    };
    let calls: usize = match &message.tool_calls {
        Some(calls) => calls_tokens_of(calls),
        None => 0,
    };
    content.saturating_add(calls).saturating_add(4)
}

pub fn estimate_history_tokens(messages: &Vec<ChatMessage>) -> (r: usize)
    ensures
        r == capped(history_tokens(messages_view(messages@))),
{
    let ghost views = messages_view(messages@);
    let mut total: usize = 0;
    let mut i: usize = 0;
    while i < messages.len()
        invariant
            i <= messages.len(),
            views == messages_view(messages@),
            total == capped(history_tokens(views.take(i as int))),
        decreases messages.len() - i,
    {
        assert(views.take(i + 1).drop_last() =~= views.take(i as int));
        assert(views[i as int] == messages@[i as int]@);
        total = total.saturating_add(estimate_message_tokens(&messages[i]));
        i += 1;
    }
    assert(views.take(views.len() as int) =~= views);
    total
}

/// Messages count the same apart and together.
pub proof fn lemma_history_tokens_concat(a: Seq<MessageView>, b: Seq<MessageView>)
    ensures
        history_tokens(a + b) == history_tokens(a) + history_tokens(b),
    decreases b.len(),
{
    if b.len() == 0 {
        assert(a + b =~= a);
    } else {
        lemma_history_tokens_concat(a, b.drop_last());
        assert((a + b).drop_last() =~= a + b.drop_last());
    }
}

// ---------------------------------------------------------------------------
// Shortening texts and messages
// ---------------------------------------------------------------------------

/// At most `max` characters of a text: its first two thirds and its end, with a
/// note in between on how much is left out. A text that is short enough stays as it is.
pub open spec fn head_tail(s: Seq<char>, max: nat) -> Seq<char> {
    if max == 0 {
        Seq::empty()
    } else if s.len() <= max {
        s
    } else {
        let head = (max * 2) / 3;
        let tail = max - head;
        s.take(head as int) + ("\n...<trimmed "@ + decimal((s.len() - max) as nat)
            + " chars>...\n"@) + s.skip(s.len() - tail)
    }
}

pub fn trim_text_head_tail(s: &str, max_chars: usize) -> (r: String)
    ensures
        r@ == head_tail(s@, max_chars as nat),
{
    if max_chars == 0 {
        return String::new();
    }
    let chars = chars_of(s);
    if chars.len() <= max_chars {
        return s.to_owned();
    }
    let head: usize = max_chars / 3 * 2 + (max_chars % 3) * 2 / 3;
    assert(head == (max_chars * 2) / 3);
    let tail: usize = max_chars - head;
    let mut r = text_of(before(chars.as_slice(), head));
    r.push_str("\n...<trimmed ");
    r.push_str(decimal_text((chars.len() - max_chars) as u64).as_str());
    r.push_str(" chars>...\n");
    r.push_str(text_of(after(chars.as_slice(), chars.len() - tail)).as_str());
    assert(r@ =~= head_tail(s@, max_chars as nat));
    r
}

/// A shortened text starts as the whole does and ends as it does; together the two ends hold
/// as many characters as were allowed.
pub proof fn law_head_tail_keeps_both_ends(s: Seq<char>, max: nat)
    requires
        0 < max < s.len(),
    ensures
        head_tail(s, max).take(((max * 2) / 3) as int) == s.take(((max * 2) / 3) as int),
        head_tail(s, max).skip(head_tail(s, max).len() - (max - (max * 2) / 3)) == s.skip(
            s.len() - (max - (max * 2) / 3),
        ),
{
    let head = (max * 2) / 3;
    assert(head_tail(s, max).take(head as int) =~= s.take(head as int));
    assert(head_tail(s, max).skip(head_tail(s, max).len() - (max - head)) =~= s.skip(
        s.len() - (max - head),
    ));
}

/// How many characters of a message of this role are kept.
pub open spec fn role_limit(role: Seq<char>) -> nat {
    if role == "tool"@ {
        2400
    } else if role == "system"@ {
        8000
    } else {
        1400
    }
}

pub open spec fn trimmed_part(part: JsonView, max: nat) -> JsonView {
    match part {
        JsonView::Object(members) => if part.str_at("type"@) == Some("text"@) {
            match part.str_at("text"@) {
                Some(text) => JsonView::Object(
                    insert_member(members, "text"@, JsonView::Str(head_tail(text, max))),
                ),
                None => part,
            }
        } else {
            part
        },
        _ => part,
    }
}

/// A message whose texts are cut to the limit of its role.
pub open spec fn trimmed_message(message: MessageView) -> MessageView {
    let max = role_limit(message.role);
    MessageView {
        content: match message.content {
            JsonView::Str(text) => JsonView::Str(head_tail(text, max)),
            JsonView::Array(parts) => JsonView::Array(
                parts.map_values(|p: JsonView| trimmed_part(p, max)),
            ),
            other => other,
        },
        ..message
    }
}

pub open spec fn trimmed_messages(messages: Seq<MessageView>) -> Seq<MessageView> {
    messages.map_values(|m: MessageView| trimmed_message(m))
}

fn trim_part(part: &Json, max: usize) -> (r: Json)
    ensures
        r@ == trimmed_part(part@, max as nat),
{
    if let Json::Object(_) = part {
        if let Some(kind) = part.str_at("type") {
            if same_text(kind, "text") {
                if let Some(text) = part.str_at("text") {
                    let trimmed = trim_text_head_tail(text, max);
                    let copy = part.clone();
                    if let Json::Object(mut members) = copy {
                        set_member(&mut members, "text".to_owned(), Json::Str(trimmed));
                        return Json::Object(members);
                    }
                }
            }
        }
    }
    part.clone()
}

pub fn trim_chat_message(message: &ChatMessage) -> (r: ChatMessage)
    ensures
        r@ == trimmed_message(message@),
{
    let mut out = message.clone();
    let max: usize = if same_text(message.role.as_str(), "tool") {
        2400
    } else if same_text(message.role.as_str(), "system") {
        8000
    } else {
        1400
    };
    match &message.content {
        Json::Str(text) => {
            out.content = Json::Str(trim_text_head_tail(text.as_str(), max));
        },
        Json::Array(parts) => {
            let ghost all = items_view(parts@).map_values(
                |p: JsonView| trimmed_part(p, max as nat),
            );
            let mut new_parts: Vec<Json> = Vec::new();
            let mut i: usize = 0;
            while i < parts.len()
                invariant
                    i <= parts.len(),
                    all == items_view(parts@).map_values(
                        |p: JsonView| trimmed_part(p, max as nat),
                    ),
                    items_view(new_parts@) == all.take(i as int),
                decreases parts.len() - i,
            {
                let ghost so_far = items_view(new_parts@);
                let part = trim_part(&parts[i], max);
                assert(part@ == all[i as int]);
                new_parts.push(part);
                assert(items_view(new_parts@) =~= so_far.push(part@));
                assert(items_view(new_parts@) =~= all.take(i + 1));
                i += 1;
            }
            assert(items_view(new_parts@) =~= all);
            out.content = Json::Array(new_parts);
        },
        _ => {},
    }
    out
}

pub open spec fn texts_in_parts(parts: Seq<JsonView>) -> Seq<Seq<char>>
    decreases parts.len(),
{
    if parts.len() == 0 {
        Seq::empty()
    } else {
        match parts.last().str_at("text"@) {
            Some(text) => texts_in_parts(parts.drop_last()).push(text),
            None => texts_in_parts(parts.drop_last()),
        }
    }
}

/// The text of a message: its content, or the texts of its parts with `sep` between them.
pub open spec fn content_text(content: JsonView, sep: Seq<char>) -> Seq<char> {
    match content {
        JsonView::Str(text) => text,
        JsonView::Array(parts) => join(texts_in_parts(parts), sep),
        _ => Seq::empty(),
    }
}

pub fn content_text_of(content: &Json, sep: &str) -> (r: String)
    ensures
        r@ == content_text(content@, sep@),
{
    match content {
        Json::Str(text) => text.clone(),
        Json::Array(parts) => {
            let ghost views = items_view(parts@);
            let mut texts: Vec<String> = Vec::new();
            let mut i: usize = 0;
            assert(texts_view(texts@) =~= Seq::empty());
            while i < parts.len()
                invariant
                    i <= parts.len(),
                    views == items_view(parts@),
                    texts_view(texts@) == texts_in_parts(views.take(i as int)),
                decreases parts.len() - i,
            {
                assert(views.take(i + 1).drop_last() =~= views.take(i as int));
                if let Some(text) = parts[i].str_at("text") {
                    let ghost so_far = texts_view(texts@);
                    texts.push(text.to_owned());
                    assert(texts_view(texts@) =~= so_far.push(text@));
                }
                i += 1;
            }
            assert(views.take(views.len() as int) =~= views);
            join_texts(&texts, sep)
        },
        _ => String::new(),
    }
}

} // verus!
