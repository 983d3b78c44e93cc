//! Shortening a conversation while tools are still being called, and summing up a session.

use crate::json::json_parsed;
use crate::replies::{
    condense_web_fetch_result, condense_web_search_result, condensed_page, condensed_search,
};
use crate::text::{
    before, chars_of, join, join_texts, opt_text, same_text, text_of, texts_view,
};
use crate::types::{
    calls_view, copy_calls, copy_messages, messages_view, text_message, ChatMessage, MessageView,
    ToolCallRequest, ToolCallView,
};
use crate::value::{Json, JsonView};
use vstd::prelude::*;

verus! {

/// A text of at most `max` characters, with dots where it was cut.
pub open spec fn with_dots(s: Seq<char>, max: nat) -> Seq<char> {
    if s.len() > max {
        s.take(max as int) + "..."@
    } else {
        s
    }
}

pub fn cut_with_dots(s: &str, max: usize) -> (r: String)
    ensures
        r@ == with_dots(s@, max as nat),
{
    let chars = chars_of(s);
    if chars.len() > max {
        let mut r = text_of(before(chars.as_slice(), max));
        r.push_str("...");
        r
    } else {
        s.to_owned()
    }
}

/// The text of a content in short, or a stand-in where it is no text.
pub open spec fn short_content(content: JsonView, max: nat, otherwise: Seq<char>) -> Seq<char> {
    match content {
        JsonView::Str(s) => with_dots(s, max),
        _ => otherwise,
    }
}

fn short_content_of(content: &Json, max: usize, otherwise: &str) -> (r: String)
    ensures
        r@ == short_content(content@, max as nat, otherwise@),
{
    match content {
        Json::Str(s) => cut_with_dots(s.as_str(), max),
        _ => otherwise.to_owned(),
    }
}

// ---------------------------------------------------------------------------
// Shortening
// ---------------------------------------------------------------------------

pub open spec fn tool_name(message: MessageView) -> Seq<char> {
    match message.name {
        Some(n) => n,
        None => "tool"@,
    }
}

pub open spec fn note(name: Seq<char>, text: Seq<char>) -> Seq<char> {
    "["@ + name + ": "@ + text + "]"@
}

pub open spec fn result_note(id: Seq<char>, name: Seq<char>, text: Seq<char>) -> MessageView {
    MessageView {
        tool_call_id: Some(id),
        name: Some(name),
        ..text_message("tool"@, note(name, text))
    }
}

/// The result of a tool that follows its call, in short.
pub open spec fn short_result(message: MessageView) -> MessageView {
    result_note(
        message.tool_call_id->0,
        tool_name(message),
        short_content(message.content, 80, "ok"@),
    )
}

/// What is kept of the text of a result that does not follow its call: results of searching and
/// fetching keep more.
pub open spec fn kept_text(name: Seq<char>, content: JsonView) -> Seq<char> {
    match content {
        JsonView::Str(s) => {
            let parsed = json_parsed(s);
            if name == "web_search"@ {
                match (match parsed {
                    Some(v) => condensed_search(v),
                    None => None,
                }) {
                    Some(text) => text,
                    None => with_dots(s, 800),
                }
            } else if name == "web_fetch"@ {
                match (match parsed {
                    Some(v) => condensed_page(v),
                    None => None,
                }) {
                    Some(text) => text,
                    None => with_dots(s, 1000),
                }
            } else {
                with_dots(s, 160)
            }
        },
        _ => "ok"@,
    }
}

/// The result of a tool that does not follow its call, in short.
pub open spec fn short_orphan(message: MessageView) -> MessageView {
    result_note(
        match message.tool_call_id {
            Some(id) => id,
            None => Seq::empty(),
        },
        tool_name(message),
        kept_text(tool_name(message), message.content),
    )
}

pub open spec fn call_names(calls: Seq<ToolCallView>) -> Seq<Seq<char>> {
    calls.map_values(|c: ToolCallView| c.name)
}

/// A message that asks for tools, in short: the names of the tools, and the calls.
pub open spec fn short_request(calls: Seq<ToolCallView>) -> MessageView {
    MessageView {
        tool_calls: Some(calls),
        ..text_message("assistant"@, "[Called: "@ + join(call_names(calls), ", "@) + "]"@)
    }
}

/// The message is the result of one of the calls.
pub open spec fn answers(message: MessageView, calls: Seq<ToolCallView>) -> bool {
    &&& message.role == "tool"@
    &&& message.tool_call_id is Some
    &&& exists|k: int| 0 <= k < calls.len() && (#[trigger] calls[k]).id == message.tool_call_id->0
}

/// The first position from `j` on that holds no result of the calls.
pub open spec fn past_answers(
    messages: Seq<MessageView>,
    calls: Seq<ToolCallView>,
    j: int,
    end: int,
) -> int
    decreases end - j,
{
    if j < end && answers(messages[j], calls) {
        past_answers(messages, calls, j + 1, end)
    } else {
        j
    }
}

pub open spec fn short_results(messages: Seq<MessageView>, from: int, to: int) -> Seq<MessageView>
    decreases to - from,
{
    if from < to {
        seq![short_result(messages[from])] + short_results(messages, from + 1, to)
    } else {
        Seq::empty()
    }
}

/// The messages from `i` up to `end` in short; those of other roles are left out.
pub open spec fn short_middle(messages: Seq<MessageView>, i: int, end: int) -> Seq<MessageView>
    decreases end - i,
{
    if i >= end {
        Seq::empty()
    } else {
        let m = messages[i];
        if m.role == "user"@ {
            seq![text_message("user"@, short_content(m.content, 150, "(media)"@))] + short_middle(
                messages,
                i + 1,
                end,
            )
        } else if m.role == "assistant"@ {
            match m.tool_calls {
                Some(calls) => {
                    let next = past_answers(messages, calls, i + 1, end);
                    proof {
                        lemma_past_answers(messages, calls, i + 1, end);
                    }
                    seq![short_request(calls)] + short_results(messages, i + 1, next)
                        + short_middle(messages, next, end)
                },
                None => seq![
                    text_message("assistant"@, short_content(m.content, 200, Seq::empty())),
                ] + short_middle(messages, i + 1, end),
            }
        } else if m.role == "tool"@ {
            seq![short_orphan(m)] + short_middle(messages, i + 1, end)
        } else {
            short_middle(messages, i + 1, end)
        }
    }
}

pub proof fn lemma_past_answers(
    messages: Seq<MessageView>,
    calls: Seq<ToolCallView>,
    j: int,
    end: int,
)
    requires
        j <= end,
    ensures
        j <= past_answers(messages, calls, j, end) <= end,
    decreases end - j,
{
    if j < end && answers(messages[j], calls) {
        lemma_past_answers(messages, calls, j + 1, end);
    }
}

/// Where the messages that stay as they are start: not with the result of a tool, unless
/// nothing but results stands before it.
pub open spec fn tail_start(messages: Seq<MessageView>, at: int) -> int
    decreases at,
{
    if at > 1 && messages[at].role == "tool"@ {
        tail_start(messages, at - 1)
    } else {
        at
    }
}

/// A conversation of more than twelve messages in short: the first message and at least the last
/// ten stay as they are.
pub open spec fn shortened(messages: Seq<MessageView>) -> Seq<MessageView> {
    if messages.len() <= 12 {
        messages
    } else {
        let cut = tail_start(messages, messages.len() - 10);
        seq![messages[0]] + short_middle(messages, 1, cut) + messages.skip(cut)
    }
}

proof fn lemma_tail_start(messages: Seq<MessageView>, at: int)
    requires
        1 <= at,
    ensures
        1 <= tail_start(messages, at) <= at,
        tail_start(messages, at) > 1 ==> messages[tail_start(messages, at)].role != "tool"@,
    decreases at,
{
    if at > 1 && messages[at].role == "tool"@ {
        lemma_tail_start(messages, at - 1);
    }
}

proof fn lemma_short_results_len(messages: Seq<MessageView>, from: int, to: int)
    requires
        from <= to,
    ensures
        short_results(messages, from, to).len() == to - from,
    decreases to - from,
{
    if from < to {
        lemma_short_results_len(messages, from + 1, to);
    }
}

proof fn lemma_short_middle_len(messages: Seq<MessageView>, i: int, end: int)
    requires
        i <= end,
    ensures
        short_middle(messages, i, end).len() <= end - i,
    decreases end - i,
{
    if i < end {
        let m = messages[i];
        if m.role != "user"@ && m.role == "assistant"@ && m.tool_calls is Some {
            let calls = m.tool_calls->0;
            let next = past_answers(messages, calls, i + 1, end);
            lemma_past_answers(messages, calls, i + 1, end);
            lemma_short_results_len(messages, i + 1, next);
            lemma_short_middle_len(messages, next, end);
        } else {
            lemma_short_middle_len(messages, i + 1, end);
        }
    }
}

/// A shortened conversation starts with the same message, ends with the same ten messages at
/// least, and is no longer than before.
pub proof fn law_shortened_keeps_ends(messages: Seq<MessageView>)
    requires
        messages.len() > 0,
    ensures
        shortened(messages).len() <= messages.len(),
        shortened(messages)[0] == messages[0],
        forall|k: int|
            0 < k <= 10 && k <= messages.len() ==> #[trigger] shortened(messages)[shortened(
                messages,
            ).len() - k] == messages[messages.len() - k],
{
    if messages.len() > 12 {
        let cut = tail_start(messages, messages.len() - 10);
        lemma_tail_start(messages, messages.len() - 10);
        lemma_short_middle_len(messages, 1, cut);
        let short = shortened(messages);
        let front = seq![messages[0]] + short_middle(messages, 1, cut);
        assert forall|k: int| 0 < k <= 10 && k <= messages.len() implies #[trigger] short[
            short.len() - k] == messages[messages.len() - k] by {
            assert(short[short.len() - k] == messages.skip(cut)[short.len() - k - front.len()]);
        }
    }
}

/// A message in short has the role of the message, the calls that it asks for, and the id of the
/// call that it answers.
pub open spec fn stands_for(short: MessageView, message: MessageView) -> bool {
    &&& short.role == message.role
    &&& message.role == "assistant"@ ==> short.tool_calls == message.tool_calls
    &&& message.role == "tool"@ && message.tool_call_id is Some ==> short.tool_call_id
        == message.tool_call_id
}

/// The role is one of those in a conversation.
pub open spec fn speaks(role: Seq<char>) -> bool {
    role == "user"@ || role == "assistant"@ || role == "tool"@
}

proof fn lemma_short_results_stand_for(
    messages: Seq<MessageView>,
    calls: Seq<ToolCallView>,
    from: int,
    end: int,
)
    requires
        from <= end,
    ensures
        ({
            let to = past_answers(messages, calls, from, end);
            let short = short_results(messages, from, to);
            &&& from <= to <= end
            &&& short.len() == to - from
            &&& forall|k: int|
                0 <= k < short.len() ==> stands_for(#[trigger] short[k], messages[from + k])
        }),
    decreases end - from,
{
    reveal_strlit("assistant");
    reveal_strlit("tool");
    assert("assistant"@[0] == 'a' && "tool"@[0] == 't');
    if from < end && answers(messages[from], calls) {
        lemma_short_results_stand_for(messages, calls, from + 1, end);
        let to = past_answers(messages, calls, from, end);
        let rest = short_results(messages, from + 1, to);
        let short = short_results(messages, from, to);
        assert forall|k: int| 0 <= k < short.len() implies stands_for(
            #[trigger] short[k],
            messages[from + k],
        ) by {
            if k > 0 {
                assert(short[k] == rest[k - 1]);
            }
        }
    }
}

proof fn lemma_short_middle_stands_for(messages: Seq<MessageView>, i: int, end: int)
    requires
        0 <= i <= end <= messages.len(),
        forall|k: int| i <= k < end ==> speaks((#[trigger] messages[k]).role),
    ensures
        short_middle(messages, i, end).len() == end - i,
        forall|k: int|
            0 <= k < end - i ==> stands_for(
                #[trigger] short_middle(messages, i, end)[k],
                messages[i + k],
            ),
    decreases end - i,
{
    reveal_strlit("assistant");
    reveal_strlit("tool");
    reveal_strlit("user");
    assert("assistant"@[0] == 'a' && "tool"@[0] == 't' && "user"@[0] == 'u');
    if i < end {
        let m = messages[i];
        let short = short_middle(messages, i, end);
        if m.role == "assistant"@ && m.tool_calls is Some {
            let calls = m.tool_calls->0;
            let next = past_answers(messages, calls, i + 1, end);
            lemma_short_results_stand_for(messages, calls, i + 1, end);
            lemma_short_middle_stands_for(messages, next, end);
            let results = short_results(messages, i + 1, next);
            let rest = short_middle(messages, next, end);
            assert forall|k: int| 0 <= k < end - i implies stands_for(
                #[trigger] short[k],
                messages[i + k],
            ) by {
                if 0 < k && k < 1 + results.len() {
                    assert(short[k] == results[k - 1]);
                } else if k > 0 {
                    assert(short[k] == rest[k - 1 - results.len()]);
                }
            }
        } else {
            lemma_short_middle_stands_for(messages, i + 1, end);
            let rest = short_middle(messages, i + 1, end);
            assert forall|k: int| 0 <= k < end - i implies stands_for(
                #[trigger] short[k],
                messages[i + k],
            ) by {
                if k > 0 {
                    assert(short[k] == rest[k - 1]);
                }
            }
        }
    }
}

/// Message by message, a shortened conversation keeps who speaks, the calls that are asked for and
/// which call each result answers.
pub proof fn law_shortened_keeps_calls(messages: Seq<MessageView>)
    requires
        forall|k: int| 0 < k < messages.len() ==> speaks((#[trigger] messages[k]).role),
    ensures
        shortened(messages).len() == messages.len(),
        forall|k: int|
            0 <= k < messages.len() ==> stands_for(
                #[trigger] shortened(messages)[k],
                messages[k],
            ),
{
    if messages.len() > 12 {
        let cut = tail_start(messages, messages.len() - 10);
        lemma_tail_start(messages, messages.len() - 10);
        lemma_short_middle_stands_for(messages, 1, cut);
        let short = shortened(messages);
        let middle = short_middle(messages, 1, cut);
        assert forall|k: int| 0 <= k < messages.len() implies stands_for(
            #[trigger] short[k],
            messages[k],
        ) by {
            if 0 < k && k < cut {
                assert(short[k] == middle[k - 1]);
            } else if k > 0 {
                assert(short[k] == messages.skip(cut)[k - cut]);
            }
        }
    }
}

fn names_of(calls: &Vec<ToolCallRequest>) -> (r: Vec<String>)
    ensures
        texts_view(r@) == call_names(calls_view(calls@)),
{
    let ghost all = call_names(calls_view(calls@));
    let mut r: Vec<String> = Vec::new();
    let mut i: usize = 0;
    while i < calls.len()
        invariant
            i <= calls.len(),
            all == call_names(calls_view(calls@)),
            texts_view(r@) == all.take(i as int),
        decreases calls.len() - i,
    {
        let ghost so_far = texts_view(r@);
        let name = calls[i].name.clone();
        assert(name@ == all[i as int]);
        r.push(name);
        assert(texts_view(r@) =~= so_far.push(name@));
        assert(texts_view(r@) =~= all.take(i + 1));
        i += 1;
    }
    assert(texts_view(r@) =~= all);
    r
}

fn short_request_of(calls: &Vec<ToolCallRequest>) -> (r: ChatMessage)
    ensures
        r@ == short_request(calls_view(calls@)),
{
    let mut text = "[Called: ".to_owned();
    text.push_str(join_texts(&names_of(calls), ", ").as_str());
    text.push_str("]");
    let mut message = ChatMessage::assistant(text.as_str());
    message.tool_calls = Some(copy_calls(calls));
    message
}

fn tool_name_of(message: &ChatMessage) -> (r: String)
    ensures
        r@ == tool_name(message@),
{
    match &message.name {
        Some(name) => name.clone(),
        None => "tool".to_owned(),
    }
}

fn result_note_of(id: &str, name: String, text: &str) -> (r: ChatMessage)
    ensures
        r@ == result_note(id@, name@, text@),
{
    let mut content = "[".to_owned();
    content.push_str(name.as_str());
    content.push_str(": ");
    content.push_str(text);
    content.push_str("]");
    let mut message = ChatMessage::tool_result(id, content.as_str());
    message.name = Some(name);
    message
}

fn kept_text_of(name: &str, content: &Json) -> (r: String)
    ensures
        r@ == kept_text(name@, content@),
{
    match content {
        Json::Str(s) => if same_text(name, "web_search") {
            match condense_web_search_result(s.as_str()) {
                Some(text) => text,
                None => cut_with_dots(s.as_str(), 800),
            }
        } else if same_text(name, "web_fetch") {
            match condense_web_fetch_result(s.as_str()) {
                Some(text) => text,
                None => cut_with_dots(s.as_str(), 1000),
            }
        } else {
            cut_with_dots(s.as_str(), 160)
        },
        _ => "ok".to_owned(),
    }
}

fn short_orphan_of(message: &ChatMessage) -> (r: ChatMessage)
    ensures
        r@ == short_orphan(message@),
{
    let name = tool_name_of(message);
    let text = kept_text_of(name.as_str(), &message.content);
    let id = match &message.tool_call_id {
        Some(id) => id.clone(),
        None => String::new(),
    };
    result_note_of(id.as_str(), name, text.as_str())
}

fn is_answer(message: &ChatMessage, calls: &Vec<ToolCallRequest>) -> (r: bool)
    ensures
        r == answers(message@, calls_view(calls@)),
{
    if !same_text(message.role.as_str(), "tool") {
        return false;
    }
    match &message.tool_call_id {
        None => false,
        Some(id) => {
            let ghost views = calls_view(calls@);
            let mut k: usize = 0;
            while k < calls.len()
                invariant
                    k <= calls.len(),
                    views == calls_view(calls@),
                    message@.role == "tool"@,
                    message@.tool_call_id == Some(id@),
                    forall|m: int| 0 <= m < k ==> (#[trigger] views[m]).id != id@,
                decreases calls.len() - k,
            {
                assert(views[k as int] == calls@[k as int]@);
                if same_text(calls[k].id.as_str(), id.as_str()) {
                    assert(views[k as int].id == id@);
                    return true;
                }
                k += 1;
            }
            false
        },
    }
}

/// The messages from `from` up to `end` in short.
fn short_middle_of(messages: &Vec<ChatMessage>, from: usize, end: usize) -> (r: Vec<ChatMessage>)
    requires
        from <= end <= messages@.len(),
    ensures
        messages_view(r@) == short_middle(messages_view(messages@), from as int, end as int),
{
    let ghost views = messages_view(messages@);
    let mut r: Vec<ChatMessage> = Vec::new();
    let mut i: usize = from;
    assert(messages_view(r@) + short_middle(views, from as int, end as int) =~= short_middle(
        views,
        from as int,
        end as int,
    ));
    while i < end
        invariant
            from <= i <= end <= messages@.len(),
            views == messages_view(messages@),
            messages_view(r@) + short_middle(views, i as int, end as int) == short_middle(
                views,
                from as int,
                end as int,
            ),
        decreases end - i,
    {
        let ghost so_far = messages_view(r@);
        let message = &messages[i];
        assert(views[i as int] == message@);
        if same_text(message.role.as_str(), "user") {
            let short = ChatMessage::user(
                short_content_of(&message.content, 150, "(media)").as_str(),
            );
            r.push(short);
            assert(messages_view(r@) =~= so_far.push(short@));
            proof {
                lemma_push_front(so_far, short@, short_middle(views, i + 1, end as int));
            }
        } else if same_text(message.role.as_str(), "assistant") {
            if let Some(calls) = &message.tool_calls {
                let ghost call_views = calls_view(calls@);
                let ghost next = past_answers(views, call_views, i + 1, end as int);
                let request = short_request_of(calls);
                r.push(request);
                let ghost with_request = so_far.push(request@);
                assert(messages_view(r@) =~= with_request);
                let mut j: usize = i + 1;
                assert(with_request + short_results(views, j as int, next) =~= with_request
                    + short_results(views, i + 1, next));
                while j < end && is_answer(&messages[j], calls)
                    invariant
                        i < j <= end <= messages@.len(),
                        views == messages_view(messages@),
                        call_views == calls_view(calls@),
                        next == past_answers(views, call_views, j as int, end as int),
                        messages_view(r@) + short_results(views, j as int, next) == with_request
                            + short_results(views, i + 1, next),
                    decreases end - j,
                {
                    proof {
                        assert(views[j as int] == messages@[j as int]@);
                        lemma_past_answers(views, call_views, j + 1, end as int);
                    }
                    let ghost before = messages_view(r@);
                    if let Some(id) = &messages[j].tool_call_id {
                        let name = tool_name_of(&messages[j]);
                        let text = short_content_of(&messages[j].content, 80, "ok");
                        let short = result_note_of(id.as_str(), name, text.as_str());
                        assert(short@ == short_result(views[j as int]));
                        r.push(short);
                        assert(messages_view(r@) =~= before.push(short@));
                        proof {
                            lemma_push_front(before, short@, short_results(views, j + 1, next));
                        }
                    }
                    j += 1;
                }
                proof {
                    assert(j < end ==> views[j as int] == messages@[j as int]@);
                    assert(next == j);
                    assert(short_results(views, j as int, next) =~= Seq::empty());
                    assert(messages_view(r@) =~= with_request + short_results(views, i + 1, next));
                    let results = short_results(views, i + 1, next);
                    let rest = short_middle(views, next, end as int);
                    assert(so_far + (seq![request@] + results + rest) =~= with_request + results
                        + rest);
                }
                i = j;
                continue ;
            }
            proof {
                reveal_strlit("");
                assert(""@ =~= Seq::empty());
            }
            let short = ChatMessage::assistant(
                short_content_of(&message.content, 200, "").as_str(),
            );
            r.push(short);
            assert(messages_view(r@) =~= so_far.push(short@));
            proof {
                lemma_push_front(so_far, short@, short_middle(views, i + 1, end as int));
            }
        } else if same_text(message.role.as_str(), "tool") {
            let short = short_orphan_of(message);
            r.push(short);
            assert(messages_view(r@) =~= so_far.push(short@));
            proof {
                lemma_push_front(so_far, short@, short_middle(views, i + 1, end as int));
            }
        }
        i += 1;
    }
    assert(messages_view(r@) + Seq::empty() =~= messages_view(r@));
    r
}

proof fn lemma_push_front(a: Seq<MessageView>, x: MessageView, b: Seq<MessageView>)
    ensures
        a + (seq![x] + b) == a.push(x) + b,
{
    assert(a + (seq![x] + b) =~= a.push(x) + b);
}

/// Shortens a conversation of more than twelve messages.
pub fn compress_mid_loop(messages: &mut Vec<ChatMessage>)
    ensures
        messages_view(final(messages)@) == shortened(messages_view(old(messages)@)),
{
    if messages.len() <= 12 {
        return;
    }
    let ghost views = messages_view(messages@);
    let mut cut: usize = messages.len() - 10;
    while cut > 1 && same_text(messages[cut].role.as_str(), "tool")
        invariant
            1 <= cut < messages.len(),
            messages@ == old(messages)@,
            views == messages_view(messages@),
            tail_start(views, views.len() - 10) == tail_start(views, cut as int),
        decreases cut,
    {
        assert(views[cut as int] == messages@[cut as int]@);
        cut -= 1;
    }
    assert(views[cut as int] == messages@[cut as int]@);
    let mut middle = short_middle_of(messages, 1, cut);
    let mut tail = copy_messages(messages.as_slice(), cut, messages.len());
    let ghost middle_view = messages_view(middle@);
    let ghost tail_view = messages_view(tail@);
    assert(tail_view =~= views.skip(cut as int));
    let first = messages[0].clone();
    let mut all: Vec<ChatMessage> = Vec::new();
    all.push(first);
    all.append(&mut middle);
    all.append(&mut tail);
    assert(messages_view(all@) =~= seq![first@] + middle_view + tail_view);
    *messages = all;
}

// ---------------------------------------------------------------------------
// Summing up
// ---------------------------------------------------------------------------

/// The first position from `j` on that holds a message of the user.
pub open spec fn next_question(history: Seq<MessageView>, j: int) -> int
    decreases history.len() - j,
{
    if 0 <= j < history.len() && history[j].role != "user"@ {
        next_question(history, j + 1)
    } else {
        j
    }
}

/// The text of the last answer without tool calls among the messages from `from` up to `to`.
pub open spec fn last_reply(history: Seq<MessageView>, from: int, to: int) -> Seq<char>
    decreases to - from,
{
    if from >= to {
        Seq::empty()
    } else if history[to - 1].role == "assistant"@ && history[to - 1].tool_calls is None {
        short_content(history[to - 1].content, 150, Seq::empty())
    } else {
        last_reply(history, from, to - 1)
    }
}

/// One question and its answer on a line.
pub open spec fn summary_line(question: Seq<char>, reply: Seq<char>) -> Seq<char> {
    if reply.len() > 0 {
        "Q: "@ + question + " → A: "@ + reply
    } else {
        "Q: "@ + question + " → (tool interaction)"@
    }
}

pub proof fn lemma_next_question(history: Seq<MessageView>, j: int)
    requires
        0 <= j <= history.len(),
    ensures
        j <= next_question(history, j) <= history.len(),
    decreases history.len() - j,
{
    if j < history.len() && history[j].role != "user"@ {
        lemma_next_question(history, j + 1);
    }
}

/// A line for each question from position `i` on.
pub open spec fn summary_lines(history: Seq<MessageView>, i: int) -> Seq<Seq<char>>
    decreases history.len() - i,
{
    if i < 0 || i >= history.len() {
        Seq::empty()
    } else if history[i].role == "user"@ {
        let next = next_question(history, i + 1);
        proof {
            lemma_next_question(history, i + 1);
        }
        seq![
            summary_line(
                short_content(history[i].content, 100, "(media)"@),
                last_reply(history, i + 1, next),
            ),
        ] + summary_lines(history, next)
    } else {
        summary_lines(history, i + 1)
    }
}

/// As many of the last lines as fit into eight hundred characters, but at least the last.
pub open spec fn last_lines(lines: Seq<Seq<char>>) -> Seq<char>
    decreases lines.len(),
{
    if join(lines, "\n"@).len() > 800 && lines.len() > 1 {
        last_lines(lines.skip(1))
    } else {
        join(lines, "\n"@)
    }
}

/// The questions and answers of a session in short.
pub fn build_extractive_summary(history: &[ChatMessage]) -> (r: String)
    ensures
        r@ == last_lines(summary_lines(messages_view(history@), 0)),
{
    let ghost views = messages_view(history@);
    let mut lines: Vec<String> = Vec::new();
    let mut i: usize = 0;
    assert(texts_view(lines@) + summary_lines(views, 0) =~= summary_lines(views, 0));
    while i < history.len()
        invariant
            i <= history.len(),
            history@.len() == history.len(),
            views == messages_view(history@),
            texts_view(lines@) + summary_lines(views, i as int) == summary_lines(views, 0),
        decreases history.len() - i,
    {
        assert(views[i as int] == history@[i as int]@);
        if same_text(history[i].role.as_str(), "user") {
            let question = short_content_of(&history[i].content, 100, "(media)");
            let mut reply = String::new();
            let mut j: usize = i + 1;
            while j < history.len() && !same_text(history[j].role.as_str(), "user")
                invariant
                    i < j <= history.len(),
                    history@.len() == history.len(),
                    views == messages_view(history@),
                    next_question(views, i + 1) == next_question(views, j as int),
                    reply@ == last_reply(views, i + 1, j as int),
                decreases history.len() - j,
            {
                assert(views[j as int] == history@[j as int]@);
                if same_text(history[j].role.as_str(), "assistant")
                    && history[j].tool_calls.is_none() {
                    proof {
                        reveal_strlit("");
                        assert(""@ =~= Seq::empty());
                    }
                    reply = short_content_of(&history[j].content, 150, "");
                }
                j += 1;
            }
            assert(j < history@.len() ==> views[j as int] == history@[j as int]@);
            let mut line = "Q: ".to_owned();
            line.push_str(question.as_str());
            if !reply.as_str().is_empty() {
                line.push_str(" → A: ");
                line.push_str(reply.as_str());
            } else {
                line.push_str(" → (tool interaction)");
            }
            let ghost so_far = texts_view(lines@);
            lines.push(line);
            assert(texts_view(lines@) =~= so_far.push(line@));
            assert(so_far + (seq![line@] + summary_lines(views, j as int)) =~= so_far.push(line@)
                + summary_lines(views, j as int));
            i = j;
        } else {
            i += 1;
        }
    }
    assert(texts_view(lines@) + Seq::empty() =~= texts_view(lines@));
    let ghost all = texts_view(lines@);
    let mut summary = join_texts(&lines, "\n");
    while lines.len() > 1 && chars_of(summary.as_str()).len() > 800
        invariant
            summary@ == join(texts_view(lines@), "\n"@),
            last_lines(texts_view(lines@)) == last_lines(all),
        decreases lines.len(),
    {
        let ghost before = texts_view(lines@);
        lines.remove(0);
        assert(texts_view(lines@) =~= before.skip(1));
        summary = join_texts(&lines, "\n");
    }
    summary
}

/// How many messages make a session worth summing up.
pub const SUMMED_UP_FROM: usize = 6;

/// The summary that is kept of a session; none where the session is short or holds no question.
pub fn session_summary(history: &[ChatMessage]) -> (r: Option<String>)
    ensures
        opt_text(r) == ({
            let summary = last_lines(summary_lines(messages_view(history@), 0));
            if history@.len() >= SUMMED_UP_FROM && summary.len() > 0 {
                Some(summary)
            } else {
                None
            }
        }),
{
    if history.len() < SUMMED_UP_FROM {
        return None;
    }
    let summary = build_extractive_summary(history);
    if summary.as_str().is_empty() {
        None
    } else {
        Some(summary)
    }
}

} // verus!
