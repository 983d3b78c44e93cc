//! What holds of a connection that is held open, and of answers that are kept aside.

use crate::config::ConfigView;
use crate::json::{law_insert_then_lookup, lookup};
use crate::prompt_laws::{
    holds, lemma_holds, lemma_holds_before, lemma_holds_behind, lemma_join_holds,
};
use crate::response_cache::{
    bare_id, cut, digit_count, items_in, list_item, others, preview_lines, recall_answer, stub_text,
    EntryView,
};
use crate::text::{decimal, is_digit, is_space, join, strip_prefix, trim};
use crate::text_laws::{law_prefix_is_stripped, law_trim, lemma_trim_tight, spaces, tight};
use crate::value::JsonView;
use crate::wecom_conn::{
    acknowledgement, answer_body, chat_of, frame_step, held_inbound, held_read, item_text,
    item_texts, may_write, mixed_summary, polled_message, requests_after, run_plan, sender_of,
    FrameView, LongConnEnvelope, LongConnMixed, LongConnMixedItem, LongConnMsgBody,
    LongConnOutboundView, RunPlan, PONG,
};
use crate::wecom_send::sent_kind;
use crate::wecom_webhook::allowed;
use vstd::prelude::*;

verus! {

// ---------------------------------------------------------------------------
// The connection
// ---------------------------------------------------------------------------

/// A ping is answered, a message is confirmed by the name of its request, and only a subscription
/// that was refused ends the connection.
pub proof fn law_frames_are_answered(envelope: LongConnEnvelope)
    ensures
        envelope.cmd@ == "ping"@ ==> frame_step(envelope) == Ok::<FrameView, Seq<char>>(
            FrameView::Send(PONG@),
        ),
        envelope.cmd@ == "aibot_msg_callback"@ && envelope.req_id is Some ==> frame_step(envelope)
            == Ok::<FrameView, Seq<char>>(
            FrameView::Message(Some(acknowledgement(envelope.req_id->0@))),
        ),
        envelope.cmd@ == "aibot_event_callback"@ && envelope.req_id is Some ==> frame_step(envelope)
            == Ok::<FrameView, Seq<char>>(FrameView::Send(acknowledgement(envelope.req_id->0@))),
        frame_step(envelope) is Err <==> envelope.cmd@ == "aibot_subscribe"@ && envelope.errcode
            is Some && envelope.errcode->0 != 0,
{
    reveal_strlit("ping");
    reveal_strlit("aibot_subscribe");
    reveal_strlit("aibot_msg_callback");
    reveal_strlit("aibot_event_callback");
    assert("ping"@.len() == 4 && "aibot_subscribe"@.len() == 15);
    assert("aibot_msg_callback"@.len() == 18 && "aibot_event_callback"@.len() == 20);
}

/// The request of a message is known for its chat, and the requests of other chats stay known.
pub proof fn law_request_is_known(
    requests: Map<Seq<char>, Seq<char>>,
    envelope: LongConnEnvelope,
    other: Seq<char>,
)
    requires
        envelope.cmd@ == "aibot_msg_callback"@,
        envelope.req_id is Some,
        chat_of(envelope.body@).len() > 0,
        other != chat_of(envelope.body@),
    ensures
        ({
            let after = requests_after(requests, envelope);
            &&& after.contains_key(chat_of(envelope.body@))
            &&& after[chat_of(envelope.body@)] == envelope.req_id->0@
            &&& after.contains_key(other) == requests.contains_key(other)
            &&& requests.contains_key(other) ==> after[other] == requests[other]
        }),
{
}

/// A message comes from the chat that it names, or else from that of its sender.
pub proof fn law_chat_of_a_message(
    body: JsonView,
    chat: Seq<char>,
    from: JsonView,
    user: Seq<char>,
)
    ensures
        body.str_at("chatid"@) == Some(chat) && chat.len() > 0 ==> chat_of(body) == chat,
        body.str_at("chatid"@) is None && body.get("from"@) == Some(from) && from.str_at("userid"@)
            == Some(user) ==> chat_of(body) == user,
{
}

/// An answer holds its text, or its file under its kind.
pub proof fn law_answer_holds_its_content(
    chat: Seq<char>,
    content: Seq<char>,
    stream: Seq<char>,
    media_id: Seq<char>,
    kind: Seq<char>,
    name: Seq<char>,
)
    ensures
        ({
            let body = answer_body(
                LongConnOutboundView::Text { chat_id: chat, content },
                stream,
            );
            &&& body.str_at("msgtype"@) == Some("stream"@)
            &&& body.get("stream"@) is Some
            &&& body.get("stream"@)->0.str_at("content"@) == Some(content)
            &&& body.get("stream"@)->0.str_at("id"@) == Some(stream)
        }),
        ({
            let body = answer_body(
                LongConnOutboundView::Media {
                    chat_id: chat,
                    media_id,
                    media_type: kind,
                    filename: name,
                },
                stream,
            );
            &&& body.str_at("msgtype"@) == Some(sent_kind(kind))
            &&& body.get(sent_kind(kind)) is Some
            &&& body.get(sent_kind(kind))->0.str_at("media_id"@) == Some(media_id)
        }),
{
    reveal_strlit("msgtype");
    reveal_strlit("stream");
    reveal_strlit("content");
    reveal_strlit("finish");
    reveal_strlit("id");
    reveal_strlit("image");
    reveal_strlit("voice");
    reveal_strlit("video");
    reveal_strlit("file");
    reveal_strlit("description");
    reveal_strlit("media_id");
    assert("msgtype"@.len() == 7 && "stream"@.len() == 6 && "content"@.len() == 7);
    assert("content"@[0] == 'c' && "finish"@.len() == 6 && "id"@.len() == 2);
    assert("image"@.len() == 5 && "voice"@.len() == 5 && "video"@.len() == 5 && "file"@.len() == 4);
    assert("description"@.len() == 11 && "media_id"@.len() == 8);
    reveal_with_fuel(lookup, 4);
    let text = answer_body(LongConnOutboundView::Text { chat_id: chat, content }, stream)->Object_0;
    assert(text.skip(1)[0] == text[1]);
    let inner = text[1].1->Object_0;
    assert(inner.skip(1)[0] == inner[1]);
    assert(inner.skip(1).skip(1)[0] == inner[2]);
    let k = sent_kind(kind);
    let file = crate::wecom_conn::sent_file(kind, media_id, name);
    law_insert_then_lookup(seq![("msgtype"@, JsonView::Str(k))], k, file, "msgtype"@);
    let m = file->Object_0;
    if m.len() > 1 {
        assert(m.skip(1)[0] == m[1]);
    }
}

/// A text that someone who may write sends for the first time is passed on as it was said, to the
/// chat that it names or to its sender.
pub proof fn law_held_text_is_passed_on(
    settings: ConfigView,
    body: LongConnMsgBody,
    seen: Seq<Seq<char>>,
    time_ms: int,
)
    requires
        may_write(settings, body),
        body.msgtype@ == "text"@,
        body.text is Some,
        body.text->0@.len() > 0,
        tight(body.text->0@),
        !seen.contains(body.msgid@),
    ensures
        ({
            let said = held_read(settings, body, seen);
            &&& said is Some
            &&& said->0.content == body.text->0@ && said->0.download is None
            &&& ({
                let passed = held_inbound(settings, body, said->0, None, time_ms);
                &&& passed.content == body.text->0@ && passed.sender_id == sender_of(body)
                &&& body.chatid@.len() > 0 ==> passed.chat_id == body.chatid@
                &&& body.chatid@.len() == 0 ==> passed.chat_id == sender_of(body)
                &&& passed.media.len() == 0 && passed.channel == "wecom"@
            })
        }),
{
    lemma_trim_tight(body.text->0@);
}

/// The parts of a mixed message are written in order, each by itself, and all of them.
pub proof fn law_mixed_parts_in_order(
    items: Seq<LongConnMixedItem>,
    item: LongConnMixedItem,
    mixed: LongConnMixed,
    i: int,
)
    ensures
        item_text(item) is Some ==> item_texts(items.push(item)) == item_texts(items).push(
            item_text(item)->0,
        ),
        item_text(item) is None ==> item_texts(items.push(item)) == item_texts(items),
        item.item_type@ == "text"@ && item.content is Some && item.content->0@.len() > 0 && tight(
            item.content->0@,
        ) ==> item_text(item) == Some(item.content->0@),
        0 <= i < item_texts(mixed.items@).len() ==> holds(
            mixed_summary(mixed),
            item_texts(mixed.items@)[i],
        ),
{
    assert(items.push(item).drop_last() =~= items);
    if item.content is Some && tight(item.content->0@) {
        lemma_trim_tight(item.content->0@);
    }
    if 0 <= i < item_texts(mixed.items@).len() {
        lemma_join_holds(item_texts(mixed.items@), " "@, i);
    }
}

/// A polled text of someone who may write is passed on, to the party that it was sent to or back
/// to its sender; anything else is not.
pub proof fn law_polled_text_is_passed_on(
    settings: ConfigView,
    message: JsonView,
    text: JsonView,
    content: Seq<char>,
    user: Seq<char>,
    time_ms: int,
)
    requires
        message.str_at("msgtype"@) == Some("text"@),
        message.get("text"@) == Some(text),
        text.str_at("content"@) == Some(content),
        content.len() > 0,
        tight(content),
        message.str_at("from"@) == Some(user),
    ensures
        polled_message(settings, message, time_ms) is Some <==> allowed(
            settings.wecom.active.allow_from,
            user,
        ),
        polled_message(settings, message, time_ms) is Some ==> {
            let passed = polled_message(settings, message, time_ms)->0;
            &&& passed.content == content && passed.sender_id == user
            &&& message.str_at("toparty"@) is None ==> passed.chat_id == user
        },
{
    lemma_trim_tight(content);
}

/// A connection is held only for an account that is enabled and names its program and the secret
/// of it.
pub proof fn law_connection_is_held(account: crate::config::WeComAccountView)
    ensures
        run_plan(account) == RunPlan::Hold ==> account.enabled && trim(account.bot_id).len() > 0
            && trim(account.bot_secret).len() > 0,
        run_plan(account) == RunPlan::Poll ==> account.enabled && account.corp_id.len() > 0
            && account.corp_secret.len() > 0,
        !account.enabled ==> run_plan(account) == RunPlan::Disabled,
{
}

// ---------------------------------------------------------------------------
// Answers that are kept aside
// ---------------------------------------------------------------------------

proof fn lemma_digits(digits: Seq<char>, rest: Seq<char>)
    requires
        forall|i: int| 0 <= i < digits.len() ==> is_digit(#[trigger] digits[i]),
        rest.len() > 0 ==> !is_digit(rest[0]),
    ensures
        digit_count(digits + rest) == digits.len(),
    decreases digits.len(),
{
    if digits.len() == 0 {
        assert(digits + rest =~= rest);
    } else {
        assert((digits + rest)[0] == digits[0]);
        assert((digits + rest).skip(1) =~= digits.skip(1) + rest);
        lemma_digits(digits.skip(1), rest);
    }
}

/// A line that starts with a number and a dot or a bracket, or with a bullet, holds the item behind
/// it, whatever space stands around it.
pub proof fn law_list_lines(
    gap: Seq<char>,
    digits: Seq<char>,
    item: Seq<char>,
    end: Seq<char>,
)
    requires
        spaces(gap),
        spaces(end),
        digits.len() > 0,
        forall|i: int| 0 <= i < digits.len() ==> is_digit(#[trigger] digits[i]),
        item.len() > 0,
        tight(item),
    ensures
        list_item(gap + (digits + ". "@ + item) + end) == Some(item),
        list_item(gap + (digits + ") "@ + item) + end) == Some(item),
        list_item(gap + ("- "@ + item) + end) == Some(item),
        list_item(gap + ("* "@ + item) + end) == Some(item),
{
    reveal_strlit(". ");
    reveal_strlit(") ");
    reveal_strlit("- ");
    reveal_strlit("* ");
    assert(". "@[0] == '.' && ") "@[0] == ')' && "- "@[0] == '-' && "* "@[0] == '*');
    assert(digits[0] == digits[0] && is_digit(digits[0]) && !is_space(digits[0]));
    let a = digits + ". "@ + item;
    let b = digits + ") "@ + item;
    let c = "- "@ + item;
    let d = "* "@ + item;
    assert(a[0] == digits[0] && a.last() == item.last());
    assert(b[0] == digits[0] && b.last() == item.last());
    assert(c[0] == '-' && c.last() == item.last());
    assert(d[0] == '*' && d.last() == item.last());
    law_trim(gap, a, end);
    law_trim(gap, b, end);
    law_trim(gap, c, end);
    law_trim(gap, d, end);
    let n = digits.len() as int;
    lemma_digits(digits, ". "@ + item);
    lemma_digits(digits, ") "@ + item);
    assert(a =~= digits + (". "@ + item));
    assert(b =~= digits + (") "@ + item));
    assert(a.skip(n) =~= ". "@ + item);
    assert(b.skip(n) =~= ") "@ + item);
    law_prefix_is_stripped(a.skip(n), ". "@, item);
    law_prefix_is_stripped(b.skip(n), ") "@, item);
    if strip_prefix(b.skip(n), ". "@) is Some {
        law_prefix_is_stripped(b.skip(n), ". "@, strip_prefix(b.skip(n), ". "@)->0);
        assert(b.skip(n)[0] == ". "@[0]);
    }
    assert(digit_count(c) == 0 && digit_count(d) == 0);
    law_prefix_is_stripped(c, "- "@, item);
    law_prefix_is_stripped(d, "* "@, item);
    if strip_prefix(d, "- "@) is Some {
        law_prefix_is_stripped(d, "- "@, strip_prefix(d, "- "@)->0);
        assert(d[0] == "- "@[0]);
    }
}

/// The items of a text are those of its lines, in order.
pub proof fn law_items_in_order(lines: Seq<Seq<char>>, line: Seq<char>)
    ensures
        list_item(line) is Some ==> items_in(lines.push(line)) == items_in(lines).push(
            list_item(line)->0,
        ),
        list_item(line) is None ==> items_in(lines.push(line)) == items_in(lines),
{
    assert(lines.push(line).drop_last() =~= lines);
}

proof fn lemma_preview(items: Seq<Seq<char>>, count: nat, k: int)
    requires
        0 <= k < count <= items.len(),
    ensures
        preview_lines(items, count).len() == count,
        preview_lines(items, count)[k] == decimal((k + 1) as nat) + ". "@ + cut(items[k], 100),
    decreases count,
{
    if count == 1 {
        reveal_with_fuel(preview_lines, 2);
    } else if k < count - 1 {
        lemma_preview(items, (count - 1) as nat, k);
    } else {
        lemma_preview(items, (count - 1) as nat, 0);
    }
}

/// What stands for an answer that is kept aside names it, says how many items it has, and shows
/// the first three of them, in order and with their numbers.
pub proof fn law_stub_shows_first_items(items: Seq<Seq<char>>, id: Seq<char>, k: int)
    requires
        0 <= k < 3,
        k < items.len(),
    ensures
        holds(stub_text(items, id), "ref:"@ + id),
        holds(stub_text(items, id), decimal((k + 1) as nat) + ". "@ + cut(items[k], 100)),
        items[k].len() <= 100 ==> cut(items[k], 100) == items[k],
{
    let count: nat = if items.len() < 3 {
        items.len()
    } else {
        3
    };
    lemma_preview(items, count, k);
    let shown = preview_lines(items, count);
    lemma_join_holds(shown, "\n"@, k);
    let lead = "[已缓存"@ + decimal(items.len()) + "条结果，ID: ref:"@ + id + "]\n"@;
    let end = "\n...（共"@ + decimal(items.len()) + "条，使用 session_recall 工具获取完整内容）"@;
    lemma_holds_behind(lead, join(shown, "\n"@), shown[k]);
    lemma_holds_before(lead + join(shown, "\n"@), end, shown[k]);
    let text = stub_text(items, id);
    assert(text =~= lead + join(shown, "\n"@) + end);
    reveal_strlit("条结果，ID: ref:");
    reveal_strlit("条结果，ID: ");
    reveal_strlit("ref:");
    assert("条结果，ID: ref:"@ =~= "条结果，ID: "@ + "ref:"@);
    let first = "[已缓存"@ + decimal(items.len()) + "条结果，ID: "@;
    lemma_holds(first, "ref:"@ + id, "]\n"@);
    assert(lead =~= first + ("ref:"@ + id) + "]\n"@);
    lemma_holds_before(lead, join(shown, "\n"@), "ref:"@ + id);
    lemma_holds_before(lead + join(shown, "\n"@), end, "ref:"@ + id);
}

/// An id can be given with or without its mark.
pub proof fn law_mark_of_an_id(id: Seq<char>)
    ensures
        bare_id("ref:"@ + id) == id,
        strip_prefix(id, "ref:"@) is None ==> bare_id(id) == id,
{
    law_prefix_is_stripped("ref:"@ + id, "ref:"@, id);
}

/// What is asked for is given back whole, with its id.
pub proof fn law_recalled_answer(id: Seq<char>, text: Seq<char>)
    ensures
        recall_answer(id, Some(text)).str_at("content"@) == Some(text),
        recall_answer(id, Some(text)).str_at("ref_id"@) == Some(id),
        recall_answer(id, Some(text)).str_at("status"@) == Some("found"@),
        recall_answer(id, None).str_at("status"@) == Some("not_found"@),
        recall_answer(id, None).get("content"@) is None,
{
    reveal_strlit("content");
    reveal_strlit("ref_id");
    reveal_strlit("status");
    reveal_strlit("error");
    assert("content"@.len() == 7 && "ref_id"@[0] == 'r' && "status"@[0] == 's');
    assert("ref_id"@.len() == 6 && "status"@.len() == 6 && "error"@.len() == 5);
    reveal_with_fuel(lookup, 4);
    let m = recall_answer(id, Some(text))->Object_0;
    assert(m.skip(1)[0] == m[1]);
    assert(m.skip(1).skip(1)[0] == m[2]);
    let n = recall_answer(id, None)->Object_0;
    assert(n.skip(1)[0] == n[1]);
    assert(n.skip(1).skip(1)[0] == n[2]);
}

/// Clearing a session takes its answers away, and no other, and keeps the order of the others.
pub proof fn law_only_one_session_is_cleared(
    entries: Seq<EntryView>,
    entry: EntryView,
    session: Seq<char>,
)
    ensures
        entry.session == session ==> others(entries.push(entry), session) == others(
            entries,
            session,
        ),
        entry.session != session ==> others(entries.push(entry), session) == others(
            entries,
            session,
        ).push(entry),
{
    assert(entries.push(entry).drop_last() =~= entries);
}

} // verus!
