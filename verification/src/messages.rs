//! Messages that come in from a channel and messages that go out to one.

use crate::json::object1;
use crate::skills::{flag, flag_of};
use crate::text::{
    chars_of, chars_start_with, copy_opt, integer, integer_of, opt_text, same_text, starts_with,
    texts_view,
};
use crate::types::json_opt;
use crate::value::{Json, JsonView};
use vstd::prelude::*;

verus! {

/// A message that came in from a channel.
pub struct InboundMessage {
    pub channel: String,
    pub account_id: Option<String>,
    pub sender_id: String,
    pub chat_id: String,
    pub content: String,
    pub media: Vec<String>,
    pub metadata: Json,
    pub timestamp_ms: i64,
}

pub struct InboundView {
    pub channel: Seq<char>,
    pub account_id: Option<Seq<char>>,
    pub sender_id: Seq<char>,
    pub chat_id: Seq<char>,
    pub content: Seq<char>,
    pub media: Seq<Seq<char>>,
    pub metadata: JsonView,
    pub timestamp_ms: int,
}

impl View for InboundMessage {
    type V = InboundView;

    open spec fn view(&self) -> InboundView {
        InboundView {
            channel: self.channel@,
            account_id: opt_text(self.account_id),
            sender_id: self.sender_id@,
            chat_id: self.chat_id@,
            content: self.content@,
            media: texts_view(self.media@),
            metadata: self.metadata@,
            timestamp_ms: self.timestamp_ms as int,
        }
    }
}

pub fn copy_texts(texts: &Vec<String>) -> (r: Vec<String>)
    ensures
        texts_view(r@) == texts_view(texts@),
{
    let mut r: Vec<String> = Vec::new();
    let mut i: usize = 0;
    while i < texts.len()
        invariant
            i <= texts.len(),
            texts_view(r@) == texts_view(texts@).take(i as int),
        decreases texts.len() - i,
    {
        let ghost so_far = texts_view(r@);
        let text = texts[i].clone();
        r.push(text);
        assert(texts_view(r@) =~= so_far.push(text@));
        assert(texts_view(r@) =~= texts_view(texts@).take(i + 1));
        i += 1;
    }
    assert(texts_view(r@) =~= texts_view(texts@));
    r
}

impl Clone for InboundMessage {
    fn clone(&self) -> (r: Self)
        ensures
            r@ == self@,
    {
        InboundMessage {
            channel: self.channel.clone(),
            account_id: copy_opt(&self.account_id),
            sender_id: self.sender_id.clone(),
            chat_id: self.chat_id.clone(),
            content: self.content.clone(),
            media: copy_texts(&self.media),
            metadata: self.metadata.clone(),
            timestamp_ms: self.timestamp_ms,
        }
    }
}

/// A message that goes out to a channel.
pub struct OutboundMessage {
    pub channel: String,
    pub account_id: Option<String>,
    pub chat_id: String,
    pub content: String,
    pub media: Vec<String>,
    pub metadata: Json,
}

pub struct OutboundView {
    pub channel: Seq<char>,
    pub account_id: Option<Seq<char>>,
    pub chat_id: Seq<char>,
    pub content: Seq<char>,
    pub media: Seq<Seq<char>>,
    pub metadata: JsonView,
}

impl View for OutboundMessage {
    type V = OutboundView;

    open spec fn view(&self) -> OutboundView {
        OutboundView {
            channel: self.channel@,
            account_id: opt_text(self.account_id),
            chat_id: self.chat_id@,
            content: self.content@,
            media: texts_view(self.media@),
            metadata: self.metadata@,
        }
    }
}

/// A message of nothing but text.
pub open spec fn outbound(
    channel: Seq<char>,
    chat_id: Seq<char>,
    content: Seq<char>,
) -> OutboundView {
    OutboundView {
        channel,
        account_id: None,
        chat_id,
        content,
        media: Seq::empty(),
        metadata: JsonView::Null,
    }
}

impl OutboundMessage {
    pub fn new(channel: &str, chat_id: &str, content: &str) -> (r: Self)
        ensures
            r@ == outbound(channel@, chat_id@, content@),
    {
        let r = OutboundMessage {
            channel: channel.to_owned(),
            account_id: None,
            chat_id: chat_id.to_owned(),
            content: content.to_owned(),
            media: Vec::new(),
            metadata: Json::Null,
        };
        assert(texts_view(r.media@) =~= Seq::empty());
        r
    }
}

// ---------------------------------------------------------------------------
// Replies
// ---------------------------------------------------------------------------

/// The object `{key: value}` where there is a value, null otherwise.
pub open spec fn quote(key: Seq<char>, value: Option<JsonView>) -> JsonView {
    match value {
        Some(v) => JsonView::Object(seq![(key, v)]),
        None => JsonView::Null,
    }
}

pub open spec fn str_value(value: JsonView, key: Seq<char>) -> Option<JsonView> {
    match value.str_at(key) {
        Some(s) => Some(JsonView::Str(s)),
        None => None,
    }
}

/// What a reply quotes: a message of a group is quoted in a way that its channel knows, one of a
/// conversation between two is not.
pub open spec fn reply_metadata(msg: InboundView) -> JsonView {
    let m = msg.metadata;
    if msg.channel == "telegram"@ {
        let in_group = match integer(msg.chat_id) {
            Some(n) => n < 0,
            None => false,
        };
        quote("reply_to_message_id"@, if in_group { m.get("message_id"@) } else { None })
    } else if msg.channel == "feishu"@ || msg.channel == "lark"@ {
        let in_group = m.str_at("chat_type"@) == Some("group"@);
        quote("reply_to_message_id"@, if in_group { str_value(m, "message_id"@) } else { None })
    } else if msg.channel == "discord"@ {
        let in_group = m.str_or("guild_id"@, Seq::empty()).len() > 0;
        quote("reply_to_message_id"@, if in_group { str_value(m, "message_id"@) } else { None })
    } else if msg.channel == "slack"@ {
        let in_group = !starts_with(msg.chat_id, "D"@);
        quote("thread_ts"@, if in_group { str_value(m, "ts"@) } else { None })
    } else if msg.channel == "dingtalk"@ {
        let in_group = m.str_at("conversation_type"@) == Some("2"@);
        quote("reply_to_message_id"@, if in_group { str_value(m, "msg_id"@) } else { None })
    } else {
        JsonView::Null
    }
}

fn quote_of(key: &str, value: Option<Json>) -> (r: Json)
    ensures
        r@ == quote(key@, json_opt(value)),
{
    match value {
        Some(v) => object1(key, v),
        None => Json::Null,
    }
}

fn str_value_of(value: &Json, key: &str) -> (r: Option<Json>)
    ensures
        json_opt(r) == str_value(value@, key@),
{
    match value.str_at(key) {
        Some(s) => Some(Json::text(s)),
        None => None,
    }
}

/// The string in member `key` is `text`.
fn says(value: &Json, key: &str, text: &str) -> (r: bool)
    ensures
        r == (value@.str_at(key@) == Some(text@)),
{
    match value.str_at(key) {
        Some(s) => same_text(s, text),
        None => false,
    }
}

pub fn extract_reply_metadata(msg: &InboundMessage) -> (r: Json)
    ensures
        r@ == reply_metadata(msg@),
{
    let m = &msg.metadata;
    let channel = msg.channel.as_str();
    if same_text(channel, "telegram") {
        let in_group = match integer_of(chars_of(msg.chat_id.as_str()).as_slice()) {
            Some(n) => n < 0,
            None => false,
        };
        if in_group {
            match m.get("message_id") {
                Some(id) => object1("reply_to_message_id", id.clone()),
                None => Json::Null,
            }
        } else {
            Json::Null
        }
    } else if same_text(channel, "feishu") || same_text(channel, "lark") {
        if says(m, "chat_type", "group") {
            quote_of("reply_to_message_id", str_value_of(m, "message_id"))
        } else {
            Json::Null
        }
    } else if same_text(channel, "discord") {
        let in_group = match m.str_at("guild_id") {
            Some(id) => !id.is_empty(),
            None => false,
        };
        if in_group {
            quote_of("reply_to_message_id", str_value_of(m, "message_id"))
        } else {
            Json::Null
        }
    } else if same_text(channel, "slack") {
        if chars_start_with(chars_of(msg.chat_id.as_str()).as_slice(), chars_of("D").as_slice()) {
            Json::Null
        } else {
            quote_of("thread_ts", str_value_of(m, "ts"))
        }
    } else if same_text(channel, "dingtalk") {
        if says(m, "conversation_type", "2") {
            quote_of("reply_to_message_id", str_value_of(m, "msg_id"))
        } else {
            Json::Null
        }
    } else {
        Json::Null
    }
}

// ---------------------------------------------------------------------------
// Senders
// ---------------------------------------------------------------------------

/// What is remembered of a sender: the name, and whether they wrote in a group.
pub struct Contact {
    pub name: String,
    pub chat_type: String,
}

/// The sender's name and the kind of chat. Nobody is remembered from the channels of the program
/// itself.
pub open spec fn contact(msg: InboundView) -> Option<(Seq<char>, Seq<char>)> {
    if msg.channel == "ws"@ || msg.channel == "cli"@ || msg.channel == "system"@ {
        None
    } else {
        let m = msg.metadata;
        let kind = m.str_at("conversation_type"@);
        Some(
            (
                match m.str_at("sender_nick"@) {
                    Some(name) => name,
                    None => m.str_or("username"@, Seq::empty()),
                },
                if kind == Some("1"@) {
                    "private"@
                } else if kind == Some("2"@) {
                    "group"@
                } else if flag(m, "is_group"@) {
                    "group"@
                } else if msg.sender_id == msg.chat_id {
                    "private"@
                } else {
                    "group"@
                },
            ),
        )
    }
}

pub fn contact_of(msg: &InboundMessage) -> (r: Option<Contact>)
    ensures
        match r {
            Some(c) => contact(msg@) == Some((c.name@, c.chat_type@)),
            None => contact(msg@) is None,
        },
{
    let channel = msg.channel.as_str();
    if same_text(channel, "ws") || same_text(channel, "cli") || same_text(channel, "system") {
        return None;
    }
    let m = &msg.metadata;
    let name = match m.str_at("sender_nick") {
        Some(name) => name.to_owned(),
        None => match m.str_at("username") {
            Some(name) => name.to_owned(),
            None => String::new(),
        },
    };
    let chat_type = if says(m, "conversation_type", "1") {
        "private"
    } else if says(m, "conversation_type", "2") {
        "group"
    } else if flag_of(m, "is_group") {
        "group"
    } else if same_text(msg.sender_id.as_str(), msg.chat_id.as_str()) {
        "private"
    } else {
        "group"
    };
    Some(Contact { name, chat_type: chat_type.to_owned() })
}

} // verus!
