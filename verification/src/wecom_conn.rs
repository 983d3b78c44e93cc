//! The connection to WeCom that is held open.

use crate::accounts::{meant_account, wecom_account_id};
use crate::clock::now_millis;
use crate::config::{Config, ConfigView, WeComAccountConfig, WeComAccountView};
use crate::error::{Error, ErrorView};
use crate::json::{
    insert_member, json_text, object1, object2, object3, push_member, render, set_member,
};
use crate::messages::{InboundMessage, InboundView};
use crate::paths::{after_last, after_last_of};
use crate::seen::{
    law_known_until_newer_fill_up, law_seen_is_known, remembered, remembered_all, SeenIds, SEEN_MAX,
};
use crate::text::{
    chars_of, copy_opt, decimal_int, decimal_int_text, join, join_texts, opt_text, same_text,
    text_of, texts_view, trim, trim_chars,
};
use crate::text_map::{held, TextMap};
use crate::value::{group_json_view, members_view, Json, JsonView};
use crate::wecom_send::{
    channel_outcome, has_words, holds_connection, is_holding_connection, number, sent_kind,
    sent_kind_of, CachedToken,
};
use crate::wecom_webhook::{
    allowed, file_text, file_text_of, is_allowed, is_program_name, or_null, program_name,
    text_or_null, IMAGE_TEXT, VOICE_TEXT,
};
use vstd::prelude::*;

verus! {

broadcast use group_json_view;

/// Where the connection goes unless the settings name another address.
pub const LONG_WS_URL: &'static str = "wss://openws.work.weixin.qq.com";

/// What keeps the connection open.
pub const PING: &'static str = "{\"cmd\":\"ping\"}";

pub const PONG: &'static str = "{\"cmd\":\"pong\"}";

pub const SUBSCRIBE_NEEDS: &'static str = "WeCom long_connection requires bot_id and bot_secret";

// ---------------------------------------------------------------------------
// The channel
// ---------------------------------------------------------------------------

/// The channel of one account: its settings, its token, and for each chat the latest request from
/// it, which an answer has to name.
pub struct WeComChannel {
    pub config: Config,
    pub token: CachedToken,
    pub requests: TextMap,
}

/// How the channel runs.
pub enum RunPlan {
    Disabled,
    /// The connection cannot be held open without an id and a secret.
    NoBot,
    Hold,
    NoCorpId,
    NoCorpSecret,
    Poll,
}

pub open spec fn run_plan(account: WeComAccountView) -> RunPlan {
    if !account.enabled {
        RunPlan::Disabled
    } else if holds_connection(account) {
        if trim(account.bot_id).len() == 0 || trim(account.bot_secret).len() == 0 {
            RunPlan::NoBot
        } else {
            RunPlan::Hold
        }
    } else if account.corp_id.len() == 0 {
        RunPlan::NoCorpId
    } else if account.corp_secret.len() == 0 {
        RunPlan::NoCorpSecret
    } else {
        RunPlan::Poll
    }
}

/// The address of the connection.
pub open spec fn address(account: WeComAccountView) -> Seq<char> {
    if trim(account.ws_url).len() == 0 {
        LONG_WS_URL@
    } else {
        trim(account.ws_url)
    }
}

pub open spec fn at_least(n: int, least: int) -> int {
    if n < least {
        least
    } else {
        n
    }
}

/// What `url::Url::parse` makes of a text: the address as it writes it again, or what its error
/// says.
pub uninterp spec fn url_parsed(text: Seq<char>) -> Result<Seq<char>, Seq<char>>;

pub open spec fn text_outcome(r: Result<String, String>) -> Result<Seq<char>, Seq<char>> {
    match r {
        Ok(text) => Ok(text@),
        Err(text) => Err(text@),
    }
}

/// Calls `url::Url::parse`.
#[verifier::external_body]
fn parse_url(text: &str) -> (r: Result<String, String>)
    ensures
        text_outcome(r) == url_parsed(text@),
{
    match url::Url::parse(text) {
        Ok(url) => Ok(url.to_string()),
        Err(e) => Err(e.to_string()),
    }
}

pub open spec fn checked_address(parsed: Result<Seq<char>, Seq<char>>) -> Result<
    Seq<char>,
    Seq<char>,
> {
    match parsed {
        Ok(url) => Ok(url),
        Err(e) => Err("Invalid WeCom ws_url: "@ + e),
    }
}

/// The address that was read, or why there is none.
pub fn check_address(parsed: Result<String, String>) -> (r: Result<String, Error>)
    ensures
        channel_outcome(r, checked_address(text_outcome(parsed))),
{
    match parsed {
        Ok(url) => Ok(url),
        Err(e) => {
            let mut text = "Invalid WeCom ws_url: ".to_owned();
            text.push_str(e.as_str());
            Err(Error::Channel(text))
        },
    }
}

fn trimmed(text: &str) -> (r: String)
    ensures
        r@ == trim(text@),
{
    let chars = chars_of(text);
    text_of(trim_chars(chars.as_slice()))
}

impl WeComChannel {
    pub fn new(config: Config) -> (r: Self)
        ensures
            r.config@ == config@,
            r.token.token@ == Seq::<char>::empty(),
            r.token.expires_at == 0,
            r.requests@ == Map::<Seq<char>, Seq<char>>::empty(),
    {
        WeComChannel { config, token: CachedToken::new(), requests: TextMap::new() }
    }

    pub fn is_allowed(&self, user_id: &str) -> (r: bool)
        ensures
            r == allowed(self.config@.wecom.active.allow_from, user_id@),
    {
        is_allowed(&self.config.channels.wecom.active.allow_from, user_id)
    }

    /// Whether a request without a message is signed with the token.
    pub fn verify_signature(token: &str, timestamp: &str, nonce: &str, signature: &str) -> (r: bool)
        ensures
            r == (crate::wecom_crypto::signature(seq![token@, timestamp@, nonce@]) == signature@),
    {
        crate::wecom_crypto::verify_signature(token, timestamp, nonce, signature)
    }

    pub fn run_plan(&self) -> (r: RunPlan)
        ensures
            r == run_plan(self.config@.wecom.active),
    {
        let account = &self.config.channels.wecom.active;
        if !account.enabled {
            RunPlan::Disabled
        } else if is_holding_connection(account) {
            if !has_words(account.bot_id.as_str()) || !has_words(account.bot_secret.as_str()) {
                RunPlan::NoBot
            } else {
                RunPlan::Hold
            }
        } else if account.corp_id.as_str().is_empty() {
            RunPlan::NoCorpId
        } else if account.corp_secret.as_str().is_empty() {
            RunPlan::NoCorpSecret
        } else {
            RunPlan::Poll
        }
    }

    /// How many seconds pass between two polls.
    pub fn poll_interval_secs(&self) -> (r: u64)
        ensures
            r == at_least(self.config@.wecom.active.poll_interval_secs, 5),
    {
        let n = self.config.channels.wecom.active.poll_interval_secs;
        if n < 5 {
            5
        } else {
            n
        }
    }

    /// How many seconds pass between two signs of life.
    pub fn ping_interval_secs(&self) -> (r: u64)
        ensures
            r == at_least(self.config@.wecom.active.ping_interval_secs, 10),
    {
        let n = self.config.channels.wecom.active.ping_interval_secs;
        if n < 10 {
            10
        } else {
            n
        }
    }

    pub fn ws_url(&self) -> (r: String)
        ensures
            r@ == address(self.config@.wecom.active),
    {
        let url = trimmed(self.config.channels.wecom.active.ws_url.as_str());
        if url.as_str().is_empty() {
            LONG_WS_URL.to_owned()
        } else {
            url
        }
    }

    /// The address to connect to.
    pub fn connection_url(&self) -> (r: Result<String, Error>)
        ensures
            channel_outcome(
                r,
                checked_address(url_parsed(address(self.config@.wecom.active))),
            ),
    {
        check_address(parse_url(self.ws_url().as_str()))
    }
}

// ---------------------------------------------------------------------------
// What is sent
// ---------------------------------------------------------------------------

pub open spec fn request_headers(req_id: Seq<char>) -> JsonView {
    JsonView::Object(seq![("req_id"@, JsonView::Str(req_id))])
}

pub open spec fn request_name(prefix: Seq<char>, time_ms: int) -> Seq<char> {
    prefix + decimal_int(time_ms)
}

fn request_name_of(prefix: &str, time_ms: i64) -> (r: String)
    ensures
        r@ == request_name(prefix@, time_ms as int),
{
    let mut r = prefix.to_owned();
    r.push_str(decimal_int_text(time_ms).as_str());
    r
}

/// The request for the messages to the program.
pub open spec fn subscription(account: WeComAccountView, time_ms: int) -> Result<
    Seq<char>,
    Seq<char>,
> {
    let id = trim(account.bot_id);
    let secret = trim(account.bot_secret);
    if id.len() == 0 || secret.len() == 0 {
        Err(SUBSCRIBE_NEEDS@)
    } else {
        Ok(
            "{\"cmd\":\"aibot_subscribe\",\"headers\":"@ + json_text(
                request_headers(request_name("blockcell-"@, time_ms)),
            ) + ",\"body\":"@ + json_text(
                JsonView::Object(
                    seq![
                        ("bot_id"@, JsonView::Str(id)),
                        ("secret"@, JsonView::Str(secret)),
                    ],
                ),
            ) + "}"@,
        )
    }
}

/// A message that goes out over the connection.
pub enum LongConnOutbound {
    Text { chat_id: String, content: String },
    /// A file that was uploaded: a picture, a voice message, a video or another file.
    Media { chat_id: String, media_id: String, media_type: String, filename: String },
}

pub enum LongConnOutboundView {
    Text { chat_id: Seq<char>, content: Seq<char> },
    Media { chat_id: Seq<char>, media_id: Seq<char>, media_type: Seq<char>, filename: Seq<char> },
}

impl View for LongConnOutbound {
    type V = LongConnOutboundView;

    open spec fn view(&self) -> LongConnOutboundView {
        match self {
            LongConnOutbound::Text { chat_id, content } => LongConnOutboundView::Text {
                chat_id: chat_id@,
                content: content@,
            },
            LongConnOutbound::Media { chat_id, media_id, media_type, filename } => LongConnOutboundView::Media {
                chat_id: chat_id@,
                media_id: media_id@,
                media_type: media_type@,
                filename: filename@,
            },
        }
    }
}

impl LongConnOutboundView {
    pub open spec fn chat(self) -> Seq<char> {
        match self {
            LongConnOutboundView::Text { chat_id, content } => chat_id,
            LongConnOutboundView::Media { chat_id, media_id, media_type, filename } => chat_id,
        }
    }
}

/// The file in an answer.
pub open spec fn sent_file(media_type: Seq<char>, media_id: Seq<char>, filename: Seq<char>) -> JsonView {
    if sent_kind(media_type) == "video"@ {
        JsonView::Object(
            seq![
                ("description"@, JsonView::Str(""@)),
                ("media_id"@, JsonView::Str(media_id)),
                ("title"@, JsonView::Str(filename)),
            ],
        )
    } else {
        JsonView::Object(seq![("media_id"@, JsonView::Str(media_id))])
    }
}

/// The content of an answer.
pub open spec fn answer_body(message: LongConnOutboundView, stream_id: Seq<char>) -> JsonView {
    match message {
        LongConnOutboundView::Text { chat_id, content } => JsonView::Object(
            seq![
                ("msgtype"@, JsonView::Str("stream"@)),
                (
                    "stream"@,
                    JsonView::Object(
                        seq![
                            ("content"@, JsonView::Str(content)),
                            ("finish"@, JsonView::Bool(true)),
                            ("id"@, JsonView::Str(stream_id)),
                        ],
                    ),
                ),
            ],
        ),
        LongConnOutboundView::Media { chat_id, media_id, media_type, filename } => JsonView::Object(
            insert_member(
                seq![("msgtype"@, JsonView::Str(sent_kind(media_type)))],
                sent_kind(media_type),
                sent_file(media_type, media_id, filename),
            ),
        ),
    }
}

/// An answer to the latest request from a chat; where there was none, to one that is made up.
pub open spec fn answer_frame(
    requests: Map<Seq<char>, Seq<char>>,
    message: LongConnOutboundView,
    time_ms: int,
    stream_ms: int,
) -> Seq<char> {
    let req_id = match held(requests, message.chat()) {
        Some(id) => id,
        None => request_name("blockcell-out-"@, time_ms),
    };
    json_text(
        JsonView::Object(
            seq![
                ("body"@, answer_body(message, request_name("blockcell-s-"@, stream_ms))),
                ("cmd"@, JsonView::Str("aibot_respond_msg"@)),
                ("headers"@, request_headers(req_id)),
            ],
        ),
    )
}

fn answer_body_of(message: &LongConnOutbound, stream_id: &str) -> (r: Json)
    ensures
        r@ == answer_body(message@, stream_id@),
{
    match message {
        LongConnOutbound::Text { chat_id, content } => object2(
            "msgtype",
            Json::text("stream"),
            "stream",
            object3(
                "content",
                Json::text(content.as_str()),
                "finish",
                Json::Bool(true),
                "id",
                Json::text(stream_id),
            ),
        ),
        LongConnOutbound::Media { chat_id, media_id, media_type, filename } => {
            let kind = sent_kind_of(media_type.as_str());
            let file = if same_text(kind, "video") {
                object3(
                    "description",
                    Json::text(""),
                    "media_id",
                    Json::text(media_id.as_str()),
                    "title",
                    Json::text(filename.as_str()),
                )
            } else {
                object1("media_id", Json::text(media_id.as_str()))
            };
            let mut m: Vec<(String, Json)> = Vec::new();
            push_member(&mut m, "msgtype", Json::text(kind));
            assert(members_view(m@) =~= seq![("msgtype"@, JsonView::Str(kind@))]);
            set_member(&mut m, kind.to_owned(), file);
            Json::Object(m)
        },
    }
}

/// The confirmation of a message or an event.
pub open spec fn acknowledgement(req_id: Seq<char>) -> Seq<char> {
    json_text(
        JsonView::Object(
            seq![
                ("errcode"@, number(0)),
                ("errmsg"@, JsonView::Str("ok"@)),
                ("headers"@, request_headers(req_id)),
            ],
        ),
    )
}

fn acknowledge(req_id: &str) -> (r: String)
    ensures
        r@ == acknowledgement(req_id@),
{
    render(
        &object3(
            "errcode",
            Json::Number(decimal_int_text(0)),
            "errmsg",
            Json::text("ok"),
            "headers",
            object1("req_id", Json::text(req_id)),
        ),
    )
}

impl WeComChannel {
    /// The request for the messages to the program, made at the time `time_ms`.
    pub fn subscribe_at(&self, time_ms: i64) -> (r: Result<String, Error>)
        ensures
            channel_outcome(r, subscription(self.config@.wecom.active, time_ms as int)),
    {
        let account = &self.config.channels.wecom.active;
        let id = trimmed(account.bot_id.as_str());
        let secret = trimmed(account.bot_secret.as_str());
        if id.as_str().is_empty() || secret.as_str().is_empty() {
            return Err(Error::Channel(SUBSCRIBE_NEEDS.to_owned()));
        }
        let name = request_name_of("blockcell-", time_ms);
        let headers = object1("req_id", Json::text(name.as_str()));
        let body = object2("bot_id", Json::text(id.as_str()), "secret", Json::text(secret.as_str()));
        let mut text = "{\"cmd\":\"aibot_subscribe\",\"headers\":".to_owned();
        text.push_str(render(&headers).as_str());
        text.push_str(",\"body\":");
        text.push_str(render(&body).as_str());
        text.push_str("}");
        Ok(text)
    }

    /// The request for the messages to the program, made now.
    pub fn subscribe(&self) -> (r: Result<String, Error>)
        ensures
            exists|time_ms: int|
                channel_outcome(r, #[trigger] subscription(self.config@.wecom.active, time_ms)),
    {
        let now = now_millis();
        let r = self.subscribe_at(now);
        assert(channel_outcome(r, subscription(self.config@.wecom.active, now as int)));
        r
    }

    /// What is sent for a message, with the times that name the request and the answer.
    pub fn answer_at(&self, message: &LongConnOutbound, time_ms: i64, stream_ms: i64) -> (r: String)
        ensures
            r@ == answer_frame(self.requests@, message@, time_ms as int, stream_ms as int),
    {
        let chat_id = match message {
            LongConnOutbound::Text { chat_id, content } => chat_id.as_str(),
            LongConnOutbound::Media { chat_id, media_id, media_type, filename } => chat_id.as_str(),
        };
        let req_id = match self.requests.get(chat_id) {
            Some(id) => id,
            None => request_name_of("blockcell-out-", time_ms),
        };
        let stream_id = request_name_of("blockcell-s-", stream_ms);
        render(
            &object3(
                "body",
                answer_body_of(message, stream_id.as_str()),
                "cmd",
                Json::text("aibot_respond_msg"),
                "headers",
                object1("req_id", Json::text(req_id.as_str())),
            ),
        )
    }

    /// What is sent for a message now.
    pub fn answer(&self, message: &LongConnOutbound) -> (r: String)
        ensures
            exists|time_ms: int, stream_ms: int|
                r@ == #[trigger] answer_frame(self.requests@, message@, time_ms, stream_ms),
    {
        let first = now_millis();
        let second = now_millis();
        let r = self.answer_at(message, first, second);
        assert(r@ == answer_frame(self.requests@, message@, first as int, second as int));
        r
    }
}

// ---------------------------------------------------------------------------
// What comes in
// ---------------------------------------------------------------------------

/// What came in over the connection.
pub struct LongConnEnvelope {
    pub cmd: String,
    pub req_id: Option<String>,
    pub body: Json,
    pub errcode: Option<i32>,
    pub errmsg: Option<String>,
}

/// What is to be done next.
pub enum FrameStep {
    Nothing,
    /// The text goes out.
    Send(String),
    /// The body is a message that is passed on. Then the text goes out, if there is one.
    Message(Option<String>),
}

pub enum FrameView {
    Nothing,
    Send(Seq<char>),
    Message(Option<Seq<char>>),
}

impl View for FrameStep {
    type V = FrameView;

    open spec fn view(&self) -> FrameView {
        match self {
            FrameStep::Nothing => FrameView::Nothing,
            FrameStep::Send(text) => FrameView::Send(text@),
            FrameStep::Message(text) => FrameView::Message(opt_text(*text)),
        }
    }
}

/// The chat that a message comes from: the one that it names, or that of its sender.
pub open spec fn chat_of(body: JsonView) -> Seq<char> {
    let chat = body.str_or("chatid"@, Seq::empty());
    if chat.len() > 0 {
        chat
    } else {
        match body.get("from"@) {
            Some(from) => from.str_or("userid"@, Seq::empty()),
            None => Seq::empty(),
        }
    }
}

fn str_or_empty<'a>(value: &'a Json, key: &str) -> (r: &'a str)
    ensures
        r@ == value@.str_or(key@, Seq::empty()),
{
    proof {
        reveal_strlit("");
        assert(""@ =~= Seq::<char>::empty());
    }
    match value.str_at(key) {
        Some(text) => text,
        None => "",
    }
}

fn find_chat(body: &Json) -> (r: String)
    ensures
        r@ == chat_of(body@),
{
    let chat = str_or_empty(body, "chatid");
    if !chat.is_empty() {
        return chat.to_owned();
    }
    match body.get("from") {
        Some(from) => str_or_empty(from, "userid").to_owned(),
        None => String::new(),
    }
}

pub open spec fn subscribe_complaint(errcode: int, errmsg: Option<Seq<char>>) -> Seq<char> {
    "WeCom subscribe error "@ + decimal_int(errcode) + ": "@ + (match errmsg {
        Some(text) => text,
        None => "unknown"@,
    })
}

/// The requests that are known once something came in.
pub open spec fn requests_after(
    requests: Map<Seq<char>, Seq<char>>,
    envelope: LongConnEnvelope,
) -> Map<Seq<char>, Seq<char>> {
    if envelope.cmd@ == "aibot_msg_callback"@ && envelope.req_id is Some && chat_of(
        envelope.body@,
    ).len() > 0 {
        requests.insert(chat_of(envelope.body@), envelope.req_id->0@)
    } else {
        requests
    }
}

pub open spec fn frame_step(envelope: LongConnEnvelope) -> Result<FrameView, Seq<char>> {
    let ack = match envelope.req_id {
        Some(id) => Some(acknowledgement(id@)),
        None => None,
    };
    if envelope.cmd@ == "aibot_subscribe"@ {
        match envelope.errcode {
            Some(code) if code != 0 => Err(
                subscribe_complaint(code as int, opt_text(envelope.errmsg)),
            ),
            _ => Ok(FrameView::Nothing),
        }
    } else if envelope.cmd@ == "aibot_msg_callback"@ {
        Ok(FrameView::Message(ack))
    } else if envelope.cmd@ == "aibot_event_callback"@ {
        match ack {
            Some(text) => Ok(FrameView::Send(text)),
            None => Ok(FrameView::Nothing),
        }
    } else if envelope.cmd@ == "ping"@ {
        Ok(FrameView::Send(PONG@))
    } else {
        Ok(FrameView::Nothing)
    }
}

impl WeComChannel {
    /// Takes in what came over the connection.
    pub fn handle_frame(&mut self, envelope: &LongConnEnvelope) -> (r: Result<FrameStep, Error>)
        ensures
            match frame_step(*envelope) {
                Ok(step) => r is Ok && r->Ok_0@ == step,
                Err(text) => r is Err && r->Err_0@ == ErrorView::Channel(text),
            },
            final(self).requests@ == requests_after(old(self).requests@, *envelope),
            final(self).config == old(self).config,
            final(self).token == old(self).token,
    {
        proof {
            reveal_strlit("aibot_subscribe");
            reveal_strlit("aibot_msg_callback");
            reveal_strlit("aibot_event_callback");
            reveal_strlit("ping");
            assert("aibot_subscribe"@.len() == 15);
            assert("aibot_msg_callback"@.len() == 18);
            assert("aibot_event_callback"@.len() == 20);
            assert("ping"@.len() == 4);
        }
        let cmd = envelope.cmd.as_str();
        if same_text(cmd, "aibot_subscribe") {
            if let Some(code) = envelope.errcode {
                if code != 0 {
                    let mut text = "WeCom subscribe error ".to_owned();
                    text.push_str(decimal_int_text(code as i64).as_str());
                    text.push_str(": ");
                    match &envelope.errmsg {
                        Some(message) => {
                            text.push_str(message.as_str());
                        },
                        None => {
                            text.push_str("unknown");
                        },
                    }
                    return Err(Error::Channel(text));
                }
            }
            return Ok(FrameStep::Nothing);
        }
        if same_text(cmd, "aibot_msg_callback") {
            return match &envelope.req_id {
                Some(id) => {
                    let chat = find_chat(&envelope.body);
                    if !chat.as_str().is_empty() {
                        self.requests.insert(chat.as_str(), id.as_str());
                    }
                    Ok(FrameStep::Message(Some(acknowledge(id.as_str()))))
                },
                None => Ok(FrameStep::Message(None)),
            };
        }
        if same_text(cmd, "aibot_event_callback") {
            return match &envelope.req_id {
                Some(id) => Ok(FrameStep::Send(acknowledge(id.as_str()))),
                None => Ok(FrameStep::Nothing),
            };
        }
        if same_text(cmd, "ping") {
            return Ok(FrameStep::Send(PONG.to_owned()));
        }
        Ok(FrameStep::Nothing)
    }
}

/// The answer to a chat names the request of the message that last came from it.
pub proof fn law_answer_names_request(
    requests: Map<Seq<char>, Seq<char>>,
    envelope: LongConnEnvelope,
    message: LongConnOutboundView,
    time_ms: int,
    stream_ms: int,
)
    requires
        envelope.cmd@ == "aibot_msg_callback"@,
        envelope.req_id is Some,
        chat_of(envelope.body@).len() > 0,
        message.chat() == chat_of(envelope.body@),
    ensures
        answer_frame(requests_after(requests, envelope), message, time_ms, stream_ms) == json_text(
            JsonView::Object(
                seq![
                    ("body"@, answer_body(message, request_name("blockcell-s-"@, stream_ms))),
                    ("cmd"@, JsonView::Str("aibot_respond_msg"@)),
                    ("headers"@, request_headers(envelope.req_id->0@)),
                ],
            ),
        ),
{
}

// ---------------------------------------------------------------------------
// Messages
// ---------------------------------------------------------------------------

pub struct LongConnFrom {
    pub userid: String,
    pub nickname: Option<String>,
}

/// A file at an address, with the key that it is encrypted with.
pub struct LongConnFile {
    pub url: String,
    pub aeskey: String,
}

/// A part of a message of several parts.
pub struct LongConnMixedItem {
    pub item_type: String,
    pub content: Option<String>,
}

pub struct LongConnMixed {
    pub items: Vec<LongConnMixedItem>,
}

/// A message that came over the connection. What it does not hold is empty or missing.
pub struct LongConnMsgBody {
    pub msgid: String,
    pub aibotid: String,
    pub chatid: String,
    pub chattype: String,
    pub from: Option<LongConnFrom>,
    pub msgtype: String,
    pub text: Option<String>,
    pub image: Option<LongConnFile>,
    pub voice: Option<LongConnFile>,
    pub recognition: Option<String>,
    pub file: Option<LongConnFile>,
    pub filename: Option<String>,
    pub mixed: Option<LongConnMixed>,
}

/// What is written for a part of a message.
pub open spec fn item_text(item: LongConnMixedItem) -> Option<Seq<char>> {
    if item.item_type@ == "text"@ {
        match item.content {
            Some(text) => if trim(text@).len() > 0 {
                Some(trim(text@))
            } else {
                None
            },
            None => None,
        }
    } else if item.item_type@ == "image"@ {
        Some("[图片]"@)
    } else if item.item_type@ == "link"@ {
        Some("[链接]"@)
    } else if item.item_type@ == "file"@ {
        Some("[文件]"@)
    } else if item.item_type@.len() > 0 {
        Some("["@ + item.item_type@ + "]"@)
    } else {
        None
    }
}

pub open spec fn item_texts(items: Seq<LongConnMixedItem>) -> Seq<Seq<char>>
    decreases items.len(),
{
    if items.len() == 0 {
        Seq::empty()
    } else {
        match item_text(items.last()) {
            Some(text) => item_texts(items.drop_last()).push(text),
            None => item_texts(items.drop_last()),
        }
    }
}

pub open spec fn mixed_summary(mixed: LongConnMixed) -> Seq<char> {
    join(item_texts(mixed.items@), " "@)
}

fn text_of_item(item: &LongConnMixedItem) -> (r: Option<String>)
    ensures
        opt_text(r) == item_text(*item),
{
    let kind = item.item_type.as_str();
    if same_text(kind, "text") {
        match &item.content {
            Some(text) => {
                let text = trimmed(text.as_str());
                if text.as_str().is_empty() {
                    None
                } else {
                    Some(text)
                }
            },
            None => None,
        }
    } else if same_text(kind, "image") {
        Some("[图片]".to_owned())
    } else if same_text(kind, "link") {
        Some("[链接]".to_owned())
    } else if same_text(kind, "file") {
        Some("[文件]".to_owned())
    } else if !kind.is_empty() {
        let mut text = "[".to_owned();
        text.push_str(kind);
        text.push_str("]");
        Some(text)
    } else {
        None
    }
}

pub fn build_mixed_summary(mixed: &LongConnMixed) -> (r: String)
    ensures
        r@ == mixed_summary(*mixed),
{
    let ghost items = mixed.items@;
    let mut texts: Vec<String> = Vec::new();
    let mut i: usize = 0;
    assert(texts_view(texts@) =~= item_texts(items.take(0)));
    while i < mixed.items.len()
        invariant
            i <= mixed.items.len(),
            items == mixed.items@,
            texts_view(texts@) == item_texts(items.take(i as int)),
        decreases mixed.items.len() - i,
    {
        assert(items.take(i + 1).drop_last() =~= items.take(i as int));
        if let Some(text) = text_of_item(&mixed.items[i]) {
            let ghost so_far = texts_view(texts@);
            texts.push(text);
            assert(texts_view(texts@) =~= so_far.push(text@));
        }
        i += 1;
    }
    assert(items.take(items.len() as int) =~= items);
    join_texts(&texts, " ")
}

/// A file that is to be downloaded and decrypted.
pub struct HeldDownload {
    pub url: String,
    pub aeskey: String,
    pub media_type: &'static str,
    pub ext: Option<String>,
}

pub struct HeldDownloadView {
    pub url: Seq<char>,
    pub aeskey: Seq<char>,
    pub media_type: Seq<char>,
    pub ext: Option<Seq<char>>,
}

impl View for HeldDownload {
    type V = HeldDownloadView;

    open spec fn view(&self) -> HeldDownloadView {
        HeldDownloadView {
            url: self.url@,
            aeskey: self.aeskey@,
            media_type: self.media_type@,
            ext: opt_text(self.ext),
        }
    }
}

pub open spec fn held_view(download: Option<HeldDownload>) -> Option<HeldDownloadView> {
    match download {
        Some(d) => Some(d@),
        None => None,
    }
}

/// A file can be had if both its address and its key are known.
pub open spec fn file_at(
    file: Option<LongConnFile>,
    media_type: Seq<char>,
    ext: Option<Seq<char>>,
) -> Option<HeldDownloadView> {
    match file {
        Some(f) => if f.url@.len() > 0 && f.aeskey@.len() > 0 {
            Some(HeldDownloadView { url: f.url@, aeskey: f.aeskey@, media_type, ext })
        } else {
            None
        },
        None => None,
    }
}

fn want_file(file: &Option<LongConnFile>, media_type: &'static str, ext: Option<String>) -> (r: Option<
    HeldDownload,
>)
    ensures
        held_view(r) == file_at(*file, media_type@, opt_text(ext)),
{
    match file {
        Some(f) => if !f.url.as_str().is_empty() && !f.aeskey.as_str().is_empty() {
            Some(
                HeldDownload { url: f.url.clone(), aeskey: f.aeskey.clone(), media_type, ext },
            )
        } else {
            None
        },
        None => None,
    }
}

/// What a message says: the text that is passed on, the file that comes with it, and whether the
/// sender is to be asked what to do.
pub struct HeldSaid {
    pub content: String,
    pub download: Option<HeldDownload>,
    pub pending: bool,
}

pub struct HeldSaidView {
    pub content: Seq<char>,
    pub download: Option<HeldDownloadView>,
    pub pending: bool,
}

impl View for HeldSaid {
    type V = HeldSaidView;

    open spec fn view(&self) -> HeldSaidView {
        HeldSaidView {
            content: self.content@,
            download: held_view(self.download),
            pending: self.pending,
        }
    }
}

pub open spec fn held_said_view(said: Option<HeldSaid>) -> Option<HeldSaidView> {
    match said {
        Some(s) => Some(s@),
        None => None,
    }
}

/// What is said of a voice message: what was recognised, where anything was.
pub open spec fn voice_text(recognition: Option<Seq<char>>) -> Seq<char> {
    match recognition {
        Some(text) if trim(text).len() > 0 => "用户发来一条语音，企业微信转写文本："@ + trim(
            text,
        ),
        _ => VOICE_TEXT@,
    }
}

pub open spec fn empty_or(text: Option<Seq<char>>) -> Seq<char> {
    match text {
        Some(t) => t,
        None => Seq::empty(),
    }
}

/// What a message says; nothing where it says nothing or is of no known kind.
pub open spec fn held_said(body: LongConnMsgBody) -> Option<HeldSaidView> {
    let kind = body.msgtype@;
    if kind == "text"@ {
        let text = trim(empty_or(opt_text(body.text)));
        if text.len() == 0 {
            None
        } else {
            Some(HeldSaidView { content: text, download: None, pending: false })
        }
    } else if kind == "image"@ {
        Some(
            HeldSaidView {
                content: IMAGE_TEXT@,
                download: file_at(body.image, "image"@, None),
                pending: true,
            },
        )
    } else if kind == "mixed"@ {
        let text = match body.mixed {
            Some(mixed) => mixed_summary(mixed),
            None => Seq::empty(),
        };
        if text.len() == 0 {
            None
        } else {
            Some(HeldSaidView { content: text, download: None, pending: false })
        }
    } else if kind == "voice"@ {
        Some(
            HeldSaidView {
                content: voice_text(opt_text(body.recognition)),
                download: file_at(body.voice, "voice"@, Some("amr"@)),
                pending: false,
            },
        )
    } else if kind == "file"@ {
        Some(
            HeldSaidView {
                content: file_text(empty_or(opt_text(body.filename))),
                download: file_at(
                    body.file,
                    "file"@,
                    match opt_text(body.filename) {
                        Some(name) => Some(after_last(name, '.')),
                        None => None,
                    },
                ),
                pending: true,
            },
        )
    } else {
        None
    }
}

fn text_or_empty(text: &Option<String>) -> (r: String)
    ensures
        r@ == empty_or(opt_text(*text)),
{
    match text {
        Some(t) => t.clone(),
        None => String::new(),
    }
}

pub fn read_held(body: &LongConnMsgBody) -> (r: Option<HeldSaid>)
    ensures
        held_said_view(r) == held_said(*body),
{
    let kind = body.msgtype.as_str();
    if same_text(kind, "text") {
        let text = trimmed(text_or_empty(&body.text).as_str());
        if text.as_str().is_empty() {
            return None;
        }
        return Some(HeldSaid { content: text, download: None, pending: false });
    }
    if same_text(kind, "image") {
        return Some(
            HeldSaid {
                content: IMAGE_TEXT.to_owned(),
                download: want_file(&body.image, "image", None),
                pending: true,
            },
        );
    }
    if same_text(kind, "mixed") {
        let text = match &body.mixed {
            Some(mixed) => build_mixed_summary(mixed),
            None => String::new(),
        };
        if text.as_str().is_empty() {
            return None;
        }
        return Some(HeldSaid { content: text, download: None, pending: false });
    }
    if same_text(kind, "voice") {
        let heard = trimmed(text_or_empty(&body.recognition).as_str());
        proof {
            assert(trim(Seq::<char>::empty()) =~= Seq::empty());
        }
        let content = if heard.as_str().is_empty() {
            VOICE_TEXT.to_owned()
        } else {
            let mut text = "用户发来一条语音，企业微信转写文本：".to_owned();
            text.push_str(heard.as_str());
            text
        };
        return Some(
            HeldSaid {
                content,
                download: want_file(&body.voice, "voice", Some("amr".to_owned())),
                pending: false,
            },
        );
    }
    if same_text(kind, "file") {
        let ext = match &body.filename {
            Some(name) => {
                let chars = chars_of(name.as_str());
                Some(text_of(after_last_of(chars.as_slice(), '.')))
            },
            None => None,
        };
        return Some(
            HeldSaid {
                content: file_text_of(text_or_empty(&body.filename).as_str()),
                download: want_file(&body.file, "file", ext),
                pending: true,
            },
        );
    }
    None
}

pub open spec fn sender_of(body: LongConnMsgBody) -> Seq<char> {
    match body.from {
        Some(from) => from.userid@,
        None => Seq::empty(),
    }
}

pub open spec fn nick_of(body: LongConnMsgBody) -> Option<Seq<char>> {
    match body.from {
        Some(from) => opt_text(from.nickname),
        None => None,
    }
}

/// The sender is a person who may write to the account.
pub open spec fn may_write(settings: ConfigView, body: LongConnMsgBody) -> bool {
    let user = sender_of(body);
    user.len() > 0 && !program_name(user) && allowed(settings.wecom.active.allow_from, user)
}

/// The ids that are known once a message was looked at.
pub open spec fn held_seen_after(
    settings: ConfigView,
    body: LongConnMsgBody,
    seen: Seq<Seq<char>>,
) -> Seq<Seq<char>> {
    if may_write(settings, body) && body.msgid@.len() > 0 {
        remembered(seen, body.msgid@)
    } else {
        seen
    }
}

/// What a message says, where it is passed on: it comes from someone who may write, did not come
/// in before, and says something.
pub open spec fn held_read(
    settings: ConfigView,
    body: LongConnMsgBody,
    seen: Seq<Seq<char>>,
) -> Option<HeldSaidView> {
    if !may_write(settings, body) {
        None
    } else if body.msgid@.len() > 0 && seen.contains(body.msgid@) {
        None
    } else {
        held_said(body)
    }
}

/// A message with an id is passed on once: looked at a second time, it is not.
pub proof fn law_held_message_once(settings: ConfigView, body: LongConnMsgBody, seen: Seq<Seq<char>>)
    requires
        body.msgid@.len() > 0,
    ensures
        held_read(settings, body, held_seen_after(settings, body, seen)) is None,
{
    law_seen_is_known(seen, body.msgid@);
}

/// A message that was passed on is not passed on again until as many newer ids have come in as are
/// remembered.
pub proof fn law_held_message_once_among_others(
    settings: ConfigView,
    body: LongConnMsgBody,
    seen: Seq<Seq<char>>,
    newer: Seq<Seq<char>>,
)
    requires
        held_read(settings, body, seen) is Some,
        body.msgid@.len() > 0,
        seen.len() <= SEEN_MAX,
        newer.len() < SEEN_MAX,
    ensures
        held_read(
            settings,
            body,
            remembered_all(held_seen_after(settings, body, seen), newer),
        ) is None,
{
    let now = held_seen_after(settings, body, seen);
    law_seen_is_known(seen, body.msgid@);
    assert(now.last() == body.msgid@);
    law_known_until_newer_fill_up(now, now.len() - 1, newer);
}

pub open spec fn held_metadata(body: LongConnMsgBody, pending: bool) -> JsonView {
    JsonView::Object(
        seq![
            ("aibot_id"@, JsonView::Str(body.aibotid@)),
            ("chat_type"@, JsonView::Str(body.chattype@)),
            ("media_pending_intent"@, JsonView::Bool(pending)),
            ("mode"@, JsonView::Str("long_connection"@)),
            ("msg_id"@, JsonView::Str(body.msgid@)),
            ("msg_type"@, JsonView::Str(body.msgtype@)),
            ("sender_nick"@, or_null(nick_of(body))),
        ],
    )
}

pub open spec fn held_media(said: HeldSaidView, downloaded: Option<Seq<char>>) -> Seq<Seq<char>> {
    if said.download is Some && downloaded is Some {
        seq![downloaded->0]
    } else {
        Seq::empty()
    }
}

/// The message that is passed on: the answer goes to the chat that it names, or to its sender.
pub open spec fn held_inbound(
    settings: ConfigView,
    body: LongConnMsgBody,
    said: HeldSaidView,
    downloaded: Option<Seq<char>>,
    time_ms: int,
) -> InboundView {
    InboundView {
        channel: "wecom"@,
        account_id: meant_account::<WeComAccountConfig>(settings.wecom),
        sender_id: sender_of(body),
        chat_id: if body.chatid@.len() == 0 {
            sender_of(body)
        } else {
            body.chatid@
        },
        content: said.content,
        media: held_media(said, downloaded),
        metadata: held_metadata(body, said.pending),
        timestamp_ms: time_ms,
    }
}

impl WeComChannel {
    /// What a message that came over the connection says, where it is passed on.
    pub fn read_body(&self, body: &LongConnMsgBody, seen: &mut SeenIds) -> (r: Option<HeldSaid>)
        ensures
            held_said_view(r) == held_read(self.config@, *body, old(seen)@),
            final(seen)@ == held_seen_after(self.config@, *body, old(seen)@),
    {
        let user = match &body.from {
            Some(from) => from.userid.clone(),
            None => String::new(),
        };
        if user.as_str().is_empty() || is_program_name(user.as_str()) {
            return None;
        }
        if !self.is_allowed(user.as_str()) {
            return None;
        }
        if !body.msgid.as_str().is_empty() && !seen.take_in(body.msgid.as_str()) {
            return None;
        }
        read_held(body)
    }

    /// The message as it is passed on at the time `time_ms`, with the file that was downloaded.
    pub fn inbound_at(
        &self,
        body: &LongConnMsgBody,
        said: &HeldSaid,
        downloaded: Option<String>,
        time_ms: i64,
    ) -> (r: InboundMessage)
        ensures
            r@ == held_inbound(
                self.config@,
                *body,
                said@,
                opt_text(downloaded),
                time_ms as int,
            ),
    {
        let (user, nick) = match &body.from {
            Some(from) => (from.userid.clone(), copy_opt(&from.nickname)),
            None => (String::new(), None),
        };
        let mut m: Vec<(String, Json)> = Vec::new();
        push_member(&mut m, "aibot_id", Json::text(body.aibotid.as_str()));
        push_member(&mut m, "chat_type", Json::text(body.chattype.as_str()));
        push_member(&mut m, "media_pending_intent", Json::Bool(said.pending));
        push_member(&mut m, "mode", Json::text("long_connection"));
        push_member(&mut m, "msg_id", Json::text(body.msgid.as_str()));
        push_member(&mut m, "msg_type", Json::text(body.msgtype.as_str()));
        push_member(&mut m, "sender_nick", text_or_null(&nick));
        let metadata = Json::Object(m);
        assert(metadata@->Object_0 =~= held_metadata(*body, said@.pending)->Object_0);
        let mut media: Vec<String> = Vec::new();
        if said.download.is_some() {
            if let Some(path) = downloaded {
                media.push(path);
                assert(texts_view(media@) =~= seq![path@]);
            }
        }
        assert(texts_view(media@) =~= held_media(said@, opt_text(downloaded)));
        InboundMessage {
            channel: "wecom".to_owned(),
            account_id: wecom_account_id(&self.config),
            sender_id: user.clone(),
            chat_id: if body.chatid.as_str().is_empty() {
                user
            } else {
                body.chatid.clone()
            },
            content: said.content.clone(),
            media,
            metadata,
            timestamp_ms: time_ms,
        }
    }

    /// The message as it is passed on now, with the file that was downloaded.
    pub fn inbound(
        &self,
        body: &LongConnMsgBody,
        said: &HeldSaid,
        downloaded: Option<String>,
    ) -> (r: InboundMessage)
        ensures
            r@ == held_inbound(
                self.config@,
                *body,
                said@,
                opt_text(downloaded),
                r@.timestamp_ms,
            ),
    {
        self.inbound_at(body, said, downloaded, now_millis())
    }
}

// ---------------------------------------------------------------------------
// Messages that were polled
// ---------------------------------------------------------------------------

pub open spec fn polled_text(message: JsonView) -> Seq<char> {
    match message.get("text"@) {
        Some(text) => trim(text.str_or("content"@, Seq::empty())),
        None => Seq::empty(),
    }
}

/// The message in a polled value: a text from someone who may write.
pub open spec fn polled_message(settings: ConfigView, message: JsonView, time_ms: int) -> Option<
    InboundView,
> {
    let user = message.str_or("from"@, Seq::empty());
    let party = message.str_or("toparty"@, Seq::empty());
    if message.str_or("msgtype"@, Seq::empty()) != "text"@ {
        None
    } else if polled_text(message).len() == 0 {
        None
    } else if !allowed(settings.wecom.active.allow_from, user) {
        None
    } else {
        Some(
            InboundView {
                channel: "wecom"@,
                account_id: meant_account::<WeComAccountConfig>(settings.wecom),
                sender_id: user,
                chat_id: if party.len() == 0 {
                    user
                } else {
                    party
                },
                content: polled_text(message),
                media: Seq::empty(),
                metadata: JsonView::Object(
                    seq![
                        ("mode"@, JsonView::Str("polling"@)),
                        ("msg_id"@, or_null(message.str_at("msgid"@))),
                        ("msg_type"@, JsonView::Str("text"@)),
                    ],
                ),
                timestamp_ms: time_ms,
            },
        )
    }
}

pub open spec fn inbound_view(message: Option<InboundMessage>) -> Option<InboundView> {
    match message {
        Some(m) => Some(m@),
        None => None,
    }
}

impl WeComChannel {
    /// The message in a value that was polled at the time `time_ms`.
    pub fn process_message_json(&self, message: &Json, time_ms: i64) -> (r: Option<InboundMessage>)
        ensures
            inbound_view(r) == polled_message(self.config@, message@, time_ms as int),
    {
        if !same_text(str_or_empty(message, "msgtype"), "text") {
            return None;
        }
        let content = match message.get("text") {
            Some(text) => trimmed(str_or_empty(text, "content")),
            None => String::new(),
        };
        if content.as_str().is_empty() {
            return None;
        }
        let user = str_or_empty(message, "from");
        if !self.is_allowed(user) {
            return None;
        }
        let party = str_or_empty(message, "toparty");
        let msg_id = match message.str_at("msgid") {
            Some(id) => Json::text(id),
            None => Json::Null,
        };
        let media: Vec<String> = Vec::new();
        assert(texts_view(media@) =~= Seq::empty());
        Some(
            InboundMessage {
                channel: "wecom".to_owned(),
                account_id: wecom_account_id(&self.config),
                sender_id: user.to_owned(),
                chat_id: if party.is_empty() {
                    user.to_owned()
                } else {
                    party.to_owned()
                },
                content,
                media,
                metadata: object3(
                    "mode",
                    Json::text("polling"),
                    "msg_id",
                    msg_id,
                    "msg_type",
                    Json::text("text"),
                ),
                timestamp_ms: time_ms,
            },
        )
    }
}

} // verus!
