//! Requests that WeCom sends to the webhook.

use crate::accounts::{listeners, listeners_view, meant_account, wecom_account_id, ListenerView};
use crate::accounts::wecom_listener_configs;
use crate::clock::now_millis;
use crate::config::{Config, ConfigView, WeComAccountConfig, WeComAccountView};
use crate::json::push_member;
use crate::messages::{copy_texts, InboundMessage, InboundView};
use crate::paths::{after_last, after_last_of};
use crate::seen::{
    law_known_until_newer_fill_up, law_seen_is_known, remembered, remembered_all, SeenIds, SEEN_MAX,
};
use crate::text::{
    chars_of, copy_opt, opt_text, same_text, text_of, texts_view, trim, trim_chars,
};
use crate::text_map::{held, TextMap};
use crate::value::{group_json_view, Json, JsonView};
use crate::wecom_crypto::{
    decrypt_wecom_msg, decrypted_bytes, extract_xml_tag, message_in, padding_fits, percent_decode,
    signature, tag_text, unescaped, verify_signature_4, DecryptError,
};
use vstd::prelude::*;
use vstd::utf8::encode_utf8;

verus! {

broadcast use group_json_view;

// ---------------------------------------------------------------------------
// What a request holds
// ---------------------------------------------------------------------------

/// A parameter of a request; empty where it is missing.
pub open spec fn parameter(query: Map<Seq<char>, Seq<char>>, key: Seq<char>) -> Seq<char> {
    match held(query, key) {
        Some(value) => value,
        None => Seq::empty(),
    }
}

/// The signature of a request, under its new or its old name.
pub open spec fn sent_signature(query: Map<Seq<char>, Seq<char>>) -> Seq<char> {
    if query.contains_key("msg_signature"@) {
        query["msg_signature"@]
    } else {
        parameter(query, "signature"@)
    }
}

/// The content of an element; empty where it is missing.
pub open spec fn element(xml: Seq<char>, name: Seq<char>) -> Seq<char> {
    match tag_text(xml, name) {
        Some(text) => text,
        None => Seq::empty(),
    }
}

/// What the signature of a request is for.
pub open spec fn signed_payload(
    method: Seq<char>,
    query: Map<Seq<char>, Seq<char>>,
    body: Seq<char>,
) -> Seq<char> {
    if method == "GET"@ {
        match held(query, "echostr"@) {
            Some(text) => unescaped(encode_utf8(text)),
            None => Seq::empty(),
        }
    } else {
        element(body, "Encrypt"@)
    }
}

/// The request is signed with this token.
pub open spec fn signed_with(
    token: Seq<char>,
    query: Map<Seq<char>, Seq<char>>,
    payload: Seq<char>,
) -> bool {
    signature(
        seq![token, parameter(query, "timestamp"@), parameter(query, "nonce"@), payload],
    ) == sent_signature(query)
}

fn parameter_of(query: &TextMap, key: &str) -> (r: String)
    ensures
        r@ == parameter(query@, key@),
{
    match query.get(key) {
        Some(value) => value,
        None => String::new(),
    }
}

fn sent_signature_of(query: &TextMap) -> (r: String)
    ensures
        r@ == sent_signature(query@),
{
    match query.get("msg_signature") {
        Some(value) => value,
        None => parameter_of(query, "signature"),
    }
}

fn element_of(xml: &str, name: &str) -> (r: String)
    ensures
        r@ == element(xml@, name@),
{
    match extract_xml_tag(xml, name) {
        Some(text) => text,
        None => String::new(),
    }
}

fn is_signed_with(token: &str, query: &TextMap, payload: &str) -> (r: bool)
    ensures
        r == signed_with(token@, query@, payload@),
{
    verify_signature_4(
        token,
        parameter_of(query, "timestamp").as_str(),
        parameter_of(query, "nonce").as_str(),
        payload,
        sent_signature_of(query).as_str(),
    )
}

// ---------------------------------------------------------------------------
// The account that a request is for
// ---------------------------------------------------------------------------

/// The settings of the first listener, from the one at `i` on, whose token signed the request.
pub open spec fn signer_from(
    list: Seq<ListenerView>,
    i: nat,
    query: Map<Seq<char>, Seq<char>>,
    payload: Seq<char>,
) -> Option<ConfigView>
    decreases list.len() - i,
{
    if i >= list.len() {
        None
    } else {
        let config = list[i as int].config;
        let token = config.wecom.active.callback_token;
        if token.len() > 0 && signed_with(token, query, payload) {
            Some(config)
        } else {
            signer_from(list, i + 1, query, payload)
        }
    }
}

/// The settings under which a request is answered: those of the only listener, or of the listener
/// whose token signed the request; else those that were given.
pub open spec fn webhook_settings(
    config: ConfigView,
    method: Seq<char>,
    query: Map<Seq<char>, Seq<char>>,
    body: Seq<char>,
) -> ConfigView {
    let list = listeners::<WeComAccountConfig>(config);
    let payload = signed_payload(method, query, body);
    if list.len() == 0 {
        config
    } else if list.len() == 1 {
        list[0].config
    } else if sent_signature(query).len() > 0 && payload.len() > 0 {
        match signer_from(list, 0, query, payload) {
            Some(settings) => settings,
            None => config,
        }
    } else {
        config
    }
}

pub fn resolve_wecom_webhook_config(config: &Config, method: &str, query: &TextMap, body: &str) -> (r: Config)
    ensures
        r@ == webhook_settings(config@, method@, query@, body@),
{
    let list = wecom_listener_configs(config);
    let ghost views = listeners_view(list@);
    if list.len() == 0 {
        return config.clone();
    }
    if list.len() == 1 {
        assert(views[0] == list@[0]@);
        return list[0].config.clone();
    }
    let payload = if same_text(method, "GET") {
        match query.get("echostr") {
            Some(text) => percent_decode(text.as_str()),
            None => String::new(),
        }
    } else {
        element_of(body, "Encrypt")
    };
    assert(payload@ == signed_payload(method@, query@, body@));
    if !sent_signature_of(query).as_str().is_empty() && !payload.as_str().is_empty() {
        let mut i: usize = 0;
        while i < list.len()
            invariant
                i <= list.len(),
                views == listeners_view(list@),
                signer_from(views, 0, query@, payload@) == signer_from(
                    views,
                    i as nat,
                    query@,
                    payload@,
                ),
                views == listeners::<WeComAccountConfig>(config@),
                views.len() > 1,
                sent_signature(query@).len() > 0,
                payload@.len() > 0,
                payload@ == signed_payload(method@, query@, body@),
            decreases list.len() - i,
        {
            assert(views[i as int] == list@[i as int]@);
            let token = list[i].config.channels.wecom.active.callback_token.as_str();
            if !token.is_empty() && is_signed_with(token, query, payload.as_str()) {
                return list[i].config.clone();
            }
            i += 1;
        }
    }
    config.clone()
}

// ---------------------------------------------------------------------------
// The verification of the address
// ---------------------------------------------------------------------------

/// The request comes from WeCom, or pretends to.
pub open spec fn from_wecom(query: Map<Seq<char>, Seq<char>>) -> bool {
    query.contains_key("msg_signature"@) || query.contains_key("signature"@) || query.contains_key(
        "echostr"@,
    )
}

pub open spec fn refused() -> (int, Seq<char>) {
    (403, "Forbidden: invalid signature"@)
}

pub open spec fn accepted() -> (int, Seq<char>) {
    (200, "success"@)
}

pub open spec fn answer_view(answer: (u16, String)) -> (int, Seq<char>) {
    (answer.0 as int, answer.1@)
}

/// What is to be decrypted before the address is confirmed, or the answer to a request of which
/// nothing is decrypted.
pub open spec fn challenge(settings: WeComAccountView, query: Map<Seq<char>, Seq<char>>) -> Result<
    Seq<char>,
    (int, Seq<char>),
> {
    let text = unescaped(encode_utf8(parameter(query, "echostr"@)));
    if !from_wecom(query) {
        Err((200, "ok"@))
    } else if settings.callback_token.len() > 0 && !signed_with(
        settings.callback_token,
        query,
        text,
    ) {
        Err(refused())
    } else {
        Ok(text)
    }
}

pub fn check_challenge(settings: &WeComAccountConfig, query: &TextMap) -> (r: Result<
    String,
    (u16, String),
>)
    ensures
        match challenge(settings@, query@) {
            Ok(text) => r is Ok && r->Ok_0@ == text,
            Err(answer) => r is Err && answer_view(r->Err_0) == answer,
        },
{
    if !query.contains_key("msg_signature") && !query.contains_key("signature")
        && !query.contains_key("echostr") {
        return Err((200, "ok".to_owned()));
    }
    let text = percent_decode(parameter_of(query, "echostr").as_str());
    let token = settings.callback_token.as_str();
    if !token.is_empty() && !is_signed_with(token, query, text.as_str()) {
        return Err((403, "Forbidden: invalid signature".to_owned()));
    }
    Ok(text)
}

/// The text of a decrypted message.
pub open spec fn opened(message: Seq<char>, key: Seq<char>) -> Option<Seq<char>> {
    match decrypted_bytes(message, key) {
        Ok(bytes) => if padding_fits(bytes) {
            match message_in(bytes) {
                Ok(text) => Some(text),
                Err(_) => None,
            }
        } else {
            None
        },
        Err(_) => None,
    }
}

pub open spec fn opened_text(decrypted: Result<String, DecryptError>) -> Option<Seq<char>> {
    match decrypted {
        Ok(text) => Some(text@),
        Err(_) => None,
    }
}

pub open spec fn confirmation(opened: Option<Seq<char>>) -> (int, Seq<char>) {
    match opened {
        Some(text) => (200, text),
        None => (500, "decrypt error"@),
    }
}

/// The answer that confirms the address.
pub fn confirm_address(decrypted: Result<String, DecryptError>) -> (r: (u16, String))
    ensures
        answer_view(r) == confirmation(opened_text(decrypted)),
{
    match decrypted {
        Ok(text) => (200, text),
        Err(_) => (500, "decrypt error".to_owned()),
    }
}

pub open spec fn get_answer(settings: WeComAccountView, query: Map<Seq<char>, Seq<char>>) -> (
    int,
    Seq<char>,
) {
    match challenge(settings, query) {
        Ok(text) => confirmation(opened(text, settings.encoding_aes_key)),
        Err(answer) => answer,
    }
}

/// Answers the request that verifies the address.
pub fn answer_get(settings: &WeComAccountConfig, query: &TextMap) -> (r: (u16, String))
    ensures
        answer_view(r) == get_answer(settings@, query@),
{
    match check_challenge(settings, query) {
        Ok(text) => confirm_address(
            decrypt_wecom_msg(text.as_str(), settings.encoding_aes_key.as_str()),
        ),
        Err(answer) => answer,
    }
}

// ---------------------------------------------------------------------------
// The body of a message
// ---------------------------------------------------------------------------

/// What the body of a request is.
pub enum Envelope {
    Answer(u16, String),
    Plain(String),
    Encrypted(String),
}

pub enum EnvelopeView {
    Answer((int, Seq<char>)),
    Plain(Seq<char>),
    Encrypted(Seq<char>),
}

impl View for Envelope {
    type V = EnvelopeView;

    open spec fn view(&self) -> EnvelopeView {
        match self {
            Envelope::Answer(status, text) => EnvelopeView::Answer((*status as int, text@)),
            Envelope::Plain(text) => EnvelopeView::Plain(text@),
            Envelope::Encrypted(text) => EnvelopeView::Encrypted(text@),
        }
    }
}

/// A request without a body is accepted; an encrypted message that is not signed with the token is
/// refused. Without a key the body is read as it is.
pub open spec fn envelope(
    settings: WeComAccountView,
    query: Map<Seq<char>, Seq<char>>,
    body: Seq<char>,
) -> EnvelopeView {
    let message = element(body, "Encrypt"@);
    if body.len() == 0 {
        EnvelopeView::Answer(accepted())
    } else if settings.callback_token.len() > 0 && message.len() > 0 && !signed_with(
        settings.callback_token,
        query,
        message,
    ) {
        EnvelopeView::Answer(refused())
    } else if message.len() > 0 && settings.encoding_aes_key.len() > 0 {
        EnvelopeView::Encrypted(message)
    } else {
        EnvelopeView::Plain(body)
    }
}

pub fn check_envelope(settings: &WeComAccountConfig, query: &TextMap, body: &str) -> (r: Envelope)
    ensures
        r@ == envelope(settings@, query@, body@),
{
    if body.is_empty() {
        return Envelope::Answer(200, "success".to_owned());
    }
    let message = element_of(body, "Encrypt");
    let token = settings.callback_token.as_str();
    if !token.is_empty() && !message.as_str().is_empty() && !is_signed_with(
        token,
        query,
        message.as_str(),
    ) {
        return Envelope::Answer(403, "Forbidden: invalid signature".to_owned());
    }
    if !message.as_str().is_empty() && !settings.encoding_aes_key.as_str().is_empty() {
        Envelope::Encrypted(message)
    } else {
        Envelope::Plain(body.to_owned())
    }
}

// ---------------------------------------------------------------------------
// Messages
// ---------------------------------------------------------------------------

/// A file that is to be downloaded.
pub struct Download {
    pub media_id: String,
    pub media_type: &'static str,
    pub ext: Option<String>,
}

pub struct DownloadView {
    pub media_id: Seq<char>,
    pub media_type: Seq<char>,
    pub ext: Option<Seq<char>>,
}

impl View for Download {
    type V = DownloadView;

    open spec fn view(&self) -> DownloadView {
        DownloadView {
            media_id: self.media_id@,
            media_type: self.media_type@,
            ext: opt_text(self.ext),
        }
    }
}

pub open spec fn download_view(download: Option<Download>) -> Option<DownloadView> {
    match download {
        Some(d) => Some(d@),
        None => None,
    }
}

/// What a message says: the text that is passed on, the file that comes with it, the files in its
/// place where it cannot be had, and whether the sender is to be asked what to do.
pub struct Said {
    pub content: String,
    pub download: Option<Download>,
    pub otherwise: Vec<String>,
    pub pending: bool,
}

pub struct SaidView {
    pub content: Seq<char>,
    pub download: Option<DownloadView>,
    pub otherwise: Seq<Seq<char>>,
    pub pending: bool,
}

impl View for Said {
    type V = SaidView;

    open spec fn view(&self) -> SaidView {
        SaidView {
            content: self.content@,
            download: download_view(self.download),
            otherwise: texts_view(self.otherwise@),
            pending: self.pending,
        }
    }
}

pub open spec fn said_view(said: Option<Said>) -> Option<SaidView> {
    match said {
        Some(s) => Some(s@),
        None => None,
    }
}

/// A text and nothing else.
pub open spec fn just_text(content: Seq<char>) -> SaidView {
    SaidView { content, download: None, otherwise: Seq::empty(), pending: false }
}

/// The file of a message, where the message names one.
pub open spec fn file_wanted(
    body: Seq<char>,
    media_type: Seq<char>,
    ext: Option<Seq<char>>,
) -> Option<DownloadView> {
    let media_id = element(body, "MediaId"@);
    if media_id.len() > 0 {
        Some(DownloadView { media_id, media_type, ext })
    } else {
        None
    }
}

pub const IMAGE_TEXT: &'static str =
    "用户发来了一张图片，请问您需要我做什么？（例如：描述图片内容、识别文字、发回给您等）";

pub const VOICE_TEXT: &'static str =
    "用户发来了一条语音消息，请先用 audio_transcribe 工具转写，然后根据转写内容回复用户。";

pub const VIDEO_TEXT: &'static str =
    "用户发来了一个视频，请问您需要我做什么？（例如：提取音频、截取片段等）";

pub const VOICE_RECEIVED: &'static str = "🎤 语音已收到，正在转写...";

/// What is said of a file that came in.
pub open spec fn file_text(name: Seq<char>) -> Seq<char> {
    if name.len() == 0 {
        "用户发来了一个文件，请问您需要我做什么？（例如：读取内容、分析数据等）"@
    } else {
        "用户发来了文件「"@ + name
            + "」，请问您需要我做什么？（例如：读取内容、分析数据等）"@
    }
}

pub fn file_text_of(name: &str) -> (r: String)
    ensures
        r@ == file_text(name@),
{
    if name.is_empty() {
        "用户发来了一个文件，请问您需要我做什么？（例如：读取内容、分析数据等）".to_owned()
    } else {
        let mut r = "用户发来了文件「".to_owned();
        r.push_str(name);
        r.push_str("」，请问您需要我做什么？（例如：读取内容、分析数据等）");
        r
    }
}

/// What is said of a place.
pub open spec fn place_text(label: Seq<char>, x: Seq<char>, y: Seq<char>) -> Seq<char> {
    if label.len() == 0 {
        "[位置] 纬度:"@ + x + " 经度:"@ + y
    } else {
        "[位置] "@ + label + " (纬度:"@ + x + " 经度:"@ + y + ")"@
    }
}

fn place_text_of(label: &str, x: &str, y: &str) -> (r: String)
    ensures
        r@ == place_text(label@, x@, y@),
{
    if label.is_empty() {
        let mut r = "[位置] 纬度:".to_owned();
        r.push_str(x);
        r.push_str(" 经度:");
        r.push_str(y);
        r
    } else {
        let mut r = "[位置] ".to_owned();
        r.push_str(label);
        r.push_str(" (纬度:");
        r.push_str(x);
        r.push_str(" 经度:");
        r.push_str(y);
        r.push_str(")");
        r
    }
}

/// What a message of some kind says; nothing where it says nothing or is of no known kind.
pub open spec fn said_in(body: Seq<char>, kind: Seq<char>) -> Option<SaidView> {
    if kind == "text"@ {
        let text = trim(element(body, "Content"@));
        if text.len() == 0 {
            None
        } else {
            Some(just_text(text))
        }
    } else if kind == "image"@ {
        let url = element(body, "PicUrl"@);
        Some(
            SaidView {
                content: IMAGE_TEXT@,
                download: file_wanted(body, "image"@, None),
                otherwise: if url.len() > 0 {
                    seq![url]
                } else {
                    Seq::empty()
                },
                pending: true,
            },
        )
    } else if kind == "voice"@ {
        let format = match tag_text(body, "Format"@) {
            Some(format) => format,
            None => "amr"@,
        };
        Some(
            SaidView {
                content: VOICE_TEXT@,
                download: file_wanted(body, "voice"@, Some(format)),
                otherwise: Seq::empty(),
                pending: false,
            },
        )
    } else if kind == "video"@ || kind == "shortvideo"@ {
        Some(
            SaidView {
                content: VIDEO_TEXT@,
                download: file_wanted(body, "video"@, Some("mp4"@)),
                otherwise: Seq::empty(),
                pending: true,
            },
        )
    } else if kind == "file"@ {
        let name = element(body, "FileName"@);
        Some(
            SaidView {
                content: file_text(name),
                download: file_wanted(body, "file"@, Some(after_last(name, '.'))),
                otherwise: Seq::empty(),
                pending: true,
            },
        )
    } else if kind == "location"@ {
        Some(
            just_text(
                place_text(
                    element(body, "Label"@),
                    element(body, "Location_X"@),
                    element(body, "Location_Y"@),
                ),
            ),
        )
    } else if kind == "link"@ {
        Some(
            just_text(
                "[链接] "@ + element(body, "Title"@) + " "@ + element(body, "Url"@),
            ),
        )
    } else {
        None
    }
}

fn want_file(body: &str, media_type: &'static str, ext: Option<String>) -> (r: Option<Download>)
    ensures
        download_view(r) == file_wanted(body@, media_type@, opt_text(ext)),
{
    let media_id = element_of(body, "MediaId");
    if media_id.as_str().is_empty() {
        None
    } else {
        Some(Download { media_id, media_type, ext })
    }
}

fn say(content: String, download: Option<Download>, pending: bool) -> (r: Said)
    ensures
        r@ == (SaidView {
            content: content@,
            download: download_view(download),
            otherwise: Seq::empty(),
            pending,
        }),
{
    let r = Said { content, download, otherwise: Vec::new(), pending };
    assert(r@.otherwise =~= Seq::empty());
    r
}

pub fn read_said(body: &str, kind: &str) -> (r: Option<Said>)
    ensures
        said_view(r) == said_in(body@, kind@),
{
    if same_text(kind, "text") {
        let chars = chars_of(element_of(body, "Content").as_str());
        let text = text_of(trim_chars(chars.as_slice()));
        if text.as_str().is_empty() {
            return None;
        }
        return Some(say(text, None, false));
    }
    if same_text(kind, "image") {
        let url = element_of(body, "PicUrl");
        let mut said = say(IMAGE_TEXT.to_owned(), want_file(body, "image", None), true);
        if !url.as_str().is_empty() {
            said.otherwise.push(url);
            assert(said@.otherwise =~= seq![url@]);
        }
        return Some(said);
    }
    if same_text(kind, "voice") {
        let format = match extract_xml_tag(body, "Format") {
            Some(format) => format,
            None => "amr".to_owned(),
        };
        return Some(
            say(VOICE_TEXT.to_owned(), want_file(body, "voice", Some(format)), false),
        );
    }
    if same_text(kind, "video") || same_text(kind, "shortvideo") {
        return Some(
            say(VIDEO_TEXT.to_owned(), want_file(body, "video", Some("mp4".to_owned())), true),
        );
    }
    if same_text(kind, "file") {
        let name = element_of(body, "FileName");
        let chars = chars_of(name.as_str());
        let ext = text_of(after_last_of(chars.as_slice(), '.'));
        return Some(
            say(file_text_of(name.as_str()), want_file(body, "file", Some(ext)), true),
        );
    }
    if same_text(kind, "location") {
        let text = place_text_of(
            element_of(body, "Label").as_str(),
            element_of(body, "Location_X").as_str(),
            element_of(body, "Location_Y").as_str(),
        );
        return Some(say(text, None, false));
    }
    if same_text(kind, "link") {
        let mut text = "[链接] ".to_owned();
        text.push_str(element_of(body, "Title").as_str());
        text.push_str(" ");
        text.push_str(element_of(body, "Url").as_str());
        return Some(say(text, None, false));
    }
    None
}

/// The sender may write to the account: all may where none is named.
pub open spec fn allowed(allow_from: Seq<Seq<char>>, user: Seq<char>) -> bool {
    allow_from.len() == 0 || allow_from.contains(user)
}

pub fn is_allowed(allow_from: &Vec<String>, user: &str) -> (r: bool)
    ensures
        r == allowed(texts_view(allow_from@), user@),
{
    if allow_from.len() == 0 {
        return true;
    }
    let ghost texts = texts_view(allow_from@);
    let mut i: usize = 0;
    while i < allow_from.len()
        invariant
            i <= allow_from.len(),
            texts == texts_view(allow_from@),
            forall|k: int| 0 <= k < i ==> texts[k] != user@,
        decreases allow_from.len() - i,
    {
        if same_text(allow_from[i].as_str(), user) {
            assert(texts[i as int] == user@);
            return true;
        }
        i += 1;
    }
    false
}

/// The name of a program and not of a person.
pub open spec fn program_name(user: Seq<char>) -> bool {
    user.len() > 0 && user[0] == '@'
}

pub fn is_program_name(user: &str) -> (r: bool)
    ensures
        r == program_name(user@),
{
    let chars = chars_of(user);
    chars.len() > 0 && chars[0] == '@'
}

/// A message that came in over the webhook.
pub struct WebhookMessage {
    pub account_id: Option<String>,
    pub from_user: String,
    pub msg_id: Option<String>,
    pub msg_type: String,
    pub said: Said,
}

pub struct WebhookView {
    pub account_id: Option<Seq<char>>,
    pub from_user: Seq<char>,
    pub msg_id: Option<Seq<char>>,
    pub msg_type: Seq<char>,
    pub said: SaidView,
}

impl View for WebhookMessage {
    type V = WebhookView;

    open spec fn view(&self) -> WebhookView {
        WebhookView {
            account_id: opt_text(self.account_id),
            from_user: self.from_user@,
            msg_id: opt_text(self.msg_id),
            msg_type: self.msg_type@,
            said: self.said@,
        }
    }
}

pub open spec fn webhook_view(message: Option<WebhookMessage>) -> Option<WebhookView> {
    match message {
        Some(m) => Some(m@),
        None => None,
    }
}

/// The ids that are known once a message was looked at.
pub open spec fn seen_after(body: Seq<char>, seen: Seq<Seq<char>>) -> Seq<Seq<char>> {
    match tag_text(body, "MsgId"@) {
        Some(id) if id.len() > 0 && !program_name(element(body, "FromUserName"@)) => remembered(
            seen,
            id,
        ),
        _ => seen,
    }
}

/// The message in a body: nothing where it was sent by a program, came in before, comes from
/// someone who may not write, or says nothing.
pub open spec fn message_read(
    settings: ConfigView,
    body: Seq<char>,
    seen: Seq<Seq<char>>,
) -> Option<WebhookView> {
    let from_user = element(body, "FromUserName"@);
    let msg_type = element(body, "MsgType"@);
    let msg_id = tag_text(body, "MsgId"@);
    if program_name(from_user) {
        None
    } else if msg_id is Some && msg_id->0.len() > 0 && seen.contains(msg_id->0) {
        None
    } else if !allowed(settings.wecom.active.allow_from, from_user) {
        None
    } else {
        match said_in(body, msg_type) {
            Some(said) => Some(
                WebhookView {
                    account_id: meant_account::<WeComAccountConfig>(settings.wecom),
                    from_user,
                    msg_id,
                    msg_type,
                    said,
                },
            ),
            None => None,
        }
    }
}

/// Reads the body of a message. `settings` are those of the account that it is for.
pub fn read_message(settings: &Config, body: &str, seen: &mut SeenIds) -> (r: Option<
    WebhookMessage,
>)
    ensures
        webhook_view(r) == message_read(settings@, body@, old(seen)@),
        final(seen)@ == seen_after(body@, old(seen)@),
{
    let from_user = element_of(body, "FromUserName");
    let msg_type = element_of(body, "MsgType");
    let msg_id = extract_xml_tag(body, "MsgId");
    if is_program_name(from_user.as_str()) {
        return None;
    }
    if let Some(id) = &msg_id {
        if !id.as_str().is_empty() && !seen.take_in(id.as_str()) {
            return None;
        }
    }
    if !is_allowed(&settings.channels.wecom.active.allow_from, from_user.as_str()) {
        return None;
    }
    match read_said(body, msg_type.as_str()) {
        Some(said) => Some(
            WebhookMessage {
                account_id: wecom_account_id(settings),
                from_user,
                msg_id,
                msg_type,
                said,
            },
        ),
        None => None,
    }
}

/// A message with an id is passed on once: looked at a second time, it is not.
pub proof fn law_message_once(settings: ConfigView, body: Seq<char>, seen: Seq<Seq<char>>)
    requires
        tag_text(body, "MsgId"@) is Some,
        tag_text(body, "MsgId"@)->0.len() > 0,
    ensures
        message_read(settings, body, seen_after(body, seen)) is None,
        seen_after(body, seen_after(body, seen)) == seen_after(body, seen),
{
    law_seen_is_known(seen, tag_text(body, "MsgId"@)->0);
}

/// A message that was passed on is not passed on again until as many newer ids have come in as are
/// remembered.
pub proof fn law_message_once_among_others(
    settings: ConfigView,
    body: Seq<char>,
    seen: Seq<Seq<char>>,
    newer: Seq<Seq<char>>,
)
    requires
        message_read(settings, body, seen) is Some,
        tag_text(body, "MsgId"@) is Some,
        tag_text(body, "MsgId"@)->0.len() > 0,
        seen.len() <= SEEN_MAX,
        newer.len() < SEEN_MAX,
    ensures
        message_read(settings, body, remembered_all(seen_after(body, seen), newer)) is None,
{
    let id = tag_text(body, "MsgId"@)->0;
    let now = seen_after(body, seen);
    law_seen_is_known(seen, id);
    assert(now.last() == id);
    law_known_until_newer_fill_up(now, now.len() - 1, newer);
}

impl WebhookMessage {
    /// The voice message of a sender with a name is acknowledged at once.
    pub fn acknowledged(&self) -> (r: Option<&'static str>)
        ensures
            match r {
                Some(text) => self@.msg_type == "voice"@ && self@.from_user.len() > 0 && text@
                    == VOICE_RECEIVED@,
                None => self@.msg_type != "voice"@ || self@.from_user.len() == 0,
            },
    {
        if same_text(self.msg_type.as_str(), "voice") && !self.from_user.as_str().is_empty() {
            Some(VOICE_RECEIVED)
        } else {
            None
        }
    }

    /// Whether the file is downloaded with the settings of the program and not with those of the
    /// account.
    pub fn downloads_unscoped(&self) -> (r: bool)
        ensures
            r == (self@.msg_type == "voice"@),
    {
        same_text(self.msg_type.as_str(), "voice")
    }

    /// The files that are passed on: the one that was downloaded, or those in its place.
    pub fn media(&self, downloaded: Option<String>) -> (r: Vec<String>)
        ensures
            texts_view(r@) == media_passed(self@.said, opt_text(downloaded)),
    {
        if self.said.download.is_some() {
            if let Some(path) = downloaded {
                let mut r: Vec<String> = Vec::new();
                r.push(path);
                assert(texts_view(r@) =~= seq![path@]);
                return r;
            }
        }
        copy_texts(&self.said.otherwise)
    }

    /// The message as it is passed on at the time `time_ms`.
    pub fn inbound_at(&self, downloaded: Option<String>, time_ms: i64) -> (r: InboundMessage)
        ensures
            r@ == webhook_inbound(self@, opt_text(downloaded), time_ms as int),
    {
        let mut m: Vec<(String, Json)> = Vec::new();
        push_member(&mut m, "media_pending_intent", Json::Bool(self.said.pending));
        push_member(&mut m, "mode", Json::text("webhook"));
        push_member(&mut m, "msg_id", text_or_null(&self.msg_id));
        push_member(&mut m, "msg_type", Json::text(self.msg_type.as_str()));
        let metadata = Json::Object(m);
        assert(metadata@->Object_0 =~= webhook_metadata(self@)->Object_0);
        InboundMessage {
            channel: "wecom".to_owned(),
            account_id: copy_opt(&self.account_id),
            sender_id: self.from_user.clone(),
            chat_id: self.from_user.clone(),
            content: self.said.content.clone(),
            media: self.media(downloaded),
            metadata,
            timestamp_ms: time_ms,
        }
    }

    /// The message as it is passed on now.
    pub fn inbound(&self, downloaded: Option<String>) -> (r: InboundMessage)
        ensures
            r@ == webhook_inbound(self@, opt_text(downloaded), r@.timestamp_ms),
    {
        self.inbound_at(downloaded, now_millis())
    }
}

pub open spec fn media_passed(said: SaidView, downloaded: Option<Seq<char>>) -> Seq<Seq<char>> {
    if said.download is Some && downloaded is Some {
        seq![downloaded->0]
    } else {
        said.otherwise
    }
}

pub open spec fn or_null(text: Option<Seq<char>>) -> JsonView {
    match text {
        Some(t) => JsonView::Str(t),
        None => JsonView::Null,
    }
}

pub fn text_or_null(text: &Option<String>) -> (r: Json)
    ensures
        r@ == or_null(opt_text(*text)),
{
    match text {
        Some(t) => Json::text(t.as_str()),
        None => Json::Null,
    }
}

pub open spec fn webhook_metadata(message: WebhookView) -> JsonView {
    JsonView::Object(
        seq![
            ("media_pending_intent"@, JsonView::Bool(message.said.pending)),
            ("mode"@, JsonView::Str("webhook"@)),
            ("msg_id"@, or_null(message.msg_id)),
            ("msg_type"@, JsonView::Str(message.msg_type)),
        ],
    )
}

/// The message that is passed on: the sender is also the one who is answered.
pub open spec fn webhook_inbound(
    message: WebhookView,
    downloaded: Option<Seq<char>>,
    time_ms: int,
) -> InboundView {
    InboundView {
        channel: "wecom"@,
        account_id: message.account_id,
        sender_id: message.from_user,
        chat_id: message.from_user,
        content: message.said.content,
        media: media_passed(message.said, downloaded),
        metadata: webhook_metadata(message),
        timestamp_ms: time_ms,
    }
}

// ---------------------------------------------------------------------------
// Requests
// ---------------------------------------------------------------------------

/// What a request comes to: an answer, and a message that is passed on before the answer goes out.
pub struct Handled {
    pub status: u16,
    pub answer: String,
    pub message: Option<WebhookMessage>,
    /// The settings of the account that the request is for.
    pub settings: Config,
}

/// The answer to a request, the message that is passed on, and the ids that are known then.
pub open spec fn handled(
    config: ConfigView,
    method: Seq<char>,
    query: Map<Seq<char>, Seq<char>>,
    body: Seq<char>,
    seen: Seq<Seq<char>>,
) -> ((int, Seq<char>), Option<WebhookView>, Seq<Seq<char>>) {
    let settings = webhook_settings(config, method, query, body);
    let account = settings.wecom.active;
    if method == "GET"@ {
        (get_answer(account, query), None, seen)
    } else {
        match envelope(account, query, body) {
            EnvelopeView::Answer(answer) => (answer, None, seen),
            EnvelopeView::Plain(text) => (
                accepted(),
                message_read(settings, text, seen),
                seen_after(text, seen),
            ),
            EnvelopeView::Encrypted(message) => match opened(message, account.encoding_aes_key) {
                Some(text) => (
                    accepted(),
                    message_read(settings, text, seen),
                    seen_after(text, seen),
                ),
                None => (accepted(), None, seen),
            },
        }
    }
}

/// Handles a request to the webhook.
pub fn process_webhook(
    config: &Config,
    method: &str,
    query: &TextMap,
    body: &str,
    seen: &mut SeenIds,
) -> (r: Handled)
    ensures
        r.settings@ == webhook_settings(config@, method@, query@, body@),
        ((r.status as int, r.answer@), webhook_view(r.message), final(seen)@) == handled(
            config@,
            method@,
            query@,
            body@,
            old(seen)@,
        ),
{
    let settings = resolve_wecom_webhook_config(config, method, query, body);
    let account = &settings.channels.wecom.active;
    if same_text(method, "GET") {
        let (status, answer) = answer_get(account, query);
        return Handled { status, answer, message: None, settings };
    }
    let plain = match check_envelope(account, query, body) {
        Envelope::Answer(status, answer) => {
            return Handled { status, answer, message: None, settings };
        },
        Envelope::Plain(text) => text,
        Envelope::Encrypted(message) => match decrypt_wecom_msg(
            message.as_str(),
            account.encoding_aes_key.as_str(),
        ) {
            Ok(text) => text,
            Err(_) => {
                return Handled {
                    status: 200,
                    answer: "success".to_owned(),
                    message: None,
                    settings,
                };
            },
        },
    };
    let message = read_message(&settings, plain.as_str(), seen);
    Handled { status: 200, answer: "success".to_owned(), message, settings }
}

/// A request that is delivered again is accepted, but its message is not passed on a second time
/// until as many newer ids have come in as are remembered.
pub proof fn law_repeated_request_is_not_passed_on(
    config: ConfigView,
    query: Map<Seq<char>, Seq<char>>,
    body: Seq<char>,
    seen: Seq<Seq<char>>,
    newer: Seq<Seq<char>>,
)
    requires
        handled(config, "POST"@, query, body, seen).1 is Some,
        handled(config, "POST"@, query, body, seen).1->0.msg_id is Some,
        handled(config, "POST"@, query, body, seen).1->0.msg_id->0.len() > 0,
        seen.len() <= SEEN_MAX,
        newer.len() < SEEN_MAX,
    ensures
        ({
            let held = remembered_all(handled(config, "POST"@, query, body, seen).2, newer);
            handled(config, "POST"@, query, body, held) == (
                accepted(),
                None::<WebhookView>,
                held,
            )
        }),
{
    reveal_strlit("GET");
    reveal_strlit("POST");
    assert("GET"@[0] == 'G' && "POST"@[0] == 'P');
    let settings = webhook_settings(config, "POST"@, query, body);
    let account = settings.wecom.active;
    let text = match envelope(account, query, body) {
        EnvelopeView::Plain(text) => text,
        EnvelopeView::Encrypted(message) => opened(message, account.encoding_aes_key)->0,
        EnvelopeView::Answer(_) => Seq::empty(),
    };
    let id = tag_text(text, "MsgId"@)->0;
    let now = seen_after(text, seen);
    law_message_once_among_others(settings, text, seen, newer);
    law_seen_is_known(seen, id);
    assert(now.last() == id);
    law_known_until_newer_fill_up(now, now.len() - 1, newer);
}

/// A request whose encrypted message is not signed with the token of its account is refused: no
/// message is passed on, and nothing is remembered of it.
pub proof fn law_unsigned_is_refused(
    config: ConfigView,
    query: Map<Seq<char>, Seq<char>>,
    body: Seq<char>,
    seen: Seq<Seq<char>>,
)
    requires
        body.len() > 0,
        element(body, "Encrypt"@).len() > 0,
        webhook_settings(config, "POST"@, query, body).wecom.active.callback_token.len() > 0,
        !signed_with(
            webhook_settings(config, "POST"@, query, body).wecom.active.callback_token,
            query,
            element(body, "Encrypt"@),
        ),
    ensures
        handled(config, "POST"@, query, body, seen) == (refused(), None::<WebhookView>, seen),
{
    reveal_strlit("POST");
    reveal_strlit("GET");
    assert("POST"@.len() == 4);
    assert("GET"@.len() == 3);
}

/// Among several accounts a request is handled for one whose token signed it, whatever the
/// settings in use are.
pub proof fn law_signer_is_found(
    list: Seq<ListenerView>,
    i: nat,
    query: Map<Seq<char>, Seq<char>>,
    payload: Seq<char>,
)
    ensures
        match signer_from(list, i, query, payload) {
            Some(config) => exists|k: int|
                i <= k < list.len() && (#[trigger] list[k]).config == config && signed_with(
                    config.wecom.active.callback_token,
                    query,
                    payload,
                ),
            None => forall|k: int|
                i <= k < list.len() && (#[trigger] list[k]).config.wecom.active.callback_token.len()
                    > 0 ==> !signed_with(
                    list[k].config.wecom.active.callback_token,
                    query,
                    payload,
                ),
        },
    decreases list.len() - i,
{
    if i < list.len() {
        let here = list[i as int];
        if !(here.config.wecom.active.callback_token.len() > 0 && signed_with(
            here.config.wecom.active.callback_token,
            query,
            payload,
        )) {
            law_signer_is_found(list, i + 1, query, payload);
        }
    }
}

} // verus!
