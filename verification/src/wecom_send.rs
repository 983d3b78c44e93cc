//! Messages to WeCom.

use crate::config::{is_long_mode, long_mode, WeComAccountConfig, WeComAccountView};
use crate::error::{Error, ErrorView};
use crate::json::{insert_member, object1, object3, push_member, set_member};
use crate::media::image_extension;
use crate::paths::{after_last, after_last_of, file_name, file_name_of, last_index, last_index_of};
use crate::clock::now_seconds;
use crate::text::{
    after, before, chars_of, chars_start_with, contains, decimal_int, decimal_int_text,
    has_text, lowercase, opt_text, same_text, starts_with, text_of, texts_view, trim, trim_chars,
};
use crate::value::{group_json_view, members_view, Json, JsonView};
use vstd::prelude::*;

verus! {

broadcast use group_json_view;

pub const API_BASE: &'static str = "https://qyapi.weixin.qq.com/cgi-bin";

/// How many characters a message may have.
pub const MESSAGE_LIMIT: usize = 2048;

/// How long before its end a token is no longer used, in seconds.
pub const REFRESH_MARGIN: i64 = 300;

// ---------------------------------------------------------------------------
// Long texts
// ---------------------------------------------------------------------------

/// Where the last line break among the first `n` characters ends, or `n` where there is none.
pub open spec fn line_end(s: Seq<char>, n: nat) -> nat
    decreases n,
{
    if n == 0 {
        0
    } else if s[n - 1] == '\n' {
        n
    } else {
        line_end(s, (n - 1) as nat)
    }
}

/// How much of a long text goes into the next piece: whole lines where there are any.
pub open spec fn piece_len(s: Seq<char>, max: nat) -> nat {
    if line_end(s, max) > 0 {
        line_end(s, max)
    } else {
        max
    }
}

pub proof fn lemma_line_end(s: Seq<char>, n: nat)
    ensures
        line_end(s, n) <= n,
    decreases n,
{
    if n > 0 && s[n - 1] != '\n' {
        lemma_line_end(s, (n - 1) as nat);
    }
}

/// A text in pieces of at most `max` characters.
pub open spec fn pieces_of(s: Seq<char>, max: nat) -> Seq<Seq<char>>
    decreases s.len(),
{
    if s.len() <= max || max == 0 {
        seq![s]
    } else {
        let n = piece_len(s, max);
        proof {
            lemma_line_end(s, max);
        }
        seq![s.take(n as int)] + pieces_of(s.skip(n as int), max)
    }
}

/// All texts one behind the other.
pub open spec fn all_of(parts: Seq<Seq<char>>) -> Seq<char>
    decreases parts.len(),
{
    if parts.len() == 0 {
        Seq::empty()
    } else {
        parts[0] + all_of(parts.skip(1))
    }
}

/// The pieces of a text hold the whole text in order, none is longer than allowed, and none is
/// empty unless the text is.
pub proof fn law_pieces_hold_text(s: Seq<char>, max: nat)
    requires
        max > 0,
    ensures
        all_of(pieces_of(s, max)) == s,
        forall|i: int|
            0 <= i < pieces_of(s, max).len() ==> (#[trigger] pieces_of(s, max)[i]).len() <= max,
        forall|i: int|
            0 <= i < pieces_of(s, max).len() && s.len() > 0 ==> (#[trigger] pieces_of(
                s,
                max,
            )[i]).len() > 0,
    decreases s.len(),
{
    let pieces = pieces_of(s, max);
    if s.len() <= max {
        assert(pieces.skip(1).len() == 0);
        assert(all_of(pieces.skip(1)) =~= Seq::empty());
        assert(s + Seq::empty() =~= s);
    } else {
        let n = piece_len(s, max);
        lemma_line_end(s, max);
        let rest = s.skip(n as int);
        law_pieces_hold_text(rest, max);
        assert(pieces.skip(1) =~= pieces_of(rest, max));
        assert(all_of(pieces) == pieces[0] + all_of(pieces.skip(1)));
        assert(s.take(n as int) + rest =~= s);
        assert forall|i: int| 0 <= i < pieces.len() implies (#[trigger] pieces[i]).len() <= max
            && pieces[i].len() > 0 by {
            if i > 0 {
                assert(pieces[i] == pieces_of(rest, max)[i - 1]);
            }
        }
    }
}

/// Each piece of a text but the last ends with its line, or is as long as allowed.
pub proof fn law_pieces_end_with_lines(s: Seq<char>, max: nat)
    requires
        max > 0,
    ensures
        forall|i: int|
            0 <= i < pieces_of(s, max).len() - 1 ==> (#[trigger] pieces_of(s, max)[i]).last()
                == '\n' || pieces_of(s, max)[i].len() == max,
    decreases s.len(),
{
    if s.len() > max {
        let n = piece_len(s, max);
        lemma_line_end(s, max);
        lemma_line_end_char(s, max);
        let rest = s.skip(n as int);
        law_pieces_end_with_lines(rest, max);
        let pieces = pieces_of(s, max);
        let later = pieces_of(rest, max);
        assert forall|i: int| 0 <= i < pieces.len() - 1 implies (#[trigger] pieces[i]).last()
            == '\n' || pieces[i].len() == max by {
            if i > 0 {
                assert(pieces[i] == later[i - 1]);
            }
        }
    }
}

proof fn lemma_line_end_char(s: Seq<char>, n: nat)
    ensures
        line_end(s, n) > 0 ==> s[line_end(s, n) - 1] == '\n',
    decreases n,
{
    if n > 0 && s[n - 1] != '\n' {
        lemma_line_end_char(s, (n - 1) as nat);
    }
}

pub fn split_message(text: &str, max_len: usize) -> (r: Vec<String>)
    requires
        max_len > 0,
    ensures
        texts_view(r@) == pieces_of(text@, max_len as nat),
{
    let chars = chars_of(text);
    let mut r: Vec<String> = Vec::new();
    let mut rest = chars.as_slice();
    assert(texts_view(r@) + pieces_of(rest@, max_len as nat) =~= pieces_of(
        text@,
        max_len as nat,
    ));
    while rest.len() > max_len
        invariant
            max_len > 0,
            texts_view(r@) + pieces_of(rest@, max_len as nat) == pieces_of(text@, max_len as nat),
        decreases rest@.len(),
    {
        let mut n: usize = max_len;
        while n > 0 && rest[n - 1] != '\n'
            invariant
                n <= max_len < rest@.len(),
                line_end(rest@, max_len as nat) == line_end(rest@, n as nat),
            decreases n,
        {
            n -= 1;
        }
        let n: usize = if n > 0 {
            n
        } else {
            max_len
        };
        assert(n == piece_len(rest@, max_len as nat));
        let ghost so_far = texts_view(r@);
        let piece = text_of(before(rest, n));
        let tail = after(rest, n);
        r.push(piece);
        assert(texts_view(r@) =~= so_far.push(piece@));
        assert(so_far + (seq![piece@] + pieces_of(tail@, max_len as nat)) =~= so_far.push(piece@)
            + pieces_of(tail@, max_len as nat));
        rest = tail;
    }
    let ghost so_far = texts_view(r@);
    let piece = text_of(rest);
    r.push(piece);
    assert(texts_view(r@) =~= so_far + seq![piece@]);
    r
}

/// How a text is sent, piece by piece.
pub enum TextPlan {
    /// Over the connection that the program with this id holds open.
    Held { bot_id: String, pieces: Vec<String> },
    /// By requests.
    Request { pieces: Vec<String> },
}

pub enum TextPlanView {
    Held { bot_id: Seq<char>, pieces: Seq<Seq<char>> },
    Request { pieces: Seq<Seq<char>> },
}

impl View for TextPlan {
    type V = TextPlanView;

    open spec fn view(&self) -> TextPlanView {
        match self {
            TextPlan::Held { bot_id, pieces } => TextPlanView::Held {
                bot_id: bot_id@,
                pieces: texts_view(pieces@),
            },
            TextPlan::Request { pieces } => TextPlanView::Request { pieces: texts_view(pieces@) },
        }
    }
}

pub fn plan_text(account: &WeComAccountConfig, text: &str) -> (r: TextPlan)
    ensures
        r@ == (if holds_connection(account@) {
            TextPlanView::Held {
                bot_id: trim(account@.bot_id),
                pieces: pieces_of(text@, MESSAGE_LIMIT as nat),
            }
        } else {
            TextPlanView::Request { pieces: pieces_of(text@, MESSAGE_LIMIT as nat) }
        }),
{
    let pieces = split_message(text, MESSAGE_LIMIT);
    if is_holding_connection(account) {
        let chars = chars_of(account.bot_id.as_str());
        TextPlan::Held { bot_id: text_of(trim_chars(chars.as_slice())), pieces }
    } else {
        TextPlan::Request { pieces }
    }
}

// ---------------------------------------------------------------------------
// Requests
// ---------------------------------------------------------------------------

/// The chat is a group.
pub open spec fn group_chat(chat_id: Seq<char>) -> bool {
    starts_with(chat_id, "wr"@) || starts_with(chat_id, "WR"@)
}

pub fn is_group_chat(chat_id: &str) -> (r: bool)
    ensures
        r == group_chat(chat_id@),
{
    let chars = chars_of(chat_id);
    chars_start_with(chars.as_slice(), chars_of("wr").as_slice()) || chars_start_with(
        chars.as_slice(),
        chars_of("WR").as_slice(),
    )
}

/// Where a message is sent to.
pub fn send_endpoint(chat_id: &str) -> (r: String)
    ensures
        r@ == (if group_chat(chat_id@) {
            API_BASE@ + "/appchat/send"@
        } else {
            API_BASE@ + "/message/send"@
        }),
{
    let mut r = API_BASE.to_owned();
    if is_group_chat(chat_id) {
        r.push_str("/appchat/send");
    } else {
        r.push_str("/message/send");
    }
    r
}

pub open spec fn number(n: int) -> JsonView {
    JsonView::Number(decimal_int(n))
}

fn number_of(n: i64) -> (r: Json)
    ensures
        r@ == number(n as int),
{
    Json::Number(decimal_int_text(n))
}

/// A message to a group, of which member `kind` is the content.
pub open spec fn group_body(chat_id: Seq<char>, kind: Seq<char>, content: JsonView) -> JsonView {
    JsonView::Object(
        insert_member(
            seq![
                ("chatid"@, JsonView::Str(chat_id)),
                ("msgtype"@, JsonView::Str(kind)),
                ("safe"@, number(0)),
            ],
            kind,
            content,
        ),
    )
}

/// A message to a user, of which member `kind` is the content.
pub open spec fn user_body(
    to_user: Seq<char>,
    agent_id: int,
    kind: Seq<char>,
    content: JsonView,
) -> JsonView {
    JsonView::Object(
        insert_member(
            seq![
                ("agentid"@, number(agent_id)),
                ("msgtype"@, JsonView::Str(kind)),
                ("safe"@, number(0)),
                ("touser"@, JsonView::Str(to_user)),
            ],
            kind,
            content,
        ),
    )
}

fn group_body_of(chat_id: &str, kind: &str, content: Json) -> (r: Json)
    ensures
        r@ == group_body(chat_id@, kind@, content@),
{
    let mut m: Vec<(String, Json)> = Vec::new();
    push_member(&mut m, "chatid", Json::text(chat_id));
    push_member(&mut m, "msgtype", Json::text(kind));
    push_member(&mut m, "safe", number_of(0));
    assert(members_view(m@) =~= seq![
        ("chatid"@, JsonView::Str(chat_id@)),
        ("msgtype"@, JsonView::Str(kind@)),
        ("safe"@, number(0)),
    ]);
    set_member(&mut m, kind.to_owned(), content);
    Json::Object(m)
}

fn user_body_of(to_user: &str, agent_id: i64, kind: &str, content: Json) -> (r: Json)
    ensures
        r@ == user_body(to_user@, agent_id as int, kind@, content@),
{
    let mut m: Vec<(String, Json)> = Vec::new();
    push_member(&mut m, "agentid", number_of(agent_id));
    push_member(&mut m, "msgtype", Json::text(kind));
    push_member(&mut m, "safe", number_of(0));
    push_member(&mut m, "touser", Json::text(to_user));
    assert(members_view(m@) =~= seq![
        ("agentid"@, number(agent_id as int)),
        ("msgtype"@, JsonView::Str(kind@)),
        ("safe"@, number(0)),
        ("touser"@, JsonView::Str(to_user@)),
    ]);
    set_member(&mut m, kind.to_owned(), content);
    Json::Object(m)
}

pub open spec fn text_content(text: Seq<char>) -> JsonView {
    JsonView::Object(seq![("content"@, JsonView::Str(text))])
}

/// The request that sends a text.
pub fn text_body(chat_id: &str, agent_id: i64, text: &str) -> (r: Json)
    ensures
        r@ == (if group_chat(chat_id@) {
            group_body(chat_id@, "text"@, text_content(text@))
        } else {
            user_body(chat_id@, agent_id as int, "text"@, text_content(text@))
        }),
{
    let content = object1("content", Json::text(text));
    if is_group_chat(chat_id) {
        group_body_of(chat_id, "text", content)
    } else {
        user_body_of(chat_id, agent_id, "text", content)
    }
}

/// The kinds in which a file is sent; any other kind counts as a file.
pub open spec fn sent_kind(msg_type: Seq<char>) -> Seq<char> {
    if msg_type == "image"@ || msg_type == "voice"@ || msg_type == "video"@ {
        msg_type
    } else {
        "file"@
    }
}

pub open spec fn media_content(msg_type: Seq<char>, media_id: Seq<char>) -> JsonView {
    if sent_kind(msg_type) == "video"@ {
        JsonView::Object(
            seq![
                ("description"@, JsonView::Str(""@)),
                ("media_id"@, JsonView::Str(media_id)),
                ("title"@, JsonView::Str(""@)),
            ],
        )
    } else {
        JsonView::Object(seq![("media_id"@, JsonView::Str(media_id))])
    }
}

pub fn sent_kind_of(msg_type: &str) -> (r: &str)
    ensures
        r@ == sent_kind(msg_type@),
{
    if same_text(msg_type, "image") || same_text(msg_type, "voice") || same_text(
        msg_type,
        "video",
    ) {
        msg_type
    } else {
        "file"
    }
}

fn media_content_of(msg_type: &str, media_id: &str) -> (r: Json)
    ensures
        r@ == media_content(msg_type@, media_id@),
{
    if same_text(sent_kind_of(msg_type), "video") {
        object3(
            "description",
            Json::text(""),
            "media_id",
            Json::text(media_id),
            "title",
            Json::text(""),
        )
    } else {
        object1("media_id", Json::text(media_id))
    }
}

pub fn build_media_body_user(to_user: &str, agent_id: i64, msg_type: &str, media_id: &str) -> (r: Json)
    ensures
        r@ == user_body(
            to_user@,
            agent_id as int,
            sent_kind(msg_type@),
            media_content(msg_type@, media_id@),
        ),
{
    user_body_of(to_user, agent_id, sent_kind_of(msg_type), media_content_of(msg_type, media_id))
}

pub fn build_media_body_group(chat_id: &str, msg_type: &str, media_id: &str) -> (r: Json)
    ensures
        r@ == group_body(chat_id@, sent_kind(msg_type@), media_content(msg_type@, media_id@)),
{
    group_body_of(chat_id, sent_kind_of(msg_type), media_content_of(msg_type, media_id))
}

/// The request that sends a file.
pub fn media_body(chat_id: &str, agent_id: i64, msg_type: &str, media_id: &str) -> (r: Json)
    ensures
        r@ == (if group_chat(chat_id@) {
            group_body(chat_id@, sent_kind(msg_type@), media_content(msg_type@, media_id@))
        } else {
            user_body(
                chat_id@,
                agent_id as int,
                sent_kind(msg_type@),
                media_content(msg_type@, media_id@),
            )
        }),
{
    if is_group_chat(chat_id) {
        build_media_body_group(chat_id, msg_type, media_id)
    } else {
        build_media_body_user(chat_id, agent_id, msg_type, media_id)
    }
}

// ---------------------------------------------------------------------------
// Responses
// ---------------------------------------------------------------------------

pub open spec fn api_complaint(prefix: Seq<char>, errcode: int, errmsg: Seq<char>) -> Seq<char> {
    prefix + " error "@ + decimal_int(errcode) + ": "@ + errmsg
}

/// Where a token is asked for.
pub fn token_url() -> (r: String)
    ensures
        r@ == API_BASE@ + "/gettoken"@,
{
    let mut r = API_BASE.to_owned();
    r.push_str("/gettoken");
    r
}

/// Where a file is uploaded to.
pub fn upload_url(token: &str, media_type: &str) -> (r: String)
    ensures
        r@ == API_BASE@ + "/media/upload?access_token="@ + token@ + "&type="@ + media_type@,
{
    let mut r = API_BASE.to_owned();
    r.push_str("/media/upload?access_token=");
    r.push_str(token);
    r.push_str("&type=");
    r.push_str(media_type);
    r
}

/// Where a file is downloaded from.
pub fn download_url(token: &str, media_id: &str) -> (r: String)
    ensures
        r@ == API_BASE@ + "/media/get?access_token="@ + token@ + "&media_id="@ + media_id@,
{
    let mut r = API_BASE.to_owned();
    r.push_str("/media/get?access_token=");
    r.push_str(token);
    r.push_str("&media_id=");
    r.push_str(media_id);
    r
}

/// The outcome of a request, by the code in the response.
pub fn check_response(prefix: &str, errcode: i32, errmsg: &str) -> (r: Result<(), Error>)
    ensures
        if errcode == 0 {
            r is Ok
        } else {
            r is Err && r->Err_0@ == ErrorView::Channel(
                api_complaint(prefix@, errcode as int, errmsg@),
            )
        },
{
    if errcode == 0 {
        return Ok(());
    }
    let mut text = prefix.to_owned();
    text.push_str(" error ");
    text.push_str(decimal_int_text(errcode as i64).as_str());
    text.push_str(": ");
    text.push_str(errmsg);
    Err(Error::Channel(text))
}

/// What a request needs from a response that went well, or why it is missing.
pub open spec fn needed(
    prefix: Seq<char>,
    errcode: int,
    errmsg: Seq<char>,
    value: Option<Seq<char>>,
    missing: Seq<char>,
) -> Result<Seq<char>, Seq<char>> {
    if errcode != 0 {
        Err(api_complaint(prefix, errcode, errmsg))
    } else {
        match value {
            Some(v) => Ok(v),
            None => Err(missing),
        }
    }
}

pub open spec fn channel_outcome(
    r: Result<String, Error>,
    expected: Result<Seq<char>, Seq<char>>,
) -> bool {
    match expected {
        Ok(text) => r is Ok && r->Ok_0@ == text,
        Err(text) => r is Err && r->Err_0@ == ErrorView::Channel(text),
    }
}

fn need(prefix: &str, errcode: i32, errmsg: &str, value: Option<String>, missing: &str) -> (r: Result<
    String,
    Error,
>)
    ensures
        channel_outcome(
            r,
            needed(prefix@, errcode as int, errmsg@, opt_text(value), missing@),
        ),
{
    match check_response(prefix, errcode, errmsg) {
        Err(e) => Err(e),
        Ok(_) => match value {
            Some(v) => Ok(v),
            None => Err(Error::Channel(missing.to_owned())),
        },
    }
}

/// The response to a request for a token.
pub struct TokenResponse {
    pub errcode: i32,
    pub errmsg: String,
    pub access_token: Option<String>,
    pub expires_in: Option<i64>,
}

/// The token in a response. `prefix` names the request.
pub fn token_of(response: &TokenResponse, prefix: &str) -> (r: Result<String, Error>)
    ensures
        channel_outcome(
            r,
            needed(
                prefix@,
                response.errcode as int,
                response.errmsg@,
                opt_text(response.access_token),
                "No access_token in WeCom response"@,
            ),
        ),
{
    need(
        prefix,
        response.errcode,
        response.errmsg.as_str(),
        crate::text::copy_opt(&response.access_token),
        "No access_token in WeCom response",
    )
}

/// How long a token lasts, in seconds.
pub open spec fn lifetime(response: TokenResponse) -> int {
    match response.expires_in {
        Some(n) => n as int,
        None => 7200,
    }
}

/// The id of an uploaded file, from the response to the upload.
pub fn uploaded_id(errcode: i32, errmsg: &str, media_id: Option<String>) -> (r: Result<
    String,
    Error,
>)
    ensures
        channel_outcome(
            r,
            needed(
                "WeCom media/upload"@,
                errcode as int,
                errmsg@,
                opt_text(media_id),
                "WeCom media/upload: no media_id in response"@,
            ),
        ),
{
    need(
        "WeCom media/upload",
        errcode,
        errmsg,
        media_id,
        "WeCom media/upload: no media_id in response",
    )
}

/// A token that is kept until shortly before its end.
pub struct CachedToken {
    pub token: String,
    pub expires_at: i64,
}

/// A token can be used at a time.
pub open spec fn usable_at(token: Seq<char>, expires_at: int, now: int) -> bool {
    token.len() > 0 && now < expires_at - REFRESH_MARGIN
}

impl CachedToken {
    pub fn new() -> (r: Self)
        ensures
            r.token@ == Seq::<char>::empty(),
            r.expires_at == 0,
    {
        CachedToken { token: String::new(), expires_at: 0 }
    }

    pub fn is_valid_at(&self, now: i64) -> (r: bool)
        ensures
            r == usable_at(self.token@, self.expires_at as int, now as int),
    {
        !self.token.as_str().is_empty() && (now as i128) < self.expires_at as i128
            - REFRESH_MARGIN as i128
    }

    /// Whether the token can be used now.
    pub fn is_valid(&self) -> (r: bool)
        ensures
            exists|now: int| r == #[trigger] usable_at(self.token@, self.expires_at as int, now),
    {
        let now = now_seconds();
        let r = self.is_valid_at(now);
        assert(r == usable_at(self.token@, self.expires_at as int, now as int));
        r
    }

    /// Takes the token out of a response that came at the time `now`, and keeps it.
    pub fn store(&mut self, response: &TokenResponse, now: i64) -> (r: Result<String, Error>)
        requires
            i64::MIN <= now + lifetime(*response) <= i64::MAX,
        ensures
            channel_outcome(
                r,
                needed(
                    "WeCom gettoken"@,
                    response.errcode as int,
                    response.errmsg@,
                    opt_text(response.access_token),
                    "No access_token in WeCom response"@,
                ),
            ),
            match r {
                Ok(token) => final(self).token@ == token@ && final(self).expires_at == now
                    + lifetime(*response),
                Err(_) => *final(self) == *old(self),
            },
    {
        let token = match token_of(response, "WeCom gettoken") {
            Ok(token) => token,
            Err(e) => {
                return Err(e);
            },
        };
        let lifetime: i64 = match response.expires_in {
            Some(n) => n,
            None => 7200,
        };
        self.token = token.clone();
        self.expires_at = now + lifetime;
        Ok(token)
    }
}

/// A token that was kept for more than the margin can be used at once, and none can be used once
/// its lifetime is over.
pub proof fn law_token_lifetime(token: Seq<char>, now: int, lifetime: int, later: int)
    requires
        token.len() > 0,
    ensures
        lifetime > REFRESH_MARGIN ==> usable_at(token, now + lifetime, now),
        later >= now + lifetime ==> !usable_at(token, now + lifetime, later),
{
}

// ---------------------------------------------------------------------------
// Files
// ---------------------------------------------------------------------------

/// What stands behind the last dot, in lower case.
pub open spec fn lower_extension(path: Seq<char>) -> Seq<char> {
    lowercase(after_last(path, '.'))
}

pub fn lower_extension_of(path: &str) -> (r: String)
    ensures
        r@ == lower_extension(path@),
{
    let chars = chars_of(path);
    text_of(after_last_of(chars.as_slice(), '.')).as_str().to_lowercase()
}

/// The kind in which a file is uploaded and sent.
pub open spec fn media_kind(ext: Seq<char>) -> Seq<char> {
    if image_extension(ext) {
        "image"@
    } else if ext == "amr"@ || ext == "mp3"@ || ext == "wav"@ || ext == "m4a"@ || ext == "speex"@ {
        "voice"@
    } else if ext == "mp4"@ || ext == "avi"@ || ext == "mov"@ || ext == "mkv"@ {
        "video"@
    } else {
        "file"@
    }
}

pub fn media_type_for_ext(ext: &str) -> (r: &'static str)
    ensures
        r@ == media_kind(ext@),
{
    if crate::media::is_image_extension(ext) {
        "image"
    } else if same_text(ext, "amr") || same_text(ext, "mp3") || same_text(ext, "wav") || same_text(
        ext,
        "m4a",
    ) || same_text(ext, "speex") {
        "voice"
    } else if same_text(ext, "mp4") || same_text(ext, "avi") || same_text(ext, "mov") || same_text(
        ext,
        "mkv",
    ) {
        "video"
    } else {
        "file"
    }
}

/// What is written in place of a file.
pub open spec fn media_label(ext: Seq<char>, name: Seq<char>) -> Seq<char> {
    (if image_extension(ext) {
        "[图片: "@
    } else if ext == "mp3"@ || ext == "wav"@ || ext == "amr"@ || ext == "m4a"@ || ext == "ogg"@ {
        "[语音: "@
    } else if ext == "mp4"@ || ext == "avi"@ || ext == "mov"@ || ext == "mkv"@ {
        "[视频: "@
    } else {
        "[文件: "@
    }) + name + "]"@
}

fn media_label_of(ext: &str, name: &str) -> (r: String)
    ensures
        r@ == media_label(ext@, name@),
{
    let mut r = (if crate::media::is_image_extension(ext) {
        "[图片: "
    } else if same_text(ext, "mp3") || same_text(ext, "wav") || same_text(ext, "amr") || same_text(
        ext,
        "m4a",
    ) || same_text(ext, "ogg") {
        "[语音: "
    } else if same_text(ext, "mp4") || same_text(ext, "avi") || same_text(ext, "mov") || same_text(
        ext,
        "mkv",
    ) {
        "[视频: "
    } else {
        "[文件: "
    }).to_owned();
    r.push_str(name);
    r.push_str("]");
    r
}

/// The mode of an account, in lower case and trimmed, is one in which a connection is held open.
pub open spec fn holds_connection(account: WeComAccountView) -> bool {
    long_mode(lowercase(trim(account.mode)))
}

pub fn is_holding_connection(account: &WeComAccountConfig) -> (r: bool)
    ensures
        r == holds_connection(account@),
{
    let chars = chars_of(account.mode.as_str());
    let mode = text_of(trim_chars(chars.as_slice())).as_str().to_lowercase();
    is_long_mode(mode.as_str())
}

/// How a file is sent.
pub enum MediaPlan {
    /// Over the connection that is held open. The file is uploaded first where that can be done;
    /// the label is sent where it cannot.
    Held { file_name: String, media_type: &'static str, can_upload: bool, label: String },
    /// By a request. A voice message is converted first.
    Request { media_type: &'static str },
}

pub enum MediaPlanView {
    Held { file_name: Seq<char>, media_type: Seq<char>, can_upload: bool, label: Seq<char> },
    Request { media_type: Seq<char> },
}

impl View for MediaPlan {
    type V = MediaPlanView;

    open spec fn view(&self) -> MediaPlanView {
        match self {
            MediaPlan::Held { file_name, media_type, can_upload, label } => MediaPlanView::Held {
                file_name: file_name@,
                media_type: media_type@,
                can_upload: *can_upload,
                label: label@,
            },
            MediaPlan::Request { media_type } => MediaPlanView::Request { media_type: media_type@ },
        }
    }
}

pub open spec fn sent_name(path: Seq<char>) -> Seq<char> {
    match file_name(path) {
        Some(name) => name,
        None => path,
    }
}

pub open spec fn media_plan(account: WeComAccountView, path: Seq<char>) -> MediaPlanView {
    if holds_connection(account) {
        let name = sent_name(path);
        let ext = lower_extension(name);
        MediaPlanView::Held {
            file_name: name,
            media_type: media_kind(ext),
            can_upload: trim(account.corp_id).len() > 0 && trim(account.corp_secret).len() > 0,
            label: media_label(ext, name),
        }
    } else {
        MediaPlanView::Request { media_type: media_kind(lower_extension(path)) }
    }
}

pub fn has_words(text: &str) -> (r: bool)
    ensures
        r == (trim(text@).len() > 0),
{
    trim_chars(chars_of(text).as_slice()).len() > 0
}

pub fn plan_media(account: &WeComAccountConfig, file_path: &str) -> (r: MediaPlan)
    ensures
        r@ == media_plan(account@, file_path@),
{
    if is_holding_connection(account) {
        let name = match file_name_of(file_path) {
            Some(name) => name,
            None => file_path.to_owned(),
        };
        let ext = lower_extension_of(name.as_str());
        let label = media_label_of(ext.as_str(), name.as_str());
        MediaPlan::Held {
            media_type: media_type_for_ext(ext.as_str()),
            can_upload: has_words(account.corp_id.as_str()) && has_words(
                account.corp_secret.as_str(),
            ),
            label,
            file_name: name,
        }
    } else {
        MediaPlan::Request {
            media_type: media_type_for_ext(lower_extension_of(file_path).as_str()),
        }
    }
}

/// The file that is uploaded, and in which kind: a voice message of more than a minute goes out
/// as the file that it was made from.
pub fn choose_upload(
    media_type: &'static str,
    file_path: &str,
    converted: &str,
    too_long: bool,
) -> (r: (String, &'static str))
    ensures
        (r.0@, r.1@) == (if media_type@ == "voice"@ {
            if too_long {
                (file_path@, "file"@)
            } else {
                (converted@, "voice"@)
            }
        } else {
            (file_path@, media_type@)
        }),
{
    if same_text(media_type, "voice") {
        if too_long {
            (file_path.to_owned(), "file")
        } else {
            (converted.to_owned(), "voice")
        }
    } else {
        (file_path.to_owned(), media_type)
    }
}

/// The name under which a file is uploaded.
pub fn upload_name(path: &str) -> (r: String)
    ensures
        r@ == (match file_name(path@) {
            Some(name) => name,
            None => "file"@,
        }),
{
    match file_name_of(path) {
        Some(name) => name,
        None => "file".to_owned(),
    }
}

/// Whether a sound has to be converted before it is sent as a voice message.
pub fn needs_conversion(path: &str) -> (r: bool)
    ensures
        r == (lower_extension(path@) != "amr"@),
{
    !same_text(lower_extension_of(path).as_str(), "amr")
}

/// What stands before the extension in the name of a file.
pub open spec fn stem(path: Seq<char>) -> Option<Seq<char>> {
    match file_name(path) {
        Some(name) => match last_index(name, '.') {
            Some(i) if i > 0 => Some(name.take(i)),
            _ => Some(name),
        },
        None => None,
    }
}

fn stem_of(path: &str) -> (r: Option<String>)
    ensures
        opt_text(r) == stem(path@),
{
    match file_name_of(path) {
        Some(name) => {
            let chars = chars_of(name.as_str());
            match last_index_of(chars.as_slice(), '.') {
                Some(i) => if i > 0 {
                    Some(text_of(before(chars.as_slice(), i)))
                } else {
                    Some(name)
                },
                None => Some(name),
            }
        },
        None => None,
    }
}

/// The name of the file that a sound is converted to.
pub fn converted_name(path: &str, time_ms: i64) -> (r: String)
    ensures
        r@ == (match stem(path@) {
            Some(text) => text,
            None => "voice"@,
        }) + "_"@ + decimal_int(time_ms as int) + ".amr"@,
{
    let mut r = match stem_of(path) {
        Some(text) => text,
        None => "voice".to_owned(),
    };
    r.push_str("_");
    r.push_str(decimal_int_text(time_ms).as_str());
    r.push_str(".amr");
    r
}

/// The media type of a file, by the extension of its name.
pub open spec fn mime(path: Seq<char>) -> Seq<char> {
    let ext = lower_extension(path);
    if ext == "jpg"@ || ext == "jpeg"@ {
        "image/jpeg"@
    } else if ext == "png"@ {
        "image/png"@
    } else if ext == "gif"@ {
        "image/gif"@
    } else if ext == "bmp"@ {
        "image/bmp"@
    } else if ext == "webp"@ {
        "image/webp"@
    } else if ext == "amr"@ {
        "audio/amr"@
    } else if ext == "mp3"@ {
        "audio/mpeg"@
    } else if ext == "wav"@ {
        "audio/wav"@
    } else if ext == "m4a"@ {
        "audio/mp4"@
    } else if ext == "mp4"@ {
        "video/mp4"@
    } else if ext == "pdf"@ {
        "application/pdf"@
    } else if ext == "doc"@ {
        "application/msword"@
    } else if ext == "docx"@ {
        "application/vnd.openxmlformats-officedocument.wordprocessingml.document"@
    } else if ext == "xls"@ {
        "application/vnd.ms-excel"@
    } else if ext == "xlsx"@ {
        "application/vnd.openxmlformats-officedocument.spreadsheetml.sheet"@
    } else if ext == "ppt"@ {
        "application/vnd.ms-powerpoint"@
    } else if ext == "pptx"@ {
        "application/vnd.openxmlformats-officedocument.presentationml.presentation"@
    } else if ext == "zip"@ {
        "application/zip"@
    } else if ext == "txt"@ {
        "text/plain"@
    } else {
        "application/octet-stream"@
    }
}

pub fn mime_for_path(path: &str) -> (r: &'static str)
    ensures
        r@ == mime(path@),
{
    let ext = lower_extension_of(path);
    let ext = ext.as_str();
    if same_text(ext, "jpg") || same_text(ext, "jpeg") {
        "image/jpeg"
    } else if same_text(ext, "png") {
        "image/png"
    } else if same_text(ext, "gif") {
        "image/gif"
    } else if same_text(ext, "bmp") {
        "image/bmp"
    } else if same_text(ext, "webp") {
        "image/webp"
    } else if same_text(ext, "amr") {
        "audio/amr"
    } else if same_text(ext, "mp3") {
        "audio/mpeg"
    } else if same_text(ext, "wav") {
        "audio/wav"
    } else if same_text(ext, "m4a") {
        "audio/mp4"
    } else if same_text(ext, "mp4") {
        "video/mp4"
    } else if same_text(ext, "pdf") {
        "application/pdf"
    } else if same_text(ext, "doc") {
        "application/msword"
    } else if same_text(ext, "docx") {
        "application/vnd.openxmlformats-officedocument.wordprocessingml.document"
    } else if same_text(ext, "xls") {
        "application/vnd.ms-excel"
    } else if same_text(ext, "xlsx") {
        "application/vnd.openxmlformats-officedocument.spreadsheetml.sheet"
    } else if same_text(ext, "ppt") {
        "application/vnd.ms-powerpoint"
    } else if same_text(ext, "pptx") {
        "application/vnd.openxmlformats-officedocument.presentationml.presentation"
    } else if same_text(ext, "zip") {
        "application/zip"
    } else if same_text(ext, "txt") {
        "text/plain"
    } else {
        "application/octet-stream"
    }
}

/// The extension of a downloaded file, by the type that the server gave and by its kind.
pub open spec fn downloaded_extension(content_type: Seq<char>, kind: Seq<char>) -> Seq<char> {
    if contains(content_type, "jpeg"@) || contains(content_type, "jpg"@) {
        "jpg"@
    } else if contains(content_type, "png"@) {
        "png"@
    } else if contains(content_type, "gif"@) {
        "gif"@
    } else if contains(content_type, "mp4"@) {
        "mp4"@
    } else if contains(content_type, "amr"@) {
        "amr"@
    } else if contains(content_type, "speex"@) {
        "speex"@
    } else if kind == "image"@ {
        "jpg"@
    } else if kind == "voice"@ {
        "amr"@
    } else if kind == "video"@ {
        "mp4"@
    } else {
        "bin"@
    }
}

pub fn ext_from_content_type(content_type: &str, media_type: &str) -> (r: &'static str)
    ensures
        r@ == downloaded_extension(content_type@, media_type@),
{
    if has_text(content_type, "jpeg") || has_text(content_type, "jpg") {
        "jpg"
    } else if has_text(content_type, "png") {
        "png"
    } else if has_text(content_type, "gif") {
        "gif"
    } else if has_text(content_type, "mp4") {
        "mp4"
    } else if has_text(content_type, "amr") {
        "amr"
    } else if has_text(content_type, "speex") {
        "speex"
    } else if same_text(media_type, "image") {
        "jpg"
    } else if same_text(media_type, "voice") {
        "amr"
    } else if same_text(media_type, "video") {
        "mp4"
    } else {
        "bin"
    }
}

/// The name of a downloaded file.
pub fn downloaded_name(media_id: &str, ext: &str) -> (r: String)
    ensures
        r@ == "wecom_"@ + media_id@ + "."@ + ext@,
{
    let mut r = "wecom_".to_owned();
    r.push_str(media_id);
    r.push_str(".");
    r.push_str(ext);
    r
}

/// The name of a file that came over the connection that is held open.
pub fn held_name(media_type: &str, time_ms: i64, ext: &str) -> (r: String)
    ensures
        r@ == "wecom_long_"@ + media_type@ + "_"@ + decimal_int(time_ms as int) + "."@ + ext@,
{
    let mut r = "wecom_long_".to_owned();
    r.push_str(media_type);
    r.push_str("_");
    r.push_str(decimal_int_text(time_ms).as_str());
    r.push_str(".");
    r.push_str(ext);
    r
}

/// The extension of a downloaded file: the one that is known, or that of its type.
pub fn chosen_extension(hint: Option<&str>, content_type: &str, media_type: &str) -> (r: String)
    ensures
        r@ == (match crate::paths::opt_str(hint) {
            Some(ext) => ext,
            None => downloaded_extension(content_type@, media_type@),
        }),
{
    match hint {
        Some(ext) => ext.to_owned(),
        None => ext_from_content_type(content_type, media_type).to_owned(),
    }
}

} // verus!
