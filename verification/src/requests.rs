//! Requests to the services of language models.

use crate::error::{Error, ErrorView};
use crate::gemini::GeminiProvider;
use crate::json::{array1, json_of_texts, object1, object2, push_member, strings_json};
use crate::ollama::{OllamaMessage, OllamaMessageView, OllamaProvider};
use crate::openai::OpenAIProvider;
use crate::paths::opt_str;
use crate::stream::or_else;
use crate::text::{before, chars_of, decimal, strip_prefix, text_of, trim_end_of, trim_end_of_chars};
use crate::value::{group_json_view, items_view, Json, JsonView};
use vstd::prelude::*;
use vstd::utf8::{decode_utf8, encode_utf8, is_char_boundary};

verus! {

broadcast use group_json_view;

pub const OPENAI_BASE: &'static str = "https://api.openai.com/v1";

pub const GEMINI_BASE: &'static str = "https://generativelanguage.googleapis.com/v1beta";

pub const OLLAMA_BASE: &'static str = "http://localhost:11434";

/// How much of a response is quoted where it cannot be read.
pub const QUOTED: usize = 500;

// ---------------------------------------------------------------------------
// Addresses
// ---------------------------------------------------------------------------

/// The address of a service without slashes at its end.
pub open spec fn base(given: Option<Seq<char>>, usual: Seq<char>) -> Seq<char> {
    trim_end_of(or_else(given, usual), '/')
}

fn resolve_base(given: Option<&str>, usual: &str) -> (r: String)
    ensures
        r@ == base(opt_str(given), usual@),
{
    let address = match given {
        Some(address) => address,
        None => usual,
    };
    let chars = chars_of(address);
    text_of(trim_end_of_chars(chars.as_slice(), '/'))
}

impl OpenAIProvider {
    pub fn api_base(given: Option<&str>) -> (r: String)
        ensures
            r@ == base(opt_str(given), OPENAI_BASE@),
    {
        resolve_base(given, OPENAI_BASE)
    }

    pub fn chat_url(api_base: &str) -> (r: String)
        ensures
            r@ == api_base@ + "/chat/completions"@,
    {
        let mut r = api_base.to_owned();
        r.push_str("/chat/completions");
        r
    }
}

impl GeminiProvider {
    pub fn api_base(given: Option<&str>) -> (r: String)
        ensures
            r@ == base(opt_str(given), GEMINI_BASE@),
    {
        resolve_base(given, GEMINI_BASE)
    }

    pub fn chat_url(api_base: &str, model: &str, api_key: &str) -> (r: String)
        ensures
            r@ == api_base@ + "/models/"@ + or_else(strip_prefix(model@, "gemini/"@), model@)
                + ":generateContent?key="@ + api_key@,
    {
        let mut r = api_base.to_owned();
        r.push_str("/models/");
        r.push_str(Self::normalize_model(model).as_str());
        r.push_str(":generateContent?key=");
        r.push_str(api_key);
        r
    }

    pub fn stream_url(api_base: &str, model: &str, api_key: &str) -> (r: String)
        ensures
            r@ == api_base@ + "/models/"@ + or_else(strip_prefix(model@, "gemini/"@), model@)
                + ":streamGenerateContent?key="@ + api_key@ + "&alt=sse"@,
    {
        let mut r = api_base.to_owned();
        r.push_str("/models/");
        r.push_str(Self::normalize_model(model).as_str());
        r.push_str(":streamGenerateContent?key=");
        r.push_str(api_key);
        r.push_str("&alt=sse");
        r
    }
}

impl OllamaProvider {
    pub fn api_base(given: Option<&str>) -> (r: String)
        ensures
            r@ == base(opt_str(given), OLLAMA_BASE@),
    {
        resolve_base(given, OLLAMA_BASE)
    }

    pub fn chat_url(api_base: &str) -> (r: String)
        ensures
            r@ == api_base@ + "/api/chat"@,
    {
        let mut r = api_base.to_owned();
        r.push_str("/api/chat");
        r
    }
}

// ---------------------------------------------------------------------------
// Bodies
// ---------------------------------------------------------------------------

/// The request to Gemini: the turns and the settings, the system text where there is one, and the
/// tools where there are any.
pub open spec fn gemini_request(
    system: Option<Seq<char>>,
    contents: Seq<JsonView>,
    tools: Seq<JsonView>,
    max_tokens: nat,
    temperature: JsonView,
) -> JsonView {
    let settings = JsonView::Object(
        seq![
            ("maxOutputTokens"@, JsonView::Number(decimal(max_tokens))),
            ("temperature"@, temperature),
        ],
    );
    JsonView::Object(
        seq![("contents"@, JsonView::Array(contents)), ("generationConfig"@, settings)] + (
        match system {
            Some(text) => seq![
                (
                    "systemInstruction"@,
                    JsonView::Object(
                        seq![
                            (
                                "parts"@,
                                JsonView::Array(
                                    seq![JsonView::Object(seq![("text"@, JsonView::Str(text))])],
                                ),
                            ),
                        ],
                    ),
                ),
            ],
            None => Seq::empty(),
        }) + (if tools.len() > 0 {
            seq![("tools"@, JsonView::Array(tools))]
        } else {
            Seq::empty()
        }),
    )
}

impl GeminiProvider {
    /// The body of a request, with the parts that the messages and the tools were converted to.
    pub fn request_body(
        system: Option<&str>,
        contents: Vec<Json>,
        tools: Vec<Json>,
        max_tokens: u32,
        temperature: Json,
    ) -> (r: Json)
        ensures
            r@ == gemini_request(
                opt_str(system),
                items_view(contents@),
                items_view(tools@),
                max_tokens as nat,
                temperature@,
            ),
    {
        let ghost expected = gemini_request(
            opt_str(system),
            items_view(contents@),
            items_view(tools@),
            max_tokens as nat,
            temperature@,
        );
        let settings = object2(
            "maxOutputTokens",
            Json::number(max_tokens as u64),
            "temperature",
            temperature,
        );
        let mut m: Vec<(String, Json)> = Vec::new();
        push_member(&mut m, "contents", Json::Array(contents));
        push_member(&mut m, "generationConfig", settings);
        if let Some(text) = system {
            let part = object1("text", Json::text(text));
            push_member(&mut m, "systemInstruction", object1("parts", array1(part)));
        }
        if tools.len() > 0 {
            push_member(&mut m, "tools", Json::Array(tools));
        }
        let r = Json::Object(m);
        assert(r@->Object_0 =~= expected->Object_0);
        r
    }
}

/// A message as Ollama takes it.
pub open spec fn ollama_message_json(message: OllamaMessageView) -> JsonView {
    match message.images {
        Some(images) => JsonView::Object(
            seq![
                ("content"@, JsonView::Str(message.content)),
                ("images"@, strings_json(images)),
                ("role"@, JsonView::Str(message.role)),
            ],
        ),
        None => JsonView::Object(
            seq![
                ("content"@, JsonView::Str(message.content)),
                ("role"@, JsonView::Str(message.role)),
            ],
        ),
    }
}

/// The messages as Ollama takes them.
pub open spec fn ollama_messages_json(messages: Seq<OllamaMessage>) -> Seq<JsonView> {
    messages.map_values(|m: OllamaMessage| ollama_message_json(m@))
}

/// The request to Ollama.
pub open spec fn ollama_request(
    model: Seq<char>,
    messages: Seq<JsonView>,
    tools: Seq<JsonView>,
    stream: bool,
    max_tokens: nat,
    temperature: JsonView,
) -> JsonView {
    let options = JsonView::Object(
        seq![
            ("num_predict"@, JsonView::Number(decimal(max_tokens))),
            ("temperature"@, temperature),
        ],
    );
    JsonView::Object(
        seq![
            ("messages"@, JsonView::Array(messages)),
            ("model"@, JsonView::Str(or_else(strip_prefix(model, "ollama/"@), model))),
            ("options"@, options),
            ("stream"@, JsonView::Bool(stream)),
        ] + (if tools.len() > 0 {
            seq![("tools"@, JsonView::Array(tools))]
        } else {
            Seq::empty()
        }),
    )
}

impl OllamaMessage {
    pub fn to_json(&self) -> (r: Json)
        ensures
            r@ == ollama_message_json(self@),
    {
        let mut m: Vec<(String, Json)> = Vec::new();
        push_member(&mut m, "content", Json::text(self.content.as_str()));
        if let Some(images) = &self.images {
            push_member(&mut m, "images", json_of_texts(images));
        }
        push_member(&mut m, "role", Json::text(self.role.as_str()));
        let r = Json::Object(m);
        assert(r@->Object_0 =~= ollama_message_json(self@)->Object_0);
        r
    }
}

impl OllamaProvider {
    /// The body of a request, with what the messages and the tools were converted to.
    pub fn request_body(
        model: &str,
        messages: &Vec<OllamaMessage>,
        tools: Vec<Json>,
        stream: bool,
        max_tokens: u32,
        temperature: Json,
    ) -> (r: Json)
        ensures
            r@ == ollama_request(
                model@,
                ollama_messages_json(messages@),
                items_view(tools@),
                stream,
                max_tokens as nat,
                temperature@,
            ),
    {
        let ghost all = ollama_messages_json(messages@);
        let ghost expected = ollama_request(
            model@,
            all,
            items_view(tools@),
            stream,
            max_tokens as nat,
            temperature@,
        );
        let mut list: Vec<Json> = Vec::new();
        let mut i: usize = 0;
        assert(items_view(list@) =~= all.take(0));
        while i < messages.len()
            invariant
                i <= messages.len(),
                all == ollama_messages_json(messages@),
                items_view(list@) == all.take(i as int),
            decreases messages.len() - i,
        {
            let ghost so_far = items_view(list@);
            let json = messages[i].to_json();
            list.push(json);
            assert(items_view(list@) =~= so_far.push(json@));
            assert(items_view(list@) =~= all.take(i + 1));
            i += 1;
        }
        assert(items_view(list@) =~= all);
        let options = object2(
            "num_predict",
            Json::number(max_tokens as u64),
            "temperature",
            temperature,
        );
        let mut m: Vec<(String, Json)> = Vec::new();
        push_member(&mut m, "messages", Json::Array(list));
        push_member(&mut m, "model", Json::text(Self::normalize_model(model).as_str()));
        push_member(&mut m, "options", options);
        push_member(&mut m, "stream", Json::Bool(stream));
        if tools.len() > 0 {
            push_member(&mut m, "tools", Json::Array(tools));
        }
        let r = Json::Object(m);
        assert(r@->Object_0 =~= expected->Object_0);
        r
    }
}

// ---------------------------------------------------------------------------
// Failures
// ---------------------------------------------------------------------------

/// Where a text can be cut so that at most `max_bytes` bytes are left and no character is split:
/// as late as possible.
pub fn truncate_at_char_boundary(s: &str, max_bytes: usize) -> (r: usize)
    ensures
        is_char_boundary(encode_utf8(s@), r as int),
        if max_bytes >= encode_utf8(s@).len() {
            r == encode_utf8(s@).len()
        } else {
            r <= max_bytes && forall|k: int|
                r < k <= max_bytes ==> !#[trigger] is_char_boundary(encode_utf8(s@), k)
        },
{
    proof {
        vstd::utf8::encode_utf8_valid_utf8(s@);
        vstd::utf8::is_char_boundary_start_end_of_seq(encode_utf8(s@));
    }
    let len = s.as_bytes().len();
    if max_bytes >= len {
        return len;
    }
    let mut end = max_bytes;
    while end > 0 && !s.is_char_boundary(end)
        invariant
            end <= max_bytes,
            forall|k: int|
                end < k <= max_bytes ==> !#[trigger] is_char_boundary(encode_utf8(s@), k),
        decreases end,
    {
        end -= 1;
    }
    end
}

/// The service refused the request.
pub open spec fn api_error(name: Seq<char>, status: Seq<char>, body: Seq<char>) -> Seq<char> {
    name + " error "@ + status + ": "@ + body
}

/// The error for a response that is no success. `name` names the request.
pub fn refused_request(name: &str, status: &str, body: &str) -> (r: Error)
    ensures
        r@ == ErrorView::Provider(api_error(name@, status@, body@)),
{
    let mut text = name.to_owned();
    text.push_str(" error ");
    text.push_str(status);
    text.push_str(": ");
    text.push_str(body);
    Error::Provider(text)
}

pub open spec fn quote(complaint: Seq<char>, reason: Seq<char>, part: Seq<char>) -> Seq<char> {
    complaint + ": "@ + reason + ". Body: "@ + part
}

fn quote_of(complaint: &str, reason: &str, part: &str) -> (r: String)
    ensures
        r@ == quote(complaint@, reason@, part@),
{
    let mut text = complaint.to_owned();
    text.push_str(": ");
    text.push_str(reason);
    text.push_str(". Body: ");
    text.push_str(part);
    text
}

/// The first characters of a text.
pub open spec fn first_chars(text: Seq<char>, max: nat) -> Seq<char> {
    if text.len() <= max {
        text
    } else {
        text.take(max as int)
    }
}

/// The error for a response that could not be read, with the start of the response.
pub fn unreadable_response(complaint: &str, reason: &str, body: &str) -> (r: Error)
    ensures
        r@ == ErrorView::Provider(
            quote(complaint@, reason@, first_chars(body@, QUOTED as nat)),
        ),
{
    let chars = chars_of(body);
    if chars.len() <= QUOTED {
        return Error::Provider(quote_of(complaint, reason, body));
    }
    let part = text_of(before(chars.as_slice(), QUOTED));
    Error::Provider(quote_of(complaint, reason, part.as_str()))
}

impl OpenAIProvider {
    /// The error for a response that could not be read, with its first bytes up to the end of a
    /// character.
    pub fn unreadable_response(reason: &str, body: &str) -> (r: Error)
        ensures
            exists|end: int|
                #![trigger is_char_boundary(encode_utf8(body@), end)]
                is_char_boundary(encode_utf8(body@), end) && 0 <= end <= encode_utf8(body@).len()
                    && (if QUOTED >= encode_utf8(body@).len() {
                    end == encode_utf8(body@).len()
                } else {
                    end <= QUOTED && forall|k: int|
                        end < k <= QUOTED ==> !#[trigger] is_char_boundary(encode_utf8(body@), k)
                }) && r@ == ErrorView::Provider(
                    quote(
                        "Failed to parse response"@,
                        reason@,
                        decode_utf8(encode_utf8(body@).subrange(0, end)),
                    ),
                ),
    {
        let end = truncate_at_char_boundary(body, QUOTED);
        let (head, tail) = body.split_at(end);
        proof {
            vstd::utf8::encode_utf8_decode_utf8(head@);
        }
        Error::Provider(quote_of("Failed to parse response", reason, head))
    }
}

} // verus!
