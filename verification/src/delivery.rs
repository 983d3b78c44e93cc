//! Where the answer to a message goes.

use crate::json::{json_of_texts, object2, push_member, strings_json};
use crate::messages::{
    copy_texts, extract_reply_metadata, outbound, reply_metadata, InboundMessage, InboundView,
    OutboundMessage, OutboundView,
};
use crate::paths::opt_str;
use crate::skills::{flag, flag_of};
use crate::text::{copy_opt, decimal, opt_text, same_text, texts_view};
use crate::value::{group_json_view, Json, JsonView};
use vstd::prelude::*;

verus! {

broadcast use group_json_view;

/// One thing to be sent: an event to the clients that watch, or a message to a channel.
pub enum Delivery {
    Event(Json),
    Send(OutboundMessage),
}

pub enum DeliveryView {
    Event(JsonView),
    Send(OutboundView),
}

impl View for Delivery {
    type V = DeliveryView;

    open spec fn view(&self) -> DeliveryView {
        match self {
            Delivery::Event(event) => DeliveryView::Event(event@),
            Delivery::Send(message) => DeliveryView::Send(message@),
        }
    }
}

pub open spec fn deliveries_view(list: Seq<Delivery>) -> Seq<DeliveryView> {
    list.map_values(|d: Delivery| d@)
}

fn put(list: &mut Vec<Delivery>, delivery: Delivery)
    ensures
        deliveries_view(final(list)@) == deliveries_view(old(list)@).push(delivery@),
{
    let ghost before = deliveries_view(list@);
    list.push(delivery);
    assert(deliveries_view(list@) =~= before.push(delivery@));
}

// ---------------------------------------------------------------------------
// Events
// ---------------------------------------------------------------------------

/// The name of the agent in events.
pub open spec fn agent_name(agent_id: Option<Seq<char>>) -> Seq<char> {
    match agent_id {
        Some(id) => id,
        None => "default"@,
    }
}

pub fn agent_name_of(agent_id: Option<&str>) -> (r: String)
    ensures
        r@ == agent_name(opt_str(agent_id)),
{
    match agent_id {
        Some(id) => id.to_owned(),
        None => "default".to_owned(),
    }
}

/// The event that an answer is complete.
pub open spec fn message_done(
    agent_id: Option<Seq<char>>,
    chat_id: Seq<char>,
    content: Seq<char>,
    media: Seq<Seq<char>>,
) -> JsonView {
    JsonView::Object(
        seq![
            ("agent_id"@, JsonView::Str(agent_name(agent_id))),
            ("chat_id"@, JsonView::Str(chat_id)),
            ("content"@, JsonView::Str(content)),
            ("duration_ms"@, JsonView::Number(decimal(0))),
            ("media"@, strings_json(media)),
            ("task_id"@, JsonView::Str(""@)),
            ("tool_calls"@, JsonView::Number(decimal(0))),
            ("type"@, JsonView::Str("message_done"@)),
        ],
    )
}

pub fn message_done_event(
    agent_id: Option<&str>,
    chat_id: &str,
    content: &str,
    media: &Vec<String>,
) -> (r: Json)
    ensures
        r@ == message_done(opt_str(agent_id), chat_id@, content@, texts_view(media@)),
{
    let mut m: Vec<(String, Json)> = Vec::new();
    push_member(&mut m, "agent_id", Json::Str(agent_name_of(agent_id)));
    push_member(&mut m, "chat_id", Json::text(chat_id));
    push_member(&mut m, "content", Json::text(content));
    push_member(&mut m, "duration_ms", Json::number(0));
    push_member(&mut m, "media", json_of_texts(media));
    push_member(&mut m, "task_id", Json::text(""));
    push_member(&mut m, "tool_calls", Json::number(0));
    push_member(&mut m, "type", Json::text("message_done"));
    let r = Json::Object(m);
    assert(r@->Object_0 =~= message_done(
        opt_str(agent_id),
        chat_id@,
        content@,
        texts_view(media@),
    )->Object_0);
    r
}

/// The event that a job has delivered its answer into another conversation.
pub open spec fn background_done(
    agent_id: Option<Seq<char>>,
    chat_id: Seq<char>,
    content: Seq<char>,
    media: Seq<Seq<char>>,
    cron_kind: Seq<char>,
) -> JsonView {
    JsonView::Object(
        seq![
            ("agent_id"@, JsonView::Str(agent_name(agent_id))),
            ("background_delivery"@, JsonView::Bool(true)),
            ("chat_id"@, JsonView::Str(chat_id)),
            ("content"@, JsonView::Str(content)),
            ("cron_kind"@, JsonView::Str(cron_kind)),
            ("delivery_kind"@, JsonView::Str("cron"@)),
            ("duration_ms"@, JsonView::Number(decimal(0))),
            ("media"@, strings_json(media)),
            ("task_id"@, JsonView::Str(""@)),
            ("tool_calls"@, JsonView::Number(decimal(0))),
            ("type"@, JsonView::Str("message_done"@)),
        ],
    )
}

pub fn background_done_event(
    agent_id: Option<&str>,
    chat_id: &str,
    content: &str,
    media: &Vec<String>,
    cron_kind: &str,
) -> (r: Json)
    ensures
        r@ == background_done(
            opt_str(agent_id),
            chat_id@,
            content@,
            texts_view(media@),
            cron_kind@,
        ),
{
    let mut m: Vec<(String, Json)> = Vec::new();
    push_member(&mut m, "agent_id", Json::Str(agent_name_of(agent_id)));
    push_member(&mut m, "background_delivery", Json::Bool(true));
    push_member(&mut m, "chat_id", Json::text(chat_id));
    push_member(&mut m, "content", Json::text(content));
    push_member(&mut m, "cron_kind", Json::text(cron_kind));
    push_member(&mut m, "delivery_kind", Json::text("cron"));
    push_member(&mut m, "duration_ms", Json::number(0));
    push_member(&mut m, "media", json_of_texts(media));
    push_member(&mut m, "task_id", Json::text(""));
    push_member(&mut m, "tool_calls", Json::number(0));
    push_member(&mut m, "type", Json::text("message_done"));
    let r = Json::Object(m);
    assert(r@->Object_0 =~= background_done(
        opt_str(agent_id),
        chat_id@,
        content@,
        texts_view(media@),
        cron_kind@,
    )->Object_0);
    r
}

/// The event that a conversation got a name.
pub open spec fn session_renamed(
    agent_id: Option<Seq<char>>,
    chat_id: Seq<char>,
    name: Seq<char>,
) -> JsonView {
    JsonView::Object(
        seq![
            ("agent_id"@, JsonView::Str(agent_name(agent_id))),
            ("chat_id"@, JsonView::Str(chat_id)),
            ("name"@, JsonView::Str(name)),
            ("type"@, JsonView::Str("session_renamed"@)),
        ],
    )
}

/// The event for a new name of the conversation, where the message came from a client that
/// watches.
pub fn session_renamed_event(agent_id: Option<&str>, msg: &InboundMessage, name: &str) -> (r:
    Option<Json>)
    ensures
        match r {
            Some(event) => msg@.channel == "ws"@ && event@ == session_renamed(
                opt_str(agent_id),
                msg@.chat_id,
                name@,
            ),
            None => msg@.channel != "ws"@,
        },
{
    if !same_text(msg.channel.as_str(), "ws") {
        return None;
    }
    let mut m: Vec<(String, Json)> = Vec::new();
    push_member(&mut m, "agent_id", Json::Str(agent_name_of(agent_id)));
    push_member(&mut m, "chat_id", Json::text(msg.chat_id.as_str()));
    push_member(&mut m, "name", Json::text(name));
    push_member(&mut m, "type", Json::text("session_renamed"));
    let r = Json::Object(m);
    assert(r@->Object_0 =~= session_renamed(opt_str(agent_id), msg@.chat_id, name@)->Object_0);
    Some(r)
}

// ---------------------------------------------------------------------------
// Targets
// ---------------------------------------------------------------------------

/// The channel and chat that a job's metadata name as its target.
pub open spec fn named_target(metadata: JsonView) -> Option<(Seq<char>, Seq<char>)> {
    if flag(metadata, "deliver"@) {
        match (metadata.str_at("deliver_channel"@), metadata.str_at("deliver_to"@)) {
            (Some(channel), Some(to)) => Some((channel, to)),
            _ => None,
        }
    } else {
        None
    }
}

/// The target that a job delivers to: one whose channel and chat are not empty.
pub open spec fn target(metadata: JsonView) -> Option<(Seq<char>, Seq<char>)> {
    match named_target(metadata) {
        Some((channel, to)) if channel.len() > 0 && to.len() > 0 => Some((channel, to)),
        _ => None,
    }
}

pub open spec fn pair_view(pair: Option<(String, String)>) -> Option<(Seq<char>, Seq<char>)> {
    match pair {
        Some((a, b)) => Some((a@, b@)),
        None => None,
    }
}

fn named_target_of(metadata: &Json) -> (r: Option<(String, String)>)
    ensures
        pair_view(r) == named_target(metadata@),
{
    if !flag_of(metadata, "deliver") {
        return None;
    }
    match (metadata.str_at("deliver_channel"), metadata.str_at("deliver_to")) {
        (Some(channel), Some(to)) => Some((channel.to_owned(), to.to_owned())),
        _ => None,
    }
}

pub fn deliver_target(metadata: &Json) -> (r: Option<(String, String)>)
    ensures
        pair_view(r) == target(metadata@),
{
    match named_target_of(metadata) {
        Some((channel, to)) => if !channel.as_str().is_empty() && !to.as_str().is_empty() {
            Some((channel, to))
        } else {
            None
        },
        None => None,
    }
}

/// The message is a job that an agent works on.
pub open spec fn agent_job(msg: InboundView) -> bool {
    msg.channel == "cron"@ && flag(msg.metadata, "cron_agent"@)
}

pub fn is_agent_job(msg: &InboundMessage) -> (r: bool)
    ensures
        r == agent_job(msg@),
{
    same_text(msg.channel.as_str(), "cron") && flag_of(&msg.metadata, "cron_agent")
}

/// The target whose conversation keeps the history of a job that an agent works on.
pub open spec fn agent_target(msg: InboundView) -> Option<(Seq<char>, Seq<char>)> {
    if agent_job(msg) {
        target(msg.metadata)
    } else {
        None
    }
}

pub fn cron_deliver_target(msg: &InboundMessage) -> (r: Option<(String, String)>)
    ensures
        pair_view(r) == agent_target(msg@),
{
    if is_agent_job(msg) {
        deliver_target(&msg.metadata)
    } else {
        None
    }
}

// ---------------------------------------------------------------------------
// Deliveries
// ---------------------------------------------------------------------------

/// The answer back to where the message came from.
pub open spec fn answer(msg: InboundView, content: Seq<char>) -> OutboundView {
    OutboundView { account_id: msg.account_id, ..outbound(msg.channel, msg.chat_id, content) }
}

fn answer_to(msg: &InboundMessage, content: &str) -> (r: OutboundMessage)
    ensures
        r@ == answer(msg@, content@),
{
    let mut r = OutboundMessage::new(msg.channel.as_str(), msg.chat_id.as_str(), content);
    r.account_id = copy_opt(&msg.account_id);
    r
}

fn message_for(msg: &InboundMessage, channel: &str, to: &str, content: &str) -> (r: OutboundMessage)
    ensures
        r@ == (OutboundView { account_id: msg@.account_id, ..outbound(channel@, to@, content@) }),
{
    let mut r = OutboundMessage::new(channel, to, content);
    r.account_id = copy_opt(&msg.account_id);
    r
}

/// What is sent when a script has answered: to the target where there is one, otherwise back.
pub open spec fn script_answer(
    msg: InboundView,
    agent_id: Option<Seq<char>>,
    content: Seq<char>,
) -> Seq<DeliveryView> {
    match target(msg.metadata) {
        Some((channel, to)) => if channel == "ws"@ {
            seq![
                DeliveryView::Event(
                    background_done(agent_id, to, content, Seq::empty(), "script"@),
                ),
            ]
        } else {
            seq![
                DeliveryView::Send(
                    OutboundView {
                        account_id: msg.account_id,
                        ..outbound(channel, to, content)
                    },
                ),
            ]
        },
        None => seq![DeliveryView::Send(answer(msg, content))],
    }
}

pub fn script_deliveries(msg: &InboundMessage, agent_id: Option<&str>, content: &str) -> (r: Vec<
    Delivery,
>)
    ensures
        deliveries_view(r@) == script_answer(msg@, opt_str(agent_id), content@),
{
    let mut r: Vec<Delivery> = Vec::new();
    match deliver_target(&msg.metadata) {
        Some((channel, to)) => if same_text(channel.as_str(), "ws") {
            let none: Vec<String> = Vec::new();
            assert(texts_view(none@) =~= Seq::empty());
            put(
                &mut r,
                Delivery::Event(
                    background_done_event(agent_id, to.as_str(), content, &none, "script"),
                ),
            );
        } else {
            put(
                &mut r,
                Delivery::Send(message_for(msg, channel.as_str(), to.as_str(), content)),
            );
        },
        None => {
            put(&mut r, Delivery::Send(answer_to(msg, content)));
        },
    }
    assert(deliveries_view(r@) =~= script_answer(msg@, opt_str(agent_id), content@));
    r
}

/// The text of a reminder.
pub open spec fn reminder_text(msg: InboundView) -> Seq<char> {
    let m = msg.metadata;
    "⏰ ["@ + m.str_or("job_name"@, "提醒"@) + "] "@ + m.str_or(
        "reminder_message"@,
        msg.content,
    )
}

/// The text of the reminder that the message is, where it is one.
pub fn reminder_of(msg: &InboundMessage) -> (r: Option<String>)
    ensures
        opt_text(r) == (if flag(msg@.metadata, "reminder"@) {
            Some(reminder_text(msg@))
        } else {
            None
        }),
{
    let m = &msg.metadata;
    if !flag_of(m, "reminder") {
        return None;
    }
    let mut text = "⏰ [".to_owned();
    text.push_str(
        match m.str_at("job_name") {
            Some(name) => name,
            None => "提醒",
        },
    );
    text.push_str("] ");
    text.push_str(
        match m.str_at("reminder_message") {
            Some(message) => message,
            None => msg.content.as_str(),
        },
    );
    Some(text)
}

/// What is sent for a reminder: the answer back, and the same text to the target that the job
/// names, with an event where that is a client that watches.
pub open spec fn reminder_answer(
    msg: InboundView,
    agent_id: Option<Seq<char>>,
    content: Seq<char>,
) -> Seq<DeliveryView> {
    let back = seq![DeliveryView::Send(answer(msg, content))];
    match named_target(msg.metadata) {
        None => back,
        Some((channel, to)) => {
            let send = DeliveryView::Send(outbound(channel, to, content));
            if channel == "ws"@ {
                back.push(
                    DeliveryView::Event(
                        background_done(agent_id, to, content, Seq::empty(), "reminder"@),
                    ),
                ).push(send)
            } else {
                back.push(send)
            }
        },
    }
}

pub fn reminder_deliveries(msg: &InboundMessage, agent_id: Option<&str>, content: &str) -> (r: Vec<
    Delivery,
>)
    ensures
        deliveries_view(r@) == reminder_answer(msg@, opt_str(agent_id), content@),
{
    let mut r: Vec<Delivery> = Vec::new();
    put(&mut r, Delivery::Send(answer_to(msg, content)));
    assert(deliveries_view(r@) =~= seq![DeliveryView::Send(answer(msg@, content@))]);
    if let Some((channel, to)) = named_target_of(&msg.metadata) {
        if same_text(channel.as_str(), "ws") {
            let none: Vec<String> = Vec::new();
            assert(texts_view(none@) =~= Seq::empty());
            put(
                &mut r,
                Delivery::Event(
                    background_done_event(agent_id, to.as_str(), content, &none, "reminder"),
                ),
            );
        }
        put(
            &mut r,
            Delivery::Send(OutboundMessage::new(channel.as_str(), to.as_str(), content)),
        );
    }
    r
}

/// The answer back, with media and with what it quotes.
pub open spec fn full_answer(
    msg: InboundView,
    content: Seq<char>,
    media: Seq<Seq<char>>,
) -> OutboundView {
    OutboundView { media, metadata: reply_metadata(msg), ..answer(msg, content) }
}

fn full_answer_to(msg: &InboundMessage, content: &str, media: &Vec<String>) -> (r: OutboundMessage)
    ensures
        r@ == full_answer(msg@, content@, texts_view(media@)),
{
    let mut r = answer_to(msg, content);
    r.media = copy_texts(media);
    r.metadata = extract_reply_metadata(msg);
    r
}

/// What is sent when an agent has worked on a job.
pub open spec fn agent_answer(
    msg: InboundView,
    agent_id: Option<Seq<char>>,
    content: Seq<char>,
    media: Seq<Seq<char>>,
) -> Seq<DeliveryView> {
    let back = seq![DeliveryView::Send(full_answer(msg, content, media))];
    match agent_target(msg) {
        None => back,
        Some((channel, to)) => {
            let send = DeliveryView::Send(
                OutboundView {
                    account_id: msg.account_id,
                    media,
                    ..outbound(channel, to, content)
                },
            );
            if channel == "ws"@ {
                back.push(
                    DeliveryView::Event(background_done(agent_id, to, content, media, "agent"@)),
                ).push(send)
            } else {
                back.push(send)
            }
        },
    }
}

/// What is sent when a message was answered: an event to a client that watches, the answer back
/// unless the agent spoke to itself, and a job's answer to the target that it names.
pub open spec fn chat_answer(
    msg: InboundView,
    agent_id: Option<Seq<char>>,
    content: Seq<char>,
    media: Seq<Seq<char>>,
) -> Seq<DeliveryView> {
    let event = if msg.channel == "ws"@ {
        seq![DeliveryView::Event(message_done(agent_id, msg.chat_id, content, media))]
    } else {
        Seq::empty()
    };
    let with_back = if msg.channel != "ghost"@ {
        event.push(DeliveryView::Send(full_answer(msg, content, media)))
    } else {
        event
    };
    if msg.channel == "cron"@ {
        match named_target(msg.metadata) {
            Some((channel, to)) => with_back.push(
                DeliveryView::Send(outbound(channel, to, content)),
            ),
            None => with_back,
        }
    } else {
        with_back
    }
}

/// What is sent when the answer to a message is complete.
pub open spec fn final_answer(
    msg: InboundView,
    agent_id: Option<Seq<char>>,
    content: Seq<char>,
    media: Seq<Seq<char>>,
) -> Seq<DeliveryView> {
    if agent_job(msg) {
        agent_answer(msg, agent_id, content, media)
    } else {
        chat_answer(msg, agent_id, content, media)
    }
}

fn agent_deliveries(
    msg: &InboundMessage,
    agent_id: Option<&str>,
    content: &str,
    media: &Vec<String>,
) -> (r: Vec<Delivery>)
    ensures
        deliveries_view(r@) == agent_answer(msg@, opt_str(agent_id), content@, texts_view(media@)),
{
    let mut r: Vec<Delivery> = Vec::new();
    put(&mut r, Delivery::Send(full_answer_to(msg, content, media)));
    assert(deliveries_view(r@) =~= seq![
        DeliveryView::Send(full_answer(msg@, content@, texts_view(media@))),
    ]);
    if let Some((channel, to)) = cron_deliver_target(msg) {
        if same_text(channel.as_str(), "ws") {
            put(
                &mut r,
                Delivery::Event(
                    background_done_event(agent_id, to.as_str(), content, media, "agent"),
                ),
            );
        }
        let mut send = message_for(msg, channel.as_str(), to.as_str(), content);
        send.media = copy_texts(media);
        put(&mut r, Delivery::Send(send));
    }
    r
}

fn chat_deliveries(
    msg: &InboundMessage,
    agent_id: Option<&str>,
    content: &str,
    media: &Vec<String>,
) -> (r: Vec<Delivery>)
    ensures
        deliveries_view(r@) == chat_answer(msg@, opt_str(agent_id), content@, texts_view(media@)),
{
    let channel = msg.channel.as_str();
    let mut r: Vec<Delivery> = Vec::new();
    if same_text(channel, "ws") {
        put(
            &mut r,
            Delivery::Event(message_done_event(agent_id, msg.chat_id.as_str(), content, media)),
        );
        assert(deliveries_view(r@) =~= seq![
            DeliveryView::Event(
                message_done(opt_str(agent_id), msg@.chat_id, content@, texts_view(media@)),
            ),
        ]);
    } else {
        assert(deliveries_view(r@) =~= Seq::empty());
    }
    if !same_text(channel, "ghost") {
        put(&mut r, Delivery::Send(full_answer_to(msg, content, media)));
    }
    if same_text(channel, "cron") {
        if let Some((to_channel, to)) = named_target_of(&msg.metadata) {
            put(
                &mut r,
                Delivery::Send(OutboundMessage::new(to_channel.as_str(), to.as_str(), content)),
            );
        }
    }
    r
}

pub fn final_deliveries(
    msg: &InboundMessage,
    agent_id: Option<&str>,
    content: &str,
    media: &Vec<String>,
) -> (r: Vec<Delivery>)
    ensures
        deliveries_view(r@) == final_answer(msg@, opt_str(agent_id), content@, texts_view(media@)),
{
    if is_agent_job(msg) {
        agent_deliveries(msg, agent_id, content, media)
    } else {
        chat_deliveries(msg, agent_id, content, media)
    }
}

/// A picture that is sent where a message came from, without a text.
pub fn image_delivery(msg: &InboundMessage, path: &str) -> (r: OutboundMessage)
    ensures
        r@ == (OutboundView {
            account_id: msg@.account_id,
            media: seq![path@],
            ..outbound(msg@.channel, msg@.chat_id, ""@)
        }),
{
    let mut r = OutboundMessage::new(msg.channel.as_str(), msg.chat_id.as_str(), "");
    r.account_id = copy_opt(&msg.account_id);
    let mut media: Vec<String> = Vec::new();
    media.push(path.to_owned());
    assert(texts_view(media@) =~= seq![path@]);
    r.media = media;
    r
}

/// The event for skills that were loaded again.
pub fn skills_updated_event(new_skills: &Vec<String>) -> (r: Json)
    ensures
        r@ == JsonView::Object(
            seq![
                ("new_skills"@, strings_json(texts_view(new_skills@))),
                ("type"@, JsonView::Str("skills_updated"@)),
            ],
        ),
{
    object2("new_skills", json_of_texts(new_skills), "type", Json::text("skills_updated"))
}

/// A message from outside is answered where it came from: among what is sent is the full answer,
/// unless the agent spoke to itself.
pub proof fn law_answer_goes_back(
    msg: InboundView,
    agent_id: Option<Seq<char>>,
    content: Seq<char>,
    media: Seq<Seq<char>>,
)
    requires
        msg.channel != "ghost"@,
    ensures
        final_answer(msg, agent_id, content, media).contains(
            DeliveryView::Send(full_answer(msg, content, media)),
        ),
{
    let sent = final_answer(msg, agent_id, content, media);
    let back = DeliveryView::Send(full_answer(msg, content, media));
    if agent_job(msg) || msg.channel != "ws"@ {
        assert(sent[0] == back);
    } else {
        assert(sent[1] == back);
    }
}

} // verus!
