//! Notices of the system, and the conversation that they go to.

use crate::delivery::{agent_name, agent_name_of, deliveries_view, Delivery, DeliveryView};
use crate::json::push_member;
use crate::messages::{outbound, InboundMessage, InboundView, OutboundMessage, OutboundView};
use crate::paths::opt_str;
use crate::skills::{flag, flag_of};
use crate::text::{chars_of, copy_opt, opt_text, same_text, trim, trim_chars};
use crate::value::{group_json_view, Json, JsonView};
use vstd::prelude::*;

verus! {

broadcast use group_json_view;

// ---------------------------------------------------------------------------
// The main conversation
// ---------------------------------------------------------------------------

/// A conversation that notices can go to.
pub struct MainSessionTarget {
    pub channel: String,
    pub account_id: Option<String>,
    pub chat_id: String,
    pub session_key: String,
}

pub struct TargetView {
    pub channel: Seq<char>,
    pub account_id: Option<Seq<char>>,
    pub chat_id: Seq<char>,
    pub session_key: Seq<char>,
}

impl View for MainSessionTarget {
    type V = TargetView;

    open spec fn view(&self) -> TargetView {
        TargetView {
            channel: self.channel@,
            account_id: opt_text(self.account_id),
            chat_id: self.chat_id@,
            session_key: self.session_key@,
        }
    }
}

impl Clone for MainSessionTarget {
    fn clone(&self) -> (r: Self)
        ensures
            r@ == self@,
    {
        MainSessionTarget {
            channel: self.channel.clone(),
            account_id: copy_opt(&self.account_id),
            chat_id: self.chat_id.clone(),
            session_key: self.session_key.clone(),
        }
    }
}

pub open spec fn target_opt(target: Option<MainSessionTarget>) -> Option<TargetView> {
    match target {
        Some(t) => Some(t@),
        None => None,
    }
}

/// The message is one of a user: it comes from no part of the system and asks for no stop.
pub open spec fn from_user(msg: InboundView) -> bool {
    &&& msg.channel != "system"@
    &&& msg.channel != "cron"@
    &&& msg.channel != "subagent"@
    &&& msg.channel != "ghost"@
    &&& msg.sender_id != "system"@
    &&& msg.sender_id != "cron"@
    &&& !flag(msg.metadata, "cancel"@)
}

pub fn is_main_session_candidate(msg: &InboundMessage) -> (r: bool)
    ensures
        r == from_user(msg@),
{
    let channel = msg.channel.as_str();
    let sender = msg.sender_id.as_str();
    !(same_text(channel, "system") || same_text(channel, "cron") || same_text(channel, "subagent")
        || same_text(channel, "ghost") || same_text(sender, "system") || same_text(sender, "cron")
        || flag_of(&msg.metadata, "cancel"))
}

/// Where a notice belongs.
pub enum EventScope {
    MainSession,
    Global,
    Channel { channel: String, chat_id: String },
    Session { channel: String, chat_id: String, session_key: String },
}

/// The conversation that a notice goes to.
pub open spec fn scope_target(scope: EventScope, main: Option<TargetView>) -> Option<TargetView> {
    match scope {
        EventScope::Channel { channel, chat_id } => Some(
            TargetView {
                channel: channel@,
                account_id: None,
                chat_id: chat_id@,
                session_key: channel@ + ":"@ + chat_id@,
            },
        ),
        EventScope::Session { channel, chat_id, session_key } => Some(
            TargetView {
                channel: channel@,
                account_id: None,
                chat_id: chat_id@,
                session_key: session_key@,
            },
        ),
        EventScope::MainSession => main,
        EventScope::Global => main,
    }
}

// ---------------------------------------------------------------------------
// Notices
// ---------------------------------------------------------------------------

#[derive(Clone, Copy, PartialEq, Eq, Structural)]
pub enum EventPriority {
    Low,
    Normal,
    High,
    Critical,
}

/// A notice that goes out at once.
pub struct NotificationRequest {
    pub event_id: String,
    pub priority: EventPriority,
    pub title: String,
    pub body: String,
    pub scope: EventScope,
}

/// Several notices put together.
pub struct SessionSummary {
    pub title: String,
    pub compact_text: String,
    pub items: Json,
}

pub open spec fn priority_mark(priority: EventPriority) -> Seq<char> {
    match priority {
        EventPriority::Critical => "🚨 "@,
        EventPriority::High => "⚠️ "@,
        _ => "ℹ️ "@,
    }
}

pub open spec fn notification_text(request: NotificationRequest) -> Seq<char> {
    priority_mark(request.priority) + request.title@ + "\n"@ + request.body@
}

pub fn render_system_notification_text(request: &NotificationRequest) -> (r: String)
    ensures
        r@ == notification_text(*request),
{
    let mut text = (match request.priority {
        EventPriority::Critical => "🚨 ",
        EventPriority::High => "⚠️ ",
        _ => "ℹ️ ",
    }).to_owned();
    text.push_str(request.title.as_str());
    text.push_str("\n");
    text.push_str(request.body.as_str());
    text
}

pub open spec fn summary_text(summary: SessionSummary) -> Seq<char> {
    if trim(summary.compact_text@).len() == 0 {
        summary.title@
    } else {
        "🗂️ "@ + summary.title@ + "\n"@ + summary.compact_text@
    }
}

pub fn render_session_summary_text(summary: &SessionSummary) -> (r: String)
    ensures
        r@ == summary_text(*summary),
{
    if trim_chars(chars_of(summary.compact_text.as_str()).as_slice()).len() == 0 {
        summary.title.clone()
    } else {
        let mut text = "🗂️ ".to_owned();
        text.push_str(summary.title.as_str());
        text.push_str("\n");
        text.push_str(summary.compact_text.as_str());
        text
    }
}

pub open spec fn channel_value(target: Option<TargetView>) -> JsonView {
    match target {
        Some(t) => JsonView::Str(t.channel),
        None => JsonView::Null,
    }
}

pub open spec fn chat_value(target: Option<TargetView>) -> JsonView {
    match target {
        Some(t) => JsonView::Str(t.chat_id),
        None => JsonView::Null,
    }
}

fn channel_value_of(target: &Option<MainSessionTarget>) -> (r: Json)
    ensures
        r@ == channel_value(target_opt(*target)),
{
    match target {
        Some(t) => Json::text(t.channel.as_str()),
        None => Json::Null,
    }
}

fn chat_value_of(target: &Option<MainSessionTarget>) -> (r: Json)
    ensures
        r@ == chat_value(target_opt(*target)),
{
    match target {
        Some(t) => Json::text(t.chat_id.as_str()),
        None => Json::Null,
    }
}

/// The event of a notice. `priority` is how the priority is written in events.
pub open spec fn notification_event(
    agent_id: Option<Seq<char>>,
    request: NotificationRequest,
    priority: JsonView,
    target: Option<TargetView>,
) -> JsonView {
    JsonView::Object(
        seq![
            ("agent_id"@, JsonView::Str(agent_name(agent_id))),
            ("body"@, JsonView::Str(request.body@)),
            ("channel"@, channel_value(target)),
            ("chat_id"@, chat_value(target)),
            ("event_id"@, JsonView::Str(request.event_id@)),
            ("priority"@, priority),
            ("title"@, JsonView::Str(request.title@)),
            ("type"@, JsonView::Str("system_event_notification"@)),
        ],
    )
}

/// The event of a summary.
pub open spec fn summary_event(
    agent_id: Option<Seq<char>>,
    summary: SessionSummary,
    target: Option<TargetView>,
) -> JsonView {
    JsonView::Object(
        seq![
            ("agent_id"@, JsonView::Str(agent_name(agent_id))),
            ("channel"@, channel_value(target)),
            ("chat_id"@, chat_value(target)),
            ("compact_text"@, JsonView::Str(summary.compact_text@)),
            ("items"@, summary.items@),
            ("title"@, JsonView::Str(summary.title@)),
            ("type"@, JsonView::Str("system_event_summary"@)),
        ],
    )
}

/// A notice as an event, and as a message to the target; a client that watches gets the event
/// alone.
pub open spec fn noticed(
    event: JsonView,
    target: Option<TargetView>,
    text: Seq<char>,
) -> Seq<DeliveryView> {
    let first = seq![DeliveryView::Event(event)];
    match target {
        Some(t) if t.channel != "ws"@ => first.push(
            DeliveryView::Send(
                OutboundView { account_id: t.account_id, ..outbound(t.channel, t.chat_id, text) },
            ),
        ),
        _ => first,
    }
}

fn notice(event: Json, target: &Option<MainSessionTarget>, text: &str) -> (r: Vec<Delivery>)
    ensures
        deliveries_view(r@) == noticed(event@, target_opt(*target), text@),
{
    let mut r: Vec<Delivery> = Vec::new();
    r.push(Delivery::Event(event));
    assert(deliveries_view(r@) =~= seq![DeliveryView::Event(event@)]);
    if let Some(t) = target {
        if !same_text(t.channel.as_str(), "ws") {
            let mut message = OutboundMessage::new(t.channel.as_str(), t.chat_id.as_str(), text);
            message.account_id = copy_opt(&t.account_id);
            let ghost before = deliveries_view(r@);
            r.push(Delivery::Send(message));
            assert(deliveries_view(r@) =~= before.push(DeliveryView::Send(message@)));
        }
    }
    r
}

/// The conversation in which the user was last seen.
pub struct MainSession {
    pub target: Option<MainSessionTarget>,
}

impl MainSession {
    pub fn new() -> (r: Self)
        ensures
            r.target is None,
    {
        MainSession { target: None }
    }

    /// Remembers where the user wrote; a message that no user wrote changes nothing.
    pub fn update_main_session_target(&mut self, msg: &InboundMessage, session_key: &str)
        ensures
            target_opt(final(self).target) == (if from_user(msg@) {
                Some(
                    TargetView {
                        channel: msg@.channel,
                        account_id: msg@.account_id,
                        chat_id: msg@.chat_id,
                        session_key: session_key@,
                    },
                )
            } else {
                target_opt(old(self).target)
            }),
    {
        if !is_main_session_candidate(msg) {
            return;
        }
        self.target = Some(
            MainSessionTarget {
                channel: msg.channel.clone(),
                account_id: copy_opt(&msg.account_id),
                chat_id: msg.chat_id.clone(),
                session_key: session_key.to_owned(),
            },
        );
    }

    pub fn resolve_event_delivery_target(&self, scope: &EventScope) -> (r: Option<
        MainSessionTarget,
    >)
        ensures
            target_opt(r) == scope_target(*scope, target_opt(self.target)),
    {
        match scope {
            EventScope::Channel { channel, chat_id } => {
                let mut session_key = channel.clone();
                session_key.push_str(":");
                session_key.push_str(chat_id.as_str());
                Some(
                    MainSessionTarget {
                        channel: channel.clone(),
                        account_id: None,
                        chat_id: chat_id.clone(),
                        session_key,
                    },
                )
            },
            EventScope::Session { channel, chat_id, session_key } => Some(
                MainSessionTarget {
                    channel: channel.clone(),
                    account_id: None,
                    chat_id: chat_id.clone(),
                    session_key: session_key.clone(),
                },
            ),
            EventScope::MainSession => self.main(),
            EventScope::Global => self.main(),
        }
    }

    fn main(&self) -> (r: Option<MainSessionTarget>)
        ensures
            target_opt(r) == target_opt(self.target),
    {
        match &self.target {
            Some(t) => Some(t.clone()),
            None => None,
        }
    }

    /// What is sent for a notice.
    pub fn notification_deliveries(
        &self,
        agent_id: Option<&str>,
        request: &NotificationRequest,
        priority: Json,
    ) -> (r: Vec<Delivery>)
        ensures
            ({
                let target = scope_target(request.scope, target_opt(self.target));
                deliveries_view(r@) == noticed(
                    notification_event(opt_str(agent_id), *request, priority@, target),
                    target,
                    notification_text(*request),
                )
            }),
    {
        let target = self.resolve_event_delivery_target(&request.scope);
        let mut m: Vec<(String, Json)> = Vec::new();
        push_member(&mut m, "agent_id", Json::Str(agent_name_of(agent_id)));
        push_member(&mut m, "body", Json::text(request.body.as_str()));
        push_member(&mut m, "channel", channel_value_of(&target));
        push_member(&mut m, "chat_id", chat_value_of(&target));
        push_member(&mut m, "event_id", Json::text(request.event_id.as_str()));
        push_member(&mut m, "priority", priority);
        push_member(&mut m, "title", Json::text(request.title.as_str()));
        push_member(&mut m, "type", Json::text("system_event_notification"));
        let event = Json::Object(m);
        assert(event@->Object_0 =~= notification_event(
            opt_str(agent_id),
            *request,
            priority@,
            target_opt(target),
        )->Object_0);
        let text = render_system_notification_text(request);
        notice(event, &target, text.as_str())
    }

    /// What is sent for a summary.
    pub fn summary_deliveries(&self, agent_id: Option<&str>, summary: &SessionSummary) -> (r: Vec<
        Delivery,
    >)
        ensures
            deliveries_view(r@) == noticed(
                summary_event(opt_str(agent_id), *summary, target_opt(self.target)),
                target_opt(self.target),
                summary_text(*summary),
            ),
    {
        let mut m: Vec<(String, Json)> = Vec::new();
        push_member(&mut m, "agent_id", Json::Str(agent_name_of(agent_id)));
        push_member(&mut m, "channel", channel_value_of(&self.target));
        push_member(&mut m, "chat_id", chat_value_of(&self.target));
        push_member(&mut m, "compact_text", Json::text(summary.compact_text.as_str()));
        push_member(&mut m, "items", summary.items.clone());
        push_member(&mut m, "title", Json::text(summary.title.as_str()));
        push_member(&mut m, "type", Json::text("system_event_summary"));
        let event = Json::Object(m);
        assert(event@->Object_0 =~= summary_event(
            opt_str(agent_id),
            *summary,
            target_opt(self.target),
        )->Object_0);
        let text = render_session_summary_text(summary);
        notice(event, &self.target, text.as_str())
    }
}

} // verus!
