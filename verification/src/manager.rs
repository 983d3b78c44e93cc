//! Sending messages out: by which account, and in which form.

use crate::accounts::{
    channel_configured, configured, is_external_channel_enabled, labels_on, listener_labels,
    switched_on,
};
use crate::config::{
    channel_view, copy_accounts, Account, ChannelConfig, ChannelView, Config, ConfigView,
    DingTalkAccountConfig, DiscordAccountConfig, FeishuAccountConfig, LarkAccountConfig,
    SlackAccountConfig, TelegramAccountConfig, WeComAccountConfig, WhatsAppAccountConfig,
};
use crate::error::{Error, ErrorView};
use crate::messages::{OutboundMessage, OutboundView};
use crate::paths::opt_str;
use crate::text::{
    chars_of, copy_opt, decimal, decimal_text, integer, integer_of, join, join_texts, opt_text,
    same_text, trim, trim_chars,
};
use crate::value::{Json, JsonView};
use vstd::prelude::*;

verus! {

// ---------------------------------------------------------------------------
// Accounts
// ---------------------------------------------------------------------------

/// The first account with this id.
pub open spec fn account_with<T>(accounts: Seq<(String, T)>, id: Seq<char>) -> Option<T>
    decreases accounts.len(),
{
    if accounts.len() == 0 {
        None
    } else if accounts[0].0@ == id {
        Some(accounts[0].1)
    } else {
        account_with(accounts.skip(1), id)
    }
}

fn find_account<'a, T>(accounts: &'a Vec<(String, T)>, id: &str) -> (r: Option<&'a T>)
    ensures
        match r {
            Some(account) => account_with(accounts@, id@) == Some(*account),
            None => account_with(accounts@, id@) is None,
        },
{
    let mut i: usize = 0;
    assert(accounts@.skip(0) =~= accounts@);
    while i < accounts.len()
        invariant
            i <= accounts.len(),
            account_with(accounts@, id@) == account_with(accounts@.skip(i as int), id@),
        decreases accounts.len() - i,
    {
        if same_text(accounts[i].0.as_str(), id) {
            return Some(&accounts[i].1);
        }
        assert(accounts@.skip(i as int).skip(1) =~= accounts@.skip(i + 1));
        i += 1;
    }
    None
}

/// The id of the account that a message is sent by, and the complaint where there is no such
/// account: the one that is asked for, otherwise the channel's own choice. Where neither is given
/// it is the account `default`, which may be missing.
pub open spec fn picked_id(
    channel: Seq<char>,
    requested: Option<Seq<char>>,
    default: Option<Seq<char>>,
) -> (Seq<char>, Option<Seq<char>>) {
    match requested {
        Some(id) => (
            id,
            Some("Unknown account_id '"@ + id + "' for channel '"@ + channel + "'"@),
        ),
        None => match default {
            Some(id) if trim(id).len() > 0 => (
                id,
                Some("default_account_id '"@ + id + "' not found for channel '"@ + channel + "'"@),
            ),
            _ => ("default"@, None),
        },
    }
}

/// What picking an account gives: an account, none, or a complaint.
pub open spec fn picked<T>(
    channel: Seq<char>,
    accounts: Seq<(String, T)>,
    requested: Option<Seq<char>>,
    default: Option<Seq<char>>,
) -> Result<Option<T>, Seq<char>> {
    if accounts.len() == 0 {
        Ok(None)
    } else {
        let (id, complaint) = picked_id(channel, requested, default);
        match (account_with(accounts, id), complaint) {
            (Some(account), _) => Ok(Some(account)),
            (None, Some(text)) => Err(text),
            (None, None) => Ok(None),
        }
    }
}

fn complain(start: &str, id: &str, middle: &str, channel: &str) -> (r: Error)
    ensures
        r@ == ErrorView::Channel(start@ + id@ + middle@ + channel@ + "'"@),
{
    let mut text = start.to_owned();
    text.push_str(id);
    text.push_str(middle);
    text.push_str(channel);
    text.push_str("'");
    Error::Channel(text)
}

// ---------------------------------------------------------------------------
// Settings
// ---------------------------------------------------------------------------

/// The settings of a channel with those of the account that a message is sent by in use.
pub open spec fn sending_channel<A: Account>(
    channel: ChannelConfig<A>,
    requested: Option<Seq<char>>,
) -> Result<ChannelView<A::V>, Seq<char>> {
    match picked(
        A::name(),
        channel.accounts@,
        requested,
        opt_text(channel.default_account_id),
    ) {
        Err(text) => Err(text),
        Ok(None) => Ok(channel_view(channel)),
        Ok(Some(account)) => if A::on(account@) {
            Ok(ChannelView { active: account@, ..channel_view(channel) })
        } else {
            Err("Selected "@ + A::name() + " account is disabled"@)
        },
    }
}

/// The settings by which a message is sent.
pub open spec fn sending_settings<A: Account>(
    config: ConfigView,
    channel: ChannelConfig<A>,
    requested: Option<Seq<char>>,
) -> Result<ConfigView, Seq<char>> {
    match sending_channel(channel, requested) {
        Err(text) => Err(text),
        Ok(scoped) => Ok(A::with_channel(config, scoped)),
    }
}

/// The settings by which a message is sent, whichever channel it is for.
pub open spec fn outbound_settings(config: Config, msg: OutboundView) -> Result<
    ConfigView,
    Seq<char>,
> {
    let c = config.channels;
    if msg.channel == "telegram"@ {
        sending_settings::<TelegramAccountConfig>(config@, c.telegram, msg.account_id)
    } else if msg.channel == "whatsapp"@ {
        sending_settings::<WhatsAppAccountConfig>(config@, c.whatsapp, msg.account_id)
    } else if msg.channel == "feishu"@ {
        sending_settings::<FeishuAccountConfig>(config@, c.feishu, msg.account_id)
    } else if msg.channel == "slack"@ {
        sending_settings::<SlackAccountConfig>(config@, c.slack, msg.account_id)
    } else if msg.channel == "discord"@ {
        sending_settings::<DiscordAccountConfig>(config@, c.discord, msg.account_id)
    } else if msg.channel == "dingtalk"@ {
        sending_settings::<DingTalkAccountConfig>(config@, c.dingtalk, msg.account_id)
    } else if msg.channel == "wecom"@ {
        sending_settings::<WeComAccountConfig>(config@, c.wecom, msg.account_id)
    } else if msg.channel == "lark"@ {
        sending_settings::<LarkAccountConfig>(config@, c.lark, msg.account_id)
    } else {
        Ok(config@)
    }
}

pub open spec fn settings_outcome(
    r: Result<Config, Error>,
    expected: Result<ConfigView, Seq<char>>,
) -> bool {
    match expected {
        Ok(config) => r is Ok && r->Ok_0@ == config,
        Err(text) => r is Err && r->Err_0@ == ErrorView::Channel(text),
    }
}

fn settings_for<A: Account>(config: &Config, channel: &ChannelConfig<A>, requested: Option<&str>) -> (r:
    Result<Config, Error>)
    ensures
        settings_outcome(r, sending_settings(config@, *channel, opt_str(requested))),
{
    let default: Option<&str> = match &channel.default_account_id {
        Some(id) => Some(id.as_str()),
        None => None,
    };
    assert(opt_str(default) == opt_text(channel.default_account_id));
    match ChannelManager::pick_account(A::channel_name(), &channel.accounts, requested, default) {
        Err(e) => Err(e),
        Ok(found) => {
            let active = match found {
                Some(account) => {
                    if !account.is_on() {
                        let mut text = "Selected ".to_owned();
                        text.push_str(A::channel_name());
                        text.push_str(" account is disabled");
                        return Err(Error::Channel(text));
                    }
                    account.copy()
                },
                None => channel.active.copy(),
            };
            let scoped = ChannelConfig {
                active,
                accounts: copy_accounts(&channel.accounts),
                default_account_id: copy_opt(&channel.default_account_id),
            };
            Ok(A::put(config.clone(), scoped))
        },
    }
}

// ---------------------------------------------------------------------------
// Steps
// ---------------------------------------------------------------------------

/// One step of sending a message out.
pub enum SendStep {
    /// A file.
    Media(String),
    /// The text.
    Text,
    /// The text, over the connection that is held open.
    HeldText,
    /// The text as a reply to the message of this number, where there is one.
    NumberedReply(Option<i64>),
    /// The text as a reply to the message of this id, where there is one.
    NamedReply(Option<String>),
    /// The text in the thread of this time, where there is one.
    Threaded(Option<String>),
}

pub enum StepView {
    Media(Seq<char>),
    Text,
    HeldText,
    NumberedReply(Option<int>),
    NamedReply(Option<Seq<char>>),
    Threaded(Option<Seq<char>>),
}

impl View for SendStep {
    type V = StepView;

    open spec fn view(&self) -> StepView {
        match *self {
            SendStep::Media(path) => StepView::Media(path@),
            SendStep::Text => StepView::Text,
            SendStep::HeldText => StepView::HeldText,
            SendStep::NumberedReply(n) => StepView::NumberedReply(
                match n {
                    Some(k) => Some(k as int),
                    None => None,
                },
            ),
            SendStep::NamedReply(id) => StepView::NamedReply(opt_text(id)),
            SendStep::Threaded(ts) => StepView::Threaded(opt_text(ts)),
        }
    }
}

pub open spec fn steps_view(steps: Seq<SendStep>) -> Seq<StepView> {
    steps.map_values(|s: SendStep| s@)
}

pub open spec fn media_steps(media: Seq<Seq<char>>) -> Seq<StepView> {
    media.map_values(|p: Seq<char>| StepView::Media(p))
}

/// The files, and then the text where there is one.
pub open spec fn files_then(msg: OutboundView, text: StepView) -> Seq<StepView> {
    if msg.content.len() > 0 {
        media_steps(msg.media).push(text)
    } else {
        media_steps(msg.media)
    }
}

/// The number of the message that is replied to.
pub open spec fn replied_number(msg: OutboundView) -> Option<int> {
    match msg.metadata.get("reply_to_message_id"@) {
        Some(JsonView::Number(n)) => integer(n),
        _ => None,
    }
}

/// The steps in which a message is sent. A channel within the program sends nothing. `held` says
/// whether all messages of the channel go over one connection.
pub open spec fn send_steps(msg: OutboundView, held: bool) -> Seq<StepView> {
    let replied = msg.metadata.str_at("reply_to_message_id"@);
    if msg.channel == "telegram"@ {
        files_then(msg, StepView::NumberedReply(replied_number(msg)))
    } else if msg.channel == "whatsapp"@ {
        if held {
            seq![StepView::HeldText]
        } else {
            seq![StepView::Text]
        }
    } else if msg.channel == "feishu"@ || msg.channel == "lark"@ || msg.channel == "discord"@ {
        files_then(msg, StepView::NamedReply(replied))
    } else if msg.channel == "slack"@ {
        files_then(msg, StepView::Threaded(msg.metadata.str_at("thread_ts"@)))
    } else if msg.channel == "dingtalk"@ || msg.channel == "wecom"@ {
        files_then(msg, StepView::Text)
    } else {
        Seq::empty()
    }
}

fn files_then_of(msg: &OutboundMessage, text: SendStep) -> (r: Vec<SendStep>)
    ensures
        steps_view(r@) == files_then(msg@, text@),
{
    let ghost all = media_steps(msg@.media);
    let mut r: Vec<SendStep> = Vec::new();
    let mut i: usize = 0;
    while i < msg.media.len()
        invariant
            i <= msg.media.len(),
            all == media_steps(msg@.media),
            steps_view(r@) == all.take(i as int),
        decreases msg.media.len() - i,
    {
        let ghost so_far = steps_view(r@);
        let step = SendStep::Media(msg.media[i].clone());
        assert(step@ == all[i as int]);
        r.push(step);
        assert(steps_view(r@) =~= so_far.push(step@));
        assert(steps_view(r@) =~= all.take(i + 1));
        i += 1;
    }
    assert(steps_view(r@) =~= all);
    if !msg.content.as_str().is_empty() {
        r.push(text);
        assert(steps_view(r@) =~= all.push(text@));
    }
    r
}

fn owned(text: Option<&str>) -> (r: Option<String>)
    ensures
        opt_text(r) == opt_str(text),
{
    match text {
        Some(s) => Some(s.to_owned()),
        None => None,
    }
}

pub fn steps_for(msg: &OutboundMessage, held: bool) -> (r: Vec<SendStep>)
    ensures
        steps_view(r@) == send_steps(msg@, held),
{
    let channel = msg.channel.as_str();
    if same_text(channel, "telegram") {
        let number = match msg.metadata.get("reply_to_message_id") {
            Some(found) => match found {
                Json::Number(n) => integer_of(chars_of(n.as_str()).as_slice()),
                _ => None,
            },
            None => None,
        };
        files_then_of(msg, SendStep::NumberedReply(number))
    } else if same_text(channel, "whatsapp") {
        let mut r: Vec<SendStep> = Vec::new();
        r.push(
            if held {
                SendStep::HeldText
            } else {
                SendStep::Text
            },
        );
        assert(steps_view(r@) =~= send_steps(msg@, held));
        r
    } else if same_text(channel, "feishu") || same_text(channel, "lark") || same_text(
        channel,
        "discord",
    ) {
        let replied = owned(msg.metadata.str_at("reply_to_message_id"));
        files_then_of(msg, SendStep::NamedReply(replied))
    } else if same_text(channel, "slack") {
        let thread = owned(msg.metadata.str_at("thread_ts"));
        files_then_of(msg, SendStep::Threaded(thread))
    } else if same_text(channel, "dingtalk") || same_text(channel, "wecom") {
        files_then_of(msg, SendStep::Text)
    } else {
        let none: Vec<SendStep> = Vec::new();
        assert(steps_view(none@) =~= Seq::empty());
        none
    }
}

/// What a step leads to. A file that could not be sent is passed over; a text that could not be
/// sent is an error.
pub open spec fn step_outcome(step: StepView, failed: Option<Error>) -> Result<(), Error> {
    match failed {
        Some(e) if !(step is Media) => Err(e),
        _ => Ok(()),
    }
}

/// What is to be done after a step was tried: whether to go on, or to end with an error.
pub fn after_step(step: &SendStep, failed: Option<Error>) -> (r: Result<(), Error>)
    ensures
        r == step_outcome(step@, failed),
{
    match failed {
        Some(e) => match step {
            SendStep::Media(_) => Ok(()),
            _ => Err(e),
        },
        None => Ok(()),
    }
}

/// How many steps are tried, where each fails as `failures` says: no more after an error.
pub open spec fn steps_tried(steps: Seq<StepView>, failures: Seq<Option<Error>>) -> nat
    decreases steps.len(),
{
    if steps.len() == 0 {
        0
    } else if step_outcome(steps[0], failures[0]) is Err {
        1
    } else {
        1 + steps_tried(steps.skip(1), failures.skip(1))
    }
}

/// What sending leads to, where each step fails as `failures` says.
pub open spec fn dispatch_outcome(steps: Seq<StepView>, failures: Seq<Option<Error>>) -> Result<
    (),
    Error,
>
    decreases steps.len(),
{
    if steps.len() == 0 {
        Ok(())
    } else {
        match step_outcome(steps[0], failures[0]) {
            Err(e) => Err(e),
            Ok(()) => dispatch_outcome(steps.skip(1), failures.skip(1)),
        }
    }
}

/// Where only the last step may be a text, all steps are tried, and only that text counts.
proof fn lemma_files_first(steps: Seq<StepView>, failures: Seq<Option<Error>>)
    requires
        failures.len() == steps.len(),
        forall|i: int| 0 <= i < steps.len() - 1 ==> (#[trigger] steps[i]) is Media,
    ensures
        steps_tried(steps, failures) == steps.len(),
        dispatch_outcome(steps, failures) == (if steps.len() == 0 {
            Ok(())
        } else {
            step_outcome(steps.last(), failures.last())
        }),
    decreases steps.len(),
{
    reveal_with_fuel(steps_tried, 2);
    reveal_with_fuel(dispatch_outcome, 2);
    if steps.len() > 1 {
        let rest = steps.skip(1);
        assert(steps[0] is Media);
        assert forall|i: int| 0 <= i < rest.len() - 1 implies (#[trigger] rest[i]) is Media by {
            assert(rest[i] == steps[i + 1]);
        }
        lemma_files_first(rest, failures.skip(1));
    }
}

/// A channel that sends files besides texts.
pub open spec fn sends_files(channel: Seq<char>) -> bool {
    ||| channel == "telegram"@
    ||| channel == "feishu"@
    ||| channel == "lark"@
    ||| channel == "discord"@
    ||| channel == "slack"@
    ||| channel == "dingtalk"@
    ||| channel == "wecom"@
}

/// Every file of a message is tried once and in order, whichever of them fail, and then the text,
/// where there is one. Sending fails just where the text does, with its error.
pub proof fn law_files_go_out_before_the_text(
    msg: OutboundView,
    held: bool,
    failures: Seq<Option<Error>>,
)
    requires
        failures.len() == send_steps(msg, held).len(),
    ensures
        steps_tried(send_steps(msg, held), failures) == send_steps(msg, held).len(),
        sends_files(msg.channel) ==> {
            let steps = send_steps(msg, held);
            let count = msg.media.len() as int;
            &&& steps.take(count) == media_steps(msg.media)
            &&& steps.len() == count + (if msg.content.len() > 0 {
                1int
            } else {
                0int
            })
            &&& msg.content.len() > 0 ==> !(steps[count] is Media) && dispatch_outcome(
                steps,
                failures,
            ) == (match failures[count] {
                Some(e) => Err(e),
                None => Ok(()),
            })
            &&& msg.content.len() == 0 ==> dispatch_outcome(steps, failures) == Ok::<(), Error>(())
        },
        msg.channel == "whatsapp"@ ==> {
            &&& send_steps(msg, held).len() == 1 && !(send_steps(msg, held)[0] is Media)
            &&& dispatch_outcome(send_steps(msg, held), failures) == (match failures[0] {
                Some(e) => Err(e),
                None => Ok(()),
            })
        },
{
    reveal_strlit("telegram");
    reveal_strlit("whatsapp");
    reveal_strlit("feishu");
    reveal_strlit("lark");
    reveal_strlit("discord");
    reveal_strlit("slack");
    reveal_strlit("dingtalk");
    reveal_strlit("wecom");
    assert("whatsapp"@[0] == 'w' && "whatsapp"@[1] == 'h');
    assert("telegram"@[0] == 't' && "feishu"@[0] == 'f' && "lark"@[0] == 'l');
    assert("discord"@[0] == 'd' && "dingtalk"@[0] == 'd' && "slack"@[0] == 's');
    assert("wecom"@[1] == 'e');
    let steps = send_steps(msg, held);
    lemma_files_first(steps, failures);
    if sends_files(msg.channel) {
        assert(steps.take(msg.media.len() as int) =~= media_steps(msg.media));
    }
}

// ---------------------------------------------------------------------------
// Status
// ---------------------------------------------------------------------------

/// What is missing where a channel is not set up.
pub open spec fn missing_detail(channel: Seq<char>) -> Seq<char> {
    if channel == "telegram"@ {
        "token not set"@
    } else if channel == "whatsapp"@ {
        "bridge_url not set"@
    } else if channel == "feishu"@ {
        "app_id not set"@
    } else if channel == "slack"@ {
        "bot_token not set"@
    } else if channel == "discord"@ {
        "bot_token not set"@
    } else if channel == "dingtalk"@ {
        "app_key not set"@
    } else if channel == "wecom"@ {
        "corp_id not set"@
    } else if channel == "lark"@ {
        "app_id not set"@
    } else {
        "not configured"@
    }
}

/// Whether a channel has listeners, and what is to be said of it.
pub open spec fn status(config: ConfigView, channel: Seq<char>) -> (bool, Seq<char>) {
    let labels = labels_on(config, channel);
    if !switched_on(config, channel) {
        (false, "disabled"@)
    } else if labels.len() > 0 {
        (
            true,
            decimal(labels.len()) + " "@ + (if labels.len() == 1 {
                "listener"@
            } else {
                "listeners"@
            }) + " active: "@ + join(labels, ", "@),
        )
    } else if configured(config, channel) {
        (false, "enabled but no routable listener"@)
    } else {
        (false, missing_detail(channel))
    }
}

pub open spec fn channel_names() -> Seq<Seq<char>> {
    seq![
        "telegram"@,
        "whatsapp"@,
        "feishu"@,
        "slack"@,
        "discord"@,
        "dingtalk"@,
        "wecom"@,
        "lark"@,
    ]
}

pub open spec fn statuses_view(list: Seq<(String, bool, String)>) -> Seq<
    (Seq<char>, bool, Seq<char>),
> {
    list.map_values(|s: (String, bool, String)| (s.0@, s.1, s.2@))
}

pub open spec fn all_statuses(config: ConfigView) -> Seq<(Seq<char>, bool, Seq<char>)> {
    channel_names().map_values(
        |channel: Seq<char>| (channel, status(config, channel).0, status(config, channel).1),
    )
}

/// Sends messages out over the channels.
pub struct ChannelManager {
    pub config: Config,
}

impl ChannelManager {
    pub fn new(config: Config) -> (r: Self)
        ensures
            r.config == config,
    {
        ChannelManager { config }
    }

    /// The account that a message is sent by.
    pub fn pick_account<'a, T>(
        channel: &str,
        accounts: &'a Vec<(String, T)>,
        requested: Option<&str>,
        default: Option<&str>,
    ) -> (r: Result<Option<&'a T>, Error>)
        ensures
            match picked(channel@, accounts@, opt_str(requested), opt_str(default)) {
                Ok(Some(account)) => r is Ok && r->Ok_0 is Some && *r->Ok_0->0 == account,
                Ok(None) => r is Ok && r->Ok_0 is None,
                Err(text) => r is Err && r->Err_0@ == ErrorView::Channel(text),
            },
    {
        if accounts.len() == 0 {
            return Ok(None);
        }
        if let Some(id) = requested {
            return match find_account(accounts, id) {
                Some(account) => Ok(Some(account)),
                None => Err(complain("Unknown account_id '", id, "' for channel '", channel)),
            };
        }
        if let Some(id) = default {
            if trim_chars(chars_of(id).as_slice()).len() > 0 {
                return match find_account(accounts, id) {
                    Some(account) => Ok(Some(account)),
                    None => Err(
                        complain("default_account_id '", id, "' not found for channel '", channel),
                    ),
                };
            }
        }
        Ok(find_account(accounts, "default"))
    }

    /// The settings by which a message is sent.
    pub fn config_for_outbound(&self, msg: &OutboundMessage) -> (r: Result<Config, Error>)
        ensures
            settings_outcome(r, outbound_settings(self.config, msg@)),
    {
        let requested: Option<&str> = match &msg.account_id {
            Some(id) => Some(id.as_str()),
            None => None,
        };
        assert(opt_str(requested) == msg@.account_id);
        let channel = msg.channel.as_str();
        let c = &self.config.channels;
        if same_text(channel, "telegram") {
            settings_for(&self.config, &c.telegram, requested)
        } else if same_text(channel, "whatsapp") {
            settings_for(&self.config, &c.whatsapp, requested)
        } else if same_text(channel, "feishu") {
            settings_for(&self.config, &c.feishu, requested)
        } else if same_text(channel, "slack") {
            settings_for(&self.config, &c.slack, requested)
        } else if same_text(channel, "discord") {
            settings_for(&self.config, &c.discord, requested)
        } else if same_text(channel, "dingtalk") {
            settings_for(&self.config, &c.dingtalk, requested)
        } else if same_text(channel, "wecom") {
            settings_for(&self.config, &c.wecom, requested)
        } else if same_text(channel, "lark") {
            settings_for(&self.config, &c.lark, requested)
        } else {
            Ok(self.config.clone())
        }
    }

    /// The settings by which a message is sent, and the steps in which it is.
    pub fn dispatch_outbound_msg(&self, msg: &OutboundMessage) -> (r: Result<
        (Config, Vec<SendStep>),
        Error,
    >)
        ensures
            match outbound_settings(self.config, msg@) {
                Err(text) => r is Err && r->Err_0@ == ErrorView::Channel(text),
                Ok(config) => {
                    &&& r is Ok
                    &&& r->Ok_0.0@ == config
                    &&& steps_view(r->Ok_0.1@) == send_steps(
                        msg@,
                        msg@.account_id is None && self.config@.whatsapp.accounts.len() == 0,
                    )
                },
            },
    {
        match self.config_for_outbound(msg) {
            Err(e) => Err(e),
            Ok(config) => {
                let held = msg.account_id.is_none() && self.config.channels.whatsapp.accounts.len()
                    == 0;
                Ok((config, steps_for(msg, held)))
            },
        }
    }

    pub fn missing_config_detail(channel: &str) -> (r: &'static str)
        ensures
            r@ == missing_detail(channel@),
    {
        if same_text(channel, "telegram") {
            "token not set"
        } else if same_text(channel, "whatsapp") {
            "bridge_url not set"
        } else if same_text(channel, "feishu") {
            "app_id not set"
        } else if same_text(channel, "slack") {
            "bot_token not set"
        } else if same_text(channel, "discord") {
            "bot_token not set"
        } else if same_text(channel, "dingtalk") {
            "app_key not set"
        } else if same_text(channel, "wecom") {
            "corp_id not set"
        } else if same_text(channel, "lark") {
            "app_id not set"
        } else {
            "not configured"
        }
    }

    pub fn channel_status(&self, channel: &str) -> (r: (bool, String))
        ensures
            (r.0, r.1@) == status(self.config@, channel@),
    {
        if !is_external_channel_enabled(&self.config, channel) {
            return (false, "disabled".to_owned());
        }
        let labels = listener_labels(&self.config, channel);
        if labels.len() > 0 {
            let mut text = decimal_text(labels.len() as u64);
            text.push_str(" ");
            text.push_str(
                if labels.len() == 1 {
                    "listener"
                } else {
                    "listeners"
                },
            );
            text.push_str(" active: ");
            text.push_str(join_texts(&labels, ", ").as_str());
            return (true, text);
        }
        if channel_configured(&self.config, channel) {
            return (false, "enabled but no routable listener".to_owned());
        }
        (false, Self::missing_config_detail(channel).to_owned())
    }

    fn add_status(&self, list: &mut Vec<(String, bool, String)>, channel: &str)
        ensures
            statuses_view(final(list)@) == statuses_view(old(list)@).push(
                (
                    channel@,
                    status(self.config@, channel@).0,
                    status(self.config@, channel@).1,
                ),
            ),
    {
        let ghost before = statuses_view(list@);
        let (active, detail) = self.channel_status(channel);
        list.push((channel.to_owned(), active, detail));
        assert(statuses_view(list@) =~= before.push((channel@, active, detail@)));
    }

    pub fn get_status(&self) -> (r: Vec<(String, bool, String)>)
        ensures
            statuses_view(r@) == all_statuses(self.config@),
    {
        let mut r: Vec<(String, bool, String)> = Vec::new();
        assert(statuses_view(r@) =~= Seq::empty());
        self.add_status(&mut r, "telegram");
        self.add_status(&mut r, "whatsapp");
        self.add_status(&mut r, "feishu");
        self.add_status(&mut r, "slack");
        self.add_status(&mut r, "discord");
        self.add_status(&mut r, "dingtalk");
        self.add_status(&mut r, "wecom");
        self.add_status(&mut r, "lark");
        assert(statuses_view(r@) =~= all_statuses(self.config@));
        r
    }
}

/// A message is sent by an account that is enabled, or by the settings of the channel itself
/// where no account was picked.
pub proof fn law_sent_by_enabled_account<A: Account>(
    channel: ChannelConfig<A>,
    requested: Option<Seq<char>>,
)
    ensures
        match sending_channel(channel, requested) {
            Ok(scoped) => scoped.active == channel.active@ || A::on(scoped.active),
            Err(_) => true,
        },
        requested is Some && channel.accounts@.len() > 0 && sending_channel(
            channel,
            requested,
        ) is Ok ==> account_with(channel.accounts@, requested->0) is Some && sending_channel(
            channel,
            requested,
        )->Ok_0.active == account_with(channel.accounts@, requested->0)->0@,
{
}

} // verus!
