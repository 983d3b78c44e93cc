//! The settings of the channels and of the accounts on them.

use crate::messages::copy_texts;
use crate::text::{copy_opt, opt_text, same_text, texts_view};
use vstd::prelude::*;

verus! {

// ---------------------------------------------------------------------------
// Channels
// ---------------------------------------------------------------------------

/// The settings of a channel: the account in use, all accounts by their ids, and the id of the
/// account that is used where none is asked for.
pub struct ChannelConfig<A> {
    pub active: A,
    pub accounts: Vec<(String, A)>,
    pub default_account_id: Option<String>,
}

pub struct ChannelView<V> {
    pub active: V,
    pub accounts: Seq<(Seq<char>, V)>,
    pub default_account_id: Option<Seq<char>>,
}

/// An account on a channel.
pub trait Account: View + Sized {
    /// The name of the channel.
    spec fn name() -> Seq<char>;

    /// The account is switched on.
    spec fn on(v: Self::V) -> bool;

    /// The account has what identifies it.
    spec fn keyed(v: Self::V) -> bool;

    /// The account has what it takes to listen.
    spec fn usable(v: Self::V) -> bool;

    /// The account is the one that is in use.
    spec fn matches(v: Self::V, active: Self::V) -> bool;

    spec fn channel_in(config: ConfigView) -> ChannelView<Self::V>;

    spec fn with_channel(config: ConfigView, channel: ChannelView<Self::V>) -> ConfigView;

    fn channel_name() -> (r: &'static str)
        ensures
            r@ == Self::name(),
    ;

    fn is_on(&self) -> (r: bool)
        ensures
            r == Self::on(self@),
    ;

    fn is_keyed(&self) -> (r: bool)
        ensures
            r == Self::keyed(self@),
    ;

    fn is_usable(&self) -> (r: bool)
        ensures
            r == Self::usable(self@),
    ;

    fn is_match(&self, active: &Self) -> (r: bool)
        ensures
            r == Self::matches(self@, active@),
    ;

    fn copy(&self) -> (r: Self)
        ensures
            r@ == self@,
    ;

    fn channel<'a>(config: &'a Config) -> (r: &'a ChannelConfig<Self>)
        ensures
            channel_view(*r) == Self::channel_in(config@),
    ;

    fn put(config: Config, channel: ChannelConfig<Self>) -> (r: Config)
        ensures
            r@ == Self::with_channel(config@, channel_view(channel)),
    ;
}

pub open spec fn accounts_view<A: View>(accounts: Seq<(String, A)>) -> Seq<(Seq<char>, A::V)> {
    accounts.map_values(|a: (String, A)| (a.0@, a.1@))
}

pub open spec fn channel_view<A: View>(channel: ChannelConfig<A>) -> ChannelView<A::V> {
    ChannelView {
        active: channel.active@,
        accounts: accounts_view(channel.accounts@),
        default_account_id: opt_text(channel.default_account_id),
    }
}

pub fn copy_accounts<A: Account>(accounts: &Vec<(String, A)>) -> (r: Vec<(String, A)>)
    ensures
        accounts_view(r@) == accounts_view(accounts@),
{
    let mut r: Vec<(String, A)> = Vec::new();
    let mut i: usize = 0;
    while i < accounts.len()
        invariant
            i <= accounts.len(),
            accounts_view(r@) == accounts_view(accounts@).take(i as int),
        decreases accounts.len() - i,
    {
        let ghost so_far = accounts_view(r@);
        let id = accounts[i].0.clone();
        let account = accounts[i].1.copy();
        r.push((id, account));
        assert(accounts_view(r@) =~= so_far.push((id@, account@)));
        assert(accounts_view(r@) =~= accounts_view(accounts@).take(i + 1));
        i += 1;
    }
    assert(accounts_view(r@) =~= accounts_view(accounts@));
    r
}

pub fn copy_channel<A: Account>(channel: &ChannelConfig<A>) -> (r: ChannelConfig<A>)
    ensures
        channel_view(r) == channel_view(*channel),
{
    ChannelConfig {
        active: channel.active.copy(),
        accounts: copy_accounts(&channel.accounts),
        default_account_id: copy_opt(&channel.default_account_id),
    }
}

fn new_channel<A: Account>(active: A) -> (r: ChannelConfig<A>)
    ensures
        channel_view(r) == (ChannelView {
            active: active@,
            accounts: Seq::empty(),
            default_account_id: None,
        }),
{
    let r = ChannelConfig { active, accounts: Vec::new(), default_account_id: None };
    assert(accounts_view(r.accounts@) =~= Seq::empty());
    r
}

/// The settings of all channels.
pub struct Channels {
    pub telegram: ChannelConfig<TelegramAccountConfig>,
    pub whatsapp: ChannelConfig<WhatsAppAccountConfig>,
    pub feishu: ChannelConfig<FeishuAccountConfig>,
    pub slack: ChannelConfig<SlackAccountConfig>,
    pub discord: ChannelConfig<DiscordAccountConfig>,
    pub dingtalk: ChannelConfig<DingTalkAccountConfig>,
    pub wecom: ChannelConfig<WeComAccountConfig>,
    pub lark: ChannelConfig<LarkAccountConfig>,
}

pub struct Config {
    pub channels: Channels,
}

pub struct ConfigView {
    pub telegram: ChannelView<TelegramAccountView>,
    pub whatsapp: ChannelView<WhatsAppAccountView>,
    pub feishu: ChannelView<FeishuAccountView>,
    pub slack: ChannelView<SlackAccountView>,
    pub discord: ChannelView<DiscordAccountView>,
    pub dingtalk: ChannelView<DingTalkAccountView>,
    pub wecom: ChannelView<WeComAccountView>,
    pub lark: ChannelView<LarkAccountView>,
}

impl View for Config {
    type V = ConfigView;

    open spec fn view(&self) -> ConfigView {
        ConfigView {
            telegram: channel_view(self.channels.telegram),
            whatsapp: channel_view(self.channels.whatsapp),
            feishu: channel_view(self.channels.feishu),
            slack: channel_view(self.channels.slack),
            discord: channel_view(self.channels.discord),
            dingtalk: channel_view(self.channels.dingtalk),
            wecom: channel_view(self.channels.wecom),
            lark: channel_view(self.channels.lark),
        }
    }
}

impl Clone for Config {
    fn clone(&self) -> (r: Self)
        ensures
            r@ == self@,
    {
        Config {
            channels: Channels {
                telegram: copy_channel(&self.channels.telegram),
                whatsapp: copy_channel(&self.channels.whatsapp),
                feishu: copy_channel(&self.channels.feishu),
                slack: copy_channel(&self.channels.slack),
                discord: copy_channel(&self.channels.discord),
                dingtalk: copy_channel(&self.channels.dingtalk),
                wecom: copy_channel(&self.channels.wecom),
                lark: copy_channel(&self.channels.lark),
            },
        }
    }
}

/// A channel that is switched off and has no accounts.
pub open spec fn fresh<V>(active: V) -> ChannelView<V> {
    ChannelView { active, accounts: Seq::empty(), default_account_id: None }
}

impl Default for Config {
    /// All channels switched off.
    fn default() -> (r: Self)
        ensures
            r@ == (ConfigView {
                telegram: fresh(TelegramAccountView::empty()),
                whatsapp: fresh(WhatsAppAccountView::empty()),
                feishu: fresh(FeishuAccountView::empty()),
                slack: fresh(SlackAccountView::empty()),
                discord: fresh(DiscordAccountView::empty()),
                dingtalk: fresh(DingTalkAccountView::empty()),
                wecom: fresh(WeComAccountView::empty()),
                lark: fresh(LarkAccountView::empty()),
            }),
    {
        Config {
            channels: Channels {
                telegram: new_channel(TelegramAccountConfig::default()),
                whatsapp: new_channel(WhatsAppAccountConfig::default()),
                feishu: new_channel(FeishuAccountConfig::default()),
                slack: new_channel(SlackAccountConfig::default()),
                discord: new_channel(DiscordAccountConfig::default()),
                dingtalk: new_channel(DingTalkAccountConfig::default()),
                wecom: new_channel(WeComAccountConfig::default()),
                lark: new_channel(LarkAccountConfig::default()),
            },
        }
    }
}

// ---------------------------------------------------------------------------
// Telegram
// ---------------------------------------------------------------------------

pub struct TelegramAccountConfig {
    pub enabled: bool,
    pub token: String,
    pub allow_from: Vec<String>,
    pub proxy: Option<String>,
}

pub struct TelegramAccountView {
    pub enabled: bool,
    pub token: Seq<char>,
    pub allow_from: Seq<Seq<char>>,
    pub proxy: Option<Seq<char>>,
}

impl TelegramAccountView {
    pub open spec fn empty() -> Self {
        TelegramAccountView {
            enabled: false,
            token: Seq::empty(),
            allow_from: Seq::empty(),
            proxy: None,
        }
    }
}

impl View for TelegramAccountConfig {
    type V = TelegramAccountView;

    open spec fn view(&self) -> TelegramAccountView {
        TelegramAccountView {
            enabled: self.enabled,
            token: self.token@,
            allow_from: texts_view(self.allow_from@),
            proxy: opt_text(self.proxy),
        }
    }
}

impl Default for TelegramAccountConfig {
    fn default() -> (r: Self)
        ensures
            r@ == TelegramAccountView::empty(),
    {
        let r = TelegramAccountConfig {
            enabled: false,
            token: String::new(),
            allow_from: Vec::new(),
            proxy: None,
        };
        assert(r@.allow_from =~= Seq::empty());
        r
    }
}

impl Account for TelegramAccountConfig {
    open spec fn name() -> Seq<char> {
        "telegram"@
    }

    open spec fn on(v: TelegramAccountView) -> bool {
        v.enabled
    }

    open spec fn keyed(v: TelegramAccountView) -> bool {
        v.token.len() > 0
    }

    open spec fn usable(v: TelegramAccountView) -> bool {
        v.token.len() > 0
    }

    open spec fn matches(v: TelegramAccountView, active: TelegramAccountView) -> bool {
        active.token.len() > 0 && v.token == active.token
    }

    open spec fn channel_in(config: ConfigView) -> ChannelView<TelegramAccountView> {
        config.telegram
    }

    open spec fn with_channel(
        config: ConfigView,
        channel: ChannelView<TelegramAccountView>,
    ) -> ConfigView {
        ConfigView { telegram: channel, ..config }
    }

    fn channel_name() -> (r: &'static str) {
        "telegram"
    }

    fn is_on(&self) -> (r: bool) {
        self.enabled
    }

    fn is_keyed(&self) -> (r: bool) {
        !self.token.as_str().is_empty()
    }

    fn is_usable(&self) -> (r: bool) {
        !self.token.as_str().is_empty()
    }

    fn is_match(&self, active: &Self) -> (r: bool) {
        !active.token.as_str().is_empty() && same_text(
            self.token.as_str(),
            active.token.as_str(),
        )
    }

    fn copy(&self) -> (r: Self) {
        TelegramAccountConfig {
            enabled: self.enabled,
            token: self.token.clone(),
            allow_from: copy_texts(&self.allow_from),
            proxy: copy_opt(&self.proxy),
        }
    }

    fn channel<'a>(config: &'a Config) -> (r: &'a ChannelConfig<Self>) {
        &config.channels.telegram
    }

    fn put(config: Config, channel: ChannelConfig<Self>) -> (r: Config) {
        let mut config = config;
        config.channels.telegram = channel;
        config
    }
}

// ---------------------------------------------------------------------------
// WhatsApp
// ---------------------------------------------------------------------------

pub struct WhatsAppAccountConfig {
    pub enabled: bool,
    pub bridge_url: String,
    pub allow_from: Vec<String>,
}

pub struct WhatsAppAccountView {
    pub enabled: bool,
    pub bridge_url: Seq<char>,
    pub allow_from: Seq<Seq<char>>,
}

impl WhatsAppAccountView {
    pub open spec fn empty() -> Self {
        WhatsAppAccountView {
            enabled: false,
            bridge_url: Seq::empty(),
            allow_from: Seq::empty(),
        }
    }
}

impl View for WhatsAppAccountConfig {
    type V = WhatsAppAccountView;

    open spec fn view(&self) -> WhatsAppAccountView {
        WhatsAppAccountView {
            enabled: self.enabled,
            bridge_url: self.bridge_url@,
            allow_from: texts_view(self.allow_from@),
        }
    }
}

impl Default for WhatsAppAccountConfig {
    fn default() -> (r: Self)
        ensures
            r@ == WhatsAppAccountView::empty(),
    {
        let r = WhatsAppAccountConfig {
            enabled: false,
            bridge_url: String::new(),
            allow_from: Vec::new(),
        };
        assert(r@.allow_from =~= Seq::empty());
        r
    }
}

impl Account for WhatsAppAccountConfig {
    open spec fn name() -> Seq<char> {
        "whatsapp"@
    }

    open spec fn on(v: WhatsAppAccountView) -> bool {
        v.enabled
    }

    open spec fn keyed(v: WhatsAppAccountView) -> bool {
        v.bridge_url.len() > 0
    }

    open spec fn usable(v: WhatsAppAccountView) -> bool {
        v.bridge_url.len() > 0
    }

    open spec fn matches(v: WhatsAppAccountView, active: WhatsAppAccountView) -> bool {
        active.bridge_url.len() > 0 && v.bridge_url == active.bridge_url
    }

    open spec fn channel_in(config: ConfigView) -> ChannelView<WhatsAppAccountView> {
        config.whatsapp
    }

    open spec fn with_channel(
        config: ConfigView,
        channel: ChannelView<WhatsAppAccountView>,
    ) -> ConfigView {
        ConfigView { whatsapp: channel, ..config }
    }

    fn channel_name() -> (r: &'static str) {
        "whatsapp"
    }

    fn is_on(&self) -> (r: bool) {
        self.enabled
    }

    fn is_keyed(&self) -> (r: bool) {
        !self.bridge_url.as_str().is_empty()
    }

    fn is_usable(&self) -> (r: bool) {
        !self.bridge_url.as_str().is_empty()
    }

    fn is_match(&self, active: &Self) -> (r: bool) {
        !active.bridge_url.as_str().is_empty() && same_text(
            self.bridge_url.as_str(),
            active.bridge_url.as_str(),
        )
    }

    fn copy(&self) -> (r: Self) {
        WhatsAppAccountConfig {
            enabled: self.enabled,
            bridge_url: self.bridge_url.clone(),
            allow_from: copy_texts(&self.allow_from),
        }
    }

    fn channel<'a>(config: &'a Config) -> (r: &'a ChannelConfig<Self>) {
        &config.channels.whatsapp
    }

    fn put(config: Config, channel: ChannelConfig<Self>) -> (r: Config) {
        let mut config = config;
        config.channels.whatsapp = channel;
        config
    }
}

// ---------------------------------------------------------------------------
// Feishu
// ---------------------------------------------------------------------------

pub struct FeishuAccountConfig {
    pub enabled: bool,
    pub app_id: String,
    pub app_secret: String,
    pub encrypt_key: String,
    pub verification_token: String,
    pub allow_from: Vec<String>,
}

pub struct FeishuAccountView {
    pub enabled: bool,
    pub app_id: Seq<char>,
    pub app_secret: Seq<char>,
    pub encrypt_key: Seq<char>,
    pub verification_token: Seq<char>,
    pub allow_from: Seq<Seq<char>>,
}

impl FeishuAccountView {
    pub open spec fn empty() -> Self {
        FeishuAccountView {
            enabled: false,
            app_id: Seq::empty(),
            app_secret: Seq::empty(),
            encrypt_key: Seq::empty(),
            verification_token: Seq::empty(),
            allow_from: Seq::empty(),
        }
    }
}

impl View for FeishuAccountConfig {
    type V = FeishuAccountView;

    open spec fn view(&self) -> FeishuAccountView {
        FeishuAccountView {
            enabled: self.enabled,
            app_id: self.app_id@,
            app_secret: self.app_secret@,
            encrypt_key: self.encrypt_key@,
            verification_token: self.verification_token@,
            allow_from: texts_view(self.allow_from@),
        }
    }
}

impl Default for FeishuAccountConfig {
    fn default() -> (r: Self)
        ensures
            r@ == FeishuAccountView::empty(),
    {
        let r = FeishuAccountConfig {
            enabled: false,
            app_id: String::new(),
            app_secret: String::new(),
            encrypt_key: String::new(),
            verification_token: String::new(),
            allow_from: Vec::new(),
        };
        assert(r@.allow_from =~= Seq::empty());
        r
    }
}

impl Account for FeishuAccountConfig {
    open spec fn name() -> Seq<char> {
        "feishu"@
    }

    open spec fn on(v: FeishuAccountView) -> bool {
        v.enabled
    }

    open spec fn keyed(v: FeishuAccountView) -> bool {
        v.app_id.len() > 0
    }

    open spec fn usable(v: FeishuAccountView) -> bool {
        v.app_id.len() > 0
    }

    open spec fn matches(v: FeishuAccountView, active: FeishuAccountView) -> bool {
        active.app_id.len() > 0 && v.app_id == active.app_id
    }

    open spec fn channel_in(config: ConfigView) -> ChannelView<FeishuAccountView> {
        config.feishu
    }

    open spec fn with_channel(
        config: ConfigView,
        channel: ChannelView<FeishuAccountView>,
    ) -> ConfigView {
        ConfigView { feishu: channel, ..config }
    }

    fn channel_name() -> (r: &'static str) {
        "feishu"
    }

    fn is_on(&self) -> (r: bool) {
        self.enabled
    }

    fn is_keyed(&self) -> (r: bool) {
        !self.app_id.as_str().is_empty()
    }

    fn is_usable(&self) -> (r: bool) {
        !self.app_id.as_str().is_empty()
    }

    fn is_match(&self, active: &Self) -> (r: bool) {
        !active.app_id.as_str().is_empty() && same_text(
            self.app_id.as_str(),
            active.app_id.as_str(),
        )
    }

    fn copy(&self) -> (r: Self) {
        FeishuAccountConfig {
            enabled: self.enabled,
            app_id: self.app_id.clone(),
            app_secret: self.app_secret.clone(),
            encrypt_key: self.encrypt_key.clone(),
            verification_token: self.verification_token.clone(),
            allow_from: copy_texts(&self.allow_from),
        }
    }

    fn channel<'a>(config: &'a Config) -> (r: &'a ChannelConfig<Self>) {
        &config.channels.feishu
    }

    fn put(config: Config, channel: ChannelConfig<Self>) -> (r: Config) {
        let mut config = config;
        config.channels.feishu = channel;
        config
    }
}

// ---------------------------------------------------------------------------
// Slack
// ---------------------------------------------------------------------------

pub struct SlackAccountConfig {
    pub enabled: bool,
    pub bot_token: String,
    pub app_token: String,
    pub channels: Vec<String>,
    pub allow_from: Vec<String>,
    pub poll_interval_secs: u64,
}

pub struct SlackAccountView {
    pub enabled: bool,
    pub bot_token: Seq<char>,
    pub app_token: Seq<char>,
    pub channels: Seq<Seq<char>>,
    pub allow_from: Seq<Seq<char>>,
    pub poll_interval_secs: int,
}

impl SlackAccountView {
    pub open spec fn empty() -> Self {
        SlackAccountView {
            enabled: false,
            bot_token: Seq::empty(),
            app_token: Seq::empty(),
            channels: Seq::empty(),
            allow_from: Seq::empty(),
            poll_interval_secs: 0,
        }
    }
}

impl View for SlackAccountConfig {
    type V = SlackAccountView;

    open spec fn view(&self) -> SlackAccountView {
        SlackAccountView {
            enabled: self.enabled,
            bot_token: self.bot_token@,
            app_token: self.app_token@,
            channels: texts_view(self.channels@),
            allow_from: texts_view(self.allow_from@),
            poll_interval_secs: self.poll_interval_secs as int,
        }
    }
}

impl Default for SlackAccountConfig {
    fn default() -> (r: Self)
        ensures
            r@ == SlackAccountView::empty(),
    {
        let r = SlackAccountConfig {
            enabled: false,
            bot_token: String::new(),
            app_token: String::new(),
            channels: Vec::new(),
            allow_from: Vec::new(),
            poll_interval_secs: 0,
        };
        assert(r@.channels =~= Seq::empty());
        assert(r@.allow_from =~= Seq::empty());
        r
    }
}

impl Account for SlackAccountConfig {
    open spec fn name() -> Seq<char> {
        "slack"@
    }

    open spec fn on(v: SlackAccountView) -> bool {
        v.enabled
    }

    open spec fn keyed(v: SlackAccountView) -> bool {
        v.bot_token.len() > 0
    }

    open spec fn usable(v: SlackAccountView) -> bool {
        v.bot_token.len() > 0
    }

    open spec fn matches(v: SlackAccountView, active: SlackAccountView) -> bool {
        (active.bot_token.len() > 0 && v.bot_token == active.bot_token) || (active.app_token.len()
            > 0 && v.app_token == active.app_token)
    }

    open spec fn channel_in(config: ConfigView) -> ChannelView<SlackAccountView> {
        config.slack
    }

    open spec fn with_channel(
        config: ConfigView,
        channel: ChannelView<SlackAccountView>,
    ) -> ConfigView {
        ConfigView { slack: channel, ..config }
    }

    fn channel_name() -> (r: &'static str) {
        "slack"
    }

    fn is_on(&self) -> (r: bool) {
        self.enabled
    }

    fn is_keyed(&self) -> (r: bool) {
        !self.bot_token.as_str().is_empty()
    }

    fn is_usable(&self) -> (r: bool) {
        !self.bot_token.as_str().is_empty()
    }

    fn is_match(&self, active: &Self) -> (r: bool) {
        (!active.bot_token.as_str().is_empty() && same_text(
            self.bot_token.as_str(),
            active.bot_token.as_str(),
        )) || (!active.app_token.as_str().is_empty() && same_text(
            self.app_token.as_str(),
            active.app_token.as_str(),
        ))
    }

    fn copy(&self) -> (r: Self) {
        SlackAccountConfig {
            enabled: self.enabled,
            bot_token: self.bot_token.clone(),
            app_token: self.app_token.clone(),
            channels: copy_texts(&self.channels),
            allow_from: copy_texts(&self.allow_from),
            poll_interval_secs: self.poll_interval_secs,
        }
    }

    fn channel<'a>(config: &'a Config) -> (r: &'a ChannelConfig<Self>) {
        &config.channels.slack
    }

    fn put(config: Config, channel: ChannelConfig<Self>) -> (r: Config) {
        let mut config = config;
        config.channels.slack = channel;
        config
    }
}

// ---------------------------------------------------------------------------
// Discord
// ---------------------------------------------------------------------------

pub struct DiscordAccountConfig {
    pub enabled: bool,
    pub bot_token: String,
    pub channels: Vec<String>,
    pub allow_from: Vec<String>,
}

pub struct DiscordAccountView {
    pub enabled: bool,
    pub bot_token: Seq<char>,
    pub channels: Seq<Seq<char>>,
    pub allow_from: Seq<Seq<char>>,
}

impl DiscordAccountView {
    pub open spec fn empty() -> Self {
        DiscordAccountView {
            enabled: false,
            bot_token: Seq::empty(),
            channels: Seq::empty(),
            allow_from: Seq::empty(),
        }
    }
}

impl View for DiscordAccountConfig {
    type V = DiscordAccountView;

    open spec fn view(&self) -> DiscordAccountView {
        DiscordAccountView {
            enabled: self.enabled,
            bot_token: self.bot_token@,
            channels: texts_view(self.channels@),
            allow_from: texts_view(self.allow_from@),
        }
    }
}

impl Default for DiscordAccountConfig {
    fn default() -> (r: Self)
        ensures
            r@ == DiscordAccountView::empty(),
    {
        let r = DiscordAccountConfig {
            enabled: false,
            bot_token: String::new(),
            channels: Vec::new(),
            allow_from: Vec::new(),
        };
        assert(r@.channels =~= Seq::empty());
        assert(r@.allow_from =~= Seq::empty());
        r
    }
}

impl Account for DiscordAccountConfig {
    open spec fn name() -> Seq<char> {
        "discord"@
    }

    open spec fn on(v: DiscordAccountView) -> bool {
        v.enabled
    }

    open spec fn keyed(v: DiscordAccountView) -> bool {
        v.bot_token.len() > 0
    }

    open spec fn usable(v: DiscordAccountView) -> bool {
        v.bot_token.len() > 0
    }

    open spec fn matches(v: DiscordAccountView, active: DiscordAccountView) -> bool {
        active.bot_token.len() > 0 && v.bot_token == active.bot_token
    }

    open spec fn channel_in(config: ConfigView) -> ChannelView<DiscordAccountView> {
        config.discord
    }

    open spec fn with_channel(
        config: ConfigView,
        channel: ChannelView<DiscordAccountView>,
    ) -> ConfigView {
        ConfigView { discord: channel, ..config }
    }

    fn channel_name() -> (r: &'static str) {
        "discord"
    }

    fn is_on(&self) -> (r: bool) {
        self.enabled
    }

    fn is_keyed(&self) -> (r: bool) {
        !self.bot_token.as_str().is_empty()
    }

    fn is_usable(&self) -> (r: bool) {
        !self.bot_token.as_str().is_empty()
    }

    fn is_match(&self, active: &Self) -> (r: bool) {
        !active.bot_token.as_str().is_empty() && same_text(
            self.bot_token.as_str(),
            active.bot_token.as_str(),
        )
    }

    fn copy(&self) -> (r: Self) {
        DiscordAccountConfig {
            enabled: self.enabled,
            bot_token: self.bot_token.clone(),
            channels: copy_texts(&self.channels),
            allow_from: copy_texts(&self.allow_from),
        }
    }

    fn channel<'a>(config: &'a Config) -> (r: &'a ChannelConfig<Self>) {
        &config.channels.discord
    }

    fn put(config: Config, channel: ChannelConfig<Self>) -> (r: Config) {
        let mut config = config;
        config.channels.discord = channel;
        config
    }
}

// ---------------------------------------------------------------------------
// DingTalk
// ---------------------------------------------------------------------------

pub struct DingTalkAccountConfig {
    pub enabled: bool,
    pub app_key: String,
    pub app_secret: String,
    pub robot_code: String,
    pub allow_from: Vec<String>,
}

pub struct DingTalkAccountView {
    pub enabled: bool,
    pub app_key: Seq<char>,
    pub app_secret: Seq<char>,
    pub robot_code: Seq<char>,
    pub allow_from: Seq<Seq<char>>,
}

impl DingTalkAccountView {
    pub open spec fn empty() -> Self {
        DingTalkAccountView {
            enabled: false,
            app_key: Seq::empty(),
            app_secret: Seq::empty(),
            robot_code: Seq::empty(),
            allow_from: Seq::empty(),
        }
    }
}

impl View for DingTalkAccountConfig {
    type V = DingTalkAccountView;

    open spec fn view(&self) -> DingTalkAccountView {
        DingTalkAccountView {
            enabled: self.enabled,
            app_key: self.app_key@,
            app_secret: self.app_secret@,
            robot_code: self.robot_code@,
            allow_from: texts_view(self.allow_from@),
        }
    }
}

impl Default for DingTalkAccountConfig {
    fn default() -> (r: Self)
        ensures
            r@ == DingTalkAccountView::empty(),
    {
        let r = DingTalkAccountConfig {
            enabled: false,
            app_key: String::new(),
            app_secret: String::new(),
            robot_code: String::new(),
            allow_from: Vec::new(),
        };
        assert(r@.allow_from =~= Seq::empty());
        r
    }
}

impl Account for DingTalkAccountConfig {
    open spec fn name() -> Seq<char> {
        "dingtalk"@
    }

    open spec fn on(v: DingTalkAccountView) -> bool {
        v.enabled
    }

    open spec fn keyed(v: DingTalkAccountView) -> bool {
        v.app_key.len() > 0
    }

    open spec fn usable(v: DingTalkAccountView) -> bool {
        v.app_key.len() > 0
    }

    open spec fn matches(v: DingTalkAccountView, active: DingTalkAccountView) -> bool {
        active.app_key.len() > 0 && v.app_key == active.app_key
    }

    open spec fn channel_in(config: ConfigView) -> ChannelView<DingTalkAccountView> {
        config.dingtalk
    }

    open spec fn with_channel(
        config: ConfigView,
        channel: ChannelView<DingTalkAccountView>,
    ) -> ConfigView {
        ConfigView { dingtalk: channel, ..config }
    }

    fn channel_name() -> (r: &'static str) {
        "dingtalk"
    }

    fn is_on(&self) -> (r: bool) {
        self.enabled
    }

    fn is_keyed(&self) -> (r: bool) {
        !self.app_key.as_str().is_empty()
    }

    fn is_usable(&self) -> (r: bool) {
        !self.app_key.as_str().is_empty()
    }

    fn is_match(&self, active: &Self) -> (r: bool) {
        !active.app_key.as_str().is_empty() && same_text(
            self.app_key.as_str(),
            active.app_key.as_str(),
        )
    }

    fn copy(&self) -> (r: Self) {
        DingTalkAccountConfig {
            enabled: self.enabled,
            app_key: self.app_key.clone(),
            app_secret: self.app_secret.clone(),
            robot_code: self.robot_code.clone(),
            allow_from: copy_texts(&self.allow_from),
        }
    }

    fn channel<'a>(config: &'a Config) -> (r: &'a ChannelConfig<Self>) {
        &config.channels.dingtalk
    }

    fn put(config: Config, channel: ChannelConfig<Self>) -> (r: Config) {
        let mut config = config;
        config.channels.dingtalk = channel;
        config
    }
}

// ---------------------------------------------------------------------------
// WeCom
// ---------------------------------------------------------------------------

pub struct WeComAccountConfig {
    pub enabled: bool,
    pub mode: String,
    pub corp_id: String,
    pub corp_secret: String,
    pub agent_id: i64,
    pub bot_id: String,
    pub bot_secret: String,
    pub callback_token: String,
    pub encoding_aes_key: String,
    pub allow_from: Vec<String>,
    pub poll_interval_secs: u64,
    pub ws_url: String,
    pub ping_interval_secs: u64,
}

pub struct WeComAccountView {
    pub enabled: bool,
    pub mode: Seq<char>,
    pub corp_id: Seq<char>,
    pub corp_secret: Seq<char>,
    pub agent_id: int,
    pub bot_id: Seq<char>,
    pub bot_secret: Seq<char>,
    pub callback_token: Seq<char>,
    pub encoding_aes_key: Seq<char>,
    pub allow_from: Seq<Seq<char>>,
    pub poll_interval_secs: int,
    pub ws_url: Seq<char>,
    pub ping_interval_secs: int,
}

impl WeComAccountView {
    pub open spec fn empty() -> Self {
        WeComAccountView {
            enabled: false,
            mode: Seq::empty(),
            corp_id: Seq::empty(),
            corp_secret: Seq::empty(),
            agent_id: 0,
            bot_id: Seq::empty(),
            bot_secret: Seq::empty(),
            callback_token: Seq::empty(),
            encoding_aes_key: Seq::empty(),
            allow_from: Seq::empty(),
            poll_interval_secs: 0,
            ws_url: Seq::empty(),
            ping_interval_secs: 0,
        }
    }
}

impl View for WeComAccountConfig {
    type V = WeComAccountView;

    open spec fn view(&self) -> WeComAccountView {
        WeComAccountView {
            enabled: self.enabled,
            mode: self.mode@,
            corp_id: self.corp_id@,
            corp_secret: self.corp_secret@,
            agent_id: self.agent_id as int,
            bot_id: self.bot_id@,
            bot_secret: self.bot_secret@,
            callback_token: self.callback_token@,
            encoding_aes_key: self.encoding_aes_key@,
            allow_from: texts_view(self.allow_from@),
            poll_interval_secs: self.poll_interval_secs as int,
            ws_url: self.ws_url@,
            ping_interval_secs: self.ping_interval_secs as int,
        }
    }
}

impl Default for WeComAccountConfig {
    fn default() -> (r: Self)
        ensures
            r@ == WeComAccountView::empty(),
    {
        let r = WeComAccountConfig {
            enabled: false,
            mode: String::new(),
            corp_id: String::new(),
            corp_secret: String::new(),
            agent_id: 0,
            bot_id: String::new(),
            bot_secret: String::new(),
            callback_token: String::new(),
            encoding_aes_key: String::new(),
            allow_from: Vec::new(),
            poll_interval_secs: 0,
            ws_url: String::new(),
            ping_interval_secs: 0,
        };
        assert(r@.allow_from =~= Seq::empty());
        r
    }
}

/// The names of the mode in which the program holds a connection open.
pub open spec fn long_mode(mode: Seq<char>) -> bool {
    mode == "long_connection"@ || mode == "long-connection"@ || mode == "stream"@
}

pub fn is_long_mode(mode: &str) -> (r: bool)
    ensures
        r == long_mode(mode@),
{
    same_text(mode, "long_connection") || same_text(mode, "long-connection") || same_text(
        mode,
        "stream",
    )
}

impl Account for WeComAccountConfig {
    open spec fn name() -> Seq<char> {
        "wecom"@
    }

    open spec fn on(v: WeComAccountView) -> bool {
        v.enabled
    }

    open spec fn keyed(v: WeComAccountView) -> bool {
        v.corp_id.len() > 0
    }

    open spec fn usable(v: WeComAccountView) -> bool {
        v.corp_id.len() > 0 || (long_mode(v.mode) && v.bot_id.len() > 0)
    }

    open spec fn matches(v: WeComAccountView, active: WeComAccountView) -> bool {
        active.corp_id.len() > 0 && v.corp_id == active.corp_id && (active.agent_id <= 0
            || v.agent_id == active.agent_id)
    }

    open spec fn channel_in(config: ConfigView) -> ChannelView<WeComAccountView> {
        config.wecom
    }

    open spec fn with_channel(
        config: ConfigView,
        channel: ChannelView<WeComAccountView>,
    ) -> ConfigView {
        ConfigView { wecom: channel, ..config }
    }

    fn channel_name() -> (r: &'static str) {
        "wecom"
    }

    fn is_on(&self) -> (r: bool) {
        self.enabled
    }

    fn is_keyed(&self) -> (r: bool) {
        !self.corp_id.as_str().is_empty()
    }

    fn is_usable(&self) -> (r: bool) {
        !self.corp_id.as_str().is_empty() || (is_long_mode(self.mode.as_str())
            && !self.bot_id.as_str().is_empty())
    }

    fn is_match(&self, active: &Self) -> (r: bool) {
        !active.corp_id.as_str().is_empty() && same_text(
            self.corp_id.as_str(),
            active.corp_id.as_str(),
        ) && (active.agent_id <= 0 || self.agent_id == active.agent_id)
    }

    fn copy(&self) -> (r: Self) {
        WeComAccountConfig {
            enabled: self.enabled,
            mode: self.mode.clone(),
            corp_id: self.corp_id.clone(),
            corp_secret: self.corp_secret.clone(),
            agent_id: self.agent_id,
            bot_id: self.bot_id.clone(),
            bot_secret: self.bot_secret.clone(),
            callback_token: self.callback_token.clone(),
            encoding_aes_key: self.encoding_aes_key.clone(),
            allow_from: copy_texts(&self.allow_from),
            poll_interval_secs: self.poll_interval_secs,
            ws_url: self.ws_url.clone(),
            ping_interval_secs: self.ping_interval_secs,
        }
    }

    fn channel<'a>(config: &'a Config) -> (r: &'a ChannelConfig<Self>) {
        &config.channels.wecom
    }

    fn put(config: Config, channel: ChannelConfig<Self>) -> (r: Config) {
        let mut config = config;
        config.channels.wecom = channel;
        config
    }
}

// ---------------------------------------------------------------------------
// Lark
// ---------------------------------------------------------------------------

pub struct LarkAccountConfig {
    pub enabled: bool,
    pub app_id: String,
    pub app_secret: String,
    pub encrypt_key: String,
    pub verification_token: String,
    pub allow_from: Vec<String>,
}

pub struct LarkAccountView {
    pub enabled: bool,
    pub app_id: Seq<char>,
    pub app_secret: Seq<char>,
    pub encrypt_key: Seq<char>,
    pub verification_token: Seq<char>,
    pub allow_from: Seq<Seq<char>>,
}

impl LarkAccountView {
    pub open spec fn empty() -> Self {
        LarkAccountView {
            enabled: false,
            app_id: Seq::empty(),
            app_secret: Seq::empty(),
            encrypt_key: Seq::empty(),
            verification_token: Seq::empty(),
            allow_from: Seq::empty(),
        }
    }
}

impl View for LarkAccountConfig {
    type V = LarkAccountView;

    open spec fn view(&self) -> LarkAccountView {
        LarkAccountView {
            enabled: self.enabled,
            app_id: self.app_id@,
            app_secret: self.app_secret@,
            encrypt_key: self.encrypt_key@,
            verification_token: self.verification_token@,
            allow_from: texts_view(self.allow_from@),
        }
    }
}

impl Default for LarkAccountConfig {
    fn default() -> (r: Self)
        ensures
            r@ == LarkAccountView::empty(),
    {
        let r = LarkAccountConfig {
            enabled: false,
            app_id: String::new(),
            app_secret: String::new(),
            encrypt_key: String::new(),
            verification_token: String::new(),
            allow_from: Vec::new(),
        };
        assert(r@.allow_from =~= Seq::empty());
        r
    }
}

impl Account for LarkAccountConfig {
    open spec fn name() -> Seq<char> {
        "lark"@
    }

    open spec fn on(v: LarkAccountView) -> bool {
        v.enabled
    }

    open spec fn keyed(v: LarkAccountView) -> bool {
        v.app_id.len() > 0
    }

    open spec fn usable(v: LarkAccountView) -> bool {
        v.app_id.len() > 0
    }

    open spec fn matches(v: LarkAccountView, active: LarkAccountView) -> bool {
        active.app_id.len() > 0 && v.app_id == active.app_id
    }

    open spec fn channel_in(config: ConfigView) -> ChannelView<LarkAccountView> {
        config.lark
    }

    open spec fn with_channel(
        config: ConfigView,
        channel: ChannelView<LarkAccountView>,
    ) -> ConfigView {
        ConfigView { lark: channel, ..config }
    }

    fn channel_name() -> (r: &'static str) {
        "lark"
    }

    fn is_on(&self) -> (r: bool) {
        self.enabled
    }

    fn is_keyed(&self) -> (r: bool) {
        !self.app_id.as_str().is_empty()
    }

    fn is_usable(&self) -> (r: bool) {
        !self.app_id.as_str().is_empty()
    }

    fn is_match(&self, active: &Self) -> (r: bool) {
        !active.app_id.as_str().is_empty() && same_text(
            self.app_id.as_str(),
            active.app_id.as_str(),
        )
    }

    fn copy(&self) -> (r: Self) {
        LarkAccountConfig {
            enabled: self.enabled,
            app_id: self.app_id.clone(),
            app_secret: self.app_secret.clone(),
            encrypt_key: self.encrypt_key.clone(),
            verification_token: self.verification_token.clone(),
            allow_from: copy_texts(&self.allow_from),
        }
    }

    fn channel<'a>(config: &'a Config) -> (r: &'a ChannelConfig<Self>) {
        &config.channels.lark
    }

    fn put(config: Config, channel: ChannelConfig<Self>) -> (r: Config) {
        let mut config = config;
        config.channels.lark = channel;
        config
    }
}

} // verus!
