//! Which accounts of a channel listen, and which one is in use.

use crate::config::{
    accounts_view, channel_view, Account, ChannelConfig, ChannelView, Config, ConfigView,
    DingTalkAccountConfig, DiscordAccountConfig, FeishuAccountConfig, LarkAccountConfig,
    SlackAccountConfig, TelegramAccountConfig, WeComAccountConfig, WhatsAppAccountConfig,
};
use crate::sorting::{sort_texts, sorted_texts};
use crate::text::{opt_text, same_text, str_less, text_less, texts_view};
use vstd::prelude::*;

verus! {

// ---------------------------------------------------------------------------
// The account in use
// ---------------------------------------------------------------------------

/// The ids of the accounts for which `p` holds.
pub open spec fn ids_where<V>(accounts: Seq<(Seq<char>, V)>, p: spec_fn(V) -> bool) -> Seq<Seq<char>>
    decreases accounts.len(),
{
    if accounts.len() == 0 {
        Seq::empty()
    } else if p(accounts.last().1) {
        ids_where(accounts.drop_last(), p).push(accounts.last().0)
    } else {
        ids_where(accounts.drop_last(), p)
    }
}

pub open spec fn enabled_ids<A: Account>(accounts: Seq<(Seq<char>, A::V)>) -> Seq<Seq<char>> {
    ids_where(accounts, |v: A::V| A::on(v))
}

pub open spec fn matched_ids<A: Account>(accounts: Seq<(Seq<char>, A::V)>, active: A::V) -> Seq<
    Seq<char>,
> {
    ids_where(accounts, |v: A::V| A::on(v) && A::matches(v, active))
}

/// The account that is meant: the one enabled account that matches what is in use, or the only
/// enabled one where none matches.
pub open spec fn meant_account<A: Account>(channel: ChannelView<A::V>) -> Option<Seq<char>> {
    let enabled = enabled_ids::<A>(channel.accounts);
    let matched = matched_ids::<A>(channel.accounts, channel.active);
    if matched.len() == 1 {
        Some(matched[0])
    } else if matched.len() == 0 && enabled.len() == 1 {
        Some(enabled[0])
    } else {
        None
    }
}

pub fn resolve_account_id<A: Account>(channel: &ChannelConfig<A>) -> (r: Option<String>)
    ensures
        opt_text(r) == meant_account::<A>(channel_view(*channel)),
{
    let ghost views = accounts_view(channel.accounts@);
    let ghost on = |v: A::V| A::on(v);
    let ghost fits = |v: A::V| A::on(v) && A::matches(v, channel.active@);
    let mut enabled: Vec<String> = Vec::new();
    let mut matched: Vec<String> = Vec::new();
    let mut i: usize = 0;
    assert(texts_view(enabled@) =~= Seq::empty());
    assert(texts_view(matched@) =~= Seq::empty());
    while i < channel.accounts.len()
        invariant
            i <= channel.accounts.len(),
            views == accounts_view(channel.accounts@),
            on == (|v: A::V| A::on(v)),
            fits == (|v: A::V| A::on(v) && A::matches(v, channel.active@)),
            texts_view(enabled@) == ids_where(views.take(i as int), on),
            texts_view(matched@) == ids_where(views.take(i as int), fits),
        decreases channel.accounts.len() - i,
    {
        assert(views.take(i + 1).drop_last() =~= views.take(i as int));
        assert(views[i as int] == (
            channel.accounts@[i as int].0@,
            channel.accounts@[i as int].1@,
        ));
        if channel.accounts[i].1.is_on() {
            let id = channel.accounts[i].0.clone();
            let ghost so_far = texts_view(enabled@);
            enabled.push(id);
            assert(texts_view(enabled@) =~= so_far.push(id@));
            if channel.accounts[i].1.is_match(&channel.active) {
                let id = channel.accounts[i].0.clone();
                let ghost so_far = texts_view(matched@);
                matched.push(id);
                assert(texts_view(matched@) =~= so_far.push(id@));
            }
        }
        i += 1;
    }
    assert(views.take(views.len() as int) =~= views);
    if matched.len() == 1 {
        Some(matched[0].clone())
    } else if matched.len() == 0 && enabled.len() == 1 {
        Some(enabled[0].clone())
    } else {
        None
    }
}

proof fn lemma_ids_where<V>(
    accounts: Seq<(Seq<char>, V)>,
    p: spec_fn(V) -> bool,
    id: Seq<char>,
)
    requires
        ids_where(accounts, p).contains(id),
    ensures
        exists|i: int|
            0 <= i < accounts.len() && (#[trigger] accounts[i]).0 == id && p(accounts[i].1),
    decreases accounts.len(),
{
    if accounts.len() > 0 {
        let prior = ids_where(accounts.drop_last(), p);
        let all = ids_where(accounts, p);
        let k = choose|k: int| 0 <= k < all.len() && all[k] == id;
        if k < prior.len() {
            assert(prior[k] == id);
            lemma_ids_where(accounts.drop_last(), p, id);
            let i = choose|i: int|
                0 <= i < accounts.drop_last().len() && (#[trigger] accounts.drop_last()[i]).0 == id
                    && p(accounts.drop_last()[i].1);
            assert(accounts[i] == accounts.drop_last()[i]);
        } else {
            assert(accounts[accounts.len() - 1] == accounts.last());
        }
    }
}

/// The account that is meant is one of the channel's accounts, and it is enabled.
pub proof fn law_meant_account_is_enabled<A: Account>(channel: ChannelView<A::V>)
    requires
        meant_account::<A>(channel) is Some,
    ensures
        exists|i: int|
            0 <= i < channel.accounts.len() && (#[trigger] channel.accounts[i]).0 == meant_account::<
                A,
            >(channel)->0 && A::on(channel.accounts[i].1),
{
    let id = meant_account::<A>(channel)->0;
    let enabled = enabled_ids::<A>(channel.accounts);
    let matched = matched_ids::<A>(channel.accounts, channel.active);
    if matched.len() == 1 {
        assert(matched[0] == id);
        lemma_ids_where(
            channel.accounts,
            |v: A::V| A::on(v) && A::matches(v, channel.active),
            id,
        );
    } else {
        assert(enabled[0] == id);
        lemma_ids_where(channel.accounts, |v: A::V| A::on(v), id);
    }
}

pub fn telegram_account_id(config: &Config) -> (r: Option<String>)
    ensures
        opt_text(r) == meant_account::<TelegramAccountConfig>(config@.telegram),
{
    resolve_account_id(&config.channels.telegram)
}

pub fn slack_account_id(config: &Config) -> (r: Option<String>)
    ensures
        opt_text(r) == meant_account::<SlackAccountConfig>(config@.slack),
{
    resolve_account_id(&config.channels.slack)
}

pub fn feishu_account_id(config: &Config) -> (r: Option<String>)
    ensures
        opt_text(r) == meant_account::<FeishuAccountConfig>(config@.feishu),
{
    resolve_account_id(&config.channels.feishu)
}

pub fn discord_account_id(config: &Config) -> (r: Option<String>)
    ensures
        opt_text(r) == meant_account::<DiscordAccountConfig>(config@.discord),
{
    resolve_account_id(&config.channels.discord)
}

pub fn dingtalk_account_id(config: &Config) -> (r: Option<String>)
    ensures
        opt_text(r) == meant_account::<DingTalkAccountConfig>(config@.dingtalk),
{
    resolve_account_id(&config.channels.dingtalk)
}

pub fn wecom_account_id(config: &Config) -> (r: Option<String>)
    ensures
        opt_text(r) == meant_account::<WeComAccountConfig>(config@.wecom),
{
    resolve_account_id(&config.channels.wecom)
}

pub fn whatsapp_account_id(config: &Config) -> (r: Option<String>)
    ensures
        opt_text(r) == meant_account::<WhatsAppAccountConfig>(config@.whatsapp),
{
    resolve_account_id(&config.channels.whatsapp)
}

pub fn lark_account_id(config: &Config) -> (r: Option<String>)
    ensures
        opt_text(r) == meant_account::<LarkAccountConfig>(config@.lark),
{
    resolve_account_id(&config.channels.lark)
}

// ---------------------------------------------------------------------------
// Listeners
// ---------------------------------------------------------------------------

/// A listener on a channel: its label, the account that it listens for, and the settings that it
/// uses.
pub struct ListenerConfig {
    pub label: String,
    pub account_id: Option<String>,
    pub config: Config,
}

pub struct ListenerView {
    pub label: Seq<char>,
    pub account_id: Option<Seq<char>>,
    pub config: ConfigView,
}

impl View for ListenerConfig {
    type V = ListenerView;

    open spec fn view(&self) -> ListenerView {
        ListenerView {
            label: self.label@,
            account_id: opt_text(self.account_id),
            config: self.config@,
        }
    }
}

pub open spec fn listeners_view(list: Seq<ListenerConfig>) -> Seq<ListenerView> {
    list.map_values(|l: ListenerConfig| l@)
}

/// An account put into a list before the first with a greater id.
pub open spec fn insert_account<V>(list: Seq<(Seq<char>, V)>, entry: (Seq<char>, V)) -> Seq<
    (Seq<char>, V),
>
    decreases list.len(),
{
    if list.len() == 0 {
        seq![entry]
    } else if text_less(entry.0, list[0].0) {
        seq![entry] + list
    } else {
        seq![list[0]] + insert_account(list.skip(1), entry)
    }
}

/// The accounts that can listen, by ascending id.
pub open spec fn ready_accounts<A: Account>(accounts: Seq<(Seq<char>, A::V)>) -> Seq<
    (Seq<char>, A::V),
>
    decreases accounts.len(),
{
    if accounts.len() == 0 {
        Seq::empty()
    } else {
        let so_far = ready_accounts::<A>(accounts.drop_last());
        if A::on(accounts.last().1) && A::usable(accounts.last().1) {
            insert_account(so_far, accounts.last())
        } else {
            so_far
        }
    }
}

/// The listener of an account: the settings are those of this account alone.
pub open spec fn account_listener<A: Account>(config: ConfigView, entry: (Seq<char>, A::V)) -> ListenerView {
    ListenerView {
        label: A::name() + ":"@ + entry.0,
        account_id: Some(entry.0),
        config: A::with_channel(
            config,
            ChannelView {
                active: entry.1,
                accounts: seq![entry],
                default_account_id: Some(entry.0),
            },
        ),
    }
}

/// The listeners of a channel: one for each account that can listen; where there is none, one for
/// the settings of the channel itself, if they are enough to listen.
pub open spec fn listeners<A: Account>(config: ConfigView) -> Seq<ListenerView> {
    let channel = A::channel_in(config);
    let ready = ready_accounts::<A>(channel.accounts);
    if ready.len() > 0 {
        ready.map_values(|e: (Seq<char>, A::V)| account_listener::<A>(config, e))
    } else if A::usable(channel.active) {
        seq![ListenerView { label: A::name(), account_id: None, config }]
    } else {
        Seq::empty()
    }
}

fn insert_ready<A: Account>(list: &mut Vec<(String, A)>, id: String, account: A)
    ensures
        accounts_view(final(list)@) == insert_account(
            accounts_view(old(list)@),
            (id@, account@),
        ),
{
    let ghost before = accounts_view(list@);
    let ghost entry = (id@, account@);
    let mut i: usize = 0;
    assert(before.skip(0) =~= before);
    assert(before.take(0) + insert_account(before, entry) =~= insert_account(before, entry));
    while i < list.len()
        invariant_except_break
            i <= list.len(),
            insert_account(before, entry) == before.take(i as int) + insert_account(
                before.skip(i as int),
                entry,
            ),
        invariant
            list@ == old(list)@,
            before == accounts_view(list@),
            entry == (id@, account@),
        ensures
            i <= list.len(),
            insert_account(before, entry) == before.take(i as int) + seq![entry] + before.skip(
                i as int,
            ),
        decreases list.len() - i,
    {
        let ghost here = before.skip(i as int);
        assert(here.skip(1) =~= before.skip(i + 1));
        assert(here[0].0 == list@[i as int].0@);
        if str_less(id.as_str(), list[i].0.as_str()) {
            assert(before.take(i as int) + (seq![entry] + here) =~= before.take(i as int) + seq![
                entry,
            ] + here);
            break ;
        }
        assert(before.take(i as int) + (seq![here[0]] + insert_account(here.skip(1), entry))
            =~= before.take(i + 1) + insert_account(here.skip(1), entry));
        i += 1;
        if i == list.len() {
            assert(before.skip(i as int) =~= Seq::empty());
            assert(before.take(i as int) + seq![entry] + before.skip(i as int) =~= before.take(
                i as int,
            ) + seq![entry]);
        }
    }
    if i == list.len() {
        assert(before.skip(i as int) =~= Seq::empty());
    }
    list.insert(i, (id, account));
    assert(accounts_view(list@) =~= before.take(i as int) + seq![entry] + before.skip(i as int));
}

fn ready_accounts_of<A: Account>(accounts: &Vec<(String, A)>) -> (r: Vec<(String, A)>)
    ensures
        accounts_view(r@) == ready_accounts::<A>(accounts_view(accounts@)),
{
    let ghost views = accounts_view(accounts@);
    let mut r: Vec<(String, A)> = Vec::new();
    let mut i: usize = 0;
    assert(accounts_view(r@) =~= Seq::empty());
    while i < accounts.len()
        invariant
            i <= accounts.len(),
            views == accounts_view(accounts@),
            accounts_view(r@) == ready_accounts::<A>(views.take(i as int)),
        decreases accounts.len() - i,
    {
        assert(views.take(i + 1).drop_last() =~= views.take(i as int));
        assert(views[i as int] == (accounts@[i as int].0@, accounts@[i as int].1@));
        if accounts[i].1.is_on() && accounts[i].1.is_usable() {
            insert_ready(&mut r, accounts[i].0.clone(), accounts[i].1.copy());
        }
        i += 1;
    }
    assert(views.take(views.len() as int) =~= views);
    r
}

/// The listeners of a channel.
pub fn scoped_listener_configs<A: Account>(config: &Config) -> (r: Vec<ListenerConfig>)
    ensures
        listeners_view(r@) == listeners::<A>(config@),
{
    let channel = A::channel(config);
    let ready = ready_accounts_of(&channel.accounts);
    let mut r: Vec<ListenerConfig> = Vec::new();
    if ready.len() == 0 {
        if channel.active.is_usable() {
            r.push(
                ListenerConfig {
                    label: A::channel_name().to_owned(),
                    account_id: None,
                    config: config.clone(),
                },
            );
        }
        assert(listeners_view(r@) =~= listeners::<A>(config@));
        return r;
    }
    let ghost views = accounts_view(ready@);
    let ghost all = views.map_values(|e: (Seq<char>, A::V)| account_listener::<A>(config@, e));
    let mut i: usize = 0;
    assert(listeners_view(r@) =~= Seq::empty());
    while i < ready.len()
        invariant
            i <= ready.len(),
            views == accounts_view(ready@),
            all == views.map_values(|e: (Seq<char>, A::V)| account_listener::<A>(config@, e)),
            listeners_view(r@) == all.take(i as int),
        decreases ready.len() - i,
    {
        assert(views[i as int] == (ready@[i as int].0@, ready@[i as int].1@));
        let id = &ready[i].0;
        let account = &ready[i].1;
        let mut label = A::channel_name().to_owned();
        label.push_str(":");
        label.push_str(id.as_str());
        let mut accounts: Vec<(String, A)> = Vec::new();
        accounts.push((id.clone(), account.copy()));
        assert(accounts_view(accounts@) =~= seq![(id@, account@)]);
        let scoped = ChannelConfig {
            active: account.copy(),
            accounts,
            default_account_id: Some(id.clone()),
        };
        let listener = ListenerConfig {
            label,
            account_id: Some(id.clone()),
            config: A::put(config.clone(), scoped),
        };
        assert(listener@ == all[i as int]);
        let ghost so_far = listeners_view(r@);
        r.push(listener);
        assert(listeners_view(r@) =~= so_far.push(listener@));
        assert(listeners_view(r@) =~= all.take(i + 1));
        i += 1;
    }
    assert(listeners_view(r@) =~= all);
    r
}

proof fn lemma_insert_account<V>(list: Seq<(Seq<char>, V)>, entry: (Seq<char>, V), other: (Seq<char>, V))
    ensures
        insert_account(list, entry).contains(other) <==> list.contains(other) || other == entry,
    decreases list.len(),
{
    let now = insert_account(list, entry);
    if list.len() == 0 {
        assert(now[0] == entry);
    } else if text_less(entry.0, list[0].0) {
        assert(now[0] == entry);
        if list.contains(other) {
            let k = choose|k: int| 0 <= k < list.len() && list[k] == other;
            assert(now[k + 1] == other);
        }
        if now.contains(other) {
            let k = choose|k: int| 0 <= k < now.len() && now[k] == other;
            if k > 0 {
                assert(list[k - 1] == other);
            }
        }
    } else {
        lemma_insert_account(list.skip(1), entry, other);
        let rest = insert_account(list.skip(1), entry);
        assert(now[0] == list[0]);
        if rest.contains(other) {
            let k = choose|k: int| 0 <= k < rest.len() && rest[k] == other;
            assert(now[k + 1] == other);
        }
        if now.contains(other) {
            let k = choose|k: int| 0 <= k < now.len() && now[k] == other;
            if k > 0 {
                assert(rest[k - 1] == other);
            }
        }
        if list.contains(other) {
            let k = choose|k: int| 0 <= k < list.len() && list[k] == other;
            if k > 0 {
                assert(list.skip(1)[k - 1] == other);
            }
        }
        if list.skip(1).contains(other) {
            let k = choose|k: int| 0 <= k < list.skip(1).len() && list.skip(1)[k] == other;
            assert(list[k + 1] == other);
        }
    }
}

proof fn lemma_ready<A: Account>(accounts: Seq<(Seq<char>, A::V)>, entry: (Seq<char>, A::V))
    ensures
        ready_accounts::<A>(accounts).contains(entry) <==> accounts.contains(entry) && A::on(
            entry.1,
        ) && A::usable(entry.1),
    decreases accounts.len(),
{
    if accounts.len() > 0 {
        let prior = accounts.drop_last();
        lemma_ready::<A>(prior, entry);
        lemma_insert_account(ready_accounts::<A>(prior), accounts.last(), entry);
        if accounts.contains(entry) {
            let k = choose|k: int| 0 <= k < accounts.len() && accounts[k] == entry;
            if k < prior.len() {
                assert(prior[k] == entry);
            }
        }
        if prior.contains(entry) {
            let k = choose|k: int| 0 <= k < prior.len() && prior[k] == entry;
            assert(accounts[k] == entry);
        }
        assert(accounts[accounts.len() - 1] == accounts.last());
    }
}

/// An account has a listener with its own settings if and only if it is enabled and can listen.
pub proof fn law_listener_for_each_account<A: Account>(config: ConfigView, entry: (Seq<char>, A::V))
    requires
        A::channel_in(config).accounts.contains(entry),
    ensures
        A::on(entry.1) && A::usable(entry.1) ==> listeners::<A>(config).contains(
            account_listener::<A>(config, entry),
        ),
        ready_accounts::<A>(A::channel_in(config).accounts).contains(entry) ==> A::on(entry.1)
            && A::usable(entry.1),
{
    let accounts = A::channel_in(config).accounts;
    lemma_ready::<A>(accounts, entry);
    let ready = ready_accounts::<A>(accounts);
    if ready.contains(entry) {
        let k = choose|k: int| 0 <= k < ready.len() && ready[k] == entry;
        assert(listeners::<A>(config)[k] == account_listener::<A>(config, entry));
    }
}

pub fn telegram_listener_configs(config: &Config) -> (r: Vec<ListenerConfig>)
    ensures
        listeners_view(r@) == listeners::<TelegramAccountConfig>(config@),
{
    scoped_listener_configs::<TelegramAccountConfig>(config)
}

pub fn slack_listener_configs(config: &Config) -> (r: Vec<ListenerConfig>)
    ensures
        listeners_view(r@) == listeners::<SlackAccountConfig>(config@),
{
    scoped_listener_configs::<SlackAccountConfig>(config)
}

pub fn discord_listener_configs(config: &Config) -> (r: Vec<ListenerConfig>)
    ensures
        listeners_view(r@) == listeners::<DiscordAccountConfig>(config@),
{
    scoped_listener_configs::<DiscordAccountConfig>(config)
}

pub fn dingtalk_listener_configs(config: &Config) -> (r: Vec<ListenerConfig>)
    ensures
        listeners_view(r@) == listeners::<DingTalkAccountConfig>(config@),
{
    scoped_listener_configs::<DingTalkAccountConfig>(config)
}

pub fn wecom_listener_configs(config: &Config) -> (r: Vec<ListenerConfig>)
    ensures
        listeners_view(r@) == listeners::<WeComAccountConfig>(config@),
{
    scoped_listener_configs::<WeComAccountConfig>(config)
}

pub fn feishu_scoped_configs(config: &Config) -> (r: Vec<ListenerConfig>)
    ensures
        listeners_view(r@) == listeners::<FeishuAccountConfig>(config@),
{
    scoped_listener_configs::<FeishuAccountConfig>(config)
}

pub fn lark_scoped_configs(config: &Config) -> (r: Vec<ListenerConfig>)
    ensures
        listeners_view(r@) == listeners::<LarkAccountConfig>(config@),
{
    scoped_listener_configs::<LarkAccountConfig>(config)
}

pub fn whatsapp_listener_configs(config: &Config) -> (r: Vec<ListenerConfig>)
    ensures
        listeners_view(r@) == listeners::<WhatsAppAccountConfig>(config@),
{
    scoped_listener_configs::<WhatsAppAccountConfig>(config)
}

// ---------------------------------------------------------------------------
// Channels
// ---------------------------------------------------------------------------

/// Some account is enabled and has what identifies it.
pub open spec fn any_enabled<A: Account>(accounts: Seq<(Seq<char>, A::V)>) -> bool {
    exists|i: int|
        0 <= i < accounts.len() && A::on((#[trigger] accounts[i]).1) && A::keyed(accounts[i].1)
}

pub fn has_enabled_account<A: Account>(accounts: &Vec<(String, A)>) -> (r: bool)
    ensures
        r == any_enabled::<A>(accounts_view(accounts@)),
{
    let ghost views = accounts_view(accounts@);
    let mut i: usize = 0;
    while i < accounts.len()
        invariant
            i <= accounts.len(),
            views == accounts_view(accounts@),
            forall|j: int|
                0 <= j < i ==> !(A::on((#[trigger] views[j]).1) && A::keyed(views[j].1)),
        decreases accounts.len() - i,
    {
        assert(views[i as int] == (accounts@[i as int].0@, accounts@[i as int].1@));
        if accounts[i].1.is_on() && accounts[i].1.is_keyed() {
            return true;
        }
        i += 1;
    }
    false
}

/// The channel itself or one of its accounts has what identifies it.
pub open spec fn set_up<A: Account>(channel: ChannelView<A::V>) -> bool {
    A::keyed(channel.active) || any_enabled::<A>(channel.accounts)
}

fn is_set_up<A: Account>(channel: &ChannelConfig<A>) -> (r: bool)
    ensures
        r == set_up::<A>(channel_view(*channel)),
{
    channel.active.is_keyed() || has_enabled_account(&channel.accounts)
}

pub open spec fn configured(config: ConfigView, channel: Seq<char>) -> bool {
    if channel == "telegram"@ {
        set_up::<TelegramAccountConfig>(config.telegram)
    } else if channel == "whatsapp"@ {
        set_up::<WhatsAppAccountConfig>(config.whatsapp)
    } else if channel == "feishu"@ {
        set_up::<FeishuAccountConfig>(config.feishu)
    } else if channel == "slack"@ {
        set_up::<SlackAccountConfig>(config.slack)
    } else if channel == "discord"@ {
        set_up::<DiscordAccountConfig>(config.discord)
    } else if channel == "dingtalk"@ {
        set_up::<DingTalkAccountConfig>(config.dingtalk)
    } else if channel == "wecom"@ {
        set_up::<WeComAccountConfig>(config.wecom)
    } else if channel == "lark"@ {
        set_up::<LarkAccountConfig>(config.lark)
    } else {
        false
    }
}

pub fn channel_configured(config: &Config, channel: &str) -> (r: bool)
    ensures
        r == configured(config@, channel@),
{
    if same_text(channel, "telegram") {
        is_set_up(&config.channels.telegram)
    } else if same_text(channel, "whatsapp") {
        is_set_up(&config.channels.whatsapp)
    } else if same_text(channel, "feishu") {
        is_set_up(&config.channels.feishu)
    } else if same_text(channel, "slack") {
        is_set_up(&config.channels.slack)
    } else if same_text(channel, "discord") {
        is_set_up(&config.channels.discord)
    } else if same_text(channel, "dingtalk") {
        is_set_up(&config.channels.dingtalk)
    } else if same_text(channel, "wecom") {
        is_set_up(&config.channels.wecom)
    } else if same_text(channel, "lark") {
        is_set_up(&config.channels.lark)
    } else {
        false
    }
}

/// The channel is switched on.
pub open spec fn switched_on(config: ConfigView, channel: Seq<char>) -> bool {
    if channel == "telegram"@ {
        config.telegram.active.enabled
    } else if channel == "whatsapp"@ {
        config.whatsapp.active.enabled
    } else if channel == "feishu"@ {
        config.feishu.active.enabled
    } else if channel == "slack"@ {
        config.slack.active.enabled
    } else if channel == "discord"@ {
        config.discord.active.enabled
    } else if channel == "dingtalk"@ {
        config.dingtalk.active.enabled
    } else if channel == "wecom"@ {
        config.wecom.active.enabled
    } else if channel == "lark"@ {
        config.lark.active.enabled
    } else {
        false
    }
}

pub fn is_external_channel_enabled(config: &Config, channel: &str) -> (r: bool)
    ensures
        r == switched_on(config@, channel@),
{
    if same_text(channel, "telegram") {
        config.channels.telegram.active.enabled
    } else if same_text(channel, "whatsapp") {
        config.channels.whatsapp.active.enabled
    } else if same_text(channel, "feishu") {
        config.channels.feishu.active.enabled
    } else if same_text(channel, "slack") {
        config.channels.slack.active.enabled
    } else if same_text(channel, "discord") {
        config.channels.discord.active.enabled
    } else if same_text(channel, "dingtalk") {
        config.channels.dingtalk.active.enabled
    } else if same_text(channel, "wecom") {
        config.channels.wecom.active.enabled
    } else if same_text(channel, "lark") {
        config.channels.lark.active.enabled
    } else {
        false
    }
}

pub open spec fn listeners_on(config: ConfigView, channel: Seq<char>) -> Seq<ListenerView> {
    if channel == "telegram"@ {
        listeners::<TelegramAccountConfig>(config)
    } else if channel == "whatsapp"@ {
        listeners::<WhatsAppAccountConfig>(config)
    } else if channel == "feishu"@ {
        listeners::<FeishuAccountConfig>(config)
    } else if channel == "slack"@ {
        listeners::<SlackAccountConfig>(config)
    } else if channel == "discord"@ {
        listeners::<DiscordAccountConfig>(config)
    } else if channel == "dingtalk"@ {
        listeners::<DingTalkAccountConfig>(config)
    } else if channel == "wecom"@ {
        listeners::<WeComAccountConfig>(config)
    } else if channel == "lark"@ {
        listeners::<LarkAccountConfig>(config)
    } else {
        Seq::empty()
    }
}

fn listener_configs_on(config: &Config, channel: &str) -> (r: Vec<ListenerConfig>)
    ensures
        listeners_view(r@) == listeners_on(config@, channel@),
{
    if same_text(channel, "telegram") {
        telegram_listener_configs(config)
    } else if same_text(channel, "whatsapp") {
        whatsapp_listener_configs(config)
    } else if same_text(channel, "feishu") {
        feishu_scoped_configs(config)
    } else if same_text(channel, "slack") {
        slack_listener_configs(config)
    } else if same_text(channel, "discord") {
        discord_listener_configs(config)
    } else if same_text(channel, "dingtalk") {
        dingtalk_listener_configs(config)
    } else if same_text(channel, "wecom") {
        wecom_listener_configs(config)
    } else if same_text(channel, "lark") {
        lark_scoped_configs(config)
    } else {
        let none: Vec<ListenerConfig> = Vec::new();
        assert(listeners_view(none@) =~= Seq::empty());
        none
    }
}

/// The labels of the listeners of a channel that is switched on, in ascending order.
pub open spec fn labels_on(config: ConfigView, channel: Seq<char>) -> Seq<Seq<char>> {
    if switched_on(config, channel) && configured(config, channel) {
        sorted_texts(listeners_on(config, channel).map_values(|l: ListenerView| l.label))
    } else {
        Seq::empty()
    }
}

pub fn listener_labels(config: &Config, channel: &str) -> (r: Vec<String>)
    ensures
        texts_view(r@) == labels_on(config@, channel@),
{
    let mut labels: Vec<String> = Vec::new();
    assert(texts_view(labels@) =~= Seq::empty());
    if !is_external_channel_enabled(config, channel) || !channel_configured(config, channel) {
        return labels;
    }
    let list = listener_configs_on(config, channel);
    let ghost all = listeners_view(list@).map_values(|l: ListenerView| l.label);
    let mut i: usize = 0;
    while i < list.len()
        invariant
            i <= list.len(),
            all == listeners_view(list@).map_values(|l: ListenerView| l.label),
            texts_view(labels@) == all.take(i as int),
        decreases list.len() - i,
    {
        let ghost so_far = texts_view(labels@);
        let label = list[i].label.clone();
        assert(label@ == all[i as int]);
        labels.push(label);
        assert(texts_view(labels@) =~= so_far.push(label@));
        assert(texts_view(labels@) =~= all.take(i + 1));
        i += 1;
    }
    assert(texts_view(labels@) =~= all);
    sort_texts(&labels)
}

} // verus!
