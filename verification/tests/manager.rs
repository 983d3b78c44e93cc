use blockcell::config::{Config, TelegramAccountConfig};
use blockcell::error::Error;
use blockcell::manager::{after_step, ChannelManager, SendStep};
use blockcell::messages::OutboundMessage;

#[test]
fn test_pick_account_prefers_requested_id() {
    let accounts = vec![("a".to_string(), 1u8), ("b".to_string(), 2u8)];

    let picked = ChannelManager::pick_account("telegram", &accounts, Some("b"), Some("a"))
        .ok()
        .expect("pick account should succeed")
        .copied();
    assert_eq!(picked, Some(2));
}

#[test]
fn test_pick_account_uses_default_and_named_default_fallback() {
    let accounts = vec![("default".to_string(), 1u8), ("main".to_string(), 2u8)];

    let by_default_id = ChannelManager::pick_account("telegram", &accounts, None, Some("main"))
        .ok()
        .expect("pick by default_account_id should succeed")
        .copied();
    assert_eq!(by_default_id, Some(2));

    let by_named_default = ChannelManager::pick_account("telegram", &accounts, None, None)
        .ok()
        .expect("fallback to 'default' should succeed")
        .copied();
    assert_eq!(by_named_default, Some(1));
}

#[test]
fn test_pick_account_errors_for_unknown_requested_id() {
    let accounts = vec![("default".to_string(), 1u8)];

    let err = ChannelManager::pick_account("telegram", &accounts, Some("missing"), None)
        .err()
        .expect("unknown requested account should fail");
    assert!(
        err.message().contains("Unknown account_id 'missing'"),
        "unexpected error: {}",
        err.message()
    );
}

fn account(token: &str, user: &str, proxy: Option<&str>) -> TelegramAccountConfig {
    TelegramAccountConfig {
        enabled: true,
        token: token.to_string(),
        allow_from: vec![user.to_string()],
        proxy: proxy.map(|p| p.to_string()),
    }
}

#[test]
fn test_config_for_outbound_telegram_account_selection() {
    let mut config = Config::default();
    config.channels.telegram.active.enabled = true;
    config
        .channels
        .telegram
        .accounts
        .push(("default".to_string(), account("tg-default", "u1", None)));
    config
        .channels
        .telegram
        .accounts
        .push(("alt".to_string(), account("tg-alt", "u2", Some("http://proxy.local"))));
    config.channels.telegram.default_account_id = Some("default".to_string());

    let manager = ChannelManager::new(config);

    let msg_default = OutboundMessage::new("telegram", "chat1", "hello");
    let send_cfg_default = manager
        .config_for_outbound(&msg_default)
        .ok()
        .expect("default account selection should succeed");
    assert_eq!(send_cfg_default.channels.telegram.active.token, "tg-default");
    assert_eq!(send_cfg_default.channels.telegram.active.allow_from, vec!["u1"]);

    let mut msg_alt = OutboundMessage::new("telegram", "chat1", "hello");
    msg_alt.account_id = Some("alt".to_string());
    let send_cfg_alt = manager
        .config_for_outbound(&msg_alt)
        .ok()
        .expect("explicit account selection should succeed");
    assert_eq!(send_cfg_alt.channels.telegram.active.token, "tg-alt");
    assert_eq!(send_cfg_alt.channels.telegram.active.allow_from, vec!["u2"]);
    assert_eq!(
        send_cfg_alt.channels.telegram.active.proxy.as_deref(),
        Some("http://proxy.local")
    );
}

#[test]
fn test_get_status_uses_multi_account_listener_labels() {
    let mut config = Config::default();
    config.channels.telegram.active.enabled = true;
    config
        .channels
        .telegram
        .accounts
        .push((
            "main".to_string(),
            TelegramAccountConfig { allow_from: vec![], ..account("tg-main", "u1", None) },
        ));

    let manager = ChannelManager::new(config);
    let telegram = manager
        .get_status()
        .into_iter()
        .find(|(name, _, _)| name == "telegram")
        .expect("telegram status should exist");

    assert!(telegram.1, "telegram should be active when account listener exists");
    assert!(telegram.2.contains("telegram:main"), "unexpected detail: {}", telegram.2);
}

#[test]
fn message_goes_out_by_the_account_that_it_asks_for() {
    let mut config = Config::default();
    config.channels.telegram.active.enabled = true;
    config
        .channels
        .telegram
        .accounts
        .push(("alt".to_string(), account("tg-alt", "u2", None)));
    let manager = ChannelManager::new(config);
    let mut msg = OutboundMessage::new("telegram", "chat1", "hello");
    msg.account_id = Some("alt".to_string());
    let (settings, steps) = manager.dispatch_outbound_msg(&msg).ok().unwrap();
    assert_eq!(settings.channels.telegram.active.token, "tg-alt");
    assert!(!steps.is_empty());
    msg.account_id = Some("none".to_string());
    assert!(manager.dispatch_outbound_msg(&msg).is_err());
}

#[test]
fn files_go_before_the_text() {
    let mut config = Config::default();
    config.channels.telegram.active.enabled = true;
    config.channels.telegram.active.token = "t".to_string();
    let manager = ChannelManager::new(config);
    let mut msg = OutboundMessage::new("telegram", "chat1", "hello");
    msg.media = vec!["/a.png".to_string()];
    let (_, steps) = manager.dispatch_outbound_msg(&msg).ok().unwrap();
    assert!(matches!(&steps[0], SendStep::Media(path) if path == "/a.png"));
    assert_eq!(steps.len(), 2);
}

/// The files and texts that are tried where sending those in `failing` fails, and the outcome.
fn sent(msg: &OutboundMessage, failing: &[&str]) -> (Vec<String>, Option<String>) {
    let manager = ChannelManager::new(Config::default());
    let (_, steps) = manager.dispatch_outbound_msg(msg).ok().unwrap();
    let mut tried = Vec::new();
    for step in &steps {
        let what = match step {
            SendStep::Media(path) => path.clone(),
            _ => "text".to_string(),
        };
        let failed = failing
            .contains(&what.as_str())
            .then(|| Error::Channel(format!("{} not sent", what)));
        tried.push(what);
        if let Err(e) = after_step(step, failed) {
            return (tried, Some(e.message().to_string()));
        }
    }
    (tried, None)
}

#[test]
fn failed_file_does_not_stop_the_rest() {
    for channel in ["telegram", "feishu", "slack", "discord", "dingtalk", "wecom", "lark"] {
        let mut msg = OutboundMessage::new(channel, "chat1", "hello");
        msg.media = vec!["/a".to_string(), "/b".to_string(), "/a".to_string()];
        let all = vec!["/a", "/b", "/a", "text"];
        assert_eq!(sent(&msg, &[]), (all.iter().map(|s| s.to_string()).collect(), None));
        let (tried, error) = sent(&msg, &["/a", "/b"]);
        assert_eq!(tried, all);
        assert_eq!(error, None);
        let (tried, error) = sent(&msg, &["/b", "text"]);
        assert_eq!(tried, all);
        assert_eq!(error.as_deref(), Some("text not sent"));
        msg.content = String::new();
        let (tried, error) = sent(&msg, &["/a", "text"]);
        assert_eq!(tried, vec!["/a", "/b", "/a"]);
        assert_eq!(error, None);
    }
    let msg = OutboundMessage::new("whatsapp", "chat1", "hello");
    let (tried, error) = sent(&msg, &["text"]);
    assert_eq!(tried, vec!["text"]);
    assert_eq!(error.as_deref(), Some("text not sent"));
    assert_eq!(sent(&OutboundMessage::new("ws", "chat1", "hello"), &["text"]), (vec![], None));
}

#[test]
fn channel_that_is_off_is_reported() {
    let manager = ChannelManager::new(Config::default());
    let (active, detail) = manager.channel_status("telegram");
    assert!(!active);
    assert!(!detail.is_empty());
    assert!(!ChannelManager::missing_config_detail("slack").is_empty());
}
