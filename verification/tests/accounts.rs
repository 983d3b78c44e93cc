use blockcell::accounts::{
    dingtalk_account_id, discord_account_id, feishu_account_id, feishu_scoped_configs,
    is_external_channel_enabled, lark_account_id, listener_labels, slack_account_id,
    telegram_account_id, telegram_listener_configs, wecom_account_id, wecom_listener_configs,
    whatsapp_account_id,
};
use blockcell::config::{
    Config, DingTalkAccountConfig, DiscordAccountConfig, FeishuAccountConfig, LarkAccountConfig,
    SlackAccountConfig, TelegramAccountConfig, WeComAccountConfig, WhatsAppAccountConfig,
};

#[test]
fn test_telegram_listener_configs_expand_enabled_accounts() {
    let mut config = Config::default();
    config.channels.telegram.active.enabled = true;
    config.channels.telegram.active.token = "legacy-token".to_string();
    config.channels.telegram.accounts.push((
        "main".to_string(),
        TelegramAccountConfig {
            enabled: true,
            token: "tg-main".to_string(),
            allow_from: vec!["u1".to_string()],
            proxy: Some("http://proxy-main".to_string()),
        },
    ));
    config.channels.telegram.accounts.push((
        "disabled".to_string(),
        TelegramAccountConfig {
            enabled: false,
            token: "tg-disabled".to_string(),
            allow_from: vec![],
            proxy: None,
        },
    ));

    let listeners = telegram_listener_configs(&config);
    assert_eq!(listeners.len(), 1);
    assert_eq!(listeners[0].label, "telegram:main");
    assert_eq!(listeners[0].account_id.as_deref(), Some("main"));
    assert_eq!(listeners[0].config.channels.telegram.active.token, "tg-main");
    assert_eq!(listeners[0].config.channels.telegram.default_account_id.as_deref(), Some("main"));
    assert_eq!(listeners[0].config.channels.telegram.accounts.len(), 1);
    assert!(listeners[0].config.channels.telegram.accounts.iter().any(|(id, _)| id == "main"));
}

#[test]
fn test_telegram_listener_configs_fallback_to_legacy_config() {
    let mut config = Config::default();
    config.channels.telegram.active.enabled = true;
    config.channels.telegram.active.token = "legacy-token".to_string();

    let listeners = telegram_listener_configs(&config);
    assert_eq!(listeners.len(), 1);
    assert_eq!(listeners[0].label, "telegram");
    assert_eq!(listeners[0].account_id, None);
    assert_eq!(listeners[0].config.channels.telegram.active.token, "legacy-token");
}

#[test]
fn test_telegram_listener_configs_skip_incomplete_enabled_accounts() {
    let mut config = Config::default();
    config.channels.telegram.active.enabled = true;
    config.channels.telegram.accounts.push((
        "broken".to_string(),
        TelegramAccountConfig {
            enabled: true,
            token: "".to_string(),
            allow_from: vec![],
            proxy: None,
        },
    ));

    let listeners = telegram_listener_configs(&config);
    assert!(listeners.is_empty());
}

#[test]
fn test_telegram_listener_configs_fallback_to_legacy_when_accounts_not_routable() {
    let mut config = Config::default();
    config.channels.telegram.active.enabled = true;
    config.channels.telegram.active.token = "legacy-token".to_string();
    config.channels.telegram.accounts.push((
        "disabled".to_string(),
        TelegramAccountConfig {
            enabled: false,
            token: "tg-disabled".to_string(),
            allow_from: vec![],
            proxy: None,
        },
    ));
    config.channels.telegram.accounts.push((
        "broken".to_string(),
        TelegramAccountConfig {
            enabled: true,
            token: "".to_string(),
            allow_from: vec![],
            proxy: None,
        },
    ));

    let listeners = telegram_listener_configs(&config);
    assert_eq!(listeners.len(), 1);
    assert_eq!(listeners[0].label, "telegram");
    assert_eq!(listeners[0].account_id, None);
    assert_eq!(listeners[0].config.channels.telegram.active.token, "legacy-token");
}

#[test]
fn test_feishu_scoped_configs_expand_enabled_accounts() {
    let mut config = Config::default();
    config.channels.feishu.active.enabled = true;
    config.channels.feishu.accounts.push((
        "office".to_string(),
        FeishuAccountConfig {
            enabled: true,
            app_id: "cli_office".to_string(),
            app_secret: "secret_office".to_string(),
            encrypt_key: "enc_office".to_string(),
            verification_token: "verify_office".to_string(),
            allow_from: vec!["u1".to_string()],
        },
    ));
    config.channels.feishu.accounts.push((
        "disabled".to_string(),
        FeishuAccountConfig {
            enabled: false,
            app_id: "cli_disabled".to_string(),
            app_secret: "secret_disabled".to_string(),
            encrypt_key: String::new(),
            verification_token: String::new(),
            allow_from: vec![],
        },
    ));

    let listeners = feishu_scoped_configs(&config);
    assert_eq!(listeners.len(), 1);
    assert_eq!(listeners[0].label, "feishu:office");
    assert_eq!(listeners[0].account_id.as_deref(), Some("office"));
    assert_eq!(listeners[0].config.channels.feishu.active.app_id, "cli_office");
    assert_eq!(listeners[0].config.channels.feishu.default_account_id.as_deref(), Some("office"));
    assert_eq!(listeners[0].config.channels.feishu.accounts.len(), 1);
}

#[test]
fn test_wecom_listener_configs_apply_account_specific_credentials() {
    let mut config = Config::default();
    config.channels.wecom.active.enabled = true;
    config.channels.wecom.accounts.push((
        "ops".to_string(),
        WeComAccountConfig {
            enabled: true,
            mode: "webhook".to_string(),
            corp_id: "corp-ops".to_string(),
            corp_secret: "secret-ops".to_string(),
            agent_id: 7,
            bot_id: String::new(),
            bot_secret: String::new(),
            callback_token: "token-ops".to_string(),
            encoding_aes_key: "aes-ops".to_string(),
            allow_from: vec!["alice".to_string()],
            poll_interval_secs: 99,
            ws_url: String::new(),
            ping_interval_secs: 30,
        },
    ));

    let listeners = wecom_listener_configs(&config);
    assert_eq!(listeners.len(), 1);
    assert_eq!(listeners[0].label, "wecom:ops");
    assert_eq!(listeners[0].account_id.as_deref(), Some("ops"));
    assert_eq!(listeners[0].config.channels.wecom.active.corp_id, "corp-ops");
    assert_eq!(listeners[0].config.channels.wecom.active.agent_id, 7);
    assert_eq!(listeners[0].config.channels.wecom.active.callback_token, "token-ops");
    assert_eq!(listeners[0].config.channels.wecom.default_account_id.as_deref(), Some("ops"));
    assert_eq!(listeners[0].config.channels.wecom.accounts.len(), 1);
}

#[test]
fn test_listener_labels_return_expanded_accounts_for_enabled_channel() {
    let mut config = Config::default();
    config.channels.telegram.active.enabled = true;
    config.channels.telegram.accounts.push((
        "main".to_string(),
        TelegramAccountConfig {
            enabled: true,
            token: "tg-main".to_string(),
            allow_from: vec![],
            proxy: None,
        },
    ));
    config.channels.telegram.accounts.push((
        "backup".to_string(),
        TelegramAccountConfig {
            enabled: true,
            token: "tg-backup".to_string(),
            allow_from: vec![],
            proxy: None,
        },
    ));

    let listeners = listener_labels(&config, "telegram");
    assert_eq!(listeners, vec!["telegram:backup".to_string(), "telegram:main".to_string()]);
}

#[test]
fn test_listener_labels_empty_for_disabled_channel() {
    let mut config = Config::default();
    config.channels.telegram.active.enabled = false;
    config.channels.telegram.active.token = "legacy-token".to_string();

    assert!(listener_labels(&config, "telegram").is_empty());
}

#[test]
fn test_telegram_account_id_matches_active_token() {
    let mut config = Config::default();
    config.channels.telegram.active.token = "tg-main".to_string();
    config.channels.telegram.accounts.push((
        "main".to_string(),
        TelegramAccountConfig {
            enabled: true,
            token: "tg-main".to_string(),
            allow_from: vec![],
            proxy: None,
        },
    ));

    assert_eq!(telegram_account_id(&config).as_deref(), Some("main"));
}

#[test]
fn test_slack_account_id_returns_none_when_multiple_accounts_do_not_match() {
    let mut config = Config::default();
    config.channels.slack.active.bot_token = "legacy".to_string();
    config.channels.slack.accounts.push((
        "a".to_string(),
        SlackAccountConfig {
            enabled: true,
            bot_token: "a-token".to_string(),
            app_token: "a-app".to_string(),
            channels: vec![],
            allow_from: vec![],
            poll_interval_secs: 3,
        },
    ));
    config.channels.slack.accounts.push((
        "b".to_string(),
        SlackAccountConfig {
            enabled: true,
            bot_token: "b-token".to_string(),
            app_token: "b-app".to_string(),
            channels: vec![],
            allow_from: vec![],
            poll_interval_secs: 3,
        },
    ));

    assert_eq!(slack_account_id(&config), None);
}

#[test]
fn test_feishu_account_id_falls_back_to_only_enabled_account() {
    let mut config = Config::default();
    config.channels.feishu.accounts.push((
        "only".to_string(),
        FeishuAccountConfig {
            enabled: true,
            app_id: "app-1".to_string(),
            app_secret: "secret-1".to_string(),
            encrypt_key: String::new(),
            verification_token: String::new(),
            allow_from: vec![],
        },
    ));

    assert_eq!(feishu_account_id(&config).as_deref(), Some("only"));
}

#[test]
fn test_wecom_account_id_matches_corp_and_agent() {
    let mut config = Config::default();
    config.channels.wecom.active.corp_id = "corp-a".to_string();
    config.channels.wecom.active.agent_id = 42;
    config.channels.wecom.accounts.push((
        "ops".to_string(),
        WeComAccountConfig {
            enabled: true,
            mode: "webhook".to_string(),
            corp_id: "corp-a".to_string(),
            corp_secret: "secret".to_string(),
            agent_id: 42,
            bot_id: String::new(),
            bot_secret: String::new(),
            callback_token: String::new(),
            encoding_aes_key: String::new(),
            allow_from: vec![],
            poll_interval_secs: 30,
            ws_url: String::new(),
            ping_interval_secs: 30,
        },
    ));

    assert_eq!(wecom_account_id(&config).as_deref(), Some("ops"));
}

#[test]
fn test_whatsapp_account_id_matches_bridge_url() {
    let mut config = Config::default();
    config.channels.whatsapp.active.bridge_url = "ws://bridge-main".to_string();
    config.channels.whatsapp.accounts.push((
        "main".to_string(),
        WhatsAppAccountConfig {
            enabled: true,
            bridge_url: "ws://bridge-main".to_string(),
            allow_from: vec![],
        },
    ));

    assert_eq!(whatsapp_account_id(&config).as_deref(), Some("main"));
}

#[test]
fn test_dingtalk_account_id_ignores_disabled_match() {
    let mut config = Config::default();
    config.channels.dingtalk.active.app_key = "app-key".to_string();
    config.channels.dingtalk.accounts.push((
        "disabled".to_string(),
        DingTalkAccountConfig {
            enabled: false,
            app_key: "app-key".to_string(),
            app_secret: "secret".to_string(),
            robot_code: String::new(),
            allow_from: vec![],
        },
    ));

    assert_eq!(dingtalk_account_id(&config), None);
}

#[test]
fn test_discord_account_id_matches_bot_token() {
    let mut config = Config::default();
    config.channels.discord.active.bot_token = "discord-main".to_string();
    config.channels.discord.accounts.push((
        "main".to_string(),
        DiscordAccountConfig {
            enabled: true,
            bot_token: "discord-main".to_string(),
            channels: vec![],
            allow_from: vec![],
        },
    ));

    assert_eq!(discord_account_id(&config).as_deref(), Some("main"));
}

#[test]
fn test_lark_account_id_matches_app_id() {
    let mut config = Config::default();
    config.channels.lark.active.app_id = "cli_123".to_string();
    config.channels.lark.accounts.push((
        "intl".to_string(),
        LarkAccountConfig {
            enabled: true,
            app_id: "cli_123".to_string(),
            app_secret: "secret".to_string(),
            encrypt_key: String::new(),
            verification_token: String::new(),
            allow_from: vec![],
        },
    ));

    assert_eq!(lark_account_id(&config).as_deref(), Some("intl"));
}

fn telegram(enabled: bool, token: &str) -> TelegramAccountConfig {
    TelegramAccountConfig {
        enabled,
        token: token.to_string(),
        allow_from: vec![],
        proxy: None,
    }
}

#[test]
fn account_in_use_is_an_enabled_one() {
    let mut config = Config::default();
    config.channels.telegram.active.token = "t".to_string();
    config.channels.telegram.accounts.push(("off".to_string(), telegram(false, "t")));
    assert_eq!(telegram_account_id(&config), None);
    config.channels.telegram.accounts.push(("on".to_string(), telegram(true, "other")));
    assert_eq!(telegram_account_id(&config).as_deref(), Some("on"));
}

#[test]
fn each_usable_account_has_a_listener() {
    let mut config = Config::default();
    config.channels.telegram.active.enabled = true;
    config.channels.telegram.accounts.push(("z".to_string(), telegram(true, "tz")));
    config.channels.telegram.accounts.push(("a".to_string(), telegram(true, "ta")));
    let listeners = telegram_listener_configs(&config);
    assert_eq!(listeners.len(), 2);
    assert_eq!(listeners[0].label, "telegram:a");
    assert_eq!(listeners[1].config.channels.telegram.active.token, "tz");
    assert!(is_external_channel_enabled(&config, "telegram"));
    assert!(!is_external_channel_enabled(&config, "slack"));
}
