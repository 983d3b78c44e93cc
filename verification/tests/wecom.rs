use aes::cipher::block_padding::{NoPadding, Pkcs7};
use aes::cipher::{BlockEncryptMut, KeyIvInit};
use base64::engine::general_purpose::STANDARD;
use base64::Engine;
use blockcell::config::{Config, WeComAccountConfig};
use blockcell::json::{object1, object2};
use blockcell::seen::SeenIds;
use blockcell::sha1::sha1_hex;
use blockcell::text_map::TextMap;
use blockcell::value::Json;
use blockcell::wecom_conn::{
    build_mixed_summary, FrameStep, LongConnEnvelope, LongConnFile, LongConnFrom, LongConnMixed,
    LongConnMixedItem, LongConnMsgBody, LongConnOutbound, RunPlan, WeComChannel,
};
use blockcell::wecom_crypto::{
    decrypt_longconn_media_bytes, decrypt_wecom_msg, extract_xml_tag, hex_nibble, open_message,
    percent_decode, verify_signature_4, DecryptError,
};
use blockcell::wecom_send::{
    build_media_body_group, build_media_body_user, check_response, choose_upload, converted_name,
    downloaded_name, ext_from_content_type, held_name, media_type_for_ext, mime_for_path,
    plan_media, plan_text, send_endpoint, split_message, text_body, token_of, uploaded_id,
    CachedToken, MediaPlan, TextPlan, TokenResponse,
};
use blockcell::wecom_webhook::{
    confirm_address, process_webhook, read_message, resolve_wecom_webhook_config,
};

#[test]
fn test_split_message_short() {
    let chunks = split_message("hello world", 2048);
    assert_eq!(chunks.len(), 1);
    assert_eq!(chunks[0], "hello world");
}

#[test]
fn test_split_message_long() {
    let line = "a".repeat(100);
    let text = (0..25).map(|_| line.clone()).collect::<Vec<_>>().join("\n");
    let chunks = split_message(&text, 2048);
    assert!(chunks.len() > 1);
    for chunk in &chunks {
        assert!(chunk.chars().count() <= 2048);
    }
}

#[test]
fn pieces_end_with_lines_or_are_full() {
    let chunks = split_message("ab\ncd\nefghijk\nl", 5);
    assert_eq!(chunks, vec!["ab\n", "cd\n", "efghi", "jk\nl"]);
    for chunk in &chunks[..chunks.len() - 1] {
        assert!(chunk.ends_with('\n') || chunk.chars().count() == 5);
    }
    assert_eq!(chunks.concat(), "ab\ncd\nefghijk\nl");
}

#[test]
fn test_split_message_chinese() {
    let text = "中".repeat(3000);
    let chunks = split_message(&text, 2048);
    assert!(chunks.len() > 1);
    for chunk in &chunks {
        assert!(
            chunk.chars().count() <= 2048,
            "chunk too long: {} chars",
            chunk.chars().count()
        );
    }
}

#[test]
fn test_token_response_deserialize() {
    let json = r#"{"errcode":0,"errmsg":"ok","access_token":"test_token","expires_in":7200}"#;
    let value: serde_json::Value = serde_json::from_str(json).unwrap();
    let resp = TokenResponse {
        errcode: value["errcode"].as_i64().unwrap() as i32,
        errmsg: value["errmsg"].as_str().unwrap().to_string(),
        access_token: value["access_token"].as_str().map(|s| s.to_string()),
        expires_in: value["expires_in"].as_i64(),
    };
    assert_eq!(resp.errcode, 0);
    assert_eq!(resp.access_token.as_deref(), Some("test_token"));
    assert_eq!(token_of(&resp, "WeCom token").ok().as_deref(), Some("test_token"));
}

#[test]
fn test_wecom_response_error() {
    let json = r#"{"errcode":40014,"errmsg":"invalid access_token"}"#;
    let value: serde_json::Value = serde_json::from_str(json).unwrap();
    let errcode = value["errcode"].as_i64().unwrap() as i32;
    assert_eq!(errcode, 40014);
    let error = check_response("WeCom send", errcode, value["errmsg"].as_str().unwrap());
    assert_eq!(
        error.err().unwrap().message(),
        "WeCom send error 40014: invalid access_token"
    );
}

#[test]
fn test_sha1_known_value() {
    let result = sha1_hex(b"abc");
    assert_eq!(result, "a9993e364706816aba3e25717850c26c9cd0d89d");
}

#[test]
fn hashes_of_other_lengths() {
    assert_eq!(sha1_hex(b""), "da39a3ee5e6b4b0d3255bfef95601890afd80709");
    assert_eq!(
        sha1_hex(b"abcdbcdecdefdefgefghfghighijhijkijkljklmklmnlmnomnopnopq"),
        "84983e441c3bd26ebaae4aa1f95129e5e54670f1"
    );
}

fn account(corp: &str, secret: &str, agent: i64, token: &str, key: &str) -> WeComAccountConfig {
    WeComAccountConfig {
        enabled: true,
        mode: "webhook".to_string(),
        corp_id: corp.to_string(),
        corp_secret: secret.to_string(),
        agent_id: agent,
        bot_id: String::new(),
        bot_secret: String::new(),
        callback_token: token.to_string(),
        encoding_aes_key: key.to_string(),
        allow_from: vec![],
        poll_interval_secs: 30,
        ws_url: String::new(),
        ping_interval_secs: 30,
    }
}

fn two_accounts() -> Config {
    let mut config = Config::default();
    config.channels.wecom.active.enabled = true;
    config
        .channels
        .wecom
        .accounts
        .push(("default".to_string(), account("corp-a", "secret-a", 1, "token-a", "aes-a")));
    config
        .channels
        .wecom
        .accounts
        .push(("ops".to_string(), account("corp-b", "secret-b", 2, "token-b", "aes-b")));
    config
}

fn signature(parts: &[&str]) -> String {
    let mut parts = parts.to_vec();
    parts.sort_unstable();
    sha1_hex(parts.join("").as_bytes())
}

fn signed_query(token: &str, payload: &str) -> TextMap {
    let mut query = TextMap::new();
    query.insert("timestamp", "1710000000");
    query.insert("nonce", "nonce-1");
    query.insert("msg_signature", &signature(&[token, "1710000000", "nonce-1", payload]));
    query
}

#[test]
fn test_resolve_wecom_webhook_config_matches_signed_account() {
    let config = two_accounts();
    let encrypt = "ciphertext";
    let query = signed_query("token-b", encrypt);
    let body = format!("<xml><Encrypt>{}</Encrypt></xml>", encrypt);

    let resolved = resolve_wecom_webhook_config(&config, "POST", &query, &body);
    assert_eq!(resolved.channels.wecom.default_account_id.as_deref(), Some("ops"));
    assert_eq!(resolved.channels.wecom.active.callback_token, "token-b");
}

#[test]
fn test_resolve_wecom_webhook_config_keeps_legacy_when_ambiguous() {
    let mut config = two_accounts();
    config.channels.wecom.active.corp_id = "legacy-corp".to_string();

    let resolved =
        resolve_wecom_webhook_config(&config, "POST", &TextMap::new(), "<xml></xml>");
    assert_eq!(resolved.channels.wecom.active.corp_id, "legacy-corp");
    assert_eq!(resolved.channels.wecom.default_account_id, None);
}

#[test]
fn test_verify_signature() {
    let token = "test";
    let timestamp = "1409735669";
    let nonce = "xxxxxx";
    let expected = signature(&[token, timestamp, nonce]);
    assert!(WeComChannel::verify_signature(token, timestamp, nonce, &expected));
    assert!(!WeComChannel::verify_signature("other", timestamp, nonce, &expected));
    assert!(!verify_signature_4(token, timestamp, nonce, "x", &expected));
}

#[test]
fn test_build_mixed_summary() {
    let mixed = LongConnMixed {
        items: vec![
            LongConnMixedItem {
                item_type: "text".to_string(),
                content: Some("你好".to_string()),
            },
            LongConnMixedItem { item_type: "image".to_string(), content: None },
            LongConnMixedItem { item_type: "file".to_string(), content: None },
        ],
    };
    assert_eq!(build_mixed_summary(&mixed), "你好 [图片] [文件]");
}

#[test]
fn test_decrypt_longconn_media_bytes_rejects_short_key() {
    let err = decrypt_longconn_media_bytes(b"abc", "short").err().unwrap();
    assert!(err.message().contains("aeskey"));
}

fn text_message(user: &str) -> LongConnMsgBody {
    LongConnMsgBody {
        msgid: "m1".to_string(),
        aibotid: "bot1".to_string(),
        chatid: "chat1".to_string(),
        chattype: "single".to_string(),
        from: Some(LongConnFrom {
            userid: user.to_string(),
            nickname: Some("U1".to_string()),
        }),
        msgtype: "text".to_string(),
        text: Some("hello".to_string()),
        image: None,
        voice: None,
        recognition: None,
        file: None,
        filename: None,
        mixed: None,
    }
}

#[test]
fn test_build_inbound_from_long_connection_text() {
    let ch = WeComChannel::new(Config::default());
    let mut seen = SeenIds::new();
    let body = text_message("u1");
    let said = ch.read_body(&body, &mut seen).unwrap();
    let inbound = ch.inbound(&body, &said, None);
    assert_eq!(inbound.sender_id, "u1");
    assert_eq!(inbound.chat_id, "chat1");
    assert_eq!(inbound.content, "hello");
    assert_eq!(inbound.metadata.str_at("mode"), Some("long_connection"));
}

#[test]
fn test_build_inbound_from_long_connection_allowlist() {
    let mut config = Config::default();
    config.channels.wecom.active.allow_from = vec!["allowed".to_string()];
    let ch = WeComChannel::new(config);
    let mut seen = SeenIds::new();
    assert!(ch.read_body(&text_message("denied"), &mut seen).is_none());
    assert!(ch.read_body(&text_message("allowed"), &mut seen).is_some());
}

#[test]
fn held_message_is_passed_on_once() {
    let ch = WeComChannel::new(Config::default());
    let mut seen = SeenIds::new();
    assert!(ch.read_body(&text_message("u1"), &mut seen).is_some());
    assert!(ch.read_body(&text_message("u1"), &mut seen).is_none());
    assert!(seen.contains("m1"));
    assert!(ch.read_body(&text_message("@app"), &mut SeenIds::new()).is_none());
}

#[test]
fn held_files_and_voices_are_described() {
    let ch = WeComChannel::new(Config::default());
    let mut body = text_message("u1");
    body.msgtype = "voice".to_string();
    body.recognition = Some(" hi ".to_string());
    body.voice =
        Some(LongConnFile { url: "http://v".to_string(), aeskey: "k".to_string() });
    let said = ch.read_body(&body, &mut SeenIds::new()).unwrap();
    assert_eq!(said.content, "用户发来一条语音，企业微信转写文本：hi");
    assert_eq!(said.download.as_ref().unwrap().ext.as_deref(), Some("amr"));
    assert!(!said.pending);
    body.msgtype = "file".to_string();
    body.file = Some(LongConnFile { url: "http://f".to_string(), aeskey: "k".to_string() });
    body.filename = Some("a.pdf".to_string());
    let said = ch.read_body(&body, &mut SeenIds::new()).unwrap();
    assert!(said.content.contains("「a.pdf」"));
    assert_eq!(said.download.as_ref().unwrap().ext.as_deref(), Some("pdf"));
    let inbound = ch.inbound_at(&body, &said, Some("/m/a.pdf".to_string()), 7);
    assert_eq!(inbound.media, vec!["/m/a.pdf"]);
    assert_eq!(inbound.timestamp_ms, 7);
    assert_eq!(inbound.metadata.get("media_pending_intent").unwrap().as_bool(), Some(true));
    assert_eq!(inbound.metadata.str_at("sender_nick"), Some("U1"));
    body.msgtype = "location".to_string();
    assert!(ch.read_body(&body, &mut SeenIds::new()).is_none());
}

fn envelope(cmd: &str, req_id: Option<&str>, body: Json) -> LongConnEnvelope {
    LongConnEnvelope {
        cmd: cmd.to_string(),
        req_id: req_id.map(|s| s.to_string()),
        body,
        errcode: None,
        errmsg: None,
    }
}

fn text_reply(chat: &str) -> LongConnOutbound {
    LongConnOutbound::Text { chat_id: chat.to_string(), content: "hi".to_string() }
}

#[test]
fn answers_name_the_request() {
    let mut ch = WeComChannel::new(Config::default());
    let body = object2(
        "chatid",
        Json::text(""),
        "from",
        object1("userid", Json::text("u1")),
    );
    match ch.handle_frame(&envelope("aibot_msg_callback", Some("r1"), body)).ok().unwrap() {
        FrameStep::Message(Some(ack)) => assert_eq!(
            ack,
            r#"{"errcode":0,"errmsg":"ok","headers":{"req_id":"r1"}}"#
        ),
        _ => panic!("a message was expected"),
    }
    assert_eq!(
        ch.answer_at(&text_reply("u1"), 5, 6),
        r#"{"body":{"msgtype":"stream","stream":{"content":"hi","finish":true,"id":"blockcell-s-6"}},"cmd":"aibot_respond_msg","headers":{"req_id":"r1"}}"#
    );
    assert!(ch.answer_at(&text_reply("u2"), 5, 6).contains("blockcell-out-5"));
    assert!(ch.answer(&text_reply("u1")).contains("\"req_id\":\"r1\""));
    let media = LongConnOutbound::Media {
        chat_id: "u1".to_string(),
        media_id: "m".to_string(),
        media_type: "video".to_string(),
        filename: "f.mp4".to_string(),
    };
    assert_eq!(
        ch.answer_at(&media, 5, 6),
        r#"{"body":{"msgtype":"video","video":{"description":"","media_id":"m","title":"f.mp4"}},"cmd":"aibot_respond_msg","headers":{"req_id":"r1"}}"#
    );
}

#[test]
fn frames_are_answered() {
    let mut ch = WeComChannel::new(Config::default());
    let ping = ch.handle_frame(&envelope("ping", None, Json::Null)).ok().unwrap();
    assert!(matches!(ping, FrameStep::Send(text) if text == "{\"cmd\":\"pong\"}"));
    let event = ch.handle_frame(&envelope("aibot_event_callback", None, Json::Null)).ok().unwrap();
    assert!(matches!(event, FrameStep::Nothing));
    let other = ch.handle_frame(&envelope("what", Some("r"), Json::Null)).ok().unwrap();
    assert!(matches!(other, FrameStep::Nothing));
    let mut failed = envelope("aibot_subscribe", None, Json::Null);
    failed.errcode = Some(40001);
    let error = ch.handle_frame(&failed).err().unwrap();
    assert_eq!(error.message(), "WeCom subscribe error 40001: unknown");
    failed.errcode = Some(0);
    assert!(matches!(ch.handle_frame(&failed).ok().unwrap(), FrameStep::Nothing));
}

#[test]
fn channel_runs_as_its_mode_says() {
    let mut config = Config::default();
    assert!(matches!(WeComChannel::new(config.clone()).run_plan(), RunPlan::Disabled));
    config.channels.wecom.active.enabled = true;
    assert!(matches!(WeComChannel::new(config.clone()).run_plan(), RunPlan::NoCorpId));
    config.channels.wecom.active.corp_id = "c".to_string();
    assert!(matches!(WeComChannel::new(config.clone()).run_plan(), RunPlan::NoCorpSecret));
    config.channels.wecom.active.corp_secret = "s".to_string();
    assert!(matches!(WeComChannel::new(config.clone()).run_plan(), RunPlan::Poll));
    config.channels.wecom.active.mode = " Stream ".to_string();
    let channel = WeComChannel::new(config.clone());
    assert!(matches!(channel.run_plan(), RunPlan::NoBot));
    assert_eq!(
        channel.subscribe().err().unwrap().message(),
        "WeCom long_connection requires bot_id and bot_secret"
    );
    config.channels.wecom.active.bot_id = " b ".to_string();
    config.channels.wecom.active.bot_secret = "s".to_string();
    config.channels.wecom.active.poll_interval_secs = 1;
    config.channels.wecom.active.ping_interval_secs = 99;
    let channel = WeComChannel::new(config.clone());
    assert!(matches!(channel.run_plan(), RunPlan::Hold));
    assert_eq!(
        channel.subscribe_at(9).ok().as_deref(),
        Some(r#"{"cmd":"aibot_subscribe","headers":{"req_id":"blockcell-9"},"body":{"bot_id":"b","secret":"s"}}"#)
    );
    assert_eq!(channel.poll_interval_secs(), 5);
    assert_eq!(channel.ping_interval_secs(), 99);
    assert_eq!(
        channel.connection_url().ok().as_deref(),
        Some("wss://openws.work.weixin.qq.com/")
    );
    config.channels.wecom.active.ws_url = "not a url".to_string();
    assert_eq!(
        WeComChannel::new(config).connection_url().err().unwrap().message(),
        "Invalid WeCom ws_url: relative URL without a base"
    );
}

#[test]
fn polled_texts_are_passed_on() {
    let ch = WeComChannel::new(Config::default());
    let message = Json::Object(vec![
        ("from".to_string(), Json::text("u1")),
        ("msgtype".to_string(), Json::text("text")),
        ("text".to_string(), object1("content", Json::text(" hi "))),
    ]);
    let inbound = ch.process_message_json(&message, 3).unwrap();
    assert_eq!(inbound.content, "hi");
    assert_eq!(inbound.chat_id, "u1");
    assert!(inbound.metadata.get("msg_id").unwrap().is_null());
    assert!(ch.process_message_json(&Json::Null, 3).is_none());
}

// ── Encryption ────────────────────────────────────────────────────────────────

fn key() -> Vec<u8> {
    (0..32u8).collect()
}

fn encoding_key() -> String {
    STANDARD.encode(key()).trim_end_matches('=').to_string()
}

fn seal(message: &str) -> String {
    let mut plain = vec![7u8; 16];
    plain.extend((message.len() as u32).to_be_bytes());
    plain.extend(message.as_bytes());
    plain.extend(b"corp");
    let pad = 32 - plain.len() % 32;
    plain.extend(std::iter::repeat(pad as u8).take(pad));
    STANDARD.encode(encrypt_blocks(plain))
}

fn encrypt_blocks(mut plain: Vec<u8>) -> Vec<u8> {
    let key = key();
    let len = plain.len();
    cbc::Encryptor::<aes::Aes256>::new_from_slices(&key, &key[..16])
        .unwrap()
        .encrypt_padded_mut::<NoPadding>(&mut plain, len)
        .unwrap()
        .to_vec()
}

#[test]
fn sealed_message_opens() {
    assert_eq!(decrypt_wecom_msg(&seal("你好"), &encoding_key()).ok().as_deref(), Some("你好"));
    assert!(matches!(
        decrypt_wecom_msg("AAAA", ""),
        Err(DecryptError::Message(text)) if text == "encodingAesKey not configured"
    ));
    assert!(matches!(
        decrypt_wecom_msg("AAAA", "abcde"),
        Err(DecryptError::Message(text)) if text.starts_with("Invalid EncodingAESKey length: 5")
    ));
    assert!(matches!(
        decrypt_wecom_msg("!", &encoding_key()),
        Err(DecryptError::Message(text)) if text.starts_with("Failed to decode msg_encrypt")
    ));
    assert!(matches!(
        decrypt_wecom_msg("AAAA", &encoding_key()),
        Err(DecryptError::Message(text)) if text == "AES decrypt failed: Unpad Error"
    ));
    let mut block = vec![0u8; 16];
    block[15] = 20;
    let message = STANDARD.encode(encrypt_blocks(block));
    assert!(matches!(
        decrypt_wecom_msg(&message, &encoding_key()),
        Err(DecryptError::PaddingTooLong)
    ));
}

#[test]
fn opened_bytes_are_checked() {
    assert_eq!(open_message(&[]).err().as_deref(), Some("AES decrypt: empty output"));
    assert_eq!(
        open_message(&[0]).err().as_deref(),
        Some("AES decrypt: invalid PKCS7 pad value 0")
    );
    assert_eq!(
        open_message(&[9, 1]).err().as_deref(),
        Some("Decrypted data too short: 1 bytes")
    );
    let mut bytes = vec![0u8; 20];
    bytes[19] = 5;
    bytes.push(1);
    assert_eq!(
        open_message(&bytes).err().as_deref(),
        Some("msg_len 5 exceeds plaintext length 20")
    );
    let mut bytes = vec![0u8; 20];
    bytes[19] = 1;
    bytes.extend([0xff, 1]);
    assert!(open_message(&bytes).err().unwrap().starts_with("UTF-8 decode failed: "));
}

#[test]
fn media_is_decrypted() {
    let key = key();
    let mut buf = b"hello".to_vec();
    buf.resize(16, 0);
    let data = cbc::Encryptor::<aes::Aes256>::new_from_slices(&key, &key[..16])
        .unwrap()
        .encrypt_padded_mut::<Pkcs7>(&mut buf, 5)
        .unwrap()
        .to_vec();
    let plain = decrypt_longconn_media_bytes(&data, &STANDARD.encode(&key)).ok().unwrap();
    assert_eq!(plain, b"hello");
    let plain = decrypt_longconn_media_bytes(&data, &encoding_key()).ok().unwrap();
    assert_eq!(plain, b"hello");
    assert!(decrypt_longconn_media_bytes(&data[1..], &encoding_key()).is_err());
}

// ── The webhook ───────────────────────────────────────────────────────────────

fn one_account() -> Config {
    let mut config = Config::default();
    config.channels.wecom.active = account("corp", "secret", 1, "token", &encoding_key());
    config
}

fn post_body(kind: &str, id: &str, rest: &str) -> String {
    format!(
        "<xml><FromUserName><![CDATA[alice]]></FromUserName><MsgType><![CDATA[{}]]></MsgType><MsgId>{}</MsgId>{}</xml>",
        kind, id, rest
    )
}

fn post(config: &Config, body: &str, seen: &mut SeenIds) -> blockcell::wecom_webhook::Handled {
    let encrypted = seal(body);
    let query = signed_query("token", &encrypted);
    let sent = format!("<xml><Encrypt><![CDATA[{}]]></Encrypt></xml>", encrypted);
    process_webhook(config, "POST", &query, &sent, seen)
}

#[test]
fn signed_message_is_passed_on_once() {
    let config = one_account();
    let mut seen = SeenIds::new();
    let body = post_body("text", "m1", "<Content><![CDATA[ hi ]]></Content>");
    let handled = post(&config, &body, &mut seen);
    assert_eq!((handled.status, handled.answer.as_str()), (200, "success"));
    let message = handled.message.unwrap();
    let inbound = message.inbound(None);
    assert_eq!(inbound.content, "hi");
    assert_eq!(inbound.sender_id, "alice");
    assert_eq!(inbound.metadata.str_at("msg_id"), Some("m1"));
    assert_eq!(inbound.metadata.str_at("mode"), Some("webhook"));
    assert!(post(&config, &body, &mut seen).message.is_none());
}

#[test]
fn unsigned_message_is_refused() {
    let config = one_account();
    let mut seen = SeenIds::new();
    let query = signed_query("other", "x");
    let handled =
        process_webhook(&config, "POST", &query, "<xml><Encrypt>x</Encrypt></xml>", &mut seen);
    assert_eq!(
        (handled.status, handled.answer.as_str()),
        (403, "Forbidden: invalid signature")
    );
    assert!(handled.message.is_none());
    let handled = process_webhook(&config, "GET", &query, "", &mut seen);
    assert_eq!(handled.status, 403);
    let handled = process_webhook(&config, "GET", &TextMap::new(), "", &mut seen);
    assert_eq!((handled.status, handled.answer.as_str()), (200, "ok"));
    let handled = process_webhook(&config, "POST", &query, "", &mut seen);
    assert_eq!((handled.status, handled.answer.as_str()), (200, "success"));
}

#[test]
fn address_is_confirmed() {
    let config = one_account();
    let encrypted = seal("echo");
    let mut query = signed_query("token", &encrypted);
    let escaped = encrypted.replace('%', "%25").replace('+', "%2B").replace('/', "%2F").replace('=', "%3D");
    query.insert("echostr", &escaped);
    let handled = process_webhook(&config, "GET", &query, "", &mut SeenIds::new());
    assert_eq!((handled.status, handled.answer.as_str()), (200, "echo"));
    assert_eq!(
        confirm_address(Err(DecryptError::PaddingTooLong)),
        (500, "decrypt error".to_string())
    );
}

#[test]
fn kinds_of_messages_are_read() {
    let config = one_account();
    let image = post_body("image", "1", "<PicUrl>http://p</PicUrl><MediaId>M</MediaId>");
    let message = read_message(&config, &image, &mut SeenIds::new()).unwrap();
    assert_eq!(message.said.download.as_ref().unwrap().media_type, "image");
    assert_eq!(message.media(None), vec!["http://p"]);
    assert_eq!(message.media(Some("/m/1.jpg".to_string())), vec!["/m/1.jpg"]);
    assert!(message.acknowledged().is_none());
    let voice = post_body("voice", "2", "<MediaId>M</MediaId>");
    let message = read_message(&config, &voice, &mut SeenIds::new()).unwrap();
    assert_eq!(message.said.download.as_ref().unwrap().ext.as_deref(), Some("amr"));
    assert_eq!(message.acknowledged(), Some("🎤 语音已收到，正在转写..."));
    assert!(message.downloads_unscoped());
    let file = post_body("file", "3", "<FileName>a.b.pdf</FileName><MediaId>M</MediaId>");
    let message = read_message(&config, &file, &mut SeenIds::new()).unwrap();
    assert_eq!(message.said.download.as_ref().unwrap().ext.as_deref(), Some("pdf"));
    assert!(message.said.content.contains("「a.b.pdf」"));
    let place = post_body("location", "4", "<Location_X>1</Location_X><Location_Y>2</Location_Y>");
    let message = read_message(&config, &place, &mut SeenIds::new()).unwrap();
    assert_eq!(message.said.content, "[位置] 纬度:1 经度:2");
    let link = post_body("link", "5", "<Title>T</Title><Url>U</Url>");
    let message = read_message(&config, &link, &mut SeenIds::new()).unwrap();
    assert_eq!(message.said.content, "[链接] T U");
    let video = post_body("shortvideo", "6", "");
    let message = read_message(&config, &video, &mut SeenIds::new()).unwrap();
    assert!(message.said.download.is_none());
    assert!(message.said.pending);
    assert!(read_message(&config, &post_body("event", "7", ""), &mut SeenIds::new()).is_none());
    let own = "<xml><FromUserName>@app</FromUserName><MsgType>text</MsgType><Content>x</Content></xml>";
    assert!(read_message(&config, own, &mut SeenIds::new()).is_none());
}

#[test]
fn oldest_seen_id_is_forgotten_when_full() {
    let mut seen = SeenIds::new();
    for i in 0..512 {
        assert!(seen.take_in(&i.to_string()));
    }
    assert!(!seen.take_in("0"));
    assert!(seen.take_in("512"));
    assert!(!seen.contains("0"));
    for i in 1..513 {
        assert!(!seen.take_in(&i.to_string()));
    }
    assert!(seen.take_in("0"));
    assert!(!seen.contains("1"));
    assert!(seen.contains("2"));
}

#[test]
fn id_stays_known_until_newer_ones_fill_up() {
    let mut seen = SeenIds::new();
    assert!(seen.take_in("a"));
    for i in 0..511 {
        assert!(seen.take_in(&i.to_string()));
        assert!(!seen.take_in("a"));
    }
    assert!(seen.take_in("511"));
    assert!(!seen.contains("a"));
}

#[test]
fn newest_message_is_not_passed_on_again_when_full() {
    let config = one_account();
    let mut seen = SeenIds::new();
    for i in 0..511 {
        assert!(seen.take_in(&i.to_string()));
    }
    let said = "<Content><![CDATA[hi]]></Content>";
    let a = post_body("text", "A", said);
    assert!(post(&config, &a, &mut seen).message.is_some());
    let b = post(&config, &post_body("text", "B", said), &mut seen);
    assert!(b.message.is_some());
    let again = post(&config, &a, &mut seen);
    assert_eq!((again.status, again.answer.as_str()), (200, "success"));
    assert!(again.message.is_none());
    assert!(!seen.contains("0"));
    assert!(seen.contains("1"));
}

#[test]
fn held_message_is_not_passed_on_again_when_full() {
    let ch = WeComChannel::new(Config::default());
    let mut seen = SeenIds::new();
    for i in 0..511 {
        assert!(seen.take_in(&i.to_string()));
    }
    assert!(ch.read_body(&text_message("u1"), &mut seen).is_some());
    assert!(seen.take_in("later"));
    assert!(ch.read_body(&text_message("u1"), &mut seen).is_none());
}

#[test]
fn elements_and_escapes_are_read() {
    assert_eq!(extract_xml_tag("<a>x</a>", "a").as_deref(), Some("x"));
    assert_eq!(extract_xml_tag("<a><![CDATA[x]]></a>", "a").as_deref(), Some("x"));
    assert_eq!(extract_xml_tag("<a>x", "a"), None);
    assert_eq!(percent_decode("a%2Bb+c%"), "a+b+c%");
    assert_eq!(percent_decode("%zz%41"), "%zzA");
    assert_eq!(hex_nibble(b'f'), Some(15));
    assert_eq!(hex_nibble(b'g'), None);
}

// ── Sending ───────────────────────────────────────────────────────────────────

#[test]
fn pieces_hold_the_whole_text() {
    let text = "one\ntwo\nthree four\n";
    let pieces = split_message(text, 6);
    assert_eq!(pieces, vec!["one\n", "two\n", "three ", "four\n"]);
    assert_eq!(pieces.concat(), text);
    assert_eq!(split_message("", 5), vec![""]);
}

#[test]
fn bodies_name_the_receiver() {
    assert_eq!(send_endpoint("wr1"), "https://qyapi.weixin.qq.com/cgi-bin/appchat/send");
    assert_eq!(send_endpoint("u1"), "https://qyapi.weixin.qq.com/cgi-bin/message/send");
    let body = text_body("u1", -3, "hi");
    assert_eq!(body.str_at("touser"), Some("u1"));
    assert!(matches!(body.get("agentid"), Some(Json::Number(n)) if n == "-3"));
    assert_eq!(body.get("text").unwrap().str_at("content"), Some("hi"));
    let body = text_body("WR1", 1, "hi");
    assert_eq!(body.str_at("chatid"), Some("WR1"));
    assert!(body.get("agentid").is_none());
    let body = build_media_body_user("u1", 1, "video", "m");
    assert_eq!(body.get("video").unwrap().str_at("title"), Some(""));
    let body = build_media_body_group("wr1", "other", "m");
    assert_eq!(body.str_at("msgtype"), Some("file"));
    assert_eq!(body.get("file").unwrap().str_at("media_id"), Some("m"));
}

#[test]
fn files_are_typed_by_their_names() {
    assert_eq!(media_type_for_ext("png"), "image");
    assert_eq!(media_type_for_ext("speex"), "voice");
    assert_eq!(media_type_for_ext("mov"), "video");
    assert_eq!(media_type_for_ext("ogg"), "file");
    assert_eq!(mime_for_path("/a/b.DOCX"), "application/vnd.openxmlformats-officedocument.wordprocessingml.document");
    assert_eq!(mime_for_path("/a/b"), "application/octet-stream");
    assert_eq!(ext_from_content_type("image/png", "image"), "png");
    assert_eq!(ext_from_content_type("", "voice"), "amr");
    assert_eq!(ext_from_content_type("", "file"), "bin");
    assert_eq!(downloaded_name("MEDIA1", "amr"), "wecom_MEDIA1.amr");
    assert_eq!(downloaded_name("0123456789abcdefXYZ", "jpg"), "wecom_0123456789abcdefXYZ.jpg");
    assert_eq!(downloaded_name("一二三四五六", "bin"), "wecom_一二三四五六.bin");
    assert_eq!(held_name("voice", 12, "amr"), "wecom_long_voice_12.amr");
    assert_eq!(converted_name("/a/song.mp3", 5), "song_5.amr");
}

#[test]
fn long_voice_goes_out_as_a_file() {
    assert_eq!(choose_upload("voice", "/a.mp3", "/a.amr", true), ("/a.mp3".to_string(), "file"));
    assert_eq!(choose_upload("voice", "/a.mp3", "/a.amr", false), ("/a.amr".to_string(), "voice"));
    assert_eq!(choose_upload("image", "/a.png", "", false), ("/a.png".to_string(), "image"));
}

#[test]
fn sending_goes_by_the_mode() {
    let mut settings = account("corp", "secret", 1, "", "");
    match plan_media(&settings, "/a/b.PNG") {
        MediaPlan::Request { media_type } => assert_eq!(media_type, "image"),
        _ => panic!("a request was expected"),
    }
    assert!(matches!(plan_text(&settings, "x"), TextPlan::Request { .. }));
    settings.mode = "long-connection".to_string();
    settings.bot_id = " b ".to_string();
    match plan_media(&settings, "/a/b.ogg") {
        MediaPlan::Held { file_name, media_type, can_upload, label } => {
            assert_eq!(file_name, "b.ogg");
            assert_eq!(media_type, "file");
            assert!(can_upload);
            assert_eq!(label, "[语音: b.ogg]");
        }
        _ => panic!("the connection was expected"),
    }
    match plan_text(&settings, "x") {
        TextPlan::Held { bot_id, pieces } => {
            assert_eq!(bot_id, "b");
            assert_eq!(pieces, vec!["x"]);
        }
        _ => panic!("the connection was expected"),
    }
}

#[test]
fn tokens_are_kept_until_shortly_before_their_end() {
    let mut token = CachedToken::new();
    assert!(!token.is_valid());
    let response = TokenResponse {
        errcode: 0,
        errmsg: "ok".to_string(),
        access_token: Some("t".to_string()),
        expires_in: None,
    };
    assert_eq!(token.store(&response, 1000).ok().as_deref(), Some("t"));
    assert_eq!(token.expires_at, 8200);
    assert!(token.is_valid_at(7899));
    assert!(!token.is_valid_at(7900));
    let failed = TokenResponse {
        errcode: 40013,
        errmsg: "invalid corpid".to_string(),
        access_token: None,
        expires_in: None,
    };
    assert_eq!(
        token.store(&failed, 1000).err().unwrap().message(),
        "WeCom gettoken error 40013: invalid corpid"
    );
    assert_eq!(token.token, "t");
    let empty = TokenResponse {
        errcode: 0,
        errmsg: String::new(),
        access_token: None,
        expires_in: None,
    };
    assert_eq!(
        token_of(&empty, "WeCom token").err().unwrap().message(),
        "No access_token in WeCom response"
    );
    assert_eq!(
        uploaded_id(0, "ok", None).err().unwrap().message(),
        "WeCom media/upload: no media_id in response"
    );
}

#[test]
fn element_gives_back_what_was_put_into_it() {
    let xml = "<Content>a <b> ]]> c</Content><MsgId>1</MsgId>";
    assert_eq!(extract_xml_tag(xml, "Content").as_deref(), Some("a <b> ]]> c"));
    let framed = "<Content><![CDATA[a ]] b]]></Content>";
    assert_eq!(extract_xml_tag(framed, "Content").as_deref(), Some("a ]] b"));
}
