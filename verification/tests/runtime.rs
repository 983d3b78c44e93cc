use blockcell::access::{policy_source, Access, AuthorizedDirs, PathFacts, PolicyAction, PolicySource};
use blockcell::delivery::{
    cron_deliver_target, final_deliveries, image_delivery, skills_updated_event, Delivery,
};
use blockcell::events::{
    EventPriority, EventScope, MainSession, NotificationRequest, SessionSummary,
};
use blockcell::call_run::{CallAction, CallEvent, CallRun, CallStage};
use blockcell::gate::{check_call, is_skill_write, Gate, Learning, ToolOutcome};
use blockcell::json::{object1, object2};
use blockcell::media::{
    encode_image_to_base64, is_image_path, is_media_path, pick_mentioned_image, MentionedFile,
};
use blockcell::messages::{contact_of, extract_reply_metadata, InboundMessage};
use blockcell::mid_loop::session_summary;
use blockcell::paths::{
    is_path_within_base, is_sensitive_filename, normalize_path_for_check, parts_of_path,
    resolve_path,
};
use blockcell::replies::{
    extract_urls_from_search_result, is_thin_search_result,
    should_supplement_tool_schema, strip_fake_tool_calls, tool_result_indicates_error,
};
use blockcell::reply::{retry_delay_ms, Reply};
use blockcell::routing::{route_message, Route};
use blockcell::safety::{
    is_dangerous_exec_command, mentioned_images, user_explicitly_confirms_dangerous_op,
    user_wants_send_image,
};
use blockcell::scripts::{choose_python, python_result, script_result};
use blockcell::skills::{
    infer_skill_script_kind, ResolvedSkillScriptKind, SkillDecisionEngine, SkillFiles,
    SkillScriptKind,
};
use blockcell::subagent::{parse_skill_task, subagent_inbound, subagent_tool_registry};
use blockcell::tasks::{clamp_secs, message_label, ActiveTasks, CapabilityCooldown};
use blockcell::toolset::{
    build_subagent_metadata, in_scope, load_disabled_toggles, resolve_effective_tool_names,
    resolve_routed_agent_id,
};
use blockcell::turn::{ResponseStep, Round, RoundEnd, Turn};
use blockcell::types::{ChatMessage, LLMResponse, StreamChunk, ToolCallRequest};
use blockcell::value::Json;
use std::collections::HashMap;

fn response(content: Option<&str>, tool_calls: Vec<ToolCallRequest>) -> LLMResponse {
    LLMResponse {
        content: content.map(|s| s.to_string()),
        reasoning_content: None,
        tool_calls,
        finish_reason: "stop".to_string(),
        usage: Json::Null,
    }
}

fn inbound(channel: &str, chat_id: &str, content: &str, metadata: Json) -> InboundMessage {
    InboundMessage {
        channel: channel.to_string(),
        account_id: None,
        sender_id: "user".to_string(),
        chat_id: chat_id.to_string(),
        content: content.to_string(),
        media: vec![],
        metadata,
        timestamp_ms: 0,
    }
}

fn texts(list: &[&str]) -> Vec<String> {
    list.iter().map(|s| s.to_string()).collect()
}

fn call(name: &str, arguments: Json) -> ToolCallRequest {
    ToolCallRequest {
        id: "c1".to_string(),
        name: name.to_string(),
        arguments,
        thought_signature: None,
    }
}

#[test]
fn test_path_within_base_allows_normal_child_path() {
    let base = "/tmp/workspace";
    let candidate = "/tmp/workspace/skills/new/SKILL.py";
    assert!(is_path_within_base(base, None, candidate, None));
}

#[test]
fn test_path_within_base_blocks_nonexistent_traversal() {
    let base = "/tmp/workspace";
    let candidate = "/tmp/workspace/../../etc/passwd";
    assert!(!is_path_within_base(base, None, candidate, None));
}

#[test]
fn test_tool_result_indicates_error_for_json_error_field() {
    let result = r#"{"error":"Permission denied: blocked"}"#;
    assert!(tool_result_indicates_error(result));
}

#[test]
fn test_tool_result_indicates_error_does_not_use_failed_substring() {
    let result = "Task succeeded, previous attempt failed but recovered.";
    assert!(!tool_result_indicates_error(result));
}

#[test]
fn test_should_supplement_tool_schema_for_validation_error() {
    let result = "Error: Validation error: Missing required parameter: path";
    assert!(should_supplement_tool_schema(result));
}

#[test]
fn test_should_supplement_tool_schema_for_config_error() {
    let result = "Error: Config error: 'enabled' (boolean) is required for 'set' action";
    assert!(should_supplement_tool_schema(result));
}

#[test]
fn test_should_supplement_tool_schema_ignores_permission_denied() {
    let result = "Error: Tool error: Permission denied: path blocked";
    assert!(!should_supplement_tool_schema(result));
}

#[test]
fn test_resolve_routed_agent_id_from_metadata() {
    let metadata = object1("route_agent_id", Json::text("ops"));

    assert_eq!(resolve_routed_agent_id(&metadata).as_deref(), Some("ops"));
    assert_eq!(resolve_routed_agent_id(&Json::Null), None);
}

#[test]
fn test_subagent_metadata_preserves_route_agent_id() {
    let metadata = build_subagent_metadata(Some("ops"));

    assert_eq!(metadata.str_at("route_agent_id"), Some("ops"));
}

#[test]
fn test_active_tool_names_for_skill_include_kernel_and_declared_tools() {
    let core = texts(&[
        "memory_query",
        "memory_upsert",
        "memory_forget",
        "spawn",
        "list_tasks",
        "list_skills",
        "toggle_manage",
    ]);
    let available = texts(&[
        "memory_query",
        "memory_upsert",
        "memory_forget",
        "spawn",
        "list_tasks",
        "list_skills",
        "toggle_manage",
        "finance_api",
    ]);

    let tool_names =
        resolve_effective_tool_names(&core, &vec![], &texts(&["finance_api"]), &available);

    assert!(tool_names.contains(&"finance_api".to_string()));
    assert!(tool_names.contains(&"memory_query".to_string()));
    assert!(tool_names.contains(&"toggle_manage".to_string()));
    assert_eq!(
        tool_names.iter().filter(|name| name.as_str() == "finance_api").count(),
        1
    );
}

#[test]
fn test_is_sensitive_filename_matches_json5_config() {
    assert!(is_sensitive_filename("config.json5"));
    assert!(is_sensitive_filename("/tmp/.blockcell/config.json5"));
}

#[test]
fn test_orchestrator_tick_emits_event_tx_for_immediate_notifications() {
    let mut session = MainSession::new();
    session.update_main_session_target(&inbound("cli", "chat-1", "hello", Json::Null), "cli:chat-1");
    let request = NotificationRequest {
        event_id: "e1".to_string(),
        priority: EventPriority::Critical,
        title: "Task failed".to_string(),
        body: "Background report failed".to_string(),
        scope: EventScope::MainSession,
    };
    let sent = session.notification_deliveries(Some("default"), &request, Json::text("Critical"));
    match &sent[0] {
        Delivery::Event(event) => {
            assert_eq!(event.str_at("type"), Some("system_event_notification"));
            assert_eq!(event.str_at("chat_id"), Some("chat-1"));
            assert_eq!(event.str_at("title"), Some("Task failed"));
        }
        _ => panic!("an event was expected"),
    }
}

#[test]
fn test_orchestrator_tick_flushes_summary_to_main_session_outbound() {
    let mut session = MainSession::new();
    session.update_main_session_target(&inbound("cli", "chat-1", "hello", Json::Null), "cli:chat-1");
    let summary = SessionSummary {
        title: "System updates".to_string(),
        compact_text: "Report ready: Background report finished".to_string(),
        items: Json::Array(vec![]),
    };
    let sent = session.summary_deliveries(Some("default"), &summary);
    match &sent[1] {
        Delivery::Send(outbound) => {
            assert_eq!(outbound.channel, "cli");
            assert_eq!(outbound.chat_id, "chat-1");
            assert!(outbound.content.contains("Report ready"));
            assert!(
                outbound.content.contains("System updates") || outbound.content.contains("🗂️")
            );
        }
        _ => panic!("a message was expected"),
    }
}

#[test]
fn test_orchestrator_tick_gracefully_handles_missing_dispatchers() {
    let session = MainSession::new();
    let request = NotificationRequest {
        event_id: "e1".to_string(),
        priority: EventPriority::Critical,
        title: "Task failed".to_string(),
        body: "No dispatcher configured".to_string(),
        scope: EventScope::MainSession,
    };
    let sent = session.notification_deliveries(None, &request, Json::text("Critical"));
    assert_eq!(sent.len(), 1);
    assert!(matches!(&sent[0], Delivery::Event(_)));
}

fn cron_metadata(chat: &str) -> Json {
    Json::Object(vec![
        ("cron_agent".to_string(), Json::Bool(true)),
        ("deliver".to_string(), Json::Bool(true)),
        ("deliver_channel".to_string(), Json::text("ws")),
        ("deliver_to".to_string(), Json::text(chat)),
    ])
}

#[test]
fn test_cron_agent_delivery_emits_ws_event_for_deliver_target() {
    let msg = inbound("cron", "job-123", "任务完成摘要", cron_metadata("webui-chat-1"));
    let sent = final_deliveries(&msg, Some("default"), "result", &vec![]);
    let event = sent
        .iter()
        .find_map(|d| match d {
            Delivery::Event(event) if event.str_at("chat_id") == Some("webui-chat-1") => Some(event),
            _ => None,
        })
        .expect("an event for the chat");
    assert_eq!(event.str_at("type"), Some("message_done"));
    assert_eq!(event.str_at("content"), Some("result"));
    assert_eq!(event.get("background_delivery").unwrap().as_bool(), Some(true));
    assert_eq!(event.str_at("delivery_kind"), Some("cron"));
    assert_eq!(event.str_at("cron_kind"), Some("agent"));
}

#[test]
fn test_cron_agent_persists_to_deliver_session_not_cron_job_session() {
    let msg = inbound(
        "cron",
        "job-456",
        "搜索美伊战争最新消息，并将结果发给用户。",
        cron_metadata("webui-chat-2"),
    );
    let own = ("cron".to_string(), "job-456".to_string());
    let target = ("ws".to_string(), "webui-chat-2".to_string());
    assert_eq!(cron_deliver_target(&msg), Some(target.clone()));

    let mut turn = Turn::new(vec![], vec![ChatMessage::user(&msg.content)], vec![]);
    assert!(matches!(turn.hear(&response(Some("已发送"), vec![])), ResponseStep::Answered));
    assert!(!turn.conclude().is_empty());
    let mut kept = HashMap::new();
    kept.insert(cron_deliver_target(&msg).unwrap_or(own.clone()), turn.history);

    let ws_history = &kept[&target];
    assert!(!ws_history.is_empty());
    assert!(ws_history
        .iter()
        .any(|m| m.content.as_str().is_some_and(|s| s.contains("搜索美伊战争最新消息"))));
    assert!(!kept.contains_key(&own), "the job's own conversation should not be kept");
}

#[test]
fn paths_are_followed_and_resolved() {
    assert_eq!(normalize_path_for_check("/a/./b/../c").text(), "/a/c");
    assert_eq!(resolve_path("~/x", Some("/home/u"), "/ws"), "/home/u/x");
    assert_eq!(resolve_path("x", None, "/ws"), "/ws/x");
    assert_eq!(resolve_path("/x", None, "/ws"), "/x");
    assert!(is_path_within_base("/a", None, "/a/b/c", None));
    assert!(!is_path_within_base("/a", None, "/ab", None));
    assert!(is_path_within_base("/link", Some("/real"), "/x", Some("/real/x")));
}

fn fact(path: &str, action: PolicyAction) -> PathFacts {
    PathFacts {
        raw: path.to_string(),
        resolved: path.to_string(),
        canonical: None,
        is_dir: false,
        directory_canonical: None,
        action,
    }
}

#[test]
fn denied_path_refuses_and_confirmed_path_stays() {
    let workspace = parts_of_path("/ws");
    let mut dirs = AuthorizedDirs::new();
    let inside = vec![fact("/ws/a", PolicyAction::Deny)];
    assert!(matches!(dirs.check_path_permission(&workspace, &inside, true), Access::Granted));
    let denied = vec![fact("/etc/a", PolicyAction::Deny)];
    assert!(matches!(dirs.check_path_permission(&workspace, &denied, true), Access::Refused));
    let asked = vec![fact("/data/a", PolicyAction::Confirm)];
    let list = match dirs.check_path_permission(&workspace, &asked, true) {
        Access::Ask(list) => list,
        _ => panic!("a question was expected"),
    };
    assert!(dirs.confirm(&asked, &list, true, true));
    assert!(matches!(dirs.check_path_permission(&workspace, &asked, true), Access::Granted));
    assert_eq!(dirs.texts(), texts(&["/data"]));
}

fn switches(tools: &[&str], skills: &[&str]) -> CallEvent {
    CallEvent::Switches { tools: texts(tools), skills: texts(skills) }
}

fn places(facts: Vec<PathFacts>) -> CallEvent {
    CallEvent::Places { workspace: parts_of_path("/ws"), facts, cache: true }
}

/// What a call is answered where the events come in, and whether its tool was to be run.
fn taken(run: &mut CallRun, dirs: &mut AuthorizedDirs, events: Vec<CallEvent>) -> (Vec<String>, bool) {
    let mut answers = Vec::new();
    let mut ran = false;
    for event in events {
        match run.next(event, dirs) {
            CallAction::Answer(text) => answers.push(text),
            CallAction::Run => ran = true,
            _ => {}
        }
    }
    (answers, ran)
}

#[test]
fn call_passes_all_gates_before_it_runs() {
    let mut dirs = AuthorizedDirs::new();
    let danger = call(
        "exec",
        object2("command", Json::text("rm -rf /tmp/x"), "working_dir", Json::text("/data/a")),
    );
    let mut run = CallRun::new(danger, true, "clean up");
    assert!(matches!(run.next(CallEvent::Consent(true), &mut dirs), CallAction::Wait));
    assert!(matches!(run.next(places(vec![]), &mut dirs), CallAction::Wait));
    match run.next(switches(&["other"], &[]), &mut dirs) {
        CallAction::Confirm(items) => assert_eq!(items, vec!["command: rm -rf /tmp/x"]),
        _ => panic!("a question was expected"),
    }
    assert!(matches!(run.next(places(vec![]), &mut dirs), CallAction::Wait));
    match run.next(CallEvent::Consent(true), &mut dirs) {
        CallAction::LookUp(paths) => assert_eq!(paths, vec!["/data/a"]),
        _ => panic!("the paths were expected"),
    }
    assert!(matches!(run.next(CallEvent::Consent(true), &mut dirs), CallAction::Wait));
    match run.next(places(vec![fact("/data/a", PolicyAction::Confirm)]), &mut dirs) {
        CallAction::Confirm(items) => assert_eq!(items, vec!["/data/a"]),
        _ => panic!("a question was expected"),
    }
    assert!(dirs.texts().is_empty());
    assert!(matches!(run.next(CallEvent::Consent(true), &mut dirs), CallAction::Run));
    assert_eq!(dirs.texts(), texts(&["/data"]));
    let failed = CallEvent::Ran(ToolOutcome::Failed("broken".to_string()));
    match run.next(failed, &mut dirs) {
        CallAction::Report(text) => assert_eq!(text, "Error: broken"),
        _ => panic!("a report was expected"),
    }
    match run.next(CallEvent::Learned(Learning::Quiet), &mut dirs) {
        CallAction::Answer(text) => assert_eq!(text, "Error: broken"),
        _ => panic!("an answer was expected"),
    }
    assert!(matches!(run.stage, CallStage::Over));
    assert!(matches!(run.next(switches(&[], &[]), &mut dirs), CallAction::Wait));
}

#[test]
fn call_is_refused_at_each_gate() {
    let read = || call("read_file", object1("path", Json::text("/etc/a")));
    let mut dirs = AuthorizedDirs::new();
    for (tools, skills) in [(vec!["read_file"], vec![]), (vec![], vec!["read_file"])] {
        let mut run = CallRun::new(read(), true, "");
        let events = vec![
            switches(&tools, &skills),
            places(vec![]),
            CallEvent::Consent(true),
            CallEvent::Ran(ToolOutcome::Value(Json::Null)),
        ];
        let (answers, ran) = taken(&mut run, &mut dirs, events);
        assert_eq!(answers.len(), 1);
        assert!(answers[0].contains("is currently disabled via toggles."));
        assert!(!ran);
    }
    let danger = call("exec", object1("command", Json::text("rm -rf /tmp/x")));
    let mut run = CallRun::new(danger, true, "");
    let events = vec![switches(&[], &[]), CallEvent::Consent(false), places(vec![])];
    let (answers, ran) = taken(&mut run, &mut dirs, events);
    assert!(answers[0].contains("dangerous exec command"));
    assert!(!ran);
    for (action, interactive) in [
        (PolicyAction::Deny, true),
        (PolicyAction::Confirm, false),
    ] {
        let mut run = CallRun::new(read(), interactive, "");
        let events = vec![
            switches(&[], &[]),
            places(vec![fact("/etc/a", action)]),
            CallEvent::Consent(true),
        ];
        let (answers, ran) = taken(&mut run, &mut dirs, events);
        assert!(answers[0].contains("user rejected access to paths"));
        assert!(!ran);
    }
    let mut run = CallRun::new(read(), true, "");
    let events = vec![
        switches(&[], &[]),
        places(vec![fact("/etc/a", PolicyAction::Confirm)]),
        CallEvent::Consent(false),
    ];
    let (answers, ran) = taken(&mut run, &mut dirs, events);
    assert!(answers[0].contains("user rejected access to paths"));
    assert!(!ran);
    assert!(dirs.texts().is_empty());
    let mut run = CallRun::new(read(), true, "");
    let events = vec![
        switches(&[], &[]),
        places(vec![fact("/etc/a", PolicyAction::Allow)]),
        CallEvent::Ran(ToolOutcome::Value(Json::text("x"))),
    ];
    let (answers, ran) = taken(&mut run, &mut dirs, events);
    assert_eq!(answers, vec!["\"x\""]);
    assert!(ran);
}

#[test]
fn unknown_tool_is_not_reported() {
    let mut dirs = AuthorizedDirs::new();
    let mut run = CallRun::new(call("nope", Json::Null), true, "");
    let failed = ToolOutcome::Failed("Unknown tool: nope".to_string());
    let events = vec![switches(&[], &[]), places(vec![]), CallEvent::Ran(failed)];
    let (answers, ran) = taken(&mut run, &mut dirs, events);
    assert!(ran);
    assert!(answers[0].starts_with("Error: Unknown tool: nope\n\n"));
}

#[test]
fn skill_files_are_told_by_their_place() {
    let write = call("write_file", object1("path", Json::text("x")));
    let within = |at: &str, dir: &str| is_skill_write(&write, false, at, None, dir, None);
    assert!(within("/ws/skills/a/SKILL.md", "/ws/skills"));
    assert!(within("/ws/./skills/a", "/ws/skills/"));
    assert!(!within("/ws/skillset/a", "/ws/skills"));
    assert!(!within("./s/x", "s"));
    assert!(!within("s/x", "./s"));
    assert!(within("./s/x", "./s"));
    assert!(within("s/./x", "s"));
    assert!(within("/s/x", ""));
    assert!(!is_skill_write(&write, true, "/ws/skills/a", None, "/ws/skills", None));
    let linked = is_skill_write(&write, false, "/l/a", Some("/r/a"), "/ws/skills", Some("/r"));
    assert!(linked);
    let read = call("read_file", object1("path", Json::text("x")));
    assert!(!is_skill_write(&read, false, "/ws/skills/a", None, "/ws/skills", None));
}

#[test]
fn rules_come_from_the_named_file() {
    assert!(matches!(policy_source(false, "x"), PolicySource::SafeDefault));
    assert!(matches!(policy_source(true, "  "), PolicySource::OwnFile));
    assert!(matches!(policy_source(true, " /p "), PolicySource::File(p) if p == "/p"));
}

#[test]
fn dangerous_commands_need_consent() {
    assert!(is_dangerous_exec_command("rm -rf /tmp/x"));
    assert!(is_dangerous_exec_command("find . -name a -delete"));
    assert!(!is_dangerous_exec_command("ls -la"));
    let danger = call("exec", object1("command", Json::text("rm -rf /tmp/x")));
    assert!(matches!(check_call(&danger, true, "clean up"), Gate::Confirm { .. }));
    assert!(matches!(check_call(&danger, false, "clean up"), Gate::Refuse(_)));
    let safe = call("exec", object1("command", Json::text("ls")));
    assert!(matches!(check_call(&safe, false, "list"), Gate::Proceed));
    assert!(user_explicitly_confirms_dangerous_op("确认执行"));
    assert!(!user_explicitly_confirms_dangerous_op("hello"));
}

#[test]
fn images_are_found_in_texts() {
    let (paths, names) = mentioned_images("see /tmp/a.PNG and b.jpg");
    assert_eq!(paths, texts(&["/tmp/a.PNG"]));
    assert_eq!(names, texts(&["a.PNG", "b.jpg"]));
    assert!(user_wants_send_image("把图片发给我"));
    assert!(is_media_path("/x/y.MP3"));
    assert!(!is_media_path("/x/y.txt"));
    assert_eq!(
        encode_image_to_base64("/a.png", b"abc").as_deref(),
        Some("data:image/png;base64,YWJj")
    );
    assert_eq!(encode_image_to_base64("/a.txt", b"abc"), None);
}

#[test]
fn picked_picture_lies_in_the_media_directory() {
    let outside = MentionedFile {
        path: "/etc/a.png".to_string(),
        exists: true,
        canonical: Some("/etc/a.png".to_string()),
    };
    let inside = MentionedFile {
        path: "/media/b.png".to_string(),
        exists: true,
        canonical: Some("/media/b.png".to_string()),
    };
    let picked = pick_mentioned_image(&vec![outside, inside], &vec![], Some("/media"));
    assert_eq!(picked.as_deref(), Some("/media/b.png"));
    let names = vec![("/media/x.png".to_string(), false), ("/media/y.png".to_string(), true)];
    assert_eq!(
        pick_mentioned_image(&vec![], &names, None).as_deref(),
        Some("/media/y.png")
    );
}

#[test]
fn fake_calls_are_taken_out() {
    let text = "before\n[TOOL_CALL]x[/TOOL_CALL]\nafter";
    let clean = strip_fake_tool_calls(text);
    assert!(!clean.contains("[TOOL_CALL]"));
    assert!(clean.contains("before"));
    assert!(clean.contains("after"));
}

#[test]
fn reply_collects_pieces() {
    let mut reply = Reply::new();
    reply.apply(&StreamChunk::TextDelta { delta: "a".to_string() });
    reply.apply(&StreamChunk::TextDelta { delta: "b".to_string() });
    assert_eq!(reply.content, "ab");
    assert!(reply.cut_off().is_none());
    reply.apply(&StreamChunk::ToolCallStart {
        index: 0,
        id: "c1".to_string(),
        name: "exec".to_string(),
    });
    reply.apply(&StreamChunk::ToolCallDelta {
        index: 0,
        id: "c1".to_string(),
        delta: "{\"command\":\"ls\"}".to_string(),
    });
    let answer = reply.cut_off().unwrap();
    assert_eq!(answer.content.as_deref(), Some("ab"));
    assert_eq!(answer.finish_reason, "stop");
    assert_eq!(answer.tool_calls[0].arguments.str_at("command"), Some("ls"));
    assert_eq!(retry_delay_ms(100, 1), 100);
    assert_eq!(retry_delay_ms(100, 3), 400);
}

#[test]
fn replies_go_back_to_the_message() {
    let metadata = object1("message_id", Json::number(7));
    let msg = inbound("telegram", "c", "hi", metadata);
    let reply = extract_reply_metadata(&msg);
    assert!(!matches!(reply, Json::Number(_)));
    let sent = final_deliveries(&inbound("cli", "c", "hi", Json::Null), None, "answer", &vec![]);
    assert!(sent.iter().any(|d| matches!(
        d,
        Delivery::Send(m) if m.channel == "cli" && m.chat_id == "c" && m.content == "answer"
    )));
    assert!(contact_of(&inbound("cli", "c", "hi", Json::Null)).is_none());
}

#[test]
fn scripts_are_chosen_and_read() {
    let none = SkillFiles { exists: false, rhai: false, python: false, markdown: false };
    let python = SkillFiles { exists: true, rhai: false, python: true, markdown: true };
    assert!(matches!(
        infer_skill_script_kind(python, none),
        Some(ResolvedSkillScriptKind::Python)
    ));
    assert!(infer_skill_script_kind(none, none).is_none());
    assert_eq!(choose_python(true, true).ok(), Some("python3"));
    assert_eq!(choose_python(false, true).ok(), Some("python"));
    assert!(choose_python(false, false).is_err());
    assert_eq!(python_result("out\n", "", true, Some(0)).ok().as_deref(), Some("out"));
    assert!(python_result("", "bad", false, Some(1)).is_err());
    assert_eq!(
        script_result(true, &Json::text("done"), None).ok().as_deref(),
        Some("done")
    );
    assert!(script_result(false, &Json::Null, Some("why".to_string())).is_err());
}

#[test]
fn selected_skill_is_matched_by_name() {
    let candidates = vec![("weather".to_string(), "w".to_string())];
    assert_eq!(
        SkillDecisionEngine::normalize_selected_skill_name(" weather ", &candidates).as_deref(),
        Some("weather")
    );
    assert_eq!(
        SkillDecisionEngine::normalize_selected_skill_name("use weather now", &candidates)
            .as_deref(),
        Some("weather")
    );
    assert_eq!(SkillDecisionEngine::normalize_selected_skill_name("", &candidates), None);
}

#[test]
fn subagent_is_confined_and_runs_its_script() {
    let names = subagent_tool_registry();
    assert_eq!(names.len(), 37);
    assert!(!names.contains(&"spawn".to_string()));
    assert_eq!(
        parse_skill_task("__SKILL_EXEC__:weather:{}:tomorrow: noon"),
        Some(("weather".to_string(), "tomorrow: noon".to_string()))
    );
    assert_eq!(parse_skill_task("just do it"), None);
    let msg = subagent_inbound("look", "t1", "ws", "c1", Some("ops"), None, 5);
    assert_eq!(msg.content, "look");
    assert_eq!(resolve_routed_agent_id(&msg.metadata).as_deref(), Some("ops"));
}

#[test]
fn new_task_replaces_the_one_of_its_chat() {
    let mut tasks = ActiveTasks::new();
    assert_eq!(tasks.start("c", "t1"), None);
    assert_eq!(tasks.start("c", "t2").as_deref(), Some("t1"));
    assert_eq!(tasks.cancel("c").as_deref(), Some("t2"));
    assert_eq!(tasks.cancel("c"), None);
    tasks.start("d", "t3");
    tasks.start("e", "t4");
    tasks.done("t2", "d");
    tasks.done("t3", "d");
    assert_eq!(tasks.cancel("d"), None);
    assert_eq!(tasks.cancel("e").as_deref(), Some("t4"));
    assert_eq!(tasks.abort_all(), Vec::<String>::new());
    tasks.start("d", "t5");
    tasks.start("d", "t6");
    tasks.done("t5", "d");
    assert_eq!(tasks.abort_all(), vec!["t6"]);
    assert_eq!(clamp_secs(1, 5, 9), 5);
    assert_eq!(clamp_secs(99, 5, 9), 9);
    assert_eq!(message_label("short"), "short");
}

#[test]
fn capability_is_asked_for_once_a_day() {
    let mut cooldown = CapabilityCooldown::new();
    let missing = vec![("camera".to_string(), "take a picture".to_string())];
    assert_eq!(cooldown.due_requests(&missing, 1_000_000).len(), 1);
    assert_eq!(cooldown.due_requests(&missing, 1_000_060).len(), 0);
    assert_eq!(cooldown.due_requests(&missing, 1_000_000 + 86_400).len(), 1);
}

#[test]
fn switches_name_what_is_off() {
    let content = r#"{"skills":{"a":false,"b":true},"tools":{"exec":false}}"#;
    assert_eq!(load_disabled_toggles(Some(content), "skills"), texts(&["a"]));
    assert_eq!(load_disabled_toggles(Some(content), "tools"), texts(&["exec"]));
    assert!(load_disabled_toggles(None, "tools").is_empty());
    assert!(load_disabled_toggles(Some("not json"), "tools").is_empty());
}

#[test]
fn messages_are_routed() {
    let plain = inbound("cli", "c", "hi", Json::Null);
    assert!(matches!(route_message(&plain, None), Route::Model));
    let script = inbound(
        "cron",
        "c",
        "run",
        object2("skill_name", Json::text("weather"), "skill_python", Json::Bool(true)),
    );
    match route_message(&script, None) {
        Route::Script { skill_name, kind } => {
            assert_eq!(skill_name, "weather");
            assert!(matches!(kind, SkillScriptKind::Python));
        }
        _ => panic!("a script was expected"),
    }
}

#[test]
fn round_keeps_call_and_result() {
    let mut turn = Turn::new(vec![ChatMessage::user("q")], vec![ChatMessage::user("q")], vec![]);
    let request = call("list_dir", object1("path", Json::text("/")));
    let response = LLMResponse {
        content: None,
        reasoning_content: None,
        tool_calls: vec![request],
        finish_reason: "tool_calls".to_string(),
        usage: Json::Null,
    };
    turn.begin(&response);
    let mut round = Round::new();
    let request = call("list_dir", object1("path", Json::text("/")));
    turn.record(&mut round, &request, "[]", None);
    assert!(matches!(turn.end(round, true, false), RoundEnd::Next));
    assert_eq!(turn.messages.len(), 3);
    assert_eq!(turn.messages[1].role, "assistant");
    assert_eq!(turn.messages[2].role, "tool");
    assert_eq!(turn.messages[2].tool_call_id.as_deref(), Some("c1"));
    turn.answer(&Some("done".to_string()));
    assert_eq!(turn.conclude(), "done");
}

#[test]
fn response_answers_or_calls_tools() {
    let mut turn = Turn::new(vec![], vec![], vec![]);
    let asked = response(None, vec![call("list_dir", object1("path", Json::text("/")))]);
    assert!(matches!(turn.hear(&asked), ResponseStep::CallTools));
    assert_eq!(turn.messages.len(), 1);
    assert_eq!(turn.messages[0].tool_calls.as_ref().unwrap()[0].name, "list_dir");
    assert!(matches!(turn.hear(&response(Some("done"), vec![])), ResponseStep::Answered));
    assert_eq!(turn.messages.len(), 1);
    assert_eq!(turn.history.len(), 2);
    assert_eq!(turn.conclude(), "done");
    let mut silent = Turn::new(vec![], vec![], vec![]);
    assert!(matches!(silent.hear(&response(None, vec![])), ResponseStep::Answered));
    assert_eq!(silent.history[0].content.as_str(), Some(""));
}

#[test]
fn only_offered_tools_are_in_scope() {
    let names = texts(&["read_file", "list_dir"]);
    assert!(in_scope(&names, &call("list_dir", Json::Null)));
    assert!(!in_scope(&names, &call("exec", Json::Null)));
    assert!(!in_scope(&texts(&[]), &call("exec", Json::Null)));
}

#[test]
fn session_is_summed_up_once_it_is_long_enough() {
    let mut history = Vec::new();
    for i in 0..3 {
        history.push(ChatMessage::user(&format!("question {}", i)));
        history.push(ChatMessage::assistant(&format!("answer {}", i)));
    }
    assert_eq!(session_summary(&history[..5]), None);
    assert_eq!(
        session_summary(&history).as_deref(),
        Some(
            "Q: question 0 → A: answer 0\nQ: question 1 → A: answer 1\nQ: question 2 → A: answer 2"
        )
    );
    let unasked: Vec<ChatMessage> = (0..6).map(|_| ChatMessage::assistant("hello")).collect();
    assert_eq!(session_summary(&unasked), None);
}

#[test]
fn picture_goes_back_to_the_chat_without_a_text() {
    let mut msg = inbound("wecom", "u1", "send me the photo", Json::Null);
    msg.account_id = Some("main".to_string());
    let sent = image_delivery(&msg, "/media/a.png");
    assert_eq!(sent.channel, "wecom");
    assert_eq!(sent.chat_id, "u1");
    assert_eq!(sent.account_id.as_deref(), Some("main"));
    assert_eq!(sent.content, "");
    assert_eq!(sent.media, texts(&["/media/a.png"]));
}

#[test]
fn new_skills_are_announced() {
    let event = skills_updated_event(&texts(&["weather", "stocks"]));
    assert_eq!(event.str_at("type"), Some("skills_updated"));
    let names = event.get("new_skills").and_then(|v| v.as_array()).unwrap();
    let names: Vec<Option<&str>> = names.iter().map(|n| n.as_str()).collect();
    assert_eq!(names, vec![Some("weather"), Some("stocks")]);
}

#[test]
fn search_result_is_thin_where_most_entries_say_little() {
    let rich = "a snippet of well over thirty characters";
    let result = |snippets: &[&str]| {
        let entries: Vec<String> = snippets
            .iter()
            .enumerate()
            .map(|(i, s)| format!("{{\"url\":\"https://e.org/{}\",\"snippet\":\"{}\"}}", i, s))
            .collect();
        format!("{{\"results\":[{}]}}", entries.join(","))
    };
    assert!(is_thin_search_result(&result(&["", "short", rich])));
    assert!(!is_thin_search_result(&result(&["", rich])));
    assert!(!is_thin_search_result(&result(&[])));
    assert!(!is_thin_search_result("no JSON"));
    assert_eq!(
        extract_urls_from_search_result(&result(&["", "", "", ""])),
        texts(&["https://e.org/0", "https://e.org/1", "https://e.org/2"])
    );
    assert_eq!(extract_urls_from_search_result("{\"results\":[{\"url\":\"\"}]}"), texts(&[]));
}

#[test]
fn image_is_known_by_the_end_of_its_path() {
    assert!(is_image_path("/a/b.PNG"));
    assert!(is_image_path("x.svg"));
    assert!(is_image_path("ico"));
    assert!(!is_image_path("/a/b.txt"));
    assert!(!is_image_path("png.d"));
}
