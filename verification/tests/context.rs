use blockcell::compress::{compress_history, find_safe_history_start, split_history_into_rounds};
use blockcell::history::{estimate_tokens, trim_text_head_tail};
use blockcell::json::object1;
use blockcell::mid_loop::{build_extractive_summary, compress_mid_loop};
use blockcell::presentation::{
    compact_json_value, prepare_skill_result_for_presentation, summarize_result, truncate_str,
};
use blockcell::prompt::{
    brief_request, evolution_messages, is_im_channel, ActiveSkillContext, BriefRequest,
    ContextBuilder, InteractionMode, Memory, PromptSources,
};
use blockcell::skills::{resolve_active_skill_by_name, SkillInfo};
use blockcell::sorting::{dedup_texts, sort_texts};
use blockcell::types::{ChatMessage, PermissionSet, ToolCallRequest};
use blockcell::value::Json;

fn build_tool_round(round: usize) -> Vec<ChatMessage> {
    let call_id = format!("call-{}", round);
    vec![
        ChatMessage::user(&format!("user round {}", round)),
        ChatMessage {
            role: "assistant".to_string(),
            content: Json::Str(format!("planning round {}", round)),
            reasoning_content: None,
            tool_calls: Some(vec![ToolCallRequest {
                id: call_id.clone(),
                name: format!("tool_{}", round),
                arguments: object1("round", Json::number(round as u64)),
                thought_signature: None,
            }]),
            tool_call_id: None,
            name: None,
        },
        ChatMessage::tool_result(&call_id, &format!(r#"{{"round":{},"ok":true}}"#, round)),
        ChatMessage::assistant(&format!("final round {}", round)),
    ]
}

#[test]
fn test_compress_history_keeps_latest_six_complete_rounds() {
    let mut history = Vec::new();
    for round in 1..=8 {
        history.extend(build_tool_round(round));
    }

    let compressed = compress_history(&history, 50_000);

    assert_eq!(compressed.len(), 28);
    assert_eq!(compressed[0].content.as_str(), Some("user round 1"));
    assert_eq!(compressed[1].content.as_str(), Some("final round 1"));
    assert_eq!(compressed[2].content.as_str(), Some("user round 2"));
    assert_eq!(compressed[3].content.as_str(), Some("final round 2"));

    let round_three_index = compressed
        .iter()
        .position(|msg| msg.content.as_str() == Some("user round 3"))
        .expect("round 3 should exist");
    assert_eq!(compressed[round_three_index + 1].role, "assistant");
    assert!(compressed[round_three_index + 1]
        .tool_calls
        .as_ref()
        .is_some_and(|calls| calls.len() == 1));
    assert_eq!(compressed[round_three_index + 2].role, "tool");
    assert_eq!(compressed[round_three_index + 3].content.as_str(), Some("final round 3"));
}

#[test]
fn test_compress_history_never_starts_mid_round() {
    let mut history = Vec::new();
    for round in 1..=3 {
        let mut round_msgs = build_tool_round(round);
        round_msgs[0].content = Json::Str(format!("user round {} {}", round, "x".repeat(120)));
        round_msgs[3].content = Json::Str(format!("final round {} {}", round, "y".repeat(160)));
        history.extend(round_msgs);
    }

    let compressed = compress_history(&history, 140);
    let first = compressed.first().expect("compressed history should not be empty");
    assert_eq!(first.role, "user");
}

fn sources() -> PromptSources {
    PromptSources {
        guidelines: None,
        personality: None,
        preferences: None,
        time: "2024-01-01 00:00:00".to_string(),
        workspace: "/ws".to_string(),
        memory: Memory::Store { brief: None },
    }
}

#[test]
fn test_build_system_prompt_skips_skill_md_when_prompt_injection_disabled() {
    let builder = ContextBuilder::new(32_000, 4_096);
    let active_skill = ActiveSkillContext {
        name: "structured_demo".to_string(),
        prompt_md: "DO NOT INCLUDE".to_string(),
        inject_prompt_md: false,
        tools: vec!["finance_api".to_string()],
        fallback_message: Some("fallback".to_string()),
    };

    let prompt = builder.build_system_prompt_for_mode_with_channel(
        InteractionMode::Skill,
        Some(&active_skill),
        &vec![],
        &vec![],
        &sources(),
        &vec![],
        &vec![],
    );

    assert!(prompt.contains("## Active Skill: structured_demo"));
    assert!(!prompt.contains("DO NOT INCLUDE"));
    assert!(prompt.contains("fallback"));
}

#[test]
fn test_build_messages_does_not_inject_followup_resolution_hint() {
    let builder = ContextBuilder::new(32_000, 4_096);
    let user = ContextBuilder::build_user_message("查看 .env 的内容", &vec![], &vec![], false);
    let messages = builder.build_messages_for_mode_with_channel("system", &[], user, "ws");

    let last = messages.last().expect("user message");
    let content = last.content.as_str().expect("string user content");
    assert!(content.contains("查看 .env 的内容"));
    assert!(!content.contains("[Follow-up Reference]"));
    assert!(!content.contains("/Users/apple/.blockcell/.env"));
}

fn skill(name: &str, bundle: &str, has_python: bool) -> SkillInfo {
    SkillInfo {
        name: name.to_string(),
        available: true,
        prompt_bundle: Some(bundle.to_string()),
        has_python,
        has_rhai: false,
        tools: vec![],
        fallback_message: None,
    }
}

#[test]
fn test_resolve_active_skill_by_name_disables_prompt_injection_for_script_skill() {
    let ctx = resolve_active_skill_by_name(
        "structured_demo",
        &vec![],
        Some(skill("structured_demo", "structured skill manual", true)),
    )
    .expect("active skill should resolve");

    assert!(!ctx.inject_prompt_md);
}

#[test]
fn test_resolve_active_skill_by_name_uses_prompt_bundle_not_root_skill_md() {
    let bundle = "Shared rule.\nPrompt-only rule.";
    let mut installed = skill("prompt_demo", bundle, false);
    installed.fallback_message = Some("Planning-only rule.".to_string());
    let ctx = resolve_active_skill_by_name("prompt_demo", &vec![], Some(installed))
        .expect("active skill should resolve");

    assert!(ctx.inject_prompt_md);
    assert!(ctx.prompt_md.contains("Shared rule."));
    assert!(ctx.prompt_md.contains("Prompt-only rule."));
    assert!(!ctx.prompt_md.contains("Planning-only rule."));
    assert_eq!(ctx.prompt_md, bundle);
}

#[test]
fn switched_off_skill_is_not_active() {
    let off = vec!["demo".to_string()];
    assert!(resolve_active_skill_by_name("demo", &off, Some(skill("demo", "x", false))).is_none());
    assert!(resolve_active_skill_by_name("demo", &vec![], None).is_none());
}

#[test]
fn rounds_hold_all_messages() {
    let mut history = Vec::new();
    for round in 1..=3 {
        history.extend(build_tool_round(round));
    }
    let rounds = split_history_into_rounds(&history);
    assert_eq!(rounds.len(), 3);
    assert_eq!(rounds.iter().map(|r| r.len()).sum::<usize>(), history.len());
    assert_eq!(find_safe_history_start(&history), 0);
}

#[test]
fn history_starts_at_the_first_clean_message() {
    let round = build_tool_round(1);
    let asked = || round[1].clone();
    let result = || round[2].clone();
    let cut = vec![result(), asked(), ChatMessage::user("a"), ChatMessage::user("b")];
    assert_eq!(find_safe_history_start(&cut), 2);
    let answered = vec![result(), asked(), result(), ChatMessage::user("a")];
    assert_eq!(find_safe_history_start(&answered), 1);
    let nothing = vec![result(), asked()];
    assert_eq!(find_safe_history_start(&nothing), 2);
}

#[test]
fn long_texts_keep_both_ends() {
    let text = format!("{}{}", "a".repeat(500), "z".repeat(500));
    let cut = trim_text_head_tail(&text, 100);
    assert!(cut.starts_with("aaa"));
    assert!(cut.ends_with("zzz"));
    assert_eq!(trim_text_head_tail("short", 100), "short");
    assert_eq!(truncate_str("hello", 10), "hello");
    assert_eq!(estimate_tokens(""), 0);
}

#[test]
fn middle_of_a_long_loop_is_shortened() {
    let mut messages = vec![ChatMessage::system("s"), ChatMessage::user("first")];
    for i in 0..40 {
        messages.push(ChatMessage::tool_result(&format!("c{}", i), &"x".repeat(5_000)));
    }
    messages.push(ChatMessage::user("last"));
    let before = messages.len();
    compress_mid_loop(&mut messages);
    assert!(messages.len() <= before);
    assert_eq!(messages[0].content.as_str(), Some("s"));
    assert_eq!(messages.last().unwrap().content.as_str(), Some("last"));
    let summary = build_extractive_summary(&[ChatMessage::user("what is new?")]);
    assert!(summary.contains("what is new?"));
}

#[test]
fn shortened_loop_keeps_calls_and_results_together() {
    let long = "x".repeat(500);
    let mut messages = vec![ChatMessage::system("s")];
    for round in 0..8 {
        for mut message in build_tool_round(round) {
            if message.role == "tool" {
                message.content = Json::text(&long);
            }
            messages.push(message);
        }
    }
    let shape = |list: &[ChatMessage]| -> Vec<(String, Vec<String>, Option<String>)> {
        list.iter()
            .map(|m| {
                let calls = m.tool_calls.iter().flatten().map(|c| c.id.clone()).collect();
                (m.role.clone(), calls, m.tool_call_id.clone())
            })
            .collect()
    };
    let before = shape(&messages);
    compress_mid_loop(&mut messages);
    assert_eq!(shape(&messages), before);
    let result = messages.iter().find(|m| m.role == "tool").unwrap();
    assert!(result.content.as_str().unwrap().len() < 200);
}

#[test]
fn brief_goes_with_what_is_said() {
    assert!(matches!(
        brief_request(""),
        BriefRequest::General { long_term: 5, short_term: 3 }
    ));
    assert!(matches!(brief_request("weather"), BriefRequest::Related { count: 8 }));
}

#[test]
fn texts_are_sorted_once_each() {
    let list = vec!["b".to_string(), "a".to_string(), "b".to_string()];
    let sorted = sort_texts(&list);
    assert_eq!(sorted, vec!["a", "b", "b"]);
    assert_eq!(dedup_texts(sorted), vec!["a", "b"]);
}

#[test]
fn permissions_form_an_order() {
    let few = PermissionSet::new().with_permission("read");
    let many = PermissionSet::new().with_permission("read").with_permission("write");
    assert!(many.has("write"));
    assert!(!few.has("write"));
    assert!(few.is_subset_of(&many));
    assert!(!many.is_subset_of(&few));
}

#[test]
fn chat_channels_are_known() {
    assert!(is_im_channel("telegram"));
    assert!(!is_im_channel("cli"));
}

#[test]
fn result_is_shown_as_its_display_text() {
    let shown =
        prepare_skill_result_for_presentation("weather", r#"{"display_text":" Sunny today. "}"#);
    assert_eq!(shown.direct_text.as_deref(), Some("Sunny today."));
    assert_eq!(shown.llm_payload, None);
    assert_eq!(shown.fallback_text, "Sunny today.");
    let shown = prepare_skill_result_for_presentation("weather", "Sunny today.");
    assert_eq!(shown.direct_text, None);
    assert_eq!(shown.llm_payload.as_deref(), Some("Sunny today."));
    assert_eq!(shown.fallback_text, "[weather] 定时任务执行完成:\n\nSunny today.");
    let shown = prepare_skill_result_for_presentation(
        "weather",
        r#"{"instruction":"short","summary_data":{"t":20},"raw_data":[1]}"#,
    );
    assert_eq!(
        shown.llm_payload.as_deref(),
        Some("{\n  \"instruction\": \"short\",\n  \"summary_data\": {\n    \"t\": 20\n  }\n}")
    );
}

#[test]
fn plain_prompt_is_the_general_one_without_tools() {
    let builder = ContextBuilder::new(32_000, 4_096);
    let plain = builder.build_system_prompt(&sources());
    let general = builder.build_system_prompt_for_mode_with_channel(
        InteractionMode::General,
        None,
        &vec![],
        &vec![],
        &sources(),
        &vec![],
        &vec![],
    );
    assert_eq!(plain, general);
    assert!(plain.starts_with("You are blockcell, an AI assistant with access to tools.\n\n"));
    assert!(plain.contains("Current time: 2024-01-01 00:00:00\nWorkspace: /ws\n\n"));
    assert!(plain.contains("## Core Tool Scope\n"));
}

#[test]
fn long_result_is_summed_up_by_its_start() {
    let short = "x".repeat(200);
    assert_eq!(summarize_result(&short), short);
    let long = "y".repeat(201);
    assert_eq!(summarize_result(&long), format!("{}... (truncated)", "y".repeat(200)));
}

#[test]
fn value_at_any_depth_below_the_fourth_is_outlined() {
    let list = Json::Array(vec![Json::Bool(true), Json::Null]);
    for depth in [4, 5, 100] {
        let outline = compact_json_value(&list, depth);
        assert_eq!(outline.str_at("kind"), Some("array"));
        assert_eq!(outline.get("len").and_then(|n| n.as_u64()), Some(2));
    }
    assert!(compact_json_value(&list, 3).as_array().is_some());
}

#[test]
fn model_that_works_on_a_skill_is_told_its_role() {
    let messages = evolution_messages("fix the script");
    assert_eq!(messages.len(), 2);
    assert_eq!(messages[0].role, "system");
    assert_eq!(
        messages[0].content.as_str(),
        Some("You are a skill evolution assistant. Follow instructions precisely.")
    );
    assert_eq!(messages[1].role, "user");
    assert_eq!(messages[1].content.as_str(), Some("fix the script"));
}
