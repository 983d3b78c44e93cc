use blockcell::chat::{ChatResponse, Choice, NativeStep, ResponseMessage, ToolCall, ToolCallMode};
use blockcell::error::Error;
use blockcell::gemini::GeminiProvider;
use blockcell::gemini_answer::{
    GeminiCandidate, GeminiFunctionCall, GeminiPart, GeminiResponse, GeminiStream, UsageMetadata,
};
use blockcell::lines::LineBuffer;
use blockcell::ollama::{OllamaFunctionCall, OllamaProvider, OllamaResponse, OllamaStream};
use blockcell::openai::OpenAIProvider;
use blockcell::requests::{refused_request, truncate_at_char_boundary, unreadable_response};
use blockcell::stream::{
    chunks_of_response, line_event, LineEvent, StreamChoice, StreamResponse, StreamState,
    StreamToolCall,
};
use blockcell::stream_run::{Collects, StreamEvent, StreamRun};
use blockcell::types::{ChatMessage, LLMResponse, StreamChunk, ToolCallRequest};
use blockcell::value::Json;
use serde_json::Value;

fn json(value: &Value) -> Json {
    match value {
        Value::Null => Json::Null,
        Value::Bool(b) => Json::Bool(*b),
        Value::Number(n) => Json::Number(n.to_string()),
        Value::String(s) => Json::Str(s.clone()),
        Value::Array(items) => Json::Array(items.iter().map(json).collect()),
        Value::Object(map) => {
            Json::Object(map.iter().map(|(k, v)| (k.clone(), json(v))).collect())
        }
    }
}

fn read(text: &str) -> Value {
    serde_json::from_str(text).expect("JSON")
}

fn text_of(value: &Value) -> Option<String> {
    value.as_str().map(|s| s.to_string())
}

fn gemini_response(value: &Value) -> GeminiResponse {
    let candidate = value["candidates"].as_array().and_then(|list| list.first()).map(|c| {
        GeminiCandidate {
            parts: c["content"]["parts"].as_array().map(|parts| {
                parts
                    .iter()
                    .map(|p| GeminiPart {
                        text: text_of(&p["text"]),
                        function_call: p.get("functionCall").map(|f| GeminiFunctionCall {
                            name: text_of(&f["name"]).expect("name"),
                            args: f.get("args").map(json),
                        }),
                        thought_signature: text_of(&p["thoughtSignature"]),
                    })
                    .collect()
            }),
            finish_reason: text_of(&c["finishReason"]),
        }
    });
    let usage = value.get("usageMetadata").map(|u| UsageMetadata {
        prompt_token_count: u["promptTokenCount"].as_u64(),
        candidates_token_count: u["candidatesTokenCount"].as_u64(),
    });
    GeminiResponse { candidate, usage }
}

fn ollama_response(value: &Value) -> OllamaResponse {
    OllamaResponse {
        content: text_of(&value["message"]["content"]).unwrap_or_default(),
        tool_calls: value["message"]["tool_calls"].as_array().map(|calls| {
            calls
                .iter()
                .map(|c| {
                    c.get("function").map(|f| OllamaFunctionCall {
                        name: text_of(&f["name"]).expect("name"),
                        arguments: json(&f["arguments"]),
                    })
                })
                .collect()
        }),
        done: value["done"].as_bool(),
        prompt_eval_count: value["prompt_eval_count"].as_u64(),
        eval_count: value["eval_count"].as_u64(),
    }
}

fn call(id: &str, name: &str, arguments: &str, thought_signature: Option<&str>) -> ToolCallRequest {
    ToolCallRequest {
        id: id.to_string(),
        name: name.to_string(),
        arguments: json(&read(arguments)),
        thought_signature: thought_signature.map(|s| s.to_string()),
    }
}

#[test]
fn gemini_test_normalize_model() {
    assert_eq!(
        GeminiProvider::normalize_model("gemini/gemini-2.0-flash"),
        "gemini-2.0-flash"
    );
    assert_eq!(GeminiProvider::normalize_model("gemini-1.5-pro"), "gemini-1.5-pro");
}

#[test]
fn gemini_test_convert_messages() {
    let messages = vec![
        ChatMessage::system("You are helpful"),
        ChatMessage::user("Hello"),
        ChatMessage::assistant("Hi there"),
    ];

    let (system, contents) = GeminiProvider::convert_messages(&messages);
    assert_eq!(system, Some("You are helpful".to_string()));
    assert_eq!(contents.len(), 2);
    assert_eq!(contents[0].str_at("role"), Some("user"));
    assert_eq!(contents[1].str_at("role"), Some("model"));
}

#[test]
fn test_convert_tools() {
    let tools = vec![json(&read(
        r#"{
            "type": "function",
            "function": {
                "name": "read_file",
                "description": "Read a file",
                "parameters": {
                    "type": "object",
                    "properties": {
                        "path": {"type": "string"}
                    }
                }
            }
        }"#,
    ))];

    let converted = GeminiProvider::convert_tools(&tools);
    assert_eq!(converted.len(), 1);
    let declarations = converted[0].get("functionDeclarations").unwrap().as_array().unwrap();
    assert_eq!(declarations.len(), 1);
    assert_eq!(declarations[0].str_at("name"), Some("read_file"));
}

#[test]
fn gemini_test_parse_response() {
    let text = r#"{
            "candidates": [{
                "content": {
                    "parts": [
                        {"text": "Hello!"}
                    ],
                    "role": "model"
                },
                "finishReason": "STOP"
            }],
            "usageMetadata": {
                "promptTokenCount": 10,
                "candidatesTokenCount": 5
            }
        }"#;

    let resp = gemini_response(&read(text));
    let candidate = resp.candidate.as_ref().unwrap();
    assert_eq!(candidate.finish_reason.as_deref(), Some("STOP"));
    let parts = candidate.parts.as_ref().unwrap();
    assert_eq!(parts[0].text.as_deref(), Some("Hello!"));

    let answer = GeminiProvider::read_answer(&resp).ok().unwrap();
    assert_eq!(answer.content.as_deref(), Some("Hello!"));
    assert_eq!(answer.finish_reason, "stop");
    assert_eq!(answer.usage.get("prompt_tokens").unwrap().as_u64(), Some(10));
    assert_eq!(answer.usage.get("completion_tokens").unwrap().as_u64(), Some(5));
}

#[test]
fn test_parse_response_with_function_call() {
    let text = r#"{
            "candidates": [{
                "content": {
                    "parts": [
                        {"functionCall": {"name": "read_file", "args": {"path": "/tmp/test"}}, "thoughtSignature": "sig_123"}
                    ],
                    "role": "model"
                },
                "finishReason": "STOP"
            }]
        }"#;

    let resp = gemini_response(&read(text));
    let parts = resp.candidate.as_ref().unwrap().parts.as_ref().unwrap();
    assert!(parts[0].function_call.is_some());
    assert_eq!(parts[0].function_call.as_ref().unwrap().name, "read_file");
    assert_eq!(parts[0].thought_signature.as_deref(), Some("sig_123"));

    let answer = GeminiProvider::read_answer(&resp).ok().unwrap();
    assert_eq!(answer.tool_calls.len(), 1);
    assert_eq!(answer.tool_calls[0].name, "read_file");
    assert_eq!(answer.tool_calls[0].arguments.str_at("path"), Some("/tmp/test"));
    assert_eq!(answer.tool_calls[0].thought_signature.as_deref(), Some("sig_123"));
}

#[test]
fn test_convert_messages_includes_thought_signature_on_function_call_part() {
    let mut assistant = ChatMessage::assistant("");
    assistant.tool_calls =
        Some(vec![call("tc_1", "exec", r#"{"command": "echo hi"}"#, Some("sig_abc"))]);

    let messages = vec![ChatMessage::user("do it"), assistant];
    let (_system, contents) = GeminiProvider::convert_messages(&messages);
    assert_eq!(contents.len(), 2);
    assert_eq!(contents[1].str_at("role"), Some("model"));
    let parts = contents[1].get("parts").unwrap().as_array().unwrap();
    assert!(parts[0].get("functionCall").is_some());
    assert_eq!(parts[0].str_at("thoughtSignature"), Some("sig_abc"));
}

#[test]
fn test_convert_tool_results() {
    let mut assistant = ChatMessage::assistant("");
    assistant.tool_calls =
        Some(vec![call("read_file", "read_file", r#"{"path": "/tmp/test"}"#, None)]);

    let tool_result = ChatMessage::tool_result("read_file", "file contents");

    let messages = vec![ChatMessage::user("read /tmp/test"), assistant, tool_result];

    let (_system, contents) = GeminiProvider::convert_messages(&messages);
    assert_eq!(contents.len(), 3);
    assert_eq!(contents[2].str_at("role"), Some("user"));
    let parts = contents[2].get("parts").unwrap().as_array().unwrap();
    assert!(parts[0].get("functionResponse").is_some());
}

#[test]
fn gemini_turns_alternate_and_say_something() {
    let messages = vec![
        ChatMessage::system("s"),
        ChatMessage::user("a"),
        ChatMessage::user(""),
        ChatMessage::assistant(""),
        ChatMessage::tool_result("c1", "{}"),
        ChatMessage::tool_result("c2", "x"),
        ChatMessage::user("b"),
    ];
    let (_system, contents) = GeminiProvider::convert_messages(&messages);
    let roles: Vec<_> = contents.iter().map(|c| c.str_at("role").unwrap()).collect();
    assert_eq!(roles, vec!["user", "model", "user"]);
    let sizes: Vec<_> =
        contents.iter().map(|c| c.get("parts").unwrap().as_array().unwrap().len()).collect();
    assert_eq!(sizes, vec![2, 1, 3]);
}

#[test]
fn gemini_without_candidates_is_an_error() {
    let resp = gemini_response(&read("{}"));
    match GeminiProvider::read_answer(&resp) {
        Err(Error::Provider(text)) => assert_eq!(text, "No candidates in Gemini response"),
        _ => panic!("an error was expected"),
    }
}

#[test]
fn gemini_stream_ends_with_tool_calls() {
    let mut stream = GeminiStream::new();
    let first = gemini_response(&read(
        r#"{"candidates":[{"content":{"parts":[{"text":"Hi "}]}}]}"#,
    ));
    let second = gemini_response(&read(
        r#"{"candidates":[{"content":{"parts":[{"functionCall":{"name":"exec"}}]},"finishReason":"MAX_TOKENS"}]}"#,
    ));
    assert_eq!(stream.apply(&first).len(), 1);
    assert_eq!(stream.apply(&second).len(), 2);
    let answer = stream.finish();
    assert_eq!(answer.content.as_deref(), Some("Hi "));
    assert_eq!(answer.finish_reason, "tool_calls");
    assert_eq!(answer.tool_calls[0].id, "gemini_call_0");
    assert_eq!(GeminiProvider::line_data("data: {}").as_deref(), Some("{}"));
    assert_eq!(GeminiProvider::line_data("event: x"), None);
}

#[test]
fn ollama_test_normalize_model() {
    assert_eq!(OllamaProvider::normalize_model("ollama/llama3"), "llama3");
    assert_eq!(OllamaProvider::normalize_model("qwen2.5:7b"), "qwen2.5:7b");
}

#[test]
fn ollama_test_convert_messages() {
    let messages = vec![
        ChatMessage::system("You are helpful"),
        ChatMessage::user("Hello"),
        ChatMessage::assistant("Hi there"),
    ];

    let converted = OllamaProvider::convert_messages(&messages);
    assert_eq!(converted.len(), 3);
    assert_eq!(converted[0].role, "system");
    assert_eq!(converted[0].content, "You are helpful");
    assert_eq!(converted[1].role, "user");
    assert_eq!(converted[2].role, "assistant");
}

#[test]
fn ollama_test_parse_response() {
    let text = r#"{
            "model": "llama3",
            "message": {
                "role": "assistant",
                "content": "Hello! How can I help?"
            },
            "done": true,
            "prompt_eval_count": 50,
            "eval_count": 20
        }"#;

    let resp = ollama_response(&read(text));
    assert_eq!(resp.content, "Hello! How can I help?");
    assert_eq!(resp.done, Some(true));
    assert_eq!(resp.prompt_eval_count, Some(50));

    let answer = OllamaProvider::read_answer(&resp, 0);
    assert_eq!(answer.content.as_deref(), Some("Hello! How can I help?"));
    assert_eq!(answer.finish_reason, "stop");
    assert_eq!(answer.usage.get("completion_tokens").unwrap().as_u64(), Some(20));
}

#[test]
fn test_parse_response_with_tool_calls() {
    let text = r#"{
            "model": "llama3",
            "message": {
                "role": "assistant",
                "content": "",
                "tool_calls": [
                    {
                        "function": {
                            "name": "read_file",
                            "arguments": {"path": "/tmp/test"}
                        }
                    }
                ]
            },
            "done": true
        }"#;

    let resp = ollama_response(&read(text));
    let tool_calls = resp.tool_calls.as_ref().unwrap();
    assert_eq!(tool_calls.len(), 1);
    assert_eq!(tool_calls[0].as_ref().unwrap().name, "read_file");

    let answer = OllamaProvider::read_answer(&resp, 1);
    assert_eq!(answer.finish_reason, "tool_calls");
    assert_eq!(answer.tool_calls[0].id, "ollama_call_0");
    assert_eq!(answer.content, None);
}

#[test]
fn ollama_stream_completes_once_done() {
    let mut stream = OllamaStream::new();
    let piece = ollama_response(&read(r#"{"message":{"content":"Hel"}}"#));
    assert_eq!(stream.apply(&piece).len(), 1);
    assert!(stream.completed(&piece).is_none());
    let last = ollama_response(&read(r#"{"message":{"content":"lo"},"done":true,"eval_count":3}"#));
    stream.apply(&last);
    let answer = stream.completed(&last).unwrap();
    assert_eq!(answer.content.as_deref(), Some("Hello"));
    assert_eq!(answer.usage.get("completion_tokens").unwrap().as_u64(), Some(3));
    assert_eq!(stream.cut_off().content.as_deref(), Some("Hello"));
}

#[test]
fn ollama_finds_calls_in_text_and_falls_back() {
    let content = "<tool_call>{\"name\": \"exec\", \"arguments\": {}}</tool_call>";
    let resp = OllamaResponse {
        content: content.to_string(),
        tool_calls: None,
        done: None,
        prompt_eval_count: None,
        eval_count: None,
    };
    assert_eq!(OllamaProvider::read_answer(&resp, 1).tool_calls.len(), 1);
    assert_eq!(OllamaProvider::read_answer(&resp, 0).tool_calls.len(), 0);
    assert_eq!(OllamaProvider::read_text_answer(&resp).finish_reason, "stop");
    assert!(OllamaProvider::falls_back(1));
    assert!(!OllamaProvider::falls_back(0));
}

#[test]
fn ollama_request_holds_model_and_options() {
    let messages = OllamaProvider::convert_messages(&[ChatMessage::user("hi")]);
    let body = OllamaProvider::request_body(
        "ollama/llama3",
        &messages,
        vec![],
        true,
        64,
        Json::Number("0.5".to_string()),
    );
    assert_eq!(body.str_at("model"), Some("llama3"));
    assert_eq!(body.get("stream").unwrap().as_bool(), Some(true));
    assert_eq!(body.get("options").unwrap().get("num_predict").unwrap().as_u64(), Some(64));
    assert!(body.get("tools").is_none());
    let listed = body.get("messages").unwrap().as_array().unwrap();
    assert_eq!(listed[0].str_at("content"), Some("hi"));
    assert_eq!(listed[0].str_at("role"), Some("user"));
}

#[test]
fn gemini_request_holds_system_text_and_tools() {
    let body = GeminiProvider::request_body(
        Some("be kind"),
        vec![],
        vec![Json::Null],
        9,
        Json::Number("1.0".to_string()),
    );
    let parts = body.get("systemInstruction").unwrap().get("parts").unwrap().as_array().unwrap();
    assert_eq!(parts[0].str_at("text"), Some("be kind"));
    assert_eq!(body.get("tools").unwrap().as_array().unwrap().len(), 1);
    let config = body.get("generationConfig").unwrap();
    assert_eq!(config.get("maxOutputTokens").unwrap().as_u64(), Some(9));
    let bare = GeminiProvider::request_body(None, vec![], vec![], 9, Json::Null);
    assert!(bare.get("systemInstruction").is_none());
    assert!(bare.get("tools").is_none());
}

#[test]
fn addresses_of_the_services() {
    assert_eq!(OpenAIProvider::api_base(None), "https://api.openai.com/v1");
    assert_eq!(OpenAIProvider::api_base(Some("http://x/v1//")), "http://x/v1");
    assert_eq!(OpenAIProvider::chat_url("http://x/v1"), "http://x/v1/chat/completions");
    assert_eq!(
        GeminiProvider::chat_url(&GeminiProvider::api_base(None), "gemini/g", "SECRET-REDACTED"),
        "https://generativelanguage.googleapis.com/v1beta/models/g:generateContent?key=SECRET-REDACTED"
    );
    assert_eq!(
        GeminiProvider::stream_url("b", "g", "k"),
        "b/models/g:streamGenerateContent?key=k&alt=sse"
    );
    assert_eq!(
        OllamaProvider::chat_url(&OllamaProvider::api_base(None)),
        "http://localhost:11434/api/chat"
    );
}

#[test]
fn texts_are_cut_between_characters() {
    assert_eq!(truncate_at_char_boundary("abc", 5), 3);
    assert_eq!(truncate_at_char_boundary("abc", 2), 2);
    assert_eq!(truncate_at_char_boundary("a中b", 2), 1);
    assert_eq!(truncate_at_char_boundary("a中b", 4), 4);
    assert_eq!(truncate_at_char_boundary("中", 2), 0);
}

#[test]
fn failures_quote_the_response() {
    assert_eq!(
        refused_request("Gemini API", "500 Internal Server Error", "oops").message(),
        "Gemini API error 500 Internal Server Error: oops"
    );
    let long = "中".repeat(600);
    let error = unreadable_response("Failed to parse Gemini response", "eof", &long);
    assert_eq!(
        error.message(),
        format!("Failed to parse Gemini response: eof. Body: {}", "中".repeat(500))
    );
    let error = OpenAIProvider::unreadable_response("eof", &long);
    assert_eq!(
        error.message(),
        format!("Failed to parse response: eof. Body: {}", "中".repeat(166))
    );
    assert_eq!(
        OpenAIProvider::unreadable_response("eof", "x").message(),
        "Failed to parse response: eof. Body: x"
    );
}

fn answer(content: Option<&str>, calls: Option<Vec<ToolCall>>) -> ChatResponse {
    ChatResponse {
        choices: vec![Choice {
            message: ResponseMessage {
                content: content.map(|s| s.to_string()),
                reasoning_content: None,
                tool_calls: calls,
            },
            finish_reason: Some("stop".to_string()),
        }],
        usage: None,
    }
}

#[test]
fn native_calls_are_read_from_their_text() {
    let calls = vec![ToolCall {
        id: "c1".to_string(),
        name: "exec".to_string(),
        arguments: "{\"command\":\"ls\"}".to_string(),
    }];
    match OpenAIProvider::after_native(answer(None, Some(calls)), ToolCallMode::Native) {
        NativeStep::Answer { response, mode } => {
            assert_eq!(response.tool_calls[0].id, "c1");
            assert_eq!(response.tool_calls[0].arguments.str_at("command"), Some("ls"));
            assert!(matches!(mode, ToolCallMode::Native));
        }
        _ => panic!("an answer was expected"),
    }
}

#[test]
fn no_choice_is_an_error() {
    let response = ChatResponse { choices: vec![], usage: None };
    assert!(matches!(
        OpenAIProvider::after_native(response, ToolCallMode::Native),
        NativeStep::Fail { .. }
    ));
    let response = ChatResponse { choices: vec![], usage: None };
    assert!(OpenAIProvider::after_text(response, 1).is_err());
    let found = OpenAIProvider::after_text(
        answer(Some("<tool_call>{\"name\":\"a\",\"arguments\":{}}</tool_call>"), None),
        1,
    );
    assert_eq!(found.ok().unwrap().tool_calls.len(), 1);
}

#[test]
fn modes_have_codes() {
    for code in 0..4u8 {
        assert_eq!(OpenAIProvider::mode_to_u8(OpenAIProvider::mode_from_u8(code)), code);
    }
    assert_eq!(OpenAIProvider::mode_to_u8(OpenAIProvider::mode_from_u8(9)), 0);
    assert!(OpenAIProvider::starts_natively(ToolCallMode::Native, 2));
    assert!(!OpenAIProvider::starts_natively(ToolCallMode::Text, 2));
}

#[test]
fn tools_are_described_in_the_system_message() {
    let tools = vec![json(&read(
        r#"{"function":{"name":"exec","description":"Run it","parameters":{"type":"object"}}}"#,
    ))];
    let plan = OpenAIProvider::plan_request(&vec![ChatMessage::system("Base.")], &tools, false);
    assert!(plan.tools.is_empty());
    assert_eq!(plan.tool_choice, None);
    let text = plan.messages[0].content.as_str().unwrap();
    assert!(text.starts_with("Base."));
    assert!(text.contains("exec"));
    let plan = OpenAIProvider::plan_request(&vec![ChatMessage::user("u")], &tools, true);
    assert_eq!(plan.tools.len(), 1);
    assert_eq!(plan.tool_choice.as_deref(), Some("auto"));
    let plan = OpenAIProvider::plan_request(&vec![ChatMessage::user("u")], &tools, false);
    assert_eq!(plan.messages.len(), 2);
    assert_eq!(plan.messages[0].role, "system");
}

#[test]
fn lines_come_out_whole_however_they_arrive() {
    let mut all = LineBuffer::new();
    let whole = all.feed("data: a\ndata: b\nrest");
    let mut parts = LineBuffer::new();
    let mut lines = parts.feed("data: ");
    lines.extend(parts.feed("a\ndata: b"));
    lines.extend(parts.feed("\nrest"));
    assert_eq!(whole, lines);
    assert_eq!(whole.len(), 2);
    assert!(matches!(line_event("data: [DONE]"), LineEvent::Done));
    assert!(matches!(line_event("data: {}"), LineEvent::Data(d) if d == "{}"));
    assert!(matches!(line_event(": ping"), LineEvent::Other));
}

fn delta(text: &str) -> StreamResponse {
    StreamResponse {
        choice: Some(StreamChoice {
            content: Some(text.to_string()),
            reasoning_content: None,
            tool_calls: None,
            finish_reason: None,
        }),
        usage: None,
    }
}

#[test]
fn stream_keeps_all_text_and_calls() {
    let mut state = StreamState::new();
    let mut text = String::new();
    for piece in [delta("Hel"), delta("lo")] {
        for chunk in state.apply(&piece) {
            if let StreamChunk::TextDelta { delta } = chunk {
                text.push_str(&delta);
            }
        }
    }
    let start = StreamResponse {
        choice: Some(StreamChoice {
            content: None,
            reasoning_content: None,
            tool_calls: Some(vec![StreamToolCall {
                index: 0,
                id: Some("c1".to_string()),
                name: Some("exec".to_string()),
                arguments: Some("{\"a\":1}".to_string()),
            }]),
            finish_reason: Some("tool_calls".to_string()),
        }),
        usage: None,
    };
    state.apply(&start);
    let answer = state.finish();
    assert_eq!(text, "Hello");
    assert_eq!(answer.content.as_deref(), Some("Hello"));
    assert_eq!(answer.tool_calls[0].name, "exec");
    assert_eq!(answer.tool_calls[0].arguments.get("a").unwrap().as_u64(), Some(1));
    assert_eq!(answer.finish_reason, "tool_calls");
}

fn parts(list: Vec<(usize, Option<&str>, Option<&str>, Option<&str>)>) -> StreamResponse {
    let part = |(index, id, name, arguments): (usize, Option<&str>, Option<&str>, Option<&str>)| {
        StreamToolCall {
            index,
            id: id.map(|s| s.to_string()),
            name: name.map(|s| s.to_string()),
            arguments: arguments.map(|s| s.to_string()),
        }
    };
    StreamResponse {
        choice: Some(StreamChoice {
            content: None,
            reasoning_content: Some("why".to_string()),
            tool_calls: Some(list.into_iter().map(part).collect()),
            finish_reason: None,
        }),
        usage: None,
    }
}

/// What is passed on for a run of events, and where the chunks that end it stand.
fn passed_on<C: Collects>(
    collector: C,
    events: Vec<StreamEvent<C::Piece>>,
) -> (Vec<StreamChunk>, Vec<usize>) {
    let mut run = StreamRun::new(collector);
    let chunks: Vec<StreamChunk> = events.into_iter().flat_map(|e| run.take_in(e)).collect();
    let ends = (0..chunks.len())
        .filter(|i| matches!(chunks[*i], StreamChunk::Done { .. } | StreamChunk::Error { .. }))
        .collect();
    (chunks, ends)
}

#[test]
fn complete_stream_has_one_call_per_index_and_one_end() {
    let (chunks, ends) = passed_on(
        StreamState::new(),
        vec![
            StreamEvent::Piece(delta("Hel")),
            StreamEvent::Piece(parts(vec![
                (1, Some("c1"), Some("exec"), Some("{\"a\"")),
                (0, Some("c0"), Some("read"), None),
            ])),
            StreamEvent::Piece(delta("lo")),
            StreamEvent::Piece(parts(vec![
                (1, None, None, Some(":-1}")),
                (0, None, Some("list"), Some("{}")),
            ])),
            StreamEvent::Complete,
            StreamEvent::Piece(delta("late")),
            StreamEvent::Complete,
        ],
    );
    assert_eq!(ends, vec![chunks.len() - 1]);
    let mut arguments = [String::new(), String::new()];
    for chunk in &chunks {
        if let StreamChunk::ToolCallDelta { index, delta, .. } = chunk {
            arguments[*index].push_str(delta);
        }
    }
    assert_eq!(arguments, ["{}".to_string(), "{\"a\":-1}".to_string()]);
    let response = match chunks.last() {
        Some(StreamChunk::Done { response }) => response,
        _ => panic!("a response was expected"),
    };
    assert_eq!(response.content.as_deref(), Some("Hello"));
    assert_eq!(response.reasoning_content.as_deref(), Some("whywhy"));
    assert_eq!(response.tool_calls.len(), 2);
    let by_id = |id: &str| response.tool_calls.iter().find(|c| c.id == id).unwrap();
    assert_eq!(by_id("c0").name, "list");
    assert!(matches!(&by_id("c0").arguments, Json::Object(members) if members.is_empty()));
    assert_eq!(by_id("c1").name, "exec");
    assert!(matches!(by_id("c1").arguments.get("a"), Some(Json::Number(n)) if n == "-1"));
}

#[test]
fn broken_stream_ends_in_an_error() {
    let (chunks, ends) = passed_on(
        StreamState::new(),
        vec![
            StreamEvent::Piece(delta("Hel")),
            StreamEvent::Broken("reset".to_string()),
            StreamEvent::Complete,
        ],
    );
    assert_eq!(ends, vec![1]);
    assert!(matches!(&chunks[1], StreamChunk::Error { message } if message == "reset"));
}

#[test]
fn every_service_ends_its_stream_once() {
    let said = r#"{"candidates":[{"content":{"parts":[{"text":"Hi"}]}}]}"#;
    let (chunks, ends) = passed_on(
        GeminiStream::new(),
        vec![
            StreamEvent::Piece(gemini_response(&read(said))),
            StreamEvent::Complete,
            StreamEvent::Complete,
        ],
    );
    assert_eq!(ends, vec![1]);
    assert!(matches!(
        &chunks[1],
        StreamChunk::Done { response } if response.content.as_deref() == Some("Hi")
    ));
    let last = r#"{"message":{"content":"lo"},"done":true}"#;
    let (chunks, ends) = passed_on(
        OllamaStream::new(),
        vec![
            StreamEvent::Piece(ollama_response(&read(r#"{"message":{"content":"Hel"}}"#))),
            StreamEvent::Piece(ollama_response(&read(last))),
            StreamEvent::Complete,
        ],
    );
    assert_eq!(ends, vec![2]);
    assert!(matches!(
        &chunks[2],
        StreamChunk::Done { response } if response.content.as_deref() == Some("Hello")
    ));
}

#[test]
fn answer_is_streamed_in_one_go() {
    let response = LLMResponse {
        content: Some("text".to_string()),
        reasoning_content: Some("why".to_string()),
        tool_calls: vec![],
        finish_reason: "stop".to_string(),
        usage: Json::Null,
    };
    let chunks = chunks_of_response(response);
    assert_eq!(chunks.len(), 3);
    assert!(matches!(&chunks[0], StreamChunk::TextDelta { delta } if delta == "text"));
    assert!(matches!(&chunks[1], StreamChunk::ReasoningDelta { delta } if delta == "why"));
    assert!(matches!(&chunks[2], StreamChunk::Done { .. }));
}

#[test]
fn tool_calls_read_back_what_was_written() {
    let original = call("c1", "exec", r#"{"a":[1,2],"b":{"c":"x"}}"#, None);
    let back = ToolCallRequest::from_json(&original.to_json()).unwrap();
    assert_eq!(back.id, "c1");
    assert_eq!(back.name, "exec");
    assert_eq!(back.arguments.get("b").unwrap().str_at("c"), Some("x"));
    let flat = json(&read(r#"{"id":"i","name":"n","arguments":{"k":1},"thoughtSignature":"s"}"#));
    let flat = ToolCallRequest::from_json(&flat).unwrap();
    assert_eq!(flat.name, "n");
    assert_eq!(flat.thought_signature.as_deref(), Some("s"));
    assert!(ToolCallRequest::from_json(&Json::Null).is_none());
}

fn value(json: &Json) -> Value {
    match json {
        Json::Null => Value::Null,
        Json::Bool(b) => Value::Bool(*b),
        Json::Number(n) => Value::Number(n.parse().expect("number")),
        Json::Str(s) => Value::String(s.clone()),
        Json::Array(items) => Value::Array(items.iter().map(value).collect()),
        Json::Object(members) => {
            Value::Object(members.iter().map(|(k, v)| (k.clone(), value(v))).collect())
        }
    }
}

#[test]
fn tool_call_text_gives_the_call_back() {
    let arguments = r#"{"from":-9223372036854775808,"list":[-1,0,null,true],"to":18446744073709551615,"x":{"引":"\"号\"\n"}}"#;
    let original = call("c1", "exec", arguments, Some("signed"));
    let text = original.serialize();
    let form = read(&text);
    assert_eq!(form["id"], "c1");
    assert_eq!(form["type"], "function");
    assert_eq!(form["function"]["name"], "exec");
    assert_eq!(form["function"]["arguments"], arguments);
    let back = ToolCallRequest::deserialize(&text).unwrap();
    assert_eq!(back.id, original.id);
    assert_eq!(back.name, original.name);
    assert_eq!(value(&back.arguments), read(arguments));
    assert_eq!(back.thought_signature, None);
    assert!(ToolCallRequest::deserialize("[]").is_none());
    assert!(ToolCallRequest::deserialize("{").is_none());
}

fn nested(depth: usize) -> Json {
    (0..depth).fold(Json::Null, |inner, _| Json::Array(vec![inner]))
}

#[test]
fn arguments_are_read_back_to_a_depth() {
    let with = |arguments: Json| ToolCallRequest {
        id: "c1".to_string(),
        name: "exec".to_string(),
        arguments,
        thought_signature: None,
    };
    let back = ToolCallRequest::deserialize(&with(nested(127)).serialize()).unwrap();
    assert_eq!(value(&back.arguments), value(&nested(127)));
    let back = ToolCallRequest::deserialize(&with(nested(128)).serialize()).unwrap();
    assert!(matches!(&back.arguments, Json::Object(members) if members.is_empty()));
}
