use blockcell::json::object1;
use blockcell::ollama::OllamaProvider;
use blockcell::openai::OpenAIProvider;
use blockcell::value::Json;

fn member<'a>(value: &'a Json, key: &str) -> &'a Json {
    value.get(key).expect("member")
}

fn text_at<'a>(value: &'a Json, key: &str) -> &'a str {
    member(value, key).as_str().expect("text")
}

fn number_at(value: &Json, key: &str) -> u64 {
    member(value, key).as_u64().expect("number")
}

#[test]
fn test_parse_xml_tool_call() {
    let content = r#"I'll search for that.
<tool_call>
{"name": "web_search", "arguments": {"query": "rust async"}}
</tool_call>
Done."#;
    let (remaining, calls) = OpenAIProvider::parse_text_tool_calls(content);
    assert_eq!(calls.len(), 1);
    assert_eq!(calls[0].name, "web_search");
    assert_eq!(text_at(&calls[0].arguments, "query"), "rust async");
    assert!(remaining.contains("I'll search"));
    assert!(remaining.contains("Done."));
}

#[test]
fn test_parse_bracket_tool_call_json() {
    let content = r#"
[TOOL_CALL]
{"name": "memory_query", "arguments": {"top_k": 20}}
[/TOOL_CALL]
"#;
    let (remaining, calls) = OpenAIProvider::parse_text_tool_calls(content);
    assert_eq!(calls.len(), 1);
    assert_eq!(calls[0].name, "memory_query");
    assert_eq!(number_at(&calls[0].arguments, "top_k"), 20);
    assert!(remaining.is_empty());
}

#[test]
fn test_parse_bracket_tool_call_arrow_syntax() {
    let content = "\n\n\n[TOOL_CALL]\n{tool => \"memory_query\", args => {\n  --top_k 20\n}}\n[/TOOL_CALL]";
    let (remaining, calls) = OpenAIProvider::parse_text_tool_calls(content);
    assert_eq!(calls.len(), 1);
    assert_eq!(calls[0].name, "memory_query");
    assert_eq!(number_at(&calls[0].arguments, "top_k"), 20);
    assert!(remaining.is_empty());
}

#[test]
fn test_parse_arrow_syntax_string_args() {
    let content = "[TOOL_CALL]\n{tool => \"web_search\", args => {\n  --query \"rust programming\"\n}}\n[/TOOL_CALL]";
    let (remaining, calls) = OpenAIProvider::parse_text_tool_calls(content);
    assert_eq!(calls.len(), 1);
    assert_eq!(calls[0].name, "web_search");
    assert_eq!(text_at(&calls[0].arguments, "query"), "rust programming");
    assert!(remaining.is_empty());
}

#[test]
fn test_parse_function_parameter_tool_call() {
    let content = r#"我来帮你查看当前目录下的文件：
<tool_call>
<function=exec>
<parameter=command>
ls -la
</parameter>
</function>
</tool_call>"#;
    let (remaining, calls) = OpenAIProvider::parse_text_tool_calls(content);
    assert_eq!(calls.len(), 1);
    assert_eq!(calls[0].name, "exec");
    assert_eq!(text_at(&calls[0].arguments, "command"), "ls -la");
    assert!(remaining.contains("我来帮你查看当前目录下的文件"));
}

#[test]
fn test_parse_dash_args() {
    let args = OpenAIProvider::parse_dash_args("--top_k 20 --query hello --verbose");
    assert_eq!(number_at(&args, "top_k"), 20);
    assert_eq!(text_at(&args, "query"), "hello");
    assert_eq!(member(&args, "verbose").as_bool(), Some(true));
}

#[test]
fn test_no_tool_calls_returns_empty() {
    let content = "This is just a normal response with no tool calls.";
    let (remaining, calls) = OpenAIProvider::parse_text_tool_calls(content);
    assert!(calls.is_empty());
    assert_eq!(remaining, content);
}

#[test]
fn test_parse_nonstandard_block_with_tool_key() {
    let block = r#"{tool => "read_file", args => {"path": "/tmp/test.txt"}}"#;
    let tc = OpenAIProvider::parse_nonstandard_tool_block(block, 0).unwrap();
    assert_eq!(tc.name, "read_file");
    assert_eq!(text_at(&tc.arguments, "path"), "/tmp/test.txt");
}

#[test]
fn test_parse_minimax_invoke_no_params() {
    let content = "\n\n\n\n<invoke name=\"list_skills\">\n</invoke>\n</minimax:tool_call>";
    let (remaining, calls) = OpenAIProvider::parse_text_tool_calls(content);
    assert_eq!(calls.len(), 1);
    assert_eq!(calls[0].name, "list_skills");
    assert!(matches!(&calls[0].arguments, Json::Object(members) if members.is_empty()));
    assert!(remaining.is_empty(), "remaining should be empty, got: {:?}", remaining);
}

#[test]
fn test_parse_minimax_invoke_with_params() {
    let content = "<invoke name=\"exec\">\n<parameter name=\"command\">ls -la</parameter>\n</invoke>\n</minimax:tool_call>";
    let (remaining, calls) = OpenAIProvider::parse_text_tool_calls(content);
    assert_eq!(calls.len(), 1);
    assert_eq!(calls[0].name, "exec");
    assert_eq!(text_at(&calls[0].arguments, "command"), "ls -la");
    assert!(remaining.is_empty());
}

#[test]
fn test_parse_minimax_invoke_multiple_params() {
    let content = "<invoke name=\"http_request\">\n<parameter name=\"action\">get</parameter>\n<parameter name=\"url\">https://example.com</parameter>\n</invoke>\n</minimax:tool_call>";
    let (remaining, calls) = OpenAIProvider::parse_text_tool_calls(content);
    assert_eq!(calls.len(), 1);
    assert_eq!(calls[0].name, "http_request");
    assert_eq!(text_at(&calls[0].arguments, "action"), "get");
    assert_eq!(text_at(&calls[0].arguments, "url"), "https://example.com");
    assert!(remaining.is_empty());
}

#[test]
fn test_parse_minimax_invoke_without_minimax_wrapper() {
    let content = "Let me check.\n<invoke name=\"list_skills\">\n</invoke>\nDone.";
    let (remaining, calls) = OpenAIProvider::parse_text_tool_calls(content);
    assert_eq!(calls.len(), 1);
    assert_eq!(calls[0].name, "list_skills");
    assert!(remaining.contains("Let me check."));
}

#[test]
fn test_parse_text_tool_calls() {
    let content = "I'll read that file.\n<tool_call>\n{\"name\": \"read_file\", \"arguments\": {\"path\": \"/tmp/test\"}}\n</tool_call>\nDone.";
    let (remaining, calls) = OllamaProvider::parse_text_tool_calls(content);
    assert_eq!(calls.len(), 1);
    assert_eq!(calls[0].name, "read_file");
    assert!(remaining.contains("I'll read that file."));
    assert!(remaining.contains("Done."));
}

#[test]
fn calls_in_one_text_are_numbered_in_order() {
    let content = "<tool_call>{\"name\": \"a\", \"arguments\": {}}</tool_call><tool_call>{\"name\": \"b\", \"arguments\": {}}</tool_call>";
    let (remaining, calls) = OpenAIProvider::parse_text_tool_calls(content);
    assert_eq!(remaining, "");
    assert_eq!(calls.len(), 2);
    assert_eq!(calls[0].name, "a");
    assert_eq!(calls[1].name, "b");
    assert_ne!(calls[0].id, calls[1].id);
}

#[test]
fn broken_block_is_no_call() {
    let (_, calls) = OpenAIProvider::parse_text_tool_calls("<tool_call>{not json}</tool_call>");
    assert!(calls.is_empty());
    let (_, calls) = OllamaProvider::parse_text_tool_calls("<tool_call>{not json}</tool_call>");
    assert!(calls.is_empty());
}

#[test]
fn arrow_values_and_arguments() {
    let text = "{tool => \"read_file\", args => {\"path\": \"/a\"}}";
    assert_eq!(OpenAIProvider::extract_arrow_value(text, "tool").as_deref(), Some("read_file"));
    assert_eq!(OpenAIProvider::extract_arrow_value(text, "other"), None);
    let args = OpenAIProvider::extract_arrow_args(text);
    assert_eq!(text_at(&args, "path"), "/a");
}

#[test]
fn options_read_numbers_texts_and_switches() {
    let args = OpenAIProvider::parse_dash_args("--ratio 0.5 --on true --name \"a b\" --last");
    assert!(matches!(member(&args, "ratio"), Json::Number(n) if n == "0.5"));
    assert_eq!(member(&args, "on").as_bool(), Some(true));
    assert_eq!(text_at(&args, "name"), "a b");
    assert_eq!(member(&args, "last").as_bool(), Some(true));
}

#[test]
fn function_block_becomes_a_call() {
    let block = "<function=exec>\n<parameter=command>\nls\n</parameter>\n</function>";
    let call = OpenAIProvider::parse_function_parameter_tool_block(block, 3).unwrap();
    assert_eq!(call.name, "exec");
    assert_eq!(text_at(&call.arguments, "command"), "ls");
    assert!(OpenAIProvider::parse_function_parameter_tool_block("no block", 0).is_none());
}

#[test]
fn object_holds_its_member() {
    let value = object1("k", Json::number(7));
    assert_eq!(number_at(&value, "k"), 7);
    assert!(value.get("other").is_none());
}

#[test]
fn calls_in_text_are_numbered_and_unsigned() {
    let block = |name: &str| {
        format!(
            "<tool_call>{{\"name\":\"{}\",\"arguments\":{{}},\"thought_signature\":\"s\"}}</tool_call>",
            name
        )
    };
    let content = format!("a {} b {} c", block("x"), block("y"));
    let (rest, calls) = OpenAIProvider::parse_text_tool_calls(&content);
    assert_eq!(rest, "a  b  c");
    let ids: Vec<_> = calls.iter().map(|c| c.id.as_str()).collect();
    assert_eq!(ids, vec!["text_call_0", "text_call_1"]);
    assert!(calls.iter().all(|c| c.thought_signature.is_none()));
    let (_, calls) = OllamaProvider::parse_text_tool_calls(&content);
    let ids: Vec<_> = calls.iter().map(|c| c.id.as_str()).collect();
    assert_eq!(ids, vec!["ollama_call_0", "ollama_call_1"]);
    assert!(calls.iter().all(|c| c.thought_signature.is_none()));
}
