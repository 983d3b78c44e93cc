use blockcell::response_cache::ResponseCache;

fn numbered(line: &str) -> String {
    (1..=20)
        .map(|i| format!("{}. {}", i, line.replace("{}", &i.to_string())))
        .collect::<Vec<_>>()
        .join("\n")
}

fn ref_of(stub: &str) -> String {
    stub.split("ref:").nth(1).unwrap().split(']').next().unwrap().to_string()
}

#[test]
fn test_not_cacheable_short() {
    let mut cache = ResponseCache::new();
    let result = cache.maybe_cache_and_stub("s1", "短内容");
    assert!(result.is_none());
}

#[test]
fn test_not_cacheable_no_list() {
    let mut cache = ResponseCache::new();
    let content = "这是一段很长的文本。".repeat(100);
    let result = cache.maybe_cache_and_stub("s1", &content);
    assert!(result.is_none());
}

#[test]
fn test_numbered_list_cached() {
    let mut cache = ResponseCache::new();
    let content = numbered("这是第{}条内容，包含足够多的文字描述以确保达到缓存阈值。本条目记录了系统中的一个重要数据项目。");
    let result = cache.maybe_cache_and_stub("sess_abc", &content);
    assert!(result.is_some(), "content len={}", content.chars().count());
    let stub = result.unwrap();
    assert!(stub.contains("ref:"));
    assert!(stub.contains("20条"));
}

#[test]
fn test_recall_by_id() {
    let mut cache = ResponseCache::new();
    let content = numbered("条目 {} 的详细内容说明，包含足够多的文字描述以确保达到800字符缓存阈值，用于验证recall功能正确性。");
    let stub = cache.maybe_cache_and_stub("sess_xyz", &content).unwrap();
    let ref_id = ref_of(&stub);
    let recalled = cache.recall("sess_xyz", &ref_id).unwrap();
    assert_eq!(recalled, content);
}

#[test]
fn test_recall_with_prefix() {
    let mut cache = ResponseCache::new();
    let content = numbered("项目 {} 说明文字，包含足够多的文字描述以确保达到800字符缓存阈值，用于验证带ref前缀的recall功能。");
    let stub = cache.maybe_cache_and_stub("s2", &content).unwrap();
    let bare_id = ref_of(&stub);
    let json_str = cache.recall_json("s2", &format!("ref:{}", bare_id));
    let v: serde_json::Value = serde_json::from_str(&json_str).unwrap();
    assert_eq!(v["status"], "found");
}

#[test]
fn test_extract_list_items() {
    let content = "1. Apple\n2. Banana\n3. Cherry\n- Dog\n* Elephant\n• Frog\nNot a list item";
    let items = ResponseCache::extract_list_items(content);
    assert_eq!(items.len(), 6);
    assert_eq!(items[0], "Apple");
    assert_eq!(items[3], "Dog");
}

#[test]
fn test_session_isolation() {
    let mut cache = ResponseCache::new();
    let content = numbered("内容 {}，包含足够多的文字描述以确保达到800字符缓存阈值，用于验证会话隔离功能，不同会话的数据不应互相访问。");
    let stub = cache.maybe_cache_and_stub("session_A", &content).unwrap();
    let ref_id = ref_of(&stub);
    assert!(cache.recall("session_B", &ref_id).is_none());
    assert!(cache.recall("session_A", &ref_id).is_some());
}

#[test]
fn cleared_session_recalls_nothing() {
    let mut cache = ResponseCache::new();
    let content = numbered("条目 {} 的详细内容说明，包含足够多的文字描述以确保达到800字符缓存阈值，用于验证recall功能正确性。");
    let first = ref_of(&cache.maybe_cache_and_stub("a", &content).unwrap());
    let second = ref_of(&cache.maybe_cache_and_stub("b", &content).unwrap());
    cache.clear_session("a");
    assert!(cache.recall("a", &first).is_none());
    assert!(cache.recall("b", &second).is_some());
    let missing = cache.recall_json("a", &first);
    let v: serde_json::Value = serde_json::from_str(&missing).unwrap();
    assert_ne!(v["status"], "found");
}

#[test]
fn ids_are_fresh_and_short() {
    let id = ResponseCache::generate_ref_id("s");
    assert!(!id.is_empty());
    assert!(id.chars().all(|c| c.is_ascii_hexdigit()));
}

#[test]
fn oldest_entry_makes_room() {
    let mut cache = ResponseCache::new();
    let content = numbered("条目 {} 的详细内容说明，包含足够多的文字描述以确保达到800字符缓存阈值，用于验证recall功能正确性。");
    let mut kept = 0;
    for i in 0..60 {
        let id = format!("id{}", i);
        assert!(cache.cache_as("s", &content, &id, i).is_some());
    }
    for i in 0..60 {
        if cache.recall("s", &format!("id{}", i)).is_some() {
            kept += 1;
        }
    }
    assert!(kept < 60);
    assert!(cache.recall("s", "id0").is_none());
    assert!(cache.recall("s", "id59").is_some());
}

#[test]
fn numbered_prefixes_are_stripped() {
    assert_eq!(ResponseCache::strip_numbered_prefix("12. text").as_deref(), Some("text"));
    assert_eq!(ResponseCache::strip_numbered_prefix("text"), None);
    assert!(!ResponseCache::is_cacheable("short"));
}

#[test]
fn long_text_is_cacheable_where_it_holds_a_list() {
    let prose = "这是一段很长的文本。".repeat(100);
    assert!(!ResponseCache::is_cacheable(&prose));
    assert!(ResponseCache::is_cacheable(&format!("{}\n- item", prose)));
    assert!(!ResponseCache::is_cacheable("- item"));
    let mut cache = ResponseCache::new();
    let few = format!("{}\n- a\n- b\n- c\n- d", prose);
    assert!(cache.cache_as("s", &few, "id", 0).is_none());
    assert!(cache.cache_as("s", &format!("{}\n- e", few), "id", 0).is_some());
}

#[test]
fn stub_names_the_answer_it_stands_for() {
    let mut cache = ResponseCache::new();
    let content = numbered("条目 {} 的 ref:deadbeef] 详细内容说明，包含足够多的文字描述以确保达到800字符缓存阈值，用于验证recall功能正确性。");
    let stub = cache.cache_as("s", &content, "0123abcd", 7).unwrap();
    assert!(stub.starts_with("[已缓存20条结果，ID: ref:0123abcd]\n1. 条目 1 "));
    assert_eq!(ref_of(&stub), "0123abcd");
    assert_eq!(cache.recall("s", "0123abcd"), Some(content.clone()));
    assert_eq!(cache.recall("s", "ref:0123abcd"), Some(content));
}

#[test]
fn eleventh_answer_takes_the_place_of_the_first() {
    let mut cache = ResponseCache::new();
    let content = numbered("条目 {} 的详细内容说明，包含足够多的文字描述以确保达到800字符缓存阈值，用于验证recall功能正确性。");
    for i in 0..10 {
        assert!(cache.cache_as("s", &content, &format!("id{}", i), i).is_some());
    }
    assert!(cache.recall("s", "id0").is_some());
    assert!(cache.cache_as("s", &content, "id10", 10).is_some());
    assert!(cache.recall("s", "id0").is_none());
    for i in 1..11 {
        assert!(cache.recall("s", &format!("id{}", i)).is_some());
    }
}
