use knowforge::message::{LlmChatMessage, LlmToolCall, LlmToolCallFunction};
use knowforge::provider::{
    build_tool_result_message, from_api_tool_name, resolve_model_name, to_api_tool_name,
    to_wire_message, ProviderKind,
    client_timeout_ms, completion_timeout_ms,
};

#[test]
fn resolve_prefers_last_used() {
    assert_eq!(
        resolve_model_name(Some("llama3"), "default"),
        Some("llama3".to_string())
    );
}

#[test]
fn resolve_falls_back_to_default() {
    assert_eq!(
        resolve_model_name(None, "default"),
        Some("default".to_string())
    );
}

#[test]
fn resolve_skips_empty_last_used() {
    assert_eq!(
        resolve_model_name(Some("  "), "default"),
        Some("default".to_string())
    );
}

#[test]
fn resolve_returns_none_when_both_empty() {
    assert_eq!(resolve_model_name(None, ""), None);
    assert_eq!(resolve_model_name(Some(""), "  "), None);
}

#[test]
fn to_api_tool_name_replaces_dots() {
    assert_eq!(to_api_tool_name("note.read"), "note-read");
    assert_eq!(to_api_tool_name("vault.search_keyword"), "vault-search_keyword");
    assert_eq!(to_api_tool_name("time.now"), "time-now");
    assert_eq!(to_api_tool_name("skill.writing_coach"), "skill-writing_coach");
}

#[test]
fn from_api_tool_name_restores_dots() {
    assert_eq!(from_api_tool_name("note-read"), "note.read");
    assert_eq!(from_api_tool_name("vault-search_keyword"), "vault.search_keyword");
    assert_eq!(from_api_tool_name("time-now"), "time.now");
    assert_eq!(from_api_tool_name("skill-writing_coach"), "skill.writing_coach");
}

#[test]
fn tool_name_round_trip() {
    let names = [
        "note.read", "note.list", "note.write_section", "note.create", "note.append",
        "vault.search_keyword", "vault.semantic_search",
        "thought.list", "thought.create",
        "web.search", "web.read_page", "web.download", "web.read_pdf",
        "graph.query_topic_network", "index.status", "link.suggest_related",
        "memory.save", "memory.forget", "time.now",
        "skill.writing_coach", "skill.web_research",
    ];
    for name in &names {
        assert_eq!(&from_api_tool_name(&to_api_tool_name(name)), name);
    }
}

#[test]
fn round_trip_breaks_for_names_with_hyphens() {
    assert_eq!(from_api_tool_name(&to_api_tool_name("a-b.c")), "a.b.c");
}

#[test]
fn serialize_tool_result_message() {
    let msg = build_tool_result_message(ProviderKind::OpenAiCompatible, "call_123", "web.search", "some result");
    assert_eq!(msg.role, "tool");
    assert_eq!(msg.tool_call_id, Some("call_123".to_string()));
    assert!(msg.tool_name.is_none());
    let msg = build_tool_result_message(ProviderKind::Ollama, "call_123", "web.search", "some result");
    assert_eq!(msg.tool_name, Some("web.search".to_string()));
    assert!(msg.tool_call_id.is_none());
    assert_eq!(msg.content, "some result");
}

#[test]
fn serialize_messages_tool_role() {
    let m = LlmChatMessage {
        role: "tool".to_string(),
        content: "result text".to_string(),
        tool_calls: None,
        tool_name: None,
        tool_call_id: Some("call_abc".to_string()),
    };
    let w = to_wire_message(&m, &Vec::new());
    assert_eq!(w.tool_call_id.as_deref(), Some("call_abc"));
    assert_eq!(w.content.as_deref(), Some("result text"));
}

#[test]
fn serialize_messages_assistant_with_tool_calls() {
    let m = LlmChatMessage {
        role: "assistant".to_string(),
        content: String::new(),
        tool_calls: Some(vec![LlmToolCall {
            id: "call_xyz".to_string(),
            function: LlmToolCallFunction {
                name: "web.search".to_string(),
                arguments: serde_json::from_str("{\"query\": \"test\"}").unwrap(),
            },
        }]),
        tool_name: None,
        tool_call_id: None,
    };
    let w = to_wire_message(&m, &vec!["{\"query\":\"test\"}".to_string()]);
    assert!(w.content.is_none());
    let tcs = w.tool_calls.unwrap();
    assert_eq!(tcs[0].id, "call_xyz");
    assert_eq!(tcs[0].arguments, "{\"query\":\"test\"}");
    assert_eq!(tcs[0].name, "web-search");
}

#[test]
fn serialize_messages_empty_content_no_tool_calls() {
    let m = LlmChatMessage {
        role: "assistant".to_string(),
        content: String::new(),
        tool_calls: None,
        tool_name: None,
        tool_call_id: None,
    };
    let w = to_wire_message(&m, &Vec::new());
    assert_eq!(w.content.as_deref(), Some(""));
    assert!(w.tool_calls.is_none());
}

#[test]
fn convert_tools_maps_names() {
    assert_eq!(to_api_tool_name("web.search"), "web-search");
}

#[test]
fn completion_timeouts_are_clamped() {
    assert_eq!(completion_timeout_ms(500), 3000);
    assert_eq!(completion_timeout_ms(20_000), 20_000);
    assert_eq!(completion_timeout_ms(120_000), 45_000);
    assert_eq!(client_timeout_ms(10), 1000);
    assert_eq!(client_timeout_ms(5000), 5000);
}

#[test]
fn api_names_have_no_dot() {
    for n in ["note.read", "vault.search_keyword", "a.b.c", "plain"] {
        let api = to_api_tool_name(n);
        assert!(!api.contains('.'));
        assert_eq!(from_api_tool_name(&api), n);
    }
}
