use knowforge::passive::{
    detect_json_slice, inaccuracy_steps, normalize_kind, passive_candidate, passive_model,
    passive_summary, passive_user_content, reported_kind, INVALID_JSON_SLICE, NO_JSON_OBJECT,
    NO_MODEL_SELECTED,
};

#[test]
fn extract_detect_json_parses_object() {
    let raw = r#"Here is {"detected":true,"kind":"correct","confidence":0.8,"summary":"x","useRawFallback":false} end"#;
    let slice = detect_json_slice(raw).unwrap();
    let j: serde_json::Value = serde_json::from_str(&slice).unwrap();
    assert_eq!(j["detected"], serde_json::Value::Bool(true));
    assert_eq!(j["kind"].as_str(), Some("correct"));
}

#[test]
fn detect_json_slice_errors() {
    assert_eq!(detect_json_slice("no json here"), Err(NO_JSON_OBJECT.to_string()));
    assert_eq!(detect_json_slice("} then {"), Err(INVALID_JSON_SLICE.to_string()));
    assert_eq!(detect_json_slice("  {\"a\":{\"b\":1}}  "), Ok("{\"a\":{\"b\":1}}".to_string()));
}

#[test]
fn passive_candidates_and_prompt() {
    assert_eq!(passive_candidate("  too short  "), None);
    assert_eq!(
        passive_candidate("  this message is long enough  "),
        Some("this message is long enough".to_string())
    );
    assert_eq!(
        passive_user_content("abc"),
        "Analyze the following user message.\n\n---\nabc\n---"
    );
}

#[test]
fn passive_model_choice() {
    assert_eq!(passive_model(Some(" llama3 "), "qwen"), Ok("llama3".to_string()));
    assert_eq!(passive_model(Some(" "), " qwen"), Ok(" qwen".to_string()));
    assert_eq!(passive_model(None, "  "), Err(NO_MODEL_SELECTED.to_string()));
}

#[test]
fn kinds_and_steps() {
    assert_eq!(normalize_kind(" correct "), Some("correct"));
    assert_eq!(normalize_kind("other"), None);
    assert_eq!(reported_kind(None), Some("integrate"));
    assert_eq!(inaccuracy_steps((2, 0, 0), "integrate"), 2);
    assert_eq!(inaccuracy_steps((10, 0, 0), "integrate"), 5);
    assert_eq!(inaccuracy_steps((0, 3, 7), "cross_domain"), 5);
    assert_eq!(inaccuracy_steps((9, 9, 9), "unknown"), 0);
}

#[test]
fn summary_fallback_and_cut() {
    assert_eq!(passive_summary(Some("a note"), None, "msg"), ("a note".to_string(), false));
    assert_eq!(passive_summary(Some("  "), None, "msg"), ("msg".to_string(), true));
    assert_eq!(passive_summary(Some("x"), Some(true), "msg"), ("msg".to_string(), true));
    assert_eq!(passive_summary(None, None, "msg"), ("msg".to_string(), true));
    let long = "a".repeat(5000);
    let (s, _) = passive_summary(Some(&long), None, "msg");
    assert_eq!(s.len(), 4000);
}
