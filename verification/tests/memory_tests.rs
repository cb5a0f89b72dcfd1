use knowforge::memory::{
    pending_cutoff_now, pending_kept,
    contains_trigger, default_explicit, default_version, depth_rank, estimate_tokens,
    pending_values_match, truncate_message, MemoryCorrection,
};

#[test]
fn trigger_zh_keywords() {
    assert!(contains_trigger("记住我喜欢用中文标题"));
    assert!(contains_trigger("忘记这个偏好"));
    assert!(contains_trigger("以后都用简洁模式"));
    assert!(contains_trigger("以后每次都这样"));
    assert!(contains_trigger("不要再用英文标题"));
}

#[test]
fn trigger_en_keywords() {
    assert!(contains_trigger("remember I like bullet points"));
    assert!(contains_trigger("forget that preference"));
    assert!(contains_trigger("from now on use concise mode"));
    assert!(contains_trigger("always use Chinese"));
    assert!(contains_trigger("never use English titles"));
}

#[test]
fn trigger_case_insensitive() {
    assert!(contains_trigger("Remember this please"));
    assert!(contains_trigger("ALWAYS use this format"));
}

#[test]
fn trigger_normal_message_returns_false() {
    assert!(!contains_trigger("hello, how are you?"));
    assert!(!contains_trigger("help me write a note"));
    assert!(!contains_trigger("搜索一下 Rust async"));
}

#[test]
fn memory_truncate_short_message() {
    assert_eq!(truncate_message("hello", 10), "hello");
}

#[test]
fn memory_truncate_long_message() {
    let long = "a".repeat(600);
    let truncated = truncate_message(&long, 500);
    assert_eq!(truncated.len(), 500);
}

#[test]
fn memory_truncate_multibyte() {
    let msg = "你好世界这是一个测试";
    let truncated = truncate_message(msg, 3);
    assert_eq!(truncated, "你好世");
}

#[test]
fn tests_truncate_short_message() {
    assert_eq!(truncate_message("hello", 10), "hello");
}

#[test]
fn tests_truncate_long_message() {
    let long = "a".repeat(600);
    let truncated = truncate_message(&long, 500);
    assert_eq!(truncated.len(), 500);
}

#[test]
fn tests_truncate_multibyte() {
    let msg = "你好世界这是一个测试";
    let truncated = truncate_message(msg, 3);
    assert_eq!(truncated, "你好世");
}

#[test]
fn estimate_tokens_basic() {
    assert_eq!(estimate_tokens("hello"), 1);
    assert_eq!(estimate_tokens("你好世界"), 4);
    assert_eq!(estimate_tokens("hello你好"), 3);
    assert_eq!(estimate_tokens(""), 0);
}

#[test]
fn depth_rank_orders_levels() {
    assert_eq!(depth_rank("curious"), 1);
    assert_eq!(depth_rank("learning"), 2);
    assert_eq!(depth_rank("practitioner"), 3);
    assert_eq!(depth_rank("expert"), 4);
    assert_eq!(depth_rank("Expert"), 0);
}

#[test]
fn pending_values_match_is_case_insensitive_containment() {
    assert!(pending_values_match("Concise", "concise answers"));
    assert!(pending_values_match("detailed", "DETAILED"));
    assert!(!pending_values_match("concise", "verbose"));
}

#[test]
fn memory_defaults() {
    assert_eq!(default_version(), 2);
    assert_eq!(default_explicit(), "explicit");
}

#[test]
fn correction_active_until_superseded() {
    let mut c = MemoryCorrection {
        rule: "use Chinese titles".to_string(),
        reason: "asked".to_string(),
        date: "2026-01-01".to_string(),
        source: "explicit".to_string(),
        superseded_by: None,
        superseded_at: None,
    };
    assert!(c.is_active());
    c.superseded_by = Some("user_forget".to_string());
    assert!(!c.is_active());
}

#[test]
fn pending_styles_expire_after_cutoff() {
    let cutoff = (1_700_000_000i64, 500u32);
    assert!(pending_kept("2023-11-14T22:13:21Z", cutoff));
    assert!(!pending_kept("2023-11-14T22:13:20Z", cutoff));
    assert!(pending_kept("2023-11-14T22:13:20.000000600Z", cutoff));
    assert!(pending_kept("not a time", cutoff));
    let now_cut = pending_cutoff_now();
    assert!(pending_kept(&chrono::Utc::now().to_rfc3339(), now_cut));
    assert!(!pending_kept("2001-01-01T00:00:00Z", now_cut));
}
