use knowforge::message::LlmChatMessage;
use knowforge::results::{
    extract_user_goal, finish_result, format_keyword_hits, process_plan, rule_based_shape,
    summarized_content, truncate_at_boundary, KeywordHit, ProcessPlan, RuleBasedShape,
    RECALL_TOOL_NAME,
    summarize_messages, usable_summary, SUMMARIZE_SYSTEM,
};

#[test]
fn truncate_at_boundary_cjk() {
    let s = "你好世界测试";
    let t = truncate_at_boundary(s, 7);
    assert!(t.len() <= 7);
    assert_eq!(t, "你好");
}

#[test]
fn extract_user_goal_finds_last_user_msg() {
    let messages = vec![
        LlmChatMessage {
            role: "user".to_string(),
            content: "first question".to_string(),
            ..Default::default()
        },
        LlmChatMessage {
            role: "assistant".to_string(),
            content: "answer".to_string(),
            ..Default::default()
        },
        LlmChatMessage {
            role: "user".to_string(),
            content: "second question".to_string(),
            ..Default::default()
        },
    ];
    assert_eq!(
        extract_user_goal(&messages),
        Some("second question".to_string())
    );
}

#[test]
fn summarized_content_names_size_and_ref() {
    assert_eq!(
        summarized_content(12474, Some("019717ab"), "Key finding."),
        "[summarized from 12474 chars | ref:019717ab]\nKey finding."
    );
    assert_eq!(
        summarized_content(500, None, "Gist."),
        "[summarized from 500 chars]\nGist."
    );
}


#[test]
fn tool_result_processor_short_result_passes_through() {
    assert_eq!(process_plan("note.read", "short content", 3000), ProcessPlan::PassThrough);
    let result = finish_result("short content", None, None);
    assert_eq!(result.content, "short content");
    assert!(!result.was_summarized);
    assert_eq!(result.original_len, 13);
}

#[test]
fn long_non_web_non_vault_passes_through() {
    let long = "x".repeat(200);
    assert_eq!(process_plan("note.read", &long, 100), ProcessPlan::RuleBased);
    assert_eq!(rule_based_shape("note.read"), RuleBasedShape::Unknown);
    let result = finish_result(&long, None, None);
    assert_eq!(result.content, long);
    assert!(!result.was_summarized);
}

#[test]
fn recall_tool_result_passes_through() {
    let long = "x".repeat(200);
    assert_eq!(process_plan(RECALL_TOOL_NAME, &long, 10), ProcessPlan::PassThrough);
    let result = finish_result(&long, None, None);
    assert_eq!(result.content, long);
    assert!(!result.was_summarized);
}

#[test]
fn long_web_result_is_summarized_with_ref() {
    let raw = "y".repeat(100);
    assert_eq!(process_plan("web.search", &raw, 10), ProcessPlan::LlmSummary);
    let result = finish_result(&raw, Some("short summary"), Some("abcdef12"));
    assert!(result.was_summarized);
    assert_eq!(result.content, "[summarized from 100 chars | ref:abcdef12]\nshort summary");
    assert!(result.content.contains("ref:abcdef12"));
}

fn hit(path: &str, snippet: &str) -> KeywordHit {
    KeywordHit { rel_path: Some(path.to_string()), snippet: Some(snippet.to_string()), score_label: None }
}

#[test]
fn vault_keyword_rule_extraction() {
    assert_eq!(rule_based_shape("vault.search_keyword"), RuleBasedShape::KeywordSnippets);
    let hits = vec![
        hit("a.md", &"x".repeat(300)),
        hit("b.md", &"y".repeat(300)),
        hit("c.md", &"z".repeat(50)),
    ];
    let result = format_keyword_hits(&hits).unwrap();
    assert!(result.contains("a.md"));
    assert!(result.contains("b.md"));
    assert!(result.contains("c.md"));
    assert!(!result.contains(&"x".repeat(300)));
    assert!(result.contains(&format!("- a.md: {}\n", "x".repeat(200))));
}

#[test]
fn vault_keyword_more_than_top_k() {
    let hits: Vec<KeywordHit> = (0..8).map(|i| hit(&format!("{}.md", i), &format!("content {}", i))).collect();
    let result = format_keyword_hits(&hits).unwrap();
    assert!(result.contains("3 more results omitted"));
}

#[test]
fn semantic_hits_extraction() {
    assert_eq!(rule_based_shape("vault.semantic_search"), RuleBasedShape::SemanticHits);
    // the scores 0.92 and 0.85, formatted with two decimals
    let hits = vec![
        KeywordHit {
            rel_path: Some("note1.md".to_string()),
            snippet: Some("some content".to_string()),
            score_label: Some(format!(" ({:.2})", 0.92f64)),
        },
        KeywordHit {
            rel_path: Some("note2.md".to_string()),
            snippet: Some("other content".to_string()),
            score_label: Some(format!(" ({:.2})", 0.85f64)),
        },
    ];
    let result = format_keyword_hits(&hits).unwrap();
    assert!(result.contains("note1.md"));
    assert!(result.contains("(0.92)"));
    assert!(result.contains("note2.md"));
    assert_eq!(result, "- note1.md (0.92): some content\n- note2.md (0.85): other content");
}

#[test]
fn no_hits_no_extraction() {
    assert!(format_keyword_hits(&Vec::new()).is_none());
    let missing = vec![KeywordHit { rel_path: None, snippet: None, score_label: None }];
    assert_eq!(format_keyword_hits(&missing).unwrap(), "- ?: ");
}

#[test]
fn summary_request_carries_goal_tool_and_cut_raw() {
    let raw = "x".repeat(5000);
    let msgs = summarize_messages("web.read_page", &raw, Some("find the price"));
    assert_eq!(msgs.len(), 2);
    assert_eq!(msgs[0].role, "system");
    assert_eq!(msgs[0].content, SUMMARIZE_SYSTEM);
    assert_eq!(msgs[1].role, "user");
    let expected = format!(
        "User's task context: find the price\n\nTool: web.read_page\nRaw result (5000 chars):\n{}",
        "x".repeat(4000)
    );
    assert_eq!(msgs[1].content, expected);
    let no_goal = summarize_messages("web.search", "abc", None);
    assert_eq!(no_goal[1].content, "Tool: web.search\nRaw result (3 chars):\nabc");
}

#[test]
fn blank_summaries_are_dropped() {
    assert_eq!(usable_summary(Some("  key facts ")), Some("  key facts ".to_string()));
    assert_eq!(usable_summary(Some(" \n\t ")), None);
    assert_eq!(usable_summary(None), None);
}
