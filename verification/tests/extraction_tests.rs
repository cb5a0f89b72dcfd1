use knowforge::extraction::{
    build_memory_summary_for_extraction, build_reflection_prompt, build_session_extraction_prompt,
    should_reflect, trim_messages_for_extraction, DomainSummary, MAX_EXTRACTION_MESSAGES,
    kept_proposals, session_extraction_request, MAX_ARCHIVES_PER_REFLECTION,
};
use knowforge::memory::{InteractionStyle, MemoryCorrection, ProposalAction};
use knowforge::message::LlmChatMessage;

fn msg(role: &str, content: &str) -> LlmChatMessage {
    LlmChatMessage {
        role: role.to_string(),
        content: content.to_string(),
        ..Default::default()
    }
}

fn alternating(n: usize) -> Vec<LlmChatMessage> {
    (0..n)
        .map(|i| msg(if i % 2 == 0 { "user" } else { "assistant" }, &format!("msg {i}")))
        .collect()
}

fn empty_summary() -> String {
    build_memory_summary_for_extraction(&Vec::new(), &Vec::new(), &InteractionStyle::default())
}

fn sample_update_json() -> String {
    "{\n  \"knowledge_domains\": [\n    {\n      \"domain\": \"Rust\",\n      \"depth\": \"learning\",\n      \"confidence\": 0.5\n    }\n  ]\n}".to_string()
}

// A correction or a domain in memory is what `memory_has_entries` reports.

#[test]
fn memory_should_reflect_empty_memory_returns_false() {
    let messages = alternating(5);
    assert!(!should_reflect(&messages, false));
}

#[test]
fn tests_should_reflect_empty_memory_returns_false() {
    let messages = alternating(5);
    assert!(!should_reflect(&messages, false));
}

fn short_conversation() -> Vec<LlmChatMessage> {
    vec![msg("user", "hi"), msg("assistant", "hello"), msg("user", "bye")]
}

#[test]
fn memory_should_reflect_short_conversation_returns_false() {
    assert!(!should_reflect(&short_conversation(), true));
}

#[test]
fn tests_should_reflect_short_conversation_returns_false() {
    assert!(!should_reflect(&short_conversation(), true));
}

#[test]
fn memory_should_reflect_sufficient_returns_true() {
    assert!(should_reflect(&alternating(6), true));
}

#[test]
fn tests_should_reflect_sufficient_returns_true() {
    assert!(should_reflect(&alternating(6), true));
}

#[test]
fn trim_preserves_system_messages_and_first_user() {
    let mut msgs = vec![msg("system", "sys1"), msg("system", "sys2"), msg("user", "first user")];
    for i in 0..40 {
        msgs.push(msg(if i % 2 == 0 { "assistant" } else { "user" }, &format!("msg {i}")));
    }
    let trimmed = trim_messages_for_extraction(&msgs);
    assert!(trimmed.len() <= MAX_EXTRACTION_MESSAGES);
    assert_eq!(trimmed[0].content, "sys1");
    assert_eq!(trimmed[1].content, "sys2");
    assert_eq!(trimmed[2].content, "first user");
    assert_eq!(trimmed.last().unwrap().content, msgs.last().unwrap().content);
}

#[test]
fn trim_short_conversation_unchanged() {
    let msgs = alternating(5);
    let trimmed = trim_messages_for_extraction(&msgs);
    assert_eq!(trimmed.len(), 5);
}

fn users(n: usize) -> Vec<LlmChatMessage> {
    (0..n).map(|i| msg("user", &format!("msg {i}"))).collect()
}

#[test]
fn memory_trim_within_limit() {
    let trimmed = trim_messages_for_extraction(&users(10));
    assert_eq!(trimmed.len(), 10);
}

#[test]
fn tests_trim_within_limit() {
    let trimmed = trim_messages_for_extraction(&users(10));
    assert_eq!(trimmed.len(), 10);
}

#[test]
fn tests_trim_over_limit() {
    let trimmed = trim_messages_for_extraction(&users(40));
    assert_eq!(trimmed.len(), MAX_EXTRACTION_MESSAGES);
    assert_eq!(trimmed[0].content, "msg 0");
    assert_eq!(trimmed[1].content, "msg 11");
    assert_eq!(trimmed.last().unwrap().content, "msg 39");
}

#[test]
fn tests_session_prompt_contains_memory_and_conversation() {
    let msgs = vec![
        msg("user", "tell me about Rust"),
        msg("assistant", "Rust is a systems language"),
    ];
    let prompt = build_session_extraction_prompt(&empty_summary(), &msgs);
    assert!(prompt.contains("No existing memory."));
    assert!(prompt.contains("[user]: tell me about Rust"));
    assert!(prompt.contains("[assistant]: Rust is a systems language"));
    assert!(prompt.contains("knowledge_domains"));
}

fn tool_conversation() -> Vec<LlmChatMessage> {
    vec![
        msg("user", "search something"),
        msg("tool", "tool result"),
        msg("assistant", "here's what I found"),
    ]
}

#[test]
fn memory_session_prompt_filters_tool_messages() {
    let prompt = build_session_extraction_prompt(&empty_summary(), &tool_conversation());
    assert!(!prompt.contains("[tool]"));
    assert!(prompt.contains("[user]"));
    assert!(prompt.contains("[assistant]"));
}

#[test]
fn tests_session_prompt_filters_tool_messages() {
    let prompt = build_session_extraction_prompt(&empty_summary(), &tool_conversation());
    assert!(!prompt.contains("[tool]"));
    assert!(prompt.contains("[user]"));
    assert!(prompt.contains("[assistant]"));
}

#[test]
fn memory_summary_includes_domains_and_corrections() {
    let domains = vec![
        DomainSummary {
            domain: "Rust".to_string(),
            depth: "practitioner".to_string(),
            current_focus: Some("async".to_string()),
            archived: false,
        },
        DomainSummary {
            domain: "Python".to_string(),
            depth: "expert".to_string(),
            current_focus: None,
            archived: true,
        },
    ];
    let corrections = vec![MemoryCorrection {
        rule: "Use concise style".to_string(),
        reason: "user preference".to_string(),
        date: "2026-06-01".to_string(),
        source: "explicit".to_string(),
        superseded_by: None,
        superseded_at: None,
    }];
    let mut style = InteractionStyle::default();
    style.detail_preference = Some("concise".to_string());
    let summary = build_memory_summary_for_extraction(&domains, &corrections, &style);
    assert!(summary.contains("Rust (practitioner)"));
    assert!(summary.contains("focus: async"));
    assert!(!summary.contains("Python"), "archived domain must be excluded");
    assert!(summary.contains("Use concise style"));
    assert!(summary.contains("detail_preference=concise"));
    assert!(!summary.contains("confidence"));
    assert!(!summary.contains("evidence_count"));
    assert_eq!(
        summary,
        "Known domains:\n- Rust (practitioner), focus: async\n\nExisting rules:\n- Use concise style\n\nInteraction style: detail_preference=concise"
    );
}

#[test]
fn empty_memory_summary() {
    assert_eq!(empty_summary(), "No existing memory.");
}

#[test]
fn memory_reflection_prompt_contains_both_inputs() {
    let prompt = build_reflection_prompt(&empty_summary(), &sample_update_json());
    assert!(prompt.contains("Existing memory"));
    assert!(prompt.contains("New extraction"));
    assert!(prompt.contains("Rust"));
}

#[test]
fn tests_reflection_prompt_contains_both_inputs() {
    let prompt = build_reflection_prompt(&empty_summary(), &sample_update_json());
    assert!(prompt.contains("Existing memory"));
    assert!(prompt.contains("New extraction"));
    assert!(prompt.contains("Rust"));
    assert!(!prompt.contains("{new_update_json}"));
    assert!(!prompt.contains("{current_memory_json}"));
}

#[test]
fn session_prompt_truncates_long_messages() {
    let long = "a".repeat(600);
    let prompt = build_session_extraction_prompt(&empty_summary(), &vec![msg("user", &long)]);
    assert!(prompt.contains(&format!("[user]: {}", "a".repeat(500))));
    assert!(!prompt.contains(&"a".repeat(501)));
}

#[test]
fn reflection_keeps_at_most_three_archives() {
    let actions = vec![
        ProposalAction::Archive,
        ProposalAction::Add,
        ProposalAction::Archive,
        ProposalAction::Archive,
        ProposalAction::Skip,
        ProposalAction::Archive,
        ProposalAction::Archive,
        ProposalAction::Merge,
    ];
    let keep = kept_proposals(&actions);
    assert_eq!(keep, vec![true, true, true, true, true, false, false, true]);
    let kept_archives = actions
        .iter()
        .zip(&keep)
        .filter(|(a, k)| **k && matches!(a, ProposalAction::Archive))
        .count();
    assert_eq!(kept_archives, MAX_ARCHIVES_PER_REFLECTION);
}

#[test]
fn session_extraction_needs_a_cloud_and_two_user_messages() {
    let one = vec![msg("user", "hi"), msg("assistant", "hello")];
    assert!(session_extraction_request(true, "No existing memory.", &one).is_none());
    let two = vec![msg("user", "hi"), msg("assistant", "hello"), msg("user", "tell me about rust")];
    assert!(session_extraction_request(false, "No existing memory.", &two).is_none());
    let req = session_extraction_request(true, "No existing memory.", &two).unwrap();
    assert_eq!(req.len(), 1);
    assert_eq!(req[0].role, "user");
    assert_eq!(req[0].content, build_session_extraction_prompt("No existing memory.", &two));
    assert!(req[0].content.contains("[user]: tell me about rust"));
}
