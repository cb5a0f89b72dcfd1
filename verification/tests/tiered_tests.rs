use knowforge::message::{LlmChatMessage, LlmToolCall, LlmToolCallFunction};
use knowforge::provider::ProviderKind;
use knowforge::tiered::{
    build_generation_messages, build_tiered_planning_messages, build_tool_result_metadata,
    extract_code_block_content, extract_path_from_system_msg, replace_note_body_with_metadata,
    TIERED_CLOUD_SYSTEM, build_tiered_feedback_messages,
};

#[test]
fn tool_result_metadata_format() {
    let meta = build_tool_result_metadata("note.read", true, 1234);
    assert_eq!(meta, "Tool 'note.read': status=ok, result_length=1234 chars");
}

#[test]
fn metadata_extracts_headings_and_summary() {
    let note = "The user is editing the following Markdown file `docs/rust.md`. \
        Use it.\n\n```markdown\n# Rust Notes\nCore concepts of the Rust language.\n\n\
        ## Ownership\nOwnership rules.\n\n### Borrowing\nBorrow checker.\n\n\
        ## Lifetimes\nLifetime annotations.\n```";
    let result = replace_note_body_with_metadata(note);
    assert!(result.contains("[Note: docs/rust.md]"));
    assert!(result.contains("Title: Rust Notes"));
    assert!(result.contains("Ownership"));
    assert!(result.contains("Ownership > Borrowing"));
    assert!(result.contains("Lifetimes"));
    assert!(result.contains("Summary: Core concepts of the Rust language."));
    assert!(!result.contains("Ownership rules."));
    assert!(!result.contains("Borrow checker."));
}

#[test]
fn metadata_fallback_on_no_code_block() {
    let plain = "Response depth: MEDIUM. Keep your answer moderate.";
    let result = replace_note_body_with_metadata(plain);
    assert_eq!(result, plain.to_string());
}

#[test]
fn tool_result_metadata_failure_status() {
    assert_eq!(
        build_tool_result_metadata("web.search", false, 0),
        "Tool 'web.search': status=error, result_length=0 chars"
    );
}

#[test]
fn path_from_system_message() {
    assert_eq!(
        extract_path_from_system_msg("file `a/b.md`. more `c`"),
        Some("a/b.md".to_string())
    );
    assert_eq!(extract_path_from_system_msg("no path here"), None);
}

#[test]
fn code_block_content() {
    assert_eq!(
        extract_code_block_content("x\n```markdown\nline1\nline2\n```\ny"),
        Some("line1\nline2\n".to_string())
    );
    assert_eq!(extract_code_block_content("nothing"), None);
}

fn sys(content: &str) -> LlmChatMessage {
    LlmChatMessage { role: "system".to_string(), content: content.to_string(), ..Default::default() }
}

fn user_msg(content: &str) -> LlmChatMessage {
    LlmChatMessage { role: "user".to_string(), content: content.to_string(), ..Default::default() }
}

#[test]
fn privacy_replaces_body_with_metadata() {
    let note_system = "The user is editing the following Markdown file `notes/test.md`. Use it as the primary source.\n\n```markdown\n# Secret Title\nFirst paragraph intro.\n\n## Chapter One\nDetailed chapter content here.\n## Chapter Two\nMore detailed content.\n```";
    let msgs = vec![sys(note_system), sys("Response depth: MEDIUM."), user_msg("What is in my note?")];
    let result = build_tiered_planning_messages(&msgs);
    assert_eq!(result[0].content, TIERED_CLOUD_SYSTEM);
    let all_content: String = result.iter().map(|m| m.content.clone()).collect();
    assert!(!all_content.contains("Detailed chapter content here."));
    assert!(!all_content.contains("More detailed content."));
    assert!(all_content.contains("[Note: notes/test.md]"));
    assert!(all_content.contains("Title: Secret Title"));
    assert!(all_content.contains("Headings: Chapter One, Chapter Two"));
    assert!(all_content.contains("Summary: First paragraph intro."));
    assert!(result.iter().any(|m| m.role == "user" && m.content == "What is in my note?"));
}

#[test]
fn privacy_preserves_non_note_system() {
    let msgs = vec![sys("Response depth: MEDIUM. Keep your answer moderate."), user_msg("hello")];
    let result = build_tiered_planning_messages(&msgs);
    assert!(result.iter().any(|m| m.content.contains("MEDIUM")));
}

#[test]
fn privacy_strips_kf_private_note() {
    let private_note = "The user has a Markdown note open that is marked private (kf-private). Its full content is not included in this request.";
    let msgs = vec![sys(private_note), user_msg("hi")];
    let result = build_tiered_planning_messages(&msgs);
    assert!(result.iter().any(|m| m.content.contains("kf-private")));
}

#[test]
fn planning_drops_tool_and_blank_system_messages() {
    let msgs = vec![
        sys("   "),
        user_msg("q"),
        LlmChatMessage { role: "tool".to_string(), content: "raw".to_string(), ..Default::default() },
    ];
    let result = build_tiered_planning_messages(&msgs);
    assert_eq!(result.len(), 2);
    assert_eq!(result[1].content, "q");
}

#[test]
fn build_generation_includes_tool_results() {
    let msgs = vec![user_msg("find my notes")];
    let results = vec![("note.list".to_string(), "[\"a.md\", \"b.md\"]".to_string(), true)];
    let gen_msgs = build_generation_messages(&msgs, &results, "Use note.list to find files");
    assert!(gen_msgs.iter().any(|m| m.role == "user"));
    assert!(gen_msgs.iter().any(|m| m.content.contains("note.list") && m.content.contains("a.md")));
    assert!(gen_msgs.iter().any(|m| m.content.contains("Planning guidance")));
    assert_eq!(gen_msgs.len(), 3);
    assert_eq!(
        gen_msgs[1].content,
        "The following tool results were gathered:\n\n--- note.list ---\n[\"a.md\", \"b.md\"]\n\n"
    );
}

#[test]
fn generation_without_results_or_guidance() {
    let msgs = vec![user_msg("hi")];
    let gen_msgs = build_generation_messages(&msgs, &Vec::new(), "  \n");
    assert_eq!(gen_msgs.len(), 1);
}

#[test]
fn cloud_request_ignores_note_body_with_same_metadata() {
    let a = "Editing `notes/t.md`.\n\n```markdown\n# Title\nIntro.\n\n## Part\nsecret one\n```";
    let b = "Editing `notes/t.md`.\n\n```markdown\n# Title\nIntro.\n\n## Part\nsomething else entirely\n```";
    let r1 = build_tiered_planning_messages(&vec![sys(a), user_msg("q")]);
    let r2 = build_tiered_planning_messages(&vec![sys(b), user_msg("q")]);
    let c1: Vec<(String, String)> = r1.iter().map(|m| (m.role.clone(), m.content.clone())).collect();
    let c2: Vec<(String, String)> = r2.iter().map(|m| (m.role.clone(), m.content.clone())).collect();
    assert_eq!(c1, c2);
    assert!(!c1.iter().any(|(_, c)| c.contains("secret one")));
}

fn call(id: &str, name: &str) -> LlmToolCall {
    LlmToolCall {
        id: id.to_string(),
        function: LlmToolCallFunction { name: name.to_string(), arguments: serde_json::Value::Null },
    }
}

fn feedback_for(results: Vec<(String, String, bool)>) -> Vec<LlmChatMessage> {
    let plan = build_tiered_planning_messages(&vec![LlmChatMessage::new("user", "find my rust notes")]);
    build_tiered_feedback_messages(
        plan,
        ProviderKind::OpenAiCompatible,
        "looking",
        vec![call("c1", "vault.search"), call("c2", "note.read")],
        &results,
    )
}

#[test]
fn feedback_request_carries_only_status_and_length() {
    let fb = feedback_for(vec![
        ("vault.search".to_string(), "secret body".to_string(), true),
        ("note.read".to_string(), "error: missing".to_string(), false),
    ]);
    assert_eq!(fb.len(), 5);
    assert_eq!(fb[0].content, TIERED_CLOUD_SYSTEM);
    assert_eq!(fb[2].role, "assistant");
    assert_eq!(fb[2].content, "looking");
    assert_eq!(fb[2].tool_calls.as_ref().map(|c| c.len()), Some(2));
    assert_eq!(fb[3].role, "tool");
    assert_eq!(fb[3].tool_call_id.as_deref(), Some("c1"));
    assert_eq!(fb[3].content, "Tool 'vault.search': status=ok, result_length=11 chars");
    assert_eq!(fb[4].content, "Tool 'note.read': status=error, result_length=14 chars");
    assert!(fb.iter().all(|m| !m.content.contains("secret")));
}

#[test]
fn feedback_request_same_for_same_status_and_length() {
    let a = feedback_for(vec![("vault.search".to_string(), "aaaa".to_string(), true)]);
    let b = feedback_for(vec![("vault.search".to_string(), "bbbb".to_string(), true)]);
    assert_eq!(a.len(), b.len());
    for (x, y) in a.iter().zip(&b) {
        assert_eq!(x.role, y.role);
        assert_eq!(x.content, y.content);
    }
    // a call without a result gets no feedback message
    assert_eq!(a.len(), 4);
}
