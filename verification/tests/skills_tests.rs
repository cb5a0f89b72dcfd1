use knowforge::agent::{ToolErrorCode, ToolResult};
use knowforge::skills::{
    build_initial_messages, filter_tools_for_skill, skill_invocation_input, skill_model,
    skill_reply_summary, skill_tool_result, SKILL_ACK_NOTE, SKILL_SUMMARY_NOTE,
    skill_config_error, skill_not_registered, skill_run_model, NO_SKILL_MODEL, OPENAI_SKILLS_UNSUPPORTED,
    challenge_review_manifest, serialize_skill_markdown, skill_conversation_id,
    skill_tool_description, skill_tool_name, unregister_skill_tool, web_research_manifest,
    writing_coach_manifest, SkillManifest, SkillUiEntry,
};

fn sample() -> SkillManifest {
    SkillManifest {
        id: "demo".to_string(),
        name: "Demo".to_string(),
        version: "0.1.0".to_string(),
        description: "demo skill".to_string(),
        system_prompt_template: "You are in {{workspace_name}} at {{workspace_root}}.".to_string(),
        allowed_tools: vec!["time.now".to_string()],
        max_tool_calls: 4,
        timeout_secs: 30,
        ui_entry: SkillUiEntry::Standalone,
        tags: vec!["test".to_string()],
        auto_invocable: false,
        when_to_use: None,
        max_tool_result_chars: 8000,
    }
}

#[test]
fn renders_placeholders() {
    let m = sample();
    let s = m.render_system_prompt("vault-x", "/tmp/vault-x");
    assert_eq!(s, "You are in vault-x at /tmp/vault-x.");
}

#[test]
fn leaves_unknown_placeholder() {
    let mut m = sample();
    m.system_prompt_template = "hi {{unknown}}".to_string();
    assert_eq!(m.render_system_prompt("a", "b"), "hi {{unknown}}");
}

#[test]
fn writing_coach_manifest_shape() {
    let m = writing_coach_manifest();
    assert_eq!(m.id, "writing_coach");
    assert_eq!(m.ui_entry, SkillUiEntry::EditorPanel);
    assert!(m.system_prompt_template.contains("{{workspace_name}}"));
}

#[test]
fn challenge_review_manifest_shape() {
    let m = challenge_review_manifest();
    assert_eq!(m.id, "challenge_review");
    assert_eq!(m.ui_entry, SkillUiEntry::ConversationMode);
    assert!(m.system_prompt_template.contains("{{workspace_name}}"));
}

#[test]
fn web_research_manifest_shape() {
    let m = web_research_manifest();
    assert_eq!(m.id, "web_research");
    assert_eq!(m.ui_entry, SkillUiEntry::ConversationMode);
    assert!(m.system_prompt_template.contains("{{workspace_name}}"));
    assert!(m.allowed_tools.contains(&"web.search".to_string()));
    assert!(m.allowed_tools.contains(&"web.read_page".to_string()));
    assert!(m.allowed_tools.contains(&"note.create".to_string()));
    assert_eq!(m.max_tool_calls, 15);
    assert_eq!(m.timeout_secs, 120);
    assert_eq!(m.max_tool_result_chars, 20000);
    assert!(m.auto_invocable);
}

#[test]
fn skill_conversation_id_is_scoped() {
    let id = skill_conversation_id("writing_coach", "abc-123");
    assert_eq!(id, "skill:writing_coach:abc-123");
}

fn skill(id: &str, when: Option<&str>) -> SkillManifest {
    SkillManifest {
        id: id.to_string(),
        name: format!("{id}-name"),
        version: "0.1.0".to_string(),
        description: "desc".to_string(),
        system_prompt_template: "p".to_string(),
        allowed_tools: vec!["time.now".to_string()],
        max_tool_calls: 4,
        timeout_secs: 30,
        ui_entry: SkillUiEntry::ConversationMode,
        tags: vec![],
        auto_invocable: true,
        when_to_use: when.map(str::to_string),
        max_tool_result_chars: 8000,
    }
}

#[test]
fn manifest_uses_skill_dot_id_name() {
    let s = skill("writing_coach", Some("打磨笔记"));
    let when = s.when_to_use.as_deref().unwrap_or("");
    let description = if when.is_empty() {
        s.description.clone()
    } else {
        format!("{}\n\nWhen to use: {}", s.description, when)
    };
    assert!(description.contains("打磨笔记"));
    let candidate = format!("skill.{}", s.id);
    assert_eq!(candidate, "skill.writing_coach");
    assert_eq!(skill_tool_name(&s.id), "skill.writing_coach");
    assert_eq!(skill_tool_description(&s), description);
}

#[test]
fn unregister_names_skill_tool() {
    let mut seen: Vec<String> = Vec::new();
    let r = unregister_skill_tool("demo", |n: &str| {
        seen.push(n.to_string());
        Err("not registered".to_string())
    });
    assert_eq!(r, Err("not registered".to_string()));
    assert_eq!(seen, vec!["skill.demo".to_string()]);
}

#[test]
fn serialized_skill_markdown_layout() {
    let m = sample();
    let md = serialize_skill_markdown(&m);
    assert_eq!(
        md,
        "---\nid: demo\nname: Demo\nversion: 0.1.0\ndescription: demo skill\nallowed_tools:\n  - time.now\nmax_tool_calls: 4\ntimeout_secs: 30\nui_entry: standalone\ntags:\n  - test\n---\n\nYou are in {{workspace_name}} at {{workspace_root}}.\n"
    );
}

fn sample_manifest(allowed: Vec<&str>) -> SkillManifest {
    SkillManifest {
        id: "demo".to_string(),
        name: "Demo".to_string(),
        version: "0.1.0".to_string(),
        description: "x".to_string(),
        system_prompt_template: "Hi {{workspace_name}}".to_string(),
        allowed_tools: allowed.into_iter().map(String::from).collect(),
        max_tool_calls: 3,
        timeout_secs: 25,
        ui_entry: SkillUiEntry::Standalone,
        tags: vec![],
        auto_invocable: false,
        when_to_use: None,
        max_tool_result_chars: 8000,
    }
}

#[test]
fn builds_messages_with_system_user() {
    let m = sample_manifest(vec!["time.now"]);
    let msgs = build_initial_messages(&m, "vault-x", "/tmp/v", "ask me");
    assert_eq!(msgs.len(), 4);
    assert_eq!(msgs[0].role, "system");
    assert!(msgs[0].content.contains("vault-x"));
    assert_eq!(msgs[1].role, "system");
    assert_eq!(msgs[2].role, "system");
    assert!(
        msgs[2].content.contains("note.list") && msgs[2].content.contains("vault.search_keyword"),
        "expected discover-before-read hint at msgs[2], got: {}",
        msgs[2].content,
    );
    assert_eq!(msgs[3].role, "user");
    assert_eq!(msgs[3].content, "ask me");
}

/// Names of the tools a registry lists for the model (one without a name
/// at the end).
fn listed_tool_names() -> Vec<Option<String>> {
    vec![
        Some("note.list".to_string()),
        Some("note.read".to_string()),
        Some("time.now".to_string()),
        Some("vault.search_keyword".to_string()),
        None,
    ]
}

#[test]
fn filters_tools_by_whitelist() {
    let m = sample_manifest(vec!["time.now"]);
    let filtered = filter_tools_for_skill(&listed_tool_names(), &m);
    assert_eq!(filtered.len(), 1);
    assert_eq!(listed_tool_names()[filtered[0]].as_deref(), Some("time.now"));
}

#[test]
fn skips_unknown_allowed_tools_at_filter_time() {
    let m = sample_manifest(vec!["time.now", "nonexistent.tool"]);
    let filtered = filter_tools_for_skill(&listed_tool_names(), &m);
    assert_eq!(filtered.len(), 1);
}

#[test]
fn filter_keeps_listing_order() {
    let m = sample_manifest(vec!["vault.search_keyword", "note.list"]);
    assert_eq!(filter_tools_for_skill(&listed_tool_names(), &m), vec![0, 3]);
}

#[test]
fn skill_invocation_checks() {
    match skill_invocation_input(1, Some("hi")) {
        Err(ToolResult::Failure { error }) => {
            assert_eq!(error.code, ToolErrorCode::PermissionDenied);
            assert_eq!(error.message, "skills cannot invoke other skills (nesting depth exceeded)");
        }
        _ => panic!("nested skill call must be refused"),
    }
    match skill_invocation_input(0, Some("   ")) {
        Err(ToolResult::Failure { error }) => {
            assert_eq!(error.code, ToolErrorCode::InvalidInput);
            assert_eq!(error.message, "missing required string field `input`");
        }
        _ => panic!("blank input must be refused"),
    }
    assert!(skill_invocation_input(0, None).is_err());
    assert_eq!(skill_invocation_input(0, Some("  polish this  ")).ok(), Some("polish this".to_string()));
}

#[test]
fn skill_model_choice() {
    assert_eq!(skill_model(Some(" llama3 "), "qwen"), Some(" llama3 ".to_string()));
    assert_eq!(skill_model(Some("  "), "qwen"), Some("qwen".to_string()));
    assert_eq!(skill_model(None, " "), None);
}

#[test]
fn skill_reply_for_parent() {
    assert_eq!(skill_reply_summary("  \n"), (None, SKILL_ACK_NOTE));
    assert_eq!(skill_reply_summary(" Try [[Note A]]. "), (Some("Try [[Note A]].".to_string()), SKILL_SUMMARY_NOTE));
}

#[test]
fn serialized_skill_splits_back() {
    let m = challenge_review_manifest();
    let md = serialize_skill_markdown(&m);
    let (yaml, body) = knowforge::skills::split_skill_markdown(&md).unwrap();
    assert!(yaml.starts_with("id: challenge_review\nname: "));
    assert!(yaml.ends_with(&format!("when_to_use: {}", m.when_to_use.clone().unwrap())));
    assert_eq!(body.trim(), m.system_prompt_template);
    assert_eq!(body, format!("\n{}\n", m.system_prompt_template));
}

#[test]
fn finished_skill_result_carries_the_summary() {
    match skill_tool_result("writing-coach", "  Try [[Note A]].\n") {
        ToolResult::Success { data, redacted_count, warnings } => {
            assert_eq!(data["status"], "completed");
            assert_eq!(data["skill_id"], "writing-coach");
            assert_eq!(data["summary"], "Try [[Note A]].");
            assert_eq!(data["note"], SKILL_SUMMARY_NOTE);
            assert_eq!(redacted_count, 0);
            assert!(warnings.is_empty());
        }
        _ => panic!("expected success"),
    }
}

#[test]
fn finished_skill_with_blank_reply_only_acknowledges() {
    match skill_tool_result("web-research", "   ") {
        ToolResult::Success { data, .. } => {
            assert!(data.get("summary").is_none());
            assert_eq!(data["note"], SKILL_ACK_NOTE);
            assert_eq!(data.as_object().unwrap().len(), 3);
        }
        _ => panic!("expected success"),
    }
}

fn failure(r: ToolResult) -> (ToolErrorCode, String) {
    match r {
        ToolResult::Failure { error } => (error.code, error.message),
        _ => panic!("expected a failure"),
    }
}

#[test]
fn unregistered_skill_and_config_errors() {
    assert_eq!(failure(skill_not_registered("demo")), (ToolErrorCode::NotFound, "skill not registered: demo".to_string()));
    assert_eq!(failure(skill_config_error("bad toml")), (ToolErrorCode::Internal, "ai config: bad toml".to_string()));
}

#[test]
fn skill_run_model_checks_provider_then_model() {
    assert_eq!(
        failure(skill_run_model(true, Some("llama3"), "qwen").unwrap_err()),
        (ToolErrorCode::Internal, OPENAI_SKILLS_UNSUPPORTED.to_string())
    );
    assert_eq!(skill_run_model(false, Some("llama3"), "qwen").ok(), Some("llama3".to_string()));
    assert_eq!(skill_run_model(false, Some("  "), "qwen").ok(), Some("qwen".to_string()));
    assert_eq!(
        failure(skill_run_model(false, None, " ").unwrap_err()),
        (ToolErrorCode::Internal, NO_SKILL_MODEL.to_string())
    );
}
