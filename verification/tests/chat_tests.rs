use knowforge::chat::{
    chat_agent_mode, check_chat_request, conversation_chars, conversation_id_for, memory_plan,
    response_model_name, used_vault_entries, vault_context_cap, MemoryPlan, NO_MESSAGES_ERROR,
    assemble_messages_fast, build_depth_system_instruction, build_note_system_content,
    build_skills_system_block, build_thought_focus_system_block, determine_agent_mode,
    inject_context_blocks, resolve_auto_depth_heuristic, AgentMode, AiConfig, ChatStreamStartArgs,
    ContextBlocks, DepthMode, InviteContextIn, NoteContextIn, ReplyCurrentNoteMode,
    ReplySemanticSource, ThoughtFocusContextIn, plan_context, keyword_paths, vault_block_outcome,
};
use knowforge::message::LlmChatMessage;

fn base_config() -> AiConfig {
    AiConfig::default()
}

#[test]
fn returns_none_when_empty() {
    assert!(build_skills_system_block(&[]).is_none());
}

#[test]
fn includes_id_name_and_when_to_use() {
    let skills = vec![
        (
            "writing_coach".to_string(),
            "写作教练".to_string(),
            Some("打磨笔记".to_string()),
        ),
        ("review".to_string(), "复盘".to_string(), None),
    ];
    let block = build_skills_system_block(&skills).expect("should build");
    assert!(block.contains("skill.writing_coach"));
    assert!(block.contains("写作教练"));
    assert!(block.contains("打磨笔记"));
    assert!(block.contains("skill.review"));
    assert!(block.contains("复盘"));
    assert!(block.contains("Skills cannot invoke other skills"));
}

#[test]
fn direct_when_planning_disabled() {
    let ai = base_config();
    assert_eq!(determine_agent_mode(&ai), AgentMode::Direct);
}

#[test]
fn planning_when_enabled() {
    let mut ai = base_config();
    ai.planning_enabled = true;
    assert_eq!(determine_agent_mode(&ai), AgentMode::Planning);
}

#[test]
fn skills_block_exact_lines() {
    let skills = vec![
        ("a".to_string(), "A".to_string(), Some("  when  ".to_string())),
        ("b".to_string(), "B".to_string(), Some("   ".to_string())),
    ];
    let block = build_skills_system_block(&skills).unwrap();
    assert_eq!(
        block,
        "Available skills (call as tools via `skill.<id>` with a single string `input`):\n- skill.a (A): when\n- skill.b (B)\nSkills cannot invoke other skills. The skill streams its own output to the user;\nafter `skill.<id>` returns, acknowledge briefly without repeating the skill's content."
    );
}

#[test]
fn auto_depth_by_query_length() {
    let (d, r) = resolve_auto_depth_heuristic("  short question  ");
    assert_eq!(d, DepthMode::Shallow);
    assert_eq!(r, "short_query");
    let (d, r) = resolve_auto_depth_heuristic(&"x".repeat(41));
    assert_eq!(d, DepthMode::Medium);
    assert_eq!(r, "medium_query");
    let (d, r) = resolve_auto_depth_heuristic(&"字".repeat(201));
    assert_eq!(d, DepthMode::Deep);
    assert_eq!(r, "long_query");
}

#[test]
fn depth_instruction_texts() {
    assert!(build_depth_system_instruction(DepthMode::Shallow).starts_with("Response depth: SHALLOW."));
    assert!(build_depth_system_instruction(DepthMode::Medium).starts_with("Response depth: MEDIUM."));
    assert!(build_depth_system_instruction(DepthMode::Deep).starts_with("Response depth: DEEP."));
    assert!(build_depth_system_instruction(DepthMode::Auto).starts_with("Adapt your response depth"));
}

#[test]
fn note_system_content_embeds_path_and_markdown() {
    let s = build_note_system_content("a/b.md", "# T");
    assert!(s.starts_with("The user is editing the following Markdown file `a/b.md`."));
    assert!(s.ends_with("```markdown\n# T\n```"));
}

#[test]
fn thought_focus_block_mentions_open_note_only_when_open() {
    let tf = ThoughtFocusContextIn {
        thought_id: " t1 ".to_string(),
        thought_body: "body".to_string(),
        maturity: "seed".to_string(),
    };
    let a = build_thought_focus_system_block(&tf, false);
    assert!(a.contains("- thought_id: t1\n"));
    assert!(a.contains("Thought content:\n```\nbody\n```\n"));
    assert!(!a.contains("They may also have"));
    let b = build_thought_focus_system_block(&tf, true);
    assert!(b.ends_with("refine the focused thought above.\n"));
}

fn msg(role: &str, content: &str) -> LlmChatMessage {
    LlmChatMessage {
        role: role.to_string(),
        content: content.to_string(),
        ..Default::default()
    }
}

fn args(messages: Vec<LlmChatMessage>) -> ChatStreamStartArgs {
    ChatStreamStartArgs {
        messages,
        model: None,
        note_context: None,
        include_vault_context: None,
        depth_mode: None,
        invite_context: None,
        thought_focus_context: None,
        semantic_context_enabled: None,
        tools_enabled: None,
        conversation_id: None,
    }
}

#[test]
fn assemble_plain_conversation() {
    let ai = base_config();
    let a = args(vec![msg(" user ", "hi"), msg("assistant", "hello")]);
    let out = assemble_messages_fast(&ai, &a, &[]).unwrap();
    assert_eq!(out.context_insert_pos, 0);
    assert_eq!(out.messages.len(), 4);
    assert!(out.messages[0].content.starts_with("IMPORTANT: Always respond"));
    assert!(out.messages[1].content.starts_with("FORM / STYLE"));
    assert_eq!(out.messages[2].role, "user");
    assert_eq!(out.messages[2].content, "hi");
    assert_eq!(out.messages[3].role, "assistant");
    assert!(out.resolved_depth.is_none());
}

#[test]
fn assemble_rejects_bad_role() {
    let ai = base_config();
    let a = args(vec![msg("system", "x")]);
    let err = assemble_messages_fast(&ai, &a, &[]).err().unwrap();
    assert_eq!(err, "Invalid message role: expected user or assistant.");
}

#[test]
fn assemble_rejects_bad_note_path() {
    let ai = base_config();
    let mut a = args(vec![msg("user", "x")]);
    a.note_context = Some(NoteContextIn {
        rel_path: "../secret.md".to_string(),
        markdown_for_gate: "x".to_string(),
    });
    let err = assemble_messages_fast(&ai, &a, &[]).err().unwrap();
    assert_eq!(err, "Invalid note path.");
}

#[test]
fn assemble_redacts_private_note() {
    let ai = AiConfig {
        planning_enabled: false,
        tools_enabled: true,
        redact_private: true,
    };
    let mut a = args(vec![msg("user", "what is in it?")]);
    a.note_context = Some(NoteContextIn {
        rel_path: "notes/p.md".to_string(),
        markdown_for_gate: "---\nkf-private: true\n---\nsecret".to_string(),
    });
    a.depth_mode = Some(DepthMode::Auto);
    let skills = vec![("demo".to_string(), "Demo".to_string(), None)];
    let out = assemble_messages_fast(&ai, &a, &skills).unwrap();
    assert!(out.messages[0].content.contains("marked private (kf-private)"));
    assert!(!out.messages.iter().any(|m| m.content.contains("secret")));
    let src = out.reply_context_sources.current_note.unwrap();
    assert_eq!(src.mode, ReplyCurrentNoteMode::Redacted);
    assert_eq!(out.context_insert_pos, 1);
    assert_eq!(out.resolved_depth, Some(DepthMode::Shallow));
    assert_eq!(out.auto_resolve_reason.as_deref(), Some("short_query"));
    assert!(out.messages.iter().any(|m| m.content.starts_with("TOOL USE:")));
    assert!(out.messages.iter().any(|m| m.content.contains("skill.demo (Demo)")));
}

#[test]
fn assemble_includes_focus_and_invite_then_injects_blocks() {
    let ai = base_config();
    let mut a = args(vec![msg("user", "go")]);
    a.thought_focus_context = Some(ThoughtFocusContextIn {
        thought_id: "t9".to_string(),
        thought_body: "an idea".to_string(),
        maturity: "seed".to_string(),
    });
    a.invite_context = Some(InviteContextIn {
        question: "why?".to_string(),
        thought_excerpt: Some("because".to_string()),
    });
    a.tools_enabled = Some(false);
    let mut out = assemble_messages_fast(&ai, &a, &[]).unwrap();
    assert_eq!(out.context_insert_pos, 1);
    assert!(out.messages[1].content.starts_with("The user accepted a deepening question: \"why?\". Relevant previous thought from their notes: \"because\". "));
    assert_eq!(out.reply_context_sources.thought_focus.as_ref().unwrap().thought_id, "t9");
    let blocks = ContextBlocks {
        vault_block: Some("VAULT".to_string()),
        vault_reply_sources: None,
        semantic_block: Some("SEM".to_string()),
        semantic_reply_sources: ReplySemanticSource {
            injected: true,
            document_paths: vec!["d.md".to_string()],
            thought_ids: vec![],
        },
    };
    let before = out.messages.len();
    inject_context_blocks(&mut out, &blocks);
    assert_eq!(out.messages.len(), before + 2);
    assert_eq!(out.messages[1].content, "VAULT");
    assert_eq!(out.messages[2].content, "SEM");
    assert!(out.reply_context_sources.semantic.injected);
    assert_eq!(out.reply_context_sources.semantic.document_paths, vec!["d.md".to_string()]);
}

#[test]
fn chat_turn_start_decisions() {
    assert_eq!(check_chat_request(&Vec::new()), Err(NO_MESSAGES_ERROR.to_string()));
    assert!(check_chat_request(&vec![LlmChatMessage { role: "user".to_string(), content: "hi".to_string(), ..Default::default() }]).is_ok());
    assert_eq!(response_model_name(Some(" gpt-x "), Some("m"), "d"), "gpt-x");
    assert_eq!(response_model_name(Some("  "), Some(" m "), "d"), "m");
    assert_eq!(response_model_name(None, None, "  "), "");
    assert_eq!(conversation_id_for(Some(" c1 "), "s"), "c1");
    assert_eq!(conversation_id_for(Some(" "), "s"), "s");
    assert_eq!(conversation_id_for(None, "s"), "s");
    let planning = AiConfig { planning_enabled: true, tools_enabled: true, redact_private: false };
    assert_eq!(chat_agent_mode(true, &planning), AgentMode::Planning);
    assert_eq!(chat_agent_mode(false, &planning), AgentMode::Direct);
}

#[test]
fn conversation_budget_counts() {
    let msgs = vec![
        LlmChatMessage { role: "user".to_string(), content: "你好".to_string(), ..Default::default() },
        LlmChatMessage { role: "assistant".to_string(), content: "hello".to_string(), ..Default::default() },
    ];
    assert_eq!(conversation_chars(&msgs), 2 + 8 + 5 + 8);
    assert_eq!(vault_context_cap(None, 0, 0), 12000);
    assert_eq!(vault_context_cap(Some(1000), 0, 0), 4000);
    assert_eq!(vault_context_cap(Some(8000), 30000, 1000), 1000);
    assert_eq!(vault_context_cap(Some(8000), 32000, 0), 400);
    assert_eq!(vault_context_cap(Some(u64::MAX), 0, 0), 12000);
}

#[test]
fn reflection_mode_plans() {
    assert_eq!(memory_plan("off", true), MemoryPlan::MergeAndSave);
    assert_eq!(memory_plan("auto", true), MemoryPlan::ReflectAndApply);
    assert_eq!(memory_plan("confirm", true), MemoryPlan::ReflectAndConfirm);
    assert_eq!(memory_plan("auto", false), MemoryPlan::MergeAndSave);
}

#[test]
fn vault_sources_follow_used_paths() {
    let snippets = vec![
        ("a.md".to_string(), "Match".to_string()),
        ("b.md".to_string(), "Match".to_string()),
        ("c.md".to_string(), "Title".to_string()),
    ];
    let used = used_vault_entries(&snippets, &vec!["c.md".to_string(), "a.md".to_string()]);
    let got: Vec<(String, String)> = used.into_iter().map(|e| (e.rel_path, e.kind)).collect();
    assert_eq!(got, vec![("a.md".to_string(), "Match".to_string()), ("c.md".to_string(), "Title".to_string())]);
}

#[test]
fn context_plan_blank_query_looks_up_nothing() {
    assert!(plan_context(None, Some("a.md".to_string()), true, true).is_none());
    assert!(plan_context(Some("   \n\t".to_string()), None, true, true).is_none());
}

#[test]
fn context_plan_leaves_out_the_open_note() {
    let p = plan_context(Some("  rust async ".to_string()), Some("notes/a.md".to_string()), true, false).unwrap();
    assert_eq!(p.query, "  rust async ");
    assert_eq!(p.exclude_rel_paths, vec!["notes/a.md".to_string()]);
    assert!(p.search_vault);
    assert!(!p.search_semantic);
    let q = plan_context(Some("x".to_string()), None, false, true).unwrap();
    assert!(q.exclude_rel_paths.is_empty());
    assert!(!q.search_vault);
    assert!(q.search_semantic);
}

#[test]
fn keyword_paths_keep_the_snippet_order() {
    let snippets = vec![
        ("b.md".to_string(), "note".to_string()),
        ("a.md".to_string(), "thought".to_string()),
    ];
    assert_eq!(keyword_paths(&snippets), vec!["b.md".to_string(), "a.md".to_string()]);
}

#[test]
fn vault_block_outcome_cases() {
    let none: Vec<(String, String)> = Vec::new();
    let (b, s) = vault_block_outcome(&none, Some(("block".to_string(), false, vec![])));
    assert!(b.is_none() && s.is_none());

    let rebuilt = vec![
        ("a.md".to_string(), "note".to_string()),
        ("b.md".to_string(), "thought".to_string()),
    ];
    let (b, s) = vault_block_outcome(&rebuilt, Some(("block".to_string(), true, vec!["b.md".to_string()])));
    assert_eq!(b.as_deref(), Some("block"));
    let s = s.unwrap();
    assert!(s.truncated);
    assert_eq!(s.entries.len(), 1);
    assert_eq!(s.entries[0].rel_path, "b.md");
    assert_eq!(s.entries[0].kind, "thought");

    let (b, s) = vault_block_outcome(&rebuilt, None);
    assert!(b.is_none());
    let s = s.unwrap();
    assert!(s.truncated && s.entries.is_empty());
}
