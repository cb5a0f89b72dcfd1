use knowforge::approval::SessionApprovals;
use knowforge::registry::{is_valid_skill_id, register_builtin_skills, SkillRegistry, SkillRegistryError};
use knowforge::skills::{
    challenge_review_manifest, web_research_manifest, writing_coach_manifest, SkillManifest,
    SkillUiEntry,
};

fn manifest(id: &str, tools: Vec<&str>) -> SkillManifest {
    SkillManifest {
        id: id.to_string(),
        name: id.to_string(),
        version: "0.1.0".to_string(),
        description: "x".to_string(),
        system_prompt_template: "p".to_string(),
        allowed_tools: tools.into_iter().map(String::from).collect(),
        max_tool_calls: 4,
        timeout_secs: 30,
        ui_entry: SkillUiEntry::Standalone,
        tags: vec![],
        auto_invocable: false,
        when_to_use: None,
        max_tool_result_chars: 8000,
    }
}

fn tool_names_with_time_now() -> Vec<String> {
    vec!["time.now".to_string()]
}

#[test]
fn registers_valid_skill() {
    let tools = tool_names_with_time_now();
    let mut skills = SkillRegistry::new();
    assert!(skills.register(manifest("demo", vec!["time.now"]), &tools).is_ok());
    assert_eq!(skills.list().len(), 1);
    assert!(skills.get("demo").is_some());
}

#[test]
fn rejects_invalid_id() {
    let tools = tool_names_with_time_now();
    let mut skills = SkillRegistry::new();
    assert!(matches!(
        skills.register(manifest("Bad-Id", vec!["time.now"]), &tools),
        Err(SkillRegistryError::InvalidId(_))
    ));
}

#[test]
fn rejects_unknown_tool() {
    let tools = tool_names_with_time_now();
    let mut skills = SkillRegistry::new();
    assert!(matches!(
        skills.register(manifest("demo", vec!["nonexistent.tool"]), &tools),
        Err(SkillRegistryError::UnknownTool { .. })
    ));
}

#[test]
fn rejects_empty_allowed_tools() {
    let tools = tool_names_with_time_now();
    let mut skills = SkillRegistry::new();
    assert!(matches!(
        skills.register(manifest("demo", vec![]), &tools),
        Err(SkillRegistryError::EmptyAllowedTools(_))
    ));
}

#[test]
fn rejects_duplicate() {
    let tools = tool_names_with_time_now();
    let mut skills = SkillRegistry::new();
    skills.register(manifest("demo", vec!["time.now"]), &tools).unwrap();
    assert!(matches!(
        skills.register(manifest("demo", vec!["time.now"]), &tools),
        Err(SkillRegistryError::DuplicateId(_))
    ));
}

#[test]
fn rejects_invalid_version() {
    let tools = tool_names_with_time_now();
    let mut skills = SkillRegistry::new();
    let mut m = manifest("demo", vec!["time.now"]);
    m.version = "not-semver".to_string();
    assert!(matches!(
        skills.register(m, &tools),
        Err(SkillRegistryError::InvalidVersion(_))
    ));
}

fn builtin_tool_names() -> Vec<String> {
    let mut names: Vec<String> = Vec::new();
    for m in [writing_coach_manifest(), challenge_review_manifest(), web_research_manifest()] {
        for t in m.allowed_tools {
            if !names.contains(&t) {
                names.push(t);
            }
        }
    }
    names
}

#[test]
fn register_builtin_skills_succeeds() {
    let tools = builtin_tool_names();
    let mut skills = SkillRegistry::new();
    assert!(register_builtin_skills(&mut skills, &tools).is_ok());
    let listed = skills.list();
    assert_eq!(listed.len(), 3, "expected 3 built-in skills, got {}", listed.len());
    let ids: Vec<&str> = listed.iter().map(|m| m.id.as_str()).collect();
    assert!(ids.contains(&"writing_coach"));
    assert!(ids.contains(&"challenge_review"));
    assert!(ids.contains(&"web_research"));
}

#[test]
fn register_builtin_skills_needs_their_tools() {
    let tools = vec!["time.now".to_string()];
    let mut skills = SkillRegistry::new();
    let r = register_builtin_skills(&mut skills, &tools);
    assert!(matches!(r, Err(SkillRegistryError::UnknownTool { .. })));
    assert_eq!(skills.list().len(), 0);
}

#[test]
fn registered_skill_is_not_replaced() {
    let tools = tool_names_with_time_now();
    let mut skills = SkillRegistry::new();
    skills.register(manifest("demo", vec!["time.now"]), &tools).unwrap();
    let mut other = manifest("demo", vec!["time.now"]);
    other.description = "replacement".to_string();
    assert!(skills.register(other, &tools).is_err());
    assert_eq!(skills.get("demo").unwrap().description, "x");
}

#[test]
fn skill_id_format() {
    assert!(is_valid_skill_id("writing_coach"));
    assert!(is_valid_skill_id("a1_b2"));
    assert!(!is_valid_skill_id(""));
    assert!(!is_valid_skill_id("1abc"));
    assert!(!is_valid_skill_id("Abc"));
    assert!(!is_valid_skill_id("a-b"));
    assert!(is_valid_skill_id(&"a".repeat(64)));
    assert!(!is_valid_skill_id(&"a".repeat(65)));
}

#[test]
fn registry_error_messages() {
    let tools = tool_names_with_time_now();
    let mut skills = SkillRegistry::new();
    let e = skills.register(manifest("demo", vec![]), &tools).unwrap_err();
    assert_eq!(e.message(), "skill 'demo' has empty allowed_tools");
    let e = skills.register(manifest("Bad", vec!["time.now"]), &tools).unwrap_err();
    assert_eq!(e.message(), "invalid skill id: Bad");
}

#[test]
fn approval_cache_per_conversation_and_tool() {
    let mut s = SessionApprovals::new();
    assert!(!s.is_pre_approved("c1", "note.create"));
    s.remember_approval("c1", "note.create");
    assert!(s.is_pre_approved("c1", "note.create"));
    assert!(!s.is_pre_approved("c2", "note.create"));
    assert!(!s.is_pre_approved("c1", "note.write_section"));
}

#[test]
fn clear_conversation_drops_cache() {
    let mut s = SessionApprovals::new();
    s.remember_approval("c1", "note.create");
    s.remember_approval("c1", "thought.create");
    s.remember_approval("c2", "note.create");
    s.clear_conversation("c1");
    assert!(!s.is_pre_approved("c1", "note.create"));
    assert!(!s.is_pre_approved("c1", "thought.create"));
    assert!(s.is_pre_approved("c2", "note.create"));
}

#[test]
fn register_builtin_skills_keeps_those_before_the_error() {
    let tools: Vec<String> = ["note.read", "vault.search_keyword", "note.list", "thought.list"]
        .iter()
        .map(|s| s.to_string())
        .collect();
    let mut skills = SkillRegistry::new();
    let r = register_builtin_skills(&mut skills, &tools);
    match r {
        Err(SkillRegistryError::UnknownTool { skill_id, tool }) => {
            assert_eq!(skill_id, "web_research");
            assert_eq!(tool, "web.search");
        }
        other => panic!("unexpected {other:?}"),
    }
    assert!(skills.get("writing_coach").is_some());
    assert!(skills.get("challenge_review").is_some());
    assert!(skills.get("web_research").is_none());
    let mut again = SkillRegistry::new();
    assert!(register_builtin_skills(&mut again, &builtin_tool_names()).is_ok());
    assert!(matches!(
        register_builtin_skills(&mut again, &builtin_tool_names()),
        Err(SkillRegistryError::DuplicateId(id)) if id == "writing_coach"
    ));
}
