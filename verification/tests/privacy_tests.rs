use knowforge::privacy::{markdown_treat_as_kf_private, validate_workspace_rel_path};

#[test]
fn rel_path_rejects_dotdot() {
    assert!(validate_workspace_rel_path("a/../../etc").is_err());
}

#[test]
fn no_frontmatter_not_private() {
    assert!(!markdown_treat_as_kf_private("# Hi\n"));
}

#[test]
fn kf_private_true() {
    let md = "---\nkf-private: true\n---\n# x\n";
    assert!(markdown_treat_as_kf_private(md));
}

#[test]
fn kf_private_false() {
    let md = "---\nkf-private: false\n---\n# x\n";
    assert!(!markdown_treat_as_kf_private(md));
}

#[test]
fn unclosed_frontmatter_is_private() {
    let md = "---\nkf-private: false\n# no closing\n";
    assert!(markdown_treat_as_kf_private(md));
}

#[test]
fn kf_private_non_bool_or_bad_yaml_is_private() {
    assert!(markdown_treat_as_kf_private("---\nkf-private: \"yes\"\n---\n"));
    assert!(markdown_treat_as_kf_private("---\n- a\n- b\n---\n"));
    assert!(markdown_treat_as_kf_private("---\nkey: [unclosed\n---\n"));
    assert!(!markdown_treat_as_kf_private("---\ntitle: x\n---\n"));
    assert!(!markdown_treat_as_kf_private("---\n   \n---\nbody"));
}

#[test]
fn rel_path_rules() {
    assert!(validate_workspace_rel_path("notes/a.md").is_ok());
    assert_eq!(validate_workspace_rel_path("  ").unwrap_err(), "Invalid note path.");
    assert!(validate_workspace_rel_path("/abs.md").is_err());
    assert!(validate_workspace_rel_path("a\\b.md").is_err());
    assert!(validate_workspace_rel_path("a//b.md").is_err());
    assert!(validate_workspace_rel_path("./a.md").is_err());
}

