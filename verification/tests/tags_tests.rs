use knowforge::tags::extract_yaml_tags;

#[test]
fn extract_yaml_tags_list_form() {
    let mut out: Vec<String> = Vec::new();
    extract_yaml_tags(
        "title: X\ntags:\n  - alpha\n  - beta\ndate: 2026",
        &mut out,
    );
    assert!(out.contains(&"alpha".to_string()));
    assert!(out.contains(&"beta".to_string()));
    assert_eq!(out.len(), 2);
}

#[test]
fn extract_yaml_tags_inline_form() {
    let mut out: Vec<String> = Vec::new();
    extract_yaml_tags("tags: [foo, \"bar baz\", 'qux']", &mut out);
    assert!(out.contains(&"foo".to_string()));
    assert!(out.contains(&"bar baz".to_string()));
    assert!(out.contains(&"qux".to_string()));
}

#[test]
fn yaml_tags_are_collected_once() {
    let mut out: Vec<String> = vec!["alpha".to_string()];
    extract_yaml_tags("tags: [alpha, beta, beta, '']", &mut out);
    assert_eq!(out, vec!["alpha".to_string(), "beta".to_string()]);
}

#[test]
fn yaml_tag_list_ends_at_other_key() {
    let mut out: Vec<String> = Vec::new();
    extract_yaml_tags("tags:\n  - \"one\"\n\n  - 'two'\nauthor: me\n  - three", &mut out);
    assert_eq!(out, vec!["one".to_string(), "two".to_string()]);
}

#[test]
fn yaml_inline_tags_stop_the_scan() {
    let mut out: Vec<String> = Vec::new();
    extract_yaml_tags("tags: [a]\ntags:\n  - b", &mut out);
    assert_eq!(out, vec!["a".to_string()]);
}

#[test]
fn yaml_without_tags_adds_nothing() {
    let mut out: Vec<String> = Vec::new();
    extract_yaml_tags("title: X\n- not a tag", &mut out);
    assert!(out.is_empty());
}
