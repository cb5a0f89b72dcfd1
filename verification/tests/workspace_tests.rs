use knowforge::workspace::{
    dir_topics, frequent_paths, parent_dir_of, script_counts, stem_script_counts, tag_vocabulary,
    MAX_FREQUENT_PATHS, MAX_TAG_VOCABULARY,
};

fn paths(ps: &[&str]) -> Vec<String> {
    ps.iter().map(|s| s.to_string()).collect()
}

#[test]
fn counts_scripts_in_peek() {
    assert_eq!(script_counts("这是中文 abc!", 100), (4, 3));
    assert_eq!(script_counts("这是中文 abc!", 2), (2, 0));
    assert_eq!(script_counts("", 10), (0, 0));
}

#[test]
fn counts_scripts_in_file_names() {
    let (cjk, ascii) = stem_script_counts(&paths(&["notes/笔记.md", "a/readme.md", "x.txt"]));
    assert_eq!(cjk, 2);
    assert_eq!(ascii, 6 + 4);
}

#[test]
fn parent_dirs() {
    assert_eq!(parent_dir_of("notes/daily/a.md"), "notes/daily/");
    assert_eq!(parent_dir_of("top.md"), "");
}

#[test]
fn frequent_folders_by_count() {
    let ps = paths(&["b/1.md", "a/1.md", "b/2.md", "c/x/1.md", "top.md", "a/2.md", "b/3.md"]);
    let f = frequent_paths(&ps);
    let got: Vec<(String, String)> = f.into_iter().map(|p| (p.path, p.description)).collect();
    assert_eq!(
        got,
        vec![
            ("b/".to_string(), "3 notes".to_string()),
            ("a/".to_string(), "2 notes".to_string()),
            ("c/x/".to_string(), "1 notes".to_string()),
        ]
    );
}

#[test]
fn frequent_folders_are_capped() {
    let ps: Vec<String> = (0..40).map(|i| format!("d{i}/n.md")).collect();
    assert_eq!(frequent_paths(&ps).len(), MAX_FREQUENT_PATHS);
}

#[test]
fn topics_from_folders() {
    let ps = paths(&["notes/rust/a.md", "notes/rust/b.md", "journal/x.md"]);
    let topics = dir_topics(&frequent_paths(&ps));
    assert_eq!(topics, vec!["rust".to_string(), "journal".to_string()]);
}

#[test]
fn tag_vocabulary_sorted_and_capped() {
    assert_eq!(
        tag_vocabulary(paths(&["rust", "ai", "Zeta", "中文"])),
        paths(&["Zeta", "ai", "rust", "中文"])
    );
    let many: Vec<String> = (0..40).map(|i| format!("t{:02}", i)).collect();
    let v = tag_vocabulary(many);
    assert_eq!(v.len(), MAX_TAG_VOCABULARY);
    assert_eq!(v[0], "t00");
    assert_eq!(v[29], "t29");
}
