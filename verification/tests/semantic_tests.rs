use knowforge::semantic::{
    chunk_embed_texts, chunk_id, doc_step_after_read, doc_step_before_read, embed_batches,
    enter_thought_phase, skip_document_pass, thought_needs_embedding, ChunkInfo, DocStep,
    MAX_INDEX_FILE_BYTES,
    char_prefix_of, is_omitted, keyword_fusion_paths, omitted_paths, thought_ref, SemanticBlock,
    SEMANTIC_BLOCK_HEADER,
    is_heading_line, push_unique_path, push_unique_thought, split_markdown_into_chunks,
    truncate_chars, validate_resume_checkpoint, RebuildProgress,
    doc_step_for_content, file_is_stale, hash_bytes, hash_text, stale_by_hash,
};

#[test]
fn empty_md() {
    assert!(split_markdown_into_chunks("", 2048).is_empty());
}

#[test]
fn headings_split() {
    let md = "# A\nx\n\n## B\ny";
    let c = split_markdown_into_chunks(md, 2048);
    assert!(c.len() >= 2);
}

#[test]
fn chunks_carry_heading_and_index() {
    let md = "intro\n# A\nx\n\n## B\ny";
    let c = split_markdown_into_chunks(md, 2048);
    assert_eq!(c.len(), 3);
    assert_eq!(c[0].index, 0);
    assert_eq!(c[0].text, "intro");
    assert!(c[0].heading_context.is_none());
    assert_eq!(c[1].heading_context.as_deref(), Some("A"));
    assert_eq!(c[1].text, "x");
    assert_eq!(c[2].index, 2);
    assert_eq!(c[2].heading_context.as_deref(), Some("B"));
    assert_eq!(c[2].text, "y");
}

#[test]
fn long_section_splits_with_overlap() {
    let p1 = "a".repeat(100);
    let p2 = "b".repeat(100);
    let p3 = "c".repeat(100);
    let md = format!("{p1}\n\n{p2}\n\n{p3}");
    let c = split_markdown_into_chunks(&md, 10);
    assert_eq!(c.len(), 2);
    assert_eq!(c[0].text, format!("{p1}\n\n{p2}"));
    assert_eq!(c[1].text, format!("{p2}\n\n{p3}"));
    for ch in &c {
        assert!(ch.text.chars().count() <= 256);
    }
}

#[test]
fn long_single_paragraph_is_cut() {
    let md = "z".repeat(1000);
    let c = split_markdown_into_chunks(&md, 300);
    assert_eq!(c.len(), 1);
    assert_eq!(c[0].text.chars().count(), 300);
}

#[test]
fn heading_line_levels() {
    assert_eq!(is_heading_line("  ## Title ##"), Some("Title ##".to_string()));
    assert_eq!(is_heading_line("### ## Sub"), Some("Sub".to_string()));
    assert_eq!(is_heading_line("#### Too deep"), None);
    assert_eq!(is_heading_line("#"), None);
    assert_eq!(is_heading_line("plain"), None);
}

#[test]
fn truncate_chars_counts_characters() {
    assert_eq!(truncate_chars("你好世界", 2), "你好");
    assert_eq!(truncate_chars("ab", 5), "ab");
}

#[test]
fn push_unique_path_normalizes_and_dedups() {
    let mut v = Vec::new();
    push_unique_path(&mut v, "a\\b.md");
    push_unique_path(&mut v, "a/b.md");
    push_unique_path(&mut v, "");
    assert_eq!(v, vec!["a/b.md".to_string()]);
    push_unique_thought(&mut v, "t1");
    push_unique_thought(&mut v, "t1");
    assert_eq!(v.len(), 2);
}

fn progress(phase: &str, docs_total: usize) -> RebuildProgress {
    RebuildProgress {
        version: 1,
        rebuild_id: "r".to_string(),
        phase: phase.to_string(),
        started_at: String::new(),
        updated_at: String::new(),
        docs_total,
        docs_completed: 0,
        thoughts_total: 0,
        thoughts_next_index: 0,
        last_message: None,
        last_error: None,
    }
}

#[test]
fn resume_checkpoint_rules() {
    assert!(validate_resume_checkpoint(&progress("documents", 3), 3).is_ok());
    assert_eq!(
        validate_resume_checkpoint(&progress("documents", 3), 4).unwrap_err(),
        "Markdown file count changed (checkpoint 3, current 4); run a full rebuild"
    );
    assert!(validate_resume_checkpoint(&progress("completed", 3), 3)
        .unwrap_err()
        .contains("already completed"));
}

#[test]
fn semantic_block_assembly() {
    let mut b = SemanticBlock::new();
    assert!(!b.is_full());
    b.add_thought("t1", &"x".repeat(600));
    b.add_document("notes\\a.md", "chunk text", 600);
    assert!(!b.add_file("c.md", "---\nkf-private: true\n---\nsecret"));
    assert!(b.add_file("d.md", "open text"));
    assert!(b.is_full());
    let r = b.finish().unwrap();
    assert_eq!(
        r.block,
        format!(
            "{}\n- Thought `t1`: {}\n- `notes\\a.md`: chunk text\n- `d.md`: open text",
            SEMANTIC_BLOCK_HEADER,
            "x".repeat(500)
        )
    );
    assert_eq!(r.used.document_paths, vec!["notes/a.md".to_string(), "d.md".to_string()]);
    assert_eq!(r.used.thought_ids, vec!["t1".to_string()]);
}

#[test]
fn empty_semantic_block_is_none() {
    assert!(SemanticBlock::new().finish().is_none());
}

#[test]
fn fusion_keys_and_omissions() {
    assert_eq!(thought_ref("thought:abc"), Some("abc".to_string()));
    assert_eq!(thought_ref("notes/a.md"), None);
    let omit = omitted_paths(&vec!["notes\\open.md".to_string(), "".to_string()]);
    assert_eq!(omit, vec!["notes/open.md".to_string()]);
    assert!(is_omitted(&omit, "notes/open.md"));
    assert!(is_omitted(&omit, "notes\\open.md"));
    let kept = keyword_fusion_paths(
        &vec!["notes\\open.md".to_string(), "b.md".to_string()],
        &omit,
    );
    assert_eq!(kept, vec!["b.md".to_string()]);
    assert_eq!(char_prefix_of("你好世界", 2), "你好");
}

fn checkpoint(phase: &str) -> RebuildProgress {
    let mut cp = RebuildProgress::new_session("r1".to_string(), "2026-06-01T00:00:00Z");
    cp.phase = phase.to_string();
    cp
}

#[test]
fn rebuild_checkpoint_transitions() {
    let mut cp = RebuildProgress::new_session("r1".to_string(), "t0");
    assert_eq!(cp.phase, "scanning");
    assert_eq!(cp.started_at, "t0");
    cp.docs_total = 3;
    cp.flush_documents(1, "notes/b.md", "t1");
    assert_eq!(cp.docs_completed, 2);
    assert_eq!(cp.phase, "documents");
    assert_eq!(cp.last_message.as_deref(), Some("notes/b.md"));
    cp.mark_failed("boom", "t2");
    assert_eq!(cp.phase, "failed");
    assert_eq!(cp.last_error.as_deref(), Some("boom"));
    cp.mark_completed("t3");
    assert_eq!(cp.phase, "completed");
    assert!(cp.last_error.is_none());
    assert_eq!(cp.updated_at, "t3");
}

#[test]
fn resume_skips_documents_only_in_thought_phase() {
    assert!(!skip_document_pass(false, &checkpoint("thoughts")));
    assert!(skip_document_pass(true, &checkpoint("thoughts")));
    let mut cp = checkpoint("failed");
    cp.docs_total = 2;
    cp.docs_completed = 2;
    cp.thoughts_total = 5;
    cp.thoughts_next_index = 3;
    assert!(skip_document_pass(true, &cp));
    cp.thoughts_next_index = 5;
    assert!(!skip_document_pass(true, &cp));
    assert!(!skip_document_pass(true, &checkpoint("documents")));
}

#[test]
fn document_steps() {
    assert_eq!(doc_step_before_read(0, 1, 10), DocStep::AlreadyDone);
    assert_eq!(doc_step_before_read(1, 1, MAX_INDEX_FILE_BYTES + 1), DocStep::TooLarge);
    assert_eq!(doc_step_before_read(1, 1, MAX_INDEX_FILE_BYTES), DocStep::Read);
    assert_eq!(doc_step_after_read("---\nkf-private: true\n---\nx", None, "h"), DocStep::Private);
    assert_eq!(doc_step_after_read("# a", Some("h"), "h"), DocStep::Unchanged);
    assert_eq!(doc_step_after_read("# a", Some("g"), "h"), DocStep::Reindex);
    assert_eq!(doc_step_after_read("# a", None, "h"), DocStep::Reindex);
}

#[test]
fn chunk_texts_ids_and_batches() {
    let chunks = vec![
        ChunkInfo { index: 0, text: "body".to_string(), heading_context: Some("Intro".to_string()) },
        ChunkInfo { index: 1, text: "more".to_string(), heading_context: None },
    ];
    assert_eq!(chunk_embed_texts(&chunks), vec!["Intro\nbody".to_string(), "more".to_string()]);
    assert_eq!(chunk_id("notes/a.md", 12), "notes/a.md#12");
    assert_eq!(embed_batches(0, 40), vec![(0, 16), (16, 32), (32, 40)]);
    assert_eq!(embed_batches(5, 5), Vec::<(usize, usize)>::new());
    assert_eq!(embed_batches(20, 30), vec![(20, 30)]);
}

#[test]
fn thought_phase_entry() {
    let mut cp = checkpoint("thoughts");
    cp.thoughts_total = 4;
    cp.thoughts_next_index = 2;
    assert_eq!(enter_thought_phase(&mut cp, true, 4, "t").unwrap(), 2);
    let mut cp2 = checkpoint("thoughts");
    cp2.thoughts_total = 4;
    assert_eq!(
        enter_thought_phase(&mut cp2, true, 6, "t").unwrap_err(),
        "thought embed queue length changed (checkpoint 4, current 6); run a full rebuild"
    );
    let mut cp3 = checkpoint("documents");
    cp3.thoughts_next_index = 9;
    assert_eq!(enter_thought_phase(&mut cp3, false, 6, "t").unwrap(), 0);
    assert_eq!(cp3.thoughts_next_index, 0);
    assert_eq!(cp3.thoughts_total, 6);
    assert!(thought_needs_embedding(None, "u"));
    assert!(thought_needs_embedding(Some("v"), "u"));
    assert!(!thought_needs_embedding(Some("u"), "u"));
}

const HELLO_WORLD_SHA256: &str = "b94d27b9934d3e08a52e52d7da7dabfac484efe37a5380ee9088f7ace2efcde9";
const EMPTY_SHA256: &str = "e3b0c44298fc1c149afbf4c8996fb92427ae41e4649b934ca495991b7852b855";

#[test]
fn hashes_are_lowercase_sha256_hex() {
    assert_eq!(hash_text("hello world"), HELLO_WORLD_SHA256);
    assert_eq!(hash_bytes(b"hello world"), HELLO_WORLD_SHA256);
    assert_eq!(hash_bytes(b""), EMPTY_SHA256);
    assert_eq!(hash_text("\u{4e2d}\u{6587}").len(), 64);
}

#[test]
fn staleness_compares_recorded_hash() {
    assert!(!file_is_stale(Some(b"hello world"), HELLO_WORLD_SHA256));
    assert!(file_is_stale(Some(b"hello world!"), HELLO_WORLD_SHA256));
    assert!(file_is_stale(None, HELLO_WORLD_SHA256));
    assert!(!stale_by_hash(Some("abc"), "abc"));
    assert!(stale_by_hash(Some("abd"), "abc"));
    assert!(stale_by_hash(None, "abc"));
}

#[test]
fn content_step_hashes_public_notes_only() {
    let (step, hash) = doc_step_for_content("---\nkf-private: true\n---\nx", None);
    assert_eq!(step, DocStep::Private);
    assert!(hash.is_none());
    let (step, hash) = doc_step_for_content("hello world", Some(HELLO_WORLD_SHA256));
    assert_eq!(step, DocStep::Unchanged);
    assert_eq!(hash.as_deref(), Some(HELLO_WORLD_SHA256));
    let (step, hash) = doc_step_for_content("hello world", Some(EMPTY_SHA256));
    assert_eq!(step, DocStep::Reindex);
    assert_eq!(hash.as_deref(), Some(HELLO_WORLD_SHA256));
    let (step, _) = doc_step_for_content("hello world", None);
    assert_eq!(step, DocStep::Reindex);
}
