use knowforge::memory::ProposalAction;
use knowforge::domains::{
    archive_domain, kept_domain_order, merge_domain_update, proposal_steps, revise_domain, StepKind,
    DomainUpdateRecord,
    KnowledgeDomainRecord, MAX_KNOWLEDGE_DOMAINS,
};

const TODAY: &str = "2026-06-20";

fn domain(name: &str, depth: &str, focus: Option<&str>, last: &str, evidence: u32, archived: bool) -> KnowledgeDomainRecord {
    KnowledgeDomainRecord {
        domain: name.to_string(),
        depth: depth.to_string(),
        current_focus: focus.map(str::to_string),
        motivation: None,
        last_evidence: last.to_string(),
        evidence_count: evidence,
        archived,
    }
}

fn update(name: &str, depth: &str, focus: Option<&str>, confidence: f64) -> (DomainUpdateRecord, f64) {
    let record = DomainUpdateRecord {
        domain: name.to_string(),
        depth: depth.to_string(),
        current_focus: focus.map(str::to_string),
        motivation: None,
        confident: confidence >= 0.7,
    };
    (record, confidence)
}

/// Merges one update as the user model does: the library decides the
/// domain, the confidence follows it (known: +15% of the remaining gap, at
/// most 0.95; new: the extracted confidence).
fn merge(records: &mut Vec<KnowledgeDomainRecord>, confidences: &mut Vec<f64>, u: (DomainUpdateRecord, f64)) {
    let (record, confidence) = u;
    match merge_domain_update(records, record, TODAY) {
        Some(i) => {
            let c = confidences[i];
            confidences[i] = (c + (1.0 - c) * 0.15).min(0.95);
        }
        None => confidences.push(confidence),
    }
}

fn new_domain_case() {
    let mut ds = Vec::new();
    let mut cs = Vec::new();
    merge(&mut ds, &mut cs, update("Rust", "learning", Some("async"), 0.5));
    assert_eq!(ds.len(), 1);
    assert_eq!(ds[0].evidence_count, 1);
    assert!((cs[0] - 0.5).abs() < f64::EPSILON);
    assert_eq!(ds[0].last_evidence, TODAY);
    assert!(!ds[0].archived);
}

#[test]
fn memory_merge_new_domain() {
    new_domain_case();
}

#[test]
fn tests_merge_new_domain() {
    new_domain_case();
}

fn existing_domain_case() {
    let mut ds = vec![domain("Rust", "curious", None, "2026-06-14", 1, false)];
    let mut cs = vec![0.5];
    merge(&mut ds, &mut cs, update("Rust", "learning", Some("async"), 0.7));
    assert_eq!(ds.len(), 1);
    assert_eq!(ds[0].evidence_count, 2);
    assert!((cs[0] - 0.575).abs() < f64::EPSILON);
    assert_eq!(ds[0].depth, "learning");
    assert_eq!(ds[0].current_focus.as_deref(), Some("async"));
}

#[test]
fn memory_merge_existing_domain_accumulates() {
    existing_domain_case();
}

#[test]
fn tests_merge_existing_domain_accumulates() {
    existing_domain_case();
}

fn depth_only_upgrades_case() {
    let mut ds = vec![domain("Rust", "practitioner", None, "2026-06-14", 3, false)];
    let mut cs = vec![0.8];
    merge(&mut ds, &mut cs, update("Rust", "curious", None, 0.5));
    assert_eq!(ds[0].depth, "practitioner");
}

#[test]
fn memory_merge_depth_only_upgrades() {
    depth_only_upgrades_case();
}

#[test]
fn tests_merge_depth_only_upgrades() {
    depth_only_upgrades_case();
}

fn depth_upgrade_requires_confidence_case() {
    let mut ds = vec![domain("Rust", "learning", None, "2026-06-14", 1, false)];
    let mut cs = vec![0.5];
    merge(&mut ds, &mut cs, update("Rust", "expert", None, 0.5));
    assert_eq!(ds[0].depth, "learning");
}

#[test]
fn memory_merge_depth_upgrade_requires_confidence() {
    depth_upgrade_requires_confidence_case();
}

#[test]
fn tests_merge_depth_upgrade_requires_confidence() {
    depth_upgrade_requires_confidence_case();
}

fn case_insensitive_case() {
    let mut ds = vec![domain("Rust", "learning", None, "2026-06-14", 1, false)];
    let mut cs = vec![0.5];
    merge(&mut ds, &mut cs, update("rust", "learning", None, 0.5));
    assert_eq!(ds.len(), 1);
    assert_eq!(ds[0].evidence_count, 2);
    // the recorded name keeps its own letter case
    assert_eq!(ds[0].domain, "Rust");
}

#[test]
fn memory_merge_domain_case_insensitive() {
    case_insensitive_case();
}

#[test]
fn tests_merge_domain_case_insensitive() {
    case_insensitive_case();
}

fn reactivates_archived_case() {
    let mut ds = vec![domain("Rust", "curious", None, "2025-01-01", 1, true)];
    let mut cs = vec![0.2];
    merge(&mut ds, &mut cs, update("Rust", "learning", None, 0.7));
    assert!(!ds[0].archived);
    assert_eq!(ds[0].last_evidence, TODAY);
}

#[test]
fn memory_merge_reactivates_archived() {
    reactivates_archived_case();
}

#[test]
fn tests_merge_reactivates_archived() {
    reactivates_archived_case();
}

/// The order key the user model gives a confidence.
fn key(c: f64) -> u64 {
    if c.is_nan() || c <= 0.0 {
        0
    } else {
        c.to_bits()
    }
}

fn capacity_overflow_case() {
    let mut ds = Vec::new();
    let mut cs = Vec::new();
    for i in 0..16 {
        ds.push(domain(&format!("domain-{i}"), "curious", None, "2026-06-15", 1, false));
        cs.push(0.5 + (i as f64 * 0.02));
    }
    merge(&mut ds, &mut cs, update("new-domain", "curious", None, 0.3));
    let keys: Vec<u64> = cs.iter().map(|c| key(*c)).collect();
    let order = kept_domain_order(&keys);
    assert!(order.len() <= MAX_KNOWLEDGE_DOMAINS);
    // the most confident first; domain-0 and the new domain are dropped
    let expected: Vec<usize> = (1..16).rev().collect();
    assert_eq!(order, expected);
}

#[test]
fn memory_merge_domains_capacity_overflow() {
    capacity_overflow_case();
}

#[test]
fn tests_merge_domains_capacity_overflow() {
    capacity_overflow_case();
}

#[test]
fn kept_order_is_identity_up_to_the_cap() {
    let keys: Vec<u64> = vec![3, 9, 1];
    assert_eq!(kept_domain_order(&keys), vec![0, 1, 2]);
    let fifteen: Vec<u64> = (0..15).collect();
    assert_eq!(kept_domain_order(&fifteen), (0..15).collect::<Vec<usize>>());
}

#[test]
fn kept_order_is_stable_among_equal_keys() {
    let mut keys: Vec<u64> = vec![5; 17];
    keys[16] = 7;
    let order = kept_domain_order(&keys);
    let mut expected = vec![16];
    expected.extend(0..14);
    assert_eq!(order, expected);
}

#[test]
fn merge_matches_the_first_of_two_same_names() {
    let mut ds = vec![
        domain("RUST", "learning", None, "2026-06-14", 1, false),
        domain("Rust", "learning", None, "2026-06-14", 4, false),
    ];
    let mut cs = vec![0.5, 0.5];
    merge(&mut ds, &mut cs, update("rust", "learning", None, 0.5));
    assert_eq!(ds[0].evidence_count, 2);
    assert_eq!(ds[1].evidence_count, 4);
}

fn update_domain_case() {
    let mut ds = vec![domain("Rust", "learning", Some("async"), "2026-06-15", 2, false)];
    let r = revise_domain(&mut ds, "Rust", Some("macros".to_string()), Some("practitioner".to_string()), TODAY);
    assert_eq!(r, Some(0));
    assert_eq!(ds[0].depth, "practitioner");
    assert_eq!(ds[0].current_focus.as_deref(), Some("macros"));
}

#[test]
fn memory_proposal_update_domain() {
    update_domain_case();
}

#[test]
fn tests_proposal_update_domain() {
    update_domain_case();
}

#[test]
fn proposal_update_respects_depth_upgrade_only() {
    let mut ds = vec![domain("Rust", "practitioner", Some("async"), "2026-06-10", 2, false)];
    revise_domain(&mut ds, "Rust", Some("macros".to_string()), Some("curious".to_string()), TODAY);
    assert_eq!(ds[0].depth, "practitioner");
    assert_eq!(ds[0].current_focus.as_deref(), Some("macros"));
    assert_eq!(ds[0].evidence_count, 3);
    assert_ne!(ds[0].last_evidence, "2026-06-10");
}

#[test]
fn revise_is_exact_on_the_name() {
    let mut ds = vec![domain("Rust", "learning", None, "2026-06-10", 2, false)];
    assert_eq!(revise_domain(&mut ds, "rust", None, Some("expert".to_string()), TODAY), None);
    assert_eq!(ds[0].depth, "learning");
    assert_eq!(ds[0].evidence_count, 2);
}

fn archive_domain_case() {
    let mut ds = vec![domain("React", "curious", None, "2026-01-01", 1, false)];
    assert_eq!(archive_domain(&mut ds, "React"), Some(0));
    assert!(ds[0].archived);
    assert_eq!(archive_domain(&mut ds, "Vue"), None);
}

#[test]
fn memory_proposal_archive_domain() {
    archive_domain_case();
}

#[test]
fn tests_proposal_archive_domain() {
    archive_domain_case();
}

fn merge_archives_old_and_adds_new_case() {
    let mut ds = vec![domain("frontend", "learning", Some("React"), "2026-03-01", 2, false)];
    let mut cs = vec![0.6];
    archive_domain(&mut ds, "frontend");
    merge(&mut ds, &mut cs, update("frontend", "practitioner", Some("Vue"), 0.7));
    assert_eq!(ds.len(), 1);
    assert!(!ds[0].archived);
    assert_eq!(ds[0].current_focus.as_deref(), Some("Vue"));
}

#[test]
fn memory_proposal_merge_archives_old_and_adds_new() {
    merge_archives_old_and_adds_new_case();
}

#[test]
fn tests_proposal_merge_archives_old_and_adds_new() {
    merge_archives_old_and_adds_new_case();
}

fn kinds(action: ProposalAction, category: &str, target: Option<&str>) -> Vec<(StepKind, Option<String>)> {
    proposal_steps(&action, category, target).into_iter().map(|s| (s.kind, s.target)).collect()
}

#[test]
fn proposal_steps_follow_action_and_category() {
    assert_eq!(kinds(ProposalAction::Add, "knowledge_domain", None), vec![(StepKind::AddDomain, None)]);
    assert_eq!(kinds(ProposalAction::Add, "correction", Some("x")), vec![(StepKind::AddCorrection, None)]);
    assert!(kinds(ProposalAction::Add, "interaction_style", None).is_empty());
    assert_eq!(
        kinds(ProposalAction::Update, "knowledge_domain", Some("Rust")),
        vec![(StepKind::ReviseDomain, Some("Rust".to_string()))]
    );
    assert!(kinds(ProposalAction::Update, "correction", Some("Rust")).is_empty());
    assert!(kinds(ProposalAction::Update, "knowledge_domain", None).is_empty());
    assert_eq!(
        kinds(ProposalAction::Archive, "correction", Some("React")),
        vec![(StepKind::ArchiveDomain, Some("React".to_string()))]
    );
    assert_eq!(
        kinds(ProposalAction::Merge, "knowledge_domain", Some("frontend")),
        vec![(StepKind::ArchiveDomain, Some("frontend".to_string())), (StepKind::AddDomain, None)]
    );
    assert!(kinds(ProposalAction::Skip, "knowledge_domain", Some("Rust")).is_empty());
}
