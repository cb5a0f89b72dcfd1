use knowforge::ids::{call_id_or_new, new_planning_session_id, new_random_id, new_seed_thought_id, simple_form, standalone_rel_path};
use knowforge::onboarding::{seed_plan, SEED_BODY_FEYNMAN, SEED_SUMMARY_HICK};
use knowforge::semantic::RebuildProgress;

fn is_uuid_text(s: &str, version: char) -> bool {
    let cs: Vec<char> = s.chars().collect();
    cs.len() == 36
        && cs.iter().enumerate().all(|(i, c)| {
            if [8, 13, 18, 23].contains(&i) {
                *c == '-'
            } else {
                c.is_ascii_digit() || ('a'..='f').contains(c)
            }
        })
        && cs[14] == version
}

#[test]
fn random_ids_are_hyphenated_v4() {
    let a = new_random_id();
    let b = new_random_id();
    assert!(is_uuid_text(&a, '4'));
    assert_ne!(a, b);
}

#[test]
fn call_ids_keep_sent_ones_and_fill_missing() {
    assert_eq!(call_id_or_new(Some("call_1".to_string())), "call_1");
    assert!(is_uuid_text(&call_id_or_new(None), '7'));
}

#[test]
fn simple_form_drops_hyphens() {
    assert_eq!(simple_form("67e55044-10b1-426f-9247-bb680e5fe0c8"), "67e5504410b1426f9247bb680e5fe0c8");
    assert_eq!(simple_form(""), "");
}

#[test]
fn seeded_thought_ids_and_paths() {
    let id = new_seed_thought_id();
    assert!(id.starts_with("thought-"));
    assert_eq!(id.len(), "thought-".len() + 32);
    assert_eq!(standalone_rel_path("thought-x"), ".knowforge/standalone/thought-x");
    let plan = seed_plan();
    assert_eq!(plan.len(), 3);
    assert_eq!(plan[0].body, SEED_BODY_FEYNMAN);
    assert_eq!(plan[2].summary, SEED_SUMMARY_HICK);
    assert_eq!(plan[1].summary, "Spaced repetition and the forgetting curve");
    for t in &plan {
        assert_eq!(t.rel_path, format!(".knowforge/standalone/{}", t.thought_id));
    }
    assert_ne!(plan[0].thought_id, plan[1].thought_id);
}

#[test]
fn planning_sessions_and_rebuilds_get_fresh_ids() {
    let p = new_planning_session_id();
    assert!(p.starts_with("plan-"));
    assert!(is_uuid_text(&p["plan-".len()..], '4'));
    let rp = RebuildProgress::start();
    assert!(is_uuid_text(&rp.rebuild_id, '4'));
    assert_eq!(rp.phase, "scanning");
    assert_eq!(rp.started_at, rp.updated_at);
    assert_eq!(rp.docs_total, 0);
}
