use knowforge::corrections::{
    decide_style_update, expire_superseded_corrections, merge_corrections, merge_session,
    StyleAction, MAX_CORRECTIONS, MAX_SESSIONS,
    expire_superseded_corrections_now,
};
use knowforge::memory::{MemoryCorrection, MemorySession, NewCorrection, PendingStyleEntry};

const TODAY: &str = "2026-06-20";

fn correction(rule: &str, reason: &str, date: &str) -> MemoryCorrection {
    MemoryCorrection {
        rule: rule.to_string(),
        reason: reason.to_string(),
        date: date.to_string(),
        source: "explicit".to_string(),
        superseded_by: None,
        superseded_at: None,
    }
}

fn new_correction(rule: &str, reason: &str) -> NewCorrection {
    NewCorrection { rule: rule.to_string(), reason: reason.to_string() }
}

fn active_count(cs: &[MemoryCorrection]) -> usize {
    cs.iter().filter(|c| c.is_active()).count()
}

// -- Interaction style: what an observed value does --

#[test]
fn memory_merge_style_first_observation_goes_to_pending() {
    assert_eq!(decide_style_update(None, None, "concise"), StyleAction::SetPending);
    let entry = PendingStyleEntry::new("concise".to_string());
    assert_eq!(entry.value, "concise");
    assert!(!entry.observed_at.is_empty());
}

#[test]
fn tests_merge_style_first_observation_goes_to_pending() {
    assert_eq!(decide_style_update(None, None, "concise"), StyleAction::SetPending);
    let entry = PendingStyleEntry::new("concise".to_string());
    assert_eq!(entry.value, "concise");
    assert!(!entry.observed_at.is_empty());
}

#[test]
fn memory_merge_style_second_consistent_promotes() {
    assert_eq!(decide_style_update(None, Some("concise"), "concise"), StyleAction::Promote);
}

#[test]
fn tests_merge_style_second_consistent_promotes() {
    assert_eq!(decide_style_update(None, Some("concise"), "concise"), StyleAction::Promote);
}

#[test]
fn memory_merge_style_different_value_replaces_pending() {
    assert_eq!(decide_style_update(None, Some("concise"), "detailed"), StyleAction::SetPending);
}

#[test]
fn tests_merge_style_different_value_replaces_pending() {
    assert_eq!(decide_style_update(None, Some("concise"), "detailed"), StyleAction::SetPending);
}

#[test]
fn memory_merge_style_skips_when_already_set() {
    assert_eq!(decide_style_update(Some("concise"), None, "concise"), StyleAction::Skip);
}

#[test]
fn tests_merge_style_skips_when_already_set() {
    assert_eq!(decide_style_update(Some("concise"), None, "concise"), StyleAction::Skip);
}

#[test]
fn merge_style_substring_promotes() {
    assert_eq!(
        decide_style_update(None, Some("concise"), "concise replies"),
        StyleAction::Promote
    );
}

#[test]
fn style_change_of_current_value_goes_to_pending() {
    assert_eq!(decide_style_update(Some("concise"), None, "detailed"), StyleAction::SetPending);
}

// -- Corrections --

fn remove_then_add() -> Vec<MemoryCorrection> {
    let mut cs = vec![correction("old rule", "old", "2026-06-14")];
    merge_corrections(
        &mut cs,
        vec![new_correction("new rule", "new reason")],
        vec!["old rule".to_string()],
        TODAY,
    );
    cs
}

#[test]
fn memory_merge_corrections_remove_then_add() {
    let cs = remove_then_add();
    assert_eq!(cs.len(), 2);
    assert!(cs[0].superseded_by.is_some());
    let active: Vec<_> = cs.iter().filter(|c| c.is_active()).collect();
    assert_eq!(active.len(), 1);
    assert_eq!(active[0].rule, "new rule");
}

#[test]
fn tests_merge_corrections_remove_then_add() {
    let cs = remove_then_add();
    assert_eq!(cs.len(), 2);
    assert!(cs[0].superseded_by.is_some());
    let active: Vec<_> = cs.iter().filter(|c| c.is_active()).collect();
    assert_eq!(active.len(), 1);
    assert_eq!(active[0].rule, "new rule");
    assert_eq!(active[0].date, TODAY);
    assert_eq!(active[0].source, "explicit");
}

fn dedup() -> Vec<MemoryCorrection> {
    let mut cs = vec![correction("existing rule", "old reason", "2026-06-14")];
    merge_corrections(
        &mut cs,
        vec![new_correction("existing rule", "updated reason")],
        Vec::new(),
        TODAY,
    );
    cs
}

#[test]
fn memory_merge_corrections_dedup() {
    let cs = dedup();
    assert_eq!(cs.len(), 1);
    assert_eq!(cs[0].reason, "updated reason");
}

#[test]
fn tests_merge_corrections_dedup() {
    let cs = dedup();
    assert_eq!(cs.len(), 1);
    assert_eq!(cs[0].reason, "updated reason");
    assert_eq!(cs[0].date, TODAY);
}

fn capacity() -> Vec<MemoryCorrection> {
    let mut cs: Vec<MemoryCorrection> = (0..21)
        .map(|i| correction(&format!("rule-{i}"), "reason", &format!("2026-06-{:02}", (i % 28) + 1)))
        .collect();
    merge_corrections(&mut cs, vec![new_correction("new rule", "reason")], Vec::new(), TODAY);
    cs
}

#[test]
fn memory_merge_corrections_capacity() {
    let cs = capacity();
    assert!(active_count(&cs) <= MAX_CORRECTIONS);
}

#[test]
fn tests_merge_corrections_capacity() {
    let cs = capacity();
    assert!(active_count(&cs) <= MAX_CORRECTIONS);
    assert_eq!(active_count(&cs), MAX_CORRECTIONS);
    // the two oldest (rule-0 and rule-1) were retired for capacity
    for c in &cs {
        if c.rule == "rule-0" || c.rule == "rule-1" {
            assert_eq!(c.superseded_by.as_deref(), Some("capacity"));
            assert_eq!(c.superseded_at.as_deref(), Some(TODAY));
        } else {
            assert!(c.is_active());
        }
    }
}

#[test]
fn forget_soft_deletes_correction() {
    let mut cs = vec![correction("old preference", "user said so", "2026-06-14")];
    merge_corrections(&mut cs, Vec::new(), vec!["old preference".to_string()], TODAY);
    assert_eq!(cs.len(), 1);
    assert_eq!(cs[0].superseded_by.as_deref(), Some("user_forget"));
    assert!(cs[0].superseded_at.is_some());
}

#[test]
fn capacity_counts_active_only() {
    let mut cs: Vec<MemoryCorrection> =
        (0..19).map(|i| correction(&format!("active-{i}"), "r", "2026-06-15")).collect();
    let mut s = correction("superseded", "r", "2026-06-14");
    s.superseded_by = Some("capacity".to_string());
    s.superseded_at = Some("2026-06-15".to_string());
    cs.push(s);
    merge_corrections(
        &mut cs,
        vec![new_correction("new-a", "r"), new_correction("new-b", "r")],
        Vec::new(),
        TODAY,
    );
    assert!(active_count(&cs) <= MAX_CORRECTIONS);
}

#[test]
fn superseded_cleanup_after_90_days() {
    let mut expired = correction("expired", "r", "2026-01-01");
    expired.superseded_by = Some("user_forget".to_string());
    expired.superseded_at = Some("2026-03-01".to_string());
    let mut recent = correction("recent superseded", "r", "2026-06-10");
    recent.superseded_by = Some("user_forget".to_string());
    recent.superseded_at = Some("2026-06-19".to_string());
    let active = correction("active", "r", "2026-06-15");
    let mut cs = vec![expired, recent, active];
    // the cutoff is 90 days before the day of the cleanup
    expire_superseded_corrections(&mut cs, "2026-03-22");
    assert_eq!(cs.len(), 2);
    assert!(cs.iter().any(|c| c.rule == "recent superseded"));
    assert!(cs.iter().any(|c| c.rule == "active"));
    assert!(!cs.iter().any(|c| c.rule == "expired"));
}

// -- Sessions --

fn appended() -> Vec<MemorySession> {
    let mut sessions = Vec::new();
    merge_session(
        &mut sessions,
        Some("did stuff".to_string()),
        vec!["Rust".to_string()],
        Some("continue".to_string()),
    );
    sessions
}

#[test]
fn memory_merge_session_appends() {
    let s = appended();
    assert_eq!(s.len(), 1);
    assert_eq!(s[0].summary, "did stuff");
    assert_eq!(s[0].follow_up.as_deref(), Some("continue"));
}

#[test]
fn tests_merge_session_appends() {
    let s = appended();
    assert_eq!(s.len(), 1);
    assert_eq!(s[0].summary, "did stuff");
    assert_eq!(s[0].follow_up.as_deref(), Some("continue"));
    assert_eq!(s[0].domains_touched, vec!["Rust".to_string()]);
}

#[test]
fn memory_merge_session_no_summary_skips() {
    let mut sessions = Vec::new();
    merge_session(&mut sessions, None, Vec::new(), None);
    assert!(sessions.is_empty());
}

#[test]
fn tests_merge_session_no_summary_skips() {
    let mut sessions = Vec::new();
    merge_session(&mut sessions, None, Vec::new(), None);
    assert!(sessions.is_empty());
}

fn over_capacity() -> Vec<MemorySession> {
    let mut sessions: Vec<MemorySession> = (0..11)
        .map(|i| MemorySession {
            date: format!("2026-06-{:02}T00:00:00Z", (i % 28) + 1),
            summary: format!("session {i}"),
            domains_touched: Vec::new(),
            follow_up: None,
        })
        .collect();
    merge_session(&mut sessions, Some("new session".to_string()), Vec::new(), None);
    sessions
}

#[test]
fn memory_merge_session_capacity() {
    let s = over_capacity();
    assert!(s.len() <= MAX_SESSIONS);
    assert_eq!(s.last().unwrap().summary, "new session");
}

#[test]
fn tests_merge_session_capacity() {
    let s = over_capacity();
    assert!(s.len() <= MAX_SESSIONS);
    assert_eq!(s.last().unwrap().summary, "new session");
    assert_eq!(s[0].summary, "session 2");
}

#[test]
fn expiry_now_drops_long_superseded_only() {
    let mut old = correction("old rule", "r", "2000-01-01");
    old.superseded_by = Some("user_forget".to_string());
    old.superseded_at = Some("2000-01-02".to_string());
    let mut recent = correction("recent rule", "r", "2999-01-01");
    recent.superseded_by = Some("user_forget".to_string());
    recent.superseded_at = Some("2999-01-02".to_string());
    let active = correction("active rule", "r", "2000-01-01");
    let mut cs = vec![old, recent, active];
    expire_superseded_corrections_now(&mut cs);
    let rules: Vec<&str> = cs.iter().map(|c| c.rule.as_str()).collect();
    assert_eq!(rules, vec!["recent rule", "active rule"]);
}

#[test]
fn pending_entry_is_stamped_with_an_rfc3339_utc_time() {
    let entry = PendingStyleEntry::new("concise".to_string());
    let t = entry.observed_at.as_str();
    assert!([25, 29, 32, 35].contains(&t.len()));
    assert!(t.ends_with("+00:00"));
    assert_eq!(&t[4..5], "-");
    assert_eq!(&t[10..11], "T");
}
