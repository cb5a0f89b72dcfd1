use knowforge::injection::{format_domain_entry, format_for_injection, DomainEntry, DomainQualifier, InjectionInput};
use knowforge::memory::{MemoryCorrection, MemorySession};

fn empty() -> InjectionInput {
    InjectionInput {
        high_domains: Vec::new(),
        low_domains: Vec::new(),
        detail_preference: None,
        explanation_style: None,
        challenge_tolerance: None,
        format: None,
        language: Vec::new(),
        language_distribution: Vec::new(),
        frequent_paths: Vec::new(),
        topics: Vec::new(),
        tag_vocabulary: Vec::new(),
        corrections: Vec::new(),
        sessions: Vec::new(),
    }
}

fn entry(domain: &str, q: DomainQualifier, depth: &str) -> DomainEntry {
    DomainEntry {
        domain: domain.to_string(),
        qualifier: q,
        depth: depth.to_string(),
        current_focus: None,
        motivation: None,
    }
}

fn correction(rule: &str, reason: &str) -> MemoryCorrection {
    MemoryCorrection {
        rule: rule.to_string(),
        reason: reason.to_string(),
        date: "2026-06-15".to_string(),
        source: "explicit".to_string(),
        superseded_by: None,
        superseded_at: None,
    }
}

fn sessions(n: usize) -> Vec<MemorySession> {
    (0..n)
        .map(|i| MemorySession {
            date: format!("2026-06-{:02}T00:00:00Z", 10 + i),
            summary: format!("session {i}"),
            domains_touched: Vec::new(),
            follow_up: None,
        })
        .collect()
}

// A domain of confidence 0.9 is shown as it is, one of 0.6 as "likely",
// one of 0.35 only by name; one below 0.3 or archived is not passed in.

#[test]
fn memory_injection_empty_memory_returns_none() {
    assert!(format_for_injection(&empty()).is_none());
}

#[test]
fn tests_injection_empty_memory_returns_none() {
    assert!(format_for_injection(&empty()).is_none());
}

fn high_confidence() -> String {
    let mut inp = empty();
    inp.high_domains.push(entry("distributed systems", DomainQualifier::Confident, "practitioner"));
    format_for_injection(&inp).unwrap()
}

#[test]
fn memory_injection_includes_high_confidence_directly() {
    let text = high_confidence();
    assert!(text.contains("distributed systems (practitioner"));
    assert!(!text.contains("likely"));
    assert!(!text.contains("possibly"));
}

#[test]
fn tests_injection_includes_high_confidence_directly() {
    let text = high_confidence();
    assert!(text.contains("distributed systems (practitioner"));
    assert!(!text.contains("likely"));
    assert!(!text.contains("possibly"));
}

fn medium_confidence() -> String {
    let mut inp = empty();
    inp.high_domains.push(entry("Rust", DomainQualifier::Likely, "learning"));
    format_for_injection(&inp).unwrap()
}

#[test]
fn memory_injection_medium_confidence_uses_likely() {
    assert!(medium_confidence().contains("likely learning"));
}

#[test]
fn tests_injection_medium_confidence_uses_likely() {
    assert!(medium_confidence().contains("likely learning"));
}

#[test]
fn injection_low_confidence_uses_summary() {
    let mut inp = empty();
    inp.low_domains.push("quantum".to_string());
    let text = format_for_injection(&inp).unwrap();
    assert!(text.contains("Also some interest in: quantum"));
}

#[test]
fn memory_injection_below_threshold_not_injected() {
    assert!(format_for_injection(&empty()).is_none());
}

#[test]
fn tests_injection_below_threshold_not_injected() {
    assert!(format_for_injection(&empty()).is_none());
}

#[test]
fn memory_injection_archived_not_injected() {
    assert!(format_for_injection(&empty()).is_none());
}

#[test]
fn tests_injection_archived_not_injected() {
    assert!(format_for_injection(&empty()).is_none());
}

fn with_correction() -> String {
    let mut inp = empty();
    inp.corrections.push(correction("use Chinese titles", "user prefers zh"));
    format_for_injection(&inp).unwrap()
}

#[test]
fn memory_injection_corrections_format() {
    let text = with_correction();
    assert!(text.contains("use Chinese titles"));
    assert!(text.contains("user prefers zh"));
}

#[test]
fn tests_injection_corrections_format() {
    let text = with_correction();
    assert!(text.contains("use Chinese titles"));
    assert!(text.contains("user prefers zh"));
    assert_eq!(
        text,
        "# User Model (accumulated across sessions)\n\n## Rules\n- use Chinese titles — user prefers zh\n\nAdapt your responses to this user's knowledge level and style.\nDo NOT mention this model unless asked.\nCurrent request overrides any remembered preference."
    );
}

fn recent_sessions() -> String {
    let mut inp = empty();
    inp.sessions = sessions(5);
    format_for_injection(&inp).unwrap()
}

#[test]
fn memory_injection_sessions_shows_recent_3() {
    let text = recent_sessions();
    assert!(!text.contains("session 0"));
    assert!(!text.contains("session 1"));
    assert!(text.contains("session 2"));
    assert!(text.contains("session 3"));
    assert!(text.contains("session 4"));
}

#[test]
fn tests_injection_sessions_shows_recent_3() {
    let text = recent_sessions();
    assert!(!text.contains("session 0"));
    assert!(!text.contains("session 1"));
    assert!(text.contains("session 2"));
    assert!(text.contains("session 3"));
    assert!(text.contains("session 4"));
}

#[test]
fn injection_budget_trims_sessions() {
    let mut inp = empty();
    for i in 0..15 {
        inp.high_domains.push(DomainEntry {
            domain: format!("domain-{i} with a longer name for token usage"),
            qualifier: DomainQualifier::Confident,
            depth: "practitioner".to_string(),
            current_focus: Some("some focus area here".to_string()),
            motivation: Some("motivation text for testing".to_string()),
        });
    }
    for i in 0..20 {
        inp.corrections.push(correction(
            &format!("rule number {i} with some longer text for budget testing"),
            &format!("reason {i} is important for testing purposes"),
        ));
    }
    for i in 0..5 {
        inp.sessions.push(MemorySession {
            date: format!("2026-06-{:02}T00:00:00Z", 10 + i),
            summary: format!("worked on feature {i} with detailed summary text"),
            domains_touched: Vec::new(),
            follow_up: Some(format!("continue feature {i}")),
        });
    }
    let text = format_for_injection(&inp).unwrap();
    for i in 0..20 {
        assert!(
            text.contains(&format!("rule number {i}")),
            "correction {i} must never be trimmed"
        );
    }
    assert!(
        !text.contains("session 2") || !text.contains("session 3"),
        "sessions should be trimmed when over budget"
    );
}

#[test]
fn injection_corrections_never_trimmed() {
    let mut inp = empty();
    for i in 0..20 {
        inp.corrections.push(correction(&format!("important rule {i}"), &format!("reason {i}")));
    }
    let text = format_for_injection(&inp).unwrap();
    for i in 0..20 {
        assert!(text.contains(&format!("important rule {i}")));
    }
}

#[test]
fn injection_skips_superseded_corrections() {
    let mut inp = empty();
    inp.corrections.push(correction("active rule", "keep"));
    let mut dead = correction("dead rule", "should not appear");
    dead.superseded_by = Some("user_forget".to_string());
    dead.superseded_at = Some("2026-06-15".to_string());
    inp.corrections.push(dead);
    let text = format_for_injection(&inp).unwrap();
    assert!(text.contains("active rule"));
    assert!(!text.contains("dead rule"));
}

#[test]
fn domain_entry_with_focus_and_motivation() {
    let mut d = entry("Rust", DomainQualifier::Possibly, "curious");
    d.current_focus = Some("async".to_string());
    d.motivation = Some("work".to_string());
    assert_eq!(format_domain_entry(&d), "Rust (possibly curious, focused on async — work)");
}

#[test]
fn style_and_language_lines() {
    let mut inp = empty();
    inp.detail_preference = Some("concise".to_string());
    inp.explanation_style = Some("examples".to_string());
    inp.language.push(("titles".to_string(), "zh".to_string()));
    let text = format_for_injection(&inp).unwrap();
    assert!(text.contains("## You\n- Style: concise, prefers examples\n- Language: titles in zh"));
}
