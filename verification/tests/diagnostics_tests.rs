use ep_rs::diagnostics::{DiagnosticCollector, DiagnosticLevel};

#[test]
fn rate_limiting() {
    let mut dc = DiagnosticCollector::new(3);
    for _ in 0..10 {
        dc.warn("test", "repeated warning");
    }
    assert_eq!(dc.warning_count(), 3);
}

#[test]
fn severe_always_recorded() {
    let mut dc = DiagnosticCollector::new(0);
    dc.severe("test", "bad thing happened");
    assert_eq!(dc.severe_count(), 1);
    assert!(dc.has_severe_errors());
}

#[test]
fn rate_limit_is_per_message() {
    let mut dc = DiagnosticCollector::new(2);
    for _ in 0..5 {
        dc.warn("a", "first");
        dc.info("b", "second");
    }
    assert_eq!(dc.warning_count(), 2);
    let d = dc.diagnostics();
    assert_eq!(d.len(), 4);
    assert_eq!(d[0].message, "first");
    assert_eq!(d[0].count, 1);
    assert_eq!(d[1].level, DiagnosticLevel::Info);
    assert_eq!(d[2].count, 2);
    assert_eq!(d[3].category, "b");
    assert!(d[3].location.is_none());
}

#[test]
fn info_and_warning_share_counts() {
    // The recurrence count is kept per message text, whatever the level.
    let mut dc = DiagnosticCollector::new(1);
    dc.info("x", "same");
    dc.warn("x", "same");
    assert_eq!(dc.diagnostics().len(), 1);
    assert_eq!(dc.warning_count(), 0);
}

#[test]
fn severe_ignores_limit() {
    let mut dc = DiagnosticCollector::new(1);
    for _ in 0..4 {
        dc.severe("s", "fatal");
    }
    assert_eq!(dc.severe_count(), 4);
    assert_eq!(dc.warning_count(), 0);
}

#[test]
fn clear_resets_counts() {
    let mut dc = DiagnosticCollector::new(1);
    dc.warn("w", "msg");
    dc.warn("w", "msg");
    dc.severe("s", "boom");
    assert_eq!(dc.diagnostics().len(), 2);
    dc.clear();
    assert_eq!(dc.diagnostics().len(), 0);
    assert!(!dc.has_severe_errors());
    dc.warn("w", "msg");
    assert_eq!(dc.warning_count(), 1);
}

#[test]
fn default_limit_is_one_hundred() {
    let mut dc = DiagnosticCollector::default();
    for _ in 0..150 {
        dc.warn("w", "again");
    }
    assert_eq!(dc.warning_count(), 100);
    assert_eq!(dc.diagnostics()[99].count, 100);
}

#[test]
fn levels_are_ordered() {
    assert!(DiagnosticLevel::Info < DiagnosticLevel::Warning);
    assert!(DiagnosticLevel::Warning < DiagnosticLevel::Severe);
}

#[test]
fn counts_run_in_order_per_message() {
    let mut dc = DiagnosticCollector::new(5);
    dc.warn("a", "x");
    dc.severe("a", "x");
    dc.info("a", "y");
    dc.warn("a", "x");
    dc.info("a", "x");
    let counts: Vec<(String, u32)> = dc
        .diagnostics()
        .iter()
        .filter(|d| d.level != DiagnosticLevel::Severe && d.message == "x")
        .map(|d| (d.message.clone(), d.count))
        .collect();
    assert_eq!(counts, vec![("x".to_string(), 1), ("x".to_string(), 2), ("x".to_string(), 3)]);
}

#[test]
fn severe_errors_persist_until_clear() {
    let mut dc = DiagnosticCollector::new(1);
    assert!(!dc.has_severe_errors());
    dc.severe("a", "boom");
    assert!(dc.has_severe_errors());
    dc.warn("a", "w");
    dc.warn("a", "w");
    dc.info("a", "i");
    assert!(dc.has_severe_errors());
    dc.clear();
    assert!(!dc.has_severe_errors());
}
