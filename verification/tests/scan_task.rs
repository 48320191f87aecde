use movie_rust::scan::{AttemptOutcome, AttemptStart, ScanRegistry, ScanStatus, ScanStep, ScanSummary, MAX_ATTEMPTS};

#[test]
fn scan_attempts_retry_database_errors_only() {
    let mut r = ScanRegistry::new();
    r.enqueue("manual".to_string(), "all".to_string(), None, None, 5, 0);
    assert!(matches!(r.begin_attempt(5, 1, 1), AttemptStart::Started));
    let db = AttemptOutcome::Failed { error: "db down".to_string(), is_db_error: true };
    assert_eq!(r.after_attempt(5, "all", db, 1, 2), ScanStep::Retry(2));
    assert_eq!(r.get(5).unwrap().status, ScanStatus::Queued);
    assert_eq!(r.active_operation("all"), Some(5));
    assert!(matches!(r.begin_attempt(5, 2, 3), AttemptStart::Started));
    let other = AttemptOutcome::Failed { error: "bad path".to_string(), is_db_error: false };
    assert_eq!(r.after_attempt(5, "all", other, 2, 4), ScanStep::Stop);
    let op = r.get(5).unwrap();
    assert_eq!(op.status, ScanStatus::Failed);
    assert_eq!(op.attempts, 2);
    assert_eq!(op.error, Some("bad path".to_string()));
    assert_eq!(r.active_operation("all"), None);
}

#[test]
fn scan_attempts_stop_at_the_last() {
    let mut r = ScanRegistry::new();
    r.enqueue("manual".to_string(), "lib".to_string(), None, None, 8, 0);
    let db = AttemptOutcome::Failed { error: "db down".to_string(), is_db_error: true };
    assert_eq!(r.after_attempt(8, "lib", db, MAX_ATTEMPTS, 1), ScanStep::Stop);
    assert_eq!(r.get(8).unwrap().status, ScanStatus::Failed);
}

#[test]
fn scan_attempts_end_on_success_or_cancel() {
    let mut r = ScanRegistry::new();
    r.enqueue("manual".to_string(), "a".to_string(), None, None, 1, 0);
    let summary = ScanSummary { libraries: 1, scanned_files: 7, imported_items: 2 };
    assert_eq!(r.after_attempt(1, "a", AttemptOutcome::Succeeded(summary), 1, 5), ScanStep::Stop);
    let op = r.get(1).unwrap();
    assert_eq!(op.status, ScanStatus::Succeeded);
    assert_eq!(op.result, Some(summary));
    assert_eq!(op.total_files, 7);
    r.enqueue("manual".to_string(), "b".to_string(), None, None, 2, 6);
    assert_eq!(r.after_attempt(2, "b", AttemptOutcome::Cancelled, 1, 7), ScanStep::Stop);
    assert_eq!(r.get(2).unwrap().status, ScanStatus::Cancelled);
    assert_eq!(r.active_operation("b"), None);
}
