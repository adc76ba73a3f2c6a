use caldav_ics_sync::sched::{
    auto_sync_interval_secs, next_action, plan_loops, retry_delay_ms, status_after_run,
    AttemptOutcome, LoopAction, ResourceSpec, SyncError, SyncKind, SyncStatus, MAX_RETRIES,
};

#[test]
fn permanent_failure_on_first_attempt_stops_the_loop_with_no_retry() {
    assert_eq!(next_action(1, AttemptOutcome::PermanentError), LoopAction::StopLoop);
}

#[test]
fn transient_failures_retry_with_capped_nondecreasing_backoff_then_record_error() {
    // A run in which every attempt fails transiently: the retry delays
    // never decrease, stay within the cap, and the run ends recorded as
    // an error after exactly MAX_RETRIES attempts.
    let mut delays = Vec::new();
    for attempt in 1..MAX_RETRIES {
        match next_action(attempt, AttemptOutcome::TransientError) {
            LoopAction::RetryAfter(ms) => delays.push(ms),
            other => panic!("attempt {} gave {:?}", attempt, other),
        }
    }
    assert_eq!(delays, vec![30000, 300000, 300000, 300000]);
    assert_eq!(
        next_action(MAX_RETRIES, AttemptOutcome::TransientError),
        LoopAction::RecordErrorAndContinue
    );
}

#[test]
fn success_is_recorded() {
    assert_eq!(next_action(3, AttemptOutcome::Success), LoopAction::RecordSuccess);
}

#[test]
fn retry_delays_are_exact() {
    assert_eq!(retry_delay_ms(1), 30000);
    assert_eq!(retry_delay_ms(2), 300000);
    assert_eq!(retry_delay_ms(4), 300000);
}

#[test]
fn zero_interval_resources_never_get_a_loop() {
    let resources = vec![
        ResourceSpec { id: 1, is_destination: false, interval_secs: 0 },
        ResourceSpec { id: 2, is_destination: false, interval_secs: 300 },
        ResourceSpec { id: 3, is_destination: true, interval_secs: 0 },
        ResourceSpec { id: 4, is_destination: true, interval_secs: 60 },
    ];
    let planned = plan_loops(&resources);
    assert_eq!(planned.len(), 2);
    assert_eq!(planned[0].id, 2);
    assert_eq!(planned[1].id, 4);
}

#[test]
fn auto_sync_interval_parses_minutes_to_seconds() {
    assert_eq!(auto_sync_interval_secs("5"), Some(300));
    assert_eq!(auto_sync_interval_secs("0"), None);
    assert_eq!(auto_sync_interval_secs("nonsense"), None);
    assert_eq!(auto_sync_interval_secs(""), None);
}

#[test]
fn classified_errors_keep_kind_and_message() {
    let t = SyncError::transient("connection refused".to_string());
    assert!(!t.is_permanent());
    assert_eq!(t.message(), "connection refused");
    let p = SyncError::permanent("resource 7 no longer exists".to_string());
    assert!(p.is_permanent());
}

#[test]
fn status_after_a_run_is_never_pending() {
    assert_eq!(status_after_run(true), SyncStatus::Synced);
    assert_eq!(status_after_run(false), SyncStatus::Failed);
    assert_eq!(SyncStatus::Synced.name(), "ok");
    assert_eq!(SyncStatus::Failed.name(), "error");
    assert_eq!(SyncStatus::Pending.name(), "pending");
}

#[test]
fn error_status_writes_name_the_right_resource() {
    let w = SyncKind::Source(7).write_error_status("boom".to_string());
    assert!(!w.destination);
    assert_eq!(w.id, 7);
    assert_eq!(w.status, SyncStatus::Failed);
    assert_eq!(w.message, Some("boom".to_string()));
    let w = SyncKind::Destination(9).write_error_status("late".to_string());
    assert!(w.destination);
    assert_eq!(w.id, 9);
}
