use gh_dir::batch::{delivered_after_write, BatchResult};
use gh_dir::pool::{effective_concurrency, WorkerPool};
use gh_dir::retry::{DownloadOutcome, FetchErrorKind, FetchStep, RetryState};

fn transient() -> FetchErrorKind {
    FetchErrorKind::TransientNetwork { detail: "timed out".to_string() }
}

#[test]
fn test_retry_two_failures_then_success() {
    let mut state = RetryState::new();
    match state.on_attempt(Err(transient())) {
        FetchStep::RetryAfterMs { delay_ms } => assert_eq!(delay_ms, 100),
        other => panic!("expected first retry, got {:?}", other),
    }
    match state.on_attempt(Err(transient())) {
        FetchStep::RetryAfterMs { delay_ms } => assert_eq!(delay_ms, 200),
        other => panic!("expected second retry, got {:?}", other),
    }
    match state.on_attempt(Ok(vec![1, 2, 3])) {
        FetchStep::Done { outcome: DownloadOutcome::Delivered { content, attempts } } => {
            assert_eq!(content, vec![1, 2, 3]);
            assert_eq!(attempts, 3);
        }
        other => panic!("expected delivery, got {:?}", other),
    }
}

#[test]
fn test_retry_always_fails_gives_up_after_three() {
    let mut state = RetryState::new();
    assert!(matches!(
        state.on_attempt(Err(transient())),
        FetchStep::RetryAfterMs { delay_ms: 100 }
    ));
    assert!(matches!(
        state.on_attempt(Err(transient())),
        FetchStep::RetryAfterMs { delay_ms: 200 }
    ));
    match state.on_attempt(Err(transient())) {
        FetchStep::Done { outcome: DownloadOutcome::Failed { error, attempts } } => {
            assert_eq!(attempts, 3);
            assert!(matches!(error, FetchErrorKind::TransientNetwork { .. }));
        }
        other => panic!("expected failure, got {:?}", other),
    }
}

#[test]
fn test_retry_immediate_success() {
    let mut state = RetryState::new();
    match state.on_attempt(Ok(Vec::new())) {
        FetchStep::Done { outcome: DownloadOutcome::Delivered { attempts, .. } } => {
            assert_eq!(attempts, 1);
        }
        other => panic!("expected delivery, got {:?}", other),
    }
}

#[test]
fn test_effective_concurrency_is_capped() {
    assert_eq!(effective_concurrency(1), 1);
    assert_eq!(effective_concurrency(10), 10);
    assert_eq!(effective_concurrency(200), 10);
    assert_eq!(effective_concurrency(0), 0);
}

#[test]
fn test_pool_never_exceeds_limit() {
    for limit in [1usize, 2, 10] {
        let mut pool = WorkerPool::new(limit, 20);
        let mut started = 0usize;
        while pool.can_start() {
            pool.start();
            started += 1;
            assert!(started <= limit);
        }
        assert_eq!(started, limit);
        // One completion frees exactly one slot.
        pool.finish();
        assert!(pool.can_start());
        pool.start();
        assert!(!pool.can_start());
    }
}

#[test]
fn test_pool_drains() {
    let mut pool = WorkerPool::new(3, 2);
    pool.start();
    pool.start();
    assert!(!pool.can_start()); // pending exhausted, though slots remain
    pool.finish();
    pool.finish();
    assert!(!pool.can_start());
}

#[test]
fn test_disk_batch_tolerates_single_failure() {
    // Five entries; exactly one always fails; the batch completes with one
    // failure recorded and the other four delivered.
    let mut batch = BatchResult::new();
    for i in 0..5u8 {
        let path = format!("dir/file{}.txt", i);
        if i == 2 {
            batch.record(
                path,
                DownloadOutcome::Failed { error: transient(), attempts: 3 },
            );
        } else {
            batch.record(
                path,
                DownloadOutcome::Delivered { content: vec![i], attempts: 1 },
            );
        }
    }
    assert_eq!(batch.len(), 5);
    assert_eq!(batch.failure_count(), 1);
    assert!(!batch.is_success());
    let delivered: Vec<&str> = batch
        .outcomes()
        .iter()
        .filter(|(_, o)| matches!(o, DownloadOutcome::Delivered { .. }))
        .map(|(p, _)| p.as_str())
        .collect();
    assert_eq!(delivered.len(), 4);
    assert!(!delivered.contains(&"dir/file2.txt"));
}

#[test]
fn test_batch_all_delivered_is_success() {
    let mut batch = BatchResult::new();
    batch.record("a".to_string(), DownloadOutcome::Delivered { content: vec![], attempts: 1 });
    batch.record("b".to_string(), DownloadOutcome::Delivered { content: vec![9], attempts: 2 });
    assert_eq!(batch.failure_count(), 0);
    assert!(batch.is_success());
}

#[test]
fn test_retry_reports_local_io_failure() {
    let mut state = RetryState::new();
    let io_err = || FetchErrorKind::LocalIo { detail: "disk full".to_string() };
    state.on_attempt(Err(io_err()));
    state.on_attempt(Err(io_err()));
    match state.on_attempt(Err(io_err())) {
        FetchStep::Done { outcome: DownloadOutcome::Failed { error, attempts } } => {
            assert_eq!(attempts, 3);
            assert!(matches!(error, FetchErrorKind::LocalIo { .. }));
        }
        other => panic!("expected failure, got {:?}", other),
    }
}

#[test]
fn test_delivered_after_write() {
    match delivered_after_write(vec![1, 2], 2, Ok(())) {
        DownloadOutcome::Delivered { content, attempts } => {
            assert_eq!(content, vec![1, 2]);
            assert_eq!(attempts, 2);
        }
        other => panic!("expected the delivery to stand, got {:?}", other),
    }
    match delivered_after_write(vec![1, 2], 2, Err("disk full".to_string())) {
        DownloadOutcome::Failed { error: FetchErrorKind::LocalIo { detail }, attempts } => {
            assert_eq!(detail, "disk full");
            assert_eq!(attempts, 2);
        }
        other => panic!("expected a LocalIo failure, got {:?}", other),
    }
}
