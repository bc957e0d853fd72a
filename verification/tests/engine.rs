use fetchpool::Admission;
use fetchpool::Batch;
use fetchpool::DEFAULT_LANES;
use fetchpool::Link;
use fetchpool::SetupError;
use fetchpool::TransferError;
use fetchpool::TransferOutcome;
use fetchpool::TransferProgress;
use fetchpool::setup_exit_code;

fn link(url: &str, name: &str) -> Link {
    Link { url: String::from(url), name: String::from(name) }
}

#[test]
fn progress_clamps_to_known_total() {
    let mut p = TransferProgress::new(10);
    assert_eq!(p.position, 0);
    p.apply_chunk(7);
    assert_eq!(p.position, 7);
    assert!(!p.reached_total());
    p.apply_chunk(7);
    assert_eq!(p.position, 10);
    assert_eq!(p.written, 14);
    assert!(p.reached_total());
}

#[test]
fn progress_counts_raw_bytes_without_total() {
    let mut p = TransferProgress::new(0);
    p.apply_chunk(5);
    p.apply_chunk(3);
    assert_eq!(p.position, 8);
    assert_eq!(p.written, 8);
    assert!(!p.reached_total());
}

#[test]
fn progress_position_never_decreases() {
    let mut p = TransferProgress::new(6);
    let mut last = p.position;
    for len in [1u64, 4, 0, 3, 2] {
        p.apply_chunk(len);
        assert!(p.position >= last);
        assert!(p.position <= 6);
        last = p.position;
    }
    assert_eq!(p.written, 10);
    assert_eq!(p.position, 6);
}

#[test]
fn admission_grants_up_to_cap() {
    let mut a = Admission::new(2);
    assert!(a.try_acquire());
    assert!(a.try_acquire());
    assert!(!a.try_acquire());
    a.release();
    assert!(a.try_acquire());
}

#[test]
fn admission_default_cap_is_five() {
    assert_eq!(DEFAULT_LANES, 5);
    let mut a = Admission::new(DEFAULT_LANES);
    for _ in 0..5 {
        assert!(a.try_acquire());
    }
    assert!(!a.try_acquire());
}

#[test]
fn batch_every_link_gets_one_result() {
    let links = vec![link("http://x/a", "a"), link("http://x/b", "b"), link("http://x/c", "c")];
    let mut b = Batch::new(links, 2);
    let i0 = b.submit();
    let i1 = b.submit();
    assert!(!b.can_submit());
    b.complete(i1, TransferOutcome::Success);
    let i2 = b.submit();
    b.complete(i0, TransferOutcome::Success);
    b.complete(i2, TransferOutcome::Success);
    assert!(b.is_done());
    let report = b.report();
    assert_eq!(report.len(), 3);
    assert_eq!(report[0].0, "a");
    assert_eq!(report[1].0, "b");
    assert_eq!(report[2].0, "c");
    for (_, outcome) in report {
        assert_eq!(outcome, TransferOutcome::Success);
    }
}

#[test]
fn batch_cap_one_runs_strictly_serially() {
    let links = vec![link("http://x/a", "a"), link("http://x/b", "b"), link("http://x/c", "c")];
    let mut b = Batch::new(links, 1);
    let mut order = Vec::new();
    while b.can_submit() {
        let idx = b.submit();
        order.push(idx);
        // With a cap of one, no second unit may start while this one runs.
        assert!(!b.can_submit());
        assert_eq!(b.admission.active, 1);
        b.complete(idx, TransferOutcome::Success);
        assert_eq!(b.admission.active, 0);
    }
    assert!(b.is_done());
    assert_eq!(order, vec![0, 1, 2]);
}

#[test]
fn batch_failure_leaves_others_running() {
    let links = vec![link("http://x/a", "a"), link("http://x/b", "b"), link("http://x/c", "c")];
    let mut b = Batch::new(links, 2);
    let i0 = b.submit();
    let i1 = b.submit();
    b.complete(i0, TransferOutcome::Failed(TransferError::Request));
    // The failed unit freed its lane; the third link may start at once and
    // the in-flight unit is untouched.
    assert!(b.can_submit());
    assert_eq!(b.results[i1], None);
    let i2 = b.submit();
    b.complete(i1, TransferOutcome::Success);
    b.complete(i2, TransferOutcome::Success);
    assert!(b.is_done());
    let report = b.report();
    let successes = report.iter().filter(|r| r.1 == TransferOutcome::Success).count();
    let failures = report.iter().filter(|r| r.1 != TransferOutcome::Success).count();
    assert_eq!(successes, 2);
    assert_eq!(failures, 1);
    // Per-transfer failures never change the process exit code.
    assert_eq!(setup_exit_code(&Ok(())), 0);
}

#[test]
fn batch_records_each_failure_kind() {
    let links = vec![
        link("http://x/a", "a"),
        link("http://x/b", "b"),
        link("http://x/c", "c"),
        link("http://x/d", "d"),
    ];
    let mut b = Batch::new(links, 4);
    let kinds = [
        TransferError::Request,
        TransferError::Stream,
        TransferError::CreateFile,
        TransferError::Write,
    ];
    for kind in kinds {
        let idx = b.submit();
        b.complete(idx, TransferOutcome::Failed(kind));
    }
    let report = b.report();
    for (i, kind) in kinds.into_iter().enumerate() {
        assert_eq!(report[i].1, TransferOutcome::Failed(kind));
    }
}

#[test]
fn setup_failures_exit_nonzero() {
    assert_ne!(setup_exit_code(&Err(SetupError::ListingFetch)), 0);
    assert_ne!(setup_exit_code(&Err(SetupError::SelectorParse)), 0);
    assert_ne!(setup_exit_code(&Err(SetupError::CreateDir)), 0);
    assert_eq!(setup_exit_code(&Ok(())), 0);
}

#[test]
fn batch_over_empty_link_set_is_done_at_once() {
    let mut b = Batch::new(Vec::new(), 3);
    assert!(!b.can_submit());
    assert!(b.is_done());
    assert_eq!(b.report().len(), 0);
}
