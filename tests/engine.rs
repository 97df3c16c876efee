use pi_launcher::batch::{BatchScheduler, TaskOutcome};
use pi_launcher::deploy::{asset_batch, library_batch, MAX_CONCURRENT_DOWNLOADS};

#[test]
fn failures_still_count_as_completed() {
    let total = 50u64;
    let mut s = BatchScheduler::new(total, 4, 1);
    let mut in_flight: Vec<u64> = Vec::new();
    let mut last = None;
    loop {
        while let Some(i) = s.start_next() {
            in_flight.push(i);
        }
        match in_flight.pop() {
            Some(i) => {
                let outcome = if i % 7 == 0 { TaskOutcome::Failed } else { TaskOutcome::Fetched };
                last = Some(s.end_task(outcome));
            }
            None => break,
        }
    }
    let tick = last.unwrap();
    assert_eq!(tick.completed, total);
    assert_eq!(tick.total, total);
    assert!(tick.report);
    assert!(s.is_drained());
    assert_eq!(s.completed(), total);
    assert_eq!(s.failed(), 8);
}

#[test]
fn in_flight_never_exceeds_ceiling() {
    let mut s = library_batch(200);
    let mut pending: Vec<u64> = Vec::new();
    let mut max_seen = 0u64;
    let mut round = 0u64;
    while !s.is_drained() {
        while let Some(i) = s.start_next() {
            pending.push(i);
            max_seen = max_seen.max(s.in_flight());
            assert!(s.in_flight() <= MAX_CONCURRENT_DOWNLOADS);
        }
        // end a varying number of tasks each round, out of order
        let n = 1 + (round % 5) as usize;
        for _ in 0..n.min(pending.len()) {
            let k = (round as usize * 7) % pending.len();
            pending.swap_remove(k);
            s.end_task(TaskOutcome::Fetched);
        }
        round += 1;
    }
    assert_eq!(max_seen, MAX_CONCURRENT_DOWNLOADS);
    assert_eq!(s.completed(), 200);
}

#[test]
fn skipped_tasks_count_toward_completion() {
    let mut s = BatchScheduler::new(3, 16, 1);
    for _ in 0..3 {
        assert!(s.start_next().is_some());
    }
    assert!(s.start_next().is_none());
    s.end_task(TaskOutcome::Skipped);
    s.end_task(TaskOutcome::Skipped);
    let t = s.end_task(TaskOutcome::Fetched);
    assert_eq!((t.completed, t.total), (3, 3));
    assert!(s.is_drained());
}

#[test]
fn tasks_start_in_order() {
    let mut s = BatchScheduler::new(3, 2, 1);
    assert_eq!(s.start_next(), Some(0));
    assert_eq!(s.start_next(), Some(1));
    assert_eq!(s.start_next(), None);
    s.end_task(TaskOutcome::Fetched);
    assert_eq!(s.start_next(), Some(2));
    assert_eq!(s.start_next(), None);
}

#[test]
fn empty_batch_is_drained_at_once() {
    let mut s = asset_batch(0);
    assert!(s.is_drained());
    assert_eq!(s.start_next(), None);
}

#[test]
fn asset_progress_is_throttled() {
    let total = 45u64;
    let mut s = asset_batch(total);
    let mut reported = Vec::new();
    while !s.is_drained() {
        let mut started = 0;
        while s.start_next().is_some() {
            started += 1;
        }
        for _ in 0..started {
            let t = s.end_task(TaskOutcome::Fetched);
            if t.report {
                reported.push(t.completed);
            }
        }
    }
    assert_eq!(reported, vec![20, 40, 45]);
}

#[test]
fn every_library_completion_is_reported() {
    let mut s = library_batch(3);
    let mut reported = Vec::new();
    while s.start_next().is_some() {}
    for _ in 0..3 {
        let t = s.end_task(TaskOutcome::Failed);
        assert!(t.report);
        reported.push(t.completed);
    }
    assert_eq!(reported, vec![1, 2, 3]);
}
