use landmass::scheduler::{JobState, Scheduler};

#[test]
fn spawned_job_starts_pending() {
    let mut s = Scheduler::new();
    assert_eq!(s.job_count(), 0);
    let id = s.spawn(7, 64);
    assert_eq!(id, 0);
    assert_eq!(s.job_count(), 1);
    let j = s.job(id);
    assert_eq!(j.seed, 7);
    assert_eq!(j.size, 64);
    assert_eq!(j.state, JobState::Pending);
}

#[test]
fn job_walks_the_whole_lifecycle() {
    let mut s = Scheduler::new();
    let id = s.spawn(1, 8);
    s.mark_running(id);
    assert_eq!(s.job(id).state, JobState::Running);
    s.mark_completed(id);
    assert_eq!(s.job(id).state, JobState::Completed);
    let done = s.poll();
    assert_eq!(done, vec![id]);
    assert_eq!(s.job(id).state, JobState::Materialized);
}

#[test]
fn poll_with_nothing_completed_returns_nothing() {
    let mut s = Scheduler::new();
    let a = s.spawn(1, 8);
    let b = s.spawn(2, 8);
    s.mark_running(a);
    assert!(s.poll().is_empty());
    assert_eq!(s.job(a).state, JobState::Running);
    assert_eq!(s.job(b).state, JobState::Pending);
}

#[test]
fn two_racing_jobs_are_both_materialized() {
    // Two requests spawned before either completes: no deduplication, both
    // run to the end and both are materialized.
    let mut s = Scheduler::new();
    let a = s.spawn(11, 32);
    let b = s.spawn(22, 32);
    s.mark_running(a);
    s.mark_running(b);
    // Completion order is not submission order.
    s.mark_completed(b);
    s.mark_completed(a);
    let done = s.poll();
    assert_eq!(done, vec![a, b]);
    assert_eq!(s.job(a).state, JobState::Materialized);
    assert_eq!(s.job(b).state, JobState::Materialized);
    let materialized = (0..s.job_count())
        .filter(|&i| s.job(i).state == JobState::Materialized)
        .count();
    assert_eq!(materialized, 2);
}

#[test]
fn polling_materializes_only_completed_jobs() {
    let mut s = Scheduler::new();
    let a = s.spawn(1, 8);
    let b = s.spawn(2, 8);
    let c = s.spawn(3, 8);
    s.mark_running(a);
    s.mark_running(b);
    s.mark_running(c);
    s.mark_completed(c);
    s.mark_completed(a);
    let done = s.poll();
    assert_eq!(done, vec![a, c]);
    assert_eq!(s.job(a).state, JobState::Materialized);
    assert_eq!(s.job(b).state, JobState::Running);
    assert_eq!(s.job(c).state, JobState::Materialized);
    s.mark_completed(b);
    assert_eq!(s.poll(), vec![b]);
    assert_eq!(s.job(b).state, JobState::Materialized);
}
