use ghopac::job::{classify, plan_sync, CommandStatus, Job, JobOutcome, TargetState};
use ghopac::queue::{Dequeued, JobQueue};
use ghopac::tally::{aggregate_exit_status, WorkerTally};

/// One job, what its target holds, and how its command would end.
struct Case {
    job: Job,
    target: TargetState,
    status: CommandStatus,
}

fn outcome_of(case: &Case, job: &Job) -> JobOutcome {
    let op = plan_sync(job, case.target);
    match op.skip_outcome() {
        Some(o) => o,
        None => classify(case.status),
    }
}

/// Drains the queue with the given number of consumers, taking turns.
fn run_pool(cases: &[Case], consumers: usize) -> (Vec<WorkerTally>, Vec<u64>) {
    let mut queue = JobQueue::new(consumers);
    for c in cases {
        queue.enqueue(Job::new(c.job.target_path.clone(), c.job.source_url.clone()));
    }
    queue.close();
    let mut tallies: Vec<WorkerTally> = (0..consumers).map(|_| WorkerTally::new()).collect();
    let mut finished = vec![false; consumers];
    let mut w = 0;
    while finished.iter().any(|f| !f) {
        if !finished[w] {
            match queue.dequeue(w) {
                Dequeued::Ready(job) => {
                    let case = cases.iter().find(|c| c.job.target_path == job.target_path).unwrap();
                    tallies[w].record(outcome_of(case, &job));
                }
                Dequeued::EndOfStream => finished[w] = true,
                Dequeued::Empty => panic!("a closed queue never asks to wait"),
            }
        }
        w = (w + 1) % consumers;
    }
    let taken = (0..consumers).map(|c| queue.taken_by(c)).collect();
    (tallies, taken)
}

fn fifty_cases() -> Vec<Case> {
    (0..50)
        .map(|i| {
            let url = if i % 7 == 3 { None } else { Some(format!("git@example.com:org/r{}.git", i)) };
            let target = match i % 5 {
                0 | 1 => TargetState::Absent,
                2 | 3 => TargetState::Directory,
                _ => TargetState::NotDirectory,
            };
            let status = match i % 6 {
                0 | 1 | 2 => CommandStatus::Exited(0),
                3 => CommandStatus::Exited(1),
                4 => CommandStatus::Signaled,
                _ => CommandStatus::Unavailable,
            };
            Case { job: Job::new(format!("/src/org/r{}", i), url), target, status }
        })
        .collect()
}

#[test]
fn every_job_is_taken_exactly_once() {
    for consumers in [1usize, 2, 3, 8, 64] {
        let cases = fifty_cases();
        let (tallies, taken) = run_pool(&cases, consumers);
        assert_eq!(taken.iter().sum::<u64>(), 50);
        assert_eq!(tallies.iter().map(|t| t.jobs).sum::<u64>(), 50);
    }
}

#[test]
fn queue_hands_out_in_order_then_ends() {
    let mut q = JobQueue::new(2);
    assert!(matches!(q.dequeue(0), Dequeued::Empty));
    q.enqueue(Job::syncpoint("/one"));
    q.enqueue(Job::syncpoint("/two"));
    assert_eq!(q.enqueued_count(), 2);
    assert!(matches!(q.dequeue(1), Dequeued::Ready(ref j) if j.target_path == "/one"));
    assert!(!q.is_closed());
    q.close();
    assert!(q.is_closed());
    assert!(matches!(q.dequeue(0), Dequeued::Ready(ref j) if j.target_path == "/two"));
    assert!(matches!(q.dequeue(0), Dequeued::EndOfStream));
    assert!(matches!(q.dequeue(1), Dequeued::EndOfStream));
    assert_eq!(q.taken_by(0), 1);
    assert_eq!(q.taken_by(1), 1);
}

#[test]
fn concurrency_does_not_change_failures() {
    let cases = fifty_cases();
    let (one, _) = run_pool(&cases, 1);
    let (eight, _) = run_pool(&cases, 8);
    let total_one: u64 = one.iter().map(|t| t.failures).sum();
    let total_eight: u64 = eight.iter().map(|t| t.failures).sum();
    assert_eq!(total_one, total_eight);
    assert_eq!(aggregate_exit_status(&one), aggregate_exit_status(&eight));
    assert!(total_one > 0);
}

#[test]
fn clone_pull_and_collision_give_status_two() {
    let cases = vec![
        Case {
            job: Job::new("/src/org/new".to_string(), Some("git@example.com:org/new.git".to_string())),
            target: TargetState::Absent,
            status: CommandStatus::Exited(0),
        },
        Case {
            job: Job::new("/src/org/old".to_string(), None),
            target: TargetState::Directory,
            status: CommandStatus::Exited(1),
        },
        Case {
            job: Job::new("/src/org/file".to_string(), Some("git@example.com:org/file.git".to_string())),
            target: TargetState::NotDirectory,
            status: CommandStatus::Exited(0),
        },
    ];
    let (tallies, _) = run_pool(&cases, 2);
    let failures: u64 = tallies.iter().map(|t| t.failures).sum();
    assert_eq!(failures, 2);
    assert_eq!(aggregate_exit_status(&tallies), 2);
}

#[test]
fn no_jobs_exit_zero() {
    let (tallies, taken) = run_pool(&[], 4);
    assert_eq!(taken, vec![0, 0, 0, 0]);
    assert_eq!(aggregate_exit_status(&tallies), 0);
    assert_eq!(aggregate_exit_status(&Vec::new()), 0);
}

#[test]
fn exit_status_is_clamped() {
    let mut a = WorkerTally::new();
    for _ in 0..200 {
        a.record(JobOutcome::SpawnFailure);
    }
    let mut b = WorkerTally::new();
    for _ in 0..100 {
        b.record(JobOutcome::CommandFailed(1));
    }
    b.record(JobOutcome::Synced);
    assert_eq!(a.failures, 200);
    assert_eq!(b.failures, 100);
    assert_eq!(b.jobs, 101);
    assert_eq!(aggregate_exit_status(&vec![a]), 200);
    let mut a2 = WorkerTally::new();
    for _ in 0..200 {
        a2.record(JobOutcome::PathCollision);
    }
    assert_eq!(aggregate_exit_status(&vec![a2, b]), 255);
}

#[test]
fn exit_status_below_clamp_is_the_sum() {
    let mut a = WorkerTally::new();
    a.record(JobOutcome::MissingSource);
    a.record(JobOutcome::Synced);
    let mut b = WorkerTally::new();
    b.record(JobOutcome::KilledBySignal);
    b.record(JobOutcome::CommandFailed(2));
    b.record(JobOutcome::Synced);
    assert_eq!(aggregate_exit_status(&vec![a, b]), 3);
}
