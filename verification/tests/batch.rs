use pixai_auto_claimer::claimer::eta::Timestamp;
use pixai_auto_claimer::claimer::{ClaimBatch, Notice, WorkerPhase};
use pixai_auto_claimer::dto::AccountStatus::{Failed, Pending, Running, Succeeded};
use pixai_auto_claimer::dto::{AccountStatus, JobState, PixAiAccount};

fn account(name: &str) -> PixAiAccount {
    PixAiAccount { email: format!("{name}@example.com"), password: format!("{name}-secret") }
}

/// Ends the batch and returns its closing record, having checked that the
/// closing record is followed by the one signal that the batch is finished.
fn close(batch: ClaimBatch) -> JobState {
    let mut notices = batch.finish();
    assert_eq!(notices.len(), 2);
    assert_eq!(notices.pop(), Some(Notice::ClaimFinished));
    match notices.pop() {
        Some(Notice::StateUpdate(record)) => record,
        other => panic!("no closing record: {other:?}"),
    }
}

fn accounts(n: usize) -> Vec<PixAiAccount> {
    (0..n).map(|i| account(&format!("user{i}"))).collect()
}

/// Runs a whole batch in which the workers take their turns in the order that
/// `pick` chooses, and the claim for index `i` succeeds where `outcome(i)`
/// says so. Returns every snapshot that was handed out, the closing record
/// last, and how often each index was processed.
fn drive(
    n: usize,
    concurrency: u32,
    outcome: &dyn Fn(usize) -> bool,
    pick: &mut dyn FnMut(usize) -> usize,
) -> (Vec<JobState>, Vec<u32>) {
    let mut clock: u64 = 1_000;
    let (mut batch, first) = ClaimBatch::begin(accounts(n), concurrency, Timestamp::from_secs(clock));
    assert_eq!(first, batch.snapshot());
    let mut snapshots = vec![first];
    let mut processed = vec![0u32; n];
    let mut turn = 0usize;
    while !batch.all_exited() {
        let active: Vec<usize> = (0..concurrency as usize)
            .filter(|w| batch.phase(*w) != Some(WorkerPhase::Exited))
            .collect();
        let worker = active[pick(turn) % active.len()];
        turn += 1;
        match batch.phase(worker).unwrap() {
            WorkerPhase::Idle => {
                let job = batch.next_job(worker);
                if let Some(index) = job {
                    assert_eq!(batch.phase(worker), Some(WorkerPhase::Claimed(index)));
                    assert_eq!(batch.account(index), Some(&account(&format!("user{index}"))));
                } else {
                    assert_eq!(batch.phase(worker), Some(WorkerPhase::Exited));
                }
            }
            WorkerPhase::Claimed(_) => snapshots.push(batch.on_start(worker)),
            WorkerPhase::Processing(index) => {
                processed[index] += 1;
                clock += 3;
                let now = Timestamp::from_secs(clock);
                assert!(batch.can_finish(worker, now));
                snapshots.push(batch.on_finish(worker, outcome(index), now));
            }
            WorkerPhase::Exited => unreachable!(),
        }
    }
    // a request, a start and a finish per account, and a last request per worker
    assert_eq!(turn, 3 * n + concurrency as usize);
    snapshots.push(close(batch));
    (snapshots, processed)
}

#[test]
fn initial_snapshot_counts_every_account_as_pending() {
    let (batch, snapshot) = ClaimBatch::begin(
        vec![account("a"), account("b"), account("c")],
        2,
        Timestamp::from_secs(100),
    );
    assert_eq!(snapshot, batch.snapshot());
    assert!(snapshot.running);
    assert_eq!(snapshot.accounts_num, 3);
    assert_eq!(snapshot.jobs_left, 3);
    assert_eq!(snapshot.concurrent, 2);
    assert_eq!(snapshot.time_left, None);
    assert_eq!(snapshot.account_status, vec![AccountStatus::Pending; 3]);
    assert_eq!(batch.total(), 3);
    assert_eq!(batch.remaining(), 3);
    assert_eq!(batch.concurrency(), 2);
    assert_eq!(batch.last_finish(), Timestamp::from_secs(100));
    assert_eq!(batch.phase(0), Some(WorkerPhase::Idle));
    assert_eq!(batch.phase(1), Some(WorkerPhase::Idle));
    assert_eq!(batch.phase(2), None);
    assert_eq!(batch.account(2), Some(&account("c")));
    assert_eq!(batch.account(3), None);
    assert!(!batch.all_exited());
}

#[test]
fn three_accounts_two_workers_end_to_end() {
    let (mut batch, first) = ClaimBatch::begin(
        vec![account("a"), account("b"), account("c")],
        2,
        Timestamp::from_secs(100),
    );
    assert_eq!(first, JobState {
        running: true,
        accounts_num: 3,
        jobs_left: 3,
        concurrent: 2,
        time_left: None,
        account_status: vec![Pending, Pending, Pending],
    });

    assert_eq!(batch.next_job(0), Some(0));
    assert_eq!(batch.next_job(1), Some(1));
    let s = batch.on_start(0);
    assert_eq!(s.account_status, vec![Running, Pending, Pending]);
    assert_eq!((s.jobs_left, s.time_left, s.running), (3, None, true));
    let s = batch.on_start(1);
    assert_eq!(s.account_status, vec![Running, Running, Pending]);

    // The second account is finished first.
    let s = batch.on_finish(1, false, Timestamp::from_secs(110));
    assert_eq!(s.account_status, vec![Running, Failed, Pending]);
    assert_eq!((s.jobs_left, s.time_left), (2, Some(20)));
    assert_eq!(batch.phase(1), Some(WorkerPhase::Idle));

    assert_eq!(batch.next_job(1), Some(2));
    let s = batch.on_start(1);
    assert_eq!(s.account_status, vec![Running, Failed, Running]);

    let s = batch.on_finish(0, true, Timestamp::from_secs(114));
    assert_eq!(s.account_status, vec![Succeeded, Failed, Running]);
    assert_eq!((s.jobs_left, s.time_left), (1, Some(4)));
    assert_eq!(batch.next_job(0), None);
    assert_eq!(batch.phase(0), Some(WorkerPhase::Exited));
    assert!(!batch.all_exited());

    let s = batch.on_finish(1, true, Timestamp::from_secs(120));
    assert_eq!(s.account_status, vec![Succeeded, Failed, Succeeded]);
    assert_eq!((s.jobs_left, s.time_left, s.running), (0, Some(0), true));
    assert_eq!(batch.next_job(1), None);
    assert!(batch.all_exited());

    let notices = batch.finish();
    assert_eq!(notices, vec![
        Notice::StateUpdate(JobState {
            running: false,
            accounts_num: 3,
            jobs_left: 0,
            concurrent: 2,
            time_left: Some(0),
            account_status: vec![Succeeded, Failed, Succeeded],
        }),
        Notice::ClaimFinished,
    ]);
    assert_eq!(notices[0].event_name(), "state_update");
    assert_eq!(notices[1].event_name(), "claim_finished");
}

#[test]
fn every_batch_ends_with_all_accounts_finished() {
    for n in 0..7usize {
        for concurrency in 1..5u32 {
            for seed in 0..5usize {
                let mut state = seed;
                let (snapshots, processed) = drive(n, concurrency, &|i| i % 3 != 1, &mut |turn| {
                    state = state.wrapping_mul(31).wrapping_add(turn + 7);
                    state >> 3
                });
                let last = snapshots.last().unwrap();
                assert!(!last.running);
                assert_eq!(last.jobs_left, 0);
                assert_eq!(last.accounts_num as usize, n);
                assert_eq!(last.account_status.len(), n);
                for (i, status) in last.account_status.iter().enumerate() {
                    let expected =
                        if i % 3 != 1 { AccountStatus::Succeeded } else { AccountStatus::Failed };
                    assert_eq!(*status, expected);
                }
                assert_eq!(processed, vec![1u32; n]);
                // one snapshot at the start, two per account, one at the end
                assert_eq!(snapshots.len(), 2 * n + 2);
            }
        }
    }
}

#[test]
fn statuses_stay_aligned_with_accounts_whatever_finishes_first() {
    let orders: [[usize; 3]; 6] =
        [[0, 1, 2], [0, 2, 1], [1, 0, 2], [1, 2, 0], [2, 0, 1], [2, 1, 0]];
    for order in orders {
        let (mut batch, _) = ClaimBatch::begin(
            vec![account("a"), account("b"), account("c")],
            3,
            Timestamp::from_secs(0),
        );
        for worker in 0..3 {
            assert_eq!(batch.next_job(worker), Some(worker));
            batch.on_start(worker);
        }
        let mut clock = 0;
        for worker in order {
            clock += 1;
            // a and c succeed, b fails
            batch.on_finish(worker, worker != 1, Timestamp::from_secs(clock));
            assert_eq!(batch.next_job(worker), None);
        }
        let last = close(batch);
        assert_eq!(last.account_status, vec![Succeeded, Failed, Succeeded]);
        assert_eq!(last.jobs_left, 0);
    }
}

#[test]
fn remaining_never_grows_and_statuses_never_move_back() {
    let mut state = 5usize;
    let (snapshots, _) = drive(6, 3, &|i| i % 2 == 0, &mut |turn| {
        state = state.wrapping_mul(17).wrapping_add(turn);
        state >> 2
    });
    let stage = |s: AccountStatus| match s {
        AccountStatus::Pending => 0,
        AccountStatus::Running => 1,
        AccountStatus::Succeeded | AccountStatus::Failed => 2,
    };
    for pair in snapshots.windows(2) {
        assert!(pair[1].jobs_left <= pair[0].jobs_left);
        for i in 0..6 {
            assert!(stage(pair[1].account_status[i]) >= stage(pair[0].account_status[i]));
            if stage(pair[0].account_status[i]) == 2 {
                assert_eq!(pair[1].account_status[i], pair[0].account_status[i]);
            }
        }
        let unfinished = pair[1].account_status.iter().filter(|s| stage(**s) < 2).count();
        assert_eq!(pair[1].jobs_left as usize, unfinished);
        assert_eq!(pair[1].time_left.is_some(), pair[1].jobs_left < pair[1].accounts_num);
    }
}

#[test]
fn workers_beyond_the_accounts_leave_at_once() {
    let (mut batch, _) = ClaimBatch::begin(accounts(1), 3, Timestamp::from_secs(0));
    assert_eq!(batch.next_job(2), Some(0));
    assert_eq!(batch.next_job(0), None);
    assert_eq!(batch.next_job(1), None);
    assert_eq!(batch.phase(0), Some(WorkerPhase::Exited));
    assert_eq!(batch.phase(1), Some(WorkerPhase::Exited));
    batch.on_start(2);
    let s = batch.on_finish(2, true, Timestamp::from_secs(9));
    assert_eq!(s.account_status, vec![AccountStatus::Succeeded]);
    assert_eq!(s.time_left, Some(0));
    assert_eq!(batch.next_job(2), None);
    let last = close(batch);
    assert_eq!((last.running, last.jobs_left), (false, 0));
}

#[test]
fn empty_batch_finishes_without_work() {
    let (mut batch, _) = ClaimBatch::begin(Vec::new(), 2, Timestamp::from_secs(0));
    assert_eq!(batch.next_job(0), None);
    assert_eq!(batch.next_job(1), None);
    assert!(batch.all_exited());
    let last = close(batch);
    assert_eq!(last, JobState {
        running: false,
        accounts_num: 0,
        jobs_left: 0,
        concurrent: 2,
        time_left: None,
        account_status: vec![],
    });
}

#[test]
fn batch_without_workers_ends_with_everything_left() {
    let (batch, _) = ClaimBatch::begin(accounts(2), 0, Timestamp::from_secs(0));
    assert!(batch.all_exited());
    let last = close(batch);
    assert!(!last.running);
    assert_eq!(last.jobs_left, 2);
    assert_eq!(last.account_status, vec![AccountStatus::Pending; 2]);
}

#[test]
fn estimate_is_last_interval_times_remaining() {
    let (mut batch, _) = ClaimBatch::begin(accounts(5), 2, Timestamp::from_secs(1_000));
    assert_eq!(batch.next_job(0), Some(0));
    assert_eq!(batch.next_job(1), Some(1));
    batch.on_start(0);
    batch.on_start(1);
    // first finish: 12 s after the batch began, 4 left
    let s = batch.on_finish(0, true, Timestamp::from_secs(1_012));
    assert_eq!((s.jobs_left, s.time_left), (4, Some(48)));
    assert_eq!(batch.last_finish(), Timestamp::from_secs(1_012));
    // requests and starts in between have no part in the estimate
    assert_eq!(batch.next_job(0), Some(2));
    let s = batch.on_start(0);
    assert_eq!(s.time_left, Some(48));
    // second finish: 5 s after the first, 3 left
    let s = batch.on_finish(1, false, Timestamp::from_secs(1_017));
    assert_eq!((s.jobs_left, s.time_left), (3, Some(15)));
    // third finish in the same instant: nothing elapsed
    let s = batch.on_finish(0, true, Timestamp::from_secs(1_017));
    assert_eq!((s.jobs_left, s.time_left), (2, Some(0)));
}

#[test]
fn estimate_drops_fractions_of_a_second() {
    let (mut batch, _) = ClaimBatch::begin(accounts(3), 1, Timestamp::from_parts(10, 900_000_000));
    assert_eq!(batch.next_job(0), Some(0));
    batch.on_start(0);
    // 1.2 s later: one whole second
    let s = batch.on_finish(0, true, Timestamp::from_parts(12, 100_000_000));
    assert_eq!(s.time_left, Some(2));
    assert_eq!(batch.next_job(0), Some(1));
    batch.on_start(0);
    // 0.999999999 s later: no whole second
    let s = batch.on_finish(0, true, Timestamp::from_parts(13, 99_999_999));
    assert_eq!(s.time_left, Some(0));
}

#[test]
fn finish_is_refused_when_time_runs_backwards_or_out_of_turn() {
    let (mut batch, _) = ClaimBatch::begin(accounts(2), 2, Timestamp::from_secs(50));
    assert!(!batch.can_finish(0, Timestamp::from_secs(60)));
    assert_eq!(batch.next_job(0), Some(0));
    assert!(!batch.can_finish(0, Timestamp::from_secs(60)));
    batch.on_start(0);
    assert!(batch.can_finish(0, Timestamp::from_secs(60)));
    assert!(batch.can_finish(0, Timestamp::from_secs(50)));
    assert!(!batch.can_finish(0, Timestamp::from_parts(49, 999_999_999)));
    assert!(!batch.can_finish(1, Timestamp::from_secs(60)));
    assert!(!batch.can_finish(2, Timestamp::from_secs(60)));
}

#[test]
fn finish_is_refused_when_the_estimate_does_not_fit() {
    let (mut batch, _) = ClaimBatch::begin(accounts(3), 1, Timestamp::from_secs(0));
    assert_eq!(batch.next_job(0), Some(0));
    batch.on_start(0);
    // two accounts would be left: the product would need 65 bits
    assert!(!batch.can_finish(0, Timestamp::from_secs(u64::MAX)));
    assert!(batch.can_finish(0, Timestamp::from_secs(u64::MAX / 2)));
    let s = batch.on_finish(0, true, Timestamp::from_secs(u64::MAX / 2));
    assert_eq!(s.time_left, Some(u64::MAX - 1));
}
