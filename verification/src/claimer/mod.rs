//! The scheduler of a batch and the record of its progress.
//!
//! A batch is an ordered list of accounts and a fixed number of workers. A
//! single cursor hands the accounts out, one index at a time, so that no index
//! is ever given to two workers. Each worker asks for the next index, reports
//! that it starts on the account, has the claim performed, reports the
//! outcome, and asks again; it leaves when the accounts have run out. After
//! every change of the progress record the batch hands back a snapshot of it,
//! which the caller publishes. When all workers have left, the batch ends
//! with a closing snapshot and, after it, the signal that it is finished.
//!
//! [`ClaimBatch`] holds the state of one batch. It performs no claim and
//! starts no thread: the caller runs the workers and serialises their calls.

pub mod chrome_driver;
pub mod eta;
pub mod runs;

use crate::claimer::eta::{estimate, time_left, Timestamp};
use crate::dto::{
    lemma_unfinished_bounded, lemma_unfinished_none_terminal, lemma_unfinished_update,
    lemma_unfinished_zero, unfinished, AccountStatus, JobState, JobStateView, PixAiAccount,
};
use vstd::prelude::*;

verus! {

/// What one worker of a batch is doing.
#[derive(Clone, Copy, Debug, PartialEq, Eq, Structural)]
pub enum WorkerPhase {
    /// Between two accounts: the worker asks for the next index.
    Idle,
    /// The worker was handed this index and has not started on it.
    Claimed(usize),
    /// The worker is processing the account at this index.
    Processing(usize),
    /// The accounts ran out: the worker has left its loop.
    Exited,
}

impl WorkerPhase {
    /// The index that the worker holds, if it holds one.
    pub open spec fn held(self) -> Option<int> {
        match self {
            WorkerPhase::Claimed(i) => Some(i as int),
            WorkerPhase::Processing(i) => Some(i as int),
            _ => None,
        }
    }

    pub open spec fn holds(self, index: int) -> bool {
        self.held() == Some(index)
    }
}

/// A batch as a mathematical value.
#[verifier::ext_equal]
pub struct ClaimBatchView {
    /// The accounts, in the order in which they were submitted.
    pub accounts: Seq<PixAiAccount>,
    /// The progress record.
    pub job: JobStateView,
    /// The next index to hand out; every smaller index has been handed out.
    pub cursor: nat,
    /// When the most recent finish was reported, or when the batch began.
    pub last_finish: Timestamp,
    /// One phase per worker.
    pub workers: Seq<WorkerPhase>,
}

impl ClaimBatchView {
    /// The batch right after it began: every account pending, every worker
    /// idle, nothing handed out, no estimate.
    pub open spec fn initial(
        accounts: Seq<PixAiAccount>,
        concurrency: nat,
        now: Timestamp,
    ) -> ClaimBatchView {
        ClaimBatchView {
            accounts,
            job: JobStateView {
                running: true,
                accounts_num: accounts.len(),
                jobs_left: accounts.len(),
                concurrent: concurrency,
                time_left: None,
                account_status: Seq::new(accounts.len(), |i: int| AccountStatus::Pending),
            },
            cursor: 0,
            last_finish: now,
            workers: Seq::new(concurrency, |w: int| WorkerPhase::Idle),
        }
    }

    pub open spec fn is_worker(self, worker: int) -> bool {
        0 <= worker < self.workers.len()
    }

    /// The phase of a worker agrees with the status of the index it holds.
    pub open spec fn worker_in_step(self, worker: int) -> bool {
        match self.workers[worker] {
            WorkerPhase::Idle => true,
            WorkerPhase::Claimed(i) => i < self.cursor && self.job.account_status[i as int]
                == AccountStatus::Pending,
            WorkerPhase::Processing(i) => i < self.cursor && self.job.account_status[i as int]
                == AccountStatus::Running,
            WorkerPhase::Exited => self.cursor == self.job.accounts_num,
        }
    }

    /// Some worker holds the index.
    pub open spec fn is_held(self, index: int) -> bool {
        exists|w: int| self.is_worker(w) && #[trigger] self.workers[w].holds(index)
    }

    /// The invariant of a running batch.
    pub open spec fn wf(self) -> bool {
        &&& self.job.running
        &&& self.job.coherent()
        &&& self.accounts.len() == self.job.accounts_num
        &&& self.job.accounts_num <= u32::MAX
        &&& self.workers.len() == self.job.concurrent
        &&& self.cursor <= self.job.accounts_num
        &&& self.job.time_left.is_some() <==> self.job.jobs_left < self.job.accounts_num
        &&& forall|i: int|
            self.cursor <= i < self.job.account_status.len() ==> #[trigger] self.job.account_status[i]
                == AccountStatus::Pending
        &&& forall|w: int| self.is_worker(w) ==> #[trigger] self.worker_in_step(w)
        &&& forall|w1: int, w2: int|
            self.is_worker(w1) && self.is_worker(w2) && w1 != w2 && (
            #[trigger] self.workers[w1]).held().is_some() ==> self.workers[w1].held() != (
            #[trigger] self.workers[w2]).held()
        &&& forall|i: int|
            0 <= i < self.cursor ==> (#[trigger] self.job.account_status[i]).is_terminal()
                || self.is_held(i)
    }

    /// Every worker has left its loop.
    pub open spec fn all_exited(self) -> bool {
        forall|w: int| self.is_worker(w) ==> #[trigger] self.workers[w] == WorkerPhase::Exited
    }

    /// The index that the next request is answered with: the cursor, as long
    /// as it points at an account.
    pub open spec fn handout(self) -> Option<int> {
        if self.cursor < self.job.accounts_num {
            Some(self.cursor as int)
        } else {
            None
        }
    }

    /// The batch after `worker` asked for the next index.
    pub open spec fn after_next_job(self, worker: int) -> ClaimBatchView {
        match self.handout() {
            Some(i) => ClaimBatchView {
                cursor: self.cursor + 1,
                workers: self.workers.update(worker, WorkerPhase::Claimed(i as usize)),
                ..self
            },
            None => ClaimBatchView {
                workers: self.workers.update(worker, WorkerPhase::Exited),
                ..self
            },
        }
    }

    /// The batch after `worker` reported that it starts on the index it was
    /// handed.
    pub open spec fn after_start(self, worker: int) -> ClaimBatchView
        recommends
            self.workers[worker] is Claimed,
    {
        let index = self.workers[worker].held().unwrap();
        ClaimBatchView {
            job: JobStateView {
                account_status: self.job.account_status.update(index, AccountStatus::Running),
                ..self.job
            },
            workers: self.workers.update(worker, WorkerPhase::Processing(index as usize)),
            ..self
        }
    }

    /// Whether `worker` can report at `now` the outcome of the account it
    /// processes: time has not run backwards and the new estimate fits the
    /// record.
    pub open spec fn can_finish(self, worker: int, now: Timestamp) -> bool {
        &&& self.workers[worker] is Processing
        &&& self.last_finish.nanos <= now.nanos
        &&& estimate(self.last_finish, now, (self.job.jobs_left - 1) as nat) <= u64::MAX
    }

    /// The batch after `worker` reported at `now` the outcome of the account
    /// it processed.
    pub open spec fn after_finish(self, worker: int, success: bool, now: Timestamp) -> ClaimBatchView
        recommends
            self.can_finish(worker, now),
    {
        let index = self.workers[worker].held().unwrap();
        let left = (self.job.jobs_left - 1) as nat;
        ClaimBatchView {
            job: JobStateView {
                jobs_left: left,
                time_left: Some(estimate(self.last_finish, now, left) as nat),
                account_status: self.job.account_status.update(
                    index,
                    AccountStatus::of_outcome(success),
                ),
                ..self.job
            },
            last_finish: now,
            workers: self.workers.update(worker, WorkerPhase::Idle),
            ..self
        }
    }

    /// The record that closes the batch: the progress as it stands, no longer
    /// running.
    pub open spec fn closing_record(self) -> JobStateView {
        JobStateView { running: false, ..self.job }
    }
}

/// A batch is well formed when it begins.
pub proof fn lemma_initial_wf(accounts: Seq<PixAiAccount>, concurrency: nat, now: Timestamp)
    requires
        accounts.len() <= u32::MAX,
    ensures
        ClaimBatchView::initial(accounts, concurrency, now).wf(),
{
    let v = ClaimBatchView::initial(accounts, concurrency, now);
    lemma_unfinished_none_terminal(v.job.account_status);
    assert forall|w: int| v.is_worker(w) implies #[trigger] v.worker_in_step(w) by {}
}

/// Handing out the next index keeps the batch well formed.
pub proof fn lemma_next_job_wf(v: ClaimBatchView, worker: int)
    requires
        v.wf(),
        v.is_worker(worker),
        v.workers[worker] is Idle,
    ensures
        v.after_next_job(worker).wf(),
{
    let n = v.after_next_job(worker);
    assert forall|w: int| n.is_worker(w) implies #[trigger] n.worker_in_step(w) by {
        assert(v.worker_in_step(w));
    }
    assert forall|w1: int, w2: int|
        n.is_worker(w1) && n.is_worker(w2) && w1 != w2 && (#[trigger] n.workers[w1]).held().is_some()
        implies n.workers[w1].held() != (#[trigger] n.workers[w2]).held() by {
        assert(v.worker_in_step(w1));
        assert(v.worker_in_step(w2));
        if w1 != worker && w2 != worker {
            assert(v.workers[w1].held() != v.workers[w2].held());
        }
    }
    assert forall|i: int| 0 <= i < n.cursor implies (#[trigger] n.job.account_status[i]).is_terminal()
        || n.is_held(i) by {
        if i < v.cursor {
            if !v.job.account_status[i].is_terminal() {
                let w = choose|w: int| v.is_worker(w) && #[trigger] v.workers[w].holds(i);
                assert(w != worker);
                assert(n.is_worker(w) && n.workers[w].holds(i));
            }
        } else {
            assert(n.is_worker(worker) && n.workers[worker].holds(i));
        }
    }
}

/// Starting on an account keeps the batch well formed.
pub proof fn lemma_start_wf(v: ClaimBatchView, worker: int)
    requires
        v.wf(),
        v.is_worker(worker),
        v.workers[worker] is Claimed,
    ensures
        v.after_start(worker).wf(),
{
    let n = v.after_start(worker);
    let index = v.workers[worker].held().unwrap();
    assert(v.worker_in_step(worker));
    lemma_unfinished_update(v.job.account_status, index, AccountStatus::Running);
    assert forall|w: int| n.is_worker(w) implies #[trigger] n.worker_in_step(w) by {
        assert(v.worker_in_step(w));
        if w != worker {
            assert(v.workers[worker].held() != v.workers[w].held());
        }
    }
    assert forall|w1: int, w2: int|
        n.is_worker(w1) && n.is_worker(w2) && w1 != w2 && (#[trigger] n.workers[w1]).held().is_some()
        implies n.workers[w1].held() != (#[trigger] n.workers[w2]).held() by {
        assert(v.workers[w1].held() == n.workers[w1].held());
        assert(v.workers[w2].held() == n.workers[w2].held());
        assert(v.workers[w1].held() != v.workers[w2].held());
    }
    assert forall|i: int| 0 <= i < n.cursor implies (#[trigger] n.job.account_status[i]).is_terminal()
        || n.is_held(i) by {
        if i == index {
            assert(n.is_worker(worker) && n.workers[worker].holds(i));
        } else if !v.job.account_status[i].is_terminal() {
            let w = choose|w: int| v.is_worker(w) && #[trigger] v.workers[w].holds(i);
            assert(n.is_worker(w) && n.workers[w].holds(i));
        }
    }
}

/// Reporting an outcome keeps the batch well formed.
pub proof fn lemma_finish_wf(v: ClaimBatchView, worker: int, success: bool, now: Timestamp)
    requires
        v.wf(),
        v.is_worker(worker),
        v.can_finish(worker, now),
    ensures
        v.job.jobs_left >= 1,
        v.after_finish(worker, success, now).wf(),
{
    let n = v.after_finish(worker, success, now);
    let index = v.workers[worker].held().unwrap();
    assert(v.worker_in_step(worker));
    lemma_unfinished_update(v.job.account_status, index, AccountStatus::of_outcome(success));
    lemma_unfinished_bounded(v.job.account_status);
    assert forall|w: int| n.is_worker(w) implies #[trigger] n.worker_in_step(w) by {
        assert(v.worker_in_step(w));
        if w != worker {
            assert(v.workers[worker].held() != v.workers[w].held());
        }
    }
    assert forall|w1: int, w2: int|
        n.is_worker(w1) && n.is_worker(w2) && w1 != w2 && (#[trigger] n.workers[w1]).held().is_some()
        implies n.workers[w1].held() != (#[trigger] n.workers[w2]).held() by {
        if w2 != worker {
            assert(v.workers[w1].held() != v.workers[w2].held());
        }
    }
    assert forall|i: int| 0 <= i < n.cursor implies (#[trigger] n.job.account_status[i]).is_terminal()
        || n.is_held(i) by {
        if i != index && !v.job.account_status[i].is_terminal() {
            let w = choose|w: int| v.is_worker(w) && #[trigger] v.workers[w].holds(i);
            assert(w != worker);
            assert(n.is_worker(w) && n.workers[w].holds(i));
        }
    }
}

/// Once every worker of a batch has left, every account is finished: the
/// cursor has passed the last account, every status is terminal and nothing
/// is left to do.
pub proof fn lemma_drained(v: ClaimBatchView)
    requires
        v.wf(),
        v.workers.len() >= 1,
        v.all_exited(),
    ensures
        v.cursor == v.job.accounts_num,
        v.job.all_finished(),
        v.job.jobs_left == 0,
        v.closing_record().all_finished(),
        v.closing_record().jobs_left == 0,
        !v.closing_record().running,
{
    assert(v.is_worker(0) && v.worker_in_step(0));
    assert forall|i: int| 0 <= i < v.job.account_status.len() implies (
    #[trigger] v.job.account_status[i]).is_terminal() by {
        if v.is_held(i) {
            let w = choose|w: int| v.is_worker(w) && #[trigger] v.workers[w].holds(i);
            assert(v.workers[w] == WorkerPhase::Exited);
        }
    }
    lemma_unfinished_zero(v.job.account_status);
}

/// What the observer of a batch is sent.
#[derive(Debug, PartialEq, Eq)]
pub enum Notice {
    /// The progress record has changed; this is how it stands.
    StateUpdate(JobState),
    /// The batch is over. Sent once, after the last `StateUpdate`.
    ClaimFinished,
}

impl Notice {
    /// The name of the event under which the notice travels.
    pub open spec fn event_text(self) -> Seq<char> {
        match self {
            Notice::StateUpdate(_) => "state_update"@,
            Notice::ClaimFinished => "claim_finished"@,
        }
    }

    pub fn event_name(&self) -> (name: &'static str)
        ensures
            name@ == self.event_text(),
    {
        match self {
            Notice::StateUpdate(_) => "state_update",
            Notice::ClaimFinished => "claim_finished",
        }
    }
}

/// The state of one batch: its accounts, its progress record, the cursor
/// that hands the accounts out, and what each worker is doing.
pub struct ClaimBatch {
    accounts: Vec<PixAiAccount>,
    state: JobState,
    cursor: usize,
    last_finish: Timestamp,
    workers: Vec<WorkerPhase>,
}

impl View for ClaimBatch {
    type V = ClaimBatchView;

    closed spec fn view(&self) -> ClaimBatchView {
        ClaimBatchView {
            accounts: self.accounts@,
            job: self.state@,
            cursor: self.cursor as nat,
            last_finish: self.last_finish,
            workers: self.workers@,
        }
    }
}

impl ClaimBatch {
    /// The invariant that [`ClaimBatch::begin`] establishes and every
    /// operation keeps.
    pub open spec fn wf(&self) -> bool {
        self@.wf()
    }

    /// Begins a batch on `accounts` with `concurrency` workers at time `now`,
    /// and returns it with the first snapshot to publish.
    ///
    /// The progress record runs, counts one account per entry, all of them
    /// pending and left to do, and carries no estimate.
    pub fn begin(accounts: Vec<PixAiAccount>, concurrency: u32, now: Timestamp) -> (started: (
        ClaimBatch,
        JobState,
    ))
        requires
            accounts.len() <= u32::MAX,
        ensures
            started.0.wf(),
            started.0@ == ClaimBatchView::initial(accounts@, concurrency as nat, now),
            started.1@ == started.0@.job,
    {
        let total: usize = accounts.len();
        let mut statuses: Vec<AccountStatus> = Vec::new();
        let mut i: usize = 0;
        while i < total
            invariant
                i <= total,
                statuses@ == Seq::new(i as nat, |k: int| AccountStatus::Pending),
            decreases total - i,
        {
            statuses.push(AccountStatus::Pending);
            i = i + 1;
            assert(statuses@ =~= Seq::new(i as nat, |k: int| AccountStatus::Pending));
        }
        let mut workers: Vec<WorkerPhase> = Vec::new();
        let mut w: u32 = 0;
        while w < concurrency
            invariant
                w <= concurrency,
                workers@ == Seq::new(w as nat, |k: int| WorkerPhase::Idle),
            decreases concurrency - w,
        {
            workers.push(WorkerPhase::Idle);
            w = w + 1;
            assert(workers@ =~= Seq::new(w as nat, |k: int| WorkerPhase::Idle));
        }
        let batch = ClaimBatch {
            accounts,
            state: JobState {
                running: true,
                accounts_num: total as u32,
                jobs_left: total as u32,
                concurrent: concurrency,
                time_left: None,
                account_status: statuses,
            },
            cursor: 0,
            last_finish: now,
            workers,
        };
        proof {
            lemma_initial_wf(accounts@, concurrency as nat, now);
            assert(batch@ =~= ClaimBatchView::initial(accounts@, concurrency as nat, now));
        }
        let snapshot = batch.state.clone();
        (batch, snapshot)
    }

    /// A copy of the progress record as it stands.
    pub fn snapshot(&self) -> (record: JobState)
        ensures
            record@ == self@.job,
    {
        self.state.clone()
    }

    /// Number of accounts of the batch.
    pub fn total(&self) -> (n: u32)
        ensures
            n == self@.job.accounts_num,
    {
        self.state.accounts_num
    }

    /// Number of accounts that have not been finished yet.
    pub fn remaining(&self) -> (n: u32)
        ensures
            n == self@.job.jobs_left,
    {
        self.state.jobs_left
    }

    /// Number of workers of the batch.
    pub fn concurrency(&self) -> (n: u32)
        ensures
            n == self@.job.concurrent,
    {
        self.state.concurrent
    }

    /// When the most recent finish was reported, or when the batch began.
    pub fn last_finish(&self) -> (t: Timestamp)
        ensures
            t == self@.last_finish,
    {
        self.last_finish
    }

    /// What `worker` is doing, or `None` where the batch has no such worker.
    pub fn phase(&self, worker: usize) -> (phase: Option<WorkerPhase>)
        ensures
            match phase {
                Some(p) => self@.is_worker(worker as int) && p == self@.workers[worker as int],
                None => !self@.is_worker(worker as int),
            },
    {
        if worker < self.workers.len() {
            Some(self.workers[worker])
        } else {
            None
        }
    }

    /// The account at `index`, in the order in which the accounts were
    /// submitted.
    pub fn account(&self, index: usize) -> (account: Option<&PixAiAccount>)
        ensures
            match account {
                Some(a) => index < self@.accounts.len() && *a == self@.accounts[index as int],
                None => index >= self@.accounts.len(),
            },
    {
        if index < self.accounts.len() {
            Some(&self.accounts[index])
        } else {
            None
        }
    }

    /// Answers the request of the idle `worker` for its next account.
    ///
    /// As long as accounts are left the worker is handed the index under the
    /// cursor and the cursor moves on, so that the index is handed out to
    /// nobody else. Once the accounts have run out the answer is `None` and
    /// the worker has left.
    pub fn next_job(&mut self, worker: usize) -> (job: Option<usize>)
        requires
            old(self).wf(),
            old(self)@.is_worker(worker as int),
            old(self)@.workers[worker as int] is Idle,
        ensures
            final(self).wf(),
            final(self)@ == old(self)@.after_next_job(worker as int),
            match job {
                Some(index) => old(self)@.handout() == Some(index as int),
                None => old(self)@.handout().is_none(),
            },
    {
        proof {
            lemma_next_job_wf(self@, worker as int);
        }
        if self.cursor < self.accounts.len() {
            let index = self.cursor;
            self.cursor = index + 1;
            self.workers.set(worker, WorkerPhase::Claimed(index));
            assert(self@ =~= old(self)@.after_next_job(worker as int));
            Some(index)
        } else {
            self.workers.set(worker, WorkerPhase::Exited);
            assert(self@ =~= old(self)@.after_next_job(worker as int));
            None
        }
    }

    /// Records that `worker` starts on the account it was handed, and returns
    /// the snapshot to publish.
    ///
    /// The status of that account becomes `Running`; nothing else changes.
    pub fn on_start(&mut self, worker: usize) -> (snapshot: JobState)
        requires
            old(self).wf(),
            old(self)@.is_worker(worker as int),
            old(self)@.workers[worker as int] is Claimed,
        ensures
            final(self).wf(),
            final(self)@ == old(self)@.after_start(worker as int),
            snapshot@ == final(self)@.job,
    {
        proof {
            lemma_start_wf(self@, worker as int);
            assert(self@.worker_in_step(worker as int));
        }
        match self.workers[worker] {
            WorkerPhase::Claimed(index) => {
                self.state.account_status.set(index, AccountStatus::Running);
                self.workers.set(worker, WorkerPhase::Processing(index));
            },
            _ => {},
        }
        assert(self@ =~= old(self)@.after_start(worker as int));
        self.state.clone()
    }

    /// Whether `worker` may report an outcome at `now`: it is processing an
    /// account, `now` is not earlier than the previous finish, and the new
    /// estimate fits the record.
    pub fn can_finish(&self, worker: usize, now: Timestamp) -> (ok: bool)
        requires
            self.wf(),
        ensures
            ok == (self@.is_worker(worker as int) && self@.can_finish(worker as int, now)),
    {
        if worker >= self.workers.len() {
            return false;
        }
        match self.workers[worker] {
            WorkerPhase::Processing(index) => {
                proof {
                    assert(self@.worker_in_step(worker as int));
                    lemma_unfinished_update(
                        self@.job.account_status,
                        index as int,
                        AccountStatus::Succeeded,
                    );
                }
                time_left(self.last_finish, now, self.state.jobs_left - 1).is_some()
            },
            _ => false,
        }
    }

    /// Records the outcome that `worker` reports at `now` for the account it
    /// processed, and returns the snapshot to publish.
    ///
    /// The status of that account becomes `Succeeded` or `Failed`, one
    /// account fewer is left, and the estimate is the whole seconds since the
    /// previous finish times the accounts still left. The worker is idle
    /// again.
    pub fn on_finish(&mut self, worker: usize, success: bool, now: Timestamp) -> (snapshot:
        JobState)
        requires
            old(self).wf(),
            old(self)@.is_worker(worker as int),
            old(self)@.can_finish(worker as int, now),
        ensures
            final(self).wf(),
            final(self)@ == old(self)@.after_finish(worker as int, success, now),
            snapshot@ == final(self)@.job,
    {
        proof {
            lemma_finish_wf(self@, worker as int, success, now);
            assert(self@.worker_in_step(worker as int));
        }
        match self.workers[worker] {
            WorkerPhase::Processing(index) => {
                let left: u32 = self.state.jobs_left - 1;
                let eta = time_left(self.last_finish, now, left);
                self.state.account_status.set(index, AccountStatus::from_outcome(success));
                self.state.jobs_left = left;
                self.state.time_left = eta;
                self.last_finish = now;
                self.workers.set(worker, WorkerPhase::Idle);
            },
            _ => {},
        }
        assert(self@ =~= old(self)@.after_finish(worker as int, success, now));
        self.state.clone()
    }

    /// Whether every worker has left.
    pub fn all_exited(&self) -> (done: bool)
        ensures
            done == self@.all_exited(),
    {
        let mut w: usize = 0;
        while w < self.workers.len()
            invariant
                w <= self.workers.len(),
                forall|k: int| 0 <= k < w ==> #[trigger] self.workers@[k] == WorkerPhase::Exited,
            decreases self.workers.len() - w,
        {
            match self.workers[w] {
                WorkerPhase::Exited => {},
                _ => {
                    assert(self@.is_worker(w as int));
                    return false;
                },
            }
            w = w + 1;
        }
        true
    }

    /// Ends the batch once every worker has left, and returns what the
    /// observer is sent last: the closing record, which is the progress as it
    /// stands and no longer running, and after it the signal that the batch
    /// is finished.
    ///
    /// With at least one worker every account is finished by then and nothing
    /// is left to do. The batch is used up: it ends once.
    pub fn finish(self) -> (notices: Vec<Notice>)
        requires
            self.wf(),
            self@.all_exited(),
        ensures
            notices@.len() == 2,
            notices@[0] matches Notice::StateUpdate(record) && record@ == self@.closing_record(),
            notices@[1] == Notice::ClaimFinished,
            self@.closing_record().coherent(),
            self@.workers.len() >= 1 ==> self@.closing_record().all_finished()
                && self@.closing_record().jobs_left == 0,
    {
        proof {
            if self@.workers.len() >= 1 {
                lemma_drained(self@);
            }
        }
        let mut record = self.state;
        record.running = false;
        let mut notices: Vec<Notice> = Vec::new();
        notices.push(Notice::StateUpdate(record));
        notices.push(Notice::ClaimFinished);
        notices
    }
}

} // verus!
