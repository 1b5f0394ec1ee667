//! What holds of every run of a batch, whatever the order in which the
//! workers get their turns.
//!
//! A run is the sequence of requests and reports that the workers make, in the
//! order in which the batch sees them. The theorems here quantify over all
//! runs that follow the protocol of the workers, and so over all
//! interleavings and all completion orders.

use crate::claimer::eta::{estimate, Timestamp};
use crate::claimer::{
    lemma_drained, lemma_finish_wf, lemma_initial_wf, lemma_next_job_wf, lemma_start_wf,
    ClaimBatchView, WorkerPhase,
};
use crate::dto::{AccountStatus, PixAiAccount};
use vstd::prelude::*;

verus! {

/// One request or report of a worker.
pub enum BatchStep {
    /// The worker asks for its next account.
    NextJob { worker: int },
    /// The worker starts on the account it was handed.
    Start { worker: int },
    /// The worker reports the outcome of the account it processed.
    Finish { worker: int, success: bool, now: Timestamp },
}

impl ClaimBatchView {
    /// The step follows the protocol: the worker exists and is in the phase
    /// that the step belongs to.
    pub open spec fn admits(self, step: BatchStep) -> bool {
        match step {
            BatchStep::NextJob { worker } => self.is_worker(worker) && self.workers[worker] is Idle,
            BatchStep::Start { worker } => self.is_worker(worker)
                && self.workers[worker] is Claimed,
            BatchStep::Finish { worker, success, now } => self.is_worker(worker)
                && self.can_finish(worker, now),
        }
    }

    /// The batch after the step.
    pub open spec fn after(self, step: BatchStep) -> ClaimBatchView {
        match step {
            BatchStep::NextJob { worker } => self.after_next_job(worker),
            BatchStep::Start { worker } => self.after_start(worker),
            BatchStep::Finish { worker, success, now } => self.after_finish(worker, success, now),
        }
    }
}

/// The batch after all the steps, taken in order.
pub open spec fn run(v: ClaimBatchView, steps: Seq<BatchStep>) -> ClaimBatchView
    decreases steps.len(),
{
    if steps.len() == 0 {
        v
    } else {
        run(v, steps.drop_last()).after(steps.last())
    }
}

/// Every step follows the protocol at the moment it is taken.
pub open spec fn admissible(v: ClaimBatchView, steps: Seq<BatchStep>) -> bool
    decreases steps.len(),
{
    steps.len() == 0 || (admissible(v, steps.drop_last()) && run(v, steps.drop_last()).admits(
        steps.last(),
    ))
}

/// The index that step `k` of the run hands out: the answer to a request made
/// while accounts are left.
pub open spec fn handed_out(v: ClaimBatchView, steps: Seq<BatchStep>, k: int) -> Option<int> {
    if steps[k] is NextJob {
        run(v, steps.take(k)).handout()
    } else {
        None
    }
}

/// How many outcomes are reported in the course of the steps.
pub open spec fn finishes(steps: Seq<BatchStep>) -> nat
    decreases steps.len(),
{
    if steps.len() == 0 {
        0
    } else {
        finishes(steps.drop_last()) + if steps.last() is Finish {
            1nat
        } else {
            0nat
        }
    }
}

/// A step that follows the protocol keeps the batch well formed, never moves
/// the cursor back and never touches a status that is terminal.
pub proof fn lemma_step(v: ClaimBatchView, step: BatchStep)
    requires
        v.wf(),
        v.admits(step),
    ensures
        v.after(step).wf(),
        v.after(step).cursor >= v.cursor,
        v.after(step).accounts == v.accounts,
        v.after(step).job.account_status.len() == v.job.account_status.len(),
        v.after(step).job.jobs_left <= v.job.jobs_left,
        forall|i: int|
            0 <= i < v.job.account_status.len() ==> (#[trigger] v.after(
                step,
            ).job.account_status[i]).stage() >= v.job.account_status[i].stage(),
        forall|i: int|
            0 <= i < v.job.account_status.len() && v.job.account_status[i].is_terminal() ==> (
            #[trigger] v.after(step).job.account_status[i]) == v.job.account_status[i],
{
    match step {
        BatchStep::NextJob { worker } => {
            lemma_next_job_wf(v, worker);
        },
        BatchStep::Start { worker } => {
            lemma_start_wf(v, worker);
            assert(v.worker_in_step(worker));
        },
        BatchStep::Finish { worker, success, now } => {
            lemma_finish_wf(v, worker, success, now);
            assert(v.worker_in_step(worker));
        },
    }
}

/// A prefix of a run that follows the protocol follows it too, and the run
/// continues from where the prefix ends.
pub proof fn lemma_prefix(v: ClaimBatchView, steps: Seq<BatchStep>, k: int)
    requires
        admissible(v, steps),
        0 <= k <= steps.len(),
    ensures
        admissible(v, steps.take(k)),
        k < steps.len() ==> run(v, steps.take(k)).admits(steps[k]) && run(v, steps.take(k + 1))
            == run(v, steps.take(k)).after(steps[k]),
    decreases steps.len(),
{
    if k == steps.len() {
        assert(steps.take(k) =~= steps);
    } else {
        let front = steps.drop_last();
        if k == steps.len() - 1 {
            assert(steps.take(k) =~= front);
            assert(steps.take(k + 1) =~= steps);
        } else {
            lemma_prefix(v, front, k);
            assert(front.take(k) =~= steps.take(k));
            assert(front.take(k + 1) =~= steps.take(k + 1));
        }
    }
}

/// A run that follows the protocol keeps the batch well formed.
pub proof fn lemma_run_wf(v: ClaimBatchView, steps: Seq<BatchStep>)
    requires
        v.wf(),
        admissible(v, steps),
    ensures
        run(v, steps).wf(),
        run(v, steps).accounts == v.accounts,
        run(v, steps).job.account_status.len() == v.job.account_status.len(),
    decreases steps.len(),
{
    if steps.len() > 0 {
        lemma_run_wf(v, steps.drop_last());
        lemma_step(run(v, steps.drop_last()), steps.last());
    }
}

/// Between any two moments of a run the cursor does not move back, no
/// account gains work to do, and a status that was terminal stays as it was.
pub proof fn lemma_progress(v: ClaimBatchView, steps: Seq<BatchStep>, j: int, k: int)
    requires
        v.wf(),
        admissible(v, steps),
        0 <= j <= k <= steps.len(),
    ensures
        run(v, steps.take(j)).cursor <= run(v, steps.take(k)).cursor,
        run(v, steps.take(k)).job.jobs_left <= run(v, steps.take(j)).job.jobs_left,
        run(v, steps.take(j)).job.account_status.len() == run(
            v,
            steps.take(k),
        ).job.account_status.len(),
        forall|i: int|
            0 <= i < run(v, steps.take(j)).job.account_status.len() ==> (#[trigger] run(
                v,
                steps.take(k),
            ).job.account_status[i]).stage() >= run(v, steps.take(j)).job.account_status[i].stage(),
        forall|i: int|
            0 <= i < run(v, steps.take(j)).job.account_status.len() && run(
                v,
                steps.take(j),
            ).job.account_status[i].is_terminal() ==> (#[trigger] run(
                v,
                steps.take(k),
            ).job.account_status[i]) == run(v, steps.take(j)).job.account_status[i],
    decreases k - j,
{
    if j < k {
        lemma_progress(v, steps, j, k - 1);
        lemma_prefix(v, steps, k - 1);
        lemma_run_wf(v, steps.take(k - 1));
        lemma_step(run(v, steps.take(k - 1)), steps[k - 1]);
    }
}

/// After a run in which every worker has left, every account has a terminal
/// status, nothing is left to do, and the closing record no longer runs.
/// This holds for every number of accounts, every number of workers from one
/// on, and every order in which the workers took their turns.
pub proof fn theorem_batch_completes(
    accounts: Seq<PixAiAccount>,
    concurrency: nat,
    began: Timestamp,
    steps: Seq<BatchStep>,
)
    requires
        accounts.len() <= u32::MAX,
        concurrency >= 1,
        admissible(ClaimBatchView::initial(accounts, concurrency, began), steps),
        run(ClaimBatchView::initial(accounts, concurrency, began), steps).all_exited(),
    ensures
        ({
            let record = run(
                ClaimBatchView::initial(accounts, concurrency, began),
                steps,
            ).closing_record();
            &&& !record.running
            &&& record.jobs_left == 0
            &&& record.accounts_num == accounts.len()
            &&& record.account_status.len() == accounts.len()
            &&& record.all_finished()
        }),
{
    let start = ClaimBatchView::initial(accounts, concurrency, began);
    lemma_initial_wf(accounts, concurrency, began);
    lemma_run_wf(start, steps);
    lemma_drained(run(start, steps));
}

/// Every report of an outcome takes one account off the count of those left
/// to do, and nothing else changes that count. A run at whose end every
/// worker has left has therefore seen exactly one report per account.
pub proof fn theorem_one_finish_per_account(v: ClaimBatchView, steps: Seq<BatchStep>)
    requires
        v.wf(),
        admissible(v, steps),
    ensures
        run(v, steps).job.jobs_left + finishes(steps) == v.job.jobs_left,
        v.workers.len() >= 1 && run(v, steps).all_exited() ==> finishes(steps)
            == v.job.jobs_left,
    decreases steps.len(),
{
    if steps.len() > 0 {
        theorem_one_finish_per_account(v, steps.drop_last());
        lemma_run_wf(v, steps.drop_last());
        lemma_finish_takes_one(run(v, steps.drop_last()), steps.last());
    }
    lemma_run_wf(v, steps);
    if v.workers.len() >= 1 && run(v, steps).all_exited() {
        lemma_workers_kept(v, steps);
        lemma_drained(run(v, steps));
    }
}

proof fn lemma_finish_takes_one(v: ClaimBatchView, step: BatchStep)
    requires
        v.wf(),
        v.admits(step),
    ensures
        v.after(step).job.jobs_left + (if step is Finish {
            1nat
        } else {
            0nat
        }) == v.job.jobs_left,
{
    if let BatchStep::Finish { worker, success, now } = step {
        lemma_finish_wf(v, worker, success, now);
    }
}

proof fn lemma_workers_kept(v: ClaimBatchView, steps: Seq<BatchStep>)
    requires
        v.wf(),
        admissible(v, steps),
    ensures
        run(v, steps).workers.len() == v.workers.len(),
    decreases steps.len(),
{
    if steps.len() > 0 {
        lemma_workers_kept(v, steps.drop_last());
        lemma_run_wf(v, steps.drop_last());
        lemma_step(run(v, steps.drop_last()), steps.last());
    }
}

/// No index is handed out twice: of two requests that are answered with an
/// index, the later one gets the larger index.
pub proof fn theorem_no_index_twice(v: ClaimBatchView, steps: Seq<BatchStep>, j: int, k: int)
    requires
        v.wf(),
        admissible(v, steps),
        0 <= j < k < steps.len(),
        handed_out(v, steps, j).is_some(),
        handed_out(v, steps, k).is_some(),
    ensures
        handed_out(v, steps, j).unwrap() < handed_out(v, steps, k).unwrap(),
{
    lemma_prefix(v, steps, j);
    lemma_progress(v, steps, j + 1, k);
}

/// While a worker holds an index, no other worker holds it.
pub proof fn theorem_exclusive_access(
    v: ClaimBatchView,
    steps: Seq<BatchStep>,
    first: int,
    second: int,
)
    requires
        v.wf(),
        admissible(v, steps),
        run(v, steps).is_worker(first),
        run(v, steps).is_worker(second),
        first != second,
        run(v, steps).workers[first].held().is_some(),
    ensures
        run(v, steps).workers[first].held() != run(v, steps).workers[second].held(),
{
    lemma_run_wf(v, steps);
}

/// The outcome that a worker reports lands at the position of the account
/// that the worker was handed, and it is still there at the end of the run,
/// whatever was reported before or after it and in whatever order.
pub proof fn theorem_status_follows_account(v: ClaimBatchView, steps: Seq<BatchStep>, k: int)
    requires
        v.wf(),
        admissible(v, steps),
        0 <= k < steps.len(),
        steps[k] is Finish,
    ensures
        ({
            let before = run(v, steps.take(k));
            let index = before.workers[steps[k]->Finish_worker].held().unwrap();
            &&& 0 <= index < v.accounts.len()
            &&& before.job.account_status[index] == AccountStatus::Running
            &&& run(v, steps).job.account_status[index] == AccountStatus::of_outcome(
                steps[k]->Finish_success,
            )
        }),
{
    let before = run(v, steps.take(k));
    let worker = steps[k]->Finish_worker;
    lemma_prefix(v, steps, k);
    lemma_run_wf(v, steps.take(k));
    assert(before.worker_in_step(worker));
    lemma_progress(v, steps, k + 1, steps.len() as int);
    assert(steps.take(steps.len() as int) =~= steps);
}

/// The estimate that follows a finish is the whole seconds since the finish
/// before it, times the accounts that are left after it: no earlier finish
/// and no request or start in between has any part in it.
pub proof fn theorem_estimate_between_finishes(
    v: ClaimBatchView,
    steps: Seq<BatchStep>,
    j: int,
    k: int,
)
    requires
        v.wf(),
        admissible(v, steps),
        0 <= j < k < steps.len(),
        steps[j] is Finish,
        steps[k] is Finish,
        forall|m: int| j < m < k ==> !(#[trigger] steps[m] is Finish),
    ensures
        ({
            let after = run(v, steps.take(k + 1));
            after.job.time_left == Some(
                (steps[k]->Finish_now.whole_seconds_since(steps[j]->Finish_now)
                    * after.job.jobs_left) as nat,
            )
        }),
{
    lemma_prefix(v, steps, j);
    lemma_last_finish_kept(v, steps, j + 1, k);
    lemma_prefix(v, steps, k);
}

/// Requests and starts leave the time of the last finish alone.
proof fn lemma_last_finish_kept(v: ClaimBatchView, steps: Seq<BatchStep>, j: int, k: int)
    requires
        admissible(v, steps),
        0 <= j <= k <= steps.len(),
        forall|m: int| j <= m < k ==> !(#[trigger] steps[m] is Finish),
    ensures
        run(v, steps.take(k)).last_finish == run(v, steps.take(j)).last_finish,
    decreases k - j,
{
    if j < k {
        lemma_last_finish_kept(v, steps, j, k - 1);
        lemma_prefix(v, steps, k - 1);
        assert(!(steps[k - 1] is Finish));
    }
}

/// The steps that a worker in this phase still takes before it asks for an
/// account again, that request included.
pub open spec fn steps_ahead(phase: WorkerPhase) -> nat {
    match phase {
        WorkerPhase::Idle => 1,
        WorkerPhase::Claimed(_) => 3,
        WorkerPhase::Processing(_) => 2,
        WorkerPhase::Exited => 0,
    }
}

/// [`steps_ahead`], summed over the workers.
pub open spec fn steps_ahead_of_all(workers: Seq<WorkerPhase>) -> nat
    decreases workers.len(),
{
    if workers.len() == 0 {
        0
    } else {
        steps_ahead_of_all(workers.drop_last()) + steps_ahead(workers.last())
    }
}

/// The steps that a batch still takes until every worker has left: three for
/// every account that has not been handed out, and those that lie ahead of
/// the workers.
pub open spec fn steps_to_go(v: ClaimBatchView) -> nat {
    (3 * (v.job.accounts_num - v.cursor) + steps_ahead_of_all(v.workers)) as nat
}

proof fn lemma_steps_ahead_update(workers: Seq<WorkerPhase>, worker: int, phase: WorkerPhase)
    requires
        0 <= worker < workers.len(),
    ensures
        steps_ahead_of_all(workers.update(worker, phase)) + steps_ahead(workers[worker])
            == steps_ahead_of_all(workers) + steps_ahead(phase),
    decreases workers.len(),
{
    let updated = workers.update(worker, phase);
    if worker == workers.len() - 1 {
        assert(updated.drop_last() =~= workers.drop_last());
    } else {
        assert(updated.drop_last() =~= workers.drop_last().update(worker, phase));
        lemma_steps_ahead_update(workers.drop_last(), worker, phase);
    }
}

proof fn lemma_steps_ahead_extremes(workers: Seq<WorkerPhase>)
    ensures
        (forall|w: int| 0 <= w < workers.len() ==> #[trigger] workers[w] == WorkerPhase::Idle)
            ==> steps_ahead_of_all(workers) == workers.len(),
        (forall|w: int| 0 <= w < workers.len() ==> #[trigger] workers[w] == WorkerPhase::Exited)
            ==> steps_ahead_of_all(workers) == 0,
    decreases workers.len(),
{
    if workers.len() > 0 {
        let front = workers.drop_last();
        lemma_steps_ahead_extremes(front);
        assert(forall|w: int| 0 <= w < front.len() ==> front[w] == workers[w]);
    }
}

/// Every step that follows the protocol brings the batch one step closer to
/// its end.
pub proof fn lemma_step_counts(v: ClaimBatchView, step: BatchStep)
    requires
        v.wf(),
        v.admits(step),
    ensures
        steps_to_go(v.after(step)) + 1 == steps_to_go(v),
{
    match step {
        BatchStep::NextJob { worker } => {
            lemma_steps_ahead_update(
                v.workers,
                worker,
                v.after_next_job(worker).workers[worker],
            );
        },
        BatchStep::Start { worker } => {
            lemma_steps_ahead_update(v.workers, worker, v.after_start(worker).workers[worker]);
        },
        BatchStep::Finish { worker, success, now } => {
            lemma_steps_ahead_update(v.workers, worker, WorkerPhase::Idle);
        },
    }
}

/// A batch ends, and it is known when: no run of a batch of `n` accounts and
/// `c` workers is longer than `3 * n + c` steps, and a run at whose end every
/// worker has left has exactly that many. Each account costs a request, a
/// start and a finish, and each worker one last request that is answered
/// with nothing.
pub proof fn theorem_run_length(
    accounts: Seq<PixAiAccount>,
    concurrency: nat,
    began: Timestamp,
    steps: Seq<BatchStep>,
)
    requires
        accounts.len() <= u32::MAX,
        admissible(ClaimBatchView::initial(accounts, concurrency, began), steps),
    ensures
        steps.len() <= 3 * accounts.len() + concurrency,
        concurrency >= 1 && run(
            ClaimBatchView::initial(accounts, concurrency, began),
            steps,
        ).all_exited() ==> steps.len() == 3 * accounts.len() + concurrency,
{
    let start = ClaimBatchView::initial(accounts, concurrency, began);
    lemma_initial_wf(accounts, concurrency, began);
    lemma_steps_ahead_extremes(start.workers);
    lemma_run_counts(start, steps);
    let end = run(start, steps);
    if concurrency >= 1 && end.all_exited() {
        lemma_run_wf(start, steps);
        lemma_drained(end);
        lemma_steps_ahead_extremes(end.workers);
    }
}

proof fn lemma_run_counts(v: ClaimBatchView, steps: Seq<BatchStep>)
    requires
        v.wf(),
        admissible(v, steps),
    ensures
        steps_to_go(run(v, steps)) + steps.len() == steps_to_go(v),
    decreases steps.len(),
{
    if steps.len() > 0 {
        lemma_run_counts(v, steps.drop_last());
        lemma_run_wf(v, steps.drop_last());
        lemma_step_counts(run(v, steps.drop_last()), steps.last());
    }
}

/// A batch is never stuck: as long as a worker has not left, that worker has
/// a step to take that follows the protocol.
pub proof fn theorem_never_stuck(v: ClaimBatchView, worker: int)
    requires
        v.wf(),
        v.is_worker(worker),
        v.workers[worker] != WorkerPhase::Exited,
    ensures
        exists|step: BatchStep| #[trigger] v.admits(step),
{
    match v.workers[worker] {
        WorkerPhase::Idle => {
            assert(v.admits(BatchStep::NextJob { worker }));
        },
        WorkerPhase::Claimed(_) => {
            assert(v.admits(BatchStep::Start { worker }));
        },
        _ => {
            // reporting in the very instant of the previous finish is always possible
            let now = v.last_finish;
            assert(estimate(now, now, (v.job.jobs_left - 1) as nat) == 0) by (nonlinear_arith)
                requires
                    estimate(now, now, (v.job.jobs_left - 1) as nat) == ((now.nanos - now.nanos)
                        / 1_000_000_000) * ((v.job.jobs_left - 1) as nat),
            ;
            assert(v.admits(BatchStep::Finish { worker, success: true, now }));
        },
    }
}

} // verus!
