//! The records exchanged with the user interface.

use vstd::prelude::*;

verus! {

/// Where one account stands within a batch.
///
/// An account starts out `Pending`, becomes `Running` when a worker begins to
/// process it and ends as `Succeeded` or `Failed`. It never moves backwards.
#[derive(Clone, Copy, Debug, PartialEq, Eq, Structural)]
pub enum AccountStatus {
    Pending,
    Running,
    Succeeded,
    Failed,
}

impl AccountStatus {
    /// The status is final: the account has been processed.
    pub open spec fn is_terminal(self) -> bool {
        self is Succeeded || self is Failed
    }

    /// The small integer that stands for the status on the wire.
    pub open spec fn wire_code(self) -> int {
        match self {
            AccountStatus::Pending => 0,
            AccountStatus::Running => 1,
            AccountStatus::Succeeded => 2,
            AccountStatus::Failed => 3,
        }
    }

    /// The terminal status that records the outcome of a claim.
    pub open spec fn of_outcome(success: bool) -> AccountStatus {
        if success {
            AccountStatus::Succeeded
        } else {
            AccountStatus::Failed
        }
    }

    /// How far along its lifecycle the status is: both terminal statuses
    /// share the last stage.
    pub open spec fn stage(self) -> int {
        match self {
            AccountStatus::Pending => 0,
            AccountStatus::Running => 1,
            AccountStatus::Succeeded => 2,
            AccountStatus::Failed => 2,
        }
    }

    pub fn finished(self) -> (done: bool)
        ensures
            done == self.is_terminal(),
    {
        match self {
            AccountStatus::Succeeded => true,
            AccountStatus::Failed => true,
            _ => false,
        }
    }

    pub fn code(self) -> (code: i32)
        ensures
            code == self.wire_code(),
    {
        match self {
            AccountStatus::Pending => 0,
            AccountStatus::Running => 1,
            AccountStatus::Succeeded => 2,
            AccountStatus::Failed => 3,
        }
    }

    /// Reads a wire code back; codes outside `0..=3` stand for no status.
    pub fn from_code(code: i32) -> (status: Option<AccountStatus>)
        ensures
            match status {
                Some(s) => s.wire_code() == code,
                None => !(0 <= code <= 3),
            },
    {
        if code == 0 {
            Some(AccountStatus::Pending)
        } else if code == 1 {
            Some(AccountStatus::Running)
        } else if code == 2 {
            Some(AccountStatus::Succeeded)
        } else if code == 3 {
            Some(AccountStatus::Failed)
        } else {
            None
        }
    }

    pub fn from_outcome(success: bool) -> (status: AccountStatus)
        ensures
            status == AccountStatus::of_outcome(success),
    {
        if success {
            AccountStatus::Succeeded
        } else {
            AccountStatus::Failed
        }
    }
}

/// How many of the statuses are not terminal yet.
pub open spec fn unfinished(statuses: Seq<AccountStatus>) -> nat
    decreases statuses.len(),
{
    if statuses.len() == 0 {
        0
    } else {
        unfinished(statuses.drop_last()) + if statuses.last().is_terminal() {
            0nat
        } else {
            1nat
        }
    }
}

/// No more statuses can be unfinished than there are statuses.
pub proof fn lemma_unfinished_bounded(statuses: Seq<AccountStatus>)
    ensures
        unfinished(statuses) <= statuses.len(),
    decreases statuses.len(),
{
    if statuses.len() > 0 {
        lemma_unfinished_bounded(statuses.drop_last());
    }
}

/// Where no status is terminal, all of them are unfinished.
pub proof fn lemma_unfinished_none_terminal(statuses: Seq<AccountStatus>)
    requires
        forall|i: int| 0 <= i < statuses.len() ==> !(#[trigger] statuses[i]).is_terminal(),
    ensures
        unfinished(statuses) == statuses.len(),
    decreases statuses.len(),
{
    if statuses.len() > 0 {
        let front = statuses.drop_last();
        assert forall|i: int| 0 <= i < front.len() implies !(#[trigger] front[i]).is_terminal() by {
            assert(front[i] == statuses[i]);
        }
        lemma_unfinished_none_terminal(front);
    }
}

/// Nothing is unfinished exactly when every status is terminal.
pub proof fn lemma_unfinished_zero(statuses: Seq<AccountStatus>)
    ensures
        unfinished(statuses) == 0 <==> (forall|i: int|
            0 <= i < statuses.len() ==> (#[trigger] statuses[i]).is_terminal()),
    decreases statuses.len(),
{
    if statuses.len() > 0 {
        let front = statuses.drop_last();
        lemma_unfinished_zero(front);
        if unfinished(statuses) == 0 {
            assert forall|i: int| 0 <= i < statuses.len() implies (#[trigger] statuses[i]).is_terminal() by {
                if i < front.len() {
                    assert(front[i] == statuses[i]);
                }
            }
        }
        if forall|i: int| 0 <= i < statuses.len() ==> (#[trigger] statuses[i]).is_terminal() {
            assert forall|i: int| 0 <= i < front.len() implies (#[trigger] front[i]).is_terminal() by {
                assert(front[i] == statuses[i]);
            }
            assert(statuses.last().is_terminal());
        }
    }
}

/// Replacing one status changes the count by what that one position
/// contributes, and by nothing else.
pub proof fn lemma_unfinished_update(statuses: Seq<AccountStatus>, index: int, status: AccountStatus)
    requires
        0 <= index < statuses.len(),
    ensures
        unfinished(statuses.update(index, status)) + (if statuses[index].is_terminal() {
            0nat
        } else {
            1nat
        }) == unfinished(statuses) + (if status.is_terminal() {
            0nat
        } else {
            1nat
        }),
    decreases statuses.len(),
{
    let updated = statuses.update(index, status);
    if index == statuses.len() - 1 {
        assert(updated.drop_last() =~= statuses.drop_last());
    } else {
        assert(updated.drop_last() =~= statuses.drop_last().update(index, status));
        lemma_unfinished_update(statuses.drop_last(), index, status);
    }
}

/// The wire codes of a sequence of statuses, position by position.
pub open spec fn wire_codes(statuses: Seq<AccountStatus>) -> Seq<i32> {
    Seq::new(statuses.len(), |i: int| statuses[i].wire_code() as i32)
}

/// The credentials of one account. The claimer only reads them.
#[derive(Debug, PartialEq, Eq)]
pub struct PixAiAccount {
    pub email: String,
    pub password: String,
}

impl Clone for PixAiAccount {
    fn clone(&self) -> (copy: Self)
        ensures
            copy == *self,
    {
        PixAiAccount { email: self.email.clone(), password: self.password.clone() }
    }
}

/// The progress record of the claimer, as the user interface sees it.
#[derive(Debug, PartialEq, Eq)]
pub struct JobState {
    /// True from the start of a batch until all its workers have left.
    pub running: bool,
    /// Number of accounts of the batch.
    pub accounts_num: u32,
    /// Number of accounts that have not been finished yet.
    pub jobs_left: u32,
    /// Number of workers that a batch runs with.
    pub concurrent: u32,
    /// Estimated seconds until the batch ends; absent until an account has
    /// been finished.
    pub time_left: Option<u64>,
    /// One status per account, in the order of the accounts.
    pub account_status: Vec<AccountStatus>,
}

/// [`JobState`] as a mathematical value.
#[verifier::ext_equal]
pub struct JobStateView {
    pub running: bool,
    pub accounts_num: nat,
    pub jobs_left: nat,
    pub concurrent: nat,
    pub time_left: Option<nat>,
    pub account_status: Seq<AccountStatus>,
}

impl JobStateView {
    /// The record of a claimer that has not run a batch yet.
    pub open spec fn idle() -> JobStateView {
        JobStateView {
            running: false,
            accounts_num: 0,
            jobs_left: 0,
            concurrent: 1,
            time_left: None,
            account_status: Seq::empty(),
        }
    }

    /// The counters agree with the statuses: there is one status per account
    /// and `jobs_left` counts exactly the statuses that are not terminal.
    pub open spec fn coherent(self) -> bool {
        &&& self.account_status.len() == self.accounts_num
        &&& self.jobs_left == unfinished(self.account_status)
    }

    /// Every account has reached a terminal status.
    pub open spec fn all_finished(self) -> bool {
        forall|i: int|
            0 <= i < self.account_status.len() ==> (#[trigger] self.account_status[i]).is_terminal()
    }
}

/// In a record whose counters agree with its statuses, nothing is left to do
/// exactly when every account has reached a terminal status.
pub proof fn lemma_nothing_left_iff_all_finished(record: JobStateView)
    requires
        record.coherent(),
    ensures
        record.jobs_left == 0 <==> record.all_finished(),
        record.jobs_left <= record.accounts_num,
{
    lemma_unfinished_zero(record.account_status);
    lemma_unfinished_bounded(record.account_status);
}

impl View for JobState {
    type V = JobStateView;

    open spec fn view(&self) -> JobStateView {
        JobStateView {
            running: self.running,
            accounts_num: self.accounts_num as nat,
            jobs_left: self.jobs_left as nat,
            concurrent: self.concurrent as nat,
            time_left: match self.time_left {
                Some(t) => Some(t as nat),
                None => None,
            },
            account_status: self.account_status@,
        }
    }
}

impl Clone for JobState {
    fn clone(&self) -> (copy: Self)
        ensures
            copy@ == self@,
    {
        let mut statuses: Vec<AccountStatus> = Vec::new();
        let mut i: usize = 0;
        while i < self.account_status.len()
            invariant
                i <= self.account_status.len(),
                statuses@ == self.account_status@.take(i as int),
            decreases self.account_status.len() - i,
        {
            statuses.push(self.account_status[i]);
            i = i + 1;
        }
        assert(statuses@ == self.account_status@);
        JobState {
            running: self.running,
            accounts_num: self.accounts_num,
            jobs_left: self.jobs_left,
            concurrent: self.concurrent,
            time_left: self.time_left,
            account_status: statuses,
        }
    }
}

impl JobState {
    /// The record that the claimer starts with: nothing runs, there are no
    /// accounts, and a batch would use a single worker.
    pub fn new() -> (state: JobState)
        ensures
            state@ == JobStateView::idle(),
    {
        JobState {
            running: false,
            accounts_num: 0,
            jobs_left: 0,
            concurrent: 1,
            time_left: None,
            account_status: Vec::new(),
        }
    }

    /// The statuses as the integers that go over the wire.
    pub fn status_codes(&self) -> (codes: Vec<i32>)
        ensures
            codes@ == wire_codes(self.account_status@),
    {
        let mut codes: Vec<i32> = Vec::new();
        let mut i: usize = 0;
        while i < self.account_status.len()
            invariant
                i <= self.account_status.len(),
                codes@ == wire_codes(self.account_status@.take(i as int)),
            decreases self.account_status.len() - i,
        {
            codes.push(self.account_status[i].code());
            i = i + 1;
            assert(codes@ =~= wire_codes(self.account_status@.take(i as int)));
        }
        assert(self.account_status@.take(i as int) == self.account_status@);
        codes
    }
}

/// The settings that the user interface may change between batches.
#[derive(Clone, Copy, Debug, PartialEq, Eq)]
pub struct Settings {
    pub concurrent: u32,
}

} // verus!
