//! The state of the application: the accounts and the progress record, and
//! the rules by which the user interface may read and change them.

use crate::dto::{JobState, JobStateView, PixAiAccount, Settings};
use crate::error::{AppError, AppResult};
use vstd::prelude::*;
use vstd::std_specs::convert::FromSpecImpl;
use vstd::string::*;

verus! {

/// Everything the application keeps while it runs.
#[derive(Debug)]
pub struct AppState {
    /// The accounts that the next batch will claim for.
    pub accounts: Vec<PixAiAccount>,
    /// The progress record that the user interface shows.
    pub job_state: JobState,
}

/// The part of the state that outlives the program: the accounts.
#[derive(Debug)]
pub struct AppStateUnlocked {
    accounts: Vec<PixAiAccount>,
}

impl View for AppStateUnlocked {
    type V = Seq<PixAiAccount>;

    closed spec fn view(&self) -> Seq<PixAiAccount> {
        self.accounts@
    }
}

impl Default for AppStateUnlocked {
    /// No accounts.
    fn default() -> (state: Self)
        ensures
            state@ == Seq::<PixAiAccount>::empty(),
    {
        AppStateUnlocked { accounts: Vec::new() }
    }
}

impl AppStateUnlocked {
    pub fn new(accounts: Vec<PixAiAccount>) -> (state: Self)
        ensures
            state@ == accounts@,
    {
        AppStateUnlocked { accounts }
    }

    pub fn accounts(&self) -> (accounts: &Vec<PixAiAccount>)
        ensures
            accounts@ == self@,
    {
        &self.accounts
    }
}

impl FromSpecImpl<AppState> for AppStateUnlocked {
    open spec fn obeys_from_spec() -> bool {
        true
    }

    closed spec fn from_spec(value: AppState) -> Self {
        AppStateUnlocked { accounts: value.accounts }
    }
}

impl From<AppState> for AppStateUnlocked {
    /// Keeps the accounts and drops the progress record.
    fn from(value: AppState) -> (state: Self)
        ensures
            state@ == value.accounts@,
    {
        AppStateUnlocked { accounts: value.accounts }
    }
}

// The fresh progress record holds a new, empty vector, which equals other
// empty vectors as a sequence and not as a value: no specification function
// can name the result, and the contract of `from` pins it down by its views.
impl FromSpecImpl<AppStateUnlocked> for AppState {
    open spec fn obeys_from_spec() -> bool {
        false
    }

    open spec fn from_spec(value: AppStateUnlocked) -> Self {
        arbitrary()
    }
}

impl From<AppStateUnlocked> for AppState {
    /// The state of a program that has just started: the stored accounts and
    /// an idle progress record.
    fn from(value: AppStateUnlocked) -> (state: Self)
        ensures
            state.accounts@ == value@,
            state.job_state@ == JobStateView::idle(),
    {
        AppState { accounts: value.accounts, job_state: JobState::new() }
    }
}

/// What came of reading the stored configuration.
#[derive(Debug)]
pub enum ConfigRead {
    /// There is no configuration file.
    Missing,
    /// The file is there and could not be opened; the text says why.
    Unreadable(String),
    /// The file was read: its contents, or `None` where they are not a valid
    /// configuration.
    Contents(Option<AppStateUnlocked>),
}

/// The state to start the program with, given what came of reading the
/// stored configuration.
///
/// A missing file and a file with invalid contents both give the default
/// state. A file that cannot be opened is an error.
pub fn load_app_state(read: ConfigRead) -> (loaded: AppResult<AppStateUnlocked>)
    ensures
        match read {
            ConfigRead::Missing => loaded matches Ok(state) && state@ == Seq::<
                PixAiAccount,
            >::empty(),
            ConfigRead::Unreadable(reason) => loaded == Err::<AppStateUnlocked, AppError>(
                AppError::IoError(reason),
            ),
            ConfigRead::Contents(Some(stored)) => loaded == Ok::<AppStateUnlocked, AppError>(
                stored,
            ),
            ConfigRead::Contents(None) => loaded matches Ok(state) && state@ == Seq::<
                PixAiAccount,
            >::empty(),
        },
{
    match read {
        ConfigRead::Missing => Ok(AppStateUnlocked::default()),
        ConfigRead::Unreadable(reason) => Err(AppError::IoError(reason)),
        ConfigRead::Contents(Some(stored)) => Ok(stored),
        ConfigRead::Contents(None) => Ok(AppStateUnlocked::default()),
    }
}

/// What the user is told when the accounts are changed during a batch.
pub open spec fn accounts_locked_text() -> Seq<char> {
    "不可在签到时改变账户信息"@
}

/// A copy of the accounts.
pub fn get_accounts(app_state: &AppState) -> (accounts: Vec<PixAiAccount>)
    ensures
        accounts@ == app_state.accounts@,
{
    let accounts = app_state.accounts.clone();
    assert(accounts@ =~= app_state.accounts@);
    accounts
}

/// Replaces the accounts, unless a batch is running.
///
/// While a batch runs the accounts are locked: the call fails and changes
/// nothing. Otherwise the new accounts are stored and the progress record
/// counts them, all of them left to do.
pub fn set_accounts(new_accounts: Vec<PixAiAccount>, app_state: &mut AppState) -> (result:
    AppResult<()>)
    requires
        new_accounts.len() <= u32::MAX,
    ensures
        old(app_state).job_state.running ==> {
            &&& result matches Err(AppError::GeneralError(text)) && text@ == accounts_locked_text()
            &&& *final(app_state) == *old(app_state)
        },
        !old(app_state).job_state.running ==> {
            &&& result is Ok
            &&& final(app_state).accounts@ == new_accounts@
            &&& final(app_state).job_state@ == (JobStateView {
                accounts_num: new_accounts.len() as nat,
                jobs_left: new_accounts.len() as nat,
                ..old(app_state).job_state@
            })
        },
{
    if app_state.job_state.running {
        Err(AppError::GeneralError(String::from_str("不可在签到时改变账户信息")))
    } else {
        app_state.job_state.accounts_num = new_accounts.len() as u32;
        app_state.job_state.jobs_left = new_accounts.len() as u32;
        app_state.accounts = new_accounts;
        Ok(())
    }
}

/// A copy of the progress record.
pub fn get_job_state(app_state: &AppState) -> (record: JobState)
    ensures
        record@ == app_state.job_state@,
{
    app_state.job_state.clone()
}

/// Sets the number of workers for the batches to come, unless a batch is
/// running.
///
/// While a batch runs nothing changes and there is nothing to publish.
/// Otherwise the progress record takes the new number, and the result is the
/// snapshot to publish.
pub fn set_settings(app_state: &mut AppState, settings: Settings) -> (snapshot: Option<JobState>)
    ensures
        final(app_state).accounts == old(app_state).accounts,
        old(app_state).job_state.running ==> snapshot.is_none() && *final(app_state) == *old(
            app_state,
        ),
        !old(app_state).job_state.running ==> {
            &&& final(app_state).job_state@ == (JobStateView {
                concurrent: settings.concurrent as nat,
                ..old(app_state).job_state@
            })
            &&& snapshot matches Some(record) && record@ == final(app_state).job_state@
        },
{
    if app_state.job_state.running {
        None
    } else {
        app_state.job_state.concurrent = settings.concurrent;
        Some(app_state.job_state.clone())
    }
}

} // verus!
