use pixai_auto_claimer::dto::{AccountStatus, JobState, PixAiAccount, Settings};
use pixai_auto_claimer::error::AppError;
use pixai_auto_claimer::panic::panic_message;
use pixai_auto_claimer::state::{
    get_accounts, get_job_state, load_app_state, set_accounts, set_settings, AppState,
    AppStateUnlocked, ConfigRead,
};
use pixai_auto_claimer::text::{numbered, push_decimal};

fn account(name: &str) -> PixAiAccount {
    PixAiAccount { email: format!("{name}@example.com"), password: format!("{name}-secret") }
}

fn idle() -> JobState {
    JobState {
        running: false,
        accounts_num: 0,
        jobs_left: 0,
        concurrent: 1,
        time_left: None,
        account_status: vec![],
    }
}

#[test]
fn status_codes_are_zero_to_three() {
    assert_eq!(AccountStatus::Pending.code(), 0);
    assert_eq!(AccountStatus::Running.code(), 1);
    assert_eq!(AccountStatus::Succeeded.code(), 2);
    assert_eq!(AccountStatus::Failed.code(), 3);
}

#[test]
fn status_codes_read_back() {
    for status in [
        AccountStatus::Pending,
        AccountStatus::Running,
        AccountStatus::Succeeded,
        AccountStatus::Failed,
    ] {
        assert_eq!(AccountStatus::from_code(status.code()), Some(status));
    }
    for code in [-1, 4, 5, i32::MIN, i32::MAX] {
        assert_eq!(AccountStatus::from_code(code), None);
    }
}

#[test]
fn only_success_and_failure_are_final() {
    assert!(!AccountStatus::Pending.finished());
    assert!(!AccountStatus::Running.finished());
    assert!(AccountStatus::Succeeded.finished());
    assert!(AccountStatus::Failed.finished());
    assert_eq!(AccountStatus::from_outcome(true), AccountStatus::Succeeded);
    assert_eq!(AccountStatus::from_outcome(false), AccountStatus::Failed);
}

#[test]
fn new_job_state_is_idle_with_one_worker() {
    assert_eq!(JobState::new(), idle());
}

#[test]
fn job_state_copies_and_encodes_its_statuses() {
    let state = JobState {
        running: true,
        accounts_num: 4,
        jobs_left: 2,
        concurrent: 3,
        time_left: Some(17),
        account_status: vec![
            AccountStatus::Succeeded,
            AccountStatus::Running,
            AccountStatus::Failed,
            AccountStatus::Pending,
        ],
    };
    assert_eq!(state.clone(), state);
    assert_eq!(state.status_codes(), vec![2, 1, 3, 0]);
    assert_eq!(idle().status_codes(), Vec::<i32>::new());
}

#[test]
fn account_copies_keep_both_fields() {
    let a = account("a");
    let copy = a.clone();
    assert_eq!(copy.email, "a@example.com");
    assert_eq!(copy.password, "a-secret");
    assert_eq!(copy, a);
}

#[test]
fn error_texts() {
    let io = AppError::IoError("permission denied".to_string());
    assert_eq!(io.message(), "permission denied");
    assert_eq!(io.to_string(), "Rust std::io Error: permission denied");
    let general = AppError::GeneralError("no".to_string());
    assert_eq!(general.message(), "no");
    assert_eq!(general.to_string(), "no");
}

#[test]
fn stored_state_defaults_to_no_accounts() {
    assert!(AppStateUnlocked::default().accounts().is_empty());
    let stored = AppStateUnlocked::new(vec![account("a"), account("b")]);
    assert_eq!(stored.accounts(), &vec![account("a"), account("b")]);
}

#[test]
fn program_starts_with_stored_accounts_and_idle_record() {
    let state = AppState::from(AppStateUnlocked::new(vec![account("a"), account("b")]));
    assert_eq!(state.accounts, vec![account("a"), account("b")]);
    assert_eq!(state.job_state, idle());
    let stored = AppStateUnlocked::from(state);
    assert_eq!(stored.accounts(), &vec![account("a"), account("b")]);
}

#[test]
fn load_falls_back_to_defaults() {
    let missing = load_app_state(ConfigRead::Missing).unwrap();
    assert!(missing.accounts().is_empty());
    let invalid = load_app_state(ConfigRead::Contents(None)).unwrap();
    assert!(invalid.accounts().is_empty());
    let stored = AppStateUnlocked::new(vec![account("a")]);
    let loaded = load_app_state(ConfigRead::Contents(Some(stored))).unwrap();
    assert_eq!(loaded.accounts(), &vec![account("a")]);
}

#[test]
fn load_reports_a_file_that_cannot_be_opened() {
    let result = load_app_state(ConfigRead::Unreadable("permission denied".to_string()));
    assert_eq!(result.unwrap_err(), AppError::IoError("permission denied".to_string()));
}

#[test]
fn accounts_are_replaced_between_batches() {
    let mut state = AppState::from(AppStateUnlocked::default());
    state.job_state.concurrent = 4;
    state.job_state.time_left = Some(3);
    state.job_state.account_status = vec![AccountStatus::Succeeded];
    assert_eq!(set_accounts(vec![account("a"), account("b"), account("c")], &mut state), Ok(()));
    assert_eq!(get_accounts(&state), vec![account("a"), account("b"), account("c")]);
    assert_eq!(get_job_state(&state), JobState {
        running: false,
        accounts_num: 3,
        jobs_left: 3,
        concurrent: 4,
        time_left: Some(3),
        account_status: vec![AccountStatus::Succeeded],
    });
    assert_eq!(set_accounts(vec![], &mut state), Ok(()));
    assert_eq!(get_accounts(&state), vec![]);
    assert_eq!((state.job_state.accounts_num, state.job_state.jobs_left), (0, 0));
}

#[test]
fn accounts_are_locked_during_a_batch() {
    let mut state = AppState::from(AppStateUnlocked::new(vec![account("a")]));
    state.job_state.running = true;
    state.job_state.accounts_num = 1;
    state.job_state.jobs_left = 1;
    let before = get_job_state(&state);
    let result = set_accounts(vec![account("x"), account("y")], &mut state);
    assert_eq!(
        result,
        Err(AppError::GeneralError("不可在签到时改变账户信息".to_string()))
    );
    assert_eq!(get_accounts(&state), vec![account("a")]);
    assert_eq!(get_job_state(&state), before);
}

#[test]
fn settings_change_between_batches_only() {
    let mut state = AppState::from(AppStateUnlocked::new(vec![account("a")]));
    let snapshot = set_settings(&mut state, Settings { concurrent: 8 });
    assert_eq!(snapshot, Some(JobState { concurrent: 8, ..idle() }));
    assert_eq!(state.job_state.concurrent, 8);
    assert_eq!(state.accounts, vec![account("a")]);

    state.job_state.running = true;
    assert_eq!(set_settings(&mut state, Settings { concurrent: 2 }), None);
    assert_eq!(state.job_state.concurrent, 8);
    assert!(state.job_state.running);
}

#[test]
fn decimal_numerals() {
    assert_eq!(numbered("", 0), "0");
    assert_eq!(numbered("", 7), "7");
    assert_eq!(numbered("", 10), "10");
    assert_eq!(numbered("", 101), "101");
    assert_eq!(numbered("n=", 9_000), "n=9000");
    assert_eq!(numbered("", u64::MAX), "18446744073709551615");
    let mut text = String::from("a");
    push_decimal(&mut text, 12);
    push_decimal(&mut text, 0);
    push_decimal(&mut text, 345);
    assert_eq!(text, "a120345");
    for n in (0..100_000u64).step_by(37) {
        assert_eq!(numbered("", n), n.to_string());
    }
}

#[test]
fn panic_report_with_details() {
    let report = panic_message("src/main.rs", 42, 7, Some("boom"));
    assert_eq!(
        report,
        "A critical system failure occurred and the program will shutdown immediately.\n\n\
         Here is some information to help repair the problem:\n\
         Problem occurred in: src/main.rs, L42, C7\n\
         boom"
    );
}

#[test]
fn panic_report_without_details() {
    let report = panic_message("a.rs", 0, u32::MAX, None);
    assert_eq!(
        report,
        "A critical system failure occurred and the program will shutdown immediately.\n\n\
         Here is some information to help repair the problem:\n\
         Problem occurred in: a.rs, L0, C4294967295\n\
         No further messages could we get."
    );
}
