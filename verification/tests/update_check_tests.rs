use simple_update_checker::cli::CheckArgs;
use simple_update_checker::db::Db;
use simple_update_checker::update_check::{check_for_updates, UpdateCheckError};
use simple_update_checker::{Program, Provider, UpdateCheckHistoryEntry, UpdateCheckType};

fn program(name: &str, current: &str, latest: &str) -> Program {
    Program {
        name: name.to_string(),
        current_version: current.to_string(),
        current_version_last_updated: 1000,
        latest_version: latest.to_string(),
        latest_version_last_updated: 1000,
        provider: Provider::Github(format!("LMH01/{name}")),
        notification_sent: true,
        notification_sent_on: None,
    }
}

#[test]
fn test_check_records_new_version() {
    // A fetched version that differs from the stored latest one is
    // recorded, resets the notification window, and is reported.
    let mut db = Db::new();
    db.insert_program(&program("alpha_tui", "1.0.0", "1.0.0")).unwrap();
    let fetched = vec![Some("1.1.0".to_string())];
    let res = check_for_updates(&mut db, &fetched, None, UpdateCheckType::Timed, 2000).unwrap();
    assert_eq!(1, res.len());
    assert_eq!("1.1.0", res[0].latest_version);
    assert_eq!(2000, res[0].latest_version_last_updated);
    assert_eq!("1.0.0", res[0].current_version);
    assert_eq!(false, res[0].notification_sent);
    assert_eq!(None, res[0].notification_sent_on);
    let stored = db.get_program("alpha_tui").unwrap();
    assert_eq!(res[0], stored);
}

#[test]
fn test_check_idempotent_after_adoption() {
    // A manual check that adopts what it finds leaves nothing for a second
    // check over the same fetched versions to do.
    let mut db = Db::new();
    db.insert_program(&program("alpha_tui", "1.0.0", "1.0.0")).unwrap();
    db.insert_program(&program("beta_tui", "0.4.0", "0.4.0")).unwrap();
    let fetched = vec![Some("1.1.0".to_string()), Some("0.4.0".to_string())];
    let args = Some(CheckArgs { set_current_version: true, allow_notification: false });
    let first =
        check_for_updates(&mut db, &fetched, args, UpdateCheckType::Manual, 2000).unwrap();
    assert_eq!(1, first.len());
    let rows_after_first = db.get_all_programs();
    let second =
        check_for_updates(&mut db, &fetched, args, UpdateCheckType::Manual, 3000).unwrap();
    assert_eq!(0, second.len());
    assert_eq!(rows_after_first, db.get_all_programs());
}

#[test]
fn test_manual_suppression() {
    // A manual check without allow_notification records the update but
    // marks it as already notified.
    let mut db = Db::new();
    db.insert_program(&program("alpha_tui", "1.0.0", "1.0.0")).unwrap();
    let fetched = vec![Some("1.1.0".to_string())];
    let args = Some(CheckArgs { set_current_version: false, allow_notification: false });
    let res = check_for_updates(&mut db, &fetched, args, UpdateCheckType::Manual, 2000).unwrap();
    assert_eq!(1, res.len());
    let stored = db.get_program("alpha_tui").unwrap();
    assert_eq!("1.1.0", stored.latest_version);
    assert_eq!(true, stored.notification_sent);
}

#[test]
fn test_manual_with_allow_notification_keeps_window_open() {
    let mut db = Db::new();
    db.insert_program(&program("alpha_tui", "1.0.0", "1.0.0")).unwrap();
    let fetched = vec![Some("1.1.0".to_string())];
    let args = Some(CheckArgs { set_current_version: false, allow_notification: true });
    check_for_updates(&mut db, &fetched, args, UpdateCheckType::Manual, 2000).unwrap();
    let stored = db.get_program("alpha_tui").unwrap();
    assert_eq!(false, stored.notification_sent);
}

#[test]
fn test_check_case_already_recorded_not_adopted() {
    // The fetched version is already recorded but not adopted: the program
    // is reported again without any store change.
    let mut db = Db::new();
    let mut p = program("alpha_tui", "1.0.0", "1.1.0");
    p.notification_sent = false;
    db.insert_program(&p).unwrap();
    let fetched = vec![Some("1.1.0".to_string())];
    let res = check_for_updates(&mut db, &fetched, None, UpdateCheckType::Timed, 2000).unwrap();
    assert_eq!(1, res.len());
    assert_eq!(p, db.get_program("alpha_tui").unwrap());
}

#[test]
fn test_check_writes_one_history_entry_per_pass() {
    // Every completed pass appends exactly one history entry, even with
    // nothing to report.
    let mut db = Db::new();
    db.insert_program(&program("alpha_tui", "1.0.0", "1.0.0")).unwrap();
    let fetched = vec![Some("1.0.0".to_string())];
    let res = check_for_updates(&mut db, &fetched, None, UpdateCheckType::Timed, 2000).unwrap();
    assert_eq!(0, res.len());
    assert_eq!(1, db.get_all_update_checks(None).len());
    check_for_updates(&mut db, &fetched, None, UpdateCheckType::Timed, 3000).unwrap();
    assert_eq!(2, db.get_all_update_checks(None).len());
    let latest = db.get_latest_update_check_from_history().unwrap();
    assert_eq!(
        UpdateCheckHistoryEntry {
            date: 3000,
            check_type: UpdateCheckType::Timed,
            updates_available: 0,
            programs: "".to_string(),
        },
        latest
    );
}

#[test]
fn test_check_history_entry_lists_updated_programs() {
    let mut db = Db::new();
    db.insert_program(&program("alpha_tui", "1.0.0", "1.0.0")).unwrap();
    db.insert_program(&program("simple_update_checker", "0.1.0", "0.1.0")).unwrap();
    let fetched = vec![Some("1.1.0".to_string()), Some("0.2.0".to_string())];
    let res = check_for_updates(&mut db, &fetched, None, UpdateCheckType::Timed, 2000).unwrap();
    assert_eq!(2, res.len());
    let latest = db.get_latest_update_check_from_history().unwrap();
    assert_eq!("alpha_tui, simple_update_checker", latest.programs);
    assert_eq!(2, latest.updates_available);
    assert_eq!(UpdateCheckType::Timed, latest.check_type);
}

#[test]
fn test_check_provider_failure_aborts_pass() {
    // The first provider failure stops the pass: earlier changes remain,
    // no history entry is written, and the error names the program.
    let mut db = Db::new();
    db.insert_program(&program("alpha_tui", "1.0.0", "1.0.0")).unwrap();
    db.insert_program(&program("beta_tui", "0.4.0", "0.4.0")).unwrap();
    let fetched = vec![Some("1.1.0".to_string()), None];
    let res = check_for_updates(&mut db, &fetched, None, UpdateCheckType::Timed, 2000);
    assert_eq!(
        Err(UpdateCheckError::ProviderFailure { program_name: "beta_tui".to_string() }),
        res
    );
    assert_eq!("1.1.0", db.get_program("alpha_tui").unwrap().latest_version);
    assert_eq!("0.4.0", db.get_program("beta_tui").unwrap().latest_version);
    assert_eq!(0, db.get_all_update_checks(None).len());
}

#[test]
fn test_check_empty_database() {
    let mut db = Db::new();
    let fetched: Vec<Option<String>> = Vec::new();
    let res = check_for_updates(&mut db, &fetched, None, UpdateCheckType::Timed, 2000).unwrap();
    assert_eq!(0, res.len());
    let latest = db.get_latest_update_check_from_history().unwrap();
    assert_eq!(0, latest.updates_available);
    assert_eq!("", latest.programs);
}
