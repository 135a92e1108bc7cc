use simple_update_checker::cli::CheckArgs;
use simple_update_checker::db::Db;
use simple_update_checker::notification::{
    build_notification, mark_notified, NotificationError,
};
use simple_update_checker::update_check::check_for_updates;
use simple_update_checker::{Program, Provider, UpdateCheckType};

fn program(name: &str, current: &str, latest: &str, sent: bool) -> Program {
    Program {
        name: name.to_string(),
        current_version: current.to_string(),
        current_version_last_updated: 1000,
        latest_version: latest.to_string(),
        latest_version_last_updated: 1000,
        provider: Provider::Github(format!("LMH01/{name}")),
        notification_sent: sent,
        notification_sent_on: None,
    }
}

#[test]
fn test_build_notification_message() {
    let mut db = Db::new();
    let p = program("alpha_tui", "1.0.0", "1.1.0", false);
    db.insert_program(&p).unwrap();
    let plan = build_notification(&db, &vec![p]).unwrap().unwrap();
    assert_eq!("alpha_tui: 1.0.0 -> 1.1.0\n", plan.message);
    assert_eq!(vec!["alpha_tui".to_string()], plan.program_names);
}

#[test]
fn test_build_notification_excludes_already_sent() {
    let mut db = Db::new();
    let p1 = program("alpha_tui", "1.0.0", "1.1.0", false);
    let p2 = program("beta_tui", "0.4.0", "0.5.0", true);
    db.insert_program(&p1).unwrap();
    db.insert_program(&p2).unwrap();
    let plan = build_notification(&db, &vec![p1, p2]).unwrap().unwrap();
    assert_eq!("alpha_tui: 1.0.0 -> 1.1.0\n", plan.message);
    assert_eq!(vec!["alpha_tui".to_string()], plan.program_names);
}

#[test]
fn test_build_notification_nothing_owed() {
    let mut db = Db::new();
    let p = program("alpha_tui", "1.0.0", "1.1.0", true);
    db.insert_program(&p).unwrap();
    let res = build_notification(&db, &vec![p]).unwrap();
    assert!(res.is_none());
}

#[test]
fn test_build_notification_missing_program() {
    let db = Db::new();
    let p = program("alpha_tui", "1.0.0", "1.1.0", false);
    let res = build_notification(&db, &vec![p]);
    assert_eq!(
        Err(NotificationError::ProgramMissing { program_name: "alpha_tui".to_string() }),
        res
    );
}

#[test]
fn test_mark_notified_sets_flags() {
    let mut db = Db::new();
    db.insert_program(&program("alpha_tui", "1.0.0", "1.1.0", false)).unwrap();
    db.insert_program(&program("beta_tui", "0.4.0", "0.5.0", false)).unwrap();
    mark_notified(&mut db, &vec!["alpha_tui".to_string()], 5000);
    let info = db.get_notification_info("alpha_tui").unwrap();
    assert_eq!(true, info.sent);
    assert_eq!(Some(5000), info.sent_on);
    let info = db.get_notification_info("beta_tui").unwrap();
    assert_eq!(false, info.sent);
    assert_eq!(None, info.sent_on);
}

#[test]
fn test_failed_dispatch_retries_same_set() {
    // When dispatch fails, nothing is marked, so building the plan again
    // from the same input covers the same programs.
    let mut db = Db::new();
    let p1 = program("alpha_tui", "1.0.0", "1.1.0", false);
    let p2 = program("beta_tui", "0.4.0", "0.5.0", true);
    db.insert_program(&p1).unwrap();
    db.insert_program(&p2).unwrap();
    let input = vec![p1, p2];
    let first = build_notification(&db, &input).unwrap().unwrap();
    // Dispatch failed: mark_notified is not called.
    let second = build_notification(&db, &input).unwrap().unwrap();
    assert_eq!(first, second);
}

#[test]
fn test_manual_suppression_keeps_timed_notification_quiet() {
    // A program manually checked without allow_notification stays out of
    // the notification set of a later timed pass with no version change.
    let mut db = Db::new();
    db.insert_program(&program("alpha_tui", "1.0.0", "1.0.0", true)).unwrap();
    let fetched = vec![Some("1.1.0".to_string())];
    let args = Some(CheckArgs { set_current_version: false, allow_notification: false });
    check_for_updates(&mut db, &fetched, args, UpdateCheckType::Manual, 2000).unwrap();
    assert_eq!(true, db.get_program("alpha_tui").unwrap().notification_sent);
    assert_eq!("1.1.0", db.get_program("alpha_tui").unwrap().latest_version);

    let timed = check_for_updates(&mut db, &fetched, None, UpdateCheckType::Timed, 3000).unwrap();
    // Still reported as an update (not yet adopted) ...
    assert_eq!(1, timed.len());
    // ... but not part of any notification plan.
    let res = build_notification(&db, &timed).unwrap();
    assert!(res.is_none());
}
