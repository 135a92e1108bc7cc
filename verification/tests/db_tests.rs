use simple_update_checker::db::Db;
use simple_update_checker::{
    Program, Provider, UpdateCheckHistoryEntry, UpdateCheckType, UpdateHistoryEntry,
};

// 2025-03-10 10:50:00 UTC
const TS_MAR_10: i64 = 1741603800;
// 2025-03-12 13:45:00 UTC
const TS_MAR_12: i64 = 1741787100;
// 2025-03-13 13:45:00 UTC
const TS_MAR_13: i64 = 1741873500;
// 2025-03-14 13:45:00 UTC
const TS_MAR_14: i64 = 1741959900;
// 2025-01-01 00:00:00 UTC
const TS_JAN_01: i64 = 1735689600;

fn sample_program() -> Program {
    Program {
        name: "simple_update_checker".to_string(),
        current_version: "0.1.0".to_string(),
        current_version_last_updated: TS_MAR_10,
        latest_version: "0.1.0".to_string(),
        latest_version_last_updated: TS_MAR_12,
        provider: Provider::Github("LMH01/simple_update_checker".to_string()),
        notification_sent: false,
        notification_sent_on: None,
    }
}

fn second_program() -> Program {
    Program {
        name: "test_program".to_string(),
        current_version: "0.1.0".to_string(),
        current_version_last_updated: TS_MAR_10,
        latest_version: "0.1.0".to_string(),
        latest_version_last_updated: TS_MAR_12,
        provider: Provider::Github("LMH01/test_program".to_string()),
        notification_sent: false,
        notification_sent_on: None,
    }
}

#[test]
fn test_db() {
    let mut db = Db::new();
    let program = sample_program();
    let program2 = second_program();
    db.insert_program(&program).unwrap();
    let res = db.get_program(&program.name);
    assert_eq!(Some(program), res);
    let res = db.get_program(&program2.name);
    assert_eq!(None, res);
}

#[test]
fn test_db_remove_program() {
    let mut db = Db::new();
    let program = sample_program();
    db.insert_program(&program).unwrap();
    db.remove_program(&program.name).unwrap();
    let res = db.get_program(&program.name);
    assert_eq!(res, None);
}

#[test]
fn test_db_get_all_programs() {
    let mut db = Db::new();
    let program = sample_program();
    let program2 = second_program();
    db.insert_program(&program).unwrap();
    db.insert_program(&program2).unwrap();
    let mut should = vec![program, program2];
    should.sort_by(|a, b| a.name.cmp(&b.name));
    let mut res = db.get_all_programs();
    res.sort_by(|a, b| a.name.cmp(&b.name));
    assert_eq!(should, res);
}

#[test]
fn test_db_update_latest_version() {
    let mut db = Db::new();
    let mut program = sample_program();
    let new_latest_version_last_updated = TS_JAN_01;
    db.insert_program(&program).unwrap();
    db.update_latest_version(&program.name, "0.2.0", new_latest_version_last_updated);
    let res = db.get_program(&program.name).unwrap();
    program.latest_version = "0.2.0".to_string();
    program.latest_version_last_updated = new_latest_version_last_updated;
    assert_eq!(program, res);
}

#[test]
fn test_db_update_current_version() {
    let mut db = Db::new();
    let mut program = sample_program();
    let new_current_version_last_updated = TS_JAN_01;
    db.insert_program(&program).unwrap();
    db.update_current_version(&program.name, "0.2.0", new_current_version_last_updated);
    let res = db.get_program(&program.name).unwrap();
    program.current_version = "0.2.0".to_string();
    program.current_version_last_updated = new_current_version_last_updated;
    assert_eq!(program, res);
}

#[test]
fn test_db_update_check() {
    let mut db = Db::new();
    let update_check = UpdateCheckHistoryEntry {
        date: TS_MAR_10,
        check_type: UpdateCheckType::Manual,
        updates_available: 0,
        programs: "".to_string(),
    };
    let update_check1 = UpdateCheckHistoryEntry {
        date: TS_MAR_12,
        check_type: UpdateCheckType::Manual,
        updates_available: 2,
        programs: "alpha_tui, simple_update_checker".to_string(),
    };
    db.insert_update_check_history(&update_check);
    db.insert_update_check_history(&update_check1);
    let res = db.get_latest_update_check_from_history();
    assert_eq!(Some(update_check1), res);
}

#[test]
fn test_program_db_update_check_not_existing() {
    let db = Db::new();
    let res = db.get_latest_update_check_from_history();
    assert!(res.is_none())
}

#[test]
fn test_db_get_all_update_checks() {
    let mut db = Db::new();
    let entry = UpdateCheckHistoryEntry {
        date: TS_MAR_12,
        check_type: UpdateCheckType::Manual,
        updates_available: 0,
        programs: "".to_string(),
    };
    let entry2 = UpdateCheckHistoryEntry {
        date: TS_MAR_13,
        check_type: UpdateCheckType::Manual,
        updates_available: 0,
        programs: "".to_string(),
    };
    let entry3 = UpdateCheckHistoryEntry {
        date: TS_MAR_14,
        check_type: UpdateCheckType::Manual,
        updates_available: 0,
        programs: "".to_string(),
    };
    db.insert_update_check_history(&entry);
    db.insert_update_check_history(&entry2);
    db.insert_update_check_history(&entry3);

    let mut res = db.get_all_update_checks(None);
    res.reverse();

    assert_eq!(vec![entry, entry2, entry3], res);
}

#[test]
fn test_db_set_notification_sent() {
    let mut db = Db::new();
    let program = sample_program();
    let program2 = second_program();
    db.insert_program(&program).unwrap();
    db.insert_program(&program2).unwrap();
    db.set_notification_sent("simple_update_checker", true);
    let res = db
        .get_notification_info("simple_update_checker")
        .unwrap()
        .sent;
    assert_eq!(true, res);
    let res = db.get_notification_info("test_program").unwrap().sent;
    assert_eq!(false, res);
}

#[test]
fn test_db_set_notification_sent_on() {
    let mut db = Db::new();
    let program = sample_program();
    let program2 = second_program();
    db.insert_program(&program).unwrap();
    db.insert_program(&program2).unwrap();

    let test_date_time = TS_MAR_10;

    db.set_notification_sent_on("simple_update_checker", Some(test_date_time));
    let res = db
        .get_notification_info("simple_update_checker")
        .unwrap()
        .sent_on;
    assert_eq!(Some(test_date_time), res);

    let res = db.get_notification_info("test_program").unwrap().sent_on;
    assert_eq!(None, res);

    db.set_notification_sent_on("simple_update_checker", None);

    let res = db
        .get_notification_info("simple_update_checker")
        .unwrap()
        .sent_on;
    assert_eq!(None, res);
}

#[test]
fn test_db_get_notification_sent_program_not_existing() {
    let db = Db::new();
    let res = db.get_notification_info("name");
    assert!(res.is_none())
}

#[test]
fn test_db_insert_performed_update() {
    let mut db = Db::new();
    let entry = UpdateHistoryEntry {
        date: TS_MAR_12,
        name: "alpha_tui".to_string(),
        old_version: "1.0.0".to_string(),
        updated_to: "1.1.0".to_string(),
    };
    db.insert_performed_update(&entry);

    let res = db.get_all_updates(None);

    assert_eq!(entry, res[0]);
}

#[test]
fn test_db_get_all_updates() {
    let mut db = Db::new();
    let entry = UpdateHistoryEntry {
        date: TS_MAR_12,
        name: "alpha_tui".to_string(),
        old_version: "1.0.0".to_string(),
        updated_to: "1.1.0".to_string(),
    };
    let entry2 = UpdateHistoryEntry {
        date: TS_MAR_13,
        name: "alpha_tui".to_string(),
        old_version: "1.1.0".to_string(),
        updated_to: "1.2.0".to_string(),
    };
    let entry3 = UpdateHistoryEntry {
        date: TS_MAR_14,
        name: "alpha_tui".to_string(),
        old_version: "1.2.0".to_string(),
        updated_to: "1.3.0".to_string(),
    };
    db.insert_performed_update(&entry);
    db.insert_performed_update(&entry2);
    db.insert_performed_update(&entry3);

    let res = db.get_all_updates(None);

    assert_eq!(vec![entry, entry2, entry3], res);
}

#[test]
fn test_db_get_all_updates_limited_returns() {
    let mut db = Db::new();
    let entry = UpdateHistoryEntry {
        date: TS_MAR_12,
        name: "alpha_tui".to_string(),
        old_version: "1.0.0".to_string(),
        updated_to: "1.1.0".to_string(),
    };
    let entry2 = UpdateHistoryEntry {
        date: TS_MAR_13,
        name: "alpha_tui".to_string(),
        old_version: "1.1.0".to_string(),
        updated_to: "1.2.0".to_string(),
    };
    let entry3 = UpdateHistoryEntry {
        date: TS_MAR_14,
        name: "alpha_tui".to_string(),
        old_version: "1.2.0".to_string(),
        updated_to: "1.3.0".to_string(),
    };
    db.insert_performed_update(&entry);
    db.insert_performed_update(&entry2);
    db.insert_performed_update(&entry3);

    let res = db.get_all_updates(Some(2));

    assert_eq!(vec![entry, entry2], res);
}

#[test]
fn test_db_insert_duplicate_name_refused() {
    let mut db = Db::new();
    let program = sample_program();
    db.insert_program(&program).unwrap();
    let res = db.insert_program(&program);
    assert!(res.is_err());
    assert_eq!(1, db.get_all_programs().len());
}

#[test]
fn test_db_remove_program_not_existing() {
    let mut db = Db::new();
    let res = db.remove_program("missing");
    assert!(res.is_err());
}
