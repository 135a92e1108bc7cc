use simple_update_checker::cli::{Cli, Command, DbArgs};
use simple_update_checker::config::{Config, ConfigFile};
use simple_update_checker::sorting::sort_programs_by_name;
use simple_update_checker::text::{str_eq, str_lt};
use simple_update_checker::{
    DbConfig, Identifier, Program, Provider, UpdateCheckHistoryEntry, UpdateCheckType,
};

fn program(name: &str) -> Program {
    Program {
        name: name.to_string(),
        current_version: "1.0.0".to_string(),
        current_version_last_updated: 1000,
        latest_version: "1.0.0".to_string(),
        latest_version_last_updated: 1000,
        provider: Provider::Github(format!("LMH01/{name}")),
        notification_sent: false,
        notification_sent_on: None,
    }
}

#[test]
fn test_provider_identifier() {
    let provider = Provider::Github("LMH01/alpha_tui".to_string());
    assert_eq!("github", provider.identifier());
}

#[test]
fn test_update_check_type_identifier() {
    assert_eq!("manual", UpdateCheckType::Manual.identifier());
    assert_eq!("timed", UpdateCheckType::Timed.identifier());
}

#[test]
fn test_update_check_type_from_str() {
    assert_eq!(Some(UpdateCheckType::Manual), UpdateCheckType::from_str("manual"));
    assert_eq!(Some(UpdateCheckType::Timed), UpdateCheckType::from_str("timed"));
    assert_eq!(None, UpdateCheckType::from_str("hourly"));
}

#[test]
fn test_program_init() {
    let p = Program::init(
        "alpha_tui",
        Provider::Github("LMH01/alpha_tui".to_string()),
        "1.8.0".to_string(),
        1234,
    );
    assert_eq!("alpha_tui", p.name);
    assert_eq!("1.8.0", p.current_version);
    assert_eq!("1.8.0", p.latest_version);
    assert_eq!(1234, p.current_version_last_updated);
    assert_eq!(1234, p.latest_version_last_updated);
    assert_eq!(true, p.notification_sent);
    assert_eq!(None, p.notification_sent_on);
}

#[test]
fn test_db_config_prefers_cli_argument() {
    let config = Config { path: "/home/user/config.toml".to_string(), db_path: "/data/programs.db".to_string() };
    let db_args = DbArgs { db_path: Some("/tmp/other.db".to_string()) };
    let r = DbConfig::try_create(Some(config), db_args);
    assert_eq!("/tmp/other.db", r.db_path);
}

#[test]
fn test_db_config_falls_back_to_config_file() {
    let config = Config { path: "/home/user/config.toml".to_string(), db_path: "/data/programs.db".to_string() };
    let r = DbConfig::try_create(Some(config), DbArgs { db_path: None });
    assert_eq!("/data/programs.db", r.db_path);
}

#[test]
fn test_db_config_default_path() {
    let r = DbConfig::try_create(None, DbArgs { db_path: None });
    assert_eq!("programs.db", r.db_path);
    assert_eq!("programs.db", DbConfig::default().db_path);
    assert_eq!("programs.db", DbConfig::from(DbArgs { db_path: None }).db_path);
}

#[test]
fn test_cli_apply_config_file() {
    let mut cli = Cli {
        command: Command::ListPrograms,
        db_args: DbArgs { db_path: None },
        github_access_token: None,
    };
    cli.apply_config_file(ConfigFile { github_access_token: Some("from-config".to_string()) });
    assert_eq!(Some("from-config".to_string()), cli.github_access_token);
}

#[test]
fn test_cli_apply_config_file_keeps_cli_value() {
    let mut cli = Cli {
        command: Command::ListPrograms,
        db_args: DbArgs { db_path: None },
        github_access_token: Some("from-cli".to_string()),
    };
    cli.apply_config_file(ConfigFile { github_access_token: Some("from-config".to_string()) });
    assert_eq!(Some("from-cli".to_string()), cli.github_access_token);
}

#[test]
fn test_sort_programs_by_name() {
    let v = vec![program("zsh_helper"), program("alpha_tui"), program("mango")];
    let sorted = sort_programs_by_name(v);
    let names: Vec<&str> = sorted.iter().map(|p| p.name.as_str()).collect();
    assert_eq!(vec!["alpha_tui", "mango", "zsh_helper"], names);
}

#[test]
fn test_str_order_and_equality() {
    assert!(str_lt("alpha", "beta"));
    assert!(!str_lt("beta", "alpha"));
    assert!(str_lt("alp", "alpha"));
    assert!(!str_lt("alpha", "alpha"));
    assert!(str_eq("alpha", "alpha"));
    assert!(!str_eq("alpha", "alphas"));
}

#[test]
fn test_from_now_sorts_and_joins_names() {
    let entry = UpdateCheckHistoryEntry::from_now(
        UpdateCheckType::Manual,
        vec![program("simple_update_checker"), program("alpha_tui")],
        7777,
    );
    assert_eq!(7777, entry.date);
    assert_eq!(UpdateCheckType::Manual, entry.check_type);
    assert_eq!(2, entry.updates_available);
    assert_eq!("alpha_tui, simple_update_checker", entry.programs);
}

#[test]
fn test_from_now_empty() {
    let entry = UpdateCheckHistoryEntry::from_now(UpdateCheckType::Timed, Vec::new(), 7777);
    assert_eq!(0, entry.updates_available);
    assert_eq!("", entry.programs);
}
