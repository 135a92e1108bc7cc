use vstd::prelude::*;

pub mod actions;
pub mod cli;
pub mod config;
pub mod db;
pub mod notification;
pub mod run_timed;
pub mod sorting;
pub mod text;
pub mod update_check;

verus! {

use crate::cli::DbArgs;
use crate::config::Config;
use vstd::string::StringExecFns;

/// The specification-level images of a list of programs, in the same order.
pub open spec fn program_views(s: Seq<Program>) -> Seq<ProgramView> {
    s.map_values(|p: Program| p@)
}

/// The specification-level images of a list of check-history entries.
pub open spec fn check_history_views(s: Seq<UpdateCheckHistoryEntry>) -> Seq<
    UpdateCheckHistoryEntryView,
> {
    s.map_values(|e: UpdateCheckHistoryEntry| e@)
}

/// The specification-level images of a list of update-history entries.
pub open spec fn update_history_views(s: Seq<UpdateHistoryEntry>) -> Seq<
    UpdateHistoryEntryView,
> {
    s.map_values(|e: UpdateHistoryEntry| e@)
}

/// The specification-level images of a list of strings, in the same order.
pub open spec fn string_views(s: Seq<String>) -> Seq<Seq<char>> {
    s.map_values(|x: String| x@)
}

/// The specification-level image of an optional timestamp.
pub open spec fn timestamp_view(o: Option<Timestamp>) -> Option<int> {
    match o {
        Some(t) => Some(t as int),
        None => None,
    }
}

/// A timestamp, measured in non-leap seconds since the Unix epoch (UTC).
/// All timing decisions of this crate are made relative to values of this
/// type that callers pass in; the crate itself never reads a clock.
pub type Timestamp = i64;

/// Identifies where the latest published version of a program is looked up.
/// The lookup itself is performed by the surrounding application; this crate
/// only records the provider alongside the program.
#[derive(Debug, PartialEq)]
pub enum Provider {
    /// The `String` holds the repository path, for example `LMH01/alpha_tui`.
    Github(String),
}

/// Specification-level image of a [`Provider`].
pub enum ProviderView {
    Github(Seq<char>),
}

impl View for Provider {
    type V = ProviderView;

    open spec fn view(&self) -> ProviderView {
        match self {
            Provider::Github(repository) => ProviderView::Github(repository@),
        }
    }
}

impl Clone for Provider {
    fn clone(&self) -> (r: Self)
        ensures
            r@ == self@,
    {
        match self {
            Provider::Github(repository) => Provider::Github(repository.clone()),
        }
    }
}

/// Returns an identifier for this type.
pub trait Identifier {
    /// The identifier that [`Identifier::identifier`] returns.
    spec fn spec_identifier(&self) -> Seq<char>;

    fn identifier(&self) -> (r: String)
        ensures
            r@ == self.spec_identifier(),
    ;
}

impl Identifier for Provider {
    open spec fn spec_identifier(&self) -> Seq<char> {
        "github"@
    }

    fn identifier(&self) -> (r: String)
        ensures
            r@ == self.spec_identifier(),
    {
        match self {
            Provider::Github(_) => "github".to_owned(),
        }
    }
}

/// One tracked program together with everything the store keeps about it:
/// the version currently in use, the newest version that has been observed,
/// and the state of the notification de-duplication window.
#[derive(Debug, PartialEq)]
pub struct Program {
    pub name: String,
    /// Version that is currently in use.
    pub current_version: String,
    /// Last time `current_version` was updated.
    pub current_version_last_updated: Timestamp,
    /// Newest version that is available.
    pub latest_version: String,
    /// Last time `latest_version` was updated.
    pub latest_version_last_updated: Timestamp,
    pub provider: Provider,
    /// Whether a notification for the currently recorded `latest_version`
    /// has already been sent (or suppressed by a manual check).
    pub notification_sent: bool,
    /// When that notification was sent, if one was sent at all.
    pub notification_sent_on: Option<Timestamp>,
}

/// Specification-level image of a [`Program`].
pub struct ProgramView {
    pub name: Seq<char>,
    pub current_version: Seq<char>,
    pub current_version_last_updated: int,
    pub latest_version: Seq<char>,
    pub latest_version_last_updated: int,
    pub provider: ProviderView,
    pub notification_sent: bool,
    pub notification_sent_on: Option<int>,
}

impl View for Program {
    type V = ProgramView;

    open spec fn view(&self) -> ProgramView {
        ProgramView {
            name: self.name@,
            current_version: self.current_version@,
            current_version_last_updated: self.current_version_last_updated as int,
            latest_version: self.latest_version@,
            latest_version_last_updated: self.latest_version_last_updated as int,
            provider: self.provider@,
            notification_sent: self.notification_sent,
            notification_sent_on: match self.notification_sent_on {
                Some(t) => Some(t as int),
                None => None,
            },
        }
    }
}

impl Clone for Program {
    fn clone(&self) -> (r: Self)
        ensures
            r@ == self@,
    {
        Program {
            name: self.name.clone(),
            current_version: self.current_version.clone(),
            current_version_last_updated: self.current_version_last_updated,
            latest_version: self.latest_version.clone(),
            latest_version_last_updated: self.latest_version_last_updated,
            provider: self.provider.clone(),
            notification_sent: self.notification_sent,
            notification_sent_on: self.notification_sent_on,
        }
    }
}

impl Program {
    /// The record for a program registered right now: the version observed at
    /// registration time is both the current and the latest version, and no
    /// notification is owed for it.
    pub fn init(name: &str, provider: Provider, latest_version: String, now: Timestamp) -> (r: Self)
        ensures
            r@.name == name@,
            r@.current_version == latest_version@,
            r@.current_version_last_updated == now as int,
            r@.latest_version == latest_version@,
            r@.latest_version_last_updated == now as int,
            r@.provider == provider@,
            r@.notification_sent == true,
            r@.notification_sent_on is None,
    {
        Program {
            name: name.to_owned(),
            current_version: latest_version.clone(),
            current_version_last_updated: now,
            latest_version,
            latest_version_last_updated: now,
            provider,
            notification_sent: true,
            notification_sent_on: None,
        }
    }
}

/// Distinguishes user-triggered update checks from those run by the
/// background scheduler.
#[derive(Debug, PartialEq, Eq, Structural, Clone, Copy)]
pub enum UpdateCheckType {
    Manual,
    Timed,
}

impl Identifier for UpdateCheckType {
    open spec fn spec_identifier(&self) -> Seq<char> {
        match self {
            UpdateCheckType::Manual => "manual"@,
            UpdateCheckType::Timed => "timed"@,
        }
    }

    fn identifier(&self) -> (r: String)
        ensures
            r@ == self.spec_identifier(),
    {
        match self {
            UpdateCheckType::Manual => "manual".to_owned(),
            UpdateCheckType::Timed => "timed".to_owned(),
        }
    }
}

impl UpdateCheckType {
    /// Parses the identifier written by [`Identifier::identifier`] back into
    /// the check type; any other string is rejected.
    pub fn from_str(s: &str) -> (r: Option<UpdateCheckType>)
        ensures
            r == Some(UpdateCheckType::Manual) <==> s@ == "manual"@,
            r == Some(UpdateCheckType::Timed) <==> s@ == "timed"@,
            r is None <==> s@ != "manual"@ && s@ != "timed"@,
    {
        proof {
            reveal_strlit("manual");
            reveal_strlit("timed");
            assert("manual"@.len() == 6);
            assert("timed"@.len() == 5);
        }
        let owned = s.to_owned();
        if owned == "manual".to_owned() {
            Some(UpdateCheckType::Manual)
        } else if owned == "timed".to_owned() {
            Some(UpdateCheckType::Timed)
        } else {
            None
        }
    }
}

/// Projection of a program's notification de-duplication state, read before
/// deciding whether the program still owes an outbound notification.
#[derive(Debug, PartialEq, Clone, Copy)]
pub struct NotificationInfo {
    pub sent: bool,
    pub sent_on: Option<Timestamp>,
}

/// Specification-level image of a [`NotificationInfo`].
pub struct NotificationInfoView {
    pub sent: bool,
    pub sent_on: Option<int>,
}

impl View for NotificationInfo {
    type V = NotificationInfoView;

    open spec fn view(&self) -> NotificationInfoView {
        NotificationInfoView {
            sent: self.sent,
            sent_on: match self.sent_on {
                Some(t) => Some(t as int),
                None => None,
            },
        }
    }
}

/// Where the program database file is located.
#[derive(Debug, PartialEq)]
pub struct DbConfig {
    pub db_path: String,
}

impl DbConfig {
    /// The database path that an invocation uses: the command-line argument
    /// when one was given, else the configuration file's setting when the
    /// file was found and parsed, else the default path.
    pub fn try_create(config: Option<Config>, db_args: DbArgs) -> (r: Self)
        ensures
            match db_args.db_path {
                Some(p) => r.db_path == p,
                None => match config {
                    Some(c) => r.db_path == c.db_path,
                    None => r.db_path@ == "programs.db"@,
                },
            },
    {
        match config {
            Some(config) => {
                if db_args.db_path.is_some() {
                    DbConfig::from(db_args)
                } else {
                    DbConfig { db_path: config.db_path }
                }
            },
            None => DbConfig::from(db_args),
        }
    }

    /// The database path named by the command-line arguments, or the
    /// default path when they name none.
    pub fn from(value: DbArgs) -> (r: Self)
        ensures
            match value.db_path {
                Some(p) => r.db_path == p,
                None => r.db_path@ == "programs.db"@,
            },
    {
        if let Some(path) = value.db_path {
            return DbConfig { db_path: path };
        }
        DbConfig::default()
    }
}

impl Default for DbConfig {
    /// The default database file, looked up in the working directory.
    fn default() -> (r: Self)
        ensures
            r.db_path@ == "programs.db"@,
    {
        DbConfig { db_path: "programs.db".to_owned() }
    }
}

/// Immutable record of one full update-check pass.
#[derive(Debug, PartialEq)]
pub struct UpdateCheckHistoryEntry {
    pub date: Timestamp,
    pub check_type: UpdateCheckType,
    /// How many programs had an update visible in this pass.
    pub updates_available: u32,
    /// The names of those programs, joined with `", "` in name order.
    pub programs: String,
}

/// Specification-level image of an [`UpdateCheckHistoryEntry`].
pub struct UpdateCheckHistoryEntryView {
    pub date: int,
    pub check_type: UpdateCheckType,
    pub updates_available: int,
    pub programs: Seq<char>,
}

impl View for UpdateCheckHistoryEntry {
    type V = UpdateCheckHistoryEntryView;

    open spec fn view(&self) -> UpdateCheckHistoryEntryView {
        UpdateCheckHistoryEntryView {
            date: self.date as int,
            check_type: self.check_type,
            updates_available: self.updates_available as int,
            programs: self.programs@,
        }
    }
}

impl UpdateCheckHistoryEntry {
    /// The record of a check pass completed right now: how many programs
    /// had a visible update and, in ascending name order, which ones.
    pub fn from_now(
        check_type: UpdateCheckType,
        programs_with_updates: Vec<Program>,
        now: Timestamp,
    ) -> (r: Self)
        requires
            programs_with_updates@.len() <= u32::MAX,
        ensures
            r@.date == now as int,
            r@.check_type == check_type,
            r@.updates_available == programs_with_updates@.len() as int,
            r@.programs == crate::text::join_with(
                crate::sorting::program_names(
                    crate::sorting::insertion_sort(program_views(programs_with_updates@)),
                ),
                ", "@,
            ),
    {
        proof {
            crate::sorting::lemma_insertion_sort_ensures(program_views(programs_with_updates@));
        }
        let sorted = crate::sorting::sort_programs_by_name(programs_with_updates);
        let updates_available: u32 = sorted.len() as u32;
        let ghost names = crate::sorting::program_names(program_views(sorted@));
        let mut joined = String::new();
        let n = sorted.len();
        let mut i: usize = 0;
        while i < n
            invariant
                i <= n,
                n == sorted@.len(),
                names == crate::sorting::program_names(program_views(sorted@)),
                names.len() == n,
                joined@ == crate::text::join_with(names.take(i as int), ", "@),
            decreases n - i,
        {
            if i > 0 {
                joined.append(", ");
            }
            joined.append(sorted[i].name.as_str());
            proof {
                assert(names[i as int] == sorted@[i as int]@.name);
                assert(names.take(i as int + 1).drop_last() =~= names.take(i as int));
                assert(names.take(i as int + 1).last() == names[i as int]);
                if i == 0 {
                    assert(joined@ =~= names[0]);
                    assert(crate::text::join_with(names.take(1), ", "@) == names.take(1)[0]);
                } else {
                    assert(joined@ =~= crate::text::join_with(names.take(i as int), ", "@)
                        + ", "@ + names[i as int]);
                }
            }
            i += 1;
        }
        proof {
            assert(names.take(n as int) =~= names);
        }
        UpdateCheckHistoryEntry { date: now, check_type, updates_available, programs: joined }
    }
}

impl Clone for UpdateCheckHistoryEntry {
    fn clone(&self) -> (r: Self)
        ensures
            r@ == self@,
    {
        UpdateCheckHistoryEntry {
            date: self.date,
            check_type: self.check_type,
            updates_available: self.updates_available,
            programs: self.programs.clone(),
        }
    }
}

/// Immutable record of one version adoption: the moment `current_version`
/// was explicitly promoted to the recorded `latest_version`.
#[derive(Debug, PartialEq)]
pub struct UpdateHistoryEntry {
    pub date: Timestamp,
    pub name: String,
    pub old_version: String,
    pub updated_to: String,
}

/// Specification-level image of an [`UpdateHistoryEntry`].
pub struct UpdateHistoryEntryView {
    pub date: int,
    pub name: Seq<char>,
    pub old_version: Seq<char>,
    pub updated_to: Seq<char>,
}

impl View for UpdateHistoryEntry {
    type V = UpdateHistoryEntryView;

    open spec fn view(&self) -> UpdateHistoryEntryView {
        UpdateHistoryEntryView {
            date: self.date as int,
            name: self.name@,
            old_version: self.old_version@,
            updated_to: self.updated_to@,
        }
    }
}

impl Clone for UpdateHistoryEntry {
    fn clone(&self) -> (r: Self)
        ensures
            r@ == self@,
    {
        UpdateHistoryEntry {
            date: self.date,
            name: self.name.clone(),
            old_version: self.old_version.clone(),
            updated_to: self.updated_to.clone(),
        }
    }
}

} // verus!
