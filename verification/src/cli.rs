//! The command-line surface of the update checker: which command was asked
//! for and with which arguments. Parsing the actual command line into these
//! types is the surrounding application's job.

use vstd::prelude::*;

use crate::config::ConfigFile;

verus! {

/// A parsed invocation: the chosen command, the database arguments and the
/// optional access token for rate-limited providers.
#[derive(Debug, PartialEq)]
pub struct Cli {
    pub command: Command,
    pub db_args: DbArgs,
    pub github_access_token: Option<String>,
}

impl Cli {
    /// Applies the values set in the provided config file.
    ///
    /// If a value is defined in the cli and in the config file, the value
    /// provided by the cli will take precedence.
    pub fn apply_config_file(&mut self, config_file: ConfigFile)
        ensures
            final(self).github_access_token == (
            if old(self).github_access_token is None && config_file.github_access_token is Some {
                config_file.github_access_token
            } else {
                old(self).github_access_token
            }),
            final(self).command == old(self).command,
            final(self).db_args == old(self).db_args,
    {
        if self.github_access_token.is_none() && config_file.github_access_token.is_some() {
            self.github_access_token = config_file.github_access_token;
        }
    }
}

/// The commands the update checker offers.
#[derive(Debug, PartialEq)]
pub enum Command {
    /// Add a program to the database that should be checked for updates.
    AddProgram(AddProgramArgs),
    /// Remove a program from the database that should no longer be checked
    /// for updates.
    RemoveProgram(RemoveProgramArgs),
    /// List all programs that are checked for updates.
    ListPrograms,
    /// Check all programs once for updates.
    Check(CheckArgs),
    /// Update `current_version` of a program to the currently found
    /// `latest_version`.
    Update(UpdateArgs),
    /// Show the history of performed updates.
    UpdateHistory(UpdateHistoryArgs),
    /// Show the history of performed update checks.
    UpdateCheckHistory(UpdateCheckHistoryArgs),
    /// Periodically check all programs for updates.
    RunTimed(RunTimedArgs),
}

#[derive(Debug, PartialEq)]
pub struct AddProgramArgs {
    pub provider: UpdateProviderAdd,
    /// Display name for the program.
    pub name: String,
}

#[derive(Debug, PartialEq)]
pub struct RemoveProgramArgs {
    /// Name of the program that should no longer be checked for updates.
    pub name: String,
}

/// Which provider a newly added program takes its update information from.
#[derive(Debug, PartialEq)]
pub enum UpdateProviderAdd {
    Github(AddGithubProgramArgs),
}

#[derive(Debug, PartialEq)]
pub struct AddGithubProgramArgs {
    /// Github repository where the program can be found and where the
    /// latest version is taken from.
    pub repository: String,
}

/// Options of a one-shot, user-triggered update check.
#[derive(Debug, PartialEq, Eq, Structural, Clone, Copy)]
pub struct CheckArgs {
    /// When set, the newest found version is also adopted as the current
    /// version.
    pub set_current_version: bool,
    /// When unset, an update surfaced by this manual check is marked as
    /// already notified, so the timed mode does not alert again; when set,
    /// the scheduled notification stays eligible.
    pub allow_notification: bool,
}

#[derive(Debug, PartialEq)]
pub struct UpdateArgs {
    /// Name of the program for which the `current_version` should be set to
    /// `latest_version`.
    pub name: String,
}

#[derive(Debug, PartialEq, Eq, Structural, Clone, Copy)]
pub struct UpdateHistoryArgs {
    /// How many entries should be shown at most.
    pub max_entries: u32,
}

#[derive(Debug, PartialEq, Eq, Structural, Clone, Copy)]
pub struct UpdateCheckHistoryArgs {
    /// How many entries should be shown at most.
    pub max_entries: u32,
}

#[derive(Debug, PartialEq)]
pub struct RunTimedArgs {
    /// Topic under which the update notifications should be published.
    pub ntfy_topic: String,
    /// Interval between two update checks, in seconds.
    pub check_interval: u32,
}

#[derive(Debug, PartialEq)]
pub struct DbArgs {
    /// Path of the program database file, when given on the command line.
    pub db_path: Option<String>,
}

} // verus!
