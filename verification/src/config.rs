//! Configuration values read from the user's configuration file. Locating,
//! reading and deserialising the file is the surrounding application's job;
//! this crate only consumes the resulting plain values.

use vstd::prelude::*;

verus! {

/// The settings stored in the configuration file, together with where the
/// file was found.
#[derive(Debug, PartialEq)]
pub struct Config {
    /// Path where the configuration file was found.
    pub path: String,
    /// Path of the program database file.
    pub db_path: String,
}

/// Optional settings from the configuration file that back up command-line
/// arguments left unset.
#[derive(Debug, PartialEq)]
pub struct ConfigFile {
    pub github_access_token: Option<String>,
}

} // verus!
