//! The configuration that the daemon runs on.

use vstd::prelude::*;
use crate::paths::{config_dir, join_chars, join_spec};
use crate::rules::Rule;
use crate::text::{chars_of, string_of};

verus! {

/// The polling interval that is used where none is configured, in seconds.
pub const DEFAULT_POLLING_INTERVAL_SECS: u64 = 5;

/// The number of log entries that are kept where none is configured.
pub const DEFAULT_LOG_RETENTION: usize = 1000;

/// A folder that the daemon scans.
#[derive(Debug, Clone)]
pub struct Watch {
    pub path: String,
    /// Whether the folders below it are scanned too.
    pub recursive: bool,
}

/// The general settings.
#[derive(Debug, Clone, Copy, PartialEq, Eq, Structural)]
pub struct General {
    /// The time between two scans, in seconds.
    pub polling_interval_secs: u64,
    /// How many entries the log keeps.
    pub log_retention: usize,
    pub start_daemon_on_launch: bool,
    pub notifications_enabled: bool,
}

impl Default for General {
    fn default() -> (r: General)
        ensures
            r == (General {
                polling_interval_secs: DEFAULT_POLLING_INTERVAL_SECS,
                log_retention: DEFAULT_LOG_RETENTION,
                start_daemon_on_launch: false,
                notifications_enabled: false,
            }),
    {
        General {
            polling_interval_secs: DEFAULT_POLLING_INTERVAL_SECS,
            log_retention: DEFAULT_LOG_RETENTION,
            start_daemon_on_launch: false,
            notifications_enabled: false,
        }
    }
}

/// A configuration: the settings, the watched folders, and the rules in the order in
/// which they are evaluated. The daemon takes it as a whole and never changes it.
#[derive(Debug, Clone)]
pub struct Config {
    pub general: General,
    pub watches: Vec<Watch>,
    pub rules: Vec<Rule>,
}

/// Where the configuration lies below the directory `dir`.
pub open spec fn config_path_in(dir: Seq<char>) -> Seq<char> {
    join_spec(join_spec(dir, "tidy"@), "config.toml"@)
}

impl Config {
    /// Where the configuration lies below the given directory.
    pub fn path_in(dir: &str) -> (r: String)
        ensures
            r@ == config_path_in(dir@),
    {
        let folder = join_chars(&chars_of(dir), &chars_of("tidy"));
        string_of(&join_chars(&folder, &chars_of("config.toml")))
    }

    /// Where the configuration is looked for where no other place is named: below the
    /// directory in which the user's programs keep their configuration, if the user has
    /// one.
    pub fn default_path() -> (r: Option<String>)
        ensures
            r matches Some(p) ==> exists|dir: Seq<char>| p@ == config_path_in(dir),
    {
        match config_dir() {
            Some(dir) => {
                let p = Self::path_in(dir.as_str());
                assert(p@ == config_path_in(dir@));
                Some(p)
            },
            None => None,
        }
    }
}

} // verus!
