//! Hazelnut: rule-driven file organisation.

use vstd::prelude::*;
use vstd::string::StringExecFns;
use crate::text::{chars_of, string_of};
use crate::version::{is_newer, strip_leading, strip_leading_chars};

pub mod actions;
pub mod config;
pub mod date;
pub mod event_log;
pub mod glob;
pub mod ipc;
pub mod paths;
pub mod rules;
pub mod text;
pub mod theme;
pub mod tracker;
pub mod ui;
pub mod version;
pub mod watcher;

verus! {

/// The version of the program.
pub const VERSION: &'static str = "0.1.0";

/// How the program was installed, which decides how it is updated.
#[derive(Debug, Clone, Copy, PartialEq, Eq, Structural)]
pub enum PackageManager {
    Cargo,
    Homebrew,
}

impl PackageManager {
    /// The name of the package manager's executable.
    pub fn name(&self) -> (r: &'static str)
        ensures
            r@ == (match *self {
                PackageManager::Cargo => "cargo"@,
                PackageManager::Homebrew => "brew"@,
            }),
    {
        match self {
            PackageManager::Cargo => "cargo",
            PackageManager::Homebrew => "brew",
        }
    }

    /// The command that updates the program.
    pub fn update_command(&self) -> (r: &'static str)
        ensures
            r@ == (match *self {
                PackageManager::Cargo => "cargo install hazelnut"@,
                PackageManager::Homebrew => "brew upgrade hazelnut"@,
            }),
    {
        match self {
            PackageManager::Cargo => "cargo install hazelnut",
            PackageManager::Homebrew => "brew upgrade hazelnut",
        }
    }

    /// The arguments that the package manager takes to update the program.
    pub fn update_args(&self) -> (r: Vec<&'static str>)
        ensures
            r@.len() == 2,
            r@[0]@ == (match *self {
                PackageManager::Cargo => "install"@,
                PackageManager::Homebrew => "upgrade"@,
            }),
            r@[1]@ == "hazelnut"@,
    {
        let mut r: Vec<&'static str> = Vec::new();
        match self {
            PackageManager::Cargo => r.push("install"),
            PackageManager::Homebrew => r.push("upgrade"),
        }
        r.push("hazelnut");
        r
    }

    /// The package manager that installed the program, given whether Homebrew lists the
    /// program among its packages. Without that it was Cargo.
    pub fn detected(listed_by_homebrew: bool) -> (r: PackageManager)
        ensures
            r == (if listed_by_homebrew {
                PackageManager::Homebrew
            } else {
                PackageManager::Cargo
            }),
    {
        if listed_by_homebrew {
            PackageManager::Homebrew
        } else {
            PackageManager::Cargo
        }
    }
}

/// What a look at the latest release gave.
#[derive(Debug, Clone)]
pub enum VersionCheck {
    /// The running version is the latest.
    UpToDate,
    /// A newer version has been released.
    UpdateAvailable { latest: String, current: String },
    /// The latest release could not be learned, for the reason given.
    CheckFailed(String),
}

/// The name of the field of a release record that holds the version's tag.
pub open spec fn tag_field() -> Seq<char> {
    "tag_name"@
}

/// What the tag of the latest release means for a program at version `current`: the tag
/// names the release's version, behind any `v` that leads it.
pub open spec fn verdict_of_tag(tag: Seq<char>, current: Seq<char>, r: VersionCheck) -> bool {
    let latest = strip_leading(tag, 'v');
    if is_newer(latest, current) {
        r matches VersionCheck::UpdateAvailable { latest: l, current: c } && l@ == latest && c@
            == current
    } else {
        r is UpToDate
    }
}

/// Whether `r` is the failure with the message made of `prefix` and `detail`.
pub open spec fn is_failure(r: VersionCheck, prefix: Seq<char>, detail: Seq<char>) -> bool {
    r matches VersionCheck::CheckFailed(m) && m@ == prefix + detail
}

/// What the text field of a release record means for a program at version `current`.
pub open spec fn verdict_of_field(
    field: Result<Option<Seq<char>>, Seq<char>>,
    current: Seq<char>,
    r: VersionCheck,
) -> bool {
    match field {
        Ok(Some(tag)) => verdict_of_tag(tag, current, r),
        Ok(None) => is_failure(r, "Could not parse release info"@, Seq::<char>::empty()),
        Err(e) => is_failure(r, "Failed to parse response: "@, e),
    }
}

/// What a JSON object holds as a text under `key`: the text, nothing where the document is
/// no object, has no such key or holds something else there, or the parser's message
/// where the document is no JSON.
pub uninterp spec fn json_text_field(document: Seq<char>, key: Seq<char>) -> Result<
    Option<Seq<char>>,
    Seq<char>,
>;

/// The view of what `read_text_field` returns.
pub open spec fn field_view(field: Result<Option<String>, String>) -> Result<
    Option<Seq<char>>,
    Seq<char>,
> {
    match field {
        Ok(Some(s)) => Ok(Some(s@)),
        Ok(None) => Ok(None),
        Err(e) => Err(e@),
    }
}

/// Parses `document` with `serde_json::from_str` and reads the text under `key` with
/// `serde_json::Value::get` and `serde_json::Value::as_str`. What comes back depends on
/// the two texts alone: the text found, nothing where there is no text under that key, or
/// the message of the parser's error.
#[verifier::external_body]
fn read_text_field(document: &str, key: &str) -> (r: Result<Option<String>, String>)
    ensures
        field_view(r) == json_text_field(document@, key@),
{
    match serde_json::from_str::<serde_json::Value>(document) {
        Ok(json) => Ok(json.get(key).and_then(|v| v.as_str()).map(|s| s.to_string())),
        Err(e) => Err(e.to_string()),
    }
}

/// Whether `latest` is a newer version than `current`, going by the first three numbers
/// of each.
pub fn version_is_newer(latest: &str, current: &str) -> (newer: bool)
    ensures
        newer == is_newer(latest@, current@),
{
    crate::version::version_is_newer(latest, current)
}

fn failure(prefix: &str, detail: &str) -> (r: VersionCheck)
    ensures
        is_failure(r, prefix@, detail@),
{
    let mut message = String::from_str(prefix);
    message.append(detail);
    VersionCheck::CheckFailed(message)
}

/// Holds the tag of the latest release against the running version.
pub fn check_release_tag(tag: &str, current: &str) -> (r: VersionCheck)
    ensures
        verdict_of_tag(tag@, current@, r),
{
    let latest = string_of(&strip_leading_chars(&chars_of(tag), 'v'));
    if crate::version::version_is_newer(latest.as_str(), current) {
        VersionCheck::UpdateAvailable { latest, current: String::from_str(current) }
    } else {
        VersionCheck::UpToDate
    }
}

/// Holds what was read from a release record against the running version.
pub fn check_release_field(field: &Result<Option<String>, String>, current: &str) -> (r:
    VersionCheck)
    ensures
        verdict_of_field(field_view(*field), current@, r),
{
    match field {
        Ok(Some(tag)) => check_release_tag(tag.as_str(), current),
        Ok(None) => {
            let r = failure("Could not parse release info", "");
            assert("Could not parse release info"@ + ""@ == "Could not parse release info"@
                + Seq::<char>::empty()) by {
                reveal_strlit("");
                assert(""@ == Seq::<char>::empty());
            }
            r
        },
        Err(e) => failure("Failed to parse response: ", e.as_str()),
    }
}

/// Reads the record of the latest release, a JSON document, and holds the version that it
/// names against the running version.
pub fn check_release_body(body: &str, current: &str) -> (r: VersionCheck)
    ensures
        verdict_of_field(json_text_field(body@, tag_field()), current@, r),
{
    let field = read_text_field(body, "tag_name");
    check_release_field(&field, current)
}

/// The failed check that is reported where the latest release could not be fetched.
pub fn network_failure(detail: &str) -> (r: VersionCheck)
    ensures
        is_failure(r, "Network error: "@, detail@),
{
    failure("Network error: ", detail)
}

/// Replaces a leading `~` in a path by the home directory of the user.
pub fn expand_path(path: &str) -> (r: String)
    ensures
        !crate::paths::names_home(path@) ==> r@ == path@,
        exists|home: Option<Seq<char>>| r@ == crate::paths::expand_home(path@, home),
{
    crate::paths::expand_path(path)
}

} // verus!
