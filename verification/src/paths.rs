//! Paths as texts, with `/` between their parts.

use vstd::prelude::*;
use crate::text::{append_chars, chars_of, skip_chars, string_of};

verus! {

/// Whether the path starts at the root.
pub open spec fn is_absolute(path: Seq<char>) -> bool {
    path.len() > 0 && path[0] == '/'
}

/// The path `rel` taken from `base`: `rel` itself where it is absolute, else `base` and
/// `rel` with one separator between them, none being added where `base` is empty or ends
/// in one.
pub open spec fn join_spec(base: Seq<char>, rel: Seq<char>) -> Seq<char> {
    if is_absolute(rel) {
        rel
    } else if base.len() == 0 || base.last() == '/' {
        base + rel
    } else {
        base + seq!['/'] + rel
    }
}

/// Whether the path is `~` or begins with `~/`, and so stands for a place in the home
/// directory.
pub open spec fn names_home(path: Seq<char>) -> bool {
    (path.len() == 1 && path[0] == '~') || (path.len() >= 2 && path[0] == '~' && path[1] == '/')
}

/// The path with a leading `~` replaced by the home directory, where there is one. A path
/// that does not name the home directory stays as it is, and so does every path where no
/// home directory is known.
pub open spec fn expand_home(path: Seq<char>, home: Option<Seq<char>>) -> Seq<char> {
    match home {
        Some(h) => if path.len() >= 2 && path[0] == '~' && path[1] == '/' {
            join_spec(h, path.skip(2))
        } else if path.len() == 1 && path[0] == '~' {
            h
        } else {
            path
        },
        None => path,
    }
}

/// Asks `dirs::home_dir` for the home directory of the user. The answer depends on the
/// environment of the process, so nothing is claimed of it.
#[verifier::external_body]
fn home_dir() -> Option<String> {
    dirs::home_dir().map(|p| p.to_string_lossy().into_owned())
}

/// Asks `dirs::config_dir` for the directory in which the user's programs keep their
/// configuration. The answer depends on the environment of the process, so nothing is
/// claimed of it.
#[verifier::external_body]
pub(crate) fn config_dir() -> Option<String> {
    dirs::config_dir().map(|p| p.to_string_lossy().into_owned())
}

/// Joins two paths given by their characters.
pub fn join_chars(base: &Vec<char>, rel: &Vec<char>) -> (r: Vec<char>)
    ensures
        r@ == join_spec(base@, rel@),
{
    let mut r: Vec<char> = Vec::new();
    if rel.len() > 0 && rel[0] == '/' {
        append_chars(&mut r, rel);
        assert(r@ == rel@);
        return r;
    }
    append_chars(&mut r, base);
    if base.len() > 0 && base[base.len() - 1] != '/' {
        r.push('/');
    }
    append_chars(&mut r, rel);
    assert(Seq::<char>::empty() + base@ == base@);
    r
}

/// Joins two paths.
pub fn join_paths(base: &str, rel: &str) -> (r: String)
    ensures
        r@ == join_spec(base@, rel@),
{
    string_of(&join_chars(&chars_of(base), &chars_of(rel)))
}

/// Whether the path is `~` or begins with `~/`.
pub fn starts_at_home(path: &str) -> (r: bool)
    ensures
        r == names_home(path@),
{
    let p = chars_of(path);
    (p.len() == 1 && p[0] == '~') || (p.len() >= 2 && p[0] == '~' && p[1] == '/')
}

/// Replaces a leading `~` by the given home directory.
pub fn expand_with_home(path: &str, home: Option<&str>) -> (r: String)
    ensures
        r@ == expand_home(
            path@,
            match home {
                Some(h) => Some(h@),
                None => None,
            },
        ),
{
    let p = chars_of(path);
    match home {
        Some(h) => {
            if p.len() >= 2 && p[0] == '~' && p[1] == '/' {
                let rest = skip_chars(&p, 2);
                string_of(&join_chars(&chars_of(h), &rest))
            } else if p.len() == 1 && p[0] == '~' {
                string_of(&chars_of(h))
            } else {
                string_of(&p)
            }
        },
        None => string_of(&p),
    }
}

/// Replaces a leading `~` by the home directory of the user. Where the user has no home
/// directory, or the path does not name it, the path comes back as it is.
pub fn expand_path(path: &str) -> (r: String)
    ensures
        !names_home(path@) ==> r@ == path@,
        exists|home: Option<Seq<char>>| r@ == expand_home(path@, home),
{
    let home = home_dir();
    let r = match &home {
        Some(h) => expand_with_home(path, Some(h.as_str())),
        None => expand_with_home(path, None),
    };
    proof {
        let witness = match home {
            Some(h) => Some(h@),
            None => None,
        };
        assert(r@ == expand_home(path@, witness));
    }
    r
}

} // verus!
