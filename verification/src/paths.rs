//! Where the history file and the user's scripts live.

use vstd::prelude::*;

verus! {

/// A path with one more component: a `/` goes between them unless the base
/// is empty or already ends with one.
pub open spec fn joined(base: Seq<char>, name: Seq<char>) -> Seq<char> {
    if base.len() == 0 || base.last() == '/' {
        base + name
    } else {
        base + "/"@ + name
    }
}

/// Appends a relative component to a path.
pub fn join(base: &str, name: &str) -> (r: String)
    ensures
        r@ == joined(base@, name@),
{
    let n = base.unicode_len();
    if n == 0 || base.get_char(n - 1) == '/' {
        String::from_str(base).concat(name)
    } else {
        String::from_str(base).concat("/").concat(name)
    }
}

/// The history file under a data directory, or under `/tmp` when there is
/// none: `<dir>/shirase/history.json`.
pub open spec fn history_path_text(data_dir: Option<Seq<char>>) -> Seq<char> {
    let base = match data_dir {
        Some(d) => d,
        None => "/tmp"@,
    };
    joined(joined(base, "shirase"@), "history.json"@)
}

/// The scripts directory under a configuration directory, or under
/// `~/.config` when there is none: `<dir>/shirase/scripts`.
pub open spec fn scripts_dir_text(config_dir: Option<Seq<char>>) -> Seq<char> {
    let base = match config_dir {
        Some(d) => d,
        None => "~/.config"@,
    };
    joined(joined(base, "shirase"@), "scripts"@)
}

/// The view of an optional string.
pub open spec fn opt_view(s: Option<String>) -> Option<Seq<char>> {
    match s {
        Some(v) => Some(v@),
        None => None,
    }
}

/// The history file under the given data directory.
pub fn history_path_under(data_dir: Option<String>) -> (r: String)
    ensures
        r@ == history_path_text(opt_view(data_dir)),
{
    let base = match data_dir {
        Some(d) => d,
        None => String::from_str("/tmp"),
    };
    join(join(base.as_str(), "shirase").as_str(), "history.json")
}

/// The scripts directory under the given configuration directory.
pub fn scripts_dir_under(config_dir: Option<String>) -> (r: String)
    ensures
        r@ == scripts_dir_text(opt_view(config_dir)),
{
    let base = match config_dir {
        Some(d) => d,
        None => String::from_str("~/.config"),
    };
    join(join(base.as_str(), "shirase").as_str(), "scripts")
}

/// The user's local data directory.
///
/// Trusted: wraps `dirs::data_local_dir`, converting the path to text
/// (lossily where it is not UTF-8). It reads the environment, so nothing is
/// promised of the result.
#[verifier::external_body]
fn data_local_dir() -> (r: Option<String>) {
    dirs::data_local_dir().map(|p| p.to_string_lossy().into_owned())
}

/// The user's configuration directory.
///
/// Trusted: wraps `dirs::config_dir`, converting the path to text (lossily
/// where it is not UTF-8). It reads the environment, so nothing is promised
/// of the result.
#[verifier::external_body]
fn config_dir() -> (r: Option<String>) {
    dirs::config_dir().map(|p| p.to_string_lossy().into_owned())
}

/// Get the default history file path.
pub fn default_history_path() -> (r: String)
    ensures
        exists|d: Option<Seq<char>>| r@ == history_path_text(d),
{
    let d = data_local_dir();
    let r = history_path_under(d);
    assert(r@ == history_path_text(opt_view(d)));
    r
}

/// Default scripts directory: `~/.config/shirase/scripts/`.
pub fn scripts_dir() -> (r: String)
    ensures
        exists|d: Option<Seq<char>>| r@ == scripts_dir_text(d),
{
    let d = config_dir();
    let r = scripts_dir_under(d);
    assert(r@ == scripts_dir_text(opt_view(d)));
    r
}

} // verus!
