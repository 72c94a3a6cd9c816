//! Where the chart history is kept.

use super::args;
use crate::text;
use vstd::prelude::*;

verus! {

/// The path of `rel` under the directory `dir`: one separator between them, none where there is
/// no directory.
pub open spec fn under(dir: Seq<char>, rel: Seq<char>) -> Seq<char> {
    if dir.len() == 0 || dir.last() == '/' {
        dir + rel
    } else {
        dir + "/"@ + rel
    }
}

/// The path of `rel`, which starts with no separator, under the directory `dir`.
pub fn join_path(dir: &str, rel: &str) -> (r: String)
    ensures
        r@ == under(dir@, rel@),
{
    let chars = text::chars_of(dir);
    let n: usize = chars.len();
    let mut out = dir.to_owned();
    if n > 0 && chars[n - 1] != '/' {
        out.append("/");
    }
    out.append(rel);
    out
}

/// The directories that the system offers for the state of a program.
pub struct StatePlaces {
    /// `STATE_DIRECTORY`, a list with `:` between its entries.
    pub state_directory: Option<String>,
    /// `XDG_STATE_HOME`
    pub state_home: Option<String>,
    /// `HOME`
    pub home: Option<String>,
}

/// The history file. An explicit path wins, and `none` or an empty one disables it. Otherwise it
/// lies under the first of these that is there and not empty: the first entry of the state
/// directories, the state home, the home.
pub open spec fn history_file(arg: Option<Seq<char>>, places: StatePlaces) -> Option<Seq<char>> {
    match arg {
        Some(p) => if p == "none"@ || p.len() == 0 {
            None
        } else {
            Some(p)
        },
        None => {
            let dir = args::opt(places.state_directory);
            let state = args::opt(places.state_home);
            let home = args::opt(places.home);
            if dir matches Some(d) && text::before(d, ':').len() > 0 {
                Some(under(text::before(dir->0, ':'), "history.json"@))
            } else if state matches Some(s) && s.len() > 0 {
                Some(under(state->0, "watchlite/history.json"@))
            } else if home matches Some(h) && h.len() > 0 {
                Some(under(home->0, ".local/state/watchlite/history.json"@))
            } else {
                None
            }
        },
    }
}

/// Explicit flag/env wins ("none" disables); otherwise prefer systemd's StateDirectory, then XDG
/// state dir, then ~/.local/state. None when no writable convention applies - persistence is
/// simply skipped.
pub fn resolve_history_file(arg: Option<String>, places: &StatePlaces) -> (r: Option<String>)
    ensures
        args::opt(r) == history_file(args::opt(arg), *places),
{
    if let Some(p) = arg {
        if text::same_text(p.as_str(), "none") || p.as_str().is_empty() {
            return None;
        }
        return Some(p);
    }
    if let Some(d) = &places.state_directory {
        let first = text::text_before(d.as_str(), ':');
        if !first.is_empty() {
            return Some(join_path(first, "history.json"));
        }
    }
    if let Some(d) = &places.state_home {
        if !d.as_str().is_empty() {
            return Some(join_path(d.as_str(), "watchlite/history.json"));
        }
    }
    if let Some(h) = &places.home {
        if !h.as_str().is_empty() {
            return Some(join_path(h.as_str(), ".local/state/watchlite/history.json"));
        }
    }
    None
}

/// An explicit path decides alone: the places that the system offers do not matter.
pub proof fn law_explicit_history_file_wins(arg: Seq<char>, here: StatePlaces, there: StatePlaces)
    ensures
        history_file(Some(arg), here) == history_file(Some(arg), there),
        arg != "none"@ && arg.len() > 0 ==> history_file(Some(arg), here) == Some(arg),
        history_file(Some("none"@), here) is None,
        history_file(Some(Seq::empty()), here) is None,
{
}

} // verus!
