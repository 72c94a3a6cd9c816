//! Where the engine listens.

use crate::config::args;
use crate::config::paths;
use crate::text;
use vstd::prelude::*;

verus! {

/// How an attempt to connect to a socket ended.
#[derive(PartialEq, Eq, Structural, Clone, Copy, Debug)]
pub enum Attempt {
    /// The socket accepted the connection.
    Connected,
    /// The socket is there, but may not be used.
    Denied,
    /// Anything else.
    Failed,
}

/// What the search for the engine's socket found.
#[derive(PartialEq, Eq, Debug)]
pub enum Probe {
    Found(String),
    /// A socket exists but we may not connect - worth telling the user, since its presence proves
    /// an engine is installed.
    PermissionDenied(String),
    NotFound,
}

/// What the search found, as mathematical values.
pub enum ProbeView {
    Found(Seq<char>),
    PermissionDenied(Seq<char>),
    NotFound,
}

impl View for Probe {
    type V = ProbeView;

    open spec fn view(&self) -> ProbeView {
        match self {
            Probe::Found(p) => ProbeView::Found(p@),
            Probe::PermissionDenied(p) => ProbeView::PermissionDenied(p@),
            Probe::NotFound => ProbeView::NotFound,
        }
    }
}

/// The next thing to do in the search.
#[derive(PartialEq, Eq, Debug)]
pub enum Search {
    /// Try to connect to this socket.
    Try(String),
    /// The search is over.
    Done(Probe),
}

/// The next thing to do, as mathematical values.
pub enum SearchView {
    Try(Seq<char>),
    Done(ProbeView),
}

impl View for Search {
    type V = SearchView;

    open spec fn view(&self) -> SearchView {
        match self {
            Search::Try(p) => SearchView::Try(p@),
            Search::Done(p) => SearchView::Done(p@),
        }
    }
}

/// The sockets to try, in order: only the explicit one where there is one; otherwise Docker's,
/// rootful Podman's, and rootless Podman's where the runtime directory is known.
pub open spec fn candidates(
    over: Option<Seq<char>>,
    runtime_dir: Option<Seq<char>>,
) -> Seq<Seq<char>> {
    match over {
        Some(p) => seq![p],
        None => {
            let fixed = seq!["/var/run/docker.sock"@, "/run/podman/podman.sock"@];
            if runtime_dir matches Some(d) && d.len() > 0 {
                fixed.push(paths::under(runtime_dir->0, "podman/podman.sock"@))
            } else {
                fixed
            }
        },
    }
}

/// The sockets to try, in order. `runtime_dir` is `XDG_RUNTIME_DIR`.
pub fn socket_candidates(over: &Option<String>, runtime_dir: &Option<String>) -> (r: Vec<String>)
    ensures
        args::texts(r@) == candidates(args::opt(*over), args::opt(*runtime_dir)),
{
    let mut v: Vec<String> = Vec::new();
    match over {
        Some(p) => {
            v.push(p.clone());
        },
        None => {
            v.push("/var/run/docker.sock".to_owned());
            v.push("/run/podman/podman.sock".to_owned());
            if let Some(dir) = runtime_dir {
                if !dir.as_str().is_empty() {
                    v.push(paths::join_path(dir.as_str(), "podman/podman.sock"));
                }
            }
        },
    }
    assert(args::texts(v@) =~= candidates(args::opt(*over), args::opt(*runtime_dir)));
    v
}

/// What to do after the first sockets were tried: the first that accepts a connection wins; while
/// there is none the next is tried; and in the end a socket that may not be used is worth telling.
pub open spec fn search(sockets: Seq<Seq<char>>, attempts: Seq<Attempt>) -> SearchView {
    match attempts.index_of_first(Attempt::Connected) {
        Some(i) => SearchView::Done(ProbeView::Found(sockets[i])),
        None => if attempts.len() < sockets.len() {
            SearchView::Try(sockets[attempts.len() as int])
        } else {
            match attempts.index_of_last(Attempt::Denied) {
                Some(i) => SearchView::Done(ProbeView::PermissionDenied(sockets[i])),
                None => SearchView::Done(ProbeView::NotFound),
            }
        },
    }
}

/// First socket that accepts a connection wins. `attempts` says how it went with the first of the
/// `sockets`; the result says what to do next.
pub fn resolve_socket(sockets: &Vec<String>, attempts: &Vec<Attempt>) -> (r: Search)
    requires
        attempts@.len() <= sockets@.len(),
    ensures
        r@ == search(args::texts(sockets@), attempts@),
{
    let n: usize = attempts.len();
    let mut denied: Option<usize> = None;
    let mut i: usize = 0;
    while i < n
        invariant
            n == attempts@.len(),
            n <= sockets@.len(),
            i <= n,
            forall|j: int| 0 <= j < i ==> attempts@[j] != Attempt::Connected,
            match denied {
                Some(d) => d < i && attempts@[d as int] == Attempt::Denied && forall|j: int|
                    d < j < i ==> attempts@[j] != Attempt::Denied,
                None => forall|j: int| 0 <= j < i ==> attempts@[j] != Attempt::Denied,
            },
        decreases n - i,
    {
        match attempts[i] {
            Attempt::Connected => {
                proof {
                    text::lemma_index_of_first(attempts@, Attempt::Connected, i as int);
                }
                return Search::Done(Probe::Found(sockets[i].clone()));
            },
            Attempt::Denied => {
                denied = Some(i);
            },
            Attempt::Failed => {},
        }
        i = i + 1;
    }
    proof {
        attempts@.index_of_first_ensures(Attempt::Connected);
        attempts@.index_of_last_ensures(Attempt::Denied);
    }
    if n < sockets.len() {
        return Search::Try(sockets[n].clone());
    }
    match denied {
        Some(d) => {
            proof {
                assert(attempts@.contains(Attempt::Denied));
                let k = attempts@.index_of_last(Attempt::Denied)->0;
                if k < d {
                    assert(attempts@[d as int] != Attempt::Denied);
                }
            }
            Search::Done(Probe::PermissionDenied(sockets[d].clone()))
        },
        None => Search::Done(Probe::NotFound),
    }
}

/// The first socket that accepts a connection is the one found, however it goes with those
/// behind it and with those before it that did not accept.
pub proof fn law_first_accepting_socket_wins(
    sockets: Seq<Seq<char>>,
    attempts: Seq<Attempt>,
    i: int,
)
    requires
        0 <= i < attempts.len() <= sockets.len(),
        attempts[i] == Attempt::Connected,
        forall|j: int| 0 <= j < i ==> attempts[j] != Attempt::Connected,
    ensures
        search(sockets, attempts) == SearchView::Done(ProbeView::Found(sockets[i])),
{
    text::lemma_index_of_first(attempts, Attempt::Connected, i);
}

/// The search ends once every socket was tried, and a socket that was denied is told then, if no
/// other accepted.
pub proof fn law_search_ends(sockets: Seq<Seq<char>>, attempts: Seq<Attempt>)
    requires
        attempts.len() == sockets.len(),
    ensures
        search(sockets, attempts) is Done,
        !attempts.contains(Attempt::Connected) && attempts.contains(Attempt::Denied) ==> search(
            sockets,
            attempts,
        ) matches SearchView::Done(ProbeView::PermissionDenied(_)),
        !attempts.contains(Attempt::Connected) && !attempts.contains(Attempt::Denied) ==> search(
            sockets,
            attempts,
        ) == SearchView::Done(ProbeView::NotFound),
{
    attempts.index_of_first_ensures(Attempt::Connected);
    attempts.index_of_last_ensures(Attempt::Denied);
}

/// An explicit socket is the only one that is tried, wherever the runtime directory is.
pub proof fn law_explicit_socket_skips_probing(p: Seq<char>, runtime_dir: Option<Seq<char>>)
    ensures
        candidates(Some(p), runtime_dir) == seq![p],
        search(candidates(Some(p), runtime_dir), Seq::empty()) == SearchView::Try(p),
{
    Seq::<Attempt>::empty().index_of_first_ensures(Attempt::Connected);
}

} // verus!
