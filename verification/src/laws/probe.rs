//! Laws of the search for the engine's socket.

use crate::config::args;
use crate::config::paths;
use crate::engine::probe;
use crate::engine::probe::{Attempt, Probe, Search};
use vstd::prelude::*;

verus! {

/// The sockets that are tried, and their order: the explicit one alone; otherwise those of Docker
/// and of Podman, and the one under the runtime directory where that is known.
pub proof fn law_sockets_to_try(
    over: &Option<String>,
    runtime_dir: &Option<String>,
    r: Vec<String>,
)
    requires
        call_ensures(probe::socket_candidates, (over, runtime_dir), r),
    ensures
        *over is Some ==> r@.len() == 1 && r@[0]@ == (*over)->0@,
        *over is None ==> {
            let rootless = *runtime_dir is Some && (*runtime_dir)->0@.len() > 0;
            &&& r@.len() == if rootless {
                3int
            } else {
                2
            }
            &&& r@[0]@ == "/var/run/docker.sock"@
            &&& r@[1]@ == "/run/podman/podman.sock"@
            &&& rootless && (*runtime_dir)->0@.last() != '/' ==> r@[2]@ == (*runtime_dir)->0@
                + "/podman/podman.sock"@
            &&& rootless && (*runtime_dir)->0@.last() == '/' ==> r@[2]@ == (*runtime_dir)->0@
                + "podman/podman.sock"@
        },
{
    let t = args::texts(r@);
    assert(t.len() == r@.len());
    if r@.len() > 0 {
        assert(t[0] == r@[0]@);
    }
    if r@.len() > 1 {
        assert(t[1] == r@[1]@);
    }
    if r@.len() > 2 {
        assert(t[2] == r@[2]@);
    }
    reveal_strlit("/");
    reveal_strlit("podman/podman.sock");
    reveal_strlit("/podman/podman.sock");
    if *runtime_dir is Some {
        let d = (*runtime_dir)->0@;
        assert(d + "/"@ + "podman/podman.sock"@ =~= d + "/podman/podman.sock"@);
    }
}

/// The first socket that accepts a connection is the one found. While none does, the next one is
/// tried. Once all were tried, the last that may not be used is told, and otherwise that there is
/// none.
pub proof fn law_search(
    sockets: &Vec<String>,
    attempts: &Vec<Attempt>,
    r: Search,
    i: int,
)
    requires
        call_ensures(probe::resolve_socket, (sockets, attempts), r),
        attempts@.len() <= sockets@.len(),
    ensures
        0 <= i < attempts@.len() && attempts@[i] == Attempt::Connected && (forall|j: int|
            0 <= j < i ==> #[trigger] attempts@[j] != Attempt::Connected) ==> {
            &&& r is Done
            &&& r->Done_0 is Found
            &&& (r->Done_0)->Found_0@ == sockets@[i]@
        },
        (forall|j: int|
            0 <= j < attempts@.len() ==> #[trigger] attempts@[j] != Attempt::Connected) ==> {
            &&& attempts@.len() < sockets@.len() ==> r is Try && r->Try_0@
                == sockets@[attempts@.len() as int]@
            &&& attempts@.len() == sockets@.len() && 0 <= i < attempts@.len() && attempts@[i]
                == Attempt::Denied && (forall|j: int|
                i < j < attempts@.len() ==> #[trigger] attempts@[j] != Attempt::Denied) ==> {
                &&& r is Done
                &&& r->Done_0 is PermissionDenied
                &&& (r->Done_0)->PermissionDenied_0@ == sockets@[i]@
            }
            &&& attempts@.len() == sockets@.len() && (forall|j: int|
                0 <= j < attempts@.len() ==> #[trigger] attempts@[j] != Attempt::Denied) ==> r
                == Search::Done(Probe::NotFound)
        },
{
    let a = attempts@;
    let view = r@;
    a.index_of_first_ensures(Attempt::Connected);
    a.index_of_last_ensures(Attempt::Denied);
    let t = args::texts(sockets@);
    assert forall|k: int| 0 <= k < t.len() implies #[trigger] t[k] == sockets@[k]@ by {}
    if view is Done {
        let p = (r->Done_0)@;
    }
    if a.contains(Attempt::Connected) {
        let k = a.index_of_first(Attempt::Connected)->0;
        assert(a[k] == Attempt::Connected);
        if 0 <= i < k {
            assert(a[i] != Attempt::Connected);
        }
    } else if 0 <= i < a.len() && a[i] == Attempt::Connected {
        assert(a.contains(a[i]));
    }
    if a.contains(Attempt::Denied) {
        let k = a.index_of_last(Attempt::Denied)->0;
        assert(a[k] == Attempt::Denied);
        if k < i < a.len() {
            assert(a[i] != Attempt::Denied);
        }
    } else if 0 <= i < a.len() && a[i] == Attempt::Denied {
        assert(a.contains(a[i]));
    }
}

/// The search can be asked as long as no more sockets were tried than there are.
pub proof fn law_search_can_go_on(sockets: &Vec<String>, attempts: &Vec<Attempt>)
    requires
        attempts@.len() <= sockets@.len(),
    ensures
        call_requires(probe::resolve_socket, (sockets, attempts)),
{
}

/// A path under a directory has one separator between the two.
pub proof fn law_paths_are_joined(dir: &str, rel: &str, r: String)
    requires
        call_ensures(paths::join_path, (dir, rel), r),
    ensures
        dir@.len() == 0 || dir@.last() == '/' ==> r@ == dir@ + rel@,
        dir@.len() > 0 && dir@.last() != '/' ==> r@ == dir@ + seq!['/'] + rel@,
{
    reveal_strlit("/");
    assert("/"@ =~= seq!['/']);
}

} // verus!
