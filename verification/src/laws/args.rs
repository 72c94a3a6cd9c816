//! Laws of the command line.

use crate::config::args;
use crate::config::args::{Environment, Request, Settings};
use crate::laws;
use vstd::prelude::*;

verus! {

/// The flags that are followed by a value.
pub open spec fn needs_value(flag: Seq<char>) -> bool {
    ||| flag == "--bind"@
    ||| flag == "--interval"@
    ||| flag == "--top"@
    ||| flag == "--auth"@
    ||| flag == "--history"@
    ||| flag == "--history-file"@
    ||| flag == "--container-socket"@
    ||| flag == "--image-gc"@
    ||| flag == "--alert"@
    ||| flag == "--webhook"@
}

/// The flags that stand alone.
pub open spec fn alone(flag: Seq<char>) -> bool {
    ||| flag == "--no-docker"@
    ||| flag == "--once"@
    ||| flag == "--check-update"@
    ||| flag == "--version"@
    ||| flag == "-V"@
    ||| flag == "--help"@
    ||| flag == "-h"@
}

/// What tells the flags apart.
proof fn lemma_flags_differ()
    ensures
        "--bind"@.len() == 6 && "--bind"@[2] == 'b' && "--bind"@[3] == 'i',
        "--interval"@.len() == 10 && "--interval"@[2] == 'i' && "--interval"@[3] == 'n',
        "--top"@.len() == 5 && "--top"@[2] == 't' && "--top"@[3] == 'o',
        "--auth"@.len() == 6 && "--auth"@[2] == 'a' && "--auth"@[3] == 'u',
        "--history"@.len() == 9 && "--history"@[2] == 'h' && "--history"@[3] == 'i',
        "--history-file"@.len() == 14 && "--history-file"@[2] == 'h' && "--history-file"@[3] == 'i',
        "--container-socket"@.len() == 18 && "--container-socket"@[2] == 'c'
            && "--container-socket"@[3] == 'o',
        "--image-gc"@.len() == 10 && "--image-gc"@[2] == 'i' && "--image-gc"@[3] == 'm',
        "--alert"@.len() == 7 && "--alert"@[2] == 'a' && "--alert"@[3] == 'l',
        "--webhook"@.len() == 9 && "--webhook"@[2] == 'w' && "--webhook"@[3] == 'e',
        "--no-docker"@.len() == 11 && "--no-docker"@[2] == 'n' && "--no-docker"@[3] == 'o',
        "--once"@.len() == 6 && "--once"@[2] == 'o' && "--once"@[3] == 'n',
        "--check-update"@.len() == 14 && "--check-update"@[2] == 'c' && "--check-update"@[3] == 'h',
        "--version"@.len() == 9 && "--version"@[2] == 'v' && "--version"@[3] == 'e',
        "-V"@.len() == 2 && "-V"@[1] == 'V',
        "--help"@.len() == 6 && "--help"@[2] == 'h' && "--help"@[3] == 'e',
        "-h"@.len() == 2 && "-h"@[1] == 'h',
{
    reveal_strlit("--bind");
    reveal_strlit("--interval");
    reveal_strlit("--top");
    reveal_strlit("--auth");
    reveal_strlit("--history");
    reveal_strlit("--history-file");
    reveal_strlit("--container-socket");
    reveal_strlit("--image-gc");
    reveal_strlit("--alert");
    reveal_strlit("--webhook");
    reveal_strlit("--no-docker");
    reveal_strlit("--once");
    reveal_strlit("--check-update");
    reveal_strlit("--version");
    reveal_strlit("-V");
    reveal_strlit("--help");
    reveal_strlit("-h");
}

/// Without arguments the settings are those of the environment, and where it holds none the
/// defaults.
pub proof fn law_environment_is_read(env: &Environment, arguments: &Vec<String>, r: Request)
    requires
        call_ensures(args::read_args, (env, arguments), r),
        arguments@.len() == 0,
    ensures
        r is Run,
        ({
            let s = r->Run_0;
            &&& env.bind is Some ==> s.bind@ == env.bind->0@
            &&& env.bind is None ==> s.bind@ == "127.0.0.1:8077"@
            &&& env.interval is Some ==> s.interval@ == env.interval->0@
            &&& env.interval is None ==> s.interval@ == "2"@
            &&& env.top is Some ==> s.top@ == env.top->0@
            &&& env.top is None ==> s.top@ == "0"@
            &&& env.history is Some ==> s.history@ == env.history->0@
            &&& env.history is None ==> s.history@ == "3600"@
            &&& laws::same(s.auth, env.auth)
            &&& laws::same(s.history_file, env.history_file)
            &&& laws::same(s.container_socket, env.container_socket)
            &&& laws::same(s.image_gc, env.image_gc)
            &&& laws::same(s.webhook, env.webhook)
            &&& s.alerts@.len() == 0
            &&& s.docker
            &&& !s.once
        }),
{
    let s = (r->Run_0)@;
    assert(args::texts(arguments@) =~= Seq::empty());
    assert(r@ is Run);
    assert(s.alerts.len() == 0);
}

/// A flag with its value behind arguments that can be read sets what it names, and nothing else.
/// What it set before, or what the environment says, does not matter; only alerts add up.
pub proof fn law_flag_sets_what_it_names(
    env: &Environment,
    first: &Vec<String>,
    s: Settings,
    more: &Vec<String>,
    r: Request,
    flag: String,
    v: String,
)
    requires
        call_ensures(args::read_args, (env, first), Request::Run(s)),
        call_ensures(args::read_args, (env, more), r),
        more@ == first@.push(flag).push(v),
        needs_value(flag@),
    ensures
        r is Run,
        ({
            let t = r->Run_0;
            &&& flag@ == "--bind"@ ==> t.bind@ == v@
            &&& flag@ != "--bind"@ ==> t.bind@ == s.bind@
            &&& flag@ == "--interval"@ ==> t.interval@ == v@
            &&& flag@ != "--interval"@ ==> t.interval@ == s.interval@
            &&& flag@ == "--top"@ ==> t.top@ == v@
            &&& flag@ != "--top"@ ==> t.top@ == s.top@
            &&& flag@ == "--history"@ ==> t.history@ == v@
            &&& flag@ != "--history"@ ==> t.history@ == s.history@
            &&& flag@ == "--auth"@ ==> t.auth is Some
            &&& flag@ == "--auth"@ ==> t.auth->0@ == v@
            &&& flag@ != "--auth"@ ==> laws::same(t.auth, s.auth)
            &&& flag@ == "--history-file"@ ==> t.history_file is Some
            &&& flag@ == "--history-file"@ ==> t.history_file->0@ == v@
            &&& flag@ != "--history-file"@ ==> laws::same(t.history_file, s.history_file)
            &&& flag@ == "--container-socket"@ ==> t.container_socket is Some
            &&& flag@ == "--container-socket"@ ==> t.container_socket->0@ == v@
            &&& flag@ != "--container-socket"@ ==> laws::same(
                t.container_socket,
                s.container_socket,
            )
            &&& flag@ == "--image-gc"@ ==> t.image_gc is Some
            &&& flag@ == "--image-gc"@ ==> t.image_gc->0@ == v@
            &&& flag@ != "--image-gc"@ ==> laws::same(t.image_gc, s.image_gc)
            &&& flag@ == "--webhook"@ ==> t.webhook is Some
            &&& flag@ == "--webhook"@ ==> t.webhook->0@ == v@
            &&& flag@ != "--webhook"@ ==> laws::same(t.webhook, s.webhook)
            &&& flag@ == "--alert"@ ==> laws::grown_by(t.alerts@, s.alerts@, v@)
            &&& flag@ != "--alert"@ ==> laws::same_texts(t.alerts@, s.alerts@)
            &&& t.docker == s.docker
            &&& t.once == s.once
        }),
{
    lemma_flags_differ();
    let a = args::texts(first@);
    let later = seq![flag@, v@];
    assert(args::texts(more@) =~= a + later);
    args::law_arguments_are_read_in_order(args::settings_of_environment(*env), a, later, s@);
    assert(later.skip(2) =~= Seq::empty());
    let t = args::with_value(s@, flag@, v@);
    assert(args::request(t, later.skip(2)) == args::RequestView::Run(t));
    assert(args::request(s@, later) == args::RequestView::Run(t));
    assert(r@ is Run);
    assert((r->Run_0)@ == t);
    laws::lemma_grown_by((r->Run_0).alerts@, s.alerts@, v@);
    laws::lemma_same_texts((r->Run_0).alerts@, s.alerts@);
}

/// A switch behind arguments that can be read turns what it names, and nothing else.
pub proof fn law_switch_turns_what_it_names(
    env: &Environment,
    first: &Vec<String>,
    s: Settings,
    more: &Vec<String>,
    r: Request,
    flag: String,
)
    requires
        call_ensures(args::read_args, (env, first), Request::Run(s)),
        call_ensures(args::read_args, (env, more), r),
        more@ == first@.push(flag),
        flag@ == "--no-docker"@ || flag@ == "--once"@,
    ensures
        r is Run,
        ({
            let t = r->Run_0;
            &&& t.docker <==> s.docker && flag@ != "--no-docker"@
            &&& t.once <==> s.once || flag@ == "--once"@
            &&& t.bind@ == s.bind@
            &&& t.interval@ == s.interval@
            &&& t.top@ == s.top@
            &&& t.history@ == s.history@
            &&& laws::same(t.auth, s.auth)
            &&& laws::same(t.history_file, s.history_file)
            &&& laws::same(t.container_socket, s.container_socket)
            &&& laws::same(t.image_gc, s.image_gc)
            &&& laws::same(t.webhook, s.webhook)
            &&& laws::same_texts(t.alerts@, s.alerts@)
        }),
{
    lemma_flags_differ();
    let a = args::texts(first@);
    let later = seq![flag@];
    assert(args::texts(more@) =~= a + later);
    args::law_arguments_are_read_in_order(args::settings_of_environment(*env), a, later, s@);
    assert(later.skip(1) =~= Seq::empty());
    let t = if flag@ == "--once"@ {
        args::SettingsView { once: true, ..s@ }
    } else {
        args::SettingsView { docker: false, ..s@ }
    };
    assert(args::request(t, later.skip(1)) == args::RequestView::Run(t));
    assert(args::request(s@, later) == args::RequestView::Run(t));
    assert(r@ is Run);
    assert((r->Run_0)@ == t);
    laws::lemma_same_texts((r->Run_0).alerts@, s.alerts@);
}

/// A flag that ends the reading does so whatever stands behind it: one that asks for something
/// else than to run, one that lacks its value, and one that is not known.
pub proof fn law_flags_that_end_the_reading(
    env: &Environment,
    first: &Vec<String>,
    s: Settings,
    more: &Vec<String>,
    r: Request,
    flag: String,
    rest: Seq<String>,
)
    requires
        call_ensures(args::read_args, (env, first), Request::Run(s)),
        call_ensures(args::read_args, (env, more), r),
        more@ == first@.push(flag) + rest,
    ensures
        flag@ == "--check-update"@ ==> r == Request::CheckUpdate,
        flag@ == "--version"@ || flag@ == "-V"@ ==> r == Request::Version,
        flag@ == "--help"@ || flag@ == "-h"@ ==> r == Request::Help,
        needs_value(flag@) && rest.len() == 0 ==> r is Refused && (r->Refused_0)@ == flag@
            + " requires a value"@,
        !needs_value(flag@) && !alone(flag@) ==> r is Refused && (r->Refused_0)@
            == "unknown flag: "@ + flag@,
{
    lemma_flags_differ();
    let a = args::texts(first@);
    let later = seq![flag@] + args::texts(rest);
    assert(args::texts(more@) =~= a + later);
    args::law_arguments_are_read_in_order(args::settings_of_environment(*env), a, later, s@);
    assert(later[0] == flag@);
    let view = r@;
    assert(view == args::request(s@, later));
}

} // verus!
