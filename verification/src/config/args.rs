//! The command line, flag by flag.

use crate::text;
use vstd::prelude::*;

verus! {

/// The text of an optional string.
pub open spec fn opt(s: Option<String>) -> Option<Seq<char>> {
    match s {
        Some(x) => Some(x@),
        None => None,
    }
}

/// The texts of a list of strings.
pub open spec fn texts(s: Seq<String>) -> Seq<Seq<char>> {
    s.map_values(|x: String| x@)
}

/// What the environment holds for the monitor, variable by variable.
#[derive(Debug)]
pub struct Environment {
    /// `WATCHLITE_BIND`
    pub bind: Option<String>,
    /// `WATCHLITE_INTERVAL`
    pub interval: Option<String>,
    /// `WATCHLITE_TOP`
    pub top: Option<String>,
    /// `WATCHLITE_AUTH`
    pub auth: Option<String>,
    /// `WATCHLITE_HISTORY`
    pub history: Option<String>,
    /// `WATCHLITE_HISTORY_FILE`
    pub history_file: Option<String>,
    /// `WATCHLITE_CONTAINER_SOCKET`
    pub container_socket: Option<String>,
    /// `WATCHLITE_WEBHOOK`
    pub webhook: Option<String>,
    /// `WATCHLITE_IMAGE_GC`
    pub image_gc: Option<String>,
}

/// The settings as text, before any of them is checked.
#[derive(Debug)]
pub struct Settings {
    pub bind: String,
    pub interval: String,
    pub top: String,
    pub auth: Option<String>,
    pub history: String,
    pub history_file: Option<String>,
    pub container_socket: Option<String>,
    pub webhook: Option<String>,
    pub image_gc: Option<String>,
    pub alerts: Vec<String>,
    pub docker: bool,
    pub once: bool,
}

/// The settings as mathematical values.
#[verifier::ext_equal]
pub struct SettingsView {
    pub bind: Seq<char>,
    pub interval: Seq<char>,
    pub top: Seq<char>,
    pub auth: Option<Seq<char>>,
    pub history: Seq<char>,
    pub history_file: Option<Seq<char>>,
    pub container_socket: Option<Seq<char>>,
    pub webhook: Option<Seq<char>>,
    pub image_gc: Option<Seq<char>>,
    pub alerts: Seq<Seq<char>>,
    pub docker: bool,
    pub once: bool,
}

impl View for Settings {
    type V = SettingsView;

    open spec fn view(&self) -> SettingsView {
        SettingsView {
            bind: self.bind@,
            interval: self.interval@,
            top: self.top@,
            auth: opt(self.auth),
            history: self.history@,
            history_file: opt(self.history_file),
            container_socket: opt(self.container_socket),
            webhook: opt(self.webhook),
            image_gc: opt(self.image_gc),
            alerts: texts(self.alerts@),
            docker: self.docker,
            once: self.once,
        }
    }
}

/// What the command line asks for.
#[derive(Debug)]
pub enum Request {
    /// Run, with these settings.
    Run(Settings),
    /// Look for a newer version, and exit.
    CheckUpdate,
    /// Print the version, and exit.
    Version,
    /// Print the help text, and exit.
    Help,
    /// Nothing that can be done; the text says why.
    Refused(String),
}

/// What the command line asks for, as mathematical values.
pub enum RequestView {
    Run(SettingsView),
    CheckUpdate,
    Version,
    Help,
    Refused(Seq<char>),
}

impl View for Request {
    type V = RequestView;

    open spec fn view(&self) -> RequestView {
        match self {
            Request::Run(s) => RequestView::Run(s@),
            Request::CheckUpdate => RequestView::CheckUpdate,
            Request::Version => RequestView::Version,
            Request::Help => RequestView::Help,
            Request::Refused(s) => RequestView::Refused(s@),
        }
    }
}

/// The environment's text where there is one, and otherwise the default.
pub open spec fn or_default(s: Option<String>, default: Seq<char>) -> Seq<char> {
    match s {
        Some(x) => x@,
        None => default,
    }
}

/// The settings before any flag.
pub open spec fn settings_of_environment(env: Environment) -> SettingsView {
    SettingsView {
        bind: or_default(env.bind, "127.0.0.1:8077"@),
        interval: or_default(env.interval, "2"@),
        top: or_default(env.top, "0"@),
        auth: opt(env.auth),
        history: or_default(env.history, "3600"@),
        history_file: opt(env.history_file),
        container_socket: opt(env.container_socket),
        webhook: opt(env.webhook),
        image_gc: opt(env.image_gc),
        alerts: Seq::empty(),
        docker: true,
        once: false,
    }
}

/// The flags that are followed by a value.
pub open spec fn takes_value(flag: Seq<char>) -> bool {
    ||| flag == "--bind"@
    ||| flag == "--interval"@
    ||| flag == "--top"@
    ||| flag == "--auth"@
    ||| flag == "--history"@
    ||| flag == "--history-file"@
    ||| flag == "--container-socket"@
    ||| flag == "--image-gc"@
    ||| flag == "--alert"@
    ||| flag == "--webhook"@
}

/// The settings after a flag with its value. An alert joins those before it; any other value
/// takes the place of the one before it.
pub open spec fn with_value(s: SettingsView, flag: Seq<char>, v: Seq<char>) -> SettingsView {
    if flag == "--bind"@ {
        SettingsView { bind: v, ..s }
    } else if flag == "--interval"@ {
        SettingsView { interval: v, ..s }
    } else if flag == "--top"@ {
        SettingsView { top: v, ..s }
    } else if flag == "--auth"@ {
        SettingsView { auth: Some(v), ..s }
    } else if flag == "--history"@ {
        SettingsView { history: v, ..s }
    } else if flag == "--history-file"@ {
        SettingsView { history_file: Some(v), ..s }
    } else if flag == "--container-socket"@ {
        SettingsView { container_socket: Some(v), ..s }
    } else if flag == "--image-gc"@ {
        SettingsView { image_gc: Some(v), ..s }
    } else if flag == "--alert"@ {
        SettingsView { alerts: s.alerts.push(v), ..s }
    } else if flag == "--webhook"@ {
        SettingsView { webhook: Some(v), ..s }
    } else {
        s
    }
}

/// What the arguments ask for, from the settings so far. They are read from the first on; a flag
/// that asks for something else than to run, or that cannot be read, ends the reading.
pub open spec fn request(s: SettingsView, args: Seq<Seq<char>>) -> RequestView
    decreases args.len(),
{
    if args.len() == 0 {
        RequestView::Run(s)
    } else {
        let flag = args[0];
        if takes_value(flag) {
            if args.len() == 1 {
                RequestView::Refused(flag + " requires a value"@)
            } else {
                request(with_value(s, flag, args[1]), args.skip(2))
            }
        } else if flag == "--no-docker"@ {
            request(SettingsView { docker: false, ..s }, args.skip(1))
        } else if flag == "--once"@ {
            request(SettingsView { once: true, ..s }, args.skip(1))
        } else if flag == "--check-update"@ {
            RequestView::CheckUpdate
        } else if flag == "--version"@ || flag == "-V"@ {
            RequestView::Version
        } else if flag == "--help"@ || flag == "-h"@ {
            RequestView::Help
        } else {
            RequestView::Refused("unknown flag: "@ + flag)
        }
    }
}

/// A copy of an optional string, or of the default.
fn copy_or(s: &Option<String>, default: &str) -> (r: String)
    ensures
        r@ == or_default(*s, default@),
{
    match s {
        Some(x) => x.clone(),
        None => default.to_owned(),
    }
}

/// A copy of an optional string.
pub(crate) fn copy_opt(s: &Option<String>) -> (r: Option<String>)
    ensures
        opt(r) == opt(*s),
{
    match s {
        Some(x) => Some(x.clone()),
        None => None,
    }
}

/// The settings before any flag.
fn start_settings(env: &Environment) -> (r: Settings)
    ensures
        r@ == settings_of_environment(*env),
{
    let r = Settings {
        bind: copy_or(&env.bind, "127.0.0.1:8077"),
        interval: copy_or(&env.interval, "2"),
        top: copy_or(&env.top, "0"),
        auth: copy_opt(&env.auth),
        history: copy_or(&env.history, "3600"),
        history_file: copy_opt(&env.history_file),
        container_socket: copy_opt(&env.container_socket),
        webhook: copy_opt(&env.webhook),
        image_gc: copy_opt(&env.image_gc),
        alerts: Vec::new(),
        docker: true,
        once: false,
    };
    assert(r@.alerts =~= Seq::empty());
    r
}

/// Whether a flag is followed by a value.
fn flag_takes_value(flag: &str) -> (r: bool)
    ensures
        r == takes_value(flag@),
{
    text::same_text(flag, "--bind") || text::same_text(flag, "--interval") || text::same_text(
        flag,
        "--top",
    ) || text::same_text(flag, "--auth") || text::same_text(flag, "--history") || text::same_text(
        flag,
        "--history-file",
    ) || text::same_text(flag, "--container-socket") || text::same_text(flag, "--image-gc")
        || text::same_text(flag, "--alert") || text::same_text(flag, "--webhook")
}

/// Takes a flag with its value into the settings.
fn set_value(s: &mut Settings, flag: &str, v: &String)
    requires
        takes_value(flag@),
    ensures
        final(s)@ == with_value(old(s)@, flag@, v@),
{
    if text::same_text(flag, "--bind") {
        s.bind = v.clone();
    } else if text::same_text(flag, "--interval") {
        s.interval = v.clone();
    } else if text::same_text(flag, "--top") {
        s.top = v.clone();
    } else if text::same_text(flag, "--auth") {
        s.auth = Some(v.clone());
    } else if text::same_text(flag, "--history") {
        s.history = v.clone();
    } else if text::same_text(flag, "--history-file") {
        s.history_file = Some(v.clone());
    } else if text::same_text(flag, "--container-socket") {
        s.container_socket = Some(v.clone());
    } else if text::same_text(flag, "--image-gc") {
        s.image_gc = Some(v.clone());
    } else if text::same_text(flag, "--alert") {
        s.alerts.push(v.clone());
        assert(s@.alerts =~= old(s)@.alerts.push(v@));
    } else {
        s.webhook = Some(v.clone());
    }
}

/// What the command line asks for. Flags take precedence over the environment.
pub fn read_args(env: &Environment, args: &Vec<String>) -> (r: Request)
    ensures
        r@ == request(settings_of_environment(*env), texts(args@)),
{
    let mut s = start_settings(env);
    let n: usize = args.len();
    let mut i: usize = 0;
    let ghost all = texts(args@);
    assert(all.skip(0) =~= all);
    while i < n
        invariant
            n == args@.len(),
            all == texts(args@),
            i <= n,
            request(settings_of_environment(*env), all) == request(s@, all.skip(i as int)),
        decreases n - i,
    {
        let flag = args[i].as_str();
        let ghost rest = all.skip(i as int);
        assert(rest[0] == flag@);
        if flag_takes_value(flag) {
            if n - i == 1 {
                let mut why = flag.to_owned();
                why.append(" requires a value");
                return Request::Refused(why);
            }
            assert(rest[1] == args@[i + 1]@);
            assert(rest.skip(2) =~= all.skip(i + 2));
            set_value(&mut s, flag, &args[i + 1]);
            i = i + 2;
        } else {
            assert(rest.skip(1) =~= all.skip(i + 1));
            if text::same_text(flag, "--no-docker") {
                s.docker = false;
            } else if text::same_text(flag, "--once") {
                s.once = true;
            } else if text::same_text(flag, "--check-update") {
                return Request::CheckUpdate;
            } else if text::same_text(flag, "--version") || text::same_text(flag, "-V") {
                return Request::Version;
            } else if text::same_text(flag, "--help") || text::same_text(flag, "-h") {
                return Request::Help;
            } else {
                let mut why = "unknown flag: ".to_owned();
                why.append(flag);
                return Request::Refused(why);
            }
            i = i + 1;
        }
    }
    assert(all.skip(i as int) =~= Seq::empty());
    Request::Run(s)
}

/// Arguments behind others are read from the settings that those came to.
pub proof fn law_arguments_are_read_in_order(
    s: SettingsView,
    first: Seq<Seq<char>>,
    later: Seq<Seq<char>>,
    t: SettingsView,
)
    requires
        request(s, first) == RequestView::Run(t),
    ensures
        request(s, first + later) == request(t, later),
    decreases first.len(),
{
    if first.len() == 0 {
        assert(first + later =~= later);
    } else {
        let all = first + later;
        let flag = first[0];
        assert(all[0] == flag);
        if takes_value(flag) {
            assert(all[1] == first[1]);
            assert(all.skip(2) =~= first.skip(2) + later);
            law_arguments_are_read_in_order(with_value(s, flag, first[1]), first.skip(2), later, t);
        } else {
            assert(all.skip(1) =~= first.skip(1) + later);
            if flag == "--no-docker"@ {
                law_arguments_are_read_in_order(
                    SettingsView { docker: false, ..s },
                    first.skip(1),
                    later,
                    t,
                );
            } else {
                law_arguments_are_read_in_order(
                    SettingsView { once: true, ..s },
                    first.skip(1),
                    later,
                    t,
                );
            }
        }
    }
}

/// The value that the settings hold for a flag.
pub open spec fn value_of(s: SettingsView, flag: Seq<char>) -> Option<Seq<char>> {
    if flag == "--bind"@ {
        Some(s.bind)
    } else if flag == "--interval"@ {
        Some(s.interval)
    } else if flag == "--top"@ {
        Some(s.top)
    } else if flag == "--auth"@ {
        s.auth
    } else if flag == "--history"@ {
        Some(s.history)
    } else if flag == "--history-file"@ {
        s.history_file
    } else if flag == "--container-socket"@ {
        s.container_socket
    } else if flag == "--image-gc"@ {
        s.image_gc
    } else if flag == "--alert"@ {
        if s.alerts.len() > 0 {
            Some(s.alerts.last())
        } else {
            None
        }
    } else if flag == "--webhook"@ {
        s.webhook
    } else {
        None
    }
}

/// The last value given with a flag stands, whatever the environment and the arguments before it
/// say; and no other setting changes with it.
pub proof fn law_flag_takes_precedence(
    env: Environment,
    first: Seq<Seq<char>>,
    t: SettingsView,
    flag: Seq<char>,
    v: Seq<char>,
)
    requires
        takes_value(flag),
        request(settings_of_environment(env), first) == RequestView::Run(t),
    ensures
        request(settings_of_environment(env), first + seq![flag, v]) == RequestView::Run(
            with_value(t, flag, v),
        ),
        value_of(with_value(t, flag, v), flag) == Some(v),
        forall|other: Seq<char>|
            other != flag ==> #[trigger] value_of(with_value(t, flag, v), other) == value_of(
                t,
                other,
            ),
        with_value(t, flag, v).docker == t.docker,
        with_value(t, flag, v).once == t.once,
{
    let later = seq![flag, v];
    law_arguments_are_read_in_order(settings_of_environment(env), first, later, t);
    assert(later.skip(2) =~= Seq::empty());
    assert(later[0] == flag && later[1] == v);
    let r = with_value(t, flag, v);
    assert(request(r, later.skip(2)) == RequestView::Run(r));
}

/// The arguments give a value with the flag, somewhere in what is read of them.
pub open spec fn gives(args: Seq<Seq<char>>, flag: Seq<char>) -> bool
    decreases args.len(),
{
    if args.len() == 0 {
        false
    } else if takes_value(args[0]) {
        args.len() > 1 && (args[0] == flag || gives(args.skip(2), flag))
    } else {
        (args[0] == "--no-docker"@ || args[0] == "--once"@) && gives(args.skip(1), flag)
    }
}

/// The settings are the same but for the value of the flag.
pub open spec fn same_but_for(s: SettingsView, t: SettingsView, flag: Seq<char>) -> bool {
    forall|v: Seq<char>| #[trigger] with_value(s, flag, v) == with_value(t, flag, v)
}

/// A flag that is given makes its environment variable irrelevant, wherever it stands among the
/// arguments.
pub proof fn law_given_flag_hides_its_variable(
    here: Environment,
    there: Environment,
    args: Seq<Seq<char>>,
    flag: Seq<char>,
)
    requires
        gives(args, flag),
        same_but_for(settings_of_environment(here), settings_of_environment(there), flag),
    ensures
        request(settings_of_environment(here), args) == request(
            settings_of_environment(there),
            args,
        ),
{
    lemma_given_flag_decides(
        settings_of_environment(here),
        settings_of_environment(there),
        args,
        flag,
    );
}

/// What the arguments ask for does not depend on the value so far of a flag that they give.
proof fn lemma_given_flag_decides(
    s: SettingsView,
    t: SettingsView,
    args: Seq<Seq<char>>,
    flag: Seq<char>,
)
    requires
        gives(args, flag),
        same_but_for(s, t, flag),
    ensures
        request(s, args) == request(t, args),
    decreases args.len(),
{
    let first = args[0];
    if takes_value(first) {
        let v = args[1];
        if first == flag {
            assert(with_value(s, flag, v) == with_value(t, flag, v));
        } else {
            let s1 = with_value(s, first, v);
            let t1 = with_value(t, first, v);
            assert forall|w: Seq<char>| #[trigger]
                with_value(s1, flag, w) == with_value(t1, flag, w) by {
                assert(with_value(s, flag, w) == with_value(t, flag, w));
                assert(with_value(s1, flag, w) == with_value(with_value(s, flag, w), first, v));
                assert(with_value(t1, flag, w) == with_value(with_value(t, flag, w), first, v));
            }
            lemma_given_flag_decides(s1, t1, args.skip(2), flag);
        }
    } else {
        let once = first != "--no-docker"@;
        let s1 = if once {
            SettingsView { once: true, ..s }
        } else {
            SettingsView { docker: false, ..s }
        };
        let t1 = if once {
            SettingsView { once: true, ..t }
        } else {
            SettingsView { docker: false, ..t }
        };
        assert forall|w: Seq<char>| #[trigger]
            with_value(s1, flag, w) == with_value(t1, flag, w) by {
            assert(with_value(s, flag, w) == with_value(t, flag, w));
        }
        lemma_given_flag_decides(s1, t1, args.skip(1), flag);
    }
}

} // verus!
