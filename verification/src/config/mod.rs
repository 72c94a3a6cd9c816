//! What the command line and the environment come to.

pub mod alert;
pub mod args;
pub mod paths;

use crate::base64;
use crate::text;
use alert::AlertSpec;
use args::Settings;
use paths::StatePlaces;
use vstd::prelude::*;
use vstd::utf8::*;

verus! {

/// The double 0.5, as its bits.
pub const HALF: u64 = 0x3fe0_0000_0000_0000;

/// The double 3600.0, as its bits.
pub const HOUR: u64 = 0x40ac_2000_0000_0000;

/// The most processes that the list can be capped at.
pub const MAX_TOP: u64 = 10000;

/// The help text.
pub const USAGE: &'static str = "\
watchlite - ultra-lightweight server monitor

USAGE:
    watchlite [OPTIONS]

OPTIONS:
    --bind <ADDR>       Address to listen on (default: 127.0.0.1:8077)
                        Use 0.0.0.0:8077 to allow remote access.
    --interval <SECS>   Sampling interval in seconds (default: 2)
    --top <N>           Cap the process list sent to the UI (0 = all, default)
    --no-docker         Disable the container collector
    --container-socket <P>  Container engine socket. Default: probes
                        /var/run/docker.sock, /run/podman/podman.sock,
                        $XDG_RUNTIME_DIR/podman/podman.sock
    --image-gc <SECS>   Periodically remove Docker images that no container
                        (running or stopped) was ever created from. 0/unset
                        disables (default). Safe: images backing any container
                        are kept; plain DELETE (no force), so in-use images
                        (incl. parent layers of a kept image) are never removed.
    --auth <USER:PASS>  Require HTTP Basic auth
    --history <SECS>    Sample history kept in RAM (default: 3600)
    --history-file <P>  Persist chart history to this file, saved once a
                        minute (pass 'none' to disable). Default:
                        $STATE_DIRECTORY (systemd) or ~/.local/state/watchlite/
    --alert <SPEC>      Alert rule, repeatable. SPEC is metric[:target]>N.
                        metric: cpu, mem, swap, disk (percent) or temp (C).
                        :target scopes disk to a mount or temp to a sensor
                        label substring. Examples: --alert cpu>90
                        --alert 'disk:/data>85'  --alert temp>80
    --webhook <URL>     POST alert events as JSON (uses curl; needed for
                        https). Discord webhook URLs are auto-detected and
                        get a Discord-formatted message.
    --once              Print one JSON snapshot to stdout and exit (for
                        scripts/cron; same shape as /api/stats)
    --check-update      Check GitHub releases for a newer version and exit
                        (0 = up to date, 2 = update available; never runs
                        automatically)
    --version           Print version
    --help              Show this help

ENVIRONMENT (flags take precedence):
    WATCHLITE_BIND, WATCHLITE_INTERVAL, WATCHLITE_TOP, WATCHLITE_AUTH,
    WATCHLITE_HISTORY, WATCHLITE_HISTORY_FILE, WATCHLITE_WEBHOOK,
    WATCHLITE_CONTAINER_SOCKET, WATCHLITE_IMAGE_GC
";

/// What a run of the monitor goes by.
#[derive(Clone, Debug)]
pub struct Config {
    /// The listen address, as it was written.
    pub bind: String,
    /// The sampling interval in seconds, as the bits of a double.
    pub interval: u64,
    pub top_n: usize,
    pub docker: bool,
    /// Precomputed `Basic <base64(user:pass)>` value, if auth is enabled.
    pub auth: Option<String>,
    /// How much sample history to keep in RAM, in seconds.
    pub history: u64,
    /// Where chart history is persisted across restarts; None disables.
    pub history_file: Option<String>,
    /// Explicit container engine socket; None probes Docker/Podman defaults.
    pub container_socket: Option<String>,
    /// Seconds between scheduled orphan-image GC passes; None disables GC.
    pub image_gc_interval: Option<u64>,
    pub alerts: Vec<AlertSpec>,
    pub webhook: Option<String>,
    /// Print one JSON snapshot to stdout and exit instead of serving.
    pub once: bool,
}

/// What a run of the monitor goes by, as mathematical values.
#[verifier::ext_equal]
pub struct ConfigView {
    pub bind: Seq<char>,
    pub interval: u64,
    pub top_n: nat,
    pub docker: bool,
    pub auth: Option<Seq<char>>,
    pub history: nat,
    pub history_file: Option<Seq<char>>,
    pub container_socket: Option<Seq<char>>,
    pub image_gc_interval: Option<nat>,
    pub alerts: Seq<alert::AlertView>,
    pub webhook: Option<Seq<char>>,
    pub once: bool,
}

impl View for Config {
    type V = ConfigView;

    open spec fn view(&self) -> ConfigView {
        ConfigView {
            bind: self.bind@,
            interval: self.interval,
            top_n: self.top_n as nat,
            docker: self.docker,
            auth: args::opt(self.auth),
            history: self.history as nat,
            history_file: args::opt(self.history_file),
            container_socket: args::opt(self.container_socket),
            image_gc_interval: match self.image_gc_interval {
                Some(n) => Some(n as nat),
                None => None,
            },
            alerts: self.alerts@.map_values(|a: AlertSpec| a@),
            webhook: args::opt(self.webhook),
            once: self.once,
        }
    }
}

/// What the system reads in the settings that are addresses or doubles.
pub struct Readings {
    /// The listen address is one.
    pub bind: bool,
    /// The sampling interval, as the bits of the double that its text denotes.
    pub interval: Option<u64>,
    /// The threshold of each alert rule, as the bits of the double that its text denotes.
    pub thresholds: Vec<Option<u64>>,
}

/// The value of the `Authorization` header that carries the credentials.
pub open spec fn basic_auth(creds: Seq<char>) -> Seq<char> {
    "Basic "@ + base64::encoded(encode_utf8(creds))
}

/// An interval between half a second and an hour. Positive doubles are ordered as their bits are.
pub open spec fn interval_ok(reading: Option<u64>) -> bool {
    reading matches Some(b) && HALF <= b <= HOUR
}

/// The seconds of history: from a minute to a day.
pub open spec fn history_secs(s: Seq<char>) -> Option<nat> {
    match text::number(s, 10, u64::MAX as nat) {
        Some(n) => if 60 <= n <= 86400 {
            Some(n)
        } else {
            None
        },
        None => None,
    }
}

/// The seconds between two passes of the image GC: from a minute to thirty days, and none where
/// the setting is missing or says anything else.
pub open spec fn image_gc_secs(s: Option<Seq<char>>) -> Option<nat> {
    match s {
        Some(x) => match text::number(x, 10, u64::MAX as nat) {
            Some(n) => if 60 <= n <= 2_592_000 {
                Some(n)
            } else {
                None
            },
            None => None,
        },
        None => None,
    }
}

/// The reading of the threshold of rule `i`.
pub open spec fn threshold(readings: Readings, i: int) -> Option<u64> {
    if 0 <= i < readings.thresholds@.len() {
        readings.thresholds@[i]
    } else {
        None
    }
}

/// The first `n` rules; or why the first of them that is none is none.
pub open spec fn alert_list(s: args::SettingsView, readings: Readings, n: int) -> Result<
    Seq<alert::AlertView>,
    Seq<char>,
>
    decreases n,
{
    if n <= 0 {
        Ok(Seq::empty())
    } else {
        match alert_list(s, readings, n - 1) {
            Err(why) => Err(why),
            Ok(list) => match alert::alert(s.alerts[n - 1], threshold(readings, n - 1)) {
                Err(why) => Err(why),
                Ok(a) => Ok(list.push(a)),
            },
        }
    }
}

/// What the settings come to; or why they come to nothing. They are checked in this order:
/// address, interval, process count, credentials, history, alert rules.
pub open spec fn configured(
    s: args::SettingsView,
    places: StatePlaces,
    readings: Readings,
) -> Result<ConfigView, Seq<char>> {
    if !readings.bind {
        Err("invalid bind address: "@ + s.bind)
    } else if !interval_ok(readings.interval) {
        Err("invalid interval (0.5-3600): "@ + s.interval)
    } else if text::number(s.top, 10, MAX_TOP as nat) is None {
        Err("invalid top count (0-10000, 0=all): "@ + s.top)
    } else if s.auth matches Some(c) && !c.contains(':') {
        Err("--auth must be in USER:PASS form"@)
    } else if history_secs(s.history) is None {
        Err("invalid history seconds (60-86400): "@ + s.history)
    } else {
        match alert_list(s, readings, s.alerts.len() as int) {
            Err(why) => Err(why),
            Ok(alerts) => Ok(
                ConfigView {
                    bind: s.bind,
                    interval: readings.interval->0,
                    top_n: text::number(s.top, 10, MAX_TOP as nat)->0,
                    docker: s.docker,
                    auth: match s.auth {
                        Some(c) => Some(basic_auth(c)),
                        None => None,
                    },
                    history: history_secs(s.history)->0,
                    history_file: paths::history_file(s.history_file, places),
                    container_socket: if s.container_socket matches Some(p) && p.len() > 0 {
                        s.container_socket
                    } else {
                        None
                    },
                    image_gc_interval: image_gc_secs(s.image_gc),
                    alerts,
                    webhook: s.webhook,
                    once: s.once,
                },
            ),
        }
    }
}

/// The number that decimal text denotes.
fn decimal(s: &str, max: u64) -> (r: Option<u64>)
    ensures
        r is Some <==> text::number(s@, 10, max as nat) is Some,
        r matches Some(n) ==> text::number(s@, 10, max as nat) == Some(n as nat),
{
    let chars = text::chars_of(s);
    text::parse_number(&chars, 10, max)
}

/// The value of the `Authorization` header that carries the credentials.
pub fn basic_auth_value(creds: &str) -> (r: String)
    ensures
        r@ == basic_auth(creds@),
{
    let code = base64::base64_encode(creds.as_bytes());
    text::joined("Basic ", code.as_str())
}

/// What an image GC setting comes to.
fn image_gc_interval(s: &Option<String>) -> (r: Option<u64>)
    ensures
        match r {
            Some(n) => image_gc_secs(args::opt(*s)) == Some(n as nat),
            None => image_gc_secs(args::opt(*s)) is None,
        },
{
    match s {
        Some(x) => match decimal(x.as_str(), u64::MAX) {
            Some(n) if 60 <= n && n <= 2_592_000 => Some(n),
            _ => None,
        },
        None => None,
    }
}

/// The alert rules, with the readings of their thresholds.
fn parse_alerts(s: &Settings, readings: &Readings) -> (r: Result<Vec<AlertSpec>, String>)
    ensures
        r matches Ok(list) ==> alert_list(s@, *readings, s@.alerts.len() as int) == Ok::<
            Seq<alert::AlertView>,
            Seq<char>,
        >(list@.map_values(|a: AlertSpec| a@)),
        r matches Err(why) ==> alert_list(s@, *readings, s@.alerts.len() as int) == Err::<
            Seq<alert::AlertView>,
            Seq<char>,
        >(why@),
{
    let mut list: Vec<AlertSpec> = Vec::new();
    let n: usize = s.alerts.len();
    let mut i: usize = 0;
    assert(list@.map_values(|a: AlertSpec| a@) =~= Seq::empty());
    while i < n
        invariant
            n == s.alerts@.len(),
            n == s@.alerts.len(),
            i <= n,
            alert_list(s@, *readings, i as int) == Ok::<Seq<alert::AlertView>, Seq<char>>(
                list@.map_values(|a: AlertSpec| a@),
            ),
        decreases n - i,
    {
        let reading: Option<u64> = if i < readings.thresholds.len() {
            readings.thresholds[i]
        } else {
            None
        };
        assert(s@.alerts[i as int] == s.alerts@[i as int]@);
        let ghost before = list@;
        match alert::parse_alert(s.alerts[i].as_str(), reading) {
            Ok(a) => {
                list.push(a);
                assert(list@.map_values(|a: AlertSpec| a@) =~= before.map_values(
                    |a: AlertSpec| a@,
                ).push(a@));
            },
            Err(why) => {
                proof {
                    lemma_first_bad_alert(s@, *readings, i + 1, n as int);
                }
                return Err(why);
            },
        }
        i = i + 1;
    }
    Ok(list)
}

/// A rule that is none stays the reason, whatever stands behind it.
proof fn lemma_first_bad_alert(s: args::SettingsView, readings: Readings, i: int, n: int)
    requires
        0 <= i <= n,
        alert_list(s, readings, i) is Err,
    ensures
        alert_list(s, readings, n) == alert_list(s, readings, i),
    decreases n - i,
{
    if i < n {
        lemma_first_bad_alert(s, readings, i + 1, n);
    }
}

impl Config {
    /// What the settings come to, with what the system reads in them; or the reason why they
    /// come to nothing.
    pub fn from_args(settings: Settings, places: &StatePlaces, readings: &Readings) -> (r: Result<
        Config,
        String,
    >)
        ensures
            r matches Ok(c) ==> configured(settings@, *places, *readings) == Ok::<
                ConfigView,
                Seq<char>,
            >(c@),
            r matches Err(why) ==> configured(settings@, *places, *readings) == Err::<
                ConfigView,
                Seq<char>,
            >(why@),
    {
        if !readings.bind {
            return Err(text::joined("invalid bind address: ", settings.bind.as_str()));
        }
        let interval: u64 = match readings.interval {
            Some(b) if HALF <= b && b <= HOUR => b,
            _ => {
                return Err(
                    text::joined("invalid interval (0.5-3600): ", settings.interval.as_str()),
                );
            },
        };
        let top_n: usize = match decimal(settings.top.as_str(), MAX_TOP) {
            Some(n) => n as usize,
            None => {
                return Err(
                    text::joined("invalid top count (0-10000, 0=all): ", settings.top.as_str()),
                );
            },
        };
        let auth: Option<String> = match &settings.auth {
            Some(creds) => {
                if text::split_text(creds.as_str(), ':').is_none() {
                    proof {
                        creds@.index_of_first_ensures(':');
                    }
                    return Err("--auth must be in USER:PASS form".to_owned());
                }
                proof {
                    creds@.index_of_first_ensures(':');
                }
                Some(basic_auth_value(creds.as_str()))
            },
            None => None,
        };
        let history: u64 = match decimal(settings.history.as_str(), u64::MAX) {
            Some(n) if 60 <= n && n <= 86400 => n,
            _ => {
                return Err(
                    text::joined("invalid history seconds (60-86400): ", settings.history.as_str()),
                );
            },
        };
        let alerts = match parse_alerts(&settings, readings) {
            Ok(list) => list,
            Err(why) => {
                return Err(why);
            },
        };
        let image_gc_interval = image_gc_interval(&settings.image_gc);
        let container_socket: Option<String> = match settings.container_socket {
            Some(p) => if p.as_str().is_empty() {
                None
            } else {
                Some(p)
            },
            None => None,
        };
        Ok(
            Config {
                bind: settings.bind,
                interval,
                top_n,
                docker: settings.docker,
                auth,
                history,
                history_file: paths::resolve_history_file(settings.history_file, places),
                container_socket,
                image_gc_interval,
                alerts,
                webhook: settings.webhook,
                once: settings.once,
            },
        )
    }
}

/// What is printed where the command line or the settings come to nothing.
pub fn failure_text(why: &str) -> (r: String)
    ensures
        r@ == "error: "@ + why@ + "\n\n"@ + USAGE@,
{
    let mut out = text::joined("error: ", why);
    out.append("\n\n");
    out.append(USAGE);
    out
}

/// A list of rules holds one for each rule that was given, each of them what that rule says.
proof fn lemma_alert_list(s: args::SettingsView, readings: Readings, n: int)
    requires
        0 <= n <= s.alerts.len(),
    ensures
        alert_list(s, readings, n) matches Ok(list) ==> {
            &&& list.len() == n
            &&& forall|i: int|
                0 <= i < n ==> alert::alert(s.alerts[i], threshold(readings, i)) == Ok::<
                    alert::AlertView,
                    Seq<char>,
                >(#[trigger] list[i])
        },
    decreases n,
{
    if n > 0 {
        lemma_alert_list(s, readings, n - 1);
    }
}

/// Whatever the settings are, a configuration that comes out of them keeps within its limits:
/// the interval between half a second and an hour, at most ten thousand processes, a minute to a
/// day of history, a minute to thirty days between two passes of the image GC, and one sound rule
/// for each alert that was asked for, in order.
pub proof fn law_configuration_keeps_within_limits(
    s: args::SettingsView,
    places: StatePlaces,
    readings: Readings,
)
    ensures
        configured(s, places, readings) matches Ok(c) ==> {
            &&& HALF <= c.interval <= HOUR
            &&& c.top_n <= 10000
            &&& 60 <= c.history <= 86400
            &&& c.image_gc_interval matches Some(n) ==> 60 <= n <= 2_592_000
            &&& c.container_socket matches Some(p) ==> p.len() > 0
            &&& c.alerts.len() == s.alerts.len()
            &&& forall|i: int|
                0 <= i < c.alerts.len() ==> {
                    let a = #[trigger] c.alerts[i];
                    &&& alert::alert(s.alerts[i], threshold(readings, i)) == Ok::<
                        alert::AlertView,
                        Seq<char>,
                    >(a)
                    &&& alert::known_metric(a.metric)
                    &&& a.target matches Some(t) ==> alert::takes_target(a.metric) && t.len() > 0
                    &&& 0 < a.threshold < alert::threshold_limit(a.metric)
                }
        },
{
    lemma_alert_list(s, readings, s.alerts.len() as int);
    if configured(s, places, readings) is Ok {
        let c = configured(s, places, readings)->Ok_0;
        assert forall|i: int| 0 <= i < c.alerts.len() implies {
            let a = #[trigger] c.alerts[i];
            &&& alert::alert(s.alerts[i], threshold(readings, i)) == Ok::<
                alert::AlertView,
                Seq<char>,
            >(a)
            &&& alert::known_metric(a.metric)
            &&& a.target matches Some(t) ==> alert::takes_target(a.metric) && t.len() > 0
            &&& 0 < a.threshold < alert::threshold_limit(a.metric)
        } by {
            alert::law_accepted_alert_is_sound(s.alerts[i], threshold(readings, i));
        }
    }
}

/// Different credentials are carried by different header values.
pub proof fn law_credentials_have_their_own_header(a: Seq<char>, b: Seq<char>)
    requires
        basic_auth(a) == basic_auth(b),
    ensures
        a == b,
{
    let n = "Basic "@.len() as int;
    assert(basic_auth(a).skip(n) =~= base64::encoded(encode_utf8(a)));
    assert(basic_auth(b).skip(n) =~= base64::encoded(encode_utf8(b)));
    base64::law_base64_is_injective(encode_utf8(a), encode_utf8(b));
    text::lemma_bytes_determine_text(a, b);
}

} // verus!
