//! Laws of the configuration.

use crate::base64;
use crate::config;
use crate::config::alert;
use crate::config::alert::AlertSpec;
use crate::config::args;
use crate::config::args::Settings;
use crate::config::paths;
use crate::config::paths::StatePlaces;
use crate::config::{Config, Readings};
use crate::laws;
use crate::text;
use vstd::prelude::*;
use vstd::utf8::*;

verus! {

// ---------------------------------------------------------------------------------------------
// Numbers
// ---------------------------------------------------------------------------------------------

/// The text is a run of decimal digits.
pub open spec fn is_decimal(s: Seq<char>) -> bool {
    s.len() > 0 && forall|k: int| 0 <= k < s.len() ==> '0' <= #[trigger] s[k] <= '9'
}

/// The number that a run of decimal digits denotes.
pub open spec fn decimal_value(s: Seq<char>) -> nat
    decreases s.len(),
{
    if s.len() == 0 {
        0
    } else {
        decimal_value(s.drop_last()) * 10 + (s.last() as nat - '0' as nat) as nat
    }
}

/// The text denotes `n`: a run of decimal digits, with or without a plus before it.
pub open spec fn denotes(s: Seq<char>, n: nat) -> bool {
    ||| is_decimal(s) && decimal_value(s) == n
    ||| s.len() > 0 && s[0] == '+' && is_decimal(s.skip(1)) && decimal_value(s.skip(1)) == n
}

proof fn lemma_decimal_value(s: Seq<char>)
    requires
        forall|k: int| 0 <= k < s.len() ==> '0' <= #[trigger] s[k] <= '9',
    ensures
        text::digits_value(s, 10) == decimal_value(s),
        text::all_digits(s, 10),
    decreases s.len(),
{
    assert forall|k: int| 0 <= k < s.len() implies text::digit(#[trigger] s[k], 10) is Some by {
        assert('0' <= s[k] <= '9');
    }
    if s.len() > 0 {
        let less = s.drop_last();
        assert forall|k: int| 0 <= k < less.len() implies '0' <= #[trigger] less[k] <= '9' by {
            assert(less[k] == s[k]);
        }
        lemma_decimal_value(less);
        assert('0' <= s[s.len() - 1] <= '9');
    }
}

proof fn lemma_denotes(s: Seq<char>, max: nat, n: nat)
    ensures
        text::number(s, 10, max) == Some(n) <==> denotes(s, n) && n <= max,
{
    let d = text::unsigned_part(s);
    if s.len() > 0 && s[0] == '+' {
        assert(d =~= s.skip(1));
        assert(!is_decimal(s));
    }
    if is_decimal(d) {
        lemma_decimal_value(d);
    } else if d.len() > 0 {
        let k = choose|k: int| 0 <= k < d.len() && !('0' <= #[trigger] d[k] <= '9');
        assert(text::digit(d[k], 10) is None);
        assert(!text::all_digits(d, 10));
    }
}

// ---------------------------------------------------------------------------------------------
// Settings
// ---------------------------------------------------------------------------------------------

/// The reading of the threshold of rule `i`.
pub open spec fn reading(readings: Readings, i: int) -> Option<u64> {
    if i < readings.thresholds@.len() {
        readings.thresholds@[i]
    } else {
        None
    }
}

/// The interval is a double from 0.5 to 3600.
pub open spec fn good_interval(r: Option<u64>) -> bool {
    r matches Some(b) && 0x3fe0_0000_0000_0000 <= b <= 0x40ac_2000_0000_0000
}

/// The text denotes a number from `low` to `high`.
pub open spec fn within(s: Seq<char>, low: nat, high: nat) -> bool {
    exists|n: nat| low <= n <= high && #[trigger] denotes(s, n)
}

/// The credentials are a name and a password.
pub open spec fn good_credentials(c: Option<String>) -> bool {
    c matches Some(x) ==> x@.contains(':')
}

/// The settings other than the alert rules can be used.
pub open spec fn good_settings(s: Settings, readings: Readings) -> bool {
    &&& readings.bind
    &&& good_interval(readings.interval)
    &&& within(s.top@, 0, 10000)
    &&& good_credentials(s.auth)
    &&& within(s.history@, 60, 86400)
}

/// The answers are what each rule is answered alone.
pub open spec fn rules_alone(
    s: Settings,
    readings: Readings,
    rules: Seq<&str>,
    answers: Seq<Result<AlertSpec, String>>,
) -> bool {
    &&& rules.len() == s.alerts@.len()
    &&& answers.len() == s.alerts@.len()
    &&& forall|i: int|
        0 <= i < answers.len() ==> {
            &&& rules[i]@ == s.alerts@[i]@
            &&& call_ensures(
                alert::parse_alert,
                (rules[i], reading(readings, i)),
                #[trigger] answers[i],
            )
        }
}

/// The two rules are the same.
pub open spec fn same_rule(a: AlertSpec, b: AlertSpec) -> bool {
    &&& a.metric@ == b.metric@
    &&& laws::same(a.target, b.target)
    &&& a.threshold == b.threshold
}

proof fn lemma_within(s: Seq<char>, max: nat, low: nat, high: nat)
    requires
        high <= max,
    ensures
        within(s, low, high) <==> (text::number(s, 10, max) matches Some(n) && low <= n <= high),
{
    if within(s, low, high) {
        let n = choose|n: nat| low <= n <= high && #[trigger] denotes(s, n);
        lemma_denotes(s, max, n);
    }
    if text::number(s, 10, max) is Some {
        let n = text::number(s, 10, max)->0;
        lemma_denotes(s, max, n);
    }
}

proof fn lemma_rules(
    s: Settings,
    readings: Readings,
    rules: Seq<&str>,
    answers: Seq<Result<AlertSpec, String>>,
    n: int,
)
    requires
        rules_alone(s, readings, rules, answers),
        0 <= n <= answers.len(),
    ensures
        config::alert_list(s@, readings, n) is Ok <==> forall|i: int|
            0 <= i < n ==> #[trigger] answers[i] is Ok,
        config::alert_list(s@, readings, n) matches Ok(list) ==> {
            &&& list.len() == n
            &&& forall|i: int| 0 <= i < n ==> #[trigger] list[i] == (answers[i]->Ok_0)@
        },
        forall|i: int|
            0 <= i < n && #[trigger] answers[i] is Err && (forall|j: int|
                0 <= j < i ==> #[trigger] answers[j] is Ok) ==> config::alert_list(s@, readings, n)
                == Err::<Seq<alert::AlertView>, Seq<char>>((answers[i]->Err_0)@),
    decreases n,
{
    if n > 0 {
        lemma_rules(s, readings, rules, answers, n - 1);
        let last = answers[n - 1];
        assert(s@.alerts[n - 1] == s.alerts@[n - 1]@);
        assert(config::threshold(readings, n - 1) == reading(readings, n - 1));
        assert(call_ensures(alert::parse_alert, (rules[n - 1], reading(readings, n - 1)), last));
        let before = config::alert_list(s@, readings, n - 1);
        let now = config::alert_list(s@, readings, n);
        if before is Ok {
            if last is Ok {
                let list = now->Ok_0;
                assert(list == (before->Ok_0).push((last->Ok_0)@));
                assert forall|i: int| 0 <= i < n implies #[trigger] list[i]
                    == (answers[i]->Ok_0)@ by {
                    if i < n - 1 {
                        assert(list[i] == (before->Ok_0)[i]);
                    }
                }
            }
        } else {
            let i = choose|i: int| 0 <= i < n - 1 && !(#[trigger] answers[i] is Ok);
            assert(!(answers[i] is Ok));
        }
        assert forall|i: int|
            0 <= i < n && #[trigger] answers[i] is Err && (forall|j: int|
                0 <= j < i ==> #[trigger] answers[j] is Ok) implies now == Err::<
            Seq<alert::AlertView>,
            Seq<char>,
        >((answers[i]->Err_0)@) by {
            if i == n - 1 {
                assert(before is Ok);
            }
        }
    }
}

/// The settings come to a configuration exactly where each of them can be used: the address is
/// one, the interval lies between half a second and an hour, the process count is at most ten
/// thousand, the credentials hold a colon, the history lies between a minute and a day, and each
/// alert rule is one.
pub proof fn law_good_settings_are_accepted(
    s: Settings,
    places: &StatePlaces,
    readings: &Readings,
    r: Result<Config, String>,
    rules: Seq<&str>,
    answers: Seq<Result<AlertSpec, String>>,
)
    requires
        call_ensures(Config::from_args, (s, places, readings), r),
        rules_alone(s, *readings, rules, answers),
    ensures
        r is Ok <==> good_settings(s, *readings) && forall|i: int|
            0 <= i < answers.len() ==> #[trigger] answers[i] is Ok,
        r is Ok ==> {
            &&& (r->Ok_0).alerts@.len() == answers.len()
            &&& forall|i: int|
                0 <= i < answers.len() ==> same_rule(
                    #[trigger] (r->Ok_0).alerts@[i],
                    answers[i]->Ok_0,
                )
        },
{
    lemma_within(s.top@, 10000, 0, 10000);
    lemma_within(s.history@, u64::MAX as nat, 60, 86400);
    lemma_rules(s, *readings, rules, answers, answers.len() as int);
    if r is Ok {
        let c = r->Ok_0;
        let v = c@;
        assert(v.alerts.len() == c.alerts@.len());
        assert forall|i: int| 0 <= i < answers.len() implies same_rule(
            #[trigger] c.alerts@[i],
            answers[i]->Ok_0,
        ) by {
            assert(v.alerts[i] == c.alerts@[i]@);
            assert(answers[i] is Ok);
            let a = c.alerts@[i]@;
            let b = (answers[i]->Ok_0)@;
            assert(a == b);
        }
    }
}

/// What the settings come to, where they come to a configuration: each as it was given, numbers as
/// the numbers that they denote, credentials as the header value that carries them, and what is
/// empty or out of range as nothing.
pub proof fn law_configuration_is_what_was_asked_for(
    s: Settings,
    places: &StatePlaces,
    readings: &Readings,
    r: Result<Config, String>,
    credentials: &[u8],
    code: String,
    file: Option<String>,
    n: u64,
)
    requires
        call_ensures(Config::from_args, (s, places, readings), r),
        call_ensures(paths::resolve_history_file, (s.history_file, places), file),
        call_ensures(base64::base64_encode, (credentials,), code),
        r is Ok,
    ensures
        ({
            let c = r->Ok_0;
            &&& c.bind@ == s.bind@
            &&& Some(c.interval) == readings.interval
            &&& denotes(s.top@, c.top_n as nat)
            &&& denotes(s.history@, c.history as nat)
            &&& c.docker == s.docker
            &&& c.once == s.once
            &&& laws::same(c.webhook, s.webhook)
            &&& laws::same(c.history_file, file)
            &&& s.container_socket is Some && s.container_socket->0@.len() > 0 ==> laws::same(
                c.container_socket,
                s.container_socket,
            )
            &&& s.container_socket is None || s.container_socket->0@.len() == 0
                ==> c.container_socket is None
            &&& c.auth is Some <==> s.auth is Some
            &&& s.auth is Some && credentials@ == encode_utf8(s.auth->0@) ==> c.auth->0@
                == "Basic "@ + code@
            &&& c.image_gc_interval == Some(n) <==> s.image_gc is Some && denotes(
                s.image_gc->0@,
                n as nat,
            ) && 60 <= n <= 2_592_000
        }),
{
    let c = r->Ok_0;
    let v = c@;
    lemma_denotes(s.top@, 10000, c.top_n as nat);
    lemma_denotes(s.history@, u64::MAX as nat, c.history as nat);
    if s.image_gc is Some {
        lemma_denotes(s.image_gc->0@, u64::MAX as nat, n as nat);
        if c.image_gc_interval is Some {
            lemma_denotes(s.image_gc->0@, u64::MAX as nat, c.image_gc_interval->0 as nat);
        }
    }
}

/// The first setting that cannot be used is told, in this order: the address, the interval, the
/// process count, the credentials, the history, and the alert rules from the first on.
pub proof fn law_first_bad_setting_is_told(
    s: Settings,
    places: &StatePlaces,
    readings: &Readings,
    r: Result<Config, String>,
    rules: Seq<&str>,
    answers: Seq<Result<AlertSpec, String>>,
    i: int,
)
    requires
        call_ensures(Config::from_args, (s, places, readings), r),
        rules_alone(s, *readings, rules, answers),
        r is Err,
    ensures
        ({
            let why = (r->Err_0)@;
            let top = within(s.top@, 0, 10000);
            let interval = good_interval(readings.interval);
            &&& !readings.bind ==> why == "invalid bind address: "@ + s.bind@
            &&& readings.bind && !interval ==> why == "invalid interval (0.5-3600): "@ + s.interval@
            &&& readings.bind && interval && !top ==> why == "invalid top count (0-10000, 0=all): "@
                + s.top@
            &&& readings.bind && interval && top && !good_credentials(s.auth) ==> why
                == "--auth must be in USER:PASS form"@
            &&& readings.bind && interval && top && good_credentials(s.auth) && !within(
                s.history@,
                60,
                86400,
            ) ==> why == "invalid history seconds (60-86400): "@ + s.history@
            &&& good_settings(s, *readings) && 0 <= i < answers.len() && answers[i] is Err && (
            forall|j: int| 0 <= j < i ==> #[trigger] answers[j] is Ok) ==> why
                == (answers[i]->Err_0)@
        }),
{
    lemma_within(s.top@, 10000, 0, 10000);
    lemma_within(s.history@, u64::MAX as nat, 60, 86400);
    lemma_rules(s, *readings, rules, answers, answers.len() as int);
}

/// Credentials are carried as the base64 of their UTF-8 bytes.
pub proof fn law_credentials(creds: &str, r: String, bytes: &[u8], code: String)
    requires
        call_ensures(config::basic_auth_value, (creds,), r),
        call_ensures(base64::base64_encode, (bytes,), code),
        bytes@ == encode_utf8(creds@),
    ensures
        r@ == "Basic "@ + code@,
{
}

/// What a failure prints is the reason, and then the help text.
pub proof fn law_failures(why: &str, r: String)
    requires
        call_ensures(config::failure_text, (why,), r),
    ensures
        r@ == "error: "@ + why@ + "\n\n"@ + config::USAGE@,
{
}

// ---------------------------------------------------------------------------------------------
// The history file
// ---------------------------------------------------------------------------------------------

/// The path of `rel` under a directory, with one separator between them.
pub open spec fn below(dir: Seq<char>, rel: Seq<char>) -> Seq<char> {
    if dir.last() == '/' {
        dir + rel
    } else {
        dir + seq!['/'] + rel
    }
}

/// The variable holds something.
pub open spec fn set(v: Option<String>) -> bool {
    v matches Some(x) && x@.len() > 0
}

/// The history file is the one that was asked for; `none` and an empty path ask for none. Where
/// nothing was asked for, it lies under the first place that is set: the first of the state
/// directories, the state home, the home.
pub proof fn law_history_file(
    arg: Option<String>,
    places: &StatePlaces,
    r: Option<String>,
    first: Seq<char>,
    others: Seq<char>,
)
    requires
        call_ensures(paths::resolve_history_file, (arg, places), r),
        !first.contains(':'),
        places.state_directory matches Some(d) ==> d@ == first || d@ == first + seq![':'] + others,
        places.state_directory is None ==> first.len() == 0,
    ensures
        arg is Some && (arg->0@ == "none"@ || arg->0@.len() == 0) ==> r is None,
        arg is Some && arg->0@ != "none"@ && arg->0@.len() > 0 ==> laws::same(r, arg),
        arg is None && first.len() > 0 ==> r is Some && r->0@ == below(first, "history.json"@),
        arg is None && first.len() == 0 && set(places.state_home) ==> r is Some && r->0@ == below(
            places.state_home->0@,
            "watchlite/history.json"@,
        ),
        arg is None && first.len() == 0 && !set(places.state_home) && set(places.home) ==> r is Some
            && r->0@ == below(places.home->0@, ".local/state/watchlite/history.json"@),
        arg is None && first.len() == 0 && !set(places.state_home) && !set(places.home)
            ==> r is None,
{
    reveal_strlit("/");
    assert("/"@ =~= seq!['/']);
    text::lemma_split_at_first(first, ':', others);
    text::lemma_no_split(first, ':');
    let view = args::opt(r);
}

} // verus!
