//! Laws of alert rules.

use crate::config::alert;
use crate::config::alert::AlertSpec;
use crate::config::args;
use crate::text;
use vstd::prelude::*;

verus! {

/// The part of a rule before its `>`.
pub open spec fn subject(metric: Seq<char>, target: Option<Seq<char>>) -> Seq<char> {
    match target {
        Some(t) => metric + seq![':'] + t,
        None => metric,
    }
}

/// The bits of 200.0 for a temperature, and of 100.0 for a percentage.
pub open spec fn limit(metric: Seq<char>) -> u64 {
    if metric == "temp"@ {
        0x4069_0000_0000_0000
    } else {
        0x4059_0000_0000_0000
    }
}

proof fn lemma_subject(metric: Seq<char>, target: Option<Seq<char>>, threshold: Seq<char>)
    requires
        !metric.contains(':'),
        !metric.contains('>'),
        target matches Some(t) ==> !t.contains('>'),
    ensures
        text::split_at_first(subject(metric, target) + seq!['>'] + threshold, '>') == Some(
            (subject(metric, target), threshold),
        ),
        alert::metric_and_target(subject(metric, target)) == (metric, target),
{
    let lhs = subject(metric, target);
    assert(!lhs.contains('>')) by {
        if lhs.contains('>') && target is Some {
            let t = target->0;
            let i = choose|i: int| 0 <= i < lhs.len() && lhs[i] == '>';
            if i < metric.len() {
                assert(metric[i] == '>');
            } else if i > metric.len() {
                assert(t[i - metric.len() - 1] == '>');
            }
        }
    }
    text::lemma_split_at_first(lhs, '>', threshold);
    match target {
        Some(t) => {
            text::lemma_split_at_first(metric, ':', t);
        },
        None => {
            text::lemma_no_split(metric, ':');
        },
    }
}

proof fn lemma_names()
    ensures
        forall|m: Seq<char>|
            #![trigger m.contains(':')]
            m == "cpu"@ || m == "mem"@ || m == "swap"@ || m == "disk"@ || m == "temp"@
                ==> !m.contains(':') && !m.contains('>'),
        "cpu"@ != "disk"@ && "cpu"@ != "temp"@ && "mem"@ != "disk"@ && "mem"@ != "temp"@,
        "swap"@ != "disk"@ && "swap"@ != "temp"@ && "disk"@ != "temp"@,
{
    reveal_strlit("cpu");
    reveal_strlit("mem");
    reveal_strlit("swap");
    reveal_strlit("disk");
    reveal_strlit("temp");
    assert("swap"@[0] == 's' && "disk"@[0] == 'd' && "temp"@[0] == 't');
    assert("cpu"@.len() == 3 && "mem"@.len() == 3 && "disk"@.len() == 4);
}

/// A rule on any of the five metrics, over the whole or, for disks and temperatures, over a target,
/// with any threshold above zero and below the limit, is accepted and says what was written.
pub proof fn law_rules_are_accepted(
    spec: &str,
    bits: u64,
    r: Result<AlertSpec, String>,
    metric: Seq<char>,
    target: Option<Seq<char>>,
    threshold: Seq<char>,
)
    requires
        call_ensures(alert::parse_alert, (spec, Some(bits)), r),
        spec@ == subject(metric, target) + seq!['>'] + threshold,
        metric == "cpu"@ || metric == "mem"@ || metric == "swap"@ || metric == "disk"@ || metric
            == "temp"@,
        target matches Some(t) ==> (metric == "disk"@ || metric == "temp"@) && t.len() > 0
            && !t.contains('>'),
        0 < bits < limit(metric),
    ensures
        r is Ok,
        (r->Ok_0).metric@ == metric,
        (r->Ok_0).threshold == bits,
        (r->Ok_0).target is Some <==> target is Some,
        target is Some ==> (r->Ok_0).target->0@ == target->0,
{
    lemma_names();
    assert(!metric.contains(':'));
    lemma_subject(metric, target, threshold);
    let a = (r->Ok_0)@;
}

/// A rule without a `>` is none.
pub proof fn law_rule_needs_its_mark(
    spec: &str,
    reading: Option<u64>,
    r: Result<AlertSpec, String>,
)
    requires
        call_ensures(alert::parse_alert, (spec, reading), r),
        !spec@.contains('>'),
    ensures
        r is Err,
        (r->Err_0)@ == "invalid alert spec (want metric>threshold): "@ + spec@,
{
    text::lemma_no_split(spec@, '>');
}

/// What is wrong with a rule is told, one thing after the other: a metric that is none of the
/// five, a target where the metric takes none, a target that is empty, and a threshold that is no
/// number between zero and the limit.
pub proof fn law_rules_are_refused(
    spec: &str,
    reading: Option<u64>,
    r: Result<AlertSpec, String>,
    metric: Seq<char>,
    target: Option<Seq<char>>,
    threshold: Seq<char>,
)
    requires
        call_ensures(alert::parse_alert, (spec, reading), r),
        spec@ == subject(metric, target) + seq!['>'] + threshold,
        !metric.contains(':'),
        !metric.contains('>'),
        target matches Some(t) ==> !t.contains('>'),
    ensures
        ({
            let known = metric == "cpu"@ || metric == "mem"@ || metric == "swap"@ || metric
                == "disk"@ || metric == "temp"@;
            let scoped = metric == "disk"@ || metric == "temp"@;
            let good = reading matches Some(b) && 0 < b < limit(metric);
            let top = if metric == "temp"@ {
                "200"@
            } else {
                "100"@
            };
            let why = (r->Err_0)@;
            &&& !known ==> r is Err && why
                == "unknown alert metric (cpu, mem, swap, disk, temp): "@ + metric
            &&& known && !scoped && target is Some ==> r is Err && why == "alert metric '"@ + metric
                + "' takes no :target: "@ + spec@
            &&& scoped && target is Some && target->0.len() == 0 ==> r is Err && why
                == "empty alert :target in "@ + spec@
            &&& known && (target matches Some(t) ==> scoped && t.len() > 0) && !good ==> r is Err
                && why == "invalid alert threshold (0-"@ + top + "): "@ + spec@
        }),
{
    lemma_names();
    lemma_subject(metric, target, threshold);
}

/// The text of the threshold is all that stands behind the first `>`.
pub proof fn law_threshold_text(spec: &str, r: Option<&str>, lhs: Seq<char>, threshold: Seq<char>)
    requires
        call_ensures(alert::threshold_text, (spec,), r),
        !lhs.contains('>'),
    ensures
        spec@ == lhs + seq!['>'] + threshold ==> r is Some && r->0@ == threshold,
        spec@ == lhs ==> r is None,
{
    text::lemma_split_at_first(lhs, '>', threshold);
    text::lemma_no_split(lhs, '>');
}

} // verus!
