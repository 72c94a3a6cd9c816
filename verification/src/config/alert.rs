//! Alert rules: `metric[:target]>threshold`.

use super::args;
use crate::text;
use vstd::prelude::*;

verus! {

/// The double 100.0, as its bits.
pub const HUNDRED: u64 = 0x4059_0000_0000_0000;

/// The double 200.0, as its bits.
pub const TWO_HUNDRED: u64 = 0x4069_0000_0000_0000;

/// One alert rule.
#[derive(Clone, Debug)]
pub struct AlertSpec {
    /// "cpu", "mem", "swap", "disk" (percent) or "temp" (degrees Celsius).
    pub metric: String,
    /// Optional scope for `disk` (mount path) and `temp` (sensor-label substring); None means
    /// "max across all of them".
    pub target: Option<String>,
    /// The threshold, as the bits of a double. Positive doubles are ordered as their bits are.
    pub threshold: u64,
}

/// One alert rule, as mathematical values.
pub struct AlertView {
    pub metric: Seq<char>,
    pub target: Option<Seq<char>>,
    pub threshold: u64,
}

impl View for AlertSpec {
    type V = AlertView;

    open spec fn view(&self) -> AlertView {
        AlertView {
            metric: self.metric@,
            target: args::opt(self.target),
            threshold: self.threshold,
        }
    }
}

/// The metrics that a rule can speak of.
pub open spec fn known_metric(m: Seq<char>) -> bool {
    m == "cpu"@ || m == "mem"@ || m == "swap"@ || takes_target(m)
}

/// The metrics that a rule can scope.
pub open spec fn takes_target(m: Seq<char>) -> bool {
    m == "disk"@ || m == "temp"@
}

/// What a threshold stays below: 200 degrees, or 100 percent.
pub open spec fn threshold_limit(m: Seq<char>) -> u64 {
    if m == "temp"@ {
        TWO_HUNDRED
    } else {
        HUNDRED
    }
}

/// The same limit, in words.
pub open spec fn threshold_limit_text(m: Seq<char>) -> Seq<char> {
    if m == "temp"@ {
        "200"@
    } else {
        "100"@
    }
}

/// The metric and the target of a rule, from what stands before its `>`.
pub open spec fn metric_and_target(lhs: Seq<char>) -> (Seq<char>, Option<Seq<char>>) {
    match text::split_at_first(lhs, ':') {
        Some((m, t)) => (m, Some(t)),
        None => (lhs, None),
    }
}

/// What a rule says, where what stands behind its first `>` reads as the double `reading`; or why
/// it is none.
pub open spec fn alert(spec: Seq<char>, reading: Option<u64>) -> Result<AlertView, Seq<char>> {
    match text::split_at_first(spec, '>') {
        None => Err("invalid alert spec (want metric>threshold): "@ + spec),
        Some((lhs, _)) => {
            let (metric, target) = metric_and_target(lhs);
            if !known_metric(metric) {
                Err("unknown alert metric (cpu, mem, swap, disk, temp): "@ + metric)
            } else if target is Some && !takes_target(metric) {
                Err("alert metric '"@ + metric + "' takes no :target: "@ + spec)
            } else if target matches Some(t) && t.len() == 0 {
                Err("empty alert :target in "@ + spec)
            } else if reading matches Some(b) && 0 < b < threshold_limit(metric) {
                Ok(AlertView { metric, target, threshold: reading->0 })
            } else {
                Err(
                    "invalid alert threshold (0-"@ + threshold_limit_text(metric) + "): "@ + spec,
                )
            }
        },
    }
}

/// The text of the threshold in a rule: what stands behind its first `>`.
pub fn threshold_text<'a>(spec: &'a str) -> (r: Option<&'a str>)
    ensures
        r is Some <==> text::split_at_first(spec@, '>') is Some,
        r matches Some(t) ==> t@ == (text::split_at_first(spec@, '>')->0).1,
{
    match text::split_text(spec, '>') {
        Some((_, t)) => Some(t),
        None => None,
    }
}

fn is_target_metric(m: &str) -> (r: bool)
    ensures
        r == takes_target(m@),
{
    text::same_text(m, "disk") || text::same_text(m, "temp")
}

fn is_known_metric(m: &str) -> (r: bool)
    ensures
        r == known_metric(m@),
{
    text::same_text(m, "cpu") || text::same_text(m, "mem") || text::same_text(m, "swap")
        || is_target_metric(m)
}

/// Parse one `--alert` rule: `metric[:target]>threshold`. cpu/mem/swap/disk thresholds are
/// percentages (0-100); temp is degrees Celsius (0-200). `:target` scopes `disk` to a mount path
/// or `temp` to a sensor-label substring.
///
/// `reading` is the double that the text of the threshold denotes, as its bits, if it denotes
/// one.
pub fn parse_alert(spec: &str, reading: Option<u64>) -> (r: Result<AlertSpec, String>)
    ensures
        r matches Ok(a) ==> alert(spec@, reading) == Ok::<AlertView, Seq<char>>(a@),
        r matches Err(why) ==> alert(spec@, reading) == Err::<AlertView, Seq<char>>(why@),
{
    let lhs = match text::split_text(spec, '>') {
        Some((lhs, _)) => lhs,
        None => {
            return Err(text::joined("invalid alert spec (want metric>threshold): ", spec));
        },
    };
    let (metric, target): (&str, Option<&str>) = match text::split_text(lhs, ':') {
        Some((m, t)) => (m, Some(t)),
        None => (lhs, None),
    };
    if !is_known_metric(metric) {
        return Err(text::joined("unknown alert metric (cpu, mem, swap, disk, temp): ", metric));
    }
    let target: Option<String> = match target {
        Some(t) => {
            if !is_target_metric(metric) {
                let mut why = "alert metric '".to_owned();
                why.append(metric);
                why.append("' takes no :target: ");
                why.append(spec);
                return Err(why);
            }
            if t.is_empty() {
                return Err(text::joined("empty alert :target in ", spec));
            }
            Some(t.to_owned())
        },
        None => None,
    };
    let temp = text::same_text(metric, "temp");
    let limit: u64 = if temp {
        TWO_HUNDRED
    } else {
        HUNDRED
    };
    match reading {
        Some(b) if 0 < b && b < limit => Ok(
            AlertSpec { metric: metric.to_owned(), target, threshold: b },
        ),
        _ => {
            let mut why = "invalid alert threshold (0-".to_owned();
            if temp {
                why.append("200");
            } else {
                why.append("100");
            }
            why.append("): ");
            why.append(spec);
            Err(why)
        },
    }
}

/// Every rule that is accepted names a known metric, is scoped only where the metric can be, by
/// something that is not empty, and has a threshold above zero and below its limit.
pub proof fn law_accepted_alert_is_sound(spec: Seq<char>, reading: Option<u64>)
    ensures
        alert(spec, reading) matches Ok(a) ==> {
            &&& known_metric(a.metric)
            &&& a.target matches Some(t) ==> takes_target(a.metric) && t.len() > 0
            &&& 0 < a.threshold < threshold_limit(a.metric)
        },
{
}

/// A rule, written down.
pub open spec fn rule_text(
    metric: Seq<char>,
    target: Option<Seq<char>>,
    threshold: Seq<char>,
) -> Seq<char> {
    match target {
        Some(t) => metric + seq![':'] + t + seq!['>'] + threshold,
        None => metric + seq!['>'] + threshold,
    }
}

/// The names of the metrics hold neither of the two marks.
proof fn lemma_metric_has_no_marks(m: Seq<char>)
    requires
        known_metric(m),
    ensures
        !m.contains(':'),
        !m.contains('>'),
{
    reveal_strlit("cpu");
    reveal_strlit("mem");
    reveal_strlit("swap");
    reveal_strlit("disk");
    reveal_strlit("temp");
}

/// A rule that is written down is read back as it was meant, whatever its target holds but `>`.
pub proof fn law_alert_is_read_back(
    metric: Seq<char>,
    target: Option<Seq<char>>,
    threshold: Seq<char>,
    bits: u64,
)
    requires
        known_metric(metric),
        target matches Some(t) ==> takes_target(metric) && t.len() > 0 && !t.contains('>'),
        0 < bits < threshold_limit(metric),
    ensures
        alert(rule_text(metric, target, threshold), Some(bits)) == Ok::<AlertView, Seq<char>>(
            AlertView { metric, target, threshold: bits },
        ),
{
    lemma_metric_has_no_marks(metric);
    match target {
        Some(t) => {
            let lhs = metric + seq![':'] + t;
            assert(!lhs.contains('>')) by {
                if lhs.contains('>') {
                    let i = choose|i: int| 0 <= i < lhs.len() && lhs[i] == '>';
                    if i < metric.len() {
                        assert(metric[i] == '>');
                    } else if i > metric.len() {
                        assert(t[i - metric.len() - 1] == '>');
                    }
                }
            }
            text::lemma_split_at_first(lhs, '>', threshold);
            text::lemma_split_at_first(metric, ':', t);
        },
        None => {
            text::lemma_split_at_first(metric, '>', threshold);
            text::lemma_no_split(metric, ':');
        },
    }
}

} // verus!
