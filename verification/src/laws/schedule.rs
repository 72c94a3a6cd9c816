//! Laws of the schedule, and of the wait for the first snapshot.

use crate::config::args;
use crate::engine::schedule;
use crate::engine::schedule::{LoopAction, LoopEvent, SleepStep};
use crate::state;
use crate::state::{Shared, Wait};
use crate::text;
use vstd::prelude::*;

verus! {

/// The decimal digits of a number.
pub open spec fn decimal(n: nat) -> Seq<char>
    decreases n,
{
    let digit = ((48 + n % 10) as u8) as char;
    if n < 10 {
        seq![digit]
    } else {
        decimal(n / 10).push(digit)
    }
}

pub(crate) proof fn lemma_decimal(n: nat)
    ensures
        text::numeral(n, 10) == decimal(n),
    decreases n,
{
    if n >= 10 {
        lemma_decimal(n / 10);
    }
}

/// The loop leaves the start alone for half a minute, or for its interval where that is shorter.
/// It runs a pass after each sleep that nothing cut short, ends after any other, and sleeps for
/// its interval after each pass.
pub proof fn law_loop(interval: u64, event: LoopEvent, r: LoopAction)
    requires
        call_ensures(schedule::gc_loop, (interval, event), r),
    ensures
        event is Started ==> r is Sleep && r->note is None,
        event is Started && interval <= 30000 ==> r->ms == interval,
        event is Started && interval > 30000 ==> r->ms == 30000,
        event matches LoopEvent::Slept(whole) ==> (whole ==> r == LoopAction::Pass) && (!whole ==> r
            == LoopAction::Exit),
        event is Passed ==> r is Sleep && r->ms == interval,
{
    let view = r@;
}

/// The log says why a pass did not take place, or how many images it removed; of a pass that
/// removed none it says nothing.
pub proof fn law_passes_are_logged(
    interval: u64,
    removed: usize,
    hint: Option<String>,
    r: LoopAction,
)
    requires
        call_ensures(schedule::gc_loop, (interval, LoopEvent::Passed { removed, hint }), r),
    ensures
        r is Sleep,
        hint is Some ==> r->note is Some && r->note->0@ == "docker image gc: paused ("@ + hint->0@
            + ")"@,
        hint is None && removed > 0 ==> r->note is Some && r->note->0@
            == "docker image gc: removed "@ + decimal(removed as nat) + " unused image(s)"@,
        hint is None && removed == 0 ==> r->note is None,
{
    let view = r@;
    let note = args::opt(r->note);
    lemma_decimal(removed as nat);
}

/// A shutdown ends a sleep at once. Otherwise each nap takes its length off what remains, half a
/// second at most, until nothing does.
pub proof fn law_sleep(remaining: &mut u64, shutdown: bool, r: SleepStep)
    requires
        call_ensures(schedule::sleep_interruptible, (remaining, shutdown), r),
    ensures
        shutdown ==> r == SleepStep::Finished(false),
        !shutdown && *old(remaining) == 0 ==> r == SleepStep::Finished(true),
        !shutdown && *old(remaining) > 0 ==> {
            &&& r is Nap
            &&& 0 < r->Nap_0 <= 500
            &&& *old(remaining) >= 500 ==> r->Nap_0 == 500
            &&& *old(remaining) < 500 ==> r->Nap_0 == *old(remaining)
            &&& *final(remaining) + r->Nap_0 == *old(remaining)
        },
{
}

/// A text with the mark of the warmup anywhere in it is no snapshot: it is waited for another, as
/// long as there is time. Any other text is printed.
pub proof fn law_first_snapshot(json: &str, late: bool, r: Wait)
    requires
        call_ensures(state::print_first_snapshot, (json, late), r),
    ensures
        ({
            let warming = exists|i: int|
                0 <= i <= json@.len() - 12 && #[trigger] json@.subrange(i, i + 12)
                    == "\"warming_up\""@;
            &&& r == Wait::Print <==> !warming
            &&& r == Wait::TimedOut <==> warming && late
            &&& r == Wait::Again <==> warming && !late
        }),
{
    reveal_strlit("\"warming_up\"");
    let mark = "\"warming_up\""@;
    let s = json@;
    assert(mark.len() == 12);
    if text::occurs(s, mark) {
        let i = choose|i: int| text::occurs_at(s, mark, i);
        assert(0 <= i <= s.len() - 12 && s.subrange(i, i + 12) == mark);
    }
    if exists|i: int| 0 <= i <= s.len() - 12 && #[trigger] s.subrange(i, i + 12) == mark {
        let i = choose|i: int| 0 <= i <= s.len() - 12 && #[trigger] s.subrange(i, i + 12) == mark;
        assert(text::occurs_at(s, mark, i));
    }
}

/// Before the first sample the mark of the warmup is published, and nothing else.
pub proof fn law_start(r: Shared)
    requires
        call_ensures(Shared::new, (), r),
    ensures
        r.json@ == "{\"warming_up\":true}"@,
        r.prom@.len() == 0,
        r.history@.len() == 0,
{
}

} // verus!
