//! When the passes of the image GC take place.

use crate::config::args;
use crate::text;
use vstd::prelude::*;

verus! {

/// The longest that startup is left alone, in milliseconds.
pub const WARMUP_MS: u64 = 30_000;

/// The longest that a shutdown goes unnoticed, in milliseconds.
pub const NAP_MS: u64 = 500;

/// The smaller of two times.
pub open spec fn shorter(a: u64, b: u64) -> u64 {
    if a <= b {
        a
    } else {
        b
    }
}

// ---------------------------------------------------------------------------------------------
// The loop
// ---------------------------------------------------------------------------------------------

/// What the loop waited for.
pub enum LoopEvent {
    /// The loop begins.
    Started,
    /// A sleep is over; false if a shutdown was requested during it.
    Slept(bool),
    /// A pass is over.
    Passed { removed: usize, hint: Option<String> },
}

/// What the loop does next.
#[derive(PartialEq, Eq, Debug)]
pub enum LoopAction {
    /// Write the note to the log, if there is one, and sleep.
    Sleep { note: Option<String>, ms: u64 },
    /// Run a pass.
    Pass,
    /// End.
    Exit,
}

/// What the loop does next, as mathematical values.
pub enum LoopView {
    Sleep { note: Option<Seq<char>>, ms: u64 },
    Pass,
    Exit,
}

impl View for LoopAction {
    type V = LoopView;

    open spec fn view(&self) -> LoopView {
        match self {
            LoopAction::Sleep { note, ms } => LoopView::Sleep { note: args::opt(*note), ms: *ms },
            LoopAction::Pass => LoopView::Pass,
            LoopAction::Exit => LoopView::Exit,
        }
    }
}

/// What the log says of a pass: why it did not take place, or what it removed if anything.
pub open spec fn pass_note(removed: nat, hint: Option<Seq<char>>) -> Option<Seq<char>> {
    match hint {
        Some(h) => Some("docker image gc: paused ("@ + h + ")"@),
        None => if removed > 0 {
            Some("docker image gc: removed "@ + text::numeral(removed, 10) + " unused image(s)"@)
        } else {
            None
        },
    }
}

/// What the loop does next.
pub open spec fn loop_step(interval: u64, event: LoopEvent) -> LoopView {
    match event {
        LoopEvent::Started => LoopView::Sleep { note: None, ms: shorter(interval, WARMUP_MS) },
        LoopEvent::Slept(true) => LoopView::Pass,
        LoopEvent::Slept(false) => LoopView::Exit,
        LoopEvent::Passed { removed, hint } => LoopView::Sleep {
            note: pass_note(removed as nat, args::opt(hint)),
            ms: interval,
        },
    }
}

/// Background loop, step by step: one GC pass every `interval` milliseconds, exiting promptly on
/// shutdown. Waits a short warmup first so startup churn (pulls in flight) isn't deleted.
pub fn gc_loop(interval: u64, event: LoopEvent) -> (r: LoopAction)
    ensures
        r@ == loop_step(interval, event),
{
    match event {
        LoopEvent::Started => {
            let ms: u64 = if interval <= WARMUP_MS {
                interval
            } else {
                WARMUP_MS
            };
            LoopAction::Sleep { note: None, ms }
        },
        LoopEvent::Slept(go_on) => if go_on {
            LoopAction::Pass
        } else {
            LoopAction::Exit
        },
        LoopEvent::Passed { removed, hint } => {
            let note: Option<String> = match hint {
                Some(h) => {
                    let mut note = "docker image gc: paused (".to_owned();
                    note.append(h.as_str());
                    note.append(")");
                    Some(note)
                },
                None => if removed > 0 {
                    let mut note = "docker image gc: removed ".to_owned();
                    text::push_decimal(&mut note, removed as u64);
                    note.append(" unused image(s)");
                    Some(note)
                } else {
                    None
                },
            };
            LoopAction::Sleep { note, ms: interval }
        },
    }
}

/// A pass takes place only right after a sleep that no shutdown cut short.
pub proof fn law_pass_follows_an_undisturbed_sleep(interval: u64, event: LoopEvent)
    ensures
        loop_step(interval, event) == LoopView::Pass <==> event == LoopEvent::Slept(true),
        loop_step(interval, event) == LoopView::Exit <==> event == LoopEvent::Slept(false),
{
}

// ---------------------------------------------------------------------------------------------
// A sleep
// ---------------------------------------------------------------------------------------------

/// What a sleep does next.
#[derive(PartialEq, Eq, Structural, Clone, Copy, Debug)]
pub enum SleepStep {
    /// Nap this long, in milliseconds, and look again.
    Nap(u64),
    /// The sleep is over; false if a shutdown was requested during it.
    Finished(bool),
}

/// What a sleep with `remaining` milliseconds to go does next, and what remains then.
pub open spec fn sleep_step(remaining: u64, shutdown: bool) -> (u64, SleepStep) {
    if shutdown {
        (remaining, SleepStep::Finished(false))
    } else if remaining == 0 {
        (remaining, SleepStep::Finished(true))
    } else {
        let nap = shorter(remaining, NAP_MS);
        ((remaining - nap) as u64, SleepStep::Nap(nap))
    }
}

/// A sleep, step by step: takes in whether a shutdown was requested, and says what to do next. In
/// the end that is false if a shutdown was requested during the wait.
pub fn sleep_interruptible(remaining: &mut u64, shutdown: bool) -> (r: SleepStep)
    ensures
        (*final(remaining), r) == sleep_step(*old(remaining), shutdown),
{
    if shutdown {
        return SleepStep::Finished(false);
    }
    if *remaining == 0 {
        return SleepStep::Finished(true);
    }
    let nap: u64 = if *remaining <= NAP_MS {
        *remaining
    } else {
        NAP_MS
    };
    *remaining = *remaining - nap;
    SleepStep::Nap(nap)
}

/// The naps of a sleep that nothing cuts short.
pub open spec fn naps(remaining: u64) -> Seq<u64>
    decreases remaining,
{
    match sleep_step(remaining, false) {
        (left, SleepStep::Nap(nap)) => if left < remaining {
            seq![nap] + naps(left)
        } else {
            Seq::empty()
        },
        _ => Seq::empty(),
    }
}

/// The sum of times.
pub open spec fn total(times: Seq<u64>) -> int
    decreases times.len(),
{
    if times.len() == 0 {
        0
    } else {
        times[0] + total(times.skip(1))
    }
}

/// A sleep that nothing cuts short lasts as long as was asked, in naps that are not too long.
pub proof fn law_sleep_lasts_as_long_as_asked(remaining: u64)
    ensures
        total(naps(remaining)) == remaining,
        forall|i: int|
            0 <= i < naps(remaining).len() ==> 0 < #[trigger] naps(remaining)[i] <= NAP_MS,
    decreases remaining,
{
    if remaining > 0 {
        let nap = shorter(remaining, NAP_MS);
        let left = (remaining - nap) as u64;
        law_sleep_lasts_as_long_as_asked(left);
        assert(naps(remaining) == seq![nap] + naps(left));
        assert(naps(remaining).skip(1) =~= naps(left));
        assert forall|i: int| 0 <= i < naps(remaining).len() implies 0 < #[trigger] naps(
            remaining,
        )[i] <= NAP_MS by {
            if i > 0 {
                assert(naps(remaining)[i] == naps(left)[i - 1]);
            }
        }
    }
}

/// A shutdown ends a sleep at once, however much of it remains.
pub proof fn law_shutdown_ends_a_sleep(remaining: u64)
    ensures
        sleep_step(remaining, true).1 == SleepStep::Finished(false),
{
}

} // verus!
