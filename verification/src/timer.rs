//! The stopwatch and its readout.

use crate::text::{digit, push_padded};
use crate::time::Duration;
use vstd::prelude::*;
use vstd::string::*;

verus! {

/// A stopwatch that accepts only explicit monotonic durations: the time since
/// some fixed moment, which the caller reads off its clock.
#[derive(Debug, Clone, Copy, PartialEq, Eq)]
pub struct Timer {
    accumulated: Duration,
    started_at: Option<Duration>,
}

/// What a `Timer` stands for, in nanoseconds.
pub struct TimerView {
    /// The time run before the current run.
    pub accumulated: nat,
    /// The moment at which the current run began, where there is one.
    pub started_at: Option<nat>,
}

impl TimerView {
    /// A stopped timer that has not run.
    pub open spec fn fresh() -> TimerView {
        TimerView { accumulated: 0, started_at: None }
    }

    pub open spec fn running(self) -> bool {
        self.started_at is Some
    }

    /// The time run up to `now`.
    pub open spec fn elapsed(self, now: nat) -> nat {
        match self.started_at {
            Some(start) => self.accumulated + crate::time::span_between(start, now),
            None => self.accumulated,
        }
    }

    /// Whether the time run up to `now` is short enough to be read.
    pub open spec fn readable(self, now: nat) -> bool {
        self.running() ==> self.elapsed(now) <= crate::time::max_nanos()
    }

    pub open spec fn start(self, now: nat) -> TimerView {
        if self.running() {
            self
        } else {
            TimerView { started_at: Some(now), ..self }
        }
    }

    pub open spec fn stop(self, now: nat) -> TimerView {
        TimerView { accumulated: self.elapsed(now), started_at: None }
    }
}

impl View for Timer {
    type V = TimerView;

    closed spec fn view(&self) -> TimerView {
        TimerView {
            accumulated: self.accumulated@,
            started_at: match self.started_at {
                Some(start) => Some(start@),
                None => None,
            },
        }
    }
}

impl Default for Timer {
    /// A stopped timer that has not run.
    fn default() -> (timer: Timer)
        ensures
            timer@ == TimerView::fresh(),
    {
        Timer { accumulated: Duration::zero(), started_at: None }
    }
}

impl Timer {
    /// Begins a run at `now`. A running timer goes on unchanged.
    pub fn start(&mut self, now: Duration)
        ensures
            final(self)@ == old(self)@.start(now@),
    {
        if self.started_at.is_none() {
            self.started_at = Some(now);
        }
    }

    /// Ends the current run at `now` and keeps its time. A stopped timer stays
    /// unchanged.
    pub fn stop(&mut self, now: Duration)
        requires
            old(self)@.readable(now@),
        ensures
            final(self)@ == old(self)@.stop(now@),
    {
        if let Some(start) = self.started_at {
            self.started_at = None;
            match self.accumulated.checked_add(now.saturating_sub(start)) {
                Some(sum) => {
                    self.accumulated = sum;
                },
                None => {
                    assert(false);
                },
            }
        }
    }

    /// Stops the timer and forgets the time run.
    pub fn reset(&mut self)
        ensures
            final(self)@ == TimerView::fresh(),
    {
        self.accumulated = Duration::zero();
        self.started_at = None;
    }

    /// The time run up to `now`.
    pub fn elapsed(&self, now: Duration) -> (elapsed: Duration)
        requires
            self@.readable(now@),
        ensures
            elapsed@ == self@.elapsed(now@),
    {
        match self.started_at {
            Some(start) => match self.accumulated.checked_add(now.saturating_sub(start)) {
                Some(sum) => sum,
                None => {
                    assert(false);
                    self.accumulated
                },
            },
            None => self.accumulated,
        }
    }

    pub fn is_running(&self) -> (running: bool)
        ensures
            running == self@.running(),
    {
        self.started_at.is_some()
    }

    /// Whether the time run up to `now` fits in a `Duration`, so that the timer
    /// can be read or stopped at `now`.
    pub fn is_readable(&self, now: Duration) -> (readable: bool)
        ensures
            readable == self@.readable(now@),
    {
        match self.started_at {
            Some(start) => self.accumulated.checked_add(now.saturating_sub(start)).is_some(),
            None => true,
        }
    }
}

/// What one frame shows of the timer: the time run up to `now`, and whether it
/// is running.
pub fn frame_timer_state(timer: &Timer, now: Duration) -> (state: (Duration, bool))
    requires
        timer@.readable(now@),
    ensures
        state.0@ == timer@.elapsed(now@),
        state.1 == timer@.running(),
{
    (timer.elapsed(now), timer.is_running())
}

/// The hours of a readout and the separator behind them: blank while a running
/// timer has not reached its first hour.
pub open spec fn hours_field(secs: nat, running: bool) -> Seq<char> {
    if !running || secs >= 3600 {
        crate::text::padded(secs / 3600) + seq![':']
    } else {
        seq![' ', ' ', ' ']
    }
}

/// The minutes of a readout and the separator behind them: blank while a
/// running timer has not reached its first minute.
pub open spec fn minutes_field(secs: nat, running: bool) -> Seq<char> {
    if !running || secs >= 60 {
        crate::text::padded(secs % 3600 / 60) + seq![':']
    } else {
        seq![' ', ' ', ' ']
    }
}

/// The fraction of a readout, in `digits` digits, none to two, cut off and not
/// rounded.
pub open spec fn fraction_field(hundredths: nat, fractions: bool, digits: u8) -> Seq<char> {
    if !fractions || digits == 0 {
        Seq::empty()
    } else if digits == 1 {
        seq!['.', crate::text::digit_char(hundredths / 10)]
    } else {
        seq!['.'] + crate::text::padded(hundredths)
    }
}

/// The readout of a span of `nanos` nanoseconds.
pub open spec fn readout(nanos: nat, fractions: bool, digits: u8, running: bool) -> Seq<char> {
    let secs = nanos / 1_000_000_000;
    let hundredths = nanos % 1_000_000_000 / 10_000_000;
    hours_field(secs, running) + minutes_field(secs, running) + crate::text::padded(secs % 60)
        + fraction_field(hundredths, fractions, digits)
}

/// The readout of `duration`: hours, minutes and seconds, and up to two digits
/// of their fraction. While the timer runs, hours and minutes that it has not
/// reached are blank.
pub fn format_duration(
    duration: Duration,
    fractions: bool,
    fractional_digits: u8,
    running: bool,
) -> (text: String)
    ensures
        text@ == readout(duration@, fractions, fractional_digits, running),
{
    let total: u64 = duration.as_secs();
    let h: u64 = total / 3600;
    let m: u64 = (total % 3600) / 60;
    let s: u64 = total % 60;
    let show_hours = !running || total >= 3600;
    let show_minutes = !running || total >= 60;
    proof {
        reveal_strlit("   ");
        reveal_strlit(":");
        reveal_strlit(".");
    }
    let mut out = String::new();
    if show_hours {
        push_padded(&mut out, h);
        out.append(":");
    } else {
        out.append("   ");
    }
    assert(out@ =~= hours_field(total as nat, running));
    if show_minutes {
        push_padded(&mut out, m);
        out.append(":");
    } else {
        out.append("   ");
    }
    assert(out@ =~= hours_field(total as nat, running) + minutes_field(total as nat, running));
    push_padded(&mut out, s);
    let ghost whole = out@;
    let hundredths: u32 = duration.subsec_millis() / 10;
    assert(hundredths == duration@ % 1_000_000_000 / 10_000_000);
    if fractions && fractional_digits != 0 {
        out.append(".");
        if fractional_digits == 1 {
            out.append(digit((hundredths / 10) as u8));
        } else {
            push_padded(&mut out, hundredths as u64);
        }
    }
    assert(out@ =~= whole + fraction_field(hundredths as nat, fractions, fractional_digits));
    out
}

/// A running timer reads what it read at its start and the time since then.
pub proof fn law_running_timer_counts_up(timer: TimerView, start: nat, now: nat)
    requires
        !timer.running(),
        start <= now,
    ensures
        timer.start(start).running(),
        timer.start(start).elapsed(now) == timer.elapsed(start) + (now - start),
{
}

/// A stopped timer reads the same at every moment: what it read when it was
/// stopped.
pub proof fn law_stopped_timer_keeps_its_time(timer: TimerView, stop: nat, now: nat)
    ensures
        !timer.stop(stop).running(),
        timer.stop(stop).elapsed(now) == timer.elapsed(stop),
{
}

/// Starting a running timer, and stopping a stopped one, changes nothing.
pub proof fn law_start_and_stop_repeat_harmlessly(timer: TimerView, first: nat, second: nat)
    ensures
        timer.start(first).start(second) == timer.start(first),
        timer.stop(first).stop(second) == timer.stop(first),
{
}

/// The time run never falls as the clock advances, whether the timer runs or
/// not.
pub proof fn law_elapsed_is_monotonic(timer: TimerView, earlier: nat, later: nat)
    requires
        earlier <= later,
    ensures
        timer.elapsed(earlier) <= timer.elapsed(later),
{
}

/// A pause adds nothing: two runs read as long as both together.
pub proof fn law_runs_add_up(timer: TimerView, a: nat, b: nat, c: nat, d: nat)
    requires
        !timer.running(),
        a <= b <= c <= d,
    ensures
        timer.start(a).stop(b).start(c).stop(d).elapsed(d) == timer.accumulated + (b - a) + (d
            - c),
{
}

/// A readout is as wide while the timer runs as when it is stopped, so that the
/// text does not jump.
pub proof fn law_readout_width_ignores_running(nanos: nat, fractions: bool, digits: u8)
    ensures
        readout(nanos, fractions, digits, true).len() == readout(
            nanos,
            fractions,
            digits,
            false,
        ).len(),
{
    let secs = nanos / 1_000_000_000;
    if secs < 3600 {
        crate::text::lemma_padded_two_digits(secs / 3600);
    }
    if secs < 60 {
        crate::text::lemma_padded_two_digits(secs % 3600 / 60);
    }
}

/// Below one hundred hours every readout of the same kind has the same width.
pub proof fn law_readout_width_is_constant(
    a: nat,
    b: nat,
    fractions: bool,
    digits: u8,
    a_running: bool,
    b_running: bool,
)
    requires
        a / 1_000_000_000 < 360_000,
        b / 1_000_000_000 < 360_000,
    ensures
        readout(a, fractions, digits, a_running).len() == readout(
            b,
            fractions,
            digits,
            b_running,
        ).len(),
{
    lemma_readout_width(a, fractions, digits, a_running);
    lemma_readout_width(b, fractions, digits, b_running);
}

proof fn lemma_readout_width(nanos: nat, fractions: bool, digits: u8, running: bool)
    requires
        nanos / 1_000_000_000 < 360_000,
    ensures
        readout(nanos, fractions, digits, running).len() == 8 + (if !fractions || digits == 0 {
            0int
        } else if digits == 1 {
            2
        } else {
            3
        }),
{
    let secs = nanos / 1_000_000_000;
    crate::text::lemma_padded_two_digits(secs / 3600);
    crate::text::lemma_padded_two_digits(secs % 3600 / 60);
    crate::text::lemma_padded_two_digits(secs % 60);
    crate::text::lemma_padded_two_digits(nanos % 1_000_000_000 / 10_000_000);
}

} // verus!
