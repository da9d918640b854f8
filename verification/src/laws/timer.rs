//! What the stopwatch reads, and how its readout is to be read.

use crate::timer::TimerView;
use vstd::prelude::*;

verus! {

/// What a timer reads: while it is stopped, the time that it has run; while it
/// runs, that and the time since its start. A clock that stands before the start
/// adds nothing.
pub proof fn law_timer_reads_its_runs(timer: TimerView, now: nat)
    ensures
        timer.running() <==> timer.started_at is Some,
        timer.started_at is None ==> timer.elapsed(now) == timer.accumulated,
        timer.started_at matches Some(start) ==> {
            &&& now >= start ==> timer.elapsed(now) == timer.accumulated + (now - start)
            &&& now < start ==> timer.elapsed(now) == timer.accumulated
        },
        TimerView::fresh().started_at is None,
        TimerView::fresh().elapsed(now) == 0,
{
}

/// Starting a stopped timer keeps its time and begins a run at that moment, and
/// starting a running one changes nothing. Stopping keeps what the timer reads.
pub proof fn law_start_and_stop(timer: TimerView, now: nat)
    ensures
        timer.started_at is None ==> timer.start(now).started_at == Some(now),
        timer.started_at is Some ==> timer.start(now).started_at == timer.started_at,
        timer.start(now).accumulated == timer.accumulated,
        timer.stop(now).started_at is None,
        timer.stop(now).accumulated == timer.elapsed(now),
{
}

/// A stopped timer can always be read. A running one can be as long as what it
/// reads fits in seconds of 64 bits and nanoseconds below a thousand million.
pub proof fn law_timers_can_be_read(timer: TimerView, now: nat)
    ensures
        timer.started_at is None ==> timer.readable(now),
        timer.started_at is Some ==> (timer.readable(now) <==> timer.elapsed(now) / 1_000_000_000
            <= 0xffff_ffff_ffff_ffff),
{
}

/// What is left of one span after another.
pub proof fn law_spans_are_cut_at_nothing(a: nat, b: nat)
    ensures
        a >= b ==> b + crate::time::span_between(b, a) == a,
        a <= b ==> crate::time::span_between(b, a) == 0,
{
}

/// The value of a character as a decimal digit.
pub open spec fn digit_value(c: char) -> int {
    c as u32 - 48
}

/// Whether a character is a decimal digit.
pub open spec fn is_digit(c: char) -> bool {
    48 <= c as u32 <= 57
}

/// The number that a numeral stands for.
pub open spec fn value(text: Seq<char>) -> int
    decreases text.len(),
{
    if text.len() == 0 {
        0
    } else {
        value(text.drop_last()) * 10 + digit_value(text.last())
    }
}

/// Whether every character of a text is a decimal digit.
pub open spec fn numeral(text: Seq<char>) -> bool {
    forall|i: int| 0 <= i < text.len() ==> is_digit(#[trigger] text[i])
}

/// A numeral stands for its number, has no leading zero where that is not its
/// only digit, and is as short as can be.
pub proof fn law_numerals_stand_for_their_numbers(n: nat)
    ensures
        value(crate::text::decimal(n)) == n,
        numeral(crate::text::decimal(n)),
        crate::text::decimal(n).len() >= 1,
        n >= 1 ==> crate::text::decimal(n)[0] != '0',
    decreases n,
{
    let text = crate::text::decimal(n);
    if n < 10 {
        assert(text.drop_last() =~= Seq::empty());
        assert(value(text.drop_last()) == 0);
    } else {
        law_numerals_stand_for_their_numbers(n / 10);
        assert(text.drop_last() =~= crate::text::decimal(n / 10));
        assert(text[0] == crate::text::decimal(n / 10)[0]);
        assert(n / 10 * 10 + n % 10 == n);
    }
}

/// A padded numeral stands for its number and has two digits at least, and
/// exactly two below one hundred.
pub proof fn law_padded_numerals_stand_for_their_numbers(n: nat)
    ensures
        value(crate::text::padded(n)) == n,
        numeral(crate::text::padded(n)),
        crate::text::padded(n).len() >= 2,
        n < 100 ==> crate::text::padded(n).len() == 2,
        n >= 100 ==> crate::text::padded(n)[0] != '0',
{
    law_numerals_stand_for_their_numbers(n);
    crate::text::lemma_decimal_len(n);
    if n < 100 {
        crate::text::lemma_padded_two_digits(n);
    }
    if n < 10 {
        let text = crate::text::padded(n);
        reveal_with_fuel(value, 3);
        assert(text.drop_last() =~= seq!['0']);
        assert(seq!['0'].drop_last() =~= Seq::<char>::empty());
        assert(value(seq!['0']) == 0);
    }
}

/// The readout of a stopped timer, taken apart: hours, minutes and seconds,
/// parted by colons, and the fraction behind a point.
pub open spec fn parts(
    text: Seq<char>,
    hours: Seq<char>,
    minutes: Seq<char>,
    seconds: Seq<char>,
    fraction: Seq<char>,
) -> bool {
    text == hours + seq![':'] + minutes + seq![':'] + seconds + fraction
}

/// The readout of a stopped timer says how long it ran: its hours, minutes and
/// seconds come to the whole seconds, minutes and seconds are of two digits and
/// below sixty, hours of two digits at least. Of the fraction it shows as many
/// digits as asked for, two at most, cut off and never rounded up.
pub proof fn law_readout_says_the_time(nanos: nat, fractions: bool, digits: u8) -> (fields: (
    Seq<char>,
    Seq<char>,
    Seq<char>,
    Seq<char>,
))
    ensures
        ({
            let (hours, minutes, seconds, fraction) = fields;
            let text = crate::timer::readout(nanos, fractions, digits, false);
            let whole = value(hours) * 3600 + value(minutes) * 60 + value(seconds);
            let rest = nanos - whole * 1_000_000_000;
            &&& parts(text, hours, minutes, seconds, fraction)
            &&& numeral(hours) && numeral(minutes) && numeral(seconds)
            &&& hours.len() >= 2 && minutes.len() == 2 && seconds.len() == 2
            &&& hours.len() > 2 ==> hours[0] != '0'
            &&& value(minutes) < 60 && value(seconds) < 60
            &&& 0 <= rest < 1_000_000_000
            &&& !fractions || digits == 0 ==> fraction.len() == 0
            &&& fractions && digits == 1 ==> {
                &&& fraction.len() == 2
                &&& fraction[0] == '.'
                &&& is_digit(fraction[1])
                &&& 0 <= rest - digit_value(fraction[1]) * 100_000_000 < 100_000_000
            }
            &&& fractions && digits >= 2 ==> {
                &&& fraction.len() == 3
                &&& fraction[0] == '.'
                &&& is_digit(fraction[1]) && is_digit(fraction[2])
                &&& 0 <= rest - (digit_value(fraction[1]) * 10 + digit_value(fraction[2]))
                    * 10_000_000 < 10_000_000
            }
        }),
{
    let secs = nanos / 1_000_000_000;
    let hundredths = nanos % 1_000_000_000 / 10_000_000;
    let hours = crate::text::padded(secs / 3600);
    let minutes = crate::text::padded(secs % 3600 / 60);
    let seconds = crate::text::padded(secs % 60);
    let fraction = crate::timer::fraction_field(hundredths, fractions, digits);
    law_padded_numerals_stand_for_their_numbers(secs / 3600);
    law_padded_numerals_stand_for_their_numbers(secs % 3600 / 60);
    law_padded_numerals_stand_for_their_numbers(secs % 60);
    crate::text::lemma_padded_two_digits(hundredths);
    let text = crate::timer::readout(nanos, fractions, digits, false);
    assert(text =~= hours + seq![':'] + minutes + seq![':'] + seconds + fraction);
    assert(secs / 3600 * 3600 + secs % 3600 / 60 * 60 + secs % 60 == secs);
    if hours.len() > 2 {
        assert(secs / 3600 >= 100);
    }
    (hours, minutes, seconds, fraction)
}

/// While the timer runs its readout is the one that it would have when stopped,
/// but that hours are blanked below one hour, and minutes, too, below one
/// minute, each with the colon behind it.
pub proof fn law_running_readout_blanks_what_is_not_reached(
    nanos: nat,
    fractions: bool,
    digits: u8,
)
    ensures
        ({
            let running = crate::timer::readout(nanos, fractions, digits, true);
            let stopped = crate::timer::readout(nanos, fractions, digits, false);
            let blanks: int = if nanos < 60_000_000_000 {
                6
            } else if nanos < 3_600_000_000_000 {
                3
            } else {
                0
            };
            &&& running.len() == stopped.len()
            &&& running.len() >= 8
            &&& forall|i: int| 0 <= i < blanks ==> #[trigger] running[i] == ' '
            &&& forall|i: int| blanks <= i < running.len() ==> #[trigger] running[i] == stopped[i]
        }),
{
    let secs = nanos / 1_000_000_000;
    crate::timer::law_readout_width_ignores_running(nanos, fractions, digits);
    law_padded_numerals_stand_for_their_numbers(secs / 3600);
    law_padded_numerals_stand_for_their_numbers(secs % 3600 / 60);
    law_padded_numerals_stand_for_their_numbers(secs % 60);
    if secs < 3600 {
        crate::text::lemma_padded_two_digits(secs / 3600);
    }
    crate::text::lemma_padded_two_digits(secs % 3600 / 60);
}

/// Fewer digits show less of the same fraction: a readout with none or with one
/// is the beginning of the one with two, and no readout has more than two.
pub proof fn law_fewer_digits_show_the_same_time(nanos: nat, digits: u8, running: bool)
    ensures
        ({
            let two = crate::timer::readout(nanos, true, 2, running);
            let one = crate::timer::readout(nanos, true, 1, running);
            let none = crate::timer::readout(nanos, true, 0, running);
            &&& one == two.take(two.len() - 1)
            &&& none == two.take(two.len() - 3)
            &&& crate::timer::readout(nanos, false, digits, running) == none
            &&& digits >= 2 ==> crate::timer::readout(nanos, true, digits, running) == two
        }),
{
    let two = crate::timer::readout(nanos, true, 2, running);
    let one = crate::timer::readout(nanos, true, 1, running);
    let none = crate::timer::readout(nanos, true, 0, running);
    crate::text::lemma_padded_two_digits(nanos % 1_000_000_000 / 10_000_000);
    assert(one =~= two.take(two.len() - 1));
    assert(none =~= two.take(two.len() - 3));
    assert(crate::timer::readout(nanos, false, digits, running) =~= none);
}

} // verus!
