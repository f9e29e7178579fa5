//! The lines that a timed stretch of work reports.
//!
//! A [`Timer`] knows what its stretch is called and words its two lines: one
//! when the stretch begins, one when it ends. It holds no clock: the caller
//! measures, and hands in the seconds and milliseconds that have passed.

use vstd::prelude::*;
use vstd::string::StringExecFns;

verus! {

/// Seconds in a minute.
pub const SECONDS_PER_MINUTE: u64 = 60;

/// Seconds in an hour.
pub const SECONDS_PER_HOUR: u64 = 3600;

/// The character of a digit below ten.
pub open spec fn digit_char(digit: nat) -> char {
    if digit == 0 {
        '0'
    } else if digit == 1 {
        '1'
    } else if digit == 2 {
        '2'
    } else if digit == 3 {
        '3'
    } else if digit == 4 {
        '4'
    } else if digit == 5 {
        '5'
    } else if digit == 6 {
        '6'
    } else if digit == 7 {
        '7'
    } else if digit == 8 {
        '8'
    } else {
        '9'
    }
}

/// `number` in decimal digits, without leading zeros.
pub open spec fn decimal(number: nat) -> Seq<char>
    decreases number,
{
    if number < 10 {
        seq![digit_char(number)]
    } else {
        decimal(number / 10).push(digit_char(number % 10))
    }
}

/// Hours are told apart only after more than an hour.
pub open spec fn shows_hours(secs: nat) -> bool {
    secs > SECONDS_PER_HOUR
}

/// The seconds that are left once the hours are told.
pub open spec fn after_hours(secs: nat) -> nat {
    if shows_hours(secs) {
        secs % (SECONDS_PER_HOUR as nat)
    } else {
        secs
    }
}

/// Minutes are told apart only after more than a minute.
pub open spec fn shows_minutes(secs: nat) -> bool {
    after_hours(secs) > SECONDS_PER_MINUTE
}

/// The seconds that are left once hours and minutes are told.
pub open spec fn after_minutes(secs: nat) -> nat {
    if shows_minutes(secs) {
        after_hours(secs) % (SECONDS_PER_MINUTE as nat)
    } else {
        after_hours(secs)
    }
}

/// A span of seconds in words: the hours and an `h` after more than an
/// hour, the minutes and an `m` after more than a minute of what is left,
/// and the seconds and an `s` always.
pub open spec fn readable(secs: nat) -> Seq<char> {
    let hours = if shows_hours(secs) {
        decimal(secs / (SECONDS_PER_HOUR as nat)) + seq!['h', ' ']
    } else {
        Seq::empty()
    };
    let minutes = if shows_minutes(secs) {
        decimal(after_hours(secs) / (SECONDS_PER_MINUTE as nat)) + seq!['m', ' ']
    } else {
        Seq::empty()
    };
    hours + minutes + decimal(after_minutes(secs)) + seq!['s']
}

/// The line that opens a stretch called `message`.
pub open spec fn start_line(message: Seq<char>) -> Seq<char> {
    seq!['['] + message + seq![']', ' ', 's', 't', 'a', 'r', 't']
}

/// The line that closes a stretch called `message` after `secs` seconds
/// and `millis` milliseconds.
pub open spec fn finish_line(message: Seq<char>, secs: nat, millis: nat) -> Seq<char> {
    seq!['['] + message + seq![']', ' ', 'f', 'i', 'n', 'i', 's', 'h', ' ', '@', ' '] + readable(
        secs,
    ) + seq![' '] + decimal(millis) + seq!['m', 's']
}

fn digit_str(digit: u64) -> (text: &'static str)
    requires
        digit < 10,
    ensures
        text@ == seq![digit_char(digit as nat)],
{
    proof {
        reveal_strlit("0");
        reveal_strlit("1");
        reveal_strlit("2");
        reveal_strlit("3");
        reveal_strlit("4");
        reveal_strlit("5");
        reveal_strlit("6");
        reveal_strlit("7");
        reveal_strlit("8");
        reveal_strlit("9");
    }
    let text: &'static str = if digit == 0 {
        "0"
    } else if digit == 1 {
        "1"
    } else if digit == 2 {
        "2"
    } else if digit == 3 {
        "3"
    } else if digit == 4 {
        "4"
    } else if digit == 5 {
        "5"
    } else if digit == 6 {
        "6"
    } else if digit == 7 {
        "7"
    } else if digit == 8 {
        "8"
    } else {
        "9"
    };
    assert(text@ =~= seq![digit_char(digit as nat)]);
    text
}

fn push_decimal(out: &mut String, number: u64)
    ensures
        final(out)@ == old(out)@ + decimal(number as nat),
    decreases number,
{
    if number >= 10 {
        push_decimal(out, number / 10);
    }
    out.append(digit_str(number % 10));
    assert(final(out)@ =~= old(out)@ + decimal(number as nat));
}

/// A stretch of work that is timed.
pub struct Timer {
    message: String,
}

impl View for Timer {
    type V = Seq<char>;

    /// What the stretch is called.
    closed spec fn view(&self) -> Seq<char> {
        self.message@
    }
}

impl Timer {
    /// A timer for the stretch called `message`.
    pub fn new(message: &str) -> (timer: Timer)
        ensures
            timer@ == message@,
    {
        Timer { message: String::from_str(message) }
    }

    /// A span of whole seconds in words, such as `2h 5m 7s`.
    ///
    /// Hours are told only after more than an hour and minutes only after
    /// more than a minute, so an hour sharp reads `60m 0s` and a minute sharp
    /// `60s`.
    pub fn secs_to_readable(secs: u64) -> (result: String)
        ensures
            result@ == readable(secs as nat),
    {
        let mut rest: u64 = secs;
        let mut result: String = String::new();
        if rest > SECONDS_PER_HOUR {
            push_decimal(&mut result, rest / SECONDS_PER_HOUR);
            rest = rest % SECONDS_PER_HOUR;
            proof {
                reveal_strlit("h ");
            }
            result.append("h ");
        }
        if rest > SECONDS_PER_MINUTE {
            push_decimal(&mut result, rest / SECONDS_PER_MINUTE);
            rest = rest % SECONDS_PER_MINUTE;
            proof {
                reveal_strlit("m ");
            }
            result.append("m ");
        }
        push_decimal(&mut result, rest);
        proof {
            reveal_strlit("s");
        }
        result.append("s");
        assert(result@ =~= readable(secs as nat));
        result
    }

    /// The line to report when the stretch begins.
    pub fn start_message(&self) -> (line: String)
        ensures
            line@ == start_line(self@),
    {
        proof {
            reveal_strlit("[");
            reveal_strlit("] start");
        }
        let mut line: String = String::from_str("[");
        line.append(self.message.as_str());
        line.append("] start");
        assert(line@ =~= start_line(self@));
        line
    }

    /// The line to report when the stretch ends, `secs` seconds and `millis`
    /// milliseconds after it began.
    pub fn finish_message(&self, secs: u64, millis: u32) -> (line: String)
        ensures
            line@ == finish_line(self@, secs as nat, millis as nat),
    {
        proof {
            reveal_strlit("[");
            reveal_strlit("] finish @ ");
            reveal_strlit(" ");
            reveal_strlit("ms");
        }
        let mut line: String = String::from_str("[");
        line.append(self.message.as_str());
        line.append("] finish @ ");
        let span: String = Timer::secs_to_readable(secs);
        line.append(span.as_str());
        line.append(" ");
        push_decimal(&mut line, millis as u64);
        line.append("ms");
        assert(line@ =~= finish_line(self@, secs as nat, millis as nat));
        line
    }
}

} // verus!
