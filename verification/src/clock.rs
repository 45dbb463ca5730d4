//! The clock widget's text: the local time is read through one trusted
//! call into the `chrono` crate, and the `DD/MM HH:MM` rendering of it
//! is verified.

use chrono::Datelike;
use chrono::Timelike;
use vstd::prelude::*;
use vstd::string::StringExecFns;

use crate::text;

verus! {

/// A calendar field padded to two digits.
pub open spec fn two_digits(n: nat) -> Seq<char> {
    if n < 10 {
        seq!['0'] + text::dec_str(n)
    } else {
        text::dec_str(n)
    }
}

/// The clock text `DD/MM HH:MM` for a local day, month, hour and minute.
pub open spec fn clock_text(day: nat, month: nat, hour: nat, minute: nat) -> Seq<char> {
    two_digits(day) + seq!['/'] + two_digits(month) + seq![' '] + two_digits(hour) + seq![':']
        + two_digits(minute)
}

/// Whether `s` is the clock text of some calendar-valid local time.
pub open spec fn is_clock_text(s: Seq<char>) -> bool {
    exists|day: nat, month: nat, hour: nat, minute: nat|
        1 <= day <= 31 && 1 <= month <= 12 && hour < 24 && minute < 60 && s == #[trigger]
        clock_text(day, month, hour, minute)
}

/// Relies on `chrono::Local::now` and its `Datelike`/`Timelike`
/// accessors: the local civil day, month, hour and minute of the system
/// clock.  The value depends on the clock and time zone, so only the
/// calendar ranges are assumed.
#[verifier::external_body]
fn local_now_parts() -> (r: (u32, u32, u32, u32))
    ensures
        1 <= r.0 <= 31,
        1 <= r.1 <= 12,
        r.2 < 24,
        r.3 < 60,
{
    let now = chrono::Local::now();
    (now.day(), now.month(), now.hour(), now.minute())
}

/// Appends a calendar field padded to two digits.
fn push_two_digits(out: &mut String, n: u32)
    ensures
        final(out)@ == old(out)@ + two_digits(n as nat),
{
    if n < 10 {
        proof {
            reveal_strlit("0");
        }
        out.append("0");
    }
    text::push_decimal(out, n as u64);
}

/// Renders one local time as the clock text.
pub fn format_clock(day: u32, month: u32, hour: u32, minute: u32) -> (r: String)
    ensures
        r@ == clock_text(day as nat, month as nat, hour as nat, minute as nat),
{
    proof {
        reveal_strlit("/");
        reveal_strlit(" ");
        reveal_strlit(":");
    }
    let mut out = String::new();
    push_two_digits(&mut out, day);
    out.append("/");
    push_two_digits(&mut out, month);
    out.append(" ");
    push_two_digits(&mut out, hour);
    out.append(":");
    push_two_digits(&mut out, minute);
    proof {
        assert(out@ =~= clock_text(day as nat, month as nat, hour as nat, minute as nat));
    }
    out
}

/// The current local time as the clock text `DD/MM HH:MM`.
pub fn get_clock() -> (r: String)
    ensures
        is_clock_text(r@),
{
    let (day, month, hour, minute) = local_now_parts();
    let r = format_clock(day, month, hour, minute);
    proof {
        assert(r@ == clock_text(day as nat, month as nat, hour as nat, minute as nat));
    }
    r
}

} // verus!
