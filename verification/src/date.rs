//! The day a task is added, and how it is written down.

use crate::text::{all_digits, decimal, lemma_decimal_reads_back, push_decimal};
use chrono::Datelike;
use vstd::prelude::*;
use vstd::string::*;

verus! {

/// A day of the calendar.
#[derive(Clone, Copy, Debug, PartialEq, Eq, Structural)]
pub struct CalendarDate {
    pub year: i32,
    /// The month, counted from 1.
    pub month: u32,
    /// The day of the month, counted from 1.
    pub day: u32,
}

impl CalendarDate {
    /// Whether the month and the day are in the range of the calendar's.
    /// Nothing is asked of how many days the month has.
    pub open spec fn in_range(&self) -> bool {
        1 <= self.month <= 12 && 1 <= self.day <= 31
    }
}

/// `n` in decimal, with a zero before it if it has one digit only.
pub open spec fn two_digits(n: nat) -> Seq<char> {
    if n < 10 {
        seq!['0'] + decimal(n)
    } else {
        decimal(n)
    }
}

/// A day written as `MM/DD/YY`: the month, the day and the last two digits of
/// the year, two digits each.
pub open spec fn date_text(date: CalendarDate) -> Seq<char> {
    two_digits(date.month as nat) + seq!['/'] + two_digits(date.day as nat) + seq!['/']
        + two_digits((date.year as int % 100) as nat)
}

/// Whether `s` has the shape `MM/DD/YY`: eight characters, digits but for the
/// two slashes.
pub open spec fn is_date_shaped(s: Seq<char>) -> bool {
    &&& s.len() == 8
    &&& all_digits(s.subrange(0, 2))
    &&& s[2] == '/'
    &&& all_digits(s.subrange(3, 5))
    &&& s[5] == '/'
    &&& all_digits(s.subrange(6, 8))
}

/// Whether `s` is what some day of the calendar is written as.
pub open spec fn is_day_text(s: Seq<char>) -> bool {
    exists|date: CalendarDate| date.in_range() && s == date_text(date)
}

/// A number below a hundred takes exactly two digits.
pub proof fn lemma_two_digits(n: nat)
    requires
        n < 100,
    ensures
        two_digits(n).len() == 2,
        all_digits(two_digits(n)),
{
    lemma_decimal_reads_back(n);
    if n >= 10 {
        assert(decimal(n / 10).len() == 1);
    }
}

/// Every day of the calendar is written in the shape `MM/DD/YY`.
pub proof fn lemma_date_text_shape(date: CalendarDate)
    requires
        date.in_range(),
    ensures
        is_date_shaped(date_text(date)),
{
    let month = two_digits(date.month as nat);
    let day = two_digits(date.day as nat);
    let year = two_digits((date.year as int % 100) as nat);
    lemma_two_digits(date.month as nat);
    lemma_two_digits(date.day as nat);
    lemma_two_digits((date.year as int % 100) as nat);
    let s = date_text(date);
    assert(s.subrange(0, 2) =~= month);
    assert(s.subrange(3, 5) =~= day);
    assert(s.subrange(6, 8) =~= year);
}

/// The local calendar day at the moment of the call: the year, month and day
/// that `chrono::Datelike` reads off `chrono::Local::now()`. Which day comes
/// back depends on the clock and the time zone of the machine, so the
/// contract holds only what chrono documents of every date: the month is
/// between 1 and 12, the day between 1 and 31.
#[verifier::external_body]
pub(crate) fn local_today() -> (today: CalendarDate)
    ensures
        today.in_range(),
{
    let now = chrono::Local::now();
    CalendarDate { year: now.year(), month: now.month(), day: now.day() }
}

/// Appends `n` in at least two digits, as the format `{:02}` writes it.
fn push_two_digits(out: &mut String, n: u32)
    ensures
        final(out)@ == old(out)@ + two_digits(n as nat),
{
    if n < 10 {
        proof {
            reveal_strlit("0");
        }
        out.append("0");
    }
    push_decimal(out, n as u64);
    assert(out@ =~= old(out)@ + two_digits(n as nat));
}

/// Writes a day as `MM/DD/YY`.
pub fn format_date(date: CalendarDate) -> (text: String)
    ensures
        text@ == date_text(date),
        date.in_range() ==> is_date_shaped(text@),
{
    let remainder: i32 = date.year % 100;
    let short_year: i32 = if remainder < 0 {
        remainder + 100
    } else {
        remainder
    };
    assert(short_year == date.year as int % 100);
    let mut text = String::new();
    proof {
        reveal_strlit("/");
    }
    push_two_digits(&mut text, date.month);
    text.append("/");
    push_two_digits(&mut text, date.day);
    text.append("/");
    push_two_digits(&mut text, short_year as u32);
    assert(text@ =~= date_text(date));
    proof {
        if date.in_range() {
            lemma_date_text_shape(date);
        }
    }
    text
}

} // verus!
