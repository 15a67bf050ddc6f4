//! Local wall-clock instants, held as plain calendar fields.
//!
//! The throttle only ever asks two things of an instant: whether two instants
//! fall on the same local calendar date, and how many minutes remain until the
//! next local midnight. Both are plain arithmetic over the fields, so the
//! instant is modeled directly as year/month/day/hour/minute.

use vstd::prelude::*;
use vstd::string::StringExecFns;

verus! {

/// Minutes in one day; the distance to the next midnight is measured in these.
pub const MINUTES_PER_DAY: u16 = 1440;

/// A local wall-clock instant with minute resolution.
#[derive(Clone, Copy, PartialEq, Eq, Structural, Debug)]
pub struct LocalInstant {
    pub year: u16,
    pub month: u8,
    pub day: u8,
    pub hour: u8,
    pub minute: u8,
}

impl LocalInstant {
    /// Field ranges of a plausible calendar instant. Day-in-month bounds
    /// beyond 1..=31 are left to whoever reads the wall clock.
    pub open spec fn wf(self) -> bool {
        &&& self.year <= 9999
        &&& 1 <= self.month <= 12
        &&& 1 <= self.day <= 31
        &&& self.hour <= 23
        &&& self.minute <= 59
    }

    /// Two instants fall on the same local calendar date.
    pub open spec fn same_date_spec(self, other: LocalInstant) -> bool {
        self.year == other.year && self.month == other.month && self.day == other.day
    }

    /// Minute of the day, 0 at midnight.
    pub open spec fn minute_of_day(self) -> int {
        self.hour * 60 + self.minute
    }

    /// Builds an instant, rejecting fields outside calendar ranges.
    pub fn new(year: u16, month: u8, day: u8, hour: u8, minute: u8) -> (r: Option<LocalInstant>)
        ensures
            ({
                let t = LocalInstant { year, month, day, hour, minute };
                if t.wf() {
                    r == Some(t)
                } else {
                    r is None
                }
            }),
    {
        if year <= 9999 && 1 <= month && month <= 12 && 1 <= day && day <= 31 && hour <= 23
            && minute <= 59 {
            Some(LocalInstant { year, month, day, hour, minute })
        } else {
            None
        }
    }

    /// The far-past instant a submitter starts with, so that the first
    /// submission is never throttled (no real date has year 0).
    pub fn sentinel() -> (r: LocalInstant)
        ensures
            r.wf(),
            r.year == 0,
    {
        LocalInstant { year: 0, month: 1, day: 1, hour: 0, minute: 0 }
    }

    /// Whether `self` and `other` fall on the same local calendar date.
    pub fn same_date(&self, other: &LocalInstant) -> (b: bool)
        ensures
            b == self.same_date_spec(*other),
    {
        self.year == other.year && self.month == other.month && self.day == other.day
    }

    /// Minutes from `self` to the next local midnight; always in 1..=1440.
    pub fn minutes_until_midnight(&self) -> (m: u16)
        requires
            self.wf(),
        ensures
            m == MINUTES_PER_DAY - self.minute_of_day(),
            1 <= m <= MINUTES_PER_DAY,
    {
        MINUTES_PER_DAY - (self.hour as u16 * 60 + self.minute as u16)
    }
}

/// The sentinel never shares a calendar date with a real (year >= 1) instant,
/// so a freshly registered submitter is always allowed to submit.
pub proof fn lemma_sentinel_precedes_every_real_date(sentinel: LocalInstant, now: LocalInstant)
    requires
        sentinel.year == 0,
        now.year >= 1,
    ensures
        !sentinel.same_date_spec(now),
{
}

/// Splits a minute count into whole hours and leftover minutes.
pub fn hours_minutes(total: u16) -> (hm: (u16, u16))
    ensures
        hm.0 == total / 60,
        hm.1 == total % 60,
        hm.0 * 60 + hm.1 == total,
{
    (total / 60, total % 60)
}

/// The decimal digit character for `d` in 0..=9 (and a harmless default
/// outside that range, which well-formed instants never reach).
pub open spec fn digit_char(d: int) -> char {
    if d == 0 {
        '0'
    } else if d == 1 {
        '1'
    } else if d == 2 {
        '2'
    } else if d == 3 {
        '3'
    } else if d == 4 {
        '4'
    } else if d == 5 {
        '5'
    } else if d == 6 {
        '6'
    } else if d == 7 {
        '7'
    } else if d == 8 {
        '8'
    } else {
        '9'
    }
}

/// `n` rendered as exactly two decimal digits, zero-padded.
pub open spec fn two_digit_seq(n: int) -> Seq<char> {
    seq![digit_char(n / 10), digit_char(n % 10)]
}

/// `n` rendered as exactly four decimal digits, zero-padded.
pub open spec fn four_digit_seq(n: int) -> Seq<char> {
    two_digit_seq(n / 100) + two_digit_seq(n % 100)
}

/// The printed header line for an instant: `YYYY-MM-DD HH:MM`.
pub open spec fn timestamp_seq(t: LocalInstant) -> Seq<char> {
    four_digit_seq(t.year as int) + seq!['-'] + two_digit_seq(t.month as int) + seq!['-']
        + two_digit_seq(t.day as int) + seq![' '] + two_digit_seq(t.hour as int) + seq![':']
        + two_digit_seq(t.minute as int)
}

fn digit_str(d: u16) -> (s: &'static str)
    requires
        d <= 9,
    ensures
        s@ =~= seq![digit_char(d as int)],
{
    proof {
        reveal_strlit("0");
        reveal_strlit("1");
        reveal_strlit("2");
        reveal_strlit("3");
        reveal_strlit("4");
        reveal_strlit("5");
        reveal_strlit("6");
        reveal_strlit("7");
        reveal_strlit("8");
        reveal_strlit("9");
    }
    match d {
        0 => "0",
        1 => "1",
        2 => "2",
        3 => "3",
        4 => "4",
        5 => "5",
        6 => "6",
        7 => "7",
        8 => "8",
        _ => "9",
    }
}

fn push_two_digits(out: &mut String, n: u16)
    requires
        n <= 99,
    ensures
        final(out)@ == old(out)@ + two_digit_seq(n as int),
{
    out.append(digit_str(n / 10));
    out.append(digit_str(n % 10));
    proof {
        assert(out@ =~= old(out)@ + two_digit_seq(n as int));
    }
}

/// Renders `t` as `YYYY-MM-DD HH:MM`, each field zero-padded.
pub fn format_timestamp(t: &LocalInstant) -> (s: String)
    requires
        t.wf(),
    ensures
        s@ == timestamp_seq(*t),
{
    proof {
        reveal_strlit("-");
        reveal_strlit(" ");
        reveal_strlit(":");
    }
    let mut s = String::new();
    push_two_digits(&mut s, t.year / 100);
    push_two_digits(&mut s, t.year % 100);
    s.append("-");
    push_two_digits(&mut s, t.month as u16);
    s.append("-");
    push_two_digits(&mut s, t.day as u16);
    s.append(" ");
    push_two_digits(&mut s, t.hour as u16);
    s.append(":");
    push_two_digits(&mut s, t.minute as u16);
    proof {
        assert(s@ =~= timestamp_seq(*t));
    }
    s
}

} // verus!
