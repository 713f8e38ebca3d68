//! The line that shows one event on the agenda.
//!
//! An event with times is shown as `09:00 - 09:15 (5 minutes) | Standup`: its
//! begin and end, how long it is until it begins, and its title. An event
//! that lasts whole days is shown as `Today | Holiday` where it lasts one
//! day, and else with its first and last day, as in
//! `Jun 03 - Jun 05 | Trip`.

use crate::clock::{lemma_seconds_not_negative, month_day_text, write_month_day, TimeOfDay};
use crate::event::{Event, EventView};
use vstd::prelude::*;

verus! {

/// The character that stands for the digit `d`.
pub open spec fn digit(d: int) -> char {
    if d == 0 {
        '0'
    } else if d == 1 {
        '1'
    } else if d == 2 {
        '2'
    } else if d == 3 {
        '3'
    } else if d == 4 {
        '4'
    } else if d == 5 {
        '5'
    } else if d == 6 {
        '6'
    } else if d == 7 {
        '7'
    } else if d == 8 {
        '8'
    } else {
        '9'
    }
}

/// The digits of `n` in base ten, without leading zeros.
pub open spec fn decimal(n: nat) -> Seq<char>
    decreases n,
{
    if n < 10 {
        seq![digit(n as int)]
    } else {
        decimal(n / 10).push(digit((n % 10) as int))
    }
}

/// The digits of `n`, with a zero in front where there is only one.
pub open spec fn two_digits(n: nat) -> Seq<char> {
    if n < 10 {
        seq!['0'] + decimal(n)
    } else {
        decimal(n)
    }
}

/// How long it is until an event begins: `(Now)` where it has begun, the
/// whole minutes where they are fewer than 60, and else the whole hours.
pub open spec fn countdown_text(begin: TimeOfDay, now: TimeOfDay) -> Seq<char> {
    let minutes = begin.seconds_from(now) / 60;
    let hours = begin.seconds_from(now) / 3600;
    if !now.le(begin) {
        "(Now)"@
    } else if minutes < 60 {
        "("@ + decimal(minutes as nat) + if minutes == 1 {
            " minute)"@
        } else {
            " minutes)"@
        }
    } else {
        "("@ + decimal(hours as nat) + if hours == 1 {
            " hour)"@
        } else {
            " hours)"@
        }
    }
}

/// The hour and the minute of `time`, two digits each.
pub open spec fn clock_text(time: TimeOfDay) -> Seq<char> {
    two_digits((time.secs / 3600) as nat) + ":"@ + two_digits((time.secs / 60 % 60) as nat)
}

/// The line of an event with times, at the time of day `now`.
pub open spec fn timed_text(
    begin: TimeOfDay,
    end: TimeOfDay,
    now: TimeOfDay,
    title: Seq<char>,
) -> Seq<char> {
    clock_text(begin) + " - "@ + clock_text(end) + " "@ + countdown_text(begin, now) + " | "@
        + title
}

/// The line of an event that lasts one whole day.
pub open spec fn today_text(title: Seq<char>) -> Seq<char> {
    "Today | "@ + title
}

/// The line of an event that lasts from the day written `first` to the day
/// written `last`.
pub open spec fn days_text(first: Seq<char>, last: Seq<char>, title: Seq<char>) -> Seq<char> {
    first + " - "@ + last + " | "@ + title
}

impl EventView {
    /// The line that shows the event at the time of day `now`. An event with
    /// times has one where its begin and `now` are times of day. One that
    /// lasts whole days has one where it lasts one day, or its first day and
    /// the day before its end date are dates that can be written.
    pub open spec fn line_at(self, now: TimeOfDay) -> Option<Seq<char>> {
        match self {
            EventView::Once { title, begin, end, .. }
            | EventView::Recurring { title, begin, end, .. } => {
                if begin.is_time() && now.is_time() {
                    Some(timed_text(begin, end, now, title))
                } else {
                    None
                }
            },
            EventView::AllDay { title, begin_date, end_date } => {
                if end_date.days - begin_date.days == 1 {
                    Some(today_text(title))
                } else if end_date.days == i32::MIN {
                    None
                } else {
                    match (
                        month_day_text(begin_date.days),
                        month_day_text((end_date.days - 1) as i32),
                    ) {
                        (Some(first), Some(last)) => Some(days_text(first, last, title)),
                        _ => None,
                    }
                }
            },
        }
    }
}

/// The text of one digit.
fn digit_text(d: u64) -> (r: &'static str)
    requires
        d < 10,
    ensures
        r@ == seq![digit(d as int)],
{
    proof {
        reveal_strlit("0");
        reveal_strlit("1");
        reveal_strlit("2");
        reveal_strlit("3");
        reveal_strlit("4");
        reveal_strlit("5");
        reveal_strlit("6");
        reveal_strlit("7");
        reveal_strlit("8");
        reveal_strlit("9");
    }
    let r = if d == 0 {
        "0"
    } else if d == 1 {
        "1"
    } else if d == 2 {
        "2"
    } else if d == 3 {
        "3"
    } else if d == 4 {
        "4"
    } else if d == 5 {
        "5"
    } else if d == 6 {
        "6"
    } else if d == 7 {
        "7"
    } else if d == 8 {
        "8"
    } else {
        "9"
    };
    assert(r@ =~= seq![digit(d as int)]);
    r
}

/// Writes the digits of `n` behind `out`.
fn push_decimal(out: &mut String, n: u64)
    ensures
        final(out)@ == old(out)@ + decimal(n as nat),
    decreases n,
{
    if n >= 10 {
        push_decimal(out, n / 10);
    }
    out.append(digit_text(n % 10));
    proof {
        if n >= 10 {
            assert(old(out)@ + decimal((n / 10) as nat) + seq![digit((n % 10) as int)] =~= old(
                out,
            )@ + decimal(n as nat));
        }
    }
}

/// Writes the digits of `n` behind `out`, two at the least.
fn push_two_digits(out: &mut String, n: u64)
    ensures
        final(out)@ == old(out)@ + two_digits(n as nat),
{
    if n < 10 {
        proof {
            reveal_strlit("0");
        }
        out.append("0");
        assert(out@ =~= old(out)@ + seq!['0']);
    }
    push_decimal(out, n);
    assert(out@ =~= old(out)@ + two_digits(n as nat));
}

/// Writes the hour and the minute of `time` behind `out`.
fn push_clock(out: &mut String, time: TimeOfDay)
    ensures
        final(out)@ == old(out)@ + clock_text(time),
{
    push_two_digits(out, time.hour() as u64);
    out.append(":");
    push_two_digits(out, time.minute() as u64);
    assert(out@ =~= old(out)@ + clock_text(time));
}

/// Writes how long it is until an event begins, where its begin and `now`
/// are times of day.
pub fn countdown(begin: TimeOfDay, now: TimeOfDay) -> (r: Option<String>)
    ensures
        r.deep_view() == if begin.is_time() && now.is_time() {
            Some(countdown_text(begin, now))
        } else {
            None
        },
{
    let seconds: i64 = match begin.seconds_since(now) {
        Some(seconds) => seconds,
        None => {
            return None;
        },
    };
    if !now.not_after(begin) {
        return Some(String::from_str("(Now)"));
    }
    proof {
        lemma_seconds_not_negative(begin, now);
    }
    let minutes: u64 = (seconds / 60) as u64;
    let mut out = String::from_str("(");
    if minutes < 60 {
        push_decimal(&mut out, minutes);
        if minutes == 1 {
            out.append(" minute)");
        } else {
            out.append(" minutes)");
        }
    } else {
        let hours: u64 = (seconds / 3600) as u64;
        push_decimal(&mut out, hours);
        if hours == 1 {
            out.append(" hour)");
        } else {
            out.append(" hours)");
        }
    }
    Some(out)
}

/// Writes the line of an event with times, at the time of day `now`, where
/// its begin and `now` are times of day.
pub fn timed_line(begin: TimeOfDay, end: TimeOfDay, now: TimeOfDay, title: &str) -> (r: Option<
    String,
>)
    ensures
        r.deep_view() == if begin.is_time() && now.is_time() {
            Some(timed_text(begin, end, now, title@))
        } else {
            None
        },
{
    let hint = match countdown(begin, now) {
        Some(hint) => hint,
        None => {
            return None;
        },
    };
    let mut out = String::new();
    push_clock(&mut out, begin);
    out.append(" - ");
    push_clock(&mut out, end);
    out.append(" ");
    out.append(hint.as_str());
    out.append(" | ");
    out.append(title);
    proof {
        assert(out@ =~= timed_text(begin, end, now, title@));
    }
    Some(out)
}

/// Writes the line of an event that lasts one whole day.
pub fn today_line(title: &str) -> (r: String)
    ensures
        r@ == today_text(title@),
{
    let mut out = String::from_str("Today | ");
    out.append(title);
    out
}

/// Writes the line of an event that lasts from the day written `first` to
/// the day written `last`.
pub fn days_line(first: &str, last: &str, title: &str) -> (r: String)
    ensures
        r@ == days_text(first@, last@, title@),
{
    let mut out = String::from_str(first);
    out.append(" - ");
    out.append(last);
    out.append(" | ");
    out.append(title);
    out
}

impl Event {
    /// Writes the line that shows the event at the time of day `now`.
    ///
    /// An event with times has a line where its begin and `now` are times of
    /// day. One that lasts whole days has a line where it lasts one day, or
    /// its first day and the day before its end date are dates that can be
    /// written.
    pub fn render(&self, now: TimeOfDay) -> (r: Option<String>)
        ensures
            r.deep_view() == self@.line_at(now),
            !(self@ is AllDay) && self@.well_formed() && now.is_time() ==> r is Some,
    {
        match self {
            Event::Once { title, begin, end, .. } | Event::Recurring { title, begin, end, .. } => {
                timed_line(*begin, *end, now, title.as_str())
            },
            Event::AllDay { title, begin_date, end_date } => {
                if end_date.days as i64 - begin_date.days as i64 == 1 {
                    return Some(today_line(title.as_str()));
                }
                let last_day = match end_date.pred() {
                    Some(date) => date,
                    None => {
                        return None;
                    },
                };
                let first = match write_month_day(begin_date.days) {
                    Some(text) => text,
                    None => {
                        return None;
                    },
                };
                match write_month_day(last_day.days) {
                    Some(last) => Some(days_line(first.as_str(), last.as_str(), title.as_str())),
                    None => None,
                }
            },
        }
    }
}

} // verus!
