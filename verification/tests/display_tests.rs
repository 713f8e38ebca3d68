use agenda::clock::{Date, TimeOfDay, Weekday};
use agenda::display::{countdown, days_line, timed_line, today_line};
use agenda::event::Event;
use chrono::{Datelike, NaiveDate};

fn date(year: i32, month: u32, day: u32) -> Date {
    Date { days: NaiveDate::from_ymd_opt(year, month, day).unwrap().num_days_from_ce() }
}

fn time(hour: u32, minute: u32) -> TimeOfDay {
    TimeOfDay { secs: hour * 3600 + minute * 60, nanos: 0 }
}

fn clock(hour: u32, minute: u32, second: u32) -> TimeOfDay {
    TimeOfDay { secs: hour * 3600 + minute * 60 + second, nanos: 0 }
}

fn once(begin: TimeOfDay, end: TimeOfDay) -> Event {
    Event::Once { title: "Standup".to_string(), begin, end, day: date(2024, 6, 3) }
}

fn hint(begin: TimeOfDay, now: TimeOfDay) -> String {
    countdown(begin, now).unwrap()
}

#[test]
fn countdown_is_now_once_the_event_has_begun() {
    assert_eq!(hint(time(9, 0), time(9, 5)), "(Now)");
    assert_eq!(hint(time(9, 0), clock(9, 0, 30)), "(Now)");
    assert_eq!(hint(time(9, 0), clock(9, 0, 1)), "(Now)");
    assert_eq!(hint(time(9, 0), TimeOfDay { secs: 9 * 3600, nanos: 1 }), "(Now)");
    assert_eq!(hint(time(0, 0), TimeOfDay { secs: 86_399, nanos: 1_999_999_999 }), "(Now)");
    assert_eq!(
        hint(TimeOfDay { secs: 59, nanos: 1_000_000_000 }, TimeOfDay { secs: 59, nanos: 1_000_000_001 }),
        "(Now)"
    );
}

#[test]
fn countdown_in_minutes() {
    assert_eq!(hint(time(9, 0), time(9, 0)), "(0 minutes)");
    assert_eq!(hint(TimeOfDay { secs: 32_400, nanos: 7 }, TimeOfDay { secs: 32_400, nanos: 7 }), "(0 minutes)");
    assert_eq!(hint(time(9, 0), clock(8, 59, 1)), "(0 minutes)");
    assert_eq!(hint(time(9, 0), time(8, 59)), "(1 minute)");
    assert_eq!(hint(time(9, 0), clock(8, 58, 1)), "(1 minute)");
    assert_eq!(hint(time(9, 0), time(8, 58)), "(2 minutes)");
    assert_eq!(hint(time(9, 0), time(8, 55)), "(5 minutes)");
    assert_eq!(hint(time(9, 0), time(8, 50)), "(10 minutes)");
    assert_eq!(hint(time(9, 0), clock(8, 0, 1)), "(59 minutes)");
    assert_eq!(hint(time(9, 0), TimeOfDay { secs: 8 * 3600, nanos: 1 }), "(59 minutes)");
}

#[test]
fn countdown_in_hours() {
    assert_eq!(hint(time(9, 0), time(8, 0)), "(1 hour)");
    assert_eq!(hint(time(10, 0), time(9, 0)), "(1 hour)");
    assert_eq!(hint(time(9, 0), clock(7, 0, 1)), "(1 hour)");
    assert_eq!(hint(time(9, 0), time(7, 0)), "(2 hours)");
    assert_eq!(hint(time(18, 0), time(16, 0)), "(2 hours)");
    assert_eq!(hint(time(18, 0), time(6, 0)), "(12 hours)");
    assert_eq!(hint(clock(23, 59, 59), time(0, 0)), "(23 hours)");
}

#[test]
fn countdown_counts_a_leap_second() {
    let leap = TimeOfDay { secs: 8 * 3600 + 59, nanos: 1_000_000_000 };
    assert_eq!(hint(clock(8, 1, 59), leap), "(1 minute)");
    assert_eq!(hint(clock(8, 1, 58), leap), "(0 minutes)");
    let within = TimeOfDay { secs: 8 * 3600 + 59, nanos: 1_500_000_000 };
    assert_eq!(hint(within, clock(7, 59, 0)), "(2 minutes)");
    assert_eq!(hint(within, clock(7, 59, 1)), "(1 minute)");
}

#[test]
fn no_countdown_for_numbers_that_are_no_time_of_day() {
    assert_eq!(countdown(TimeOfDay { secs: 86_400, nanos: 0 }, time(8, 0)), None);
    assert_eq!(countdown(time(9, 0), TimeOfDay { secs: 86_400, nanos: 0 }), None);
    assert_eq!(countdown(time(8, 0), TimeOfDay { secs: 90_000, nanos: 0 }), None);
    assert_eq!(countdown(TimeOfDay { secs: 0, nanos: 2_000_000_000 }, time(8, 0)), None);
    assert_eq!(countdown(TimeOfDay { secs: 0, nanos: 1_000_000_000 }, time(8, 0)), None);
    assert_eq!(countdown(time(9, 0), TimeOfDay { secs: 58, nanos: 1_000_000_000 }), None);
    assert!(countdown(time(9, 0), TimeOfDay { secs: 59, nanos: 1_999_999_999 }).is_some());
}

#[test]
fn seconds_are_counted_as_the_difference_towards_zero() {
    fn is_time(t: TimeOfDay) -> bool {
        t.secs < 86_400 && t.nanos < 2_000_000_000 && (t.nanos < 1_000_000_000 || t.secs % 60 == 59)
    }
    fn expected(to: TimeOfDay, from: TimeOfDay) -> Option<i64> {
        if !is_time(to) || !is_time(from) {
            return None;
        }
        let leap: i64 = if to.secs > from.secs && from.nanos >= 1_000_000_000 {
            1
        } else if to.secs < from.secs && to.nanos >= 1_000_000_000 {
            -1
        } else {
            0
        };
        let nanos = (i64::from(to.secs) - i64::from(from.secs) + leap) * 1_000_000_000
            + (i64::from(to.nanos) - i64::from(from.nanos));
        Some(if nanos >= 0 { nanos / 1_000_000_000 } else { -((-nanos) / 1_000_000_000) })
    }
    let seconds = [0, 1, 58, 59, 60, 61, 119, 3_599, 3_600, 43_200, 86_339, 86_398, 86_399, 86_400, 90_000];
    let nanos = [
        0,
        1,
        499_999_999,
        999_999_999,
        1_000_000_000,
        1_000_000_001,
        1_999_999_999,
        2_000_000_000,
    ];
    for to_secs in seconds {
        for to_nanos in nanos {
            for from_secs in seconds {
                for from_nanos in nanos {
                    let to = TimeOfDay { secs: to_secs, nanos: to_nanos };
                    let from = TimeOfDay { secs: from_secs, nanos: from_nanos };
                    assert_eq!(to.seconds_since(from), expected(to, from), "{:?} {:?}", to, from);
                    assert_eq!(to.is_time(), is_time(to));
                }
            }
        }
    }
    assert_eq!(time(9, 0).seconds_since(time(8, 55)), Some(300));
    assert_eq!(time(8, 55).seconds_since(time(9, 0)), Some(-300));
    assert_eq!(time(9, 0).seconds_since(TimeOfDay { secs: 32_099, nanos: 999_999_999 }), Some(300));
    assert_eq!(time(9, 0).seconds_since(TimeOfDay { secs: 32_100, nanos: 1 }), Some(299));
    assert_eq!(TimeOfDay { secs: 32_100, nanos: 1 }.seconds_since(time(9, 0)), Some(-299));
}

#[test]
fn timed_lines() {
    assert_eq!(
        timed_line(time(9, 0), time(9, 15), time(8, 55), "Standup"),
        Some("09:00 - 09:15 (5 minutes) | Standup".to_string())
    );
    assert_eq!(
        timed_line(time(9, 0), time(9, 15), time(8, 59), "Standup"),
        Some("09:00 - 09:15 (1 minute) | Standup".to_string())
    );
    assert_eq!(
        timed_line(time(9, 0), time(9, 15), time(9, 5), "Standup"),
        Some("09:00 - 09:15 (Now) | Standup".to_string())
    );
    assert_eq!(
        timed_line(time(9, 0), time(9, 15), clock(9, 0, 30), "Standup"),
        Some("09:00 - 09:15 (Now) | Standup".to_string())
    );
    assert_eq!(
        timed_line(time(10, 0), time(11, 0), time(9, 0), "Retro"),
        Some("10:00 - 11:00 (1 hour) | Retro".to_string())
    );
    assert_eq!(
        timed_line(time(18, 5), time(23, 59), time(8, 5), "Late show"),
        Some("18:05 - 23:59 (10 hours) | Late show".to_string())
    );
    assert_eq!(
        timed_line(time(0, 1), time(0, 2), time(0, 0), ""),
        Some("00:01 - 00:02 (1 minute) | ".to_string())
    );
    assert_eq!(
        timed_line(time(1, 2), TimeOfDay { secs: 360_000 + 61, nanos: 7 }, time(1, 2), "x"),
        Some("01:02 - 100:01 (0 minutes) | x".to_string())
    );
    assert_eq!(timed_line(TimeOfDay { secs: 86_400, nanos: 0 }, time(3, 4), time(1, 2), "x"), None);
    assert_eq!(timed_line(time(3, 4), time(3, 4), TimeOfDay { secs: 86_400, nanos: 0 }, "x"), None);
}

#[test]
fn all_day_lines() {
    assert_eq!(today_line("Holiday"), "Today | Holiday");
    assert_eq!(today_line(""), "Today | ");
    assert_eq!(days_line("Jul 04", "Jul 07", "Trip"), "Jul 04 - Jul 07 | Trip");
}

#[test]
fn timed_event_counts_from_now_to_its_begin() {
    let event = once(time(9, 0), time(9, 15));
    assert_eq!(event.render(time(8, 55)), Some("09:00 - 09:15 (5 minutes) | Standup".to_string()));
    assert_eq!(event.render(time(8, 59)), Some("09:00 - 09:15 (1 minute) | Standup".to_string()));
    assert_eq!(event.render(time(9, 0)), Some("09:00 - 09:15 (0 minutes) | Standup".to_string()));
    assert_eq!(event.render(clock(9, 0, 30)), Some("09:00 - 09:15 (Now) | Standup".to_string()));
    assert_eq!(event.render(time(9, 5)), Some("09:00 - 09:15 (Now) | Standup".to_string()));
    assert_eq!(event.render(time(9, 20)), Some("09:00 - 09:15 (Now) | Standup".to_string()));
    assert_eq!(event.render(time(7, 0)), Some("09:00 - 09:15 (2 hours) | Standup".to_string()));
    assert_eq!(
        event.render(TimeOfDay { secs: 7 * 3600, nanos: 1 }),
        Some("09:00 - 09:15 (1 hour) | Standup".to_string())
    );
    assert_eq!(
        event.render(TimeOfDay { secs: 8 * 3600 + 58 * 60, nanos: 500 }),
        Some("09:00 - 09:15 (1 minute) | Standup".to_string())
    );
}

#[test]
fn one_hour_ahead_is_shown_in_hours() {
    let event = Event::Once {
        title: "Retro".to_string(),
        begin: time(10, 0),
        end: time(11, 0),
        day: date(2024, 6, 3),
    };
    assert_eq!(event.render(time(9, 0)), Some("10:00 - 11:00 (1 hour) | Retro".to_string()));
}

#[test]
fn recurring_event_is_shown_as_a_timed_one() {
    let event = Event::Recurring {
        title: "Gym".to_string(),
        begin: time(18, 0),
        end: time(19, 0),
        begin_recur: date(2024, 1, 1),
        end_recur: None,
        recur_days: vec![Weekday::Mon],
    };
    assert_eq!(event.render(time(16, 0)), Some("18:00 - 19:00 (2 hours) | Gym".to_string()));
}

#[test]
fn no_line_for_numbers_that_are_no_time_of_day() {
    assert_eq!(once(TimeOfDay { secs: 86_400, nanos: 0 }, time(9, 0)).render(time(8, 0)), None);
    assert_eq!(once(TimeOfDay { secs: 0, nanos: 2_000_000_000 }, time(9, 0)).render(time(8, 0)), None);
    assert_eq!(once(TimeOfDay { secs: 0, nanos: 1_000_000_000 }, time(9, 0)).render(time(8, 0)), None);
    assert_eq!(once(time(9, 0), time(9, 0)).render(TimeOfDay { secs: 86_400, nanos: 0 }), None);
    assert!(once(time(9, 0), TimeOfDay { secs: 90_000, nanos: 0 }).render(time(8, 0)).is_some());
}

#[test]
fn all_day_event_of_one_day_is_today() {
    let event = Event::AllDay {
        title: "Holiday".to_string(),
        begin_date: date(2024, 7, 4),
        end_date: date(2024, 7, 5),
    };
    assert_eq!(event.render(time(8, 0)), Some("Today | Holiday".to_string()));
    assert_eq!(event.render(time(23, 59)), Some("Today | Holiday".to_string()));
    assert_eq!(event.render(TimeOfDay { secs: 86_400, nanos: 0 }), Some("Today | Holiday".to_string()));
    let far = Event::AllDay {
        title: "Far".to_string(),
        begin_date: Date { days: i32::MAX - 1 },
        end_date: Date { days: i32::MAX },
    };
    assert_eq!(far.render(time(8, 0)), Some("Today | Far".to_string()));
}

#[test]
fn all_day_event_of_more_days_names_its_first_and_last_day() {
    let event = Event::AllDay {
        title: "Trip".to_string(),
        begin_date: date(2024, 7, 4),
        end_date: date(2024, 7, 8),
    };
    assert_eq!(event.render(time(8, 0)), Some("Jul 04 - Jul 07 | Trip".to_string()));
    let over_new_year = Event::AllDay {
        title: "Break".to_string(),
        begin_date: date(2023, 12, 24),
        end_date: date(2024, 1, 1),
    };
    assert_eq!(over_new_year.render(time(8, 0)), Some("Dec 24 - Dec 31 | Break".to_string()));
    let leap = Event::AllDay {
        title: "Leap".to_string(),
        begin_date: date(2024, 2, 1),
        end_date: date(2024, 3, 1),
    };
    assert_eq!(leap.render(time(8, 0)), Some("Feb 01 - Feb 29 | Leap".to_string()));
}

#[test]
fn all_day_event_that_ends_on_its_first_day_names_the_day_before() {
    let event = Event::AllDay {
        title: "Holiday".to_string(),
        begin_date: date(2024, 6, 3),
        end_date: date(2024, 6, 3),
    };
    assert_eq!(event.render(time(8, 0)), Some("Jun 03 - Jun 02 | Holiday".to_string()));
}

#[test]
fn days_are_written_as_chrono_writes_them() {
    let begin = NaiveDate::from_ymd_opt(2024, 9, 28).unwrap();
    let end = NaiveDate::from_ymd_opt(2024, 10, 9).unwrap();
    let expected = format!(
        "{} - {} | {}",
        begin.format("%b %d"),
        end.pred_opt().unwrap().format("%b %d"),
        "Fair"
    );
    let event = Event::AllDay {
        title: "Fair".to_string(),
        begin_date: Date { days: begin.num_days_from_ce() },
        end_date: Date { days: end.num_days_from_ce() },
    };
    assert_eq!(event.render(time(0, 0)), Some(expected));
}

#[test]
fn no_line_for_a_date_that_cannot_be_written() {
    let beyond = Event::AllDay {
        title: "x".to_string(),
        begin_date: Date { days: i32::MAX - 5 },
        end_date: Date { days: i32::MAX },
    };
    assert_eq!(beyond.render(time(8, 0)), None);
    let before = Event::AllDay {
        title: "x".to_string(),
        begin_date: Date { days: 0 },
        end_date: Date { days: i32::MIN },
    };
    assert_eq!(before.render(time(8, 0)), None);
    let first = NaiveDate::MIN.num_days_from_ce();
    let at_the_edge = Event::AllDay {
        title: "x".to_string(),
        begin_date: Date { days: first + 3 },
        end_date: Date { days: first },
    };
    assert_eq!(at_the_edge.render(time(8, 0)), None);
    let last_known = Event::AllDay {
        title: "x".to_string(),
        begin_date: date(2024, 6, 3),
        end_date: Date { days: NaiveDate::MAX.num_days_from_ce() + 1 },
    };
    assert_eq!(last_known.render(time(8, 0)), Some("Jun 03 - Dec 31 | x".to_string()));
}
