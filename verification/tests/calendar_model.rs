use rusty_todos::calendar::{
    day_of_week, days_in_month, is_leap_year_exec, Date, ReferenceInstant, DAY_COUNT,
};

#[test]
fn leap_year_rules() {
    assert!(is_leap_year_exec(2000));
    assert!(is_leap_year_exec(2028));
    assert!(!is_leap_year_exec(1900));
    assert!(!is_leap_year_exec(2027));
    assert!(is_leap_year_exec(0));
}

#[test]
fn month_lengths() {
    assert_eq!(days_in_month(2026, 1), 31);
    assert_eq!(days_in_month(2026, 2), 28);
    assert_eq!(days_in_month(2028, 2), 29);
    assert_eq!(days_in_month(2026, 4), 30);
    assert_eq!(days_in_month(2026, 12), 31);
}

#[test]
fn day_numbers_anchor_the_calendar() {
    let origin = Date { year: 0, month: 1, day: 1 };
    assert_eq!(origin.to_day_number(), 0);
    let last = Date { year: 9999, month: 12, day: 31 };
    assert_eq!(last.to_day_number(), DAY_COUNT - 1);
}

#[test]
fn day_number_round_trip() {
    let samples = [
        Date { year: 0, month: 1, day: 1 },
        Date { year: 1999, month: 12, day: 31 },
        Date { year: 2000, month: 2, day: 29 },
        Date { year: 2026, month: 10, day: 12 },
        Date { year: 9999, month: 12, day: 31 },
    ];
    for d in samples {
        let n = d.to_day_number();
        assert_eq!(Date::from_day_number(n), d);
    }
    assert_eq!(
        Date::from_day_number(Date { year: 2026, month: 10, day: 12 }.to_day_number() + 1),
        Date { year: 2026, month: 10, day: 13 }
    );
}

#[test]
fn known_weekdays() {
    // 2000-01-01 was a Saturday, 2026-10-12 a Monday.
    assert_eq!(day_of_week(&Date { year: 2000, month: 1, day: 1 }), 5);
    assert_eq!(day_of_week(&Date { year: 2026, month: 10, day: 12 }), 0);
    assert_eq!(day_of_week(&Date { year: 2026, month: 10, day: 16 }), 4);
}

#[test]
fn instants_count_seconds() {
    let i = ReferenceInstant {
        date: Date { year: 0, month: 1, day: 1 },
        hour: 0,
        minute: 1,
        second: 30,
    };
    assert_eq!(i.to_seconds(), 90);
}
