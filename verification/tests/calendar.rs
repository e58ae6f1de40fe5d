use grimoire::calendar::{civil_time, MAX_INSTANT, MIN_INSTANT};

const DAY: i64 = 86_400;

fn date(days: i64) -> (u32, u32, u32) {
    let t = civil_time(days * DAY);
    (t.month, t.day, t.weekday)
}

#[test]
fn known_days_have_their_dates() {
    // A Thursday.
    assert_eq!(date(0), (1, 1, 4));
    assert_eq!(date(-1), (12, 31, 3));
    // 2000-02-29, 2000-03-01.
    assert_eq!(date(11_016), (2, 29, 2));
    assert_eq!(date(11_017), (3, 1, 3));
    // 1900-02-28, 1900-03-01: no leap year.
    assert_eq!(date(-25_509), (2, 28, 3));
    assert_eq!(date(-25_508), (3, 1, 4));
}

#[test]
fn days_follow_one_another() {
    let mut last = civil_time(0);
    for day in 1..1500 {
        let t = civil_time(day * DAY);
        assert_eq!(t.weekday, (last.weekday + 1) % 7);
        if t.day == 1 {
            assert_eq!(t.month, last.month % 12 + 1);
            assert!(last.day >= 28);
        } else {
            assert_eq!((t.month, t.day), (last.month, last.day + 1));
        }
        last = t;
    }
}

#[test]
fn minutes_and_hours_are_read() {
    let t = civil_time(3 * 3600 + 25 * 60 + 59);
    assert_eq!((t.hour, t.minute), (3, 25));
    let t = civil_time(-1);
    assert_eq!((t.hour, t.minute), (23, 59));
}

#[test]
fn the_ends_of_the_calendar_can_be_read() {
    let t = civil_time(MIN_INSTANT);
    assert_eq!((t.month, t.day, t.hour, t.minute), (1, 1, 0, 0));
    let t = civil_time(MAX_INSTANT);
    assert_eq!((t.month, t.day, t.hour, t.minute), (12, 31, 23, 59));
}
