use church_date::civil::days_after;
use church_date::{has_next_church_date, next_church_date, CalendarDate, Color, OrdinalLength};

fn date(y: i32, m: u32, d: u32) -> CalendarDate {
    CalendarDate::new(y, m, d).unwrap()
}

fn check(on: CalendarDate, length: OrdinalLength, at: CalendarDate, text: &str, color: Color) {
    let r = next_church_date(on, length);
    assert_eq!(r.date, at);
    assert_eq!(r.text, text);
    assert_eq!(r.color, color);
}

#[test]
fn easter_sunday_2024() {
    check(date(2024, 3, 31), OrdinalLength::Long, date(2024, 3, 31), "Easter Sunday", Color::Yellow);
}

#[test]
fn christmas_day_2024() {
    check(date(2024, 12, 25), OrdinalLength::Short, date(2024, 12, 25), "Christmas Day", Color::White);
}

#[test]
fn transfiguration_replaces_sunday_after_epiphany() {
    check(date(2024, 2, 5), OrdinalLength::Short, date(2024, 2, 11), "Transfiguration of Our Lord", Color::White);
    check(date(2024, 2, 12), OrdinalLength::Short, date(2024, 2, 14), "Ash Wednesday", Color::Purple);
}

#[test]
fn opening_of_the_year() {
    check(date(2024, 1, 1), OrdinalLength::Short, date(2024, 1, 6), "Epiphany of Our Lord", Color::White);
    check(date(2024, 1, 7), OrdinalLength::Short, date(2024, 1, 7), "Baptism of Our Lord", Color::White);
    check(date(2024, 1, 8), OrdinalLength::Short, date(2024, 1, 14), "2nd Sunday after Epiphany", Color::Green);
    check(date(2025, 1, 1), OrdinalLength::Long, date(2025, 1, 5), "Second Sunday of Christmas", Color::White);
}

#[test]
fn lent_and_holy_week_2025() {
    check(date(2025, 3, 9), OrdinalLength::Short, date(2025, 3, 9), "1st Sunday in Lent", Color::Purple);
    check(date(2025, 3, 10), OrdinalLength::Long, date(2025, 3, 12), "First Wednesday in Lent", Color::Purple);
    check(date(2025, 4, 6), OrdinalLength::Long, date(2025, 4, 6), "Fifth Sunday in Lent", Color::Purple);
    check(date(2025, 4, 13), OrdinalLength::Short, date(2025, 4, 13), "Palm Sunday", Color::Purple);
    check(date(2025, 4, 14), OrdinalLength::Short, date(2025, 4, 17), "Maundy Thursday", Color::Red);
    check(date(2025, 4, 18), OrdinalLength::Short, date(2025, 4, 18), "Good Friday", Color::Black);
    check(date(2025, 4, 19), OrdinalLength::Short, date(2025, 4, 20), "Easter Sunday", Color::Yellow);
}

#[test]
fn easter_season_and_pentecost_2025() {
    check(date(2025, 4, 21), OrdinalLength::Short, date(2025, 4, 27), "2nd Sunday of Easter", Color::White);
    check(date(2025, 6, 2), OrdinalLength::Short, date(2025, 6, 8), "Day of Pentecost", Color::Red);
    check(date(2025, 6, 9), OrdinalLength::Short, date(2025, 6, 15), "The Holy Trinity", Color::White);
    check(date(2025, 6, 16), OrdinalLength::Long, date(2025, 6, 22), "Second Sunday of Pentecost", Color::Green);
}

#[test]
fn autumn_feasts_2024() {
    check(date(2024, 11, 11), OrdinalLength::Short, date(2024, 11, 17), "26th Sunday of Pentecost", Color::Green);
    check(date(2024, 10, 21), OrdinalLength::Short, date(2024, 10, 27), "Reformation Sunday", Color::Red);
    check(date(2024, 10, 28), OrdinalLength::Short, date(2024, 11, 3), "All Saints Sunday", Color::White);
    check(date(2024, 11, 18), OrdinalLength::Short, date(2024, 11, 24), "Christ the King Sunday", Color::White);
}

#[test]
fn advent_and_christmas() {
    check(date(2025, 12, 15), OrdinalLength::Long, date(2025, 12, 21), "Fourth Sunday of Advent", Color::Blue);
    check(date(2024, 11, 25), OrdinalLength::Short, date(2024, 12, 1), "1st Sunday of Advent", Color::Blue);
    check(date(2023, 12, 18), OrdinalLength::Short, date(2023, 12, 24), "Christmas Eve", Color::White);
    check(date(2024, 12, 26), OrdinalLength::Short, date(2024, 12, 29), "1st Sunday of Christmas", Color::White);
    check(date(2024, 12, 29), OrdinalLength::Long, date(2024, 12, 29), "First Sunday of Christmas", Color::White);
}

#[test]
fn resolvable_dates() {
    assert!(has_next_church_date(date(2024, 1, 1)));
    assert!(has_next_church_date(date(2024, 12, 29)));
    assert!(!has_next_church_date(date(2024, 12, 30)));
    assert!(has_next_church_date(date(2021, 12, 26)));
    assert!(!has_next_church_date(date(2021, 12, 27)));
    assert!(!has_next_church_date(date(1581, 6, 1)));
    assert!(has_next_church_date(date(1582, 6, 1)));
    assert!(!has_next_church_date(CalendarDate { year: 2024, month: 2, day: 30 }));
}

#[test]
fn next_observance_is_never_earlier() {
    for y in [2021, 2024, 2025, 2038] {
        let mut d = date(y, 1, 1);
        while has_next_church_date(d) && d.year == y {
            let r = next_church_date(d, OrdinalLength::Short);
            assert!((r.date.year, r.date.month, r.date.day) >= (d.year, d.month, d.day));
            d = days_after(d, 1);
        }
    }
}

#[test]
fn repeated_calls_agree() {
    let d = date(2024, 5, 1);
    for length in [OrdinalLength::Short, OrdinalLength::Long] {
        let a = next_church_date(d, length);
        let b = next_church_date(d, length);
        assert_eq!(a.date, b.date);
        assert_eq!(a.text, b.text);
        assert_eq!(a.color, b.color);
    }
}

#[test]
fn consecutive_days_never_go_back() {
    let mut d = date(2024, 1, 1);
    let mut prev = next_church_date(d, OrdinalLength::Long).date;
    loop {
        let e = days_after(d, 1);
        if e.year != 2024 || !has_next_church_date(e) {
            break;
        }
        let cur = next_church_date(e, OrdinalLength::Long).date;
        assert!((prev.year, prev.month, prev.day) <= (cur.year, cur.month, cur.day));
        prev = cur;
        d = e;
    }
}
