//! The liturgical calendar of a year, and the next observance on or after a
//! date.
use vstd::prelude::*;
use vstd::string::StringExecFns;
use chrono::Datelike;

use crate::civil::{
    add_days, date_le, lemma_before_next_day, next_day, on_or_before, days_after, days_before, next_sunday, previous_sunday, sub_days,
    sunday_on_or_after, sunday_on_or_before, CalendarDate,
};
use crate::ordinal::{date_ordinal, ordinal_text, OrdinalLength};

verus! {

/// The liturgical colour of an observance.
#[derive(Clone, Copy, Debug, PartialEq, Eq, Structural)]
pub enum Color {
    White,
    Green,
    Purple,
    Red,
    Yellow,
    Blue,
    Black,
}

/// An observance: its date, its display text and its colour.
#[derive(Debug)]
pub struct ChurchDateResult {
    pub date: CalendarDate,
    pub text: String,
    pub color: Color,
}

/// An observance as a mathematical value.
pub type ObservanceView = (CalendarDate, Seq<char>, Color);

impl View for ChurchDateResult {
    type V = ObservanceView;

    open spec fn view(&self) -> ObservanceView {
        (self.date, self.text@, self.color)
    }
}

pub open spec fn views(v: Seq<ChurchDateResult>) -> Seq<ObservanceView> {
    v.map_values(|o: ChurchDateResult| o@)
}

pub open spec fn ymd(y: int, m: int, d: int) -> CalendarDate {
    CalendarDate { year: y as i32, month: m as u32, day: d as u32 }
}

/// Easter Sunday of a year, as (year, month, day).
pub uninterp spec fn easter_date_of(year: int) -> (int, int, int);

/// Years for which Easter is computed.
pub open spec fn easter_year_supported(year: int) -> bool {
    1582 <= year <= 262142
}

/// The error of `bdays`' Easter computation; it carries only the year.
#[verifier::external_type_specification]
#[verifier::external_body]
pub struct ExEasterError(bdays::easter::EasterError);

/// Relies on `bdays::easter::easter_naive_date`: Easter Sunday of `year`,
/// which lies in that year; the call fails exactly for years before 1582
/// (where its algorithm does not apply) and after 262142 (past the last year
/// of `chrono::NaiveDate`). A `NaiveDate` always holds a valid date.
#[verifier::external_body]
fn easter_sunday(year: i32) -> (r: Result<CalendarDate, bdays::easter::EasterError>)
    ensures
        r is Ok <==> easter_year_supported(year as int),
        r matches Ok(e) ==> (e.year as int, e.month as int, e.day as int) == easter_date_of(
            year as int,
        ),
        r matches Ok(e) ==> e.year == year && e.is_valid(),
{
    match bdays::easter::easter_naive_date(year) {
        Ok(d) => Ok(CalendarDate { year: d.year(), month: d.month(), day: d.day() }),
        Err(e) => Err(e),
    }
}

/// `count` observances a week apart: the `i`-th falls `first + i` weeks after
/// `start` and reads as the ordinal of `number + i` followed by `suffix`.
pub open spec fn weekly(
    start: CalendarDate,
    first: nat,
    count: nat,
    number: int,
    suffix: Seq<char>,
    color: Color,
    length: OrdinalLength,
) -> Seq<ObservanceView> {
    Seq::new(
        count,
        |i: int|
            (
                add_days(start, (7 * (first + i)) as nat),
                ordinal_text(number + i, length) + suffix,
                color,
            ),
    )
}

/// Christmastide carried over from the previous year, Epiphany, the Baptism
/// of Our Lord and the Sundays after Epiphany.
pub open spec fn opening_season(year: int, length: OrdinalLength) -> Seq<ObservanceView> {
    let baptism = sunday_on_or_after(ymd(year, 1, 7));
    weekly(
        sunday_on_or_after(ymd(year - 1, 12, 26)),
        0,
        2,
        1,
        " Sunday of Christmas"@,
        Color::White,
        length,
    ) + seq![
        (ymd(year, 1, 6), "Epiphany of Our Lord"@, Color::White),
        (baptism, "Baptism of Our Lord"@, Color::White),
    ] + weekly(baptism, 1, 7, 2, " Sunday after Epiphany"@, Color::Green, length)
}

/// The Sundays and Wednesdays in Lent: the Sunday of week `w` (from 0) is `w`
/// weeks after `lent`, and its Wednesday three days later.
pub open spec fn lent_season(lent: CalendarDate, length: OrdinalLength) -> Seq<ObservanceView> {
    Seq::new(
        10,
        |j: int|
            if j % 2 == 0 {
                (
                    add_days(lent, (7 * (j / 2)) as nat),
                    ordinal_text(j / 2 + 1, length) + " Sunday in Lent"@,
                    Color::Purple,
                )
            } else {
                (
                    add_days(lent, (7 * (j / 2) + 3) as nat),
                    ordinal_text(j / 2 + 1, length) + " Wednesday in Lent"@,
                    Color::Purple,
                )
            },
    )
}

/// Everything that is reckoned from Easter Sunday `e`.
pub open spec fn easter_cycle(e: CalendarDate, length: OrdinalLength) -> Seq<ObservanceView> {
    seq![
        (sub_days(e, 49), "Transfiguration of Our Lord"@, Color::White),
        (sub_days(e, 46), "Ash Wednesday"@, Color::Purple),
    ] + lent_season(sub_days(e, 42), length) + seq![
        (sub_days(e, 7), "Palm Sunday"@, Color::Purple),
        (sub_days(e, 3), "Maundy Thursday"@, Color::Red),
        (sub_days(e, 2), "Good Friday"@, Color::Black),
        (e, "Easter Sunday"@, Color::Yellow),
    ] + weekly(e, 1, 6, 2, " Sunday of Easter"@, Color::White, length) + seq![
        (add_days(e, 49), "Day of Pentecost"@, Color::Red),
        (add_days(e, 56), "The Holy Trinity"@, Color::White),
    ] + weekly(e, 9, 25, 2, " Sunday of Pentecost"@, Color::Green, length)
}

/// Christ the King, Advent, Christmas, and the two feasts at the end of
/// October and the start of November.
pub open spec fn closing_season(year: int, length: OrdinalLength) -> Seq<ObservanceView> {
    let christ_the_king = sunday_on_or_before(sub_days(ymd(year, 12, 24), 28));
    let reformation = sunday_on_or_before(ymd(year, 10, 31));
    seq![(christ_the_king, "Christ the King Sunday"@, Color::White)] + weekly(
        christ_the_king,
        1,
        4,
        1,
        " Sunday of Advent"@,
        Color::Blue,
        length,
    ) + seq![
        (ymd(year, 12, 24), "Christmas Eve"@, Color::White),
        (ymd(year, 12, 25), "Christmas Day"@, Color::White),
        (
            sunday_on_or_after(ymd(year, 12, 26)),
            ordinal_text(1, length) + " Sunday of Christmas"@,
            Color::White,
        ),
        (reformation, "Reformation Sunday"@, Color::Red),
        (add_days(reformation, 7), "All Saints Sunday"@, Color::White),
    ]
}

/// The observances of `year`, in the order in which they are recorded, for
/// Easter Sunday `e`. Where two fall on one date, the later one counts.
pub open spec fn calendar(year: int, e: CalendarDate, length: OrdinalLength) -> Seq<
    ObservanceView,
> {
    opening_season(year, length) + easter_cycle(e, length) + closing_season(year, length)
}

/// The observances of `year`.
pub open spec fn church_calendar(year: int, length: OrdinalLength) -> Seq<ObservanceView> {
    let e = easter_date_of(year);
    calendar(year, ymd(e.0, e.1, e.2), length)
}

/// Among the entries of `s` below `n`, entry `i` is the next one on or after
/// `d`: its date is the earliest that is not before `d`, and no later entry
/// of `s` below `n` has that date.
pub open spec fn is_next_in(s: Seq<ObservanceView>, d: CalendarDate, i: int, n: int) -> bool {
    &&& 0 <= i < n <= s.len()
    &&& date_le(d, s[i].0)
    &&& forall|j: int| 0 <= j < n && date_le(d, #[trigger] s[j].0) ==> date_le(s[i].0, s[j].0)
    &&& forall|j: int| i < j < n ==> #[trigger] s[j].0 != s[i].0
}

/// `r` is the next observance on or after `d` in the calendar of `d`'s year.
pub open spec fn is_next_observance(d: CalendarDate, length: OrdinalLength, r: ObservanceView) -> bool {
    let s = church_calendar(d.year as int, length);
    exists|i: int| is_next_in(s, d, i, s.len() as int) && s[i] == r
}

/// The dates for which the next observance is found: valid dates of a year
/// for which Easter is computed, up to the first Sunday after Christmas
/// Day, the last date of that year's calendar.
pub open spec fn resolvable(d: CalendarDate) -> bool {
    &&& d.is_valid()
    &&& easter_year_supported(d.year as int)
    &&& date_le(d, sunday_on_or_after(ymd(d.year as int, 12, 26)))
}

fn push_entry(v: &mut Vec<ChurchDateResult>, date: CalendarDate, text: String, color: Color)
    ensures
        views(final(v)@) == views(old(v)@).push((date, text@, color)),
{
    let ghost t = text@;
    v.push(ChurchDateResult { date, text, color });
    assert(views(final(v)@) =~= views(old(v)@).push((date, t, color)));
}

fn push_weekly(
    v: &mut Vec<ChurchDateResult>,
    start: CalendarDate,
    first: u32,
    count: u32,
    number: i64,
    suffix: &str,
    color: Color,
    length: OrdinalLength,
)
    requires
        start.is_valid(),
        start.year + 7 * (first + count) < i32::MAX,
        first + count <= 100,
        0 <= number <= 100,
    ensures
        views(final(v)@) == views(old(v)@) + weekly(
            start,
            first as nat,
            count as nat,
            number as int,
            suffix@,
            color,
            length,
        ),
{
    let mut i: u32 = 0;
    while i < count
        invariant
            start.is_valid(),
            start.year + 7 * (first + count) < i32::MAX,
            first + count <= 100,
            0 <= number <= 100,
            i <= count,
            views(v@) == views(old(v)@) + weekly(
                start,
                first as nat,
                i as nat,
                number as int,
                suffix@,
                color,
                length,
            ),
        decreases count - i,
    {
        let date = days_after(start, 7 * (first + i));
        let mut text = date_ordinal(number + i as i64, length);
        text.append(suffix);
        push_entry(v, date, text, color);
        assert(weekly(start, first as nat, (i + 1) as nat, number as int, suffix@, color, length)
            =~= weekly(start, first as nat, i as nat, number as int, suffix@, color, length).push(
            (
                add_days(start, (7 * (first + i)) as nat),
                ordinal_text(number + i, length) + suffix@,
                color,
            ),
        ));
        i = i + 1;
    }
}

fn push_opening(v: &mut Vec<ChurchDateResult>, year: i32, length: OrdinalLength)
    requires
        easter_year_supported(year as int),
    ensures
        views(final(v)@) == views(old(v)@) + opening_season(year as int, length),
{
    let ghost v0 = views(v@);
    let christmas = next_sunday(CalendarDate { year: year - 1, month: 12, day: 26 });
    push_weekly(v, christmas, 0, 2, 1, " Sunday of Christmas", Color::White, length);
    push_entry(
        v,
        CalendarDate { year, month: 1, day: 6 },
        String::from_str("Epiphany of Our Lord"),
        Color::White,
    );
    let baptism = next_sunday(CalendarDate { year, month: 1, day: 7 });
    push_entry(v, baptism, String::from_str("Baptism of Our Lord"), Color::White);
    push_weekly(v, baptism, 1, 7, 2, " Sunday after Epiphany", Color::Green, length);
    assert(views(v@) =~= v0 + opening_season(year as int, length));
}

fn push_lent(v: &mut Vec<ChurchDateResult>, lent: CalendarDate, length: OrdinalLength)
    requires
        lent.is_valid(),
        lent.year < 262200,
    ensures
        views(final(v)@) == views(old(v)@) + lent_season(lent, length),
{
    let ghost v0 = views(v@);
    let mut w: u32 = 0;
    while w < 5
        invariant
            lent.is_valid(),
            lent.year < 262200,
            w <= 5,
            views(v@) == v0 + lent_season(lent, length).take(2 * w as int),
        decreases 5 - w,
    {
        let sunday = days_after(lent, 7 * w);
        let mut sunday_text = date_ordinal(w as i64 + 1, length);
        sunday_text.append(" Sunday in Lent");
        push_entry(v, sunday, sunday_text, Color::Purple);
        let wednesday = days_after(lent, 7 * w + 3);
        let mut wednesday_text = date_ordinal(w as i64 + 1, length);
        wednesday_text.append(" Wednesday in Lent");
        push_entry(v, wednesday, wednesday_text, Color::Purple);
        proof {
            let s = lent_season(lent, length);
            let j = 2 * w as int;
            assert(j / 2 == w as int && (j + 1) / 2 == w as int && j % 2 == 0 && (j + 1) % 2 == 1);
            assert(s.take(j + 2) =~= s.take(j).push(s[j]).push(s[j + 1]));
        }
        w = w + 1;
    }
    assert(lent_season(lent, length).take(10) =~= lent_season(lent, length));
}

fn push_easter_cycle(v: &mut Vec<ChurchDateResult>, e: CalendarDate, length: OrdinalLength)
    requires
        e.is_valid(),
        easter_year_supported(e.year as int),
    ensures
        views(final(v)@) == views(old(v)@) + easter_cycle(e, length),
{
    let ghost v0 = views(v@);
    push_entry(
        v,
        days_before(e, 49),
        String::from_str("Transfiguration of Our Lord"),
        Color::White,
    );
    push_entry(v, days_before(e, 46), String::from_str("Ash Wednesday"), Color::Purple);
    push_lent(v, days_before(e, 42), length);
    push_entry(v, days_before(e, 7), String::from_str("Palm Sunday"), Color::Purple);
    push_entry(v, days_before(e, 3), String::from_str("Maundy Thursday"), Color::Red);
    push_entry(v, days_before(e, 2), String::from_str("Good Friday"), Color::Black);
    push_entry(v, e, String::from_str("Easter Sunday"), Color::Yellow);
    push_weekly(v, e, 1, 6, 2, " Sunday of Easter", Color::White, length);
    push_entry(v, days_after(e, 49), String::from_str("Day of Pentecost"), Color::Red);
    push_entry(v, days_after(e, 56), String::from_str("The Holy Trinity"), Color::White);
    push_weekly(v, e, 9, 25, 2, " Sunday of Pentecost", Color::Green, length);
    assert(views(v@) =~= v0 + easter_cycle(e, length));
}

fn push_closing(v: &mut Vec<ChurchDateResult>, year: i32, length: OrdinalLength)
    requires
        easter_year_supported(year as int),
    ensures
        views(final(v)@) == views(old(v)@) + closing_season(year as int, length),
{
    let ghost v0 = views(v@);
    let christmas_eve = CalendarDate { year, month: 12, day: 24 };
    let christ_the_king = previous_sunday(days_before(christmas_eve, 28));
    push_entry(v, christ_the_king, String::from_str("Christ the King Sunday"), Color::White);
    push_weekly(v, christ_the_king, 1, 4, 1, " Sunday of Advent", Color::Blue, length);
    push_entry(v, christmas_eve, String::from_str("Christmas Eve"), Color::White);
    push_entry(
        v,
        CalendarDate { year, month: 12, day: 25 },
        String::from_str("Christmas Day"),
        Color::White,
    );
    let first_christmas = next_sunday(CalendarDate { year, month: 12, day: 26 });
    let mut text = date_ordinal(1, length);
    text.append(" Sunday of Christmas");
    push_entry(v, first_christmas, text, Color::White);
    let reformation = previous_sunday(CalendarDate { year, month: 10, day: 31 });
    push_entry(v, reformation, String::from_str("Reformation Sunday"), Color::Red);
    push_entry(v, days_after(reformation, 7), String::from_str("All Saints Sunday"), Color::White);
    assert(views(v@) =~= v0 + closing_season(year as int, length));
}

/// The observances of `year` for Easter Sunday `easter`, in the order in
/// which they are recorded.
pub fn build_calendar(year: i32, easter: CalendarDate, length: OrdinalLength) -> (v: Vec<
    ChurchDateResult,
>)
    requires
        easter_year_supported(year as int),
        easter.is_valid(),
        easter.year == year,
    ensures
        views(v@) == calendar(year as int, easter, length),
{
    let mut v: Vec<ChurchDateResult> = Vec::new();
    assert(views(v@) =~= Seq::<ObservanceView>::empty());
    push_opening(&mut v, year, length);
    push_easter_cycle(&mut v, easter, length);
    push_closing(&mut v, year, length);
    assert(views(v@) =~= calendar(year as int, easter, length));
    v
}

/// The next observance on or after `current_date`: of the observances in the
/// calendar of its year, the earliest that does not fall before it; where
/// two were recorded for that date, the later one.
pub fn next_church_date(current_date: CalendarDate, length: OrdinalLength) -> (r:
    ChurchDateResult)
    requires
        resolvable(current_date),
    ensures
        is_next_observance(current_date, length, r@),
{
    let year = current_date.year;
    let easter = match easter_sunday(year) {
        Ok(e) => e,
        Err(_) => {
            proof {
                assert(false);
            }
            current_date
        },
    };
    let mut v = build_calendar(year, easter, length);
    let ghost s = views(v@);
    proof {
        assert(s == church_calendar(year as int, length));
        assert(s[67].0 == sunday_on_or_after(ymd(year as int, 12, 26)));
    }
    let n = v.len();
    let mut best: usize = n;
    let mut i: usize = 0;
    while i < n
        invariant
            n == v.len(),
            s == views(v@),
            i <= n,
            best == n || is_next_in(s, current_date, best as int, i as int),
            best == n ==> forall|j: int| 0 <= j < i ==> !date_le(current_date, #[trigger] s[j].0),
        decreases n - i,
    {
        assert(s[i as int] == v[i as int]@);
        if on_or_before(current_date, v[i].date) && (best == n || on_or_before(
            v[i].date,
            v[best].date,
        )) {
            best = i;
        }
        i = i + 1;
    }
    proof {
        if best == n {
            assert(date_le(current_date, s[67].0));
        }
    }
    let r = v.remove(best);
    assert(r@ == s[best as int]);
    r
}

/// Whether `next_church_date` finds an observance for `d` (see `resolvable`).
pub fn has_next_church_date(d: CalendarDate) -> (r: bool)
    ensures
        r == resolvable(d),
{
    if !d.check_valid() || d.year < 1582 || d.year > 262142 {
        return false;
    }
    let last = next_sunday(CalendarDate { year: d.year, month: 12, day: 26 });
    on_or_before(d, last)
}

/// Where some entry of `s` below `n` falls on or after `d`, a next one exists.
proof fn lemma_next_in_exists(s: Seq<ObservanceView>, d: CalendarDate, n: int)
    requires
        0 <= n <= s.len(),
        exists|j: int| 0 <= j < n && date_le(d, #[trigger] s[j].0),
    ensures
        exists|i: int| is_next_in(s, d, i, n),
    decreases n,
{
    let last = n - 1;
    if exists|j: int| 0 <= j < last && date_le(d, #[trigger] s[j].0) {
        lemma_next_in_exists(s, d, last);
        let b = choose|i: int| is_next_in(s, d, i, last);
        if date_le(d, s[last].0) && date_le(s[last].0, s[b].0) {
            assert(is_next_in(s, d, last, n));
        } else {
            assert(is_next_in(s, d, b, n));
        }
    } else {
        assert(is_next_in(s, d, last, n));
    }
}

/// Every date of a supported year, up to the first Sunday after its
/// Christmas Day, has a next observance, and that observance does not fall
/// before the date.
pub proof fn lemma_next_observance_not_before(d: CalendarDate, length: OrdinalLength)
    requires
        resolvable(d),
    ensures
        exists|r: ObservanceView| is_next_observance(d, length, r),
        forall|r: ObservanceView| is_next_observance(d, length, r) ==> date_le(d, r.0),
{
    let s = church_calendar(d.year as int, length);
    assert(s[67].0 == sunday_on_or_after(ymd(d.year as int, 12, 26)));
    assert(date_le(d, s[67].0));
    lemma_next_in_exists(s, d, s.len() as int);
    let i = choose|i: int| is_next_in(s, d, i, s.len() as int);
    assert(is_next_observance(d, length, s[i]));
}

/// The next observance is a function of the date and the style: any two
/// results for the same inputs are equal.
pub proof fn lemma_next_observance_unique(
    d: CalendarDate,
    length: OrdinalLength,
    r1: ObservanceView,
    r2: ObservanceView,
)
    requires
        is_next_observance(d, length, r1),
        is_next_observance(d, length, r2),
    ensures
        r1 == r2,
{
    let s = church_calendar(d.year as int, length);
    let n = s.len() as int;
    let i1 = choose|i: int| is_next_in(s, d, i, n) && s[i] == r1;
    let i2 = choose|i: int| is_next_in(s, d, i, n) && s[i] == r2;
    assert(date_le(s[i1].0, s[i2].0) && date_le(s[i2].0, s[i1].0));
    assert(s[i1].0 == s[i2].0);
    if i1 < i2 {
        assert(s[i2].0 != s[i1].0);
    } else if i2 < i1 {
        assert(s[i1].0 != s[i2].0);
    }
}

/// For two consecutive dates of one year, the next observance of the first
/// does not fall after the next observance of the second.
pub proof fn lemma_next_observance_monotonic(
    d: CalendarDate,
    length: OrdinalLength,
    r1: ObservanceView,
    r2: ObservanceView,
)
    requires
        d.is_valid(),
        easter_year_supported(d.year as int),
        next_day(d).year == d.year,
        is_next_observance(d, length, r1),
        is_next_observance(next_day(d), length, r2),
    ensures
        date_le(r1.0, r2.0),
{
    let s = church_calendar(d.year as int, length);
    let n = s.len() as int;
    let e = next_day(d);
    let i1 = choose|i: int| is_next_in(s, d, i, n) && s[i] == r1;
    let i2 = choose|i: int| is_next_in(s, e, i, n) && s[i] == r2;
    lemma_before_next_day(d);
    lemma_next_in_ordered(s, d, e, i1, i2, n);
}

proof fn lemma_next_in_ordered(
    s: Seq<ObservanceView>,
    d: CalendarDate,
    e: CalendarDate,
    i1: int,
    i2: int,
    n: int,
)
    requires
        date_le(d, e),
        is_next_in(s, d, i1, n),
        is_next_in(s, e, i2, n),
    ensures
        date_le(s[i1].0, s[i2].0),
{
    assert(date_le(d, s[i2].0));
}

} // verus!
