use church_date::{date_ordinal, OrdinalLength};

#[test]
fn short_ordinals_of_days_of_month() {
    let expected = [
        "1st", "2nd", "3rd", "4th", "5th", "6th", "7th", "8th", "9th", "10th", "11th", "12th",
        "13th", "14th", "15th", "16th", "17th", "18th", "19th", "20th", "21st", "22nd", "23rd",
        "24th", "25th", "26th", "27th", "28th", "29th", "30th", "31st",
    ];
    for (i, want) in expected.iter().enumerate() {
        assert_eq!(date_ordinal(i as i64 + 1, OrdinalLength::Short), *want);
    }
}

#[test]
fn long_ordinals_of_days_of_month() {
    let expected = [
        "First", "Second", "Third", "Fourth", "Fifth", "Sixth", "Seventh", "Eighth", "Ninth",
        "Tenth", "Eleventh", "Twelfth", "Thirteenth", "Fourteenth", "Fifteenth", "Sixteenth",
        "Seventeenth", "Eighteenth", "Nineteenth", "Twentieth", "Twenty-First", "Twenty-Second",
        "Twenty-Third", "Twenty-Fourth", "Twenty-Fifth", "Twenty-Sixth", "Twenty-Seventh",
        "Twenty-Eighth", "Twenty-Ninth", "Thirtieth", "Thirty-First",
    ];
    for (i, want) in expected.iter().enumerate() {
        assert_eq!(date_ordinal(i as i64 + 1, OrdinalLength::Long), *want);
    }
}

#[test]
fn twenty_first_in_both_styles() {
    assert_eq!(date_ordinal(21, OrdinalLength::Short), "21st");
    assert_eq!(date_ordinal(21, OrdinalLength::Long), "Twenty-First");
}

#[test]
fn short_ordinal_past_month_keeps_th() {
    assert_eq!(date_ordinal(32, OrdinalLength::Short), "32th");
    assert_eq!(date_ordinal(101, OrdinalLength::Short), "101th");
    assert_eq!(date_ordinal(0, OrdinalLength::Short), "0th");
    assert_eq!(date_ordinal(-7, OrdinalLength::Short), "-7th");
}

#[test]
fn long_ordinal_outside_month_is_plain_number() {
    assert_eq!(date_ordinal(32, OrdinalLength::Long), "32");
    assert_eq!(date_ordinal(1000, OrdinalLength::Long), "1000");
    assert_eq!(date_ordinal(0, OrdinalLength::Long), "0");
    assert_eq!(date_ordinal(-12, OrdinalLength::Long), "-12");
}

#[test]
fn extreme_integers_are_written_out() {
    assert_eq!(date_ordinal(i64::MAX, OrdinalLength::Long), "9223372036854775807");
    assert_eq!(date_ordinal(i64::MIN, OrdinalLength::Short), "-9223372036854775808th");
}
