//! Ordinal numbers as text, in two styles: "21st" and "Twenty-First".
use vstd::prelude::*;
use vstd::string::StringExecFns;

verus! {

/// How an ordinal number is written.
#[derive(Clone, Copy, Debug, PartialEq, Eq, Structural)]
pub enum OrdinalLength {
    /// Digits and an English suffix: "1st", "2nd", "4th".
    Short,
    /// The spelled-out word: "First", "Second", "Fourth".
    Long,
}

pub open spec fn digit_char(d: int) -> char {
    if d == 0 {
        '0'
    } else if d == 1 {
        '1'
    } else if d == 2 {
        '2'
    } else if d == 3 {
        '3'
    } else if d == 4 {
        '4'
    } else if d == 5 {
        '5'
    } else if d == 6 {
        '6'
    } else if d == 7 {
        '7'
    } else if d == 8 {
        '8'
    } else {
        '9'
    }
}

/// The decimal digits of `n`, most significant first, without leading zeros.
pub open spec fn digits_of(n: nat) -> Seq<char>
    decreases n,
{
    if n < 10 {
        seq![digit_char(n as int)]
    } else {
        digits_of(n / 10).push(digit_char((n % 10) as int))
    }
}

/// `n` written in decimal, with a leading '-' when negative.
pub open spec fn decimal(n: int) -> Seq<char> {
    if n < 0 {
        seq!['-'] + digits_of((-n) as nat)
    } else {
        digits_of(n as nat)
    }
}

/// The short ordinal: the seven values whose suffix is not "th" are spelled
/// out, every other integer is its decimal form followed by "th".
pub open spec fn short_ordinal(n: int) -> Seq<char> {
    if n == 1 {
        "1st"@
    } else if n == 2 {
        "2nd"@
    } else if n == 3 {
        "3rd"@
    } else if n == 21 {
        "21st"@
    } else if n == 22 {
        "22nd"@
    } else if n == 23 {
        "23rd"@
    } else if n == 31 {
        "31st"@
    } else {
        decimal(n) + "th"@
    }
}

/// The long ordinal: the words "First" to "Thirty-First" for 1 to 31, and
/// the plain decimal form of any other integer.
pub open spec fn long_ordinal(n: int) -> Seq<char> {
    if n == 1 {
        "First"@
    } else if n == 2 {
        "Second"@
    } else if n == 3 {
        "Third"@
    } else if n == 4 {
        "Fourth"@
    } else if n == 5 {
        "Fifth"@
    } else if n == 6 {
        "Sixth"@
    } else if n == 7 {
        "Seventh"@
    } else if n == 8 {
        "Eighth"@
    } else if n == 9 {
        "Ninth"@
    } else if n == 10 {
        "Tenth"@
    } else if n == 11 {
        "Eleventh"@
    } else if n == 12 {
        "Twelfth"@
    } else if n == 13 {
        "Thirteenth"@
    } else if n == 14 {
        "Fourteenth"@
    } else if n == 15 {
        "Fifteenth"@
    } else if n == 16 {
        "Sixteenth"@
    } else if n == 17 {
        "Seventeenth"@
    } else if n == 18 {
        "Eighteenth"@
    } else if n == 19 {
        "Nineteenth"@
    } else if n == 20 {
        "Twentieth"@
    } else if n == 21 {
        "Twenty-First"@
    } else if n == 22 {
        "Twenty-Second"@
    } else if n == 23 {
        "Twenty-Third"@
    } else if n == 24 {
        "Twenty-Fourth"@
    } else if n == 25 {
        "Twenty-Fifth"@
    } else if n == 26 {
        "Twenty-Sixth"@
    } else if n == 27 {
        "Twenty-Seventh"@
    } else if n == 28 {
        "Twenty-Eighth"@
    } else if n == 29 {
        "Twenty-Ninth"@
    } else if n == 30 {
        "Thirtieth"@
    } else if n == 31 {
        "Thirty-First"@
    } else {
        decimal(n)
    }
}

pub open spec fn ordinal_text(n: int, length: OrdinalLength) -> Seq<char> {
    match length {
        OrdinalLength::Short => short_ordinal(n),
        OrdinalLength::Long => long_ordinal(n),
    }
}

fn digit_str(d: u64) -> (r: &'static str)
    requires
        d < 10,
    ensures
        r@ == seq![digit_char(d as int)],
{
    proof {
        reveal_strlit("0");
        reveal_strlit("1");
        reveal_strlit("2");
        reveal_strlit("3");
        reveal_strlit("4");
        reveal_strlit("5");
        reveal_strlit("6");
        reveal_strlit("7");
        reveal_strlit("8");
        reveal_strlit("9");
    }
    let r = match d {
        0 => "0",
        1 => "1",
        2 => "2",
        3 => "3",
        4 => "4",
        5 => "5",
        6 => "6",
        7 => "7",
        8 => "8",
        _ => "9",
    };
    assert(r@ =~= seq![digit_char(d as int)]);
    r
}

/// Appends the decimal digits of `m` to `s`.
fn append_digits(s: &mut String, m: u64)
    ensures
        final(s)@ == old(s)@ + digits_of(m as nat),
    decreases m,
{
    if m >= 10 {
        append_digits(s, m / 10);
    }
    s.append(digit_str(m % 10));
    assert(final(s)@ =~= old(s)@ + digits_of(m as nat));
}

/// `n` written in decimal.
pub fn decimal_string(n: i64) -> (r: String)
    ensures
        r@ == decimal(n as int),
{
    if n < 0 {
        let mut s = String::from_str("-");
        proof {
            reveal_strlit("-");
        }
        let magnitude: u64 = (-(n + 1)) as u64 + 1;
        append_digits(&mut s, magnitude);
        assert(s@ =~= decimal(n as int));
        s
    } else {
        let mut s = String::new();
        append_digits(&mut s, n as u64);
        assert(s@ =~= decimal(n as int));
        s
    }
}

/// `day` as an ordinal number in the given style.
pub fn date_ordinal(day: i64, length: OrdinalLength) -> (r: String)
    ensures
        r@ == ordinal_text(day as int, length),
{
    match length {
        OrdinalLength::Short => match day {
            1 => String::from_str("1st"),
            2 => String::from_str("2nd"),
            3 => String::from_str("3rd"),
            21 => String::from_str("21st"),
            22 => String::from_str("22nd"),
            23 => String::from_str("23rd"),
            31 => String::from_str("31st"),
            _ => {
                let mut s = decimal_string(day);
                s.append("th");
                s
            },
        },
        OrdinalLength::Long => match day {
            1 => String::from_str("First"),
            2 => String::from_str("Second"),
            3 => String::from_str("Third"),
            4 => String::from_str("Fourth"),
            5 => String::from_str("Fifth"),
            6 => String::from_str("Sixth"),
            7 => String::from_str("Seventh"),
            8 => String::from_str("Eighth"),
            9 => String::from_str("Ninth"),
            10 => String::from_str("Tenth"),
            11 => String::from_str("Eleventh"),
            12 => String::from_str("Twelfth"),
            13 => String::from_str("Thirteenth"),
            14 => String::from_str("Fourteenth"),
            15 => String::from_str("Fifteenth"),
            16 => String::from_str("Sixteenth"),
            17 => String::from_str("Seventeenth"),
            18 => String::from_str("Eighteenth"),
            19 => String::from_str("Nineteenth"),
            20 => String::from_str("Twentieth"),
            21 => String::from_str("Twenty-First"),
            22 => String::from_str("Twenty-Second"),
            23 => String::from_str("Twenty-Third"),
            24 => String::from_str("Twenty-Fourth"),
            25 => String::from_str("Twenty-Fifth"),
            26 => String::from_str("Twenty-Sixth"),
            27 => String::from_str("Twenty-Seventh"),
            28 => String::from_str("Twenty-Eighth"),
            29 => String::from_str("Twenty-Ninth"),
            30 => String::from_str("Thirtieth"),
            31 => String::from_str("Thirty-First"),
            _ => decimal_string(day),
        },
    }
}

} // verus!
