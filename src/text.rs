//! Text building blocks: decimal numerals and UTC date-times.

use vstd::prelude::*;

verus! {

/// The text of one decimal digit.
pub open spec fn digit_text(d: int) -> Seq<char> {
    if d == 0 {
        "0"@
    } else if d == 1 {
        "1"@
    } else if d == 2 {
        "2"@
    } else if d == 3 {
        "3"@
    } else if d == 4 {
        "4"@
    } else if d == 5 {
        "5"@
    } else if d == 6 {
        "6"@
    } else if d == 7 {
        "7"@
    } else if d == 8 {
        "8"@
    } else {
        "9"@
    }
}

/// The decimal numeral of `n`, without leading zeros.
pub open spec fn decimal(n: nat) -> Seq<char>
    decreases n,
{
    if n < 10 {
        digit_text(n as int)
    } else {
        decimal(n / 10) + digit_text((n % 10) as int)
    }
}

/// The decimal numeral of `n`, with a leading `-` where it is negative.
pub open spec fn signed_decimal(n: int) -> Seq<char> {
    if n < 0 {
        "-"@ + decimal((-n) as nat)
    } else {
        decimal(n as nat)
    }
}

fn digit_str(d: u64) -> (r: &'static str)
    requires
        d < 10,
    ensures
        r@ == digit_text(d as int),
{
    if d == 0 {
        "0"
    } else if d == 1 {
        "1"
    } else if d == 2 {
        "2"
    } else if d == 3 {
        "3"
    } else if d == 4 {
        "4"
    } else if d == 5 {
        "5"
    } else if d == 6 {
        "6"
    } else if d == 7 {
        "7"
    } else if d == 8 {
        "8"
    } else {
        "9"
    }
}

/// Appends the decimal numeral of `n` to `s`.
pub fn push_decimal(s: &mut String, n: u64)
    ensures
        final(s)@ == old(s)@ + decimal(n as nat),
    decreases n,
{
    if n >= 10 {
        push_decimal(s, n / 10);
    }
    s.append(digit_str(n % 10));
    proof {
        if n >= 10 {
            assert(decimal(n as nat) == decimal((n / 10) as nat) + digit_text((n % 10) as int));
        }
    }
}

/// Appends the signed decimal numeral of `n` to `s`.
pub fn push_signed_decimal(s: &mut String, n: i64)
    ensures
        final(s)@ == old(s)@ + signed_decimal(n as int),
{
    if n < 0 {
        s.append("-");
        let magnitude: u64 = ((-(n + 1)) as u64) + 1;
        push_decimal(s, magnitude);
        proof {
            assert(final(s)@ =~= old(s)@ + signed_decimal(n as int));
        }
    } else {
        push_decimal(s, n as u64);
    }
}

/// The date and time, in UTC, that chrono writes for an instant given in
/// microseconds since the Unix epoch, where chrono can represent it.
pub uninterp spec fn utc_text(micros: i64) -> Option<Seq<char>>;

/// Relies on chrono's `DateTime::from_timestamp_micros`, which gives the
/// instant where it lies in chrono's range, and on the `Display` of
/// `NaiveDateTime` (`2023-11-04 12:30:00.250`); the text depends on the
/// number alone.
#[verifier::external_body]
fn utc_date_time(micros: i64) -> (r: Option<String>)
    ensures
        r matches Some(t) ==> utc_text(micros) == Some(t@),
        r is None <==> utc_text(micros) is None,
{
    chrono::DateTime::from_timestamp_micros(micros).map(|d| d.naive_utc().to_string())
}

/// An instant as text: its UTC date and time, or else its numeral of
/// microseconds.
pub open spec fn instant_text(micros: i64) -> Seq<char> {
    match utc_text(micros) {
        Some(t) => t,
        None => signed_decimal(micros as int),
    }
}

/// Appends `instant_text(micros)` to `s`.
pub fn push_instant(s: &mut String, micros: i64)
    ensures
        final(s)@ == old(s)@ + instant_text(micros),
{
    match utc_date_time(micros) {
        Some(t) => s.append(t.as_str()),
        None => push_signed_decimal(s, micros),
    }
}

} // verus!
