use num_ordinal::Ordinal;
use vstd::prelude::*;

verus! {

/// The decimal digit character for `d` in `0..10`.
pub open spec fn digit_char(d: int) -> char {
    (48 + d) as char
}

/// The decimal digits of `n`, most significant first, without leading zeros.
pub open spec fn decimal(n: nat) -> Seq<char>
    decreases n,
{
    if n < 10 {
        seq![digit_char(n as int)]
    } else {
        decimal(n / 10).push(digit_char((n % 10) as int))
    }
}

/// An integer as `Display` writes it: a minus sign for negatives, then the digits.
pub open spec fn integer_text(i: int) -> Seq<char> {
    if i < 0 {
        seq!['-'] + decimal((-i) as nat)
    } else {
        decimal(i as nat)
    }
}

/// The English suffix of the ordinal of `n` (1st, 2nd, 3rd, 4th, 11th, 12th, 13th, 21st, ...).
pub open spec fn ordinal_suffix(n: nat) -> Seq<char> {
    let two_digits = n % 100;
    let digit = two_digits % 10;
    if digit == 1 && two_digits != 11 {
        "st"@
    } else if digit == 2 && two_digits != 12 {
        "nd"@
    } else if digit == 3 && two_digits != 13 {
        "rd"@
    } else {
        "th"@
    }
}

/// The English ordinal of `n >= 1`: the first three in words, the rest in digits.
pub open spec fn ordinal_text(n: nat) -> Seq<char> {
    if n == 1 {
        "first"@
    } else if n == 2 {
        "second"@
    } else if n == 3 {
        "third"@
    } else {
        decimal(n) + ordinal_suffix(n)
    }
}

/// The English name of month `m` in `1..=12`.
pub open spec fn month_name_text(m: int) -> Seq<char> {
    if m == 1 { "January"@ }
    else if m == 2 { "February"@ }
    else if m == 3 { "March"@ }
    else if m == 4 { "April"@ }
    else if m == 5 { "May"@ }
    else if m == 6 { "June"@ }
    else if m == 7 { "July"@ }
    else if m == 8 { "August"@ }
    else if m == 9 { "September"@ }
    else if m == 10 { "October"@ }
    else if m == 11 { "November"@ }
    else { "December"@ }
}

/// `num_ordinal::Osize::from1(n)` written with `Display`: "first", "second",
/// "third", then the number in digits with its suffix ("4th", "21st", "112th").
/// `from1` panics on 0, so `requires` leaves 0 out.
#[verifier::external_body]
pub(crate) fn ordinal_string(n: usize) -> (s: String)
    requires
        n >= 1,
    ensures
        s@ == ordinal_text(n as nat),
{
    format!("{}", num_ordinal::Osize::from1(n))
}

/// `i32`'s `Display` (through `ToString`): the decimal form of the number.
#[verifier::external_body]
pub(crate) fn integer_string(i: i32) -> (s: String)
    ensures
        s@ == integer_text(i as int),
{
    i.to_string()
}

/// `chrono::Month::try_from(m as u8)` followed by `Month::name`: the English
/// name of the month. `try_from` fails outside `1..=12` and `unwrap` would
/// panic, so `requires` leaves those numbers out.
#[verifier::external_body]
pub(crate) fn month_name(m: u32) -> (name: &'static str)
    requires
        1 <= m <= 12,
    ensures
        name@ == month_name_text(m as int),
{
    chrono::Month::try_from(m as u8).unwrap().name()
}

} // verus!
