//! Text helpers: decimal rendering of integers and the duration label shown
//! next to usage totals.

use vstd::prelude::*;
use vstd::string::*;

verus! {

pub open spec fn digit_char(d: int) -> char {
    ('0' as int + d) as char
}

/// Decimal digits of a natural number, most significant first.
pub open spec fn decimal_digits(n: nat) -> Seq<char>
    decreases n,
{
    if n < 10 {
        seq![digit_char(n as int)]
    } else {
        decimal_digits(n / 10).push(digit_char((n % 10) as int))
    }
}

/// Decimal text of an integer, with a leading `-` when negative.
pub open spec fn decimal_text(n: int) -> Seq<char> {
    if n < 0 {
        seq!['-'] + decimal_digits((-n) as nat)
    } else {
        decimal_digits(n as nat)
    }
}

fn digit_str(d: u64) -> (r: &'static str)
    requires
        d < 10,
    ensures
        r@ == seq![digit_char(d as int)],
{
    proof {
        reveal_strlit("0");
        reveal_strlit("1");
        reveal_strlit("2");
        reveal_strlit("3");
        reveal_strlit("4");
        reveal_strlit("5");
        reveal_strlit("6");
        reveal_strlit("7");
        reveal_strlit("8");
        reveal_strlit("9");
    }
    match d {
        0 => "0",
        1 => "1",
        2 => "2",
        3 => "3",
        4 => "4",
        5 => "5",
        6 => "6",
        7 => "7",
        8 => "8",
        _ => "9",
    }
}

fn push_digits(out: &mut String, n: u64)
    ensures
        final(out)@ == old(out)@ + decimal_digits(n as nat),
    decreases n,
{
    if n >= 10 {
        push_digits(out, n / 10);
    }
    out.append(digit_str(n % 10));
    proof {
        if n >= 10 {
            assert(old(out)@ + decimal_digits((n / 10) as nat) + seq![digit_char((n % 10) as int)]
                =~= old(out)@ + decimal_digits(n as nat));
        } else {
            assert(decimal_digits(n as nat) =~= seq![digit_char(n as int)]);
        }
    }
}

/// Appends the decimal text of `n` to `out`.
pub fn push_decimal(out: &mut String, n: i64)
    ensures
        final(out)@ == old(out)@ + decimal_text(n as int),
{
    if n < 0 {
        proof {
            reveal_strlit("-");
        }
        out.append("-");
        let m = (0i128 - n as i128) as u64;
        push_digits(out, m);
        proof {
            assert(old(out)@ + seq!['-'] + decimal_digits(m as nat) =~= old(out)@ + decimal_text(
                n as int,
            ));
        }
    } else {
        push_digits(out, n as u64);
    }
}

/// The decimal text of `n`.
pub fn decimal_string(n: i64) -> (r: String)
    ensures
        r@ == decimal_text(n as int),
{
    let mut out = String::new();
    push_decimal(&mut out, n);
    assert(out@ =~= decimal_text(n as int));
    out
}

/// Quotient rounded toward zero, as Rust's integer `/` computes it.
pub open spec fn trunc_div(a: int, b: int) -> int {
    if a >= 0 {
        a / b
    } else {
        -((-a) / b)
    }
}

/// Whole minutes of a duration, rounded up for positive durations
/// (`(millis + 59_999) / 60_000` with truncating division).
pub open spec fn duration_minutes(total_millis: int) -> int {
    trunc_div(total_millis + 60000 - 1, 60000)
}

/// The label of a duration: `"{m}m"` below an hour, else `"{h}h"` or `"{h}h {m}m"`.
pub open spec fn duration_label(total_millis: int) -> Seq<char> {
    let total_minutes = duration_minutes(total_millis);
    if total_minutes < 60 {
        decimal_text(total_minutes) + seq!['m']
    } else {
        let hours = total_minutes / 60;
        let mins = total_minutes % 60;
        if mins == 0 {
            decimal_text(hours) + seq!['h']
        } else {
            decimal_text(hours) + seq!['h', ' '] + decimal_text(mins) + seq!['m']
        }
    }
}

/// Format a duration in milliseconds as `"45m"`, `"2h"` or `"1h 30m"`
/// (minutes rounded up).
pub fn format_duration(total_millis: i64) -> (r: String)
    requires
        total_millis <= i64::MAX - 60_000,
    ensures
        r@ == duration_label(total_millis as int),
{
    let shifted = total_millis + 60000 - 1;
    let total_minutes: i64 = if shifted >= 0 {
        shifted / 60000
    } else {
        -((-(shifted as i128)) / 60000) as i64
    };
    proof {
        reveal_strlit("m");
        reveal_strlit("h");
        reveal_strlit("h ");
    }
    let mut out = String::new();
    if total_minutes < 60 {
        push_decimal(&mut out, total_minutes);
        out.append("m");
    } else {
        let hours = total_minutes / 60;
        let mins = total_minutes % 60;
        push_decimal(&mut out, hours);
        if mins == 0 {
            out.append("h");
        } else {
            out.append("h ");
            push_decimal(&mut out, mins);
            out.append("m");
        }
    }
    assert(out@ =~= duration_label(total_millis as int));
    out
}

/// Whether every character is an ASCII decimal digit, and there is one.
pub open spec fn all_digits(s: Seq<char>) -> bool {
    s.len() > 0 && forall|i: int| 0 <= i < s.len() ==> '0' <= #[trigger] s[i] <= '9'
}

/// The value of a run of decimal digits, most significant first.
pub open spec fn digits_value(s: Seq<char>) -> int
    decreases s.len(),
{
    if s.len() == 0 {
        0
    } else {
        digits_value(s.drop_last()) * 10 + (s.last() as int - '0' as int)
    }
}

/// The integer an optional `+` or `-` followed by decimal digits denotes.
pub open spec fn signed_decimal_value(s: Seq<char>) -> Option<int> {
    if s.len() > 0 && s[0] == '-' && all_digits(s.drop_first()) {
        Some(-digits_value(s.drop_first()))
    } else if s.len() > 0 && s[0] == '+' && all_digits(s.drop_first()) {
        Some(digits_value(s.drop_first()))
    } else if all_digits(s) {
        Some(digits_value(s))
    } else {
        None
    }
}

/// The `i64` a text denotes, if it is a signed decimal within range.
pub open spec fn i64_text_value(s: Seq<char>) -> Option<int> {
    match signed_decimal_value(s) {
        Some(v) => if i64::MIN <= v <= i64::MAX {
            Some(v)
        } else {
            None
        },
        None => None,
    }
}

/// `str::parse::<i64>`: as std documents integer parsing, the text must be
/// an optional `+` or `-` sign followed by one or more ASCII digits, and
/// the value must fit; any other text is an error.
#[verifier::external_body]
fn parse_i64(s: &str) -> (r: Option<i64>)
    ensures
        match r {
            Some(v) => i64_text_value(s@) == Some(v as int),
            None => i64_text_value(s@) is None,
        },
{
    s.parse::<i64>().ok()
}

/// The number in a numeric input field, or `default` when the text is not
/// a decimal `i64`.
pub fn number_field_value(text: &str, default: i64) -> (r: i64)
    ensures
        r == match i64_text_value(text@) {
            Some(v) => v,
            None => default as int,
        },
{
    match parse_i64(text) {
        Some(v) => v,
        None => default,
    }
}

/// The `u16` a text denotes: an optional `+` followed by decimal digits
/// whose value is at most 65535.
pub open spec fn u16_text_value(s: Seq<char>) -> Option<int> {
    if s.len() > 0 && s[0] == '+' && all_digits(s.drop_first()) && digits_value(s.drop_first()) <= 65535 {
        Some(digits_value(s.drop_first()))
    } else if all_digits(s) && digits_value(s) <= 65535 {
        Some(digits_value(s))
    } else {
        None
    }
}

/// `str::parse::<u16>`: as std documents unsigned integer parsing, the text
/// must be an optional `+` followed by one or more ASCII digits, and the
/// value must fit; any other text (a `-` sign included) is an error.
#[verifier::external_body]
fn parse_u16(s: &str) -> (r: Option<u16>)
    ensures
        match r {
            Some(v) => u16_text_value(s@) == Some(v as int),
            None => u16_text_value(s@) is None,
        },
{
    s.parse::<u16>().ok()
}

/// The number in a clock field (hours or minutes), 0 when its text is not
/// a decimal `u16`, and at most `max`.
pub fn clock_field_value(text: &str, max: u16) -> (r: u16)
    ensures
        r == match u16_text_value(text@) {
            Some(v) => if v <= max {
                v
            } else {
                max as int
            },
            None => 0,
        },
{
    let v = match parse_u16(text) {
        Some(v) => v,
        None => 0,
    };
    if v <= max {
        v
    } else {
        max
    }
}

} // verus!
