//! Durations: reading them from the command line and config (`10s`, `5m`,
//! `2h`, `1d`), and writing them as clock text (`1:02:03:04.5`).
//!
//! A duration is a signed count of nanoseconds. The durations the clock
//! works with are those of `chrono`: at most `i64::MAX` milliseconds either
//! way.
use vstd::prelude::*;

use vstd::arithmetic::div_mod::lemma_fundamental_div_mod_converse;

use crate::text::{
    all_digits, chars_of, decimal, decimal2, digits_value, is_digit, parse_digits, push_char,
    push_decimal, push_decimal2,
};

verus! {

/// Nanoseconds in a millisecond.
pub const NANOS_PER_MILLI: i128 = 1_000_000;

/// Nanoseconds in a second.
pub const NANOS_PER_SEC: i128 = 1_000_000_000;

/// The longest duration, in nanoseconds: `i64::MAX` milliseconds.
pub open spec fn max_duration_nanos() -> int {
    i64::MAX as int * 1_000_000
}

/// The most seconds that a whole-second duration can hold.
pub open spec fn max_duration_secs() -> int {
    i64::MAX as int / 1000
}

/// Whether `nanos` is a duration that the clock can hold.
pub open spec fn duration_in_range(nanos: int) -> bool {
    -max_duration_nanos() <= nanos <= max_duration_nanos()
}

/// How a duration is written.
#[derive(Clone, Copy, Debug, PartialEq, Eq, Structural)]
pub enum DurationFormat {
    /// Hours, minutes, seconds, deciseconds
    HourMinSecDeci,
    /// Hours, minutes, seconds
    HourMinSec,
}

// ---------------------------------------------------------------------------
// chrono
/// `chrono::TimeDelta::try_seconds`, as whole milliseconds: a duration of
/// `seconds` seconds when that is within chrono's range (at most `i64::MAX`
/// milliseconds either way), else `None`.
#[verifier::external_body]
fn delta_millis_of_seconds(seconds: i64) -> (r: Option<i64>)
    ensures
        r == if -max_duration_secs() <= seconds <= max_duration_secs() {
            Some((seconds * 1000) as i64)
        } else {
            None::<i64>
        },
{
    match chrono::TimeDelta::try_seconds(seconds) {
        Some(d) => Some(d.num_milliseconds()),
        None => None,
    }
}

/// `chrono::TimeDelta::try_minutes`, as whole milliseconds: the seconds are
/// `minutes * 60`, checked for `i64` overflow, then as `try_seconds`.
#[verifier::external_body]
pub(crate) fn delta_millis_of_minutes(minutes: i64) -> (r: Option<i64>)
    ensures
        r == if -max_duration_secs() <= minutes * 60 <= max_duration_secs() {
            Some((minutes * 60_000) as i64)
        } else {
            None::<i64>
        },
{
    match chrono::TimeDelta::try_minutes(minutes) {
        Some(d) => Some(d.num_milliseconds()),
        None => None,
    }
}

/// `chrono::TimeDelta::try_hours`, as whole milliseconds: the seconds are
/// `hours * 3600`, checked for `i64` overflow, then as `try_seconds`.
#[verifier::external_body]
fn delta_millis_of_hours(hours: i64) -> (r: Option<i64>)
    ensures
        r == if -max_duration_secs() <= hours * 3600 <= max_duration_secs() {
            Some((hours * 3_600_000) as i64)
        } else {
            None::<i64>
        },
{
    match chrono::TimeDelta::try_hours(hours) {
        Some(d) => Some(d.num_milliseconds()),
        None => None,
    }
}

/// `chrono::TimeDelta::try_days`, as whole milliseconds: the seconds are
/// `days * 86400`, checked for `i64` overflow, then as `try_seconds`.
#[verifier::external_body]
fn delta_millis_of_days(days: i64) -> (r: Option<i64>)
    ensures
        r == if -max_duration_secs() <= days * 86400 <= max_duration_secs() {
            Some((days * 86_400_000) as i64)
        } else {
            None::<i64>
        },
{
    match chrono::TimeDelta::try_days(days) {
        Some(d) => Some(d.num_milliseconds()),
        None => None,
    }
}

// ---------------------------------------------------------------------------
// Reading durations
/// The seconds in one of the duration units `s`, `m`, `h`, `d` (either case).
pub open spec fn unit_seconds(u: char) -> Option<int> {
    if u == 's' || u == 'S' {
        Some(1)
    } else if u == 'm' || u == 'M' {
        Some(60)
    } else if u == 'h' || u == 'H' {
        Some(3600)
    } else if u == 'd' || u == 'D' {
        Some(86400)
    } else {
        None
    }
}

/// Whether `c` is a decimal digit of any script (Unicode's general
/// category Nd), as regex's class `\d` matches it.
pub uninterp spec fn unicode_decimal_digit(c: char) -> bool;

/// Whether every character of `d` is a decimal digit of some script.
pub open spec fn all_decimal_digits(d: Seq<char>) -> bool {
    forall|i: int| 0 <= i < d.len() ==> #[trigger] unicode_decimal_digit(d[i])
}

/// regex's `Regex::new` of `pattern`, which is `^\d$`, then `is_match` on
/// the character `c` alone: whether `c` is a decimal digit of some script.
/// Which characters those are is named (Unicode's tables decide it); the
/// only ASCII ones are `0` to `9`.
#[verifier::external_body]
fn is_decimal_digit(pattern: &str, c: char) -> (r: bool)
    requires
        pattern@ == "^\\d$"@,
    ensures
        r == unicode_decimal_digit(c),
        (c as u32) < 128 ==> r == is_digit(c),
{
    let mut buf = [0u8; 4];
    match regex::Regex::new(pattern) {
        Ok(re) => re.is_match(c.encode_utf8(&mut buf)),
        Err(_) => false,
    }
}

/// Whether `s` is written as a duration: decimal digits (ASCII or of any
/// other script), then one unit letter.
pub open spec fn is_duration_text(s: Seq<char>) -> bool {
    &&& s.len() >= 2
    &&& (all_digits(s.drop_last()) || all_decimal_digits(s.drop_last()))
    &&& unit_seconds(s.last()) is Some
}

/// The error for text that is not a duration.
pub open spec fn invalid_duration_message(s: Seq<char>) -> Seq<char> {
    s + " is not a valid duration"@
}

/// The error for a duration too long for the clock.
pub open spec fn too_large_message(s: Seq<char>) -> Seq<char> {
    "Duration is too large: "@ + s
}

/// What `s` means as a duration, in nanoseconds: a count followed by a unit
/// (`10s`, `5M`, `2h`, `1D`), which must be written in ASCII digits, fit in
/// an `i64` and, as seconds, in the clock's range. A count in other digits
/// reads as a duration but not as an `i64`: it is too large.
pub open spec fn spec_parse_duration(s: Seq<char>) -> Result<int, Seq<char>> {
    if !is_duration_text(s) {
        Err(invalid_duration_message(s))
    } else if !all_digits(s.drop_last()) {
        Err(too_large_message(s))
    } else {
        let count = digits_value(s.drop_last());
        let secs = count * unit_seconds(s.last())->0;
        if count <= i64::MAX && secs <= max_duration_secs() {
            Ok(secs * 1_000_000_000)
        } else {
            Err(too_large_message(s))
        }
    }
}

fn invalid_duration(s: &str) -> (m: String)
    ensures
        m@ == invalid_duration_message(s@),
{
    let mut m = String::from_str(s);
    m.append(" is not a valid duration");
    m
}

fn too_large(s: &str) -> (m: String)
    ensures
        m@ == too_large_message(s@),
{
    let mut m = String::from_str("Duration is too large: ");
    m.append(s);
    m
}

/// Reads a duration such as `10s`, `5m`, `2h` or `1d` (the unit in either
/// case), in nanoseconds.
pub fn parse_duration(s: &str) -> (r: Result<i128, String>)
    ensures
        match r {
            Ok(n) => spec_parse_duration(s@) == Ok::<int, Seq<char>>(n as int),
            Err(m) => spec_parse_duration(s@) == Err::<int, Seq<char>>(m@),
        },
{
    let cs = chars_of(s);
    let n = cs.len();
    if n < 2 {
        return Err(invalid_duration(s));
    }
    let unit = cs[n - 1];
    assert(cs@.subrange(0, n - 1) == cs@.drop_last());
    if !(unit == 's' || unit == 'S' || unit == 'm' || unit == 'M' || unit == 'h' || unit == 'H'
        || unit == 'd' || unit == 'D') {
        return Err(invalid_duration(s));
    }
    let pattern = "^\\d$";
    let mut k: usize = 0;
    while k < n - 1
        invariant
            n == cs.len(),
            cs@ == s@,
            n >= 2,
            k <= n - 1,
            pattern@ == "^\\d$"@,
            forall|j: int| 0 <= j < k ==> #[trigger] unicode_decimal_digit(cs@[j]),
        decreases n - 1 - k,
    {
        if !is_decimal_digit(pattern, cs[k]) {
            assert(cs@.drop_last()[k as int] == cs@[k as int]);
            assert(!is_digit(cs@[k as int]));
            return Err(invalid_duration(s));
        }
        k += 1;
    }
    assert(all_decimal_digits(cs@.drop_last()));
    let count = match parse_digits(&cs, 0, n - 1, i64::MAX as u64) {
        Some(v) => v as i64,
        None => return Err(too_large(s)),
    };
    let millis = if unit == 's' || unit == 'S' {
        delta_millis_of_seconds(count)
    } else if unit == 'm' || unit == 'M' {
        delta_millis_of_minutes(count)
    } else if unit == 'h' || unit == 'H' {
        delta_millis_of_hours(count)
    } else if unit == 'd' || unit == 'D' {
        delta_millis_of_days(count)
    } else {
        return Err(invalid_duration(s));
    };
    match millis {
        Some(ms) => Ok(ms as i128 * NANOS_PER_MILLI),
        None => Err(too_large(s)),
    }
}

// ---------------------------------------------------------------------------
// Writing durations
/// `prefix` followed by `n`: plainly when nothing precedes it, else padded to
/// two digits.
pub open spec fn append_number(prefix: Seq<char>, n: nat) -> Seq<char> {
    if prefix.len() == 0 {
        prefix + decimal(n)
    } else {
        prefix + decimal2(n)
    }
}

/// The clock text of a duration of `nanos` nanoseconds: days and hours only
/// when there are any, then minutes and seconds, a minus sign in front of a
/// negative duration, and tenths of a second in the decisecond format.
pub open spec fn spec_format_duration(nanos: int, format: DurationFormat) -> Seq<char> {
    let neg = nanos < 0;
    let a: nat = if neg {
        (-nanos) as nat
    } else {
        nanos as nat
    };
    let millis = a / 1_000_000;
    let seconds = millis / 1000;
    let minutes = seconds / 60;
    let hours = minutes / 60;
    let days = hours / 24;
    let p1 = if days > 0 {
        decimal(days) + seq![':']
    } else {
        Seq::empty()
    };
    let p2 = if hours > 0 {
        append_number(p1, hours % 24) + seq![':']
    } else {
        p1
    };
    let p3 = append_number(p2, minutes % 60) + seq![':'];
    let p4 = if neg {
        seq!['-'] + p3
    } else {
        p3
    };
    match format {
        DurationFormat::HourMinSecDeci => p4 + decimal2(seconds % 60) + seq!['.'] + decimal(
            (millis % 1000) / 100,
        ),
        DurationFormat::HourMinSec => p4 + decimal2(seconds % 60),
    }
}

fn push_number(s: &mut String, n: u64)
    ensures
        final(s)@ == append_number(old(s)@, n as nat),
{
    if s.as_str().is_empty() {
        push_decimal(s, n);
    } else {
        push_decimal2(s, n);
    }
}

/// Writes a duration of `nanos` nanoseconds as clock text.
pub fn format_duration(nanos: i128, format: DurationFormat) -> (s: String)
    requires
        duration_in_range(nanos as int),
    ensures
        s@ == spec_format_duration(nanos as int, format),
{
    let is_neg = nanos < 0;
    let a: u128 = if is_neg {
        (-nanos) as u128
    } else {
        nanos as u128
    };
    let millis: u64 = (a / 1_000_000) as u64;
    let seconds = millis / 1000;
    let minutes = seconds / 60;
    let hours = minutes / 60;
    let days = hours / 24;
    let mut result = String::new();
    if days > 0 {
        push_decimal(&mut result, days);
        push_char(&mut result, ':');
    }
    if hours > 0 {
        push_number(&mut result, hours % 24);
        push_char(&mut result, ':');
    }
    push_number(&mut result, minutes % 60);
    push_char(&mut result, ':');
    let mut out = String::new();
    if is_neg {
        push_char(&mut out, '-');
    }
    out.append(result.as_str());
    match format {
        DurationFormat::HourMinSecDeci => {
            push_decimal2(&mut out, seconds % 60);
            push_char(&mut out, '.');
            push_decimal(&mut out, (millis % 1000) / 100);
        },
        DurationFormat::HourMinSec => {
            push_decimal2(&mut out, seconds % 60);
        },
    }
    assert(out@ =~= spec_format_duration(nanos as int, format));
    out
}

/// Whether a blinking display is lit: in the first half of each second.
pub open spec fn spec_should_flash(nanos: int) -> bool {
    let a = if nanos < 0 {
        -nanos
    } else {
        nanos
    };
    (a / 1_000_000) % 1000 < 500
}

/// Whether a blinking display is lit at `nanos` into a duration.
pub fn should_flash(nanos: i128) -> (b: bool)
    requires
        duration_in_range(nanos as int),
    ensures
        b == spec_should_flash(nanos as int),
{
    let a: u128 = if nanos < 0 {
        (-nanos) as u128
    } else {
        nanos as u128
    };
    (a / 1_000_000) % 1000 < 500
}

/// A duration that reads is never negative and is one the clock can hold.
pub proof fn parsed_duration_is_in_range(s: Seq<char>)
    ensures
        spec_parse_duration(s) matches Ok(n) ==> 0 <= n && duration_in_range(n),
{
    if is_duration_text(s) {
        let count = digits_value(s.drop_last());
        let secs = count * unit_seconds(s.last())->0;
        if count <= i64::MAX && secs <= max_duration_secs() {
            assert(0 <= secs);
            assert(secs * 1_000_000_000 <= max_duration_secs() * 1_000_000_000) by (nonlinear_arith)
                requires
                    0 <= secs <= max_duration_secs(),
            ;
            assert(0 <= secs * 1_000_000_000) by (nonlinear_arith)
                requires
                    0 <= secs,
            ;
        }
    }
}

/// The unit letter, in either case, says how many seconds a count is
/// worth: `s` one, `m` sixty (minutes), `h` an hour, `d` a day. A count of
/// ASCII digits reads as that many units, in nanoseconds, when it fits the
/// clock's range, and is too large otherwise.
pub proof fn duration_units_read_in_either_case(digits: Seq<char>, unit: char)
    requires
        digits.len() > 0,
        all_digits(digits),
    ensures
        ({
            let n = digits_value(digits);
            let secs: int = if unit == 's' || unit == 'S' {
                1
            } else if unit == 'm' || unit == 'M' {
                60
            } else if unit == 'h' || unit == 'H' {
                3600
            } else if unit == 'd' || unit == 'D' {
                86400
            } else {
                0
            };
            let text = digits.push(unit);
            &&& secs == 0 ==> spec_parse_duration(text) == Err::<int, Seq<char>>(
                text + " is not a valid duration"@,
            )
            &&& secs > 0 && n * secs <= i64::MAX / 1000 ==> spec_parse_duration(text) == Ok::<
                int,
                Seq<char>,
            >(n * secs * 1_000_000_000)
            &&& secs > 0 && n * secs > i64::MAX / 1000 ==> spec_parse_duration(text) == Err::<
                int,
                Seq<char>,
            >("Duration is too large: "@ + text)
        }),
{
    let text = digits.push(unit);
    assert(text.drop_last() == digits);
    assert(text.last() == unit);
    let n = digits_value(digits);
    assert(n * 1 == n);
    if n > i64::MAX {
        assert(n * 60 >= n && n * 3600 >= n && n * 86400 >= n) by (nonlinear_arith)
            requires
                n >= 0,
        ;
    }
}

/// A negative duration is written as the same duration forward, with a
/// minus sign in front.
pub proof fn negative_duration_is_signed(nanos: int, format: DurationFormat)
    requires
        nanos > 0,
    ensures
        spec_format_duration(-nanos, format) == seq!['-'] + spec_format_duration(nanos, format),
{
    let a = nanos as nat;
    let millis = a / 1_000_000;
    let seconds = millis / 1000;
    let minutes = seconds / 60;
    let hours = minutes / 60;
    let days = hours / 24;
    let p1 = if days > 0 {
        decimal(days) + seq![':']
    } else {
        Seq::empty()
    };
    let p2 = if hours > 0 {
        append_number(p1, hours % 24) + seq![':']
    } else {
        p1
    };
    let p3 = append_number(p2, minutes % 60) + seq![':'];
    match format {
        DurationFormat::HourMinSecDeci => {
            assert(seq!['-'] + p3 + decimal2(seconds % 60) + seq!['.'] + decimal(
                (millis % 1000) / 100,
            ) =~= seq!['-'] + (p3 + decimal2(seconds % 60) + seq!['.'] + decimal(
                (millis % 1000) / 100,
            )));
        },
        DurationFormat::HourMinSec => {
            assert(seq!['-'] + p3 + decimal2(seconds % 60) =~= seq!['-'] + (p3 + decimal2(
                seconds % 60,
            )));
        },
    }
}

/// The clock text of a duration shows its whole days, hours, minutes and
/// seconds and its tenths of a second, each in its own field: days and
/// hours only when the duration reaches them, the fields after the first
/// padded to two digits.
pub proof fn clock_text_shows_each_unit(
    days: nat,
    hours: nat,
    minutes: nat,
    seconds: nat,
    tenths: nat,
    rest: nat,
)
    requires
        hours < 24,
        minutes < 60,
        seconds < 60,
        tenths < 10,
        rest < 100_000_000,
    ensures
        ({
            let nanos = (((days * 24 + hours) * 60 + minutes) * 60 + seconds) * 1_000_000_000
                + tenths * 100_000_000 + rest;
            let head = if days > 0 {
                decimal(days) + seq![':'] + decimal2(hours) + seq![':'] + decimal2(minutes)
            } else if hours > 0 {
                decimal(hours) + seq![':'] + decimal2(minutes)
            } else {
                decimal(minutes)
            };
            &&& spec_format_duration(nanos as int, DurationFormat::HourMinSec) == head + seq![':']
                + decimal2(seconds)
            &&& spec_format_duration(nanos as int, DurationFormat::HourMinSecDeci) == head + seq![':']
                + decimal2(seconds) + seq!['.'] + decimal(tenths)
        }),
{
    let total_hours = days * 24 + hours;
    let total_minutes = total_hours * 60 + minutes;
    let total_seconds = total_minutes * 60 + seconds;
    let nanos = total_seconds * 1_000_000_000 + tenths * 100_000_000 + rest;
    let millis_rest = tenths * 100 + rest / 1_000_000;
    assert(rest / 1_000_000 < 100) by (nonlinear_arith)
        requires
            rest < 100_000_000,
    ;
    lemma_fundamental_div_mod_converse(
        rest as int,
        1_000_000,
        (rest / 1_000_000) as int,
        (rest % 1_000_000) as int,
    );
    assert(nanos == (total_seconds * 1000 + millis_rest) * 1_000_000 + rest % 1_000_000)
        by (nonlinear_arith)
        requires
            nanos == total_seconds * 1_000_000_000 + tenths * 100_000_000 + rest,
            millis_rest == tenths * 100 + rest / 1_000_000,
            rest == (rest / 1_000_000) * 1_000_000 + rest % 1_000_000,
    ;
    lemma_fundamental_div_mod_converse(
        nanos as int,
        1_000_000,
        (total_seconds * 1000 + millis_rest) as int,
        (rest % 1_000_000) as int,
    );
    let millis = total_seconds * 1000 + millis_rest;
    lemma_fundamental_div_mod_converse(
        millis as int,
        1000,
        total_seconds as int,
        millis_rest as int,
    );
    lemma_fundamental_div_mod_converse(
        millis_rest as int,
        100,
        tenths as int,
        (rest / 1_000_000) as int,
    );
    lemma_fundamental_div_mod_converse(
        total_seconds as int,
        60,
        total_minutes as int,
        seconds as int,
    );
    lemma_fundamental_div_mod_converse(
        total_minutes as int,
        60,
        total_hours as int,
        minutes as int,
    );
    lemma_fundamental_div_mod_converse(total_hours as int, 24, days as int, hours as int);
    assert(days > 0 ==> total_hours > 0);
    let head = if days > 0 {
        decimal(days) + seq![':'] + decimal2(hours) + seq![':'] + decimal2(minutes)
    } else if hours > 0 {
        decimal(hours) + seq![':'] + decimal2(minutes)
    } else {
        decimal(minutes)
    };
    let p1 = if days > 0 {
        decimal(days) + seq![':']
    } else {
        Seq::<char>::empty()
    };
    let p2 = if total_hours > 0 {
        append_number(p1, hours) + seq![':']
    } else {
        p1
    };
    let p3 = append_number(p2, minutes) + seq![':'];
    assert(p3 =~= head + seq![':']);
}

/// A blinking display is lit alike before and after the zero: the sign of
/// the duration does not matter.
pub proof fn flash_ignores_sign(nanos: int)
    ensures
        spec_should_flash(-nanos) == spec_should_flash(nanos),
{
}

} // verus!
