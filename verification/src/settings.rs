//! Reading the command line's values: clock size, color, time zone and
//! timer durations.
use vstd::prelude::*;

use crate::config::TimerConfig;
use crate::duration::{delta_millis_of_minutes, parse_duration, spec_parse_duration, NANOS_PER_MILLI};
use crate::style::Color;
use crate::text::{chars_of, spec_parse_u16};

verus! {

// ---------------------------------------------------------------------------
// Size
/// What `s` means as a clock size: a positive `u16`.
pub open spec fn spec_parse_size(s: Seq<char>) -> Result<u16, Seq<char>> {
    match spec_parse_u16(s) {
        None => Err("Invalid clock size: "@ + s),
        Some(n) => if n == 0 {
            Err("Clock size must be at least 1"@)
        } else {
            Ok(n)
        },
    }
}

/// Reads the clock size, which must be a positive integer.
pub fn parse_size(s: &str) -> (r: Result<u16, String>)
    ensures
        match r {
            Ok(n) => spec_parse_size(s@) == Ok::<u16, Seq<char>>(n),
            Err(m) => spec_parse_size(s@) == Err::<u16, Seq<char>>(m@),
        },
{
    match crate::text::parse_u16(s) {
        None => {
            let mut m = String::from_str("Invalid clock size: ");
            m.append(s);
            Err(m)
        },
        Some(n) => if n == 0 {
            Err(String::from_str("Clock size must be at least 1"))
        } else {
            Ok(n)
        },
    }
}

// ---------------------------------------------------------------------------
// Color
/// Whether two strings hold the same characters.
pub fn str_eq(a: &str, b: &str) -> (r: bool)
    ensures
        r == (a@ == b@),
{
    let x = chars_of(a);
    let y = chars_of(b);
    if x.len() != y.len() {
        return false;
    }
    let mut i: usize = 0;
    while i < x.len()
        invariant
            x@ == a@,
            y@ == b@,
            x@.len() == y@.len(),
            i <= x@.len(),
            forall|j: int| 0 <= j < i ==> x@[j] == y@[j],
        decreases x@.len() - i,
    {
        if x[i] != y[i] {
            return false;
        }
        i += 1;
    }
    assert(x@ =~= y@);
    true
}

/// Rust's `str::to_lowercase` (Unicode lower case) of `s`.
pub uninterp spec fn lowercase(s: Seq<char>) -> Seq<char>;

/// The ASCII lower case of `c`: `A` to `Z` become `a` to `z`, any other
/// character stays.
pub open spec fn ascii_lower(c: char) -> char {
    if 'A' <= c <= 'Z' {
        ((c as u32) + 32) as char
    } else {
        c
    }
}

/// Whether every character of `s` is ASCII.
pub open spec fn is_ascii_text(s: Seq<char>) -> bool {
    forall|i: int| 0 <= i < s.len() ==> (#[trigger] s[i] as u32) < 128
}

/// Rust's `str::to_lowercase`: the result is named (the Unicode case tables
/// decide it). Its documentation defines it by Unicode's Lowercase
/// mapping, which takes ASCII letters to their ASCII lower case and leaves
/// the other ASCII characters as they are.
#[verifier::external_body]
fn to_lowercase(s: &str) -> (r: String)
    ensures
        r@ == lowercase(s@),
        is_ascii_text(s@) ==> r@ == s@.map_values(|c: char| ascii_lower(c)),
{
    s.to_lowercase()
}

/// The color that a lowercase color name names.
pub open spec fn color_named(l: Seq<char>) -> Option<Color> {
    if l == "black"@ {
        Some(Color::Black)
    } else if l == "red"@ {
        Some(Color::Red)
    } else if l == "green"@ {
        Some(Color::Green)
    } else if l == "yellow"@ {
        Some(Color::Yellow)
    } else if l == "blue"@ {
        Some(Color::Blue)
    } else if l == "magenta"@ {
        Some(Color::Magenta)
    } else if l == "cyan"@ {
        Some(Color::Cyan)
    } else if l == "gray"@ {
        Some(Color::Gray)
    } else if l == "darkgray"@ {
        Some(Color::DarkGray)
    } else if l == "lightred"@ {
        Some(Color::LightRed)
    } else if l == "lightgreen"@ {
        Some(Color::LightGreen)
    } else if l == "lightyellow"@ {
        Some(Color::LightYellow)
    } else if l == "lightblue"@ {
        Some(Color::LightBlue)
    } else if l == "lightmagenta"@ {
        Some(Color::LightMagenta)
    } else if l == "lightcyan"@ {
        Some(Color::LightCyan)
    } else if l == "white"@ {
        Some(Color::White)
    } else {
        None
    }
}

/// The value of a lowercase hexadecimal digit.
pub open spec fn hex_value(c: char) -> Option<int> {
    if '0' <= c <= '9' {
        Some(c as int - '0' as int)
    } else if 'a' <= c <= 'f' {
        Some(c as int - 'a' as int + 10)
    } else {
        None
    }
}

/// Whether `l` is `#` and six lowercase hexadecimal digits.
pub open spec fn is_hex_color(l: Seq<char>) -> bool {
    &&& l.len() == 7
    &&& l[0] == '#'
    &&& forall|i: int| 1 <= i < 7 ==> #[trigger] hex_value(l[i]) is Some
}

/// The byte that the two hexadecimal digits at `i` write.
pub open spec fn hex_byte(l: Seq<char>, i: int) -> u8 {
    (hex_value(l[i])->0 * 16 + hex_value(l[i + 1])->0) as u8
}

/// What a lowercase color text means: one of the sixteen color names, or
/// `#rrggbb`.
pub open spec fn spec_parse_lowercase_color(l: Seq<char>) -> Result<Color, Seq<char>> {
    match color_named(l) {
        Some(c) => Ok(c),
        None => if is_hex_color(l) {
            Ok(Color::Rgb(hex_byte(l, 1), hex_byte(l, 3), hex_byte(l, 5)))
        } else {
            Err("Invalid color: "@ + l)
        },
    }
}

/// Each of the sixteen color names reads as the color of that name, so
/// that no two names read as the same color.
pub proof fn color_names_read_as_their_colors()
    ensures
        spec_parse_lowercase_color("black"@) == Ok::<Color, Seq<char>>(Color::Black),
        spec_parse_lowercase_color("red"@) == Ok::<Color, Seq<char>>(Color::Red),
        spec_parse_lowercase_color("green"@) == Ok::<Color, Seq<char>>(Color::Green),
        spec_parse_lowercase_color("yellow"@) == Ok::<Color, Seq<char>>(Color::Yellow),
        spec_parse_lowercase_color("blue"@) == Ok::<Color, Seq<char>>(Color::Blue),
        spec_parse_lowercase_color("magenta"@) == Ok::<Color, Seq<char>>(Color::Magenta),
        spec_parse_lowercase_color("cyan"@) == Ok::<Color, Seq<char>>(Color::Cyan),
        spec_parse_lowercase_color("gray"@) == Ok::<Color, Seq<char>>(Color::Gray),
        spec_parse_lowercase_color("darkgray"@) == Ok::<Color, Seq<char>>(Color::DarkGray),
        spec_parse_lowercase_color("lightred"@) == Ok::<Color, Seq<char>>(Color::LightRed),
        spec_parse_lowercase_color("lightgreen"@) == Ok::<Color, Seq<char>>(Color::LightGreen),
        spec_parse_lowercase_color("lightyellow"@) == Ok::<Color, Seq<char>>(Color::LightYellow),
        spec_parse_lowercase_color("lightblue"@) == Ok::<Color, Seq<char>>(Color::LightBlue),
        spec_parse_lowercase_color("lightmagenta"@) == Ok::<Color, Seq<char>>(Color::LightMagenta),
        spec_parse_lowercase_color("lightcyan"@) == Ok::<Color, Seq<char>>(Color::LightCyan),
        spec_parse_lowercase_color("white"@) == Ok::<Color, Seq<char>>(Color::White),
{
    reveal_strlit("black");
    reveal_strlit("red");
    reveal_strlit("green");
    reveal_strlit("yellow");
    reveal_strlit("blue");
    reveal_strlit("magenta");
    reveal_strlit("cyan");
    reveal_strlit("gray");
    reveal_strlit("darkgray");
    reveal_strlit("lightred");
    reveal_strlit("lightgreen");
    reveal_strlit("lightyellow");
    reveal_strlit("lightblue");
    reveal_strlit("lightmagenta");
    reveal_strlit("lightcyan");
    reveal_strlit("white");
    assert("black"@.len() == 5 && "black"@[0] == 'b' && "black"@[4] == 'k');
    assert("red"@.len() == 3 && "red"@[0] == 'r' && "red"@[2] == 'd');
    assert("green"@.len() == 5 && "green"@[0] == 'g' && "green"@[4] == 'n');
    assert("yellow"@.len() == 6 && "yellow"@[0] == 'y' && "yellow"@[5] == 'w');
    assert("blue"@.len() == 4 && "blue"@[0] == 'b' && "blue"@[3] == 'e');
    assert("magenta"@.len() == 7 && "magenta"@[0] == 'm' && "magenta"@[6] == 'a');
    assert("cyan"@.len() == 4 && "cyan"@[0] == 'c' && "cyan"@[3] == 'n');
    assert("gray"@.len() == 4 && "gray"@[0] == 'g' && "gray"@[3] == 'y');
    assert("darkgray"@.len() == 8 && "darkgray"@[0] == 'd' && "darkgray"@[7] == 'y');
    assert("lightred"@.len() == 8 && "lightred"@[0] == 'l' && "lightred"@[7] == 'd');
    assert("lightgreen"@.len() == 10 && "lightgreen"@[0] == 'l' && "lightgreen"@[9] == 'n');
    assert("lightyellow"@.len() == 11 && "lightyellow"@[0] == 'l' && "lightyellow"@[10] == 'w');
    assert("lightblue"@.len() == 9 && "lightblue"@[0] == 'l' && "lightblue"@[8] == 'e');
    assert("lightmagenta"@.len() == 12 && "lightmagenta"@[0] == 'l' && "lightmagenta"@[11] == 'a');
    assert("lightcyan"@.len() == 9 && "lightcyan"@[0] == 'l' && "lightcyan"@[8] == 'n');
    assert("white"@.len() == 5 && "white"@[0] == 'w' && "white"@[4] == 'e');
    assert(color_named("black"@) == Some(Color::Black));
    assert(color_named("red"@) == Some(Color::Red));
    assert(color_named("green"@) == Some(Color::Green));
    assert(color_named("yellow"@) == Some(Color::Yellow));
    assert(color_named("blue"@) == Some(Color::Blue));
    assert(color_named("magenta"@) == Some(Color::Magenta));
    assert(color_named("cyan"@) == Some(Color::Cyan));
    assert(color_named("gray"@) == Some(Color::Gray));
    assert(color_named("darkgray"@) == Some(Color::DarkGray));
    assert(color_named("lightred"@) == Some(Color::LightRed));
    assert(color_named("lightgreen"@) == Some(Color::LightGreen));
    assert(color_named("lightyellow"@) == Some(Color::LightYellow));
    assert(color_named("lightblue"@) == Some(Color::LightBlue));
    assert(color_named("lightmagenta"@) == Some(Color::LightMagenta));
    assert(color_named("lightcyan"@) == Some(Color::LightCyan));
    assert(color_named("white"@) == Some(Color::White));
}

/// Two different texts of which the first is a color name never read as
/// the same color.
pub proof fn distinct_color_names_read_as_distinct_colors(a: Seq<char>, b: Seq<char>)
    requires
        color_named(a) is Some,
        a != b,
    ensures
        spec_parse_lowercase_color(a) != spec_parse_lowercase_color(b),
{
    color_names_read_as_their_colors();
}

/// A color written `#rrggbb` in lowercase hexadecimal reads as the color
/// with those red, green and blue bytes, each two hexadecimal digits, the
/// first the sixteens; the digits are `0` to `9` and `a` to `f`.
pub proof fn hex_colors_read_as_their_bytes(l: Seq<char>)
    requires
        l.len() == 7,
        l[0] == '#',
        forall|i: int| 1 <= i < 7 ==> ('0' <= #[trigger] l[i] <= '9' || 'a' <= l[i] <= 'f'),
    ensures
        ({
            let h = |c: char| if c <= '9' {
                c as int - '0' as int
            } else {
                c as int - 'a' as int + 10
            };
            spec_parse_lowercase_color(l) == Ok::<Color, Seq<char>>(
                Color::Rgb(
                    (h(l[1]) * 16 + h(l[2])) as u8,
                    (h(l[3]) * 16 + h(l[4])) as u8,
                    (h(l[5]) * 16 + h(l[6])) as u8,
                ),
            )
        }),
{
    reveal_strlit("black");
    reveal_strlit("red");
    reveal_strlit("green");
    reveal_strlit("yellow");
    reveal_strlit("blue");
    reveal_strlit("magenta");
    reveal_strlit("cyan");
    reveal_strlit("gray");
    reveal_strlit("darkgray");
    reveal_strlit("lightred");
    reveal_strlit("lightgreen");
    reveal_strlit("lightyellow");
    reveal_strlit("lightblue");
    reveal_strlit("lightmagenta");
    reveal_strlit("lightcyan");
    reveal_strlit("white");
    assert(color_named(l) is None);
    assert(is_hex_color(l));
}

/// What `s` means as a color, in any case.
pub open spec fn spec_parse_color(s: Seq<char>) -> Result<Color, Seq<char>> {
    spec_parse_lowercase_color(lowercase(s))
}

fn hex_digit(c: char) -> (r: Option<u8>)
    ensures
        match hex_value(c) {
            Some(v) => r == Some(v as u8),
            None => r is None,
        },
{
    if '0' <= c && c <= '9' {
        Some((c as u32 - '0' as u32) as u8)
    } else if 'a' <= c && c <= 'f' {
        Some((c as u32 - 'a' as u32 + 10) as u8)
    } else {
        None
    }
}

/// The color named by `lowercase`, which is already in lower case: a color
/// name, or `#rrggbb` in lowercase hexadecimal.
pub fn parse_lowercase_color(lowercase: &str) -> (r: Result<Color, String>)
    ensures
        match r {
            Ok(c) => spec_parse_lowercase_color(lowercase@) == Ok::<Color, Seq<char>>(c),
            Err(m) => spec_parse_lowercase_color(lowercase@) == Err::<Color, Seq<char>>(m@),
        },
{
    let l = lowercase;
    if str_eq(l, "black") {
        return Ok(Color::Black);
    }
    if str_eq(l, "red") {
        return Ok(Color::Red);
    }
    if str_eq(l, "green") {
        return Ok(Color::Green);
    }
    if str_eq(l, "yellow") {
        return Ok(Color::Yellow);
    }
    if str_eq(l, "blue") {
        return Ok(Color::Blue);
    }
    if str_eq(l, "magenta") {
        return Ok(Color::Magenta);
    }
    if str_eq(l, "cyan") {
        return Ok(Color::Cyan);
    }
    if str_eq(l, "gray") {
        return Ok(Color::Gray);
    }
    if str_eq(l, "darkgray") {
        return Ok(Color::DarkGray);
    }
    if str_eq(l, "lightred") {
        return Ok(Color::LightRed);
    }
    if str_eq(l, "lightgreen") {
        return Ok(Color::LightGreen);
    }
    if str_eq(l, "lightyellow") {
        return Ok(Color::LightYellow);
    }
    if str_eq(l, "lightblue") {
        return Ok(Color::LightBlue);
    }
    if str_eq(l, "lightmagenta") {
        return Ok(Color::LightMagenta);
    }
    if str_eq(l, "lightcyan") {
        return Ok(Color::LightCyan);
    }
    if str_eq(l, "white") {
        return Ok(Color::White);
    }
    let cs = chars_of(l);
    if cs.len() == 7 && cs[0] == '#' {
        let mut digits: Vec<u8> = Vec::new();
        let mut i: usize = 1;
        while i < 7
            invariant
                cs@ == l@,
                l == lowercase,
                color_named(l@) is None,
                cs@.len() == 7,
                1 <= i <= 7,
                digits@.len() == i - 1,
                forall|j: int| 1 <= j < i ==> #[trigger] hex_value(cs@[j]) is Some,
                forall|j: int| 1 <= j < i ==> digits@[j - 1] == hex_value(#[trigger] cs@[j])->0,
            decreases 7 - i,
        {
            match hex_digit(cs[i]) {
                Some(d) => digits.push(d),
                None => {
                    assert(hex_value(cs@[i as int]) is None);
                    let mut m = String::from_str("Invalid color: ");
                    m.append(l);
                    return Err(m);
                },
            }
            i += 1;
        }
        let r = digits[0] * 16 + digits[1];
        let g = digits[2] * 16 + digits[3];
        let b = digits[4] * 16 + digits[5];
        assert(is_hex_color(l@));
        return Ok(Color::Rgb(r, g, b));
    }
    let mut m = String::from_str("Invalid color: ");
    m.append(l);
    Err(m)
}

/// Reads a color: one of the sixteen color names in any case (`LightCyan`),
/// or `#rrggbb` in hexadecimal.
pub fn parse_color(s: &str) -> (r: Result<Color, String>)
    ensures
        match r {
            Ok(c) => spec_parse_color(s@) == Ok::<Color, Seq<char>>(c),
            Err(m) => spec_parse_color(s@) == Err::<Color, Seq<char>>(m@),
        },
        is_ascii_text(s@) ==> match r {
            Ok(c) => spec_parse_lowercase_color(s@.map_values(|c: char| ascii_lower(c))) == Ok::<
                Color,
                Seq<char>,
            >(c),
            Err(m) => spec_parse_lowercase_color(s@.map_values(|c: char| ascii_lower(c))) == Err::<
                Color,
                Seq<char>,
            >(m@),
        },
{
    let l = to_lowercase(s);
    parse_lowercase_color(l.as_str())
}

// ---------------------------------------------------------------------------
// Time zones
/// Whether `name` is the name of a time zone in chrono-tz's database.
pub uninterp spec fn is_timezone_name(name: Seq<char>) -> bool;

/// chrono-tz's `Tz::from_str`: the database is named, not stated; the
/// source shows that a zone is found by its exact name, which is then its
/// `name()`, and that the error reads "failed to parse timezone".
#[verifier::external_body]
fn timezone_by_name(s: &str) -> (r: Result<String, String>)
    ensures
        r is Ok <==> is_timezone_name(s@),
        r matches Ok(name) ==> name@ == s@,
        r matches Err(m) ==> m@ == "failed to parse timezone"@,
{
    match s.parse::<chrono_tz::Tz>() {
        Ok(tz) => Ok(tz.name().to_string()),
        Err(e) => Err(e.to_string()),
    }
}

/// Reads a time zone name such as `America/New_York`; the zone is kept by
/// its name.
pub fn parse_timezone(s: &str) -> (r: Result<String, String>)
    ensures
        r is Ok <==> is_timezone_name(s@),
        r matches Ok(name) ==> name@ == s@,
        r matches Err(m) ==> m@ == "failed to parse timezone"@,
{
    timezone_by_name(s)
}

// ---------------------------------------------------------------------------
// Timer durations
/// Minutes of work in the default timer.
pub const DEFAULT_TIMER_WORK_MINUTES: i64 = 25;

/// Minutes of break in the default timer.
pub const DEFAULT_TIMER_BREAK_MINUTES: i64 = 5;

/// The timer's durations when none is configured: 25 minutes, then 5.
pub open spec fn default_timer_nanos() -> Seq<i128> {
    seq![1_500_000_000_000i128, 300_000_000_000i128]
}

/// The timer's durations when none is configured: 25 minutes of work, then
/// a 5 minute break.
pub fn default_timer_config_durations() -> (v: Vec<i128>)
    ensures
        v@ == default_timer_nanos(),
{
    let mut v = Vec::new();
    if let Some(ms) = delta_millis_of_minutes(DEFAULT_TIMER_WORK_MINUTES) {
        v.push(ms as i128 * NANOS_PER_MILLI);
    }
    if let Some(ms) = delta_millis_of_minutes(DEFAULT_TIMER_BREAK_MINUTES) {
        v.push(ms as i128 * NANOS_PER_MILLI);
    }
    assert(v@ =~= default_timer_nanos());
    v
}

/// The durations that the texts `texts` write, skipping those that are no
/// durations, in order.
pub open spec fn parsed_durations(texts: Seq<Seq<char>>) -> Seq<int>
    decreases texts.len(),
{
    if texts.len() == 0 {
        Seq::empty()
    } else {
        let rest = parsed_durations(texts.drop_last());
        match spec_parse_duration(texts.last()) {
            Ok(n) => rest.push(n),
            Err(_) => rest,
        }
    }
}

/// The timer's configured durations, skipping those that are no durations;
/// when none is left, the default 25 and 5 minutes.
pub fn configured_timer_durations(config: &TimerConfig) -> (v: Vec<i128>)
    ensures
        parsed_durations(config.durations.deep_view()).len() > 0 ==> v@.map_values(|n: i128| n as int)
            == parsed_durations(config.durations.deep_view()),
        parsed_durations(config.durations.deep_view()).len() == 0 ==> v@ == default_timer_nanos(),
{
    let ghost texts = config.durations.deep_view();
    let mut v: Vec<i128> = Vec::new();
    let mut i: usize = 0;
    while i < config.durations.len()
        invariant
            texts == config.durations.deep_view(),
            i <= texts.len(),
            v@.map_values(|n: i128| n as int) == parsed_durations(texts.take(i as int)),
        decreases texts.len() - i,
    {
        assert(texts.take(i + 1).drop_last() == texts.take(i as int));
        assert(texts.take(i + 1).last() == config.durations@[i as int]@);
        let ghost prev = v@;
        match parse_duration(config.durations[i].as_str()) {
            Ok(n) => {
                v.push(n);
                assert(v@.map_values(|n: i128| n as int) =~= prev.map_values(|n: i128| n as int).push(
                    n as int,
                ));
            },
            Err(_) => {},
        }
        i += 1;
    }
    assert(texts.take(i as int) == texts);
    if v.len() == 0 {
        default_timer_config_durations()
    } else {
        v
    }
}

/// A clock size that reads is at least 1.
pub proof fn parsed_size_is_positive(s: Seq<char>)
    ensures
        spec_parse_size(s) matches Ok(n) ==> n >= 1,
{
}

} // verus!
