//! Character-level helpers: building strings, Unicode white space, trimming,
//! splitting and decimal numbers.
use vstd::prelude::*;

verus! {

/// Appends one character to a `String`.
#[verifier::external_body]
pub(crate) fn push_char(s: &mut String, c: char)
    ensures
        final(s)@ == old(s)@.push(c),
{
    s.push(c)
}

/// The characters of a string slice, in order.
pub fn chars_of(s: &str) -> (v: Vec<char>)
    ensures
        v@ == s@,
{
    broadcast use vstd::string::group_string_axioms;

    let mut v: Vec<char> = Vec::new();
    for c in it: s.chars()
        invariant
            v@ == it.seq().take(it.index() as int),
    {
        v.push(c);
    }
    v
}

/// The string made of the characters `cs[start..end]`.
pub fn string_of(cs: &Vec<char>, start: usize, end: usize) -> (s: String)
    requires
        start <= end <= cs.len(),
    ensures
        s@ == cs@.subrange(start as int, end as int),
{
    let mut s = String::new();
    let mut i = start;
    while i < end
        invariant
            start <= i <= end <= cs.len(),
            s@ == cs@.subrange(start as int, i as int),
        decreases end - i,
    {
        push_char(&mut s, cs[i]);
        assert(cs@.subrange(start as int, i + 1) == cs@.subrange(start as int, i as int).push(
            cs@[i as int],
        ));
        i += 1;
    }
    s
}

/// Unicode white space (the `White_Space` property), which is what Rust's
/// `char::is_whitespace` and `str::trim` go by.
pub open spec fn is_white(c: char) -> bool {
    ||| '\t' <= c <= '\r'
    ||| c == ' '
    ||| c == '\u{85}'
    ||| c == '\u{a0}'
    ||| c == '\u{1680}'
    ||| '\u{2000}' <= c <= '\u{200a}'
    ||| c == '\u{2028}'
    ||| c == '\u{2029}'
    ||| c == '\u{202f}'
    ||| c == '\u{205f}'
    ||| c == '\u{3000}'
}

/// Whether `c` is Unicode white space.
pub fn is_whitespace(c: char) -> (b: bool)
    ensures
        b == is_white(c),
{
    ('\t' <= c && c <= '\r') || c == ' ' || c == '\u{85}' || c == '\u{a0}' || c == '\u{1680}' || (
    '\u{2000}' <= c && c <= '\u{200a}') || c == '\u{2028}' || c == '\u{2029}' || c == '\u{202f}'
        || c == '\u{205f}' || c == '\u{3000}'
}

/// `s` without its trailing white space.
pub open spec fn trimmed_end(s: Seq<char>) -> Seq<char>
    decreases s.len(),
{
    if s.len() > 0 && is_white(s.last()) {
        trimmed_end(s.drop_last())
    } else {
        s
    }
}

/// `s` without its leading white space.
pub open spec fn trimmed_start(s: Seq<char>) -> Seq<char>
    decreases s.len(),
{
    if s.len() > 0 && is_white(s[0]) {
        trimmed_start(s.drop_first())
    } else {
        s
    }
}

/// `s` without leading and trailing white space.
pub open spec fn trimmed(s: Seq<char>) -> Seq<char> {
    trimmed_start(trimmed_end(s))
}

/// Where the trailing white space of `cs[..end]` begins.
fn trim_end_index(cs: &Vec<char>, end: usize) -> (e: usize)
    requires
        end <= cs.len(),
    ensures
        e <= end,
        trimmed_end(cs@.subrange(0, end as int)) == cs@.subrange(0, e as int),
{
    let mut e = end;
    while e > 0 && is_whitespace(cs[e - 1])
        invariant
            e <= end <= cs.len(),
            trimmed_end(cs@.subrange(0, end as int)) == trimmed_end(cs@.subrange(0, e as int)),
        decreases e,
    {
        assert(cs@.subrange(0, e as int).drop_last() == cs@.subrange(0, e - 1));
        e -= 1;
    }
    e
}

/// Where the leading white space of `cs[start..end]` ends.
fn trim_start_index(cs: &Vec<char>, start: usize, end: usize) -> (b: usize)
    requires
        start <= end <= cs.len(),
    ensures
        start <= b <= end,
        trimmed_start(cs@.subrange(start as int, end as int)) == cs@.subrange(b as int, end as int),
{
    let mut b = start;
    while b < end && is_whitespace(cs[b])
        invariant
            start <= b <= end <= cs.len(),
            trimmed_start(cs@.subrange(start as int, end as int)) == trimmed_start(
                cs@.subrange(b as int, end as int),
            ),
        decreases end - b,
    {
        assert(cs@.subrange(b as int, end as int).drop_first() == cs@.subrange(b + 1, end as int));
        b += 1;
    }
    b
}

/// `s` without leading and trailing white space, as `str::trim` gives it.
pub fn trim(s: &str) -> (r: String)
    ensures
        r@ == trimmed(s@),
{
    let cs = chars_of(s);
    let e = trim_end_index(&cs, cs.len());
    assert(cs@.subrange(0, cs.len() as int) == cs@);
    let b = trim_start_index(&cs, 0, e);
    string_of(&cs, b, e)
}

/// `s` without trailing white space, as `str::trim_end` gives it.
pub fn trim_end(s: &str) -> (r: String)
    ensures
        r@ == trimmed_end(s@),
{
    let cs = chars_of(s);
    let e = trim_end_index(&cs, cs.len());
    assert(cs@.subrange(0, cs.len() as int) == cs@);
    string_of(&cs, 0, e)
}

/// The ASCII decimal digits.
pub open spec fn is_digit(c: char) -> bool {
    '0' <= c <= '9'
}

/// The value of a decimal digit.
pub open spec fn digit_value(c: char) -> nat {
    (c as int - '0' as int) as nat
}

/// Whether every character of `d` is a decimal digit.
pub open spec fn all_digits(d: Seq<char>) -> bool {
    forall|i: int| 0 <= i < d.len() ==> #[trigger] is_digit(d[i])
}

/// The number that the decimal digits `d` write.
pub open spec fn digits_value(d: Seq<char>) -> nat
    decreases d.len(),
{
    if d.len() == 0 {
        0
    } else {
        digits_value(d.drop_last()) * 10 + digit_value(d.last())
    }
}

/// The number that `cs[start..end]` writes in decimal, if it is a non-empty
/// run of digits whose value is at most `limit`.
pub fn parse_digits(cs: &Vec<char>, start: usize, end: usize, limit: u64) -> (r: Option<u64>)
    requires
        start <= end <= cs.len(),
    ensures
        ({
            let d = cs@.subrange(start as int, end as int);
            r == if d.len() > 0 && all_digits(d) && digits_value(d) <= limit {
                Some(digits_value(d) as u64)
            } else {
                None::<u64>
            }
        }),
{
    let ghost d = cs@.subrange(start as int, end as int);
    if start == end {
        return None;
    }
    let mut value: u64 = 0;
    let mut over = false;
    let mut i = start;
    while i < end
        invariant
            start <= i <= end <= cs.len(),
            d == cs@.subrange(start as int, end as int),
            all_digits(cs@.subrange(start as int, i as int)),
            over ==> digits_value(cs@.subrange(start as int, i as int)) > limit,
            !over ==> value == digits_value(cs@.subrange(start as int, i as int)) && value <= limit,
        decreases end - i,
    {
        let c = cs[i];
        if c < '0' || c > '9' {
            assert(d[i - start] == c);
            assert(!is_digit(d[i - start]));
            return None;
        }
        let ghost p = cs@.subrange(start as int, i as int);
        let ghost q = cs@.subrange(start as int, i + 1);
        assert(q.drop_last() == p);
        assert(q.last() == c);
        assert(digits_value(q) == digits_value(p) * 10 + digit_value(c));
        let dv = (c as u32 - '0' as u32) as u64;
        assert(dv == digit_value(c));
        if !over {
            let next = value as u128 * 10 + dv as u128;
            if next > limit as u128 {
                over = true;
            } else {
                value = next as u64;
            }
        }
        assert forall|k: int| 0 <= k < q.len() implies #[trigger] is_digit(q[k]) by {
            if k < p.len() {
                assert(q[k] == p[k]);
            }
        }
        i += 1;
    }
    assert(d == cs@.subrange(start as int, i as int));
    if over {
        None
    } else {
        Some(value)
    }
}

/// How Rust's `str::parse::<u16>` reads a string: an optional `+`, then one
/// or more decimal digits whose value fits in a `u16`.
pub open spec fn spec_parse_u16(s: Seq<char>) -> Option<u16> {
    let d = if s.len() > 0 && s[0] == '+' {
        s.drop_first()
    } else {
        s
    };
    if d.len() > 0 && all_digits(d) && digits_value(d) <= u16::MAX {
        Some(digits_value(d) as u16)
    } else {
        None
    }
}

/// Reads `cs[start..end]` as `str::parse::<u16>` does.
pub fn parse_u16_chars(cs: &Vec<char>, start: usize, end: usize) -> (r: Option<u16>)
    requires
        start <= end <= cs.len(),
    ensures
        r == spec_parse_u16(cs@.subrange(start as int, end as int)),
{
    let ghost s = cs@.subrange(start as int, end as int);
    let mut b = start;
    if start < end && cs[start] == '+' {
        assert(s.drop_first() == cs@.subrange(start + 1, end as int));
        b = start + 1;
    }
    match parse_digits(cs, b, end, u16::MAX as u64) {
        Some(v) => Some(v as u16),
        None => None,
    }
}

/// Reads `s` as `str::parse::<u16>` does.
pub fn parse_u16(s: &str) -> (r: Option<u16>)
    ensures
        r == spec_parse_u16(s@),
{
    let cs = chars_of(s);
    assert(cs@.subrange(0, cs.len() as int) == cs@);
    parse_u16_chars(&cs, 0, cs.len())
}

/// The pieces of `s` between the separators `sep`, as `str::split` gives
/// them: one more piece than there are separators.
pub open spec fn split_pieces(s: Seq<char>, sep: char) -> Seq<Seq<char>>
    decreases s.len(),
{
    if s.len() == 0 {
        seq![Seq::empty()]
    } else {
        let rest = split_pieces(s.drop_last(), sep);
        if s.last() == sep {
            rest.push(Seq::empty())
        } else {
            rest.update(rest.len() - 1, rest.last().push(s.last()))
        }
    }
}

/// There is always at least one piece.
pub proof fn lemma_split_pieces_nonempty(s: Seq<char>, sep: char)
    ensures
        split_pieces(s, sep).len() >= 1,
    decreases s.len(),
{
    if s.len() > 0 {
        lemma_split_pieces_nonempty(s.drop_last(), sep);
    }
}

/// The character of a decimal digit.
pub open spec fn digit_char(n: nat) -> char {
    ('0' as int + n) as char
}

/// The decimal numeral of `n`, without leading zeros.
pub open spec fn decimal(n: nat) -> Seq<char>
    decreases n,
{
    if n < 10 {
        seq![digit_char(n)]
    } else {
        decimal(n / 10).push(digit_char(n % 10))
    }
}

/// The decimal numeral of `n` is a non-empty run of digits that reads back
/// as `n`.
pub proof fn lemma_decimal_reads_back(n: nat)
    ensures
        decimal(n).len() > 0,
        all_digits(decimal(n)),
        digits_value(decimal(n)) == n,
    decreases n,
{
    let d = decimal(n);
    if n < 10 {
        assert(d.drop_last() =~= Seq::<char>::empty());
        assert(is_digit(d[0]));
        assert(digit_value(d.last()) == n);
        assert(digits_value(d.drop_last()) == 0);
    } else {
        lemma_decimal_reads_back(n / 10);
        assert(d.drop_last() =~= decimal(n / 10));
        assert(digit_value(d.last()) == n % 10);
        assert((n / 10) * 10 + n % 10 == n) by (nonlinear_arith);
        assert(digits_value(d.drop_last()) == n / 10);
        assert forall|i: int| 0 <= i < d.len() implies #[trigger] is_digit(d[i]) by {
            if i < d.len() - 1 {
                assert(d[i] == decimal(n / 10)[i]);
            }
        }
    }
}

/// Text without the separator is a single piece.
pub proof fn lemma_split_without_separator(s: Seq<char>, sep: char)
    requires
        forall|i: int| 0 <= i < s.len() ==> s[i] != sep,
    ensures
        split_pieces(s, sep) == seq![s],
    decreases s.len(),
{
    if s.len() == 0 {
        assert(s =~= Seq::<char>::empty());
    } else {
        lemma_split_without_separator(s.drop_last(), sep);
        assert(s.drop_last().push(s.last()) =~= s);
        assert(split_pieces(s, sep) =~= seq![s]);
    }
}

/// The decimal numeral of `n`, padded with zeros to at least two digits.
pub open spec fn decimal2(n: nat) -> Seq<char> {
    if n < 10 {
        seq!['0', digit_char(n)]
    } else {
        decimal(n)
    }
}

/// The character of the digit `d`.
fn digit(d: u64) -> (c: char)
    requires
        d < 10,
    ensures
        c == digit_char(d as nat),
{
    if d == 0 {
        '0'
    } else if d == 1 {
        '1'
    } else if d == 2 {
        '2'
    } else if d == 3 {
        '3'
    } else if d == 4 {
        '4'
    } else if d == 5 {
        '5'
    } else if d == 6 {
        '6'
    } else if d == 7 {
        '7'
    } else if d == 8 {
        '8'
    } else {
        '9'
    }
}

/// Appends the decimal numeral of `n`.
pub fn push_decimal(s: &mut String, n: u64)
    ensures
        final(s)@ == old(s)@ + decimal(n as nat),
    decreases n,
{
    if n >= 10 {
        push_decimal(s, n / 10);
    }
    push_char(s, digit(n % 10));
    assert(decimal(n as nat) == if n < 10 {
        seq![digit_char(n as nat)]
    } else {
        decimal((n / 10) as nat).push(digit_char((n % 10) as nat))
    });
}

/// Appends the decimal numeral of `n`, padded with zeros to two digits.
pub fn push_decimal2(s: &mut String, n: u64)
    ensures
        final(s)@ == old(s)@ + decimal2(n as nat),
{
    if n < 10 {
        push_char(s, '0');
    }
    push_decimal(s, n);
    assert(n < 10 ==> decimal(n as nat) == seq![digit_char(n as nat)]);
}

} // verus!
