//! Reading command output that carries ANSI escape sequences into styled
//! lines: SGR sequences (`ESC [ ... m`) change the style, other CSI
//! sequences and OSC sequences (`ESC ] ... BEL` or `ESC ] ... ESC \`) are
//! dropped, carriage returns are dropped and newlines end lines.
use vstd::prelude::*;

use crate::style::{
    adding, ansi_color, remove_sgr_modifier, removing, spec_ansi_color, with_bg, with_fg, Color,
    Style, BOLD, CROSSED_OUT, DIM, ITALIC, REVERSED, UNDERLINED,
};
use crate::text::{
    all_digits, chars_of, decimal, digits_value, lemma_decimal_reads_back,
    lemma_split_pieces_nonempty, lemma_split_without_separator, parse_u16_chars, push_char,
    spec_parse_u16, split_pieces,
};

verus! {

/// A run of text drawn in one style.
#[derive(Debug)]
pub struct StyledSpan {
    pub content: String,
    pub style: Style,
}

/// One line of styled text.
#[derive(Debug)]
pub struct StyledLine {
    pub spans: Vec<StyledSpan>,
}

/// A span as a value: its characters and its style.
pub type SpanView = (Seq<char>, Style);

impl View for StyledSpan {
    type V = SpanView;

    open spec fn view(&self) -> SpanView {
        (self.content@, self.style)
    }
}

impl View for StyledLine {
    type V = Seq<SpanView>;

    open spec fn view(&self) -> Seq<SpanView> {
        self.spans@.map_values(|sp: StyledSpan| sp@)
    }
}

/// Lines as values.
pub open spec fn lines_view(lines: Seq<StyledLine>) -> Seq<Seq<SpanView>> {
    lines.map_values(|l: StyledLine| l@)
}

// ---------------------------------------------------------------------------
// SGR parameters
/// One SGR parameter: its number, or 0 where it is not a number that fits
/// in a `u16`.
pub open spec fn sgr_value(piece: Seq<char>) -> u16 {
    match spec_parse_u16(piece) {
        Some(v) => v,
        None => 0,
    }
}

/// The parameters of an SGR sequence: the `;`-separated numbers, and a
/// single 0 for an empty sequence.
pub open spec fn sgr_values(sequence: Seq<char>) -> Seq<u16> {
    if sequence.len() == 0 {
        seq![0u16]
    } else {
        split_pieces(sequence, ';').map_values(|p: Seq<char>| sgr_value(p))
    }
}

/// The parameters of an SGR sequence.
pub fn parse_sgr_values(sequence: &str) -> (values: Vec<u16>)
    ensures
        values@ == sgr_values(sequence@),
{
    let cs = chars_of(sequence);
    let n = cs.len();
    if n == 0 {
        let mut v = Vec::new();
        v.push(0u16);
        assert(v@ == seq![0u16]);
        return v;
    }
    let mut values: Vec<u16> = Vec::new();
    let mut start: usize = 0;
    let mut i: usize = 0;
    proof {
        lemma_split_pieces_nonempty(cs@.take(0), ';');
        assert(cs@.take(0) =~= Seq::<char>::empty());
    }
    while i < n
        invariant
            n == cs.len(),
            cs@ == sequence@,
            start <= i <= n,
            ({
                let pieces = split_pieces(cs@.take(i as int), ';');
                &&& pieces.len() >= 1
                &&& values@ == pieces.drop_last().map_values(|p: Seq<char>| sgr_value(p))
                &&& pieces.last() == cs@.subrange(start as int, i as int)
            }),
        decreases n - i,
    {
        let ghost before = split_pieces(cs@.take(i as int), ';');
        assert(cs@.take(i + 1).drop_last() == cs@.take(i as int));
        assert(cs@.take(i + 1).last() == cs@[i as int]);
        if cs[i] == ';' {
            let v = match parse_u16_chars(&cs, start, i) {
                Some(v) => v,
                None => 0,
            };
            values.push(v);
            let ghost after = split_pieces(cs@.take(i + 1), ';');
            assert(after == before.push(Seq::empty()));
            assert(after.drop_last() == before);
            assert(before == before.drop_last().push(before.last()));
            assert(values@ == after.drop_last().map_values(|p: Seq<char>| sgr_value(p)));
            start = i + 1;
        } else {
            let ghost after = split_pieces(cs@.take(i + 1), ';');
            assert(after.drop_last() == before.drop_last());
            assert(cs@.subrange(start as int, i + 1) == cs@.subrange(start as int, i as int).push(
                cs@[i as int],
            ));
        }
        i += 1;
    }
    let v = match parse_u16_chars(&cs, start, n) {
        Some(v) => v,
        None => 0,
    };
    values.push(v);
    proof {
        let pieces = split_pieces(cs@.take(n as int), ';');
        assert(cs@.take(n as int) == cs@);
        assert(pieces == pieces.drop_last().push(pieces.last()));
        assert(values@ == pieces.map_values(|p: Seq<char>| sgr_value(p)));
    }
    values
}

// ---------------------------------------------------------------------------
// Applying SGR parameters
/// Whether `i` indexes `v` and holds a value that fits in a byte.
pub open spec fn byte_at(v: Seq<u16>, i: int) -> bool {
    0 <= i < v.len() && v[i] <= 255
}

/// The effect of the SGR parameter at `idx`: the new style and the index of
/// the next parameter to read.
pub open spec fn sgr_step(style: Style, base: Style, v: Seq<u16>, idx: int) -> (Style, int) {
    let x = v[idx];
    if x == 0 {
        (base, idx + 1)
    } else if x == 1 {
        (adding(style, BOLD), idx + 1)
    } else if x == 2 {
        (adding(style, DIM), idx + 1)
    } else if x == 3 {
        (adding(style, ITALIC), idx + 1)
    } else if x == 4 {
        (adding(style, UNDERLINED), idx + 1)
    } else if x == 7 {
        (adding(style, REVERSED), idx + 1)
    } else if x == 9 {
        (adding(style, CROSSED_OUT), idx + 1)
    } else if x == 21 || x == 24 {
        (removing(style, UNDERLINED), idx + 1)
    } else if x == 22 {
        (removing(style, BOLD | DIM), idx + 1)
    } else if x == 23 {
        (removing(style, ITALIC), idx + 1)
    } else if x == 27 {
        (removing(style, REVERSED), idx + 1)
    } else if x == 29 {
        (removing(style, CROSSED_OUT), idx + 1)
    } else if 30 <= x <= 37 {
        (with_fg(style, spec_ansi_color(x, false)), idx + 1)
    } else if x == 39 {
        (Style { fg: base.fg, ..style }, idx + 1)
    } else if 40 <= x <= 47 {
        (with_bg(style, spec_ansi_color((x - 10) as u16, false)), idx + 1)
    } else if x == 49 {
        (Style { bg: base.bg, ..style }, idx + 1)
    } else if 90 <= x <= 97 {
        (with_fg(style, spec_ansi_color((x - 60) as u16, true)), idx + 1)
    } else if 100 <= x <= 107 {
        (with_bg(style, spec_ansi_color((x - 70) as u16, true)), idx + 1)
    } else if (x == 38 || x == 48) && idx + 1 < v.len() && v[idx + 1] == 5 {
        if byte_at(v, idx + 2) {
            let c = Color::Indexed(v[idx + 2] as u8);
            (if x == 38 {
                with_fg(style, c)
            } else {
                with_bg(style, c)
            }, idx + 3)
        } else {
            (style, idx + 1)
        }
    } else if (x == 38 || x == 48) && idx + 1 < v.len() && v[idx + 1] == 2 {
        if byte_at(v, idx + 2) && byte_at(v, idx + 3) && byte_at(v, idx + 4) {
            let c = Color::Rgb(v[idx + 2] as u8, v[idx + 3] as u8, v[idx + 4] as u8);
            (if x == 38 {
                with_fg(style, c)
            } else {
                with_bg(style, c)
            }, idx + 5)
        } else {
            (style, idx + 1)
        }
    } else {
        (style, idx + 1)
    }
}

/// The style after the SGR parameters `v[idx..]` are applied to `style`.
pub open spec fn apply_sgr_values(style: Style, base: Style, v: Seq<u16>, idx: int) -> Style
    decreases v.len() - idx,
{
    if idx < 0 || idx >= v.len() {
        style
    } else {
        let (next_style, next) = sgr_step(style, base, v, idx);
        if next <= idx {
            style
        } else {
            apply_sgr_values(next_style, base, v, next)
        }
    }
}

/// The style after the SGR sequence `sequence` (the text between `ESC [` and
/// `m`) is applied to `style`; parameter 0 goes back to `base`.
pub open spec fn sgr_applied(style: Style, base: Style, sequence: Seq<char>) -> Style {
    apply_sgr_values(style, base, sgr_values(sequence), 0)
}

fn sgr_step_exec(style: Style, base: Style, v: &Vec<u16>, idx: usize) -> (r: (Style, usize))
    requires
        idx < v.len(),
    ensures
        (r.0, r.1 as int) == sgr_step(style, base, v@, idx as int),
        idx < r.1 <= v.len(),
{
    let x = v[idx];
    let n = v.len();
    if x == 0 {
        (base, idx + 1)
    } else if x == 1 {
        (style.add_modifier(BOLD), idx + 1)
    } else if x == 2 {
        (style.add_modifier(DIM), idx + 1)
    } else if x == 3 {
        (style.add_modifier(ITALIC), idx + 1)
    } else if x == 4 {
        (style.add_modifier(UNDERLINED), idx + 1)
    } else if x == 7 {
        (style.add_modifier(REVERSED), idx + 1)
    } else if x == 9 {
        (style.add_modifier(CROSSED_OUT), idx + 1)
    } else if x == 21 || x == 24 {
        (remove_sgr_modifier(style, UNDERLINED), idx + 1)
    } else if x == 22 {
        (remove_sgr_modifier(style, BOLD | DIM), idx + 1)
    } else if x == 23 {
        (remove_sgr_modifier(style, ITALIC), idx + 1)
    } else if x == 27 {
        (remove_sgr_modifier(style, REVERSED), idx + 1)
    } else if x == 29 {
        (remove_sgr_modifier(style, CROSSED_OUT), idx + 1)
    } else if 30 <= x && x <= 37 {
        (style.fg(ansi_color(x, false)), idx + 1)
    } else if x == 39 {
        (Style { fg: base.fg, ..style }, idx + 1)
    } else if 40 <= x && x <= 47 {
        (style.bg(ansi_color(x - 10, false)), idx + 1)
    } else if x == 49 {
        (Style { bg: base.bg, ..style }, idx + 1)
    } else if 90 <= x && x <= 97 {
        (style.fg(ansi_color(x - 60, true)), idx + 1)
    } else if 100 <= x && x <= 107 {
        (style.bg(ansi_color(x - 70, true)), idx + 1)
    } else if (x == 38 || x == 48) && idx + 1 < n && v[idx + 1] == 5 {
        if idx + 2 < n && v[idx + 2] <= 255 {
            let c = Color::Indexed(v[idx + 2] as u8);
            (if x == 38 {
                style.fg(c)
            } else {
                style.bg(c)
            }, idx + 3)
        } else {
            (style, idx + 1)
        }
    } else if (x == 38 || x == 48) && idx + 1 < n && v[idx + 1] == 2 {
        if n - idx > 4 && v[idx + 2] <= 255 && v[idx + 3] <= 255 && v[idx + 4] <= 255 {
            let c = Color::Rgb(v[idx + 2] as u8, v[idx + 3] as u8, v[idx + 4] as u8);
            (if x == 38 {
                style.fg(c)
            } else {
                style.bg(c)
            }, idx + 5)
        } else {
            (style, idx + 1)
        }
    } else {
        (style, idx + 1)
    }
}

/// Applies the SGR sequence `sequence` (the text between `ESC [` and `m`) to
/// `style`.
pub fn apply_sgr_sequence(style: Style, base_style: Style, sequence: &str) -> (r: Style)
    ensures
        r == sgr_applied(style, base_style, sequence@),
{
    let values = parse_sgr_values(sequence);
    let mut cur = style;
    let mut idx: usize = 0;
    while idx < values.len()
        invariant
            idx <= values.len(),
            values@ == sgr_values(sequence@),
            apply_sgr_values(cur, base_style, values@, idx as int) == sgr_applied(
                style,
                base_style,
                sequence@,
            ),
        decreases values.len() - idx,
    {
        let (s, next) = sgr_step_exec(cur, base_style, &values, idx);
        cur = s;
        idx = next;
    }
    cur
}

// ---------------------------------------------------------------------------
// Scanning escape sequences
/// What the scanner has built so far: the finished lines, the spans of the
/// current line, the text not yet put in a span, and the current style.
#[verifier::ext_equal]
pub struct ScanState {
    pub lines: Seq<Seq<SpanView>>,
    pub spans: Seq<SpanView>,
    pub text: Seq<char>,
    pub style: Style,
}

/// The state after the pending text, if any, is closed into a span.
pub open spec fn flushed(st: ScanState) -> ScanState {
    if st.text.len() > 0 {
        ScanState { spans: st.spans.push((st.text, st.style)), text: Seq::empty(), ..st }
    } else {
        st
    }
}

/// The bytes that end a CSI sequence.
pub open spec fn is_final_byte(c: char) -> bool {
    '@' <= c <= '~'
}

/// The index of the byte that ends the CSI sequence whose parameters start at
/// `j`, or the length of `s` when none does.
pub open spec fn csi_end(s: Seq<char>, j: int) -> int
    decreases s.len() - j,
{
    if j >= s.len() {
        s.len() as int
    } else if is_final_byte(s[j]) {
        j
    } else {
        csi_end(s, j + 1)
    }
}

/// The index just after the end of the OSC sequence whose body starts at
/// `j`: after a BEL, or after `ESC \`, or the length of `s`.
pub open spec fn osc_end(s: Seq<char>, j: int) -> int
    decreases s.len() - j,
{
    if j >= s.len() {
        s.len() as int
    } else if s[j] == '\x07' {
        j + 1
    } else if s[j] == '\x1b' && j + 1 < s.len() && s[j + 1] == '\\' {
        j + 2
    } else {
        osc_end(s, j + 1)
    }
}

pub proof fn lemma_csi_end_bounds(s: Seq<char>, j: int)
    requires
        0 <= j <= s.len(),
    ensures
        j <= csi_end(s, j) <= s.len(),
    decreases s.len() - j,
{
    if j < s.len() && !is_final_byte(s[j]) {
        lemma_csi_end_bounds(s, j + 1);
    }
}

pub proof fn lemma_osc_end_bounds(s: Seq<char>, j: int)
    requires
        0 <= j <= s.len(),
    ensures
        j <= osc_end(s, j) <= s.len(),
    decreases s.len() - j,
{
    if j < s.len() && s[j] != '\x07' && !(s[j] == '\x1b' && j + 1 < s.len() && s[j + 1] == '\\') {
        lemma_osc_end_bounds(s, j + 1);
    }
}

/// The scanner run over `s` from index `i` on, starting in state `st`.
pub open spec fn scan(s: Seq<char>, i: int, st: ScanState, base: Style) -> ScanState
    decreases s.len() - i,
{
    if i < 0 || i >= s.len() {
        st
    } else {
        let c = s[i];
        if c == '\n' {
            let f = flushed(st);
            scan(s, i + 1, ScanState { lines: f.lines.push(f.spans), spans: Seq::empty(), ..f }, base)
        } else if c == '\x1b' && i + 1 < s.len() && s[i + 1] == '[' {
            proof {
                lemma_csi_end_bounds(s, i + 2);
            }
            let k = csi_end(s, i + 2);
            if k < s.len() && s[k] == 'm' {
                let f = flushed(st);
                scan(
                    s,
                    k + 1,
                    ScanState { style: sgr_applied(f.style, base, s.subrange(i + 2, k)), ..f },
                    base,
                )
            } else if k < s.len() {
                scan(s, k + 1, st, base)
            } else {
                st
            }
        } else if c == '\x1b' && i + 1 < s.len() && s[i + 1] == ']' {
            proof {
                lemma_osc_end_bounds(s, i + 2);
            }
            scan(s, osc_end(s, i + 2), st, base)
        } else if c == '\x1b' || c == '\r' {
            scan(s, i + 1, st, base)
        } else {
            scan(s, i + 1, ScanState { text: st.text.push(c), ..st }, base)
        }
    }
}

/// The styled lines of `output`, read from the style `base`: one line per
/// newline plus one, each span a maximal run of text in one style.
pub open spec fn spec_ansi_lines(output: Seq<char>, base: Style) -> Seq<Seq<SpanView>> {
    let f = flushed(
        scan(
            output,
            0,
            ScanState { lines: Seq::empty(), spans: Seq::empty(), text: Seq::empty(), style: base },
            base,
        ),
    );
    f.lines.push(f.spans)
}

/// The spans of a line of plain text in the style `base`: one span of the
/// whole line, or none for an empty line.
pub open spec fn plain_line(p: Seq<char>, base: Style) -> Seq<SpanView> {
    if p.len() > 0 {
        seq![(p, base)]
    } else {
        Seq::empty()
    }
}

/// Whether `s` holds no escape character and no carriage return.
pub open spec fn has_no_controls(s: Seq<char>) -> bool {
    forall|i: int| 0 <= i < s.len() ==> #[trigger] s[i] != '\x1b' && s[i] != '\r'
}

/// The scanner state after plain text `t`: its finished lines, and the
/// text of the line it is in.
pub open spec fn plain_state(t: Seq<char>, base: Style) -> ScanState {
    let pieces = split_pieces(t, '\n');
    ScanState {
        lines: pieces.drop_last().map_values(|p: Seq<char>| plain_line(p, base)),
        spans: Seq::empty(),
        text: pieces.last(),
        style: base,
    }
}

proof fn lemma_scan_plain_prefix(s: Seq<char>, base: Style, i: int)
    requires
        has_no_controls(s),
        0 <= i <= s.len(),
    ensures
        scan(
            s,
            0,
            ScanState { lines: Seq::empty(), spans: Seq::empty(), text: Seq::empty(), style: base },
            base,
        ) == scan(s, i, plain_state(s.take(i), base), base),
    decreases i,
{
    if i == 0 {
        assert(s.take(0) =~= Seq::<char>::empty());
        assert(plain_state(s.take(0), base) =~= ScanState {
            lines: Seq::empty(),
            spans: Seq::empty(),
            text: Seq::empty(),
            style: base,
        });
    } else {
        lemma_scan_plain_prefix(s, base, i - 1);
        lemma_split_pieces_nonempty(s.take(i - 1), '\n');
        let t = s.take(i);
        assert(t.drop_last() =~= s.take(i - 1));
        assert(t.last() == s[i - 1]);
        let st = plain_state(s.take(i - 1), base);
        let pieces = split_pieces(s.take(i - 1), '\n');
        let c = s[i - 1];
        assert(c != '\x1b' && c != '\r');
        if c == '\n' {
            let f = flushed(st);
            let next = ScanState { lines: f.lines.push(f.spans), spans: Seq::empty(), ..f };
            assert(split_pieces(t, '\n') == pieces.push(Seq::empty()));
            assert(pieces.push(Seq::<char>::empty()).drop_last() == pieces);
            assert(pieces == pieces.drop_last().push(pieces.last()));
            assert(next.lines =~= pieces.map_values(|p: Seq<char>| plain_line(p, base)));
            assert(next =~= plain_state(t, base));
        } else {
            let next = ScanState { text: st.text.push(c), ..st };
            let after = pieces.update(pieces.len() - 1, pieces.last().push(c));
            assert(split_pieces(t, '\n') == after);
            assert(after.drop_last() =~= pieces.drop_last());
            assert(next =~= plain_state(t, base));
        }
    }
}

/// Output without escape sequences or carriage returns reads as its lines,
/// each in the base style: one span per non-empty line.
pub proof fn plain_text_keeps_its_lines(s: Seq<char>, base: Style)
    requires
        has_no_controls(s),
    ensures
        spec_ansi_lines(s, base) == split_pieces(s, '\n').map_values(
            |p: Seq<char>| plain_line(p, base),
        ),
{
    lemma_scan_plain_prefix(s, base, s.len() as int);
    assert(s.take(s.len() as int) =~= s);
    lemma_split_pieces_nonempty(s, '\n');
    let pieces = split_pieces(s, '\n');
    let st = plain_state(s, base);
    let f = flushed(st);
    assert(f.spans == plain_line(pieces.last(), base));
    assert(pieces == pieces.drop_last().push(pieces.last()));
    assert(f.lines.push(f.spans) =~= pieces.map_values(|p: Seq<char>| plain_line(p, base)));
}

/// An empty SGR sequence (`ESC [ m`) or a lone 0 goes back to the base
/// style, whatever the style was.
pub proof fn sgr_reset_restores_the_base(style: Style, base: Style)
    ensures
        sgr_applied(style, base, Seq::empty()) == base,
        sgr_applied(style, base, seq!['0']) == base,
{
    let v = seq![0u16];
    assert(sgr_values(Seq::empty()) == v);
    assert(sgr_step(style, base, v, 0) == (base, 1int));
    assert(apply_sgr_values(base, base, v, 1) == base);
    let zero = seq!['0'];
    assert(zero.drop_last() =~= Seq::<char>::empty());
    assert(split_pieces(zero.drop_last(), ';') == seq![Seq::<char>::empty()]);
    assert(split_pieces(zero, ';') =~= seq![zero]);
    assert(all_digits(zero));
    assert(digits_value(zero.drop_last()) == 0);
    assert(digits_value(zero) == 0);
    assert(sgr_value(zero) == 0);
    assert(sgr_values(zero) =~= v);
}

/// The eight colors of the ANSI palette in their SGR order (black, red,
/// green, yellow, blue, magenta, cyan, white), in their normal or their
/// bright form.
pub open spec fn palette_color(k: int, bright: bool) -> Color {
    if !bright {
        seq![
            Color::Black,
            Color::Red,
            Color::Green,
            Color::Yellow,
            Color::Blue,
            Color::Magenta,
            Color::Cyan,
            Color::Gray,
        ][k]
    } else {
        seq![
            Color::DarkGray,
            Color::LightRed,
            Color::LightGreen,
            Color::LightYellow,
            Color::LightBlue,
            Color::LightMagenta,
            Color::LightCyan,
            Color::White,
        ][k]
    }
}

/// The SGR sequence that is the decimal numeral of `x` holds the single
/// parameter `x`.
proof fn lemma_sgr_values_of_number(x: u16)
    ensures
        sgr_values(decimal(x as nat)) == seq![x],
{
    let d = decimal(x as nat);
    lemma_decimal_reads_back(x as nat);
    assert(crate::text::is_digit(d[0]));
    assert forall|i: int| 0 <= i < d.len() implies d[i] != ';' by {
        assert(crate::text::is_digit(d[i]));
    }
    lemma_split_without_separator(d, ';');
    assert(spec_parse_u16(d) == Some(x));
    assert(sgr_values(d) =~= seq![x]);
}

/// The style after the sequence that holds the single parameter `x`.
proof fn lemma_single_parameter(style: Style, base: Style, x: u16)
    ensures
        sgr_applied(style, base, decimal(x as nat)) == sgr_step(style, base, seq![x], 0).0,
{
    lemma_sgr_values_of_number(x);
    let v = seq![x];
    let next = sgr_step(style, base, v, 0);
    assert(next.1 >= 1);
    assert(apply_sgr_values(next.0, base, v, next.1) == next.0);
}

/// A lone SGR color parameter sets one color and keeps everything else:
/// 30 to 37 set the foreground to the palette's colors in order, 40 to 47
/// the background, 90 to 97 and 100 to 107 the same in the bright palette;
/// 39 and 49 bring back the base style's foreground and background.
pub proof fn sgr_color_parameters_set_one_color(style: Style, base: Style, x: u16)
    ensures
        ({
            let applied = sgr_applied(style, base, decimal(x as nat));
            &&& 30 <= x <= 37 ==> applied == Style {
                fg: Some(palette_color(x - 30, false)),
                ..style
            }
            &&& 40 <= x <= 47 ==> applied == Style {
                bg: Some(palette_color(x - 40, false)),
                ..style
            }
            &&& 90 <= x <= 97 ==> applied == Style { fg: Some(palette_color(x - 90, true)), ..style }
            &&& 100 <= x <= 107 ==> applied == Style {
                bg: Some(palette_color(x - 100, true)),
                ..style
            }
            &&& x == 39 ==> applied == Style { fg: base.fg, ..style }
            &&& x == 49 ==> applied == Style { bg: base.bg, ..style }
        }),
{
    lemma_single_parameter(style, base, x);
}

/// A lone SGR attribute parameter turns one text attribute on or off and
/// keeps the colors: 1 bold, 2 faint, 3 italic, 4 underlined, 7 reversed,
/// 9 crossed out; 22 ends bold and faint, 23 italic, 21 and 24 underline,
/// 27 reversal, 29 crossing out. Parameter 0 goes back to the base style.
pub proof fn sgr_attribute_parameters_set_one_attribute(style: Style, base: Style, x: u16)
    ensures
        ({
            let applied = sgr_applied(style, base, decimal(x as nat));
            &&& x == 0 ==> applied == base
            &&& x == 1 ==> applied == adding(style, BOLD)
            &&& x == 2 ==> applied == adding(style, DIM)
            &&& x == 3 ==> applied == adding(style, ITALIC)
            &&& x == 4 ==> applied == adding(style, UNDERLINED)
            &&& x == 7 ==> applied == adding(style, REVERSED)
            &&& x == 9 ==> applied == adding(style, CROSSED_OUT)
            &&& (x == 21 || x == 24) ==> applied == removing(style, UNDERLINED)
            &&& x == 22 ==> applied == removing(style, BOLD | DIM)
            &&& x == 23 ==> applied == removing(style, ITALIC)
            &&& x == 27 ==> applied == removing(style, REVERSED)
            &&& x == 29 ==> applied == removing(style, CROSSED_OUT)
            &&& (1 <= x <= 29 && x != 5 && x != 6 && x != 8) ==> applied.fg == style.fg
                && applied.bg == style.bg
        }),
{
    lemma_single_parameter(style, base, x);
}

/// Closes the pending text, if any, into a span of the given style.
pub fn push_span(spans: &mut Vec<StyledSpan>, text: &mut String, style: Style)
    ensures
        old(text)@.len() > 0 ==> final(spans)@.map_values(|sp: StyledSpan| sp@) == old(
            spans,
        )@.map_values(|sp: StyledSpan| sp@).push((old(text)@, style)),
        old(text)@.len() == 0 ==> final(spans)@ == old(spans)@,
        final(text)@.len() == 0,
{
    if !text.as_str().is_empty() {
        let mut content = String::new();
        std::mem::swap(&mut content, text);
        let ghost before = spans@;
        spans.push(StyledSpan { content, style });
        assert(spans@.map_values(|sp: StyledSpan| sp@) =~= before.map_values(
            |sp: StyledSpan| sp@,
        ).push((old(text)@, style)));
    }
}

/// The scanner state that the executable variables stand for.
pub open spec fn state_of(
    lines: Seq<StyledLine>,
    spans: Seq<StyledSpan>,
    text: Seq<char>,
    style: Style,
) -> ScanState {
    ScanState {
        lines: lines_view(lines),
        spans: spans.map_values(|sp: StyledSpan| sp@),
        text,
        style,
    }
}

/// Splits command output into styled lines, reading SGR escape sequences as
/// style changes from `base_style` and dropping other escape sequences and
/// carriage returns.
pub fn ansi_lines(output: &str, base_style: Style) -> (lines: Vec<StyledLine>)
    ensures
        lines_view(lines@) == spec_ansi_lines(output@, base_style),
{
    let cs = chars_of(output);
    let n = cs.len();
    let ghost s = cs@;
    let ghost init = ScanState {
        lines: Seq::empty(),
        spans: Seq::empty(),
        text: Seq::empty(),
        style: base_style,
    };
    let mut lines: Vec<StyledLine> = Vec::new();
    let mut spans: Vec<StyledSpan> = Vec::new();
    let mut text = String::new();
    let mut style = base_style;
    let mut i: usize = 0;
    assert(lines_view(lines@) =~= Seq::<Seq<SpanView>>::empty());
    assert(spans@.map_values(|sp: StyledSpan| sp@) =~= Seq::<SpanView>::empty());
    assert(state_of(lines@, spans@, text@, style) == init);
    while i < n
        invariant
            n == cs.len(),
            s == cs@,
            s == output@,
            i <= n,
            scan(s, i as int, state_of(lines@, spans@, text@, style), base_style) == scan(
                s,
                0,
                init,
                base_style,
            ),
        decreases n - i,
    {
        let ch = cs[i];
        let ghost st = state_of(lines@, spans@, text@, style);
        let ghost i0 = i;
        if ch == '\n' {
            push_span(&mut spans, &mut text, style);
            assert(text@ =~= Seq::<char>::empty());
            assert(state_of(lines@, spans@, text@, style) =~= flushed(st));
            let line = StyledLine { spans };
            lines.push(line);
            spans = Vec::new();
            assert(lines_view(lines@) =~= flushed(st).lines.push(flushed(st).spans));
            assert(spans@.map_values(|sp: StyledSpan| sp@) =~= Seq::<SpanView>::empty());
            i += 1;
            assert(scan(s, i - 1, st, base_style) == scan(
                s,
                i as int,
                state_of(lines@, spans@, text@, style),
                base_style,
            ));
        } else if ch == '\x1b' && i + 1 < n && cs[i + 1] == '[' {
            let mut j = i + 2;
            let mut sequence = String::new();
            proof {
                lemma_csi_end_bounds(s, i + 2);
            }
            while j < n && !('@' <= cs[j] && cs[j] <= '~')
                invariant
                    n == cs.len(),
                    s == cs@,
                    i + 2 <= j <= n,
                    csi_end(s, i + 2) == csi_end(s, j as int),
                    sequence@ == s.subrange(i + 2, j as int),
                decreases n - j,
            {
                push_char(&mut sequence, cs[j]);
                assert(s.subrange(i + 2, j + 1) == s.subrange(i + 2, j as int).push(s[j as int]));
                j += 1;
            }
            assert(csi_end(s, j as int) == j);
            if j < n && cs[j] == 'm' {
                push_span(&mut spans, &mut text, style);
                assert(text@ =~= Seq::<char>::empty());
                assert(state_of(lines@, spans@, text@, style) =~= flushed(st));
                style = apply_sgr_sequence(style, base_style, sequence.as_str());
                i = j + 1;
                assert(scan(s, i0 as int, st, base_style) == scan(
                    s,
                    i as int,
                    state_of(lines@, spans@, text@, style),
                    base_style,
                ));
            } else if j < n {
                i = j + 1;
                assert(scan(s, i0 as int, st, base_style) == scan(
                    s,
                    i as int,
                    state_of(lines@, spans@, text@, style),
                    base_style,
                ));
            } else {
                i = n;
                assert(scan(s, i0 as int, st, base_style) == scan(
                    s,
                    i as int,
                    state_of(lines@, spans@, text@, style),
                    base_style,
                ));
            }
        } else if ch == '\x1b' && i + 1 < n && cs[i + 1] == ']' {
            let mut j = i + 2;
            let mut end = n;
            proof {
                lemma_osc_end_bounds(s, i + 2);
            }
            while j < n
                invariant_except_break
                    i + 2 <= j <= n,
                    osc_end(s, i + 2) == osc_end(s, j as int),
                    end == n,
                invariant
                    n == cs.len(),
                    s == cs@,
                ensures
                    end == osc_end(s, i + 2),
                decreases n - j,
            {
                if cs[j] == '\x07' {
                    end = j + 1;
                    break;
                }
                if cs[j] == '\x1b' && j + 1 < n && cs[j + 1] == '\\' {
                    end = j + 2;
                    break;
                }
                j += 1;
            }
            assert(end == osc_end(s, i + 2));
            i = end;
            assert(scan(s, i0 as int, st, base_style) == scan(
                s,
                i as int,
                state_of(lines@, spans@, text@, style),
                base_style,
            ));
        } else if ch == '\x1b' || ch == '\r' {
            i += 1;
            assert(scan(s, i0 as int, st, base_style) == scan(
                s,
                i as int,
                state_of(lines@, spans@, text@, style),
                base_style,
            ));
        } else {
            push_char(&mut text, ch);
            i += 1;
            assert(scan(s, i0 as int, st, base_style) == scan(
                s,
                i as int,
                state_of(lines@, spans@, text@, style),
                base_style,
            ));
        }
    }
    push_span(&mut spans, &mut text, style);
    lines.push(StyledLine { spans });
    proof {
        let fin = scan(s, 0, init, base_style);
        assert(lines_view(lines@) =~= flushed(fin).lines.push(flushed(fin).spans));
    }
    lines
}

// ---------------------------------------------------------------------------
// Widget text
/// The style of a widget's title: the base style in bold gray, never faint.
pub open spec fn title_style(base: Style) -> Style {
    removing(adding(with_fg(base, Color::Gray), BOLD), DIM)
}

/// The style of the marker before a widget's title: bold cyan, never faint.
pub open spec fn marker_style(base: Style) -> Style {
    removing(adding(with_fg(base, Color::Cyan), BOLD), DIM)
}

/// The text a widget shows: a title line (a marker and the title) unless the
/// title is empty, then the styled lines of its output.
pub open spec fn spec_widget_text(title: Seq<char>, output: Seq<char>, base: Style) -> Seq<
    Seq<SpanView>,
> {
    let head = if title.len() == 0 {
        Seq::empty()
    } else {
        seq![seq![("● "@, marker_style(base)), (title, title_style(base))]]
    };
    head + spec_ansi_lines(output, base)
}

/// The lines a widget shows for `title` and `output`; an empty title shows
/// no title line, so that the output has the whole area.
pub fn widget_text(title: &str, output: &str, base_style: Style) -> (lines: Vec<StyledLine>)
    ensures
        lines_view(lines@) == spec_widget_text(title@, output@, base_style),
{
    let mut lines: Vec<StyledLine> = Vec::new();
    if !title.is_empty() {
        let title_style = base_style.fg(Color::Gray).add_modifier(BOLD).remove_modifier(DIM);
        let marker_style = base_style.fg(Color::Cyan).add_modifier(BOLD).remove_modifier(DIM);
        let mut spans: Vec<StyledSpan> = Vec::new();
        spans.push(StyledSpan { content: String::from_str("● "), style: marker_style });
        spans.push(StyledSpan { content: String::from_str(title), style: title_style });
        lines.push(StyledLine { spans });
        assert(lines@[0]@ =~= seq![("● "@, marker_style), (title@, title_style)]);
    }
    let ghost head = lines_view(lines@);
    let mut rest = ansi_lines(output, base_style);
    lines.append(&mut rest);
    assert(lines_view(lines@) =~= head + spec_ansi_lines(output@, base_style));
    assert(head =~= if title@.len() == 0 {
        Seq::empty()
    } else {
        seq![seq![("● "@, marker_style(base_style)), (title@, title_style(base_style))]]
    });
    lines
}

} // verus!
