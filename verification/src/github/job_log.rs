//! A job's whole log as the log page renders it: `##[group]` markers become
//! collapsible sections, and the colour escapes that the tools wrote become
//! styles instead of being lost.

use vstd::prelude::*;
use vstd::string::*;

use crate::github::log;
use crate::github::types;
use crate::list;
use crate::text;

verus! {

/// A colour that an escape names: one of the 256 of the terminal's palette, or
/// its red, green and blue.
#[derive(Debug, Clone, Copy, PartialEq, Eq)]
pub enum Colour {
    Indexed(u8),
    Rgb(u8, u8, u8),
}

/// How a stretch of text is rendered. No colour means the terminal's own.
#[derive(Debug, Clone, Copy, PartialEq, Eq)]
pub struct Style {
    pub bold: bool,
    pub italic: bool,
    pub underline: bool,
    pub foreground: Option<Colour>,
    pub background: Option<Colour>,
}

/// A stretch of a line in one style.
#[derive(Debug)]
pub struct Span {
    pub style: Style,
    pub text: String,
}

/// What a stretch holds.
pub ghost struct SpanView {
    pub style: Style,
    pub text: Seq<char>,
}

impl View for Span {
    type V = SpanView;

    open spec fn view(&self) -> SpanView {
        SpanView { style: self.style, text: self.text@ }
    }
}

/// The first sixteen colours of the palette: the eight, and their bright ones.
pub open spec fn named_colour(n: int) -> (u8, u8, u8) {
    if n == 0 {
        (40, 42, 46)
    } else if n == 1 {
        (204, 102, 102)
    } else if n == 2 {
        (181, 189, 104)
    } else if n == 3 {
        (240, 198, 116)
    } else if n == 4 {
        (129, 162, 190)
    } else if n == 5 {
        (178, 148, 187)
    } else if n == 6 {
        (138, 190, 183)
    } else if n == 7 {
        (197, 200, 198)
    } else if n == 8 {
        (150, 152, 150)
    } else if n == 9 {
        (213, 78, 83)
    } else if n == 10 {
        (185, 202, 74)
    } else if n == 11 {
        (231, 197, 71)
    } else if n == 12 {
        (122, 166, 218)
    } else if n == 13 {
        (195, 151, 216)
    } else if n == 14 {
        (112, 192, 177)
    } else {
        (255, 255, 255)
    }
}

/// The strength of a step of the palette's colour cube.
pub open spec fn cube_level(step: int) -> int {
    if step == 0 {
        0
    } else {
        55 + 40 * step
    }
}

/// A colour's red, green and blue: the palette has sixteen colours by name, a
/// cube of six steps each way, and twenty-four greys.
pub open spec fn rgb_of(colour: Colour) -> (u8, u8, u8) {
    match colour {
        Colour::Rgb(red, green, blue) => (red, green, blue),
        Colour::Indexed(index) => {
            let n = index as int;
            if n < 16 {
                named_colour(n)
            } else if n < 232 {
                (
                    cube_level((n - 16) / 36) as u8,
                    cube_level((n - 16) / 6 % 6) as u8,
                    cube_level((n - 16) % 6) as u8,
                )
            } else {
                let grey = (8 + 10 * (n - 232)) as u8;
                (grey, grey, grey)
            }
        },
    }
}

/// The strength of a step of the palette's colour cube.
fn level(step: u8) -> (r: u8)
    requires
        step < 6,
    ensures
        r == cube_level(step as int),
{
    if step == 0 {
        0
    } else {
        55 + 40 * step
    }
}

/// The first sixteen colours of the palette.
fn named(n: u8) -> (r: (u8, u8, u8))
    ensures
        r == named_colour(n as int),
{
    match n {
        0 => (40, 42, 46),
        1 => (204, 102, 102),
        2 => (181, 189, 104),
        3 => (240, 198, 116),
        4 => (129, 162, 190),
        5 => (178, 148, 187),
        6 => (138, 190, 183),
        7 => (197, 200, 198),
        8 => (150, 152, 150),
        9 => (213, 78, 83),
        10 => (185, 202, 74),
        11 => (231, 197, 71),
        12 => (122, 166, 218),
        13 => (195, 151, 216),
        14 => (112, 192, 177),
        _ => (255, 255, 255),
    }
}

impl Colour {
    /// The colour's red, green and blue.
    pub fn rgb(self) -> (r: (u8, u8, u8))
        ensures
            r == rgb_of(self),
    {
        match self {
            Colour::Rgb(red, green, blue) => (red, green, blue),
            Colour::Indexed(index) => if index < 16 {
                named(index)
            } else if index < 232 {
                let n: u8 = index - 16;
                (level(n / 36), level(n / 6 % 6), level(n % 6))
            } else {
                let grey: u8 = 8 + 10 * (index - 232);
                (grey, grey, grey)
            },
        }
    }
}

/// What the stretches of a line hold.
pub open spec fn span_views(spans: Seq<Span>) -> Seq<SpanView> {
    spans.map_values(|s: Span| s@)
}

/// `s` up to its first ASCII letter.
pub open spec fn before_letter(s: Seq<char>) -> Seq<char>
    decreases s.len(),
{
    if s.len() == 0 || log::ascii_letter(s[0]) {
        Seq::empty()
    } else {
        seq![s[0]] + before_letter(s.skip(1))
    }
}

/// The code that a parameter of an escape writes: a number, or 0 when it is
/// left out.
pub open spec fn code_of(parameter: Seq<char>) -> Option<u64> {
    if parameter.len() == 0 {
        Some(0)
    } else {
        text::number_in(parameter)
    }
}

/// No style: the terminal's own.
pub open spec fn plain_style() -> Style {
    Style { bold: false, italic: false, underline: false, foreground: None, background: None }
}

/// The style after one code that stands alone: 0 resets, a code that sets has
/// one that cancels, and a code that says nothing of these changes nothing.
pub open spec fn code_applied(style: Style, code: u64) -> Style {
    if code == 0 {
        plain_style()
    } else if code == 1 {
        Style { bold: true, ..style }
    } else if code == 3 {
        Style { italic: true, ..style }
    } else if code == 4 {
        Style { underline: true, ..style }
    } else if code == 22 {
        Style { bold: false, ..style }
    } else if code == 23 {
        Style { italic: false, ..style }
    } else if code == 24 {
        Style { underline: false, ..style }
    } else if 30 <= code <= 37 {
        Style { foreground: Some(Colour::Indexed((code - 30) as u8)), ..style }
    } else if code == 39 {
        Style { foreground: None, ..style }
    } else if 40 <= code <= 47 {
        Style { background: Some(Colour::Indexed((code - 40) as u8)), ..style }
    } else if code == 49 {
        Style { background: None, ..style }
    } else if 90 <= code <= 97 {
        Style { foreground: Some(Colour::Indexed((code - 82) as u8)), ..style }
    } else if 100 <= code <= 107 {
        Style { background: Some(Colour::Indexed((code - 92) as u8)), ..style }
    } else {
        style
    }
}

/// The style with a colour in front (38) or behind (48), where there is one.
pub open spec fn coloured(style: Style, code: u64, colour: Option<Colour>) -> Style {
    if colour is None {
        style
    } else if code == 38 {
        Style { foreground: colour, ..style }
    } else {
        Style { background: colour, ..style }
    }
}

/// Whether an operand fits a byte.
pub open spec fn is_byte(operand: Option<u64>) -> bool {
    operand matches Some(n) && n < 256
}

/// The colour of the palette that an operand names.
pub open spec fn indexed(operand: Option<u64>) -> Option<Colour> {
    if is_byte(operand) {
        Some(Colour::Indexed(operand.unwrap() as u8))
    } else {
        None
    }
}

/// The colour that a red, a green and a blue operand name.
pub open spec fn mixed(red: Option<u64>, green: Option<u64>, blue: Option<u64>) -> Option<Colour> {
    if is_byte(red) && is_byte(green) && is_byte(blue) {
        Some(Colour::Rgb(red.unwrap() as u8, green.unwrap() as u8, blue.unwrap() as u8))
    } else {
        None
    }
}

/// How many places a colour code and its operands take, from the code on: `5`
/// takes one more, `2` takes three, and where they are cut short they take what
/// is left. A code without either stands alone.
pub open spec fn colour_places(codes: Seq<Option<u64>>) -> int {
    if codes.len() > 1 && codes[1] == Some(5u64) {
        if codes.len() < 3 {
            codes.len() as int
        } else {
            3
        }
    } else if codes.len() > 1 && codes[1] == Some(2u64) {
        if codes.len() < 5 {
            codes.len() as int
        } else {
            5
        }
    } else {
        1
    }
}

/// The colour that the operands of a colour code name.
pub open spec fn colour_named(codes: Seq<Option<u64>>) -> Option<Colour> {
    if codes.len() >= 3 && codes[1] == Some(5u64) {
        indexed(codes[2])
    } else if codes.len() >= 5 && codes[1] == Some(2u64) {
        mixed(codes[2], codes[3], codes[4])
    } else {
        None
    }
}

/// The style after an escape's codes, in their order. What follows a colour
/// code is its operands and no code; what is no number does nothing.
pub open spec fn codes_applied(style: Style, codes: Seq<Option<u64>>) -> Style
    decreases codes.len(),
{
    if codes.len() == 0 {
        style
    } else {
        match codes[0] {
            Some(code) => if code == 38 || code == 48 {
                codes_applied(
                    coloured(style, code, colour_named(codes)),
                    codes.skip(colour_places(codes)),
                )
            } else {
                codes_applied(code_applied(style, code), codes.skip(1))
            },
            None => codes_applied(style, codes.skip(1)),
        }
    }
}

/// The codes that an escape's parameters write.
pub open spec fn codes_of(parameters: Seq<Seq<char>>) -> Seq<Option<u64>> {
    parameters.map_values(|p: Seq<char>| code_of(p))
}

/// The style after the escape whose inside begins `s`: only one that ends in
/// `m` sets it.
pub open spec fn restyled(style: Style, s: Seq<char>) -> Style {
    let inside = before_letter(s);
    if inside.len() < s.len() && s[inside.len() as int] == 'm' {
        codes_applied(style, codes_of(list::pieces(inside, ';')))
    } else {
        style
    }
}

/// The operands of a colour are no codes: red, green and blue set the colour in
/// front and nothing else, whatever their numbers.
pub proof fn law_operands_are_no_codes(style: Style, red: u8, green: u8, blue: u8)
    ensures
        codes_applied(
            style,
            seq![
                Some(38u64),
                Some(2u64),
                Some(red as u64),
                Some(green as u64),
                Some(blue as u64),
            ],
        ) == (Style { foreground: Some(Colour::Rgb(red, green, blue)), ..style }),
        codes_applied(style, seq![Some(38u64), Some(5u64), Some(red as u64)]) == (Style {
            foreground: Some(Colour::Indexed(red)),
            ..style
        }),
        codes_applied(style, seq![Some(48u64), Some(5u64), Some(red as u64)]) == (Style {
            background: Some(Colour::Indexed(red)),
            ..style
        }),
{
    reveal_with_fuel(codes_applied, 2);
    let mix = seq![
        Some(38u64),
        Some(2u64),
        Some(red as u64),
        Some(green as u64),
        Some(blue as u64),
    ];
    assert(mix.skip(5) =~= Seq::empty());
    let front = seq![Some(38u64), Some(5u64), Some(red as u64)];
    assert(front.skip(3) =~= Seq::empty());
    let back = seq![Some(48u64), Some(5u64), Some(red as u64)];
    assert(back.skip(3) =~= Seq::empty());
}

/// What an escape sets another cancels, whatever the style before: 39 the
/// colour in front, 49 the one behind, 22 bold, and 0 all of it.
pub proof fn law_styles_are_cancelled(style: Style)
    ensures
        code_applied(style, 39).foreground is None,
        code_applied(style, 49).background is None,
        !code_applied(style, 22).bold,
        code_applied(style, 0) == plain_style(),
        code_applied(code_applied(style, 31), 39) == code_applied(style, 39),
        code_applied(code_applied(style, 1), 22) == code_applied(style, 22),
{
}

/// The stretch collected so far, where there is one.
pub open spec fn flushed(style: Style, collected: Seq<char>) -> Seq<SpanView> {
    if collected.len() == 0 {
        Seq::empty()
    } else {
        seq![SpanView { style, text: collected }]
    }
}

/// The stretches of the rest of a line, with some text collected in the style
/// in effect.
pub open spec fn spans_from(s: Seq<char>, style: Style, collected: Seq<char>) -> Seq<SpanView>
    decreases s.len(),
{
    if s.len() == 0 {
        flushed(style, collected)
    } else if s[0] == '\u{1b}' {
        if s.len() > 1 && s[1] == '[' {
            proof {
                log::lemma_past_letter_len(s.skip(2));
            }
            flushed(style, collected) + spans_from(
                log::past_letter(s.skip(2)),
                restyled(style, s.skip(2)),
                Seq::empty(),
            )
        } else {
            flushed(style, collected) + spans_from(s.skip(1), style, Seq::empty())
        }
    } else {
        spans_from(s.skip(1), style, collected.push(s[0]))
    }
}

/// The stretches of a line.
pub open spec fn spans_of(line: Seq<char>) -> Seq<SpanView> {
    spans_from(line, plain_style(), Seq::empty())
}

/// The texts of stretches, one after the other.
pub open spec fn plain(spans: Seq<SpanView>) -> Seq<char> {
    spans.map_values(|s: SpanView| s.text).flatten()
}

/// The texts of more stretches follow those of the first.
proof fn lemma_plain_concat(a: Seq<SpanView>, b: Seq<SpanView>)
    ensures
        plain(a + b) == plain(a) + plain(b),
    decreases b.len(),
{
    let text_of = |s: SpanView| s.text;
    if b.len() == 0 {
        assert(a + b =~= a);
        assert(b.map_values(text_of) =~= Seq::<Seq<char>>::empty());
        assert(plain(b) =~= Seq::<char>::empty());
        assert(plain(a) + plain(b) =~= plain(a));
    } else {
        let init = b.drop_last();
        lemma_plain_concat(a, init);
        assert((a + b).map_values(text_of) =~= (a + init).map_values(text_of).push(
            b.last().text,
        ));
        assert(b.map_values(text_of) =~= init.map_values(text_of).push(b.last().text));
        (a + init).map_values(text_of).lemma_flatten_push(b.last().text);
        init.map_values(text_of).lemma_flatten_push(b.last().text);
        assert(plain(a + b) =~= plain(a) + plain(b));
    }
}

/// A flushed stretch has the collected text.
proof fn lemma_plain_flushed(style: Style, collected: Seq<char>)
    ensures
        plain(flushed(style, collected)) == collected,
{
    let text_of = |s: SpanView| s.text;
    let none = Seq::<Seq<char>>::empty();
    if collected.len() == 0 {
        assert(flushed(style, collected).map_values(text_of) =~= none);
        assert(plain(flushed(style, collected)) =~= collected);
    } else {
        assert(flushed(style, collected).map_values(text_of) =~= none.push(collected));
        none.lemma_flatten_push(collected);
        assert(none.flatten() =~= Seq::<char>::empty());
        assert(plain(flushed(style, collected)) =~= collected);
    }
}

/// The stretches of the rest of a line have its text without the escapes.
proof fn lemma_spans_text(s: Seq<char>, style: Style, collected: Seq<char>)
    ensures
        plain(spans_from(s, style, collected)) == collected + log::without_ansi(s),
    decreases s.len(),
{
    lemma_plain_flushed(style, collected);
    if s.len() == 0 {
        assert(collected + log::without_ansi(s) =~= collected);
    } else if s[0] == '\u{1b}' {
        if s.len() > 1 && s[1] == '[' {
            log::lemma_past_letter_len(s.skip(2));
            let rest = log::past_letter(s.skip(2));
            lemma_spans_text(rest, restyled(style, s.skip(2)), Seq::empty());
            lemma_plain_concat(
                flushed(style, collected),
                spans_from(rest, restyled(style, s.skip(2)), Seq::empty()),
            );
            assert(Seq::<char>::empty() + log::without_ansi(rest) =~= log::without_ansi(rest));
        } else {
            lemma_spans_text(s.skip(1), style, Seq::empty());
            lemma_plain_concat(
                flushed(style, collected),
                spans_from(s.skip(1), style, Seq::empty()),
            );
            assert(Seq::<char>::empty() + log::without_ansi(s.skip(1)) =~= log::without_ansi(
                s.skip(1),
            ));
        }
    } else {
        lemma_spans_text(s.skip(1), style, collected.push(s[0]));
        assert(collected.push(s[0]) + log::without_ansi(s.skip(1)) =~= collected
            + log::without_ansi(s));
    }
}

/// Colour is all that escapes add: the stretches of a line, put together, are
/// its text without the escapes.
pub proof fn law_spans_keep_the_text(line: Seq<char>)
    ensures
        plain(spans_of(line)) == log::without_ansi(line),
{
    lemma_spans_text(line, plain_style(), Seq::empty());
    assert(Seq::<char>::empty() + log::without_ansi(line) =~= log::without_ansi(line));
}

/// A line without escapes is one stretch without a style.
pub proof fn law_plain_line_has_no_style(line: Seq<char>)
    requires
        !line.contains('\u{1b}'),
    ensures
        spans_of(line) == flushed(plain_style(), line),
{
    lemma_plain_rest(line, Seq::empty());
    assert(Seq::<char>::empty() + line =~= line);
}

proof fn lemma_plain_rest(s: Seq<char>, collected: Seq<char>)
    requires
        !s.contains('\u{1b}'),
    ensures
        spans_from(s, plain_style(), collected) == flushed(plain_style(), collected + s),
    decreases s.len(),
{
    if s.len() == 0 {
        assert(collected + s =~= collected);
    } else {
        assert(s.contains(s[0]));
        let rest = s.skip(1);
        if rest.contains('\u{1b}') {
            let k = choose|k: int| 0 <= k < rest.len() && rest[k] == '\u{1b}';
            assert(s[k + 1] == '\u{1b}');
        }
        lemma_plain_rest(rest, collected.push(s[0]));
        assert(collected.push(s[0]) + rest =~= collected + s);
    }
}

/// No style: the terminal's own.
fn no_style() -> (r: Style)
    ensures
        r == plain_style(),
{
    Style { bold: false, italic: false, underline: false, foreground: None, background: None }
}

/// The style after one code that stands alone.
fn apply_code(style: Style, code: u64) -> (r: Style)
    ensures
        r == code_applied(style, code),
{
    let mut out: Style = style;
    if code == 0 {
        out = no_style();
    } else if code == 1 {
        out.bold = true;
    } else if code == 3 {
        out.italic = true;
    } else if code == 4 {
        out.underline = true;
    } else if code == 22 {
        out.bold = false;
    } else if code == 23 {
        out.italic = false;
    } else if code == 24 {
        out.underline = false;
    } else if 30 <= code && code <= 37 {
        out.foreground = Some(Colour::Indexed((code - 30) as u8));
    } else if code == 39 {
        out.foreground = None;
    } else if 40 <= code && code <= 47 {
        out.background = Some(Colour::Indexed((code - 40) as u8));
    } else if code == 49 {
        out.background = None;
    } else if 90 <= code && code <= 97 {
        out.foreground = Some(Colour::Indexed((code - 82) as u8));
    } else if 100 <= code && code <= 107 {
        out.background = Some(Colour::Indexed((code - 92) as u8));
    }
    out
}

/// An operand as a byte, where it fits one.
fn byte(operand: Option<u64>) -> (r: Option<u8>)
    ensures
        match r {
            Some(n) => is_byte(operand) && operand == Some(n as u64),
            None => !is_byte(operand),
        },
{
    match operand {
        Some(n) => if n < 256 {
            Some(n as u8)
        } else {
            None
        },
        None => None,
    }
}

/// The colour that the operands of the colour code at `at` name, and where the
/// next code stands.
fn read_colour(codes: &Vec<Option<u64>>, at: usize) -> (r: (Option<Colour>, usize))
    requires
        at < codes@.len(),
    ensures
        r.0 == colour_named(codes@.skip(at as int)),
        r.1 == at + colour_places(codes@.skip(at as int)),
        at < r.1 <= codes@.len(),
{
    let ghost rest = codes@.skip(at as int);
    let left: usize = codes.len() - at;
    assert(left > 1 ==> rest[1] == codes@[at + 1]);
    assert(left > 2 ==> rest[2] == codes@[at + 2]);
    assert(left > 4 ==> rest[3] == codes@[at + 3] && rest[4] == codes@[at + 4]);
    if left == 1 {
        return (None, at + 1);
    }
    match codes[at + 1] {
        Some(mode) => if mode == 5 {
            if left < 3 {
                (None, codes.len())
            } else {
                match byte(codes[at + 2]) {
                    Some(n) => (Some(Colour::Indexed(n)), at + 3),
                    None => (None, at + 3),
                }
            }
        } else if mode == 2 {
            if left < 5 {
                (None, codes.len())
            } else {
                match (byte(codes[at + 2]), byte(codes[at + 3]), byte(codes[at + 4])) {
                    (Some(red), Some(green), Some(blue)) => (
                        Some(Colour::Rgb(red, green, blue)),
                        at + 5,
                    ),
                    _ => (None, at + 5),
                }
            }
        } else {
            (None, at + 1)
        },
        None => (None, at + 1),
    }
}

/// The codes that an escape's parameters write.
fn read_codes(parameters: &Vec<String>) -> (r: Vec<Option<u64>>)
    ensures
        r@ == codes_of(text::texts(parameters@)),
{
    let ghost wanted = codes_of(text::texts(parameters@));
    let mut out: Vec<Option<u64>> = Vec::new();
    let mut i: usize = 0;
    while i < parameters.len()
        invariant
            i <= parameters@.len(),
            wanted == codes_of(text::texts(parameters@)),
            out@ == wanted.take(i as int),
        decreases parameters@.len() - i,
    {
        assert(wanted[i as int] == code_of(parameters@[i as int]@));
        let code: Option<u64> = if parameters[i].as_str().is_empty() {
            Some(0)
        } else {
            text::parse_number(parameters[i].as_str())
        };
        out.push(code);
        i += 1;
        assert(out@ =~= wanted.take(i as int));
    }
    assert(wanted.take(i as int) =~= wanted);
    out
}

/// Apply an escape's parameters to the style.
fn apply_codes(style: Style, parameters: &Vec<String>) -> (r: Style)
    ensures
        r == codes_applied(style, codes_of(text::texts(parameters@))),
{
    let codes: Vec<Option<u64>> = read_codes(parameters);
    let mut out: Style = style;
    let mut i: usize = 0;
    assert(codes@.skip(0) =~= codes@);
    while i < codes.len()
        invariant
            i <= codes@.len(),
            codes_applied(out, codes@.skip(i as int)) == codes_applied(style, codes@),
        decreases codes@.len() - i,
    {
        let ghost rest = codes@.skip(i as int);
        assert(rest[0] == codes@[i as int]);
        assert(rest.skip(1) =~= codes@.skip(i + 1));
        match codes[i] {
            Some(code) => if code == 38 || code == 48 {
                let (colour, next): (Option<Colour>, usize) = read_colour(&codes, i);
                assert(rest.skip(colour_places(rest)) =~= codes@.skip(next as int));
                if colour.is_some() {
                    if code == 38 {
                        out.foreground = colour;
                    } else {
                        out.background = colour;
                    }
                }
                i = next;
            } else {
                out = apply_code(out, code);
                i += 1;
            },
            None => {
                i += 1;
            },
        }
    }
    assert(codes@.skip(i as int) =~= Seq::empty());
    out
}

/// Add the stretch collected so far, where there is one.
fn flush(out: &mut Vec<Span>, style: Style, collected: String)
    ensures
        span_views(final(out)@) == span_views(old(out)@) + flushed(style, collected@),
{
    let ghost before = out@;
    if !collected.as_str().is_empty() {
        let span = Span { style, text: collected };
        out.push(span);
    }
    assert(span_views(out@) =~= span_views(before) + flushed(style, collected@));
}

/// Cut a line into stretches of one style each.
pub fn styled(line: &str) -> (r: Vec<Span>)
    ensures
        span_views(r@) == spans_of(line@),
{
    let chars: Vec<char> = text::to_chars(line);
    let mut out: Vec<Span> = Vec::new();
    let mut style: Style = no_style();
    let mut collected: String = String::new();
    let mut i: usize = 0;
    proof {
        assert(line@.skip(0) =~= line@);
        assert(span_views(out@) + spans_of(line@) =~= spans_of(line@));
        assert(collected@ =~= Seq::empty());
    }
    while i < chars.len()
        invariant
            chars@ == line@,
            i <= chars@.len(),
            span_views(out@) + spans_from(line@.skip(i as int), style, collected@) == spans_of(
                line@,
            ),
        decreases chars@.len() - i,
    {
        let ghost rest = line@.skip(i as int);
        let ghost before = span_views(out@);
        let ghost style_before = style;
        let ghost text_before = collected@;
        if chars[i] == '\u{1b}' {
            flush(&mut out, style, collected);
            collected = String::new();
            if i + 1 < chars.len() && chars[i + 1] == '[' {
                let start: usize = i + 2;
                let ghost inside = line@.skip(start as int);
                assert(rest.skip(2) =~= inside);
                let mut k: usize = start;
                assert(inside.skip(0) =~= inside);
                assert(Seq::<char>::empty() + before_letter(inside) =~= before_letter(inside));
                while k < chars.len() && !is_letter(chars[k])
                    invariant
                        chars@ == line@,
                        start <= k <= chars@.len(),
                        inside == line@.skip(start as int),
                        log::past_letter(inside) == log::past_letter(inside.skip(k - start)),
                        before_letter(inside) == inside.take(k - start) + before_letter(
                            inside.skip(k - start),
                        ),
                    decreases chars@.len() - k,
                {
                    let ghost here = inside.skip(k - start);
                    assert(here[0] == chars@[k as int]);
                    assert(here.skip(1) =~= inside.skip(k + 1 - start));
                    assert(inside.take(k + 1 - start) =~= inside.take(k - start) + seq![here[0]]);
                    assert(inside.take(k - start) + (seq![here[0]] + before_letter(here.skip(1)))
                        =~= inside.take(k + 1 - start) + before_letter(here.skip(1)));
                    k += 1;
                }
                let ghost here = inside.skip(k - start);
                proof {
                    assert(before_letter(here) =~= Seq::empty());
                    assert(before_letter(inside) =~= inside.take(k - start));
                }
                if k < chars.len() {
                    assert(here[0] == chars@[k as int]);
                    if chars[k] == 'm' {
                        let parameters: String = text::text_between(&chars, start, k);
                        assert(parameters@ =~= before_letter(inside));
                        let parts: Vec<String> = list::split(parameters.as_str(), ';');
                        style = apply_codes(style, &parts);
                    }
                    assert(here.skip(1) =~= line@.skip(k + 1));
                    i = k + 1;
                } else {
                    assert(here =~= Seq::empty());
                    assert(line@.skip(k as int) =~= Seq::empty());
                    i = k;
                }
                assert(log::past_letter(inside) == line@.skip(i as int));
                assert(style == restyled(style_before, inside));
            } else {
                assert(rest.skip(1) =~= line@.skip(i + 1));
                i += 1;
            }
            proof {
                assert(collected@ =~= Seq::empty());
                assert(span_views(out@) + spans_from(line@.skip(i as int), style, collected@)
                    =~= before + spans_from(rest, style_before, text_before));
            }
        } else {
            collected.push(chars[i]);
            assert(rest.skip(1) =~= line@.skip(i + 1));
            i += 1;
        }
    }
    assert(line@.skip(i as int) =~= Seq::empty());
    flush(&mut out, style, collected);
    out
}

/// Whether `c` is an ASCII letter.
fn is_letter(c: char) -> (r: bool)
    ensures
        r == log::ascii_letter(c),
{
    ('a' <= c && c <= 'z') || ('A' <= c && c <= 'Z')
}

/// A collapsible section of a job's log, or the lines outside any.
#[derive(Debug)]
pub struct Section {
    /// The group's title; `None` for lines outside any group.
    pub title: Option<String>,
    /// Whether the section holds an error, so that it starts out expanded.
    pub expanded: bool,
    /// The lines, each in stretches of one style.
    pub lines: Vec<Vec<Span>>,
}

/// What a section holds.
pub ghost struct SectionView {
    pub title: Option<Seq<char>>,
    pub expanded: bool,
    pub lines: Seq<Seq<SpanView>>,
}

/// What the lines of a section hold.
pub open spec fn line_views(lines: Seq<Vec<Span>>) -> Seq<Seq<SpanView>> {
    lines.map_values(|l: Vec<Span>| span_views(l@))
}

impl View for Section {
    type V = SectionView;

    open spec fn view(&self) -> SectionView {
        SectionView {
            title: types::optional_text(self.title),
            expanded: self.expanded,
            lines: line_views(self.lines@),
        }
    }
}

/// What the sections of a log hold.
pub open spec fn section_views(sections: Seq<Section>) -> Seq<SectionView> {
    sections.map_values(|s: Section| s@)
}

/// A section with no lines yet.
pub open spec fn empty_section(title: Option<Seq<char>>) -> SectionView {
    SectionView { title, expanded: false, lines: Seq::empty() }
}

/// The sections with the open one closed, unless it is neither titled nor has
/// a line.
pub open spec fn closed_with(done: Seq<SectionView>, open: SectionView) -> Seq<SectionView> {
    if open.title is None && open.lines.len() == 0 {
        done
    } else {
        done.push(open)
    }
}

/// The closed sections and the open one after one more line: a group marker
/// closes the open section and opens a titled one, an end marker closes it, and
/// any other line goes into it, styled, and expands it when it is an error.
pub open spec fn line_taken(
    state: (Seq<SectionView>, SectionView),
    raw: Seq<char>,
) -> (Seq<SectionView>, SectionView) {
    let (done, open) = state;
    let line = log::without_time_stamp(raw);
    let bare = log::without_ansi(line);
    match log::after_prefix(bare, "##[group]"@) {
        Some(title) => (closed_with(done, open), empty_section(Some(title))),
        None => if bare == "##[endgroup]"@ {
            (closed_with(done, open), empty_section(None))
        } else {
            (
                done,
                SectionView {
                    expanded: open.expanded || "##[error]"@.is_prefix_of(bare),
                    lines: open.lines.push(spans_of(line)),
                    ..open
                },
            )
        },
    }
}

/// The closed sections and the open one after these lines.
pub open spec fn lines_taken(lines: Seq<Seq<char>>) -> (Seq<SectionView>, SectionView)
    decreases lines.len(),
{
    if lines.len() == 0 {
        (Seq::empty(), empty_section(None))
    } else {
        line_taken(lines_taken(lines.drop_last()), lines.last())
    }
}

/// The sections of a job's raw log.
pub open spec fn sections_of(raw: Seq<char>) -> Seq<SectionView> {
    let (done, open) = lines_taken(text::lines_of(raw));
    closed_with(done, open)
}

/// Close the open section, unless it is neither titled nor has a line.
fn close(done: &mut Vec<Section>, open: Section)
    ensures
        section_views(final(done)@) == closed_with(section_views(old(done)@), open@),
{
    let ghost before = done@;
    assert(line_views(open.lines@).len() == open.lines@.len());
    if open.title.is_some() || open.lines.len() > 0 {
        done.push(open);
        assert(section_views(done@) =~= section_views(before).push(open@));
    }
}

/// A section with no lines yet.
fn new_section(title: Option<String>) -> (r: Section)
    ensures
        r@ == empty_section(types::optional_text(title)),
{
    let section = Section { title, expanded: false, lines: Vec::new() };
    assert(line_views(section.lines@) =~= Seq::empty());
    section
}

/// Render a job's raw log in sections.
pub fn sections(raw: &str) -> (r: Vec<Section>)
    ensures
        section_views(r@) == sections_of(raw@),
{
    let lines: Vec<String> = text::lines(raw);
    let ghost views = text::texts(lines@);
    let mut done: Vec<Section> = Vec::new();
    let mut open: Section = new_section(None);
    let mut i: usize = 0;
    proof {
        assert(section_views(done@) =~= Seq::empty());
        assert(views.take(0) =~= Seq::empty());
    }
    while i < lines.len()
        invariant
            i <= lines@.len(),
            views == text::texts(lines@),
            (section_views(done@), open@) == lines_taken(views.take(i as int)),
        decreases lines@.len() - i,
    {
        assert(views.take(i + 1).drop_last() =~= views.take(i as int));
        assert(views.take(i + 1).last() == lines@[i as int]@);
        let line: String = log::strip_timestamp(lines[i].as_str());
        let bare: String = log::strip_ansi(line.as_str());
        match log::strip_prefix(bare.as_str(), "##[group]") {
            Some(title) => {
                close(&mut done, open);
                open = new_section(Some(title));
            },
            None => {
                if text::same_text(bare.as_str(), "##[endgroup]") {
                    close(&mut done, open);
                    open = new_section(None);
                } else {
                    let error: bool = text::starts_with(bare.as_str(), "##[error]");
                    let spans: Vec<Span> = styled(line.as_str());
                    let ghost before = open.lines@;
                    let mut lines_so_far: Vec<Vec<Span>> = open.lines;
                    lines_so_far.push(spans);
                    assert(line_views(lines_so_far@) =~= line_views(before).push(
                        span_views(spans@),
                    ));
                    open = Section {
                        title: open.title,
                        expanded: open.expanded || error,
                        lines: lines_so_far,
                    };
                }
            },
        }
        i += 1;
    }
    assert(views.take(i as int) =~= views);
    close(&mut done, open);
    done
}

/// Whether some line of a section is an error.
pub open spec fn holds_error(section: SectionView) -> bool {
    exists|j: int| 0 <= j < section.lines.len() && is_error(#[trigger] section.lines[j])
}

/// Whether a line is an error.
pub open spec fn is_error(line: Seq<SpanView>) -> bool {
    "##[error]"@.is_prefix_of(plain(line))
}

/// The sections, closed and open, are expanded just where they hold an error.
proof fn lemma_expanded_on_error(lines: Seq<Seq<char>>)
    ensures
        forall|i: int|
            0 <= i < lines_taken(lines).0.len() ==> (#[trigger] lines_taken(lines).0[i]).expanded
                == holds_error(lines_taken(lines).0[i]),
        lines_taken(lines).1.expanded == holds_error(lines_taken(lines).1),
    decreases lines.len(),
{
    if lines.len() > 0 {
        let before = lines_taken(lines.drop_last());
        let after = lines_taken(lines);
        lemma_expanded_on_error(lines.drop_last());
        let line = log::without_time_stamp(lines.last());
        law_spans_keep_the_text(line);
        let bare = log::without_ansi(line);
        if log::after_prefix(bare, "##[group]"@) is None && bare != "##[endgroup]"@ {
            let old_lines = before.1.lines;
            let new_lines = after.1.lines;
            assert(new_lines == old_lines.push(spans_of(line)));
            assert(is_error(spans_of(line)) == "##[error]"@.is_prefix_of(bare));
            if holds_error(before.1) {
                let j = choose|j: int|
                    0 <= j < old_lines.len() && is_error(#[trigger] old_lines[j]);
                assert(is_error(new_lines[j]));
            }
            if is_error(spans_of(line)) {
                assert(is_error(new_lines[old_lines.len() as int]));
            }
            if holds_error(after.1) {
                let j = choose|j: int|
                    0 <= j < new_lines.len() && is_error(#[trigger] new_lines[j]);
                if j < old_lines.len() {
                    assert(is_error(old_lines[j]));
                }
            }
        } else {
            assert(!holds_error(after.1));
            assert forall|i: int| 0 <= i < after.0.len() implies (#[trigger] after.0[i]).expanded
                == holds_error(after.0[i]) by {
                if i < before.0.len() {
                    assert(after.0[i] == before.0[i]);
                } else {
                    assert(after.0[i] == before.1);
                }
            }
        }
    }
}

/// A section starts out expanded just where it holds an error.
pub proof fn law_expanded_on_error(raw: Seq<char>, i: int)
    requires
        0 <= i < sections_of(raw).len(),
    ensures
        sections_of(raw)[i].expanded == holds_error(sections_of(raw)[i]),
{
    lemma_expanded_on_error(text::lines_of(raw));
}

/// Each code sets one thing and leaves the rest: bold, italic and underline and
/// their ends, and the colour in front or behind, the eight and the bright
/// eight. Any other code that stands alone changes nothing.
pub proof fn law_each_code_sets_one_thing(style: Style, n: u8, code: u64)
    requires
        n < 8,
    ensures
        code_applied(style, 1) == (Style { bold: true, ..style }),
        code_applied(style, 3) == (Style { italic: true, ..style }),
        code_applied(style, 4) == (Style { underline: true, ..style }),
        code_applied(style, 22) == (Style { bold: false, ..style }),
        code_applied(style, 23) == (Style { italic: false, ..style }),
        code_applied(style, 24) == (Style { underline: false, ..style }),
        code_applied(style, 39) == (Style { foreground: None, ..style }),
        code_applied(style, 49) == (Style { background: None, ..style }),
        code_applied(style, (30 + n) as u64) == (Style {
            foreground: Some(Colour::Indexed(n)),
            ..style
        }),
        code_applied(style, (40 + n) as u64) == (Style {
            background: Some(Colour::Indexed(n)),
            ..style
        }),
        code_applied(style, (90 + n) as u64) == (Style {
            foreground: Some(Colour::Indexed((8 + n) as u8)),
            ..style
        }),
        code_applied(style, (100 + n) as u64) == (Style {
            background: Some(Colour::Indexed((8 + n) as u8)),
            ..style
        }),
        code == 2 || 5 <= code < 22 || 25 <= code < 30 || 50 <= code < 90 || code == 98 || code
            == 99 || code > 107 ==> code_applied(style, code) == style,
        !plain_style().bold && !plain_style().italic && !plain_style().underline,
        plain_style().foreground is None && plain_style().background is None,
{
}

/// Codes apply one after the other, each to what the ones before made; one that
/// is no number does nothing, and a colour takes its operands along.
pub proof fn law_codes_apply_in_order(
    style: Style,
    code: u64,
    a: u64,
    b: u64,
    c: u64,
    rest: Seq<Option<u64>>,
)
    ensures
        codes_applied(style, Seq::empty()) == style,
        code != 38 && code != 48 ==> codes_applied(style, seq![Some(code)] + rest)
            == codes_applied(code_applied(style, code), rest),
        codes_applied(style, seq![None] + rest) == codes_applied(style, rest),
        a < 256 ==> codes_applied(style, seq![Some(38u64), Some(5u64), Some(a)] + rest)
            == codes_applied(
            Style { foreground: Some(Colour::Indexed(a as u8)), ..style },
            rest,
        ),
        a < 256 ==> codes_applied(style, seq![Some(48u64), Some(5u64), Some(a)] + rest)
            == codes_applied(
            Style { background: Some(Colour::Indexed(a as u8)), ..style },
            rest,
        ),
        a >= 256 ==> codes_applied(style, seq![Some(38u64), Some(5u64), Some(a)] + rest)
            == codes_applied(style, rest),
        a < 256 && b < 256 && c < 256 ==> codes_applied(
            style,
            seq![Some(38u64), Some(2u64), Some(a), Some(b), Some(c)] + rest,
        ) == codes_applied(
            Style { foreground: Some(Colour::Rgb(a as u8, b as u8, c as u8)), ..style },
            rest,
        ),
        a < 256 && b < 256 && c < 256 ==> codes_applied(
            style,
            seq![Some(48u64), Some(2u64), Some(a), Some(b), Some(c)] + rest,
        ) == codes_applied(
            Style { background: Some(Colour::Rgb(a as u8, b as u8, c as u8)), ..style },
            rest,
        ),
{
    assert((seq![Some(code)] + rest).skip(1) =~= rest);
    assert((seq![None] + rest).skip(1) =~= rest);
    assert((seq![Some(38u64), Some(5u64), Some(a)] + rest).skip(3) =~= rest);
    assert((seq![Some(48u64), Some(5u64), Some(a)] + rest).skip(3) =~= rest);
    assert((seq![Some(38u64), Some(2u64), Some(a), Some(b), Some(c)] + rest).skip(5) =~= rest);
    assert((seq![Some(48u64), Some(2u64), Some(a), Some(b), Some(c)] + rest).skip(5) =~= rest);
}

/// Text without escapes is collected on.
proof fn lemma_collects(a: Seq<char>, rest: Seq<char>, style: Style, collected: Seq<char>)
    requires
        !a.contains('\u{1b}'),
    ensures
        spans_from(a + rest, style, collected) == spans_from(rest, style, collected + a),
    decreases a.len(),
{
    if a.len() == 0 {
        assert(a + rest =~= rest);
        assert(collected + a =~= collected);
    } else {
        let more = a.skip(1);
        assert(a.contains(a[0]));
        assert((a + rest)[0] == a[0]);
        assert((a + rest).skip(1) =~= more + rest);
        if more.contains('\u{1b}') {
            let k = choose|k: int| 0 <= k < more.len() && more[k] == '\u{1b}';
            assert(a[k + 1] == '\u{1b}');
        }
        lemma_collects(more, rest, style, collected.push(a[0]));
        assert(collected.push(a[0]) + more =~= collected + a);
    }
}

/// What stands before the first letter, and what behind.
proof fn lemma_inside(inside: Seq<char>, last: char, b: Seq<char>)
    requires
        forall|i: int| 0 <= i < inside.len() ==> !log::ascii_letter(#[trigger] inside[i]),
        log::ascii_letter(last),
    ensures
        before_letter(inside + seq![last] + b) == inside,
        log::past_letter(inside + seq![last] + b) == b,
    decreases inside.len(),
{
    let s = inside + seq![last] + b;
    if inside.len() == 0 {
        assert(s[0] == last);
        assert(s.skip(1) =~= b);
    } else {
        let more = inside.skip(1);
        assert(s[0] == inside[0]);
        assert(s.skip(1) =~= more + seq![last] + b);
        assert forall|i: int| 0 <= i < more.len() implies !log::ascii_letter(
            #[trigger] more[i],
        ) by {
            assert(more[i] == inside[i + 1]);
        }
        lemma_inside(more, last, b);
        assert(seq![inside[0]] + more =~= inside);
    }
}

/// An escape that ends in `m` styles what follows it, by its codes between
/// semicolons, and not what stands before; one that ends in any other letter
/// changes no style. Neither leaves a trace in the text.
pub proof fn law_escape_styles_what_follows(
    a: Seq<char>,
    inside: Seq<char>,
    last: char,
    b: Seq<char>,
)
    requires
        !a.contains('\u{1b}') && a.len() > 0,
        !b.contains('\u{1b}') && b.len() > 0,
        forall|i: int|
            0 <= i < inside.len() ==> !('a' <= #[trigger] inside[i] <= 'z' || 'A' <= inside[i]
                <= 'Z'),
        'a' <= last <= 'z' || 'A' <= last <= 'Z',
    ensures
        spans_of(a + seq!['\u{1b}', '['] + inside + seq![last] + b) == seq![
            SpanView { style: plain_style(), text: a },
            SpanView {
                style: if last == 'm' {
                    codes_applied(plain_style(), codes_of(list::pieces(inside, ';')))
                } else {
                    plain_style()
                },
                text: b,
            },
        ],
{
    let line = a + seq!['\u{1b}', '['] + inside + seq![last] + b;
    let tail = seq!['\u{1b}', '['] + inside + seq![last] + b;
    let none = Seq::<char>::empty();
    let style = restyled(plain_style(), inside + seq![last] + b);
    assert(line =~= a + tail);
    lemma_collects(a, tail, plain_style(), none);
    assert(none + a =~= a);
    assert(tail.skip(2) =~= inside + seq![last] + b);
    lemma_inside(inside, last, b);
    assert((inside + seq![last] + b)[inside.len() as int] == last);
    lemma_collects(b, none, style, none);
    assert(b + none =~= b);
    assert(none + b =~= b);
    assert(spans_of(line) =~= seq![SpanView { style: plain_style(), text: a }] + seq![
        SpanView { style, text: b },
    ]);
}

/// An escape's codes are the numbers between its semicolons, in their order,
/// and one that is left out is 0.
pub proof fn law_codes_between_semicolons(n: u64, rest: Seq<char>)
    ensures
        codes_of(list::pieces(text::decimal(n as nat).push(';') + rest, ';')) == seq![Some(n)]
            + codes_of(list::pieces(rest, ';')),
        codes_of(list::pieces(text::decimal(n as nat), ';')) == seq![Some(n)],
        codes_of(list::pieces(seq![';'] + rest, ';')) == seq![Some(0u64)] + codes_of(
            list::pieces(rest, ';'),
        ),
        codes_of(list::pieces(Seq::empty(), ';')) == seq![Some(0u64)],
{
    let digits = text::decimal(n as nat);
    let none = Seq::<char>::empty();
    text::law_number_round_trip(n);
    text::law_decimal_is_digits(n as nat);
    if digits.contains(';') {
        let k = choose|k: int| 0 <= k < digits.len() && digits[k] == ';';
        assert('0' <= digits[k] <= '9');
    }
    list::law_first_piece_first(digits, rest, ';');
    list::law_first_piece_first(none, rest, ';');
    assert(none.push(';') + rest =~= seq![';'] + rest);
    let pieces = list::pieces(rest, ';');
    assert(codes_of(seq![digits] + pieces) =~= seq![Some(n)] + codes_of(pieces));
    assert(codes_of(seq![none] + pieces) =~= seq![Some(0u64)] + codes_of(pieces));
    assert(codes_of(seq![digits]) =~= seq![Some(n)]);
    assert(codes_of(seq![none]) =~= seq![Some(0u64)]);
}

/// The palette's cube steps each colour from none in six steps, red slowest and
/// blue fastest; behind it the greys step evenly; and a colour given by its red,
/// green and blue is that.
pub proof fn law_palette_steps(r: int, g: int, b: int, k: int)
    requires
        0 <= r < 6 && 0 <= g < 6 && 0 <= b < 6,
        0 <= k < 24,
    ensures
        ({
            let cell = rgb_of(Colour::Indexed((16 + 36 * r + 6 * g + b) as u8));
            &&& cell.0 == if r == 0 { 0 } else { 55 + 40 * r }
            &&& cell.1 == if g == 0 { 0 } else { 55 + 40 * g }
            &&& cell.2 == if b == 0 { 0 } else { 55 + 40 * b }
        }),
        ({
            let grey = rgb_of(Colour::Indexed((232 + k) as u8));
            grey.0 == 8 + 10 * k && grey.1 == grey.0 && grey.2 == grey.0
        }),
        rgb_of(Colour::Rgb(r as u8, g as u8, b as u8)) == (r as u8, g as u8, b as u8),
{
    let n = 36 * r + 6 * g + b;
    assert(n / 36 == r && n % 6 == b);
    assert(n / 6 == 6 * r + g);
    assert((6 * r + g) % 6 == g);
}

/// The palette's sixteen colours by name: black, red, green, yellow, blue,
/// magenta, cyan and white, and the bright ones of each.
pub proof fn law_named_colours()
    ensures
        rgb_of(Colour::Indexed(0)) == (40u8, 42u8, 46u8),
        rgb_of(Colour::Indexed(1)) == (204u8, 102u8, 102u8),
        rgb_of(Colour::Indexed(2)) == (181u8, 189u8, 104u8),
        rgb_of(Colour::Indexed(3)) == (240u8, 198u8, 116u8),
        rgb_of(Colour::Indexed(4)) == (129u8, 162u8, 190u8),
        rgb_of(Colour::Indexed(5)) == (178u8, 148u8, 187u8),
        rgb_of(Colour::Indexed(6)) == (138u8, 190u8, 183u8),
        rgb_of(Colour::Indexed(7)) == (197u8, 200u8, 198u8),
        rgb_of(Colour::Indexed(8)) == (150u8, 152u8, 150u8),
        rgb_of(Colour::Indexed(9)) == (213u8, 78u8, 83u8),
        rgb_of(Colour::Indexed(10)) == (185u8, 202u8, 74u8),
        rgb_of(Colour::Indexed(11)) == (231u8, 197u8, 71u8),
        rgb_of(Colour::Indexed(12)) == (122u8, 166u8, 218u8),
        rgb_of(Colour::Indexed(13)) == (195u8, 151u8, 216u8),
        rgb_of(Colour::Indexed(14)) == (112u8, 192u8, 177u8),
        rgb_of(Colour::Indexed(15)) == (255u8, 255u8, 255u8),
{
}

/// A group marker, behind a time stamp or not, opens a section of its own with
/// the title that follows it; what was open is closed, and kept where it has a
/// title or a line.
pub proof fn law_group_opens_a_section(lines: Seq<Seq<char>>, raw: Seq<char>, title: Seq<char>)
    requires
        log::without_ansi(log::without_time_stamp(raw)) == "##[group]"@ + title,
    ensures
        ({
            let (done, open) = lines_taken(lines);
            let (closed, opened) = lines_taken(lines.push(raw));
            &&& opened.title == Some(title) && opened.lines.len() == 0 && !opened.expanded
            &&& open.title is Some || open.lines.len() > 0 ==> closed == done.push(open)
            &&& open.title is None && open.lines.len() == 0 ==> closed == done
        }),
{
    let group = "##[group]"@;
    assert(lines.push(raw).drop_last() =~= lines);
    assert(group.is_prefix_of(group + title)) by {
        assert((group + title).take(group.len() as int) =~= group);
    }
    assert((group + title).skip(group.len() as int) =~= title);
}

/// An end marker closes the open section, and what follows stands outside any.
pub proof fn law_end_closes_the_section(lines: Seq<Seq<char>>, raw: Seq<char>)
    requires
        log::without_ansi(log::without_time_stamp(raw)) == "##[endgroup]"@,
    ensures
        ({
            let (done, open) = lines_taken(lines);
            let (closed, opened) = lines_taken(lines.push(raw));
            &&& opened.title is None && opened.lines.len() == 0 && !opened.expanded
            &&& open.title is Some || open.lines.len() > 0 ==> closed == done.push(open)
            &&& open.title is None && open.lines.len() == 0 ==> closed == done
        }),
{
    reveal_strlit("##[group]");
    reveal_strlit("##[endgroup]");
    assert("##[group]"@[3] == 'g' && "##[endgroup]"@[3] == 'e');
    assert(lines.push(raw).drop_last() =~= lines);
}

/// Any other line goes to the end of the open section, as it is but for the
/// time stamp, and no section is opened or closed.
pub proof fn law_line_goes_into_the_open_section(lines: Seq<Seq<char>>, raw: Seq<char>)
    requires
        !"##[group]"@.is_prefix_of(log::without_ansi(log::without_time_stamp(raw))),
        log::without_ansi(log::without_time_stamp(raw)) != "##[endgroup]"@,
    ensures
        ({
            let (done, open) = lines_taken(lines);
            let (closed, opened) = lines_taken(lines.push(raw));
            &&& closed == done && opened.title == open.title
            &&& opened.lines == open.lines.push(spans_of(log::without_time_stamp(raw)))
            &&& open.expanded ==> opened.expanded
        }),
{
    assert(lines.push(raw).drop_last() =~= lines);
}

/// A log's sections are those closed on the way and the one still open at its
/// end, where that has a title or a line.
pub proof fn law_last_section_is_kept(raw: Seq<char>)
    ensures
        ({
            let (done, open) = lines_taken(text::lines_of(raw));
            &&& open.title is Some || open.lines.len() > 0 ==> sections_of(raw) == done.push(open)
            &&& open.title is None && open.lines.len() == 0 ==> sections_of(raw) == done
        }),
        lines_taken(Seq::empty()).0.len() == 0,
        lines_taken(Seq::empty()).1.title is None && lines_taken(Seq::empty()).1.lines.len() == 0,
{
}

} // verus!
