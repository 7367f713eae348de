//! ANSI "select graphic rendition" escape sequences for colors and styles.

use vstd::prelude::*;
use crate::text::{decimal, digit_char, push_char, push_decimal};

verus! {

/// The sixteen foreground and sixteen background colors of an ANSI terminal.
#[derive(Clone, Copy, Debug, PartialEq, Eq, Structural)]
pub enum Color {
    Black,
    Red,
    Green,
    Yellow,
    Blue,
    Purple,
    Cyan,
    White,
    HighIntensityBlack,
    HighIntensityRed,
    HighIntensityGreen,
    HighIntensityYellow,
    HighIntensityBlue,
    HighIntensityPurple,
    HighIntensityCyan,
    HighIntensityWhite,
    BgBlack,
    BgRed,
    BgGreen,
    BgYellow,
    BgBlue,
    BgPurple,
    BgCyan,
    BgWhite,
    HighIntensityBgBlack,
    HighIntensityBgRed,
    HighIntensityBgGreen,
    HighIntensityBgYellow,
    HighIntensityBgBlue,
    HighIntensityBgPurple,
    HighIntensityBgCyan,
    HighIntensityBgWhite,
}

/// Text styles.
#[derive(Clone, Copy, Debug, PartialEq, Eq, Structural)]
pub enum Style {
    Bold,
    Underline,
}

/// The SGR code of a foreground color; `None` for the background colors.
pub open spec fn fg_code(color: Color) -> Option<nat> {
    match color {
        Color::Black => Some(30),
        Color::Red => Some(31),
        Color::Green => Some(32),
        Color::Yellow => Some(33),
        Color::Blue => Some(34),
        Color::Purple => Some(35),
        Color::Cyan => Some(36),
        Color::White => Some(37),
        Color::HighIntensityBlack => Some(90),
        Color::HighIntensityRed => Some(91),
        Color::HighIntensityGreen => Some(92),
        Color::HighIntensityYellow => Some(93),
        Color::HighIntensityBlue => Some(94),
        Color::HighIntensityPurple => Some(95),
        Color::HighIntensityCyan => Some(96),
        Color::HighIntensityWhite => Some(97),
        _ => None,
    }
}

/// The SGR code of a background color; `None` for the foreground colors.
pub open spec fn bg_code(color: Color) -> Option<nat> {
    match color {
        Color::BgBlack => Some(40),
        Color::BgRed => Some(41),
        Color::BgGreen => Some(42),
        Color::BgYellow => Some(43),
        Color::BgBlue => Some(44),
        Color::BgPurple => Some(45),
        Color::BgCyan => Some(46),
        Color::BgWhite => Some(47),
        Color::HighIntensityBgBlack => Some(100),
        Color::HighIntensityBgRed => Some(101),
        Color::HighIntensityBgGreen => Some(102),
        Color::HighIntensityBgYellow => Some(103),
        Color::HighIntensityBgBlue => Some(104),
        Color::HighIntensityBgPurple => Some(105),
        Color::HighIntensityBgCyan => Some(106),
        Color::HighIntensityBgWhite => Some(107),
        _ => None,
    }
}

/// The SGR code of a style.
pub open spec fn style_code(style: Style) -> nat {
    match style {
        Style::Bold => 1,
        Style::Underline => 4,
    }
}

/// `text` between the escape `ESC [ codes m` and the reset `ESC [ 0 m`.
pub open spec fn sgr(codes: Seq<char>, text: Seq<char>) -> Seq<char> {
    seq!['\x1b', '['] + codes + seq!['m'] + text + seq!['\x1b', '[', '0', 'm']
}

/// The codes joined by `;`, each in decimal.
pub open spec fn join_codes(codes: Seq<nat>) -> Seq<char>
    decreases codes.len(),
{
    if codes.len() == 0 {
        seq![]
    } else if codes.len() == 1 {
        decimal(codes[0])
    } else {
        join_codes(codes.drop_last()) + seq![';'] + decimal(codes.last())
    }
}

/// What `color_fg` gives: the text in the foreground color, or the text
/// unchanged when the color is a background color.
pub open spec fn colored_fg(input: Seq<char>, color: Color) -> Seq<char> {
    match fg_code(color) {
        Some(code) => sgr(decimal(code), input),
        None => input,
    }
}

/// What `color_bg` gives: the text on the background color, or the text
/// unchanged when the color is a foreground color.
pub open spec fn colored_bg(input: Seq<char>, color: Color) -> Seq<char> {
    match bg_code(color) {
        Some(code) => sgr(decimal(code), input),
        None => input,
    }
}

/// What `apply_style` gives.
pub open spec fn styled(input: Seq<char>, style: Style) -> Seq<char> {
    sgr(decimal(style_code(style)), input)
}

/// The codes that `style_text` emits, in order: the foreground code (0 for a
/// color that has none), the background code (0 likewise), the style code.
pub open spec fn style_codes(fg: Option<Color>, bg: Option<Color>, style: Option<Style>) -> Seq<nat> {
    let a: Seq<nat> = match fg {
        Some(c) => seq![
            match fg_code(c) {
                Some(code) => code,
                None => 0,
            },
        ],
        None => seq![],
    };
    let b: Seq<nat> = match bg {
        Some(c) => seq![
            match bg_code(c) {
                Some(code) => code,
                None => 0,
            },
        ],
        None => seq![],
    };
    let s: Seq<nat> = match style {
        Some(st) => seq![style_code(st)],
        None => seq![],
    };
    a + b + s
}

/// What `style_text` gives.
pub open spec fn styled_text(
    input: Seq<char>,
    fg: Option<Color>,
    bg: Option<Color>,
    style: Option<Style>,
) -> Seq<char> {
    sgr(join_codes(style_codes(fg, bg, style)), input)
}

fn fg_code_of(color: Color) -> (code: Option<u8>)
    ensures
        match fg_code(color) {
            Some(c) => code == Some(c as u8) && c < 256,
            None => code is None,
        },
{
    match color {
        Color::Black => Some(30),
        Color::Red => Some(31),
        Color::Green => Some(32),
        Color::Yellow => Some(33),
        Color::Blue => Some(34),
        Color::Purple => Some(35),
        Color::Cyan => Some(36),
        Color::White => Some(37),
        Color::HighIntensityBlack => Some(90),
        Color::HighIntensityRed => Some(91),
        Color::HighIntensityGreen => Some(92),
        Color::HighIntensityYellow => Some(93),
        Color::HighIntensityBlue => Some(94),
        Color::HighIntensityPurple => Some(95),
        Color::HighIntensityCyan => Some(96),
        Color::HighIntensityWhite => Some(97),
        _ => None,
    }
}

fn bg_code_of(color: Color) -> (code: Option<u8>)
    ensures
        match bg_code(color) {
            Some(c) => code == Some(c as u8) && c < 256,
            None => code is None,
        },
{
    match color {
        Color::BgBlack => Some(40),
        Color::BgRed => Some(41),
        Color::BgGreen => Some(42),
        Color::BgYellow => Some(43),
        Color::BgBlue => Some(44),
        Color::BgPurple => Some(45),
        Color::BgCyan => Some(46),
        Color::BgWhite => Some(47),
        Color::HighIntensityBgBlack => Some(100),
        Color::HighIntensityBgRed => Some(101),
        Color::HighIntensityBgGreen => Some(102),
        Color::HighIntensityBgYellow => Some(103),
        Color::HighIntensityBgBlue => Some(104),
        Color::HighIntensityBgPurple => Some(105),
        Color::HighIntensityBgCyan => Some(106),
        Color::HighIntensityBgWhite => Some(107),
        _ => None,
    }
}

fn style_code_of(style: Style) -> (code: u8)
    ensures
        code == style_code(style),
{
    match style {
        Style::Bold => 1,
        Style::Underline => 4,
    }
}

/// Appends `ESC [`.
fn push_escape_start(s: &mut String)
    ensures
        final(s)@ == old(s)@ + seq!['\x1b', '['],
{
    push_char(s, '\x1b');
    push_char(s, '[');
}

/// Appends `m`, the text and the reset sequence.
fn push_body_and_reset(s: &mut String, input: &str)
    ensures
        final(s)@ == old(s)@ + seq!['m'] + input@ + seq!['\x1b', '[', '0', 'm'],
{
    push_char(s, 'm');
    s.append(input);
    push_char(s, '\x1b');
    push_char(s, '[');
    push_char(s, '0');
    push_char(s, 'm');
}

/// `input` wrapped in the escape sequence of a single code.
fn wrap_code(input: &str, code: u8) -> (res: String)
    ensures
        res@ == sgr(decimal(code as nat), input@),
{
    let mut s = String::new();
    push_escape_start(&mut s);
    push_decimal(&mut s, code as u64);
    push_body_and_reset(&mut s, input);
    s
}

/// Colors the text with a foreground color; a background color leaves the
/// text as it is.
pub fn color_fg(input: &str, color: Color) -> (res: String)
    ensures
        res@ == colored_fg(input@, color),
{
    match fg_code_of(color) {
        Some(code) => wrap_code(input, code),
        None => String::from_str(input),
    }
}

/// Puts the text on a background color; a foreground color leaves the text
/// as it is.
pub fn color_bg(input: &str, color: Color) -> (res: String)
    ensures
        res@ == colored_bg(input@, color),
{
    match bg_code_of(color) {
        Some(code) => wrap_code(input, code),
        None => String::from_str(input),
    }
}

/// Applies a text style.
pub fn apply_style(input: &str, style: Style) -> (res: String)
    ensures
        res@ == styled(input@, style),
{
    wrap_code(input, style_code_of(style))
}

/// Applies any of a foreground color, a background color and a style in one
/// escape sequence, their codes joined by `;`.
pub fn style_text(input: &str, fg_color: Option<Color>, bg_color: Option<Color>, style: Option<Style>) -> (res: String)
    ensures
        res@ == styled_text(input@, fg_color, bg_color, style),
{
    let mut codes: Vec<u8> = Vec::new();
    if let Some(color) = fg_color {
        let fg = match fg_code_of(color) {
            Some(c) => c,
            None => 0,
        };
        codes.push(fg);
    }
    if let Some(color) = bg_color {
        let bg = match bg_code_of(color) {
            Some(c) => c,
            None => 0,
        };
        codes.push(bg);
    }
    if let Some(st) = style {
        codes.push(style_code_of(st));
    }
    let ghost expected = style_codes(fg_color, bg_color, style);
    assert(codes@.len() == expected.len());
    assert forall|i: int| 0 <= i < codes@.len() implies codes@[i] as nat == expected[i] by {}
    let mut s = String::new();
    push_escape_start(&mut s);
    push_joined(&mut s, &codes);
    proof {
        assert(codes@.map_values(|c: u8| c as nat) =~= expected);
    }
    push_body_and_reset(&mut s, input);
    s
}

/// The codes of a vector, as naturals.
pub open spec fn code_values(codes: Seq<u8>) -> Seq<nat> {
    codes.map_values(|c: u8| c as nat)
}

/// Appends the codes joined by `;`.
fn push_joined(s: &mut String, codes: &Vec<u8>)
    ensures
        final(s)@ == old(s)@ + join_codes(code_values(codes@)),
{
    let ghost start = s@;
    let n = codes.len();
    let mut i: usize = 0;
    while i < n
        invariant
            n == codes@.len(),
            i <= n,
            s@ == start + join_codes(code_values(codes@.take(i as int))),
        decreases n - i,
    {
        if i > 0 {
            push_char(s, ';');
        }
        push_decimal(s, codes[i] as u64);
        proof {
            let next = code_values(codes@.take(i + 1));
            assert(next.drop_last() =~= code_values(codes@.take(i as int)));
            assert(next.last() == codes@[i as int] as nat);
            if i == 0 {
                assert(code_values(codes@.take(0)) =~= Seq::<nat>::empty());
            }
        }
        i = i + 1;
    }
    assert(codes@.take(n as int) =~= codes@);
}

/// The decimal digits of a two-digit number.
proof fn lemma_decimal_two_digits(n: nat)
    requires
        10 <= n < 100,
    ensures
        decimal(n) == seq![digit_char(n / 10), digit_char(n % 10)],
{
    assert(decimal(n / 10) == seq![digit_char(n / 10)]);
    assert(decimal(n) =~= seq![digit_char(n / 10), digit_char(n % 10)]);
}

/// The decimal digits of a number from 100 to 109.
proof fn lemma_decimal_three_digits(n: nat)
    requires
        100 <= n < 110,
    ensures
        decimal(n) == seq!['1', '0', digit_char(n % 10)],
{
    lemma_decimal_two_digits(n / 10);
    assert(n / 10 == 10);
    assert(decimal(n) =~= seq!['1', '0', digit_char(n % 10)]);
}

/// Each foreground color has its fixed ANSI code: black to white are 30 to
/// 37 in order, their high-intensity forms 90 to 97.
pub proof fn foreground_codes_are_ansi(input: Seq<char>)
    ensures
        colored_fg(input, Color::Black) == sgr(seq!['3', '0'], input),
        colored_fg(input, Color::Red) == sgr(seq!['3', '1'], input),
        colored_fg(input, Color::Green) == sgr(seq!['3', '2'], input),
        colored_fg(input, Color::Yellow) == sgr(seq!['3', '3'], input),
        colored_fg(input, Color::Blue) == sgr(seq!['3', '4'], input),
        colored_fg(input, Color::Purple) == sgr(seq!['3', '5'], input),
        colored_fg(input, Color::Cyan) == sgr(seq!['3', '6'], input),
        colored_fg(input, Color::White) == sgr(seq!['3', '7'], input),
        colored_fg(input, Color::HighIntensityBlack) == sgr(seq!['9', '0'], input),
        colored_fg(input, Color::HighIntensityRed) == sgr(seq!['9', '1'], input),
        colored_fg(input, Color::HighIntensityGreen) == sgr(seq!['9', '2'], input),
        colored_fg(input, Color::HighIntensityYellow) == sgr(seq!['9', '3'], input),
        colored_fg(input, Color::HighIntensityBlue) == sgr(seq!['9', '4'], input),
        colored_fg(input, Color::HighIntensityPurple) == sgr(seq!['9', '5'], input),
        colored_fg(input, Color::HighIntensityCyan) == sgr(seq!['9', '6'], input),
        colored_fg(input, Color::HighIntensityWhite) == sgr(seq!['9', '7'], input),
{
    lemma_decimal_two_digits(30);
    lemma_decimal_two_digits(31);
    lemma_decimal_two_digits(32);
    lemma_decimal_two_digits(33);
    lemma_decimal_two_digits(34);
    lemma_decimal_two_digits(35);
    lemma_decimal_two_digits(36);
    lemma_decimal_two_digits(37);
    lemma_decimal_two_digits(90);
    lemma_decimal_two_digits(91);
    lemma_decimal_two_digits(92);
    lemma_decimal_two_digits(93);
    lemma_decimal_two_digits(94);
    lemma_decimal_two_digits(95);
    lemma_decimal_two_digits(96);
    lemma_decimal_two_digits(97);
}

/// Each background color has its fixed ANSI code: black to white are 40 to
/// 47 in order, their high-intensity forms 100 to 107; each is ten more than
/// the code of the matching foreground color.
pub proof fn background_codes_are_ansi(input: Seq<char>)
    ensures
        colored_bg(input, Color::BgBlack) == sgr(seq!['4', '0'], input),
        colored_bg(input, Color::BgRed) == sgr(seq!['4', '1'], input),
        colored_bg(input, Color::BgGreen) == sgr(seq!['4', '2'], input),
        colored_bg(input, Color::BgYellow) == sgr(seq!['4', '3'], input),
        colored_bg(input, Color::BgBlue) == sgr(seq!['4', '4'], input),
        colored_bg(input, Color::BgPurple) == sgr(seq!['4', '5'], input),
        colored_bg(input, Color::BgCyan) == sgr(seq!['4', '6'], input),
        colored_bg(input, Color::BgWhite) == sgr(seq!['4', '7'], input),
        colored_bg(input, Color::HighIntensityBgBlack) == sgr(seq!['1', '0', '0'], input),
        colored_bg(input, Color::HighIntensityBgRed) == sgr(seq!['1', '0', '1'], input),
        colored_bg(input, Color::HighIntensityBgGreen) == sgr(seq!['1', '0', '2'], input),
        colored_bg(input, Color::HighIntensityBgYellow) == sgr(seq!['1', '0', '3'], input),
        colored_bg(input, Color::HighIntensityBgBlue) == sgr(seq!['1', '0', '4'], input),
        colored_bg(input, Color::HighIntensityBgPurple) == sgr(seq!['1', '0', '5'], input),
        colored_bg(input, Color::HighIntensityBgCyan) == sgr(seq!['1', '0', '6'], input),
        colored_bg(input, Color::HighIntensityBgWhite) == sgr(seq!['1', '0', '7'], input),
{
    lemma_decimal_two_digits(40);
    lemma_decimal_two_digits(41);
    lemma_decimal_two_digits(42);
    lemma_decimal_two_digits(43);
    lemma_decimal_two_digits(44);
    lemma_decimal_two_digits(45);
    lemma_decimal_two_digits(46);
    lemma_decimal_two_digits(47);
    lemma_decimal_three_digits(100);
    lemma_decimal_three_digits(101);
    lemma_decimal_three_digits(102);
    lemma_decimal_three_digits(103);
    lemma_decimal_three_digits(104);
    lemma_decimal_three_digits(105);
    lemma_decimal_three_digits(106);
    lemma_decimal_three_digits(107);
}

/// Each style has its fixed ANSI code: bold is 1, underline is 4.
pub proof fn style_codes_are_ansi(input: Seq<char>)
    ensures
        styled(input, Style::Bold) == sgr(seq!['1'], input),
        styled(input, Style::Underline) == sgr(seq!['4'], input),
{
}

/// Two styled texts of the same text are equal only with the same codes.
proof fn lemma_sgr_injective(c1: Seq<char>, c2: Seq<char>, text: Seq<char>)
    requires
        sgr(c1, text) == sgr(c2, text),
    ensures
        c1 == c2,
{
    let s = sgr(c1, text);
    assert(s.len() == c1.len() + text.len() + 7);
    assert(s.len() == c2.len() + text.len() + 7);
    assert(c1 =~= s.subrange(2, 2 + c1.len() as int));
    assert(c2 =~= sgr(c2, text).subrange(2, 2 + c2.len() as int));
}

/// The number of styling arguments given.
pub open spec fn given_count(fg: Option<Color>, bg: Option<Color>, style: Option<Style>) -> nat {
    (if fg is Some { 1nat } else { 0nat }) + (if bg is Some { 1nat } else { 0nat }) + (if style
        is Some {
        1nat
    } else {
        0nat
    })
}

/// `style_text` emits one code per argument given, and when a style is given
/// its code comes last, whatever the colors are.
pub proof fn one_code_per_argument(fg: Option<Color>, bg: Option<Color>, style: Option<Style>)
    ensures
        style_codes(fg, bg, style).len() == given_count(fg, bg, style),
        style matches Some(st) ==> style_codes(fg, bg, style).last() == (match st {
            Style::Bold => 1nat,
            Style::Underline => 4nat,
        }),
{
}

/// Adding a style to a `style_text` call appends its code to the escape:
/// `;1` for bold and `;4` for underline after the color codes, or the code
/// alone when no color is given. The colors' codes stay as they were.
pub proof fn adding_style_appends_its_code(
    input: Seq<char>,
    fg: Option<Color>,
    bg: Option<Color>,
    st: Style,
    codes: Seq<char>,
)
    requires
        styled_text(input, fg, bg, None) == sgr(codes, input),
    ensures
        styled_text(input, fg, bg, Some(st)) == sgr(
            codes + (if fg is None && bg is None {
                Seq::<char>::empty()
            } else {
                seq![';']
            }) + (match st {
                Style::Bold => seq!['1'],
                Style::Underline => seq!['4'],
            }),
            input,
        ),
{
    let x = style_codes(fg, bg, None);
    let y = style_codes(fg, bg, Some(st));
    assert(y =~= x.push(style_code(st)));
    assert(y.drop_last() =~= x);
    lemma_sgr_injective(join_codes(x), codes, input);
    if fg is None && bg is None {
        assert(x =~= Seq::<nat>::empty());
        assert(codes =~= Seq::<char>::empty());
        assert(join_codes(y) == decimal(y[0]));
        assert(codes + Seq::<char>::empty() + decimal(style_code(st)) =~= decimal(style_code(st)));
    } else {
        assert(x.len() > 0);
        assert(join_codes(y) == join_codes(x) + seq![';'] + decimal(style_code(st)));
    }
}

/// With a foreground color, a background color and a style all given, the
/// escape holds the codes that `color_fg`, `color_bg` and `apply_style` use,
/// in that order, joined by `;`.
pub proof fn all_three_join_the_single_codes(
    input: Seq<char>,
    fg: Color,
    bg: Color,
    st: Style,
    cf: Seq<char>,
    cb: Seq<char>,
    cs: Seq<char>,
)
    requires
        fg_code(fg) is Some,
        bg_code(bg) is Some,
        colored_fg(input, fg) == sgr(cf, input),
        colored_bg(input, bg) == sgr(cb, input),
        styled(input, st) == sgr(cs, input),
    ensures
        styled_text(input, Some(fg), Some(bg), Some(st)) == sgr(
            cf + seq![';'] + cb + seq![';'] + cs,
            input,
        ),
{
    lemma_sgr_injective(cf, decimal(fg_code(fg)->0), input);
    lemma_sgr_injective(cb, decimal(bg_code(bg)->0), input);
    lemma_sgr_injective(cs, decimal(style_code(st)), input);
    let y = style_codes(Some(fg), Some(bg), Some(st));
    assert(y =~= seq![fg_code(fg)->0, bg_code(bg)->0, style_code(st)]);
    assert(y.drop_last() =~= seq![fg_code(fg)->0, bg_code(bg)->0]);
    assert(y.drop_last().drop_last() =~= seq![fg_code(fg)->0]);
    assert(join_codes(y.drop_last().drop_last()) == cf);
    assert(join_codes(y.drop_last()) == cf + seq![';'] + cb);
    assert(join_codes(y) == cf + seq![';'] + cb + seq![';'] + cs);
}

/// In `style_text`, a background color given as the foreground, or a
/// foreground color given as the background, is written as code 0.
pub proof fn other_kind_codes_are_zero(input: Seq<char>, color: Color)
    ensures
        fg_code(color) is None ==> styled_text(input, Some(color), None, None) == sgr(
            seq!['0'],
            input,
        ),
        bg_code(color) is None ==> styled_text(input, None, Some(color), None) == sgr(
            seq!['0'],
            input,
        ),
{
    assert(style_codes(Some(color), None, None).len() == 1);
    assert(style_codes(None, Some(color), None).len() == 1);
}

/// Styling with a foreground color alone gives what `color_fg` gives, for
/// every foreground color.
pub proof fn style_text_fg_only_is_color_fg(input: Seq<char>, color: Color)
    requires
        fg_code(color) is Some,
    ensures
        styled_text(input, Some(color), None, None) == colored_fg(input, color),
{
    let codes = style_codes(Some(color), None, None);
    assert(codes =~= seq![fg_code(color)->0]);
    assert(join_codes(codes) == decimal(codes[0]));
}

/// Styling with a background color alone gives what `color_bg` gives, for
/// every background color.
pub proof fn style_text_bg_only_is_color_bg(input: Seq<char>, color: Color)
    requires
        bg_code(color) is Some,
    ensures
        styled_text(input, None, Some(color), None) == colored_bg(input, color),
{
    let codes = style_codes(None, Some(color), None);
    assert(codes =~= seq![bg_code(color)->0]);
    assert(join_codes(codes) == decimal(codes[0]));
}

/// Styling with a text style alone gives what `apply_style` gives.
pub proof fn style_text_style_only_is_apply_style(input: Seq<char>, style: Style)
    ensures
        styled_text(input, None, None, Some(style)) == styled(input, style),
{
    let codes = style_codes(None, None, Some(style));
    assert(codes =~= seq![style_code(style)]);
    assert(join_codes(codes) == decimal(codes[0]));
}

/// No color, background or style still wraps the text, in an escape sequence
/// with no codes.
pub proof fn style_text_nothing_is_empty_escape(input: Seq<char>)
    ensures
        styled_text(input, None, None, None) == sgr(Seq::empty(), input),
{
    assert(style_codes(None, None, None) =~= Seq::<nat>::empty());
}

/// A color of the other kind leaves the text unchanged: `color_fg` of a
/// background color and `color_bg` of a foreground color are the identity.
pub proof fn color_of_other_kind_is_identity(input: Seq<char>, color: Color)
    ensures
        bg_code(color) is Some ==> colored_fg(input, color) == input,
        fg_code(color) is Some ==> colored_bg(input, color) == input,
{
}

/// Every styled text starts with `ESC [`, ends with the reset `ESC [ 0 m`,
/// and holds the text just before the reset.
pub proof fn sgr_frames_text(codes: Seq<char>, input: Seq<char>)
    ensures
        sgr(codes, input).len() == codes.len() + input.len() + 7,
        sgr(codes, input).take(2) == seq!['\x1b', '['],
        sgr(codes, input).skip(sgr(codes, input).len() - 4) == seq!['\x1b', '[', '0', 'm'],
        sgr(codes, input).subrange(
            sgr(codes, input).len() - 4 - input.len(),
            sgr(codes, input).len() - 4,
        ) == input,
{
    let s = sgr(codes, input);
    assert(s.take(2) =~= seq!['\x1b', '[']);
    assert(s.skip(s.len() - 4) =~= seq!['\x1b', '[', '0', 'm']);
    assert(s.subrange(s.len() - 4 - input.len(), s.len() - 4) =~= input);
}

} // verus!
