//! Recognition of in-band ANSI escape sequences (`ESC [ ... m`, `ESC [ n C`, `ESC [ n D`).
use vstd::prelude::*;

use crate::parser::Token;

verus! {

/// The escape character that starts a control sequence.
pub const ESCAPE_CHAR: char = '\u{1b}';

/// A 24-bit color.
#[derive(Copy, Clone, Debug, PartialEq, Eq, Structural)]
pub struct Rgb {
    pub r: u8,
    pub g: u8,
    pub b: u8,
}

impl Rgb {
    /// Creates a color from its three components.
    pub fn new(r: u8, g: u8, b: u8) -> (c: Rgb)
        ensures
            c == (Rgb { r, g, b }),
    {
        Rgb { r, g, b }
    }
}

/// A Select Graphic Rendition command.
#[derive(Copy, Clone, Debug, PartialEq, Eq, Structural)]
pub enum Sgr {
    /// Restore every attribute to its default.
    Reset,
    /// Switch on underlining.
    Underline,
    /// Switch on strikethrough.
    CrossedOut,
    /// Switch off underlining.
    UnderlineOff,
    /// Switch off strikethrough.
    NotCrossedOut,
    /// Change the text color.
    ChangeTextColor(Rgb),
    /// Restore the default text color.
    DefaultTextColor,
    /// Change the background color.
    ChangeBackgroundColor(Rgb),
    /// Restore the default background color.
    DefaultBackgroundColor,
}

/// A color of the text style, as changed by SGR commands.
#[derive(Copy, Clone, Debug, PartialEq, Eq, Structural)]
pub enum Paint {
    /// The color the style had before any command.
    Inherited,
    /// No color: nothing is drawn.
    Transparent,
    /// A color.
    Color(Rgb),
}

/// A line decoration (underline, strikethrough) of the text style.
#[derive(Copy, Clone, Debug, PartialEq, Eq, Structural)]
pub enum Decoration {
    /// The decoration the style had before any command.
    Inherited,
    /// No decoration.
    Off,
    /// Drawn in the text color.
    TextColor,
}

/// The attributes of the text style that SGR commands change.
#[derive(Copy, Clone, Debug, PartialEq, Eq, Structural)]
pub struct TextAttributes {
    pub text_color: Paint,
    pub background_color: Paint,
    pub underline: Decoration,
    pub strikethrough: Decoration,
}

impl TextAttributes {
    /// The attributes before any command: all as the style had them.
    pub fn inherited() -> (a: TextAttributes)
        ensures
            a == (TextAttributes {
                text_color: Paint::Inherited,
                background_color: Paint::Inherited,
                underline: Decoration::Inherited,
                strikethrough: Decoration::Inherited,
            }),
    {
        TextAttributes {
            text_color: Paint::Inherited,
            background_color: Paint::Inherited,
            underline: Decoration::Inherited,
            strikethrough: Decoration::Inherited,
        }
    }
}

/// The attributes after an SGR command.
pub open spec fn sgr_applied(sgr: Sgr, a: TextAttributes) -> TextAttributes {
    match sgr {
        Sgr::Reset => TextAttributes {
            text_color: Paint::Transparent,
            background_color: Paint::Transparent,
            underline: Decoration::Off,
            strikethrough: Decoration::Off,
        },
        Sgr::ChangeTextColor(c) => TextAttributes { text_color: Paint::Color(c), ..a },
        Sgr::DefaultTextColor => TextAttributes { text_color: Paint::Transparent, ..a },
        Sgr::ChangeBackgroundColor(c) => TextAttributes { background_color: Paint::Color(c), ..a },
        Sgr::DefaultBackgroundColor => TextAttributes { background_color: Paint::Transparent, ..a },
        Sgr::Underline => TextAttributes { underline: Decoration::TextColor, ..a },
        Sgr::UnderlineOff => TextAttributes { underline: Decoration::Off, ..a },
        Sgr::CrossedOut => TextAttributes { strikethrough: Decoration::TextColor, ..a },
        Sgr::NotCrossedOut => TextAttributes { strikethrough: Decoration::Off, ..a },
    }
}

impl Sgr {
    /// Applies the command to the attributes of the text style.
    pub fn apply(self, a: TextAttributes) -> (r: TextAttributes)
        ensures
            r == sgr_applied(self, a),
    {
        match self {
            Sgr::Reset => TextAttributes {
                text_color: Paint::Transparent,
                background_color: Paint::Transparent,
                underline: Decoration::Off,
                strikethrough: Decoration::Off,
            },
            Sgr::ChangeTextColor(c) => TextAttributes { text_color: Paint::Color(c), ..a },
            Sgr::DefaultTextColor => TextAttributes { text_color: Paint::Transparent, ..a },
            Sgr::ChangeBackgroundColor(c) => TextAttributes { background_color: Paint::Color(c), ..a },
            Sgr::DefaultBackgroundColor => TextAttributes { background_color: Paint::Transparent, ..a },
            Sgr::Underline => TextAttributes { underline: Decoration::TextColor, ..a },
            Sgr::UnderlineOff => TextAttributes { underline: Decoration::Off, ..a },
            Sgr::CrossedOut => TextAttributes { strikethrough: Decoration::TextColor, ..a },
            Sgr::NotCrossedOut => TextAttributes { strikethrough: Decoration::Off, ..a },
        }
    }
}

/// A recognized control sequence.
#[derive(Copy, Clone, Debug, PartialEq, Eq, Structural)]
pub enum EscapeSequence {
    /// `ESC [ ... m` with a supported attribute.
    Sgr(Sgr),
    /// `ESC [ n C`: move the cursor forward by `n` spaces.
    CursorForward(u8),
    /// `ESC [ n D`: move the cursor backward by `n` spaces.
    CursorBackward(u8),
    /// `ESC [ n m` with an attribute that is not supported; it is consumed and has no effect.
    Unsupported,
}

pub open spec fn is_digit(c: char) -> bool {
    '0' <= c && c <= '9'
}

pub open spec fn digit_value(c: char) -> int {
    c as int - '0' as int
}

/// A decimal number of one to three digits that fits in a byte, starting at `i`, and the index
/// after it.
pub open spec fn u8_at(s: Seq<char>, i: int) -> Option<(u8, int)> {
    if 0 <= i < s.len() && is_digit(s[i]) {
        let h = digit_value(s[i]);
        if i + 1 < s.len() && is_digit(s[i + 1]) {
            let t = digit_value(s[i + 1]);
            if i + 2 < s.len() && is_digit(s[i + 2]) {
                let v = 100 * h + 10 * t + digit_value(s[i + 2]);
                if v <= 255 {
                    Some((v as u8, i + 3))
                } else {
                    None
                }
            } else {
                Some(((10 * h + t) as u8, i + 2))
            }
        } else {
            Some((h as u8, i + 1))
        }
    } else {
        None
    }
}

/// The index after `c` if `s[i] == c`.
pub open spec fn char_at(s: Seq<char>, i: int, c: char) -> Option<int> {
    if 0 <= i < s.len() && s[i] == c {
        Some(i + 1)
    } else {
        None
    }
}

/// The 16 standard colors (Windows 10 console palette).
pub open spec fn standard_color(idx: u8) -> Rgb {
    if idx == 0 {
        Rgb { r: 12, g: 12, b: 12 }
    } else if idx == 1 {
        Rgb { r: 197, g: 15, b: 31 }
    } else if idx == 2 {
        Rgb { r: 19, g: 161, b: 14 }
    } else if idx == 3 {
        Rgb { r: 193, g: 156, b: 0 }
    } else if idx == 4 {
        Rgb { r: 0, g: 55, b: 218 }
    } else if idx == 5 {
        Rgb { r: 136, g: 23, b: 152 }
    } else if idx == 6 {
        Rgb { r: 58, g: 150, b: 221 }
    } else if idx == 7 {
        Rgb { r: 204, g: 204, b: 204 }
    } else if idx == 8 {
        Rgb { r: 118, g: 118, b: 118 }
    } else if idx == 9 {
        Rgb { r: 231, g: 72, b: 86 }
    } else if idx == 10 {
        Rgb { r: 22, g: 198, b: 12 }
    } else if idx == 11 {
        Rgb { r: 249, g: 241, b: 165 }
    } else if idx == 12 {
        Rgb { r: 59, g: 120, b: 255 }
    } else if idx == 13 {
        Rgb { r: 180, g: 0, b: 158 }
    } else if idx == 14 {
        Rgb { r: 97, g: 214, b: 214 }
    } else {
        Rgb { r: 242, g: 242, b: 242 }
    }
}

/// The color of an index of the 256-color palette.
pub open spec fn palette_color(n: u8) -> Rgb {
    if n < 16 {
        standard_color(n)
    } else if n < 232 {
        let c = n - 16;
        Rgb { r: ((c / 36) * 51) as u8, g: (((c / 6) % 6) * 51) as u8, b: ((c % 6) * 51) as u8 }
    } else {
        let level = n - 232;
        let g: u8 = if level == 23 { 255 } else { (level * 11) as u8 };
        Rgb { r: g, g, b: g }
    }
}

/// `; 2 ; r ; g ; b` or `; 5 ; n` after a 38 or 48 attribute.
pub open spec fn extended_color_at(s: Seq<char>, i: int) -> Option<(Rgb, int)> {
    match char_at(s, i, ';') {
        None => None,
        Some(i1) => match u8_at(s, i1) {
            None => None,
            Some((kind, i2)) => match char_at(s, i2, ';') {
                None => None,
                Some(i3) => if kind == 5 {
                    match u8_at(s, i3) {
                        None => None,
                        Some((n, i4)) => Some((palette_color(n), i4)),
                    }
                } else if kind == 2 {
                    rgb_at(s, i3)
                } else {
                    None
                },
            },
        },
    }
}

/// `r ; g ; b`.
pub open spec fn rgb_at(s: Seq<char>, i: int) -> Option<(Rgb, int)> {
    match u8_at(s, i) {
        None => None,
        Some((r, i1)) => match char_at(s, i1, ';') {
            None => None,
            Some(i2) => match u8_at(s, i2) {
                None => None,
                Some((g, i3)) => match char_at(s, i3, ';') {
                    None => None,
                    Some(i4) => match u8_at(s, i4) {
                        None => None,
                        Some((b, i5)) => Some((Rgb { r, g, b }, i5)),
                    },
                },
            },
        },
    }
}

/// The effect of a single SGR attribute code.
pub open spec fn sgr_of(code: u8) -> EscapeSequence {
    if code == 0 {
        EscapeSequence::Sgr(Sgr::Reset)
    } else if code == 4 {
        EscapeSequence::Sgr(Sgr::Underline)
    } else if code == 9 {
        EscapeSequence::Sgr(Sgr::CrossedOut)
    } else if code == 24 {
        EscapeSequence::Sgr(Sgr::UnderlineOff)
    } else if code == 29 {
        EscapeSequence::Sgr(Sgr::NotCrossedOut)
    } else if 30 <= code <= 37 {
        EscapeSequence::Sgr(Sgr::ChangeTextColor(standard_color((code - 30) as u8)))
    } else if code == 39 {
        EscapeSequence::Sgr(Sgr::DefaultTextColor)
    } else if 40 <= code <= 47 {
        EscapeSequence::Sgr(Sgr::ChangeBackgroundColor(standard_color((code - 40) as u8)))
    } else if code == 49 {
        EscapeSequence::Sgr(Sgr::DefaultBackgroundColor)
    } else if 90 <= code <= 97 {
        EscapeSequence::Sgr(Sgr::ChangeTextColor(standard_color((code - 82) as u8)))
    } else if 100 <= code <= 107 {
        EscapeSequence::Sgr(Sgr::ChangeBackgroundColor(standard_color((code - 92) as u8)))
    } else {
        EscapeSequence::Unsupported
    }
}

/// The control sequence that starts at `i` (with `ESC [`), and the index after it.
///
/// The grammar is `ESC [ n? m`, `ESC [ n? C`, `ESC [ n? D`, `ESC [ 38 ; color m` and
/// `ESC [ 48 ; color m`, where `n` is a decimal number of at most three digits that fits in a
/// byte. A missing `n` means 0 for `m` and 1 for the cursor moves.
pub open spec fn escape_at(s: Seq<char>, i: int) -> Option<(EscapeSequence, int)> {
    match char_at(s, i, ESCAPE_CHAR) {
        None => None,
        Some(i1) => match char_at(s, i1, '[') {
            None => None,
            Some(i2) => {
                let (code, i3) = match u8_at(s, i2) {
                    None => (None::<u8>, i2),
                    Some((v, j)) => (Some(v), j),
                };
                if char_at(s, i3, 'm') is Some {
                    Some((sgr_of(code.unwrap_or(0)), i3 + 1))
                } else if char_at(s, i3, 'C') is Some {
                    Some((EscapeSequence::CursorForward(code.unwrap_or(1)), i3 + 1))
                } else if char_at(s, i3, 'D') is Some {
                    Some((EscapeSequence::CursorBackward(code.unwrap_or(1)), i3 + 1))
                } else if code == Some(38u8) || code == Some(48u8) {
                    match extended_color_at(s, i3) {
                        None => None,
                        Some((color, i4)) => match char_at(s, i4, 'm') {
                            None => None,
                            Some(i5) => if code == Some(38u8) {
                                Some((EscapeSequence::Sgr(Sgr::ChangeTextColor(color)), i5))
                            } else {
                                Some((EscapeSequence::Sgr(Sgr::ChangeBackgroundColor(color)), i5))
                            },
                        },
                    }
                } else {
                    None
                }
            },
        },
    }
}

fn try_parse_digit(chars: &[char], pos: usize) -> (r: Option<u8>)
    ensures
        r == (if pos < chars@.len() && is_digit(chars@[pos as int]) {
            Some(digit_value(chars@[pos as int]) as u8)
        } else {
            None
        }),
{
    if pos < chars.len() && '0' <= chars[pos] && chars[pos] <= '9' {
        Some(((chars[pos] as u32) - ('0' as u32)) as u8)
    } else {
        None
    }
}

fn expect(chars: &[char], pos: usize, c: char) -> (r: Option<usize>)
    requires
        chars@.len() <= u32::MAX,
    ensures
        r == (if char_at(chars@, pos as int, c) is Some {
            Some((pos + 1) as usize)
        } else {
            None::<usize>
        }),
{
    if pos < chars.len() && chars[pos] == c {
        Some(pos + 1)
    } else {
        None
    }
}

fn try_parse_u8(chars: &[char], pos: usize) -> (r: Option<(u8, usize)>)
    requires
        chars@.len() <= u32::MAX,
    ensures
        match u8_at(chars@, pos as int) {
            None => r is None,
            Some((v, j)) => r == Some((v, j as usize)),
        },
{
    if let Some(h) = try_parse_digit(chars, pos) {
        if let Some(t) = try_parse_digit(chars, pos + 1) {
            if let Some(o) = try_parse_digit(chars, pos + 2) {
                let v: u32 = 100 * (h as u32) + 10 * (t as u32) + (o as u32);
                if v <= 255 {
                    Some((v as u8, pos + 3))
                } else {
                    None
                }
            } else {
                Some((10 * h + t, pos + 2))
            }
        } else {
            Some((h, pos + 1))
        }
    } else {
        None
    }
}

fn standard_to_rgb(idx: u8) -> (c: Rgb)
    ensures
        c == standard_color(idx),
{
    match idx {
        0 => Rgb::new(12, 12, 12),
        1 => Rgb::new(197, 15, 31),
        2 => Rgb::new(19, 161, 14),
        3 => Rgb::new(193, 156, 0),
        4 => Rgb::new(0, 55, 218),
        5 => Rgb::new(136, 23, 152),
        6 => Rgb::new(58, 150, 221),
        7 => Rgb::new(204, 204, 204),
        8 => Rgb::new(118, 118, 118),
        9 => Rgb::new(231, 72, 86),
        10 => Rgb::new(22, 198, 12),
        11 => Rgb::new(249, 241, 165),
        12 => Rgb::new(59, 120, 255),
        13 => Rgb::new(180, 0, 158),
        14 => Rgb::new(97, 214, 214),
        _ => Rgb::new(242, 242, 242),
    }
}

fn try_parse_8b_color(chars: &[char], pos: usize) -> (r: Option<(Rgb, usize)>)
    requires
        chars@.len() <= u32::MAX,
    ensures
        match u8_at(chars@, pos as int) {
            None => r is None,
            Some((n, j)) => r == Some((palette_color(n), j as usize)),
        },
{
    let (color, next) = try_parse_u8(chars, pos)?;
    if color < 16 {
        Some((standard_to_rgb(color), next))
    } else if color < 232 {
        let c = color - 16;
        let b = (c % 6) * 51;
        let g = ((c / 6) % 6) * 51;
        let r = (c / 36) * 51;
        Some((Rgb::new(r, g, b), next))
    } else {
        let level = color - 232;
        let g = if level == 23 { 255 } else { level * 11 };
        Some((Rgb::new(g, g, g), next))
    }
}

fn try_parse_rgb(chars: &[char], pos: usize) -> (r: Option<(Rgb, usize)>)
    requires
        chars@.len() <= u32::MAX,
    ensures
        match rgb_at(chars@, pos as int) {
            None => r is None,
            Some((c, j)) => r == Some((c, j as usize)),
        },
{
    let (r, p) = try_parse_u8(chars, pos)?;
    let p = expect(chars, p, ';')?;
    let (g, p) = try_parse_u8(chars, p)?;
    let p = expect(chars, p, ';')?;
    let (b, p) = try_parse_u8(chars, p)?;
    Some((Rgb::new(r, g, b), p))
}

fn try_parse_color(chars: &[char], pos: usize) -> (r: Option<(Rgb, usize)>)
    requires
        chars@.len() <= u32::MAX,
    ensures
        match extended_color_at(chars@, pos as int) {
            None => r is None,
            Some((c, j)) => r == Some((c, j as usize)),
        },
{
    let p = expect(chars, pos, ';')?;
    let (color_type, p) = try_parse_u8(chars, p)?;
    let p = expect(chars, p, ';')?;
    if color_type == 5 {
        try_parse_8b_color(chars, p)
    } else if color_type == 2 {
        try_parse_rgb(chars, p)
    } else {
        None
    }
}

fn sgr_from_code(code: u8) -> (e: EscapeSequence)
    ensures
        e == sgr_of(code),
{
    if code == 0 {
        EscapeSequence::Sgr(Sgr::Reset)
    } else if code == 4 {
        EscapeSequence::Sgr(Sgr::Underline)
    } else if code == 9 {
        EscapeSequence::Sgr(Sgr::CrossedOut)
    } else if code == 24 {
        EscapeSequence::Sgr(Sgr::UnderlineOff)
    } else if code == 29 {
        EscapeSequence::Sgr(Sgr::NotCrossedOut)
    } else if 30 <= code && code <= 37 {
        EscapeSequence::Sgr(Sgr::ChangeTextColor(standard_to_rgb(code - 30)))
    } else if code == 39 {
        EscapeSequence::Sgr(Sgr::DefaultTextColor)
    } else if 40 <= code && code <= 47 {
        EscapeSequence::Sgr(Sgr::ChangeBackgroundColor(standard_to_rgb(code - 40)))
    } else if code == 49 {
        EscapeSequence::Sgr(Sgr::DefaultBackgroundColor)
    } else if 90 <= code && code <= 97 {
        EscapeSequence::Sgr(Sgr::ChangeTextColor(standard_to_rgb(code - 82)))
    } else if 100 <= code && code <= 107 {
        EscapeSequence::Sgr(Sgr::ChangeBackgroundColor(standard_to_rgb(code - 92)))
    } else {
        EscapeSequence::Unsupported
    }
}

/// Recognizes the control sequence that starts at `pos`. On success, returns the token and the
/// index just after the sequence; otherwise nothing is consumed.
pub fn try_parse_escape_seq(chars: &[char], pos: usize) -> (r: Option<(Token, usize)>)
    requires
        chars@.len() <= u32::MAX,
    ensures
        match escape_at(chars@, pos as int) {
            None => r is None,
            Some((e, j)) => r == Some((Token::EscapeSequence(e), j as usize)),
        },
{
    let p = expect(chars, pos, ESCAPE_CHAR)?;
    let p = expect(chars, p, '[')?;
    let (code, p) = match try_parse_u8(chars, p) {
        None => (None, p),
        Some((v, j)) => (Some(v), j),
    };
    if let Some(q) = expect(chars, p, 'm') {
        let c = match code {
            Some(v) => v,
            None => 0,
        };
        Some((Token::EscapeSequence(sgr_from_code(c)), q))
    } else if let Some(q) = expect(chars, p, 'C') {
        let n = match code {
            Some(v) => v,
            None => 1,
        };
        Some((Token::EscapeSequence(EscapeSequence::CursorForward(n)), q))
    } else if let Some(q) = expect(chars, p, 'D') {
        let n = match code {
            Some(v) => v,
            None => 1,
        };
        Some((Token::EscapeSequence(EscapeSequence::CursorBackward(n)), q))
    } else {
        match code {
            Some(38) => {
                let (color, q) = try_parse_color(chars, p)?;
                let q = expect(chars, q, 'm')?;
                Some((Token::EscapeSequence(EscapeSequence::Sgr(Sgr::ChangeTextColor(color))), q))
            },
            Some(48) => {
                let (color, q) = try_parse_color(chars, p)?;
                let q = expect(chars, q, 'm')?;
                Some((
                    Token::EscapeSequence(EscapeSequence::Sgr(Sgr::ChangeBackgroundColor(color))),
                    q,
                ))
            },
            _ => None,
        }
    }
}

} // verus!
