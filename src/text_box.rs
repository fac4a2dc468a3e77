//! The text box driver: vertical alignment, height mode and the walk over lines.
use vstd::prelude::*;

use crate::parser::{Parser, Token};
use crate::rendering::cursor::LineCursor;
use crate::rendering::line::{rendered_line, StyledLineRenderer};
use crate::rendering::line_iter::{token_wf, PlacedElement};
use crate::style::{tab_pixels, HeightMode, TextBoxStyle, VerticalAlignment, VerticalOverdraw};

verus! {

/// A rectangle on the display.
#[derive(Copy, Clone, Debug, PartialEq, Eq, Structural)]
pub struct Rectangle {
    /// Left edge.
    pub left: i32,
    /// Top edge.
    pub top: i32,
    /// Width in pixels.
    pub width: u32,
    /// Height in pixels.
    pub height: u32,
}

/// A line of the text box, laid out.
pub struct PlacedLine {
    /// Top edge of the line.
    pub y: i64,
    /// The first row of the line that is drawn, counted from the line's top edge.
    pub rows_start: u32,
    /// The row after the last one that is drawn.
    pub rows_end: u32,
    /// The elements, each with its pen offset from the box's left edge.
    pub elements: Vec<PlacedElement>,
    /// The token that ended the line.
    pub carried_token: Option<Token>,
}

/// A laid-out line, as plain values.
pub struct LineLayout {
    pub y: int,
    pub rows_start: int,
    pub rows_end: int,
    pub elements: Seq<PlacedElement>,
    pub carried: Option<Token>,
}

impl View for PlacedLine {
    type V = LineLayout;

    open spec fn view(&self) -> LineLayout {
        LineLayout {
            y: self.y as int,
            rows_start: self.rows_start as int,
            rows_end: self.rows_end as int,
            elements: self.elements@,
            carried: self.carried_token,
        }
    }
}

/// The laid out text box.
pub struct TextBoxLayout {
    /// The box, after the height mode has been applied.
    pub bounds: Rectangle,
    /// The lines, top to bottom.
    pub lines: Vec<PlacedLine>,
}

/// How far the pen steps down after a line that carried `carried`.
pub open spec fn line_step(style: TextBoxStyle, carried: Option<Token>) -> int {
    if carried == Some(Token::CarriageReturn) {
        0
    } else {
        style.font.line_height + style.line_spacing + if carried == Some(Token::NewLine) {
            style.paragraph_spacing as int
        } else {
            0
        }
    }
}

/// Consecutive lines step down by `line_step`; a carriage return keeps the pen on the same row.
pub open spec fn lines_stacked(lines: Seq<PlacedLine>, style: TextBoxStyle, start_y: int) -> bool {
    &&& lines.len() > 0 ==> lines[0].y == start_y
    &&& forall|i: int|
        0 <= i < lines.len() - 1 ==> #[trigger] lines[i + 1].y == lines[i].y + line_step(
            style,
            lines[i].carried_token,
        )
}

/// How much of a carried token is left to lay out: a line that takes no new token from the text
/// carries a lighter one, or none.
pub open spec fn carry_weight(c: Option<Token>) -> int {
    match c {
        None => 0,
        Some(t) => match t {
            Token::Whitespace(n) => n + 2,
            Token::Word(a, b) => (if a < b {
                b - a
            } else {
                0
            }) + 2,
            Token::Tab => 2,
            Token::Glyph(_) => 2,
            Token::Break(Some(_)) => 3,
            _ => 1,
        },
    }
}

/// Whether a line that started at `pos` with `carried` and ended at `pos1` with `carried1` took
/// something from the text or from the carried token.
pub open spec fn made_progress(
    pos: int,
    carried: Option<Token>,
    pos1: int,
    carried1: Option<Token>,
) -> bool {
    pos < pos1 || (pos == pos1 && carry_weight(carried1) < carry_weight(carried))
}

fn carried_weight(c: Option<Token>) -> (r: u64)
    requires
        c matches Some(Token::Word(a, b)) ==> b <= u32::MAX,
    ensures
        r == carry_weight(c),
{
    match c {
        None => 0,
        Some(t) => match t {
            Token::Whitespace(n) => n as u64 + 2,
            Token::Word(a, b) => (if a < b {
                (b - a) as u64
            } else {
                0
            }) + 2,
            Token::Tab => 2,
            Token::Glyph(_) => 2,
            Token::Break(Some(_)) => 3,
            _ => 1,
        },
    }
}

/// The lines of a text laid out from position `pos`, with `carried` carried over, the current
/// line starting at `y`: lines are laid out while the text lasts and they start above `bottom`.
/// A line after which the pen stays on its row (a carriage return, or lines that take no height)
/// must take something from the text or from the carried token; one that does not ends the
/// layout.
pub open spec fn walk(
    text: Seq<char>,
    style: TextBoxStyle,
    width: u32,
    tab_width: u32,
    top: int,
    bottom: int,
    overdraw: VerticalOverdraw,
    pos: int,
    carried: Option<Token>,
    y: int,
) -> Seq<LineLayout>
    decreases (if y < bottom {
        bottom - y
    } else {
        0
    }), text.len() - pos, carry_weight(carried),
{
    if (carried is Some || pos < text.len()) && y < bottom && 0 <= pos <= text.len() {
        let line = rendered_line(
            text,
            pos,
            carried,
            width,
            tab_width,
            style.alignment,
            style.leading_spaces,
            style.trailing_spaces,
            style.font.char_width,
        );
        let rows = drawn_rows(overdraw, y, style.font.line_height as int, top, bottom);
        let this = LineLayout {
            y,
            rows_start: rows.0,
            rows_end: rows.1,
            elements: line.1,
            carried: line.0.carried,
        };
        let step = line_step(style, line.0.carried);
        if step == 0 {
            if made_progress(pos, carried, line.0.pos, line.0.carried) && line.0.pos <= text.len() {
                seq![this] + walk(
                    text,
                    style,
                    width,
                    tab_width,
                    top,
                    bottom,
                    overdraw,
                    line.0.pos,
                    line.0.carried,
                    y,
                )
            } else {
                seq![this]
            }
        } else {
            seq![this] + walk(
                text,
                style,
                width,
                tab_width,
                top,
                bottom,
                overdraw,
                line.0.pos,
                line.0.carried,
                y + step,
            )
        }
    } else {
        Seq::empty()
    }
}

/// The rows of a line at `y` with height `h` that lie in `top..bottom`.
pub open spec fn visible_rows(y: int, h: int, top: int, bottom: int) -> (int, int) {
    let s = if top - y <= 0 {
        0
    } else if top - y >= h {
        h
    } else {
        top - y
    };
    let e = if bottom - y <= 0 {
        0
    } else if bottom - y >= h {
        h
    } else {
        bottom - y
    };
    (s, if e < s {
        s
    } else {
        e
    })
}

/// The rows of a line that are drawn under an overdraw policy.
pub open spec fn drawn_rows(
    overdraw: VerticalOverdraw,
    y: int,
    h: int,
    top: int,
    bottom: int,
) -> (int, int) {
    match overdraw {
        VerticalOverdraw::FullRowsOnly => if top <= y && y + h <= bottom {
            (0, h)
        } else {
            (0, 0)
        },
        VerticalOverdraw::Visible => visible_rows(y, h, top, bottom),
        VerticalOverdraw::Hidden => (0, h),
    }
}

fn row_range(overdraw: VerticalOverdraw, y: i64, h: u32, top: i64, bottom: i64) -> (r: (u32, u32))
    requires
        i32::MIN <= top <= i32::MAX,
        i32::MIN <= bottom <= i32::MAX + u32::MAX,
        i32::MIN - u32::MAX * 4 <= y <= i32::MAX + u32::MAX,
    ensures
        (r.0 as int, r.1 as int) == drawn_rows(overdraw, y as int, h as int, top as int, bottom as int),
{
    match overdraw {
        VerticalOverdraw::FullRowsOnly => if top <= y && y + h as i64 <= bottom {
            (0, h)
        } else {
            (0, 0)
        },
        VerticalOverdraw::Visible => {
            let s: u32 = if top - y <= 0 {
                0
            } else if top - y >= h as i64 {
                h
            } else {
                (top - y) as u32
            };
            let e: u32 = if bottom - y <= 0 {
                0
            } else if bottom - y >= h as i64 {
                h
            } else {
                (bottom - y) as u32
            };
            (s, if e < s {
                s
            } else {
                e
            })
        },
        VerticalOverdraw::Hidden => (0, h),
    }
}

/// The vertical offset of the text for an alignment, given the heights of the box and of the
/// text.
pub open spec fn vertical_offset(alignment: VerticalAlignment, box_height: int, text_height: int) -> int {
    match alignment {
        VerticalAlignment::Top => 0,
        VerticalAlignment::Middle => if text_height <= box_height {
            (box_height - text_height) / 2
        } else {
            0
        },
        VerticalAlignment::Bottom => if text_height <= box_height {
            box_height - text_height
        } else {
            0
        },
        VerticalAlignment::Scrolling => if text_height <= box_height {
            0
        } else {
            box_height - text_height
        },
    }
}

/// A text with a box and a style.
pub struct StyledTextBox {
    /// The text.
    pub text: String,
    /// The box.
    pub bounds: Rectangle,
    /// The style.
    pub style: TextBoxStyle,
}

/// Laying out is deterministic: two boxes with the same text, bounds and style have the same
/// height and the same lines, element for element, so drawing them gives the same picture.
pub proof fn lemma_layout_deterministic(a: &StyledTextBox, b: &StyledTextBox)
    requires
        a.text@ == b.text@,
        a.bounds == b.bounds,
        a.style == b.style,
    ensures
        a.box_height() == b.box_height(),
        a.lines_spec() == b.lines_spec(),
{
}

/// The height of laid-out lines: from the top of the first line to the bottom of the last.
pub open spec fn text_height_of(lines: Seq<LineLayout>, line_height: int) -> int {
    if lines.len() == 0 {
        0
    } else {
        lines.last().y + line_height
    }
}

impl StyledTextBox {
    /// The tab size in pixels.
    pub open spec fn tab_width(&self) -> u32 {
        tab_pixels(self.style.tab_size, self.style.font.char_width as int) as u32
    }

    /// The height of the text when laid out from the top of an unbounded box.
    pub open spec fn text_height(&self) -> int {
        text_height_of(
            walk(
                self.text@,
                self.style,
                self.bounds.width,
                self.tab_width(),
                0,
                i32::MAX as int,
                VerticalOverdraw::Visible,
                0,
                None,
                0,
            ),
            self.style.font.line_height as int,
        )
    }

    /// The box height after the height mode.
    pub open spec fn box_height(&self) -> int {
        let th = self.text_height();
        match self.style.height_mode {
            HeightMode::Exact(_) => self.bounds.height as int,
            HeightMode::FitToText => if th <= u32::MAX {
                th
            } else {
                u32::MAX as int
            },
            HeightMode::ShrinkToText(_) => if th < self.bounds.height {
                th
            } else {
                self.bounds.height as int
            },
        }
    }

    /// The overdraw policy of the height mode.
    pub open spec fn overdraw(&self) -> VerticalOverdraw {
        match self.style.height_mode {
            HeightMode::Exact(o) => o,
            HeightMode::FitToText => VerticalOverdraw::Visible,
            HeightMode::ShrinkToText(o) => o,
        }
    }

    /// The lines of the box: laid out from the top edge moved by the vertical alignment, while
    /// they start above the bottom edge.
    pub open spec fn lines_spec(&self) -> Seq<LineLayout> {
        let th = self.text_height();
        let th_c = if th <= u32::MAX {
            th
        } else {
            u32::MAX as int
        };
        let h = self.box_height();
        let top = self.bounds.top as int;
        let bottom = if top + h <= i32::MAX {
            top + h
        } else {
            i32::MAX as int
        };
        let start = top + vertical_offset(self.style.vertical_alignment, h, th_c);
        let start_y = if start <= i32::MAX {
            start
        } else {
            i32::MAX as int
        };
        walk(
            self.text@,
            self.style,
            self.bounds.width,
            self.tab_width(),
            top,
            bottom,
            self.overdraw(),
            0,
            None,
            start_y,
        )
    }

    /// Creates a styled text box.
    pub fn new(text: String, bounds: Rectangle, style: TextBoxStyle) -> (r: StyledTextBox)
        ensures
            r.text@ == text@,
            r.bounds == bounds,
            r.style == style,
    {
        StyledTextBox { text, bounds, style }
    }

    /// Lays out lines from `start_y` while the text lasts and lines start above `bottom`.
    #[verifier::rlimit(60)]
    #[verifier::spinoff_prover]
    fn lines_from(&self, start_y: i64, top: i64, bottom: i64, overdraw: VerticalOverdraw) -> (r: Vec<
        PlacedLine,
    >)
        requires
            self.text@.len() <= u32::MAX,
            i32::MIN - u32::MAX * 4 <= start_y <= i32::MAX,
            i32::MIN <= top <= i32::MAX,
            i32::MIN <= bottom <= i32::MAX,
        ensures
            lines_stacked(r@, self.style, start_y as int),
            forall|i: int| 0 <= i < r@.len() ==> start_y <= #[trigger] r@[i].y < bottom,
            r@.map_values(|l: PlacedLine| l@) == walk(
                self.text@,
                self.style,
                self.bounds.width,
                tab_pixels(self.style.tab_size, self.style.font.char_width as int) as u32,
                top as int,
                bottom as int,
                overdraw,
                0,
                None,
                start_y as int,
            ),
    {
        let style = self.style;
        let width = self.bounds.width;
        let tab_width = style.tab_size.into_pixels(&style.font);
        let mut parser = Parser::parse(self.text.as_str());
        let mut carried: Option<Token> = None;
        let mut y: i64 = start_y;
        let mut lines: Vec<PlacedLine> = Vec::new();
        let ghost len = parser.text().len();
        let mut going = true;
        while going && (carried.is_some() || !parser.is_empty()) && y < bottom
            invariant
                parser.wf(),
                len == parser.text().len(),
                carried matches Some(t) ==> token_wf(t, parser.text()),
                i32::MIN - u32::MAX * 4 <= y <= i32::MAX + u32::MAX * 3,
                i32::MIN <= top <= i32::MAX,
                i32::MIN <= bottom <= i32::MAX,
                style == self.style,
                lines_stacked(lines@, style, start_y as int),
                lines@.len() > 0 ==> y == lines@.last().y + line_step(
                    style,
                    lines@.last().carried_token,
                ),
                lines@.len() == 0 ==> y == start_y,
                start_y <= y,
                forall|i: int| 0 <= i < lines@.len() ==> start_y <= #[trigger] lines@[i].y < bottom,
                parser.text() == self.text@,
                tab_width == tab_pixels(style.tab_size, style.font.char_width as int),
                width == self.bounds.width,
                walk(
                    self.text@,
                    style,
                    width,
                    tab_width,
                    top as int,
                    bottom as int,
                    overdraw,
                    0,
                    None,
                    start_y as int,
                ) == lines@.map_values(|l: PlacedLine| l@) + if going {
                    walk(
                        self.text@,
                        style,
                        width,
                        tab_width,
                        top as int,
                        bottom as int,
                        overdraw,
                        parser.pos(),
                        carried,
                        y as int,
                    )
                } else {
                    Seq::<LineLayout>::empty()
                },
            decreases (if going {
                1int
            } else {
                0int
            }), (if y < bottom {
                bottom - y
            } else {
                0
            }), len - parser.pos(), carry_weight(carried),
        {
            let cursor = LineCursor::new(width, tab_width);
            let before_position = parser.position();
            let before_weight = carried_weight(carried);
            let renderer = StyledLineRenderer::new(
                parser,
                cursor,
                style.alignment,
                style.leading_spaces,
                style.trailing_spaces,
                style.font.char_width,
                carried,
            );
            let ghost before_pos = parser.pos();
            let ghost before_carried = carried;
            let ghost before_y = y as int;
            let ghost before_lines = lines@.map_values(|l: PlacedLine| l@);
            let line = renderer.draw();
            let rows = row_range(overdraw, y, style.font.line_height, top, bottom);
            let ghost prev = lines@;
            let line_y = y;
            lines.push(
                PlacedLine {
                    y,
                    rows_start: rows.0,
                    rows_end: rows.1,
                    elements: line.elements,
                    carried_token: line.carried_token,
                },
            );
            proof {
                assert forall|i: int| 0 <= i < lines@.len() - 1 implies #[trigger] lines@[i + 1].y
                    == lines@[i].y + line_step(style, lines@[i].carried_token) by {
                    if i < prev.len() - 1 {
                        assert(lines@[i] == prev[i]);
                        assert(lines@[i + 1] == prev[i + 1]);
                    }
                }
            }
            parser = line.parser;
            carried = line.carried_token;
            let step: i64 = match carried {
                Some(Token::CarriageReturn) => 0,
                Some(Token::NewLine) => style.font.line_height as i64 + style.line_spacing as i64
                    + style.paragraph_spacing as i64,
                _ => style.font.line_height as i64 + style.line_spacing as i64,
            };
            if step == 0 {
                let progressed = before_position < parser.position() || (before_position
                    == parser.position() && carried_weight(carried) < before_weight);
                if !progressed {
                    going = false;
                }
            } else {
                y = y + step;
            }
            proof {
                let w = walk(
                    self.text@,
                    style,
                    width,
                    tab_width,
                    top as int,
                    bottom as int,
                    overdraw,
                    before_pos,
                    before_carried,
                    before_y,
                );
                assert(lines@.map_values(|l: PlacedLine| l@) == before_lines + seq![
                    lines@.last()@,
                ]);
                assert(w == seq![lines@.last()@] + if going {
                    walk(
                        self.text@,
                        style,
                        width,
                        tab_width,
                        top as int,
                        bottom as int,
                        overdraw,
                        parser.pos(),
                        carried,
                        y as int,
                    )
                } else {
                    Seq::<LineLayout>::empty()
                });
            }
        }
        proof {
            assert(going ==> walk(
                self.text@,
                style,
                width,
                tab_width,
                top as int,
                bottom as int,
                overdraw,
                parser.pos(),
                carried,
                y as int,
            ) == Seq::<LineLayout>::empty());
            assert(lines@.map_values(|l: PlacedLine| l@) + Seq::<LineLayout>::empty() == lines@.map_values(|l: PlacedLine| l@));
        }
        lines
    }

    /// The height of the laid-out text: from the top of the first line to the bottom of the
    /// last.
    pub fn measure_text_height(&self) -> (r: u64)
        requires
            self.text@.len() <= u32::MAX,
        ensures
            r == self.text_height(),
    {
        let lines = self.lines_from(0, 0, i32::MAX as i64, VerticalOverdraw::Visible);
        if lines.len() == 0 {
            0
        } else {
            let last = lines.len() - 1;
            (lines[last].y + self.style.font.line_height as i64) as u64
        }
    }

    /// Lays the text box out.
    pub fn layout(&self) -> (r: TextBoxLayout)
        requires
            self.text@.len() <= u32::MAX,
        ensures
            r.bounds.left == self.bounds.left,
            r.bounds.top == self.bounds.top,
            r.bounds.width == self.bounds.width,
            r.bounds.height <= self.bounds.height || self.style.height_mode is FitToText,
            r.bounds.height == self.box_height(),
            r.lines@.map_values(|l: PlacedLine| l@) == self.lines_spec(),
            forall|i: int|
                0 <= i < r.lines@.len() - 1 ==> #[trigger] r.lines@[i + 1].y == r.lines@[i].y
                    + line_step(self.style, r.lines@[i].carried_token),
    {
        let text_height = self.measure_text_height();
        let box_height = self.bounds.height as u64;
        let height: u32 = match self.style.height_mode {
            HeightMode::Exact(_) => self.bounds.height,
            HeightMode::FitToText => if text_height <= u32::MAX as u64 {
                text_height as u32
            } else {
                u32::MAX
            },
            HeightMode::ShrinkToText(_) => if text_height < box_height {
                text_height as u32
            } else {
                self.bounds.height
            },
        };
        let overdraw = match self.style.height_mode {
            HeightMode::Exact(o) => o,
            HeightMode::FitToText => VerticalOverdraw::Visible,
            HeightMode::ShrinkToText(o) => o,
        };
        let h = height as i64;
        let th: i64 = if text_height <= u32::MAX as u64 {
            text_height as i64
        } else {
            u32::MAX as i64
        };
        let offset: i64 = match self.style.vertical_alignment {
            VerticalAlignment::Top => 0,
            VerticalAlignment::Middle => if th <= h {
                (h - th) / 2
            } else {
                0
            },
            VerticalAlignment::Bottom => if th <= h {
                h - th
            } else {
                0
            },
            VerticalAlignment::Scrolling => if th <= h {
                0
            } else {
                h - th
            },
        };
        let top = self.bounds.top as i64;
        let bottom_wide = top + h;
        let bottom = if bottom_wide <= i32::MAX as i64 {
            bottom_wide
        } else {
            i32::MAX as i64
        };
        let start = top + offset;
        let start_y = if start <= i32::MAX as i64 {
            start
        } else {
            i32::MAX as i64
        };
        let lines = self.lines_from(start_y, top, bottom, overdraw);
        TextBoxLayout {
            bounds: Rectangle {
                left: self.bounds.left,
                top: self.bounds.top,
                width: self.bounds.width,
                height,
            },
            lines,
        }
    }
}

} // verus!
