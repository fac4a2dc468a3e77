//! Text box style: font metrics, alignment, height mode and spacing.
use vstd::prelude::*;

use crate::alignment::HorizontalAlignment;

verus! {

/// Metrics of a monospaced font.
#[derive(Copy, Clone, Debug, PartialEq, Eq, Structural)]
pub struct FontMetrics {
    /// Horizontal advance of one character (glyph width plus spacing), in pixels.
    pub char_width: u32,
    /// Height of a line of text, in pixels.
    pub line_height: u32,
}

impl FontMetrics {
    pub fn new(char_width: u32, line_height: u32) -> (f: FontMetrics)
        ensures
            f == (FontMetrics { char_width, line_height }),
    {
        FontMetrics { char_width, line_height }
    }
}

/// Width computations of a monospaced font.
pub trait FontExt {
    /// The horizontal advance of one character.
    spec fn advance(&self) -> int;

    /// The width of `n` characters.
    fn str_width_nocr(&self, n: u32) -> (r: u64)
        ensures
            r == n * self.advance(),
    ;

    /// The width of the widest run of at most `n` spaces that fits in `max_width` pixels, and
    /// the number of those spaces.
    fn max_space_width(&self, n: u32, max_width: u32) -> (r: (u32, u32))
        ensures
            r.1 <= n,
            r.0 == r.1 * self.advance(),
            r.0 <= max_width,
            r.1 < n ==> (r.1 + 1) * self.advance() > max_width,
    ;
}

impl FontExt for FontMetrics {
    open spec fn advance(&self) -> int {
        self.char_width as int
    }

    fn str_width_nocr(&self, n: u32) -> (r: u64) {
        proof {
            assert(n * self.char_width <= u32::MAX * u32::MAX) by (nonlinear_arith)
                requires
                    n <= u32::MAX,
                    self.char_width <= u32::MAX,
            ;
        }
        n as u64 * self.char_width as u64
    }

    fn max_space_width(&self, n: u32, max_width: u32) -> (r: (u32, u32)) {
        if self.char_width == 0 {
            return (0, n);
        }
        let fit = max_width / self.char_width;
        let count = if fit < n {
            fit
        } else {
            n
        };
        proof {
            assert(count * self.char_width <= max_width) by (nonlinear_arith)
                requires
                    count <= max_width / self.char_width,
                    self.char_width > 0,
            ;
            assert(count < n ==> (count + 1) * self.char_width > max_width) by (nonlinear_arith)
                requires
                    count < n ==> count == max_width / self.char_width,
                    self.char_width > 0,
            ;
        }
        ((count * self.char_width), count)
    }
}

/// The distance between tab stops.
#[derive(Copy, Clone, Debug, PartialEq, Eq, Structural)]
pub enum TabSize {
    /// A number of character widths.
    Spaces(u32),
    /// A number of pixels.
    Pixels(u32),
}

/// The tab size in pixels; a size beyond `u32::MAX` pixels is capped there.
pub open spec fn tab_pixels(t: TabSize, char_width: int) -> int {
    match t {
        TabSize::Spaces(n) => if n * char_width <= u32::MAX {
            n * char_width
        } else {
            u32::MAX as int
        },
        TabSize::Pixels(p) => p as int,
    }
}

impl TabSize {
    /// The tab size in pixels for a font.
    pub fn into_pixels(self, font: &FontMetrics) -> (r: u32)
        ensures
            r == tab_pixels(self, font.char_width as int),
    {
        match self {
            TabSize::Spaces(n) => {
                let w = font.str_width_nocr(n);
                if w <= u32::MAX as u64 {
                    w as u32
                } else {
                    u32::MAX
                }
            },
            TabSize::Pixels(p) => p,
        }
    }
}

/// Where the text is placed vertically inside the box.
#[derive(Copy, Clone, Debug, PartialEq, Eq, Structural)]
pub enum VerticalAlignment {
    /// Text starts at the top edge.
    Top,
    /// Text is centered vertically.
    Middle,
    /// Text ends at the bottom edge.
    Bottom,
    /// Text starts at the top if it fits, otherwise its end is shown.
    Scrolling,
}

/// What happens to a line that crosses the bottom edge of the box.
#[derive(Copy, Clone, Debug, PartialEq, Eq, Structural)]
pub enum VerticalOverdraw {
    /// Only lines that fit entirely are drawn.
    FullRowsOnly,
    /// The part of the line inside the box is drawn.
    Visible,
    /// The whole line is drawn; the display clips it.
    Hidden,
}

/// How the height of the box is decided.
#[derive(Copy, Clone, Debug, PartialEq, Eq, Structural)]
pub enum HeightMode {
    /// The box keeps its height.
    Exact(VerticalOverdraw),
    /// The box takes the height of the text.
    FitToText,
    /// The box shrinks to the height of the text, but never grows.
    ShrinkToText(VerticalOverdraw),
}

/// The style of a text box.
#[derive(Copy, Clone, Debug, PartialEq, Eq, Structural)]
pub struct TextBoxStyle {
    /// The font.
    pub font: FontMetrics,
    /// Horizontal alignment.
    pub alignment: HorizontalAlignment,
    /// Vertical alignment.
    pub vertical_alignment: VerticalAlignment,
    /// Height mode.
    pub height_mode: HeightMode,
    /// Extra pixels between lines.
    pub line_spacing: u32,
    /// Distance between tab stops.
    pub tab_size: TabSize,
    /// Extra pixels after the last line of a paragraph.
    pub paragraph_spacing: u32,
    /// Whether whitespace before the first word of a line is rendered.
    pub leading_spaces: bool,
    /// Whether whitespace at the end of a line is rendered.
    pub trailing_spaces: bool,
}

impl TextBoxStyle {
    /// A style with left and top alignment, an exact height that draws full rows only, no extra
    /// spacing, tab stops every four characters, and leading and trailing whitespace rendered.
    pub fn new(font: FontMetrics) -> (s: TextBoxStyle)
        ensures
            s == (TextBoxStyle {
                font,
                alignment: HorizontalAlignment::Left,
                vertical_alignment: VerticalAlignment::Top,
                height_mode: HeightMode::Exact(VerticalOverdraw::FullRowsOnly),
                line_spacing: 0,
                tab_size: TabSize::Spaces(4),
                paragraph_spacing: 0,
                leading_spaces: true,
                trailing_spaces: true,
            }),
    {
        TextBoxStyle {
            font,
            alignment: HorizontalAlignment::Left,
            vertical_alignment: VerticalAlignment::Top,
            height_mode: HeightMode::Exact(VerticalOverdraw::FullRowsOnly),
            line_spacing: 0,
            tab_size: TabSize::Spaces(4),
            paragraph_spacing: 0,
            leading_spaces: true,
            trailing_spaces: true,
        }
    }
}

/// Builds a [`TextBoxStyle`] step by step, starting from the defaults of [`TextBoxStyle::new`].
pub struct TextBoxStyleBuilder {
    style: TextBoxStyle,
}

impl TextBoxStyleBuilder {
    pub closed spec fn style_spec(&self) -> TextBoxStyle {
        self.style
    }

    /// Starts from the default style for a font.
    pub fn new(font: FontMetrics) -> (b: TextBoxStyleBuilder)
        ensures
            b.style_spec() == (TextBoxStyle {
                font,
                alignment: HorizontalAlignment::Left,
                vertical_alignment: VerticalAlignment::Top,
                height_mode: HeightMode::Exact(VerticalOverdraw::FullRowsOnly),
                line_spacing: 0,
                tab_size: TabSize::Spaces(4),
                paragraph_spacing: 0,
                leading_spaces: true,
                trailing_spaces: true,
            }),
    {
        TextBoxStyleBuilder { style: TextBoxStyle::new(font) }
    }

    /// Sets the horizontal alignment, and with it whether leading and trailing whitespace is
    /// rendered as the alignment wants it.
    pub fn alignment(self, alignment: HorizontalAlignment) -> (b: TextBoxStyleBuilder)
        ensures
            b.style_spec() == (TextBoxStyle {
                alignment,
                leading_spaces: alignment.starting_spaces_spec(),
                trailing_spaces: alignment.ending_spaces_spec(),
                ..self.style_spec()
            }),
    {
        TextBoxStyleBuilder {
            style: TextBoxStyle {
                alignment,
                leading_spaces: alignment.starting_spaces(),
                trailing_spaces: alignment.ending_spaces(),
                ..self.style
            },
        }
    }

    /// Sets whether whitespace before the first word of a line is rendered.
    pub fn leading_spaces(self, leading_spaces: bool) -> (b: TextBoxStyleBuilder)
        ensures
            b.style_spec() == (TextBoxStyle { leading_spaces, ..self.style_spec() }),
    {
        TextBoxStyleBuilder { style: TextBoxStyle { leading_spaces, ..self.style } }
    }

    /// Sets whether whitespace at the end of a line is rendered.
    pub fn trailing_spaces(self, trailing_spaces: bool) -> (b: TextBoxStyleBuilder)
        ensures
            b.style_spec() == (TextBoxStyle { trailing_spaces, ..self.style_spec() }),
    {
        TextBoxStyleBuilder { style: TextBoxStyle { trailing_spaces, ..self.style } }
    }

    /// Sets the vertical alignment.
    pub fn vertical_alignment(self, vertical_alignment: VerticalAlignment) -> (b:
        TextBoxStyleBuilder)
        ensures
            b.style_spec() == (TextBoxStyle { vertical_alignment, ..self.style_spec() }),
    {
        TextBoxStyleBuilder { style: TextBoxStyle { vertical_alignment, ..self.style } }
    }

    /// Sets the height mode.
    pub fn height_mode(self, height_mode: HeightMode) -> (b: TextBoxStyleBuilder)
        ensures
            b.style_spec() == (TextBoxStyle { height_mode, ..self.style_spec() }),
    {
        TextBoxStyleBuilder { style: TextBoxStyle { height_mode, ..self.style } }
    }

    /// Sets the extra pixels between lines.
    pub fn line_spacing(self, line_spacing: u32) -> (b: TextBoxStyleBuilder)
        ensures
            b.style_spec() == (TextBoxStyle { line_spacing, ..self.style_spec() }),
    {
        TextBoxStyleBuilder { style: TextBoxStyle { line_spacing, ..self.style } }
    }

    /// Sets the extra pixels after a paragraph.
    pub fn paragraph_spacing(self, paragraph_spacing: u32) -> (b: TextBoxStyleBuilder)
        ensures
            b.style_spec() == (TextBoxStyle { paragraph_spacing, ..self.style_spec() }),
    {
        TextBoxStyleBuilder { style: TextBoxStyle { paragraph_spacing, ..self.style } }
    }

    /// Sets the distance between tab stops.
    pub fn tab_size(self, tab_size: TabSize) -> (b: TextBoxStyleBuilder)
        ensures
            b.style_spec() == (TextBoxStyle { tab_size, ..self.style_spec() }),
    {
        TextBoxStyleBuilder { style: TextBoxStyle { tab_size, ..self.style } }
    }

    /// The style.
    pub fn build(self) -> (s: TextBoxStyle)
        ensures
            s == self.style_spec(),
    {
        self.style
    }
}

} // verus!
