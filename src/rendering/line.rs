//! One line: measure it, place it, and lay out its elements.
use vstd::prelude::*;

use crate::alignment::HorizontalAlignment;
use crate::parser::{Parser, Token};
use crate::rendering::cursor::LineCursor;
use crate::rendering::justify::{
    last_content,
    last_content_index,
    lemma_justified_line_fills,
    lemma_no_moves_within,
    lemma_shifted_chain,
    lemma_stretched_elements,
    shift_line,
    shifted,
    stretch_line,
    stretched,
};
use crate::rendering::line_iter::{
    element_width,
    elements_width,
    lemma_chain_width,
    lemma_pen_moves_forward,
    line_of,
    placed_chain,
    printable,
    token_wf,
    LineElementParser,
    LineModel,
    PlacedElement,
    RenderElement,
};
use crate::rendering::space_config::{
    lemma_justified_spaces_fill_slack,
    spaces_width,
    JustifiedSpaceConfig,
};

verus! {

/// What the measuring pass found out about a line.
#[derive(Copy, Clone, Debug, PartialEq, Eq, Structural)]
pub struct LineMeasurement {
    /// How far right the line reaches, with every space one character wide.
    pub width: u32,
    /// Total width of the spaces between words.
    pub space_width: u64,
    /// Number of spaces between words.
    pub space_count: u64,
    /// Total width of the spaces after the last word.
    pub trailing_space_width: u64,
    /// Whether the line ends a paragraph (the text, or a newline, follows).
    pub last_line: bool,
    /// The token that the next line starts with.
    pub carried_token: Option<Token>,
    /// Whether the line moves the pen by a control sequence.
    pub moves_cursor: bool,
}

/// The rightmost position at which an element starts (0 for no element).
pub open spec fn max_x(es: Seq<PlacedElement>) -> int
    decreases es.len(),
{
    if es.len() == 0 {
        0
    } else {
        let m = max_x(es.drop_last());
        if es.last().x > m {
            es.last().x as int
        } else {
            m
        }
    }
}

/// Whether an element moves the pen by a control sequence.
pub open spec fn has_move(es: Seq<PlacedElement>) -> bool
    decreases es.len(),
{
    if es.len() == 0 {
        false
    } else {
        has_move(es.drop_last()) || es.last().element is MoveCursor
    }
}

/// Spaces between words and after the last word of a sequence of elements:
/// `(space width, space count, trailing width, trailing count)`. Spaces become "between words"
/// once something is printed after them; a tab counts as printed content.
pub open spec fn space_stats(es: Seq<PlacedElement>) -> (int, int, int, int)
    decreases es.len(),
{
    if es.len() == 0 {
        (0, 0, 0, 0)
    } else {
        let (sp, sc, tp, tc) = space_stats(es.drop_last());
        match es.last().element {
            RenderElement::Space(w, n) => if n > 0 {
                (sp, sc, tp + w, tc + n)
            } else {
                (sp + tp, sc + tc, 0, 0)
            },
            RenderElement::PrintedCharacters(_, _) => (sp + tp, sc + tc, 0, 0),
            RenderElement::PrintedGlyph(_) => (sp + tp, sc + tc, 0, 0),
            _ => (sp, sc, tp, tc),
        }
    }
}

/// A line ends a paragraph when nothing, or a newline, follows it.
pub open spec fn is_last_line(carried: Option<Token>) -> bool {
    carried is None || carried == Some(Token::NewLine)
}

/// The measurement of a laid-out line: its final state and its elements. (A line of more than
/// `u32::MAX` elements reports no spaces.)
pub open spec fn measurement_of(line: (LineModel, Seq<PlacedElement>)) -> LineMeasurement {
    let st = if line.1.len() <= u32::MAX {
        space_stats(line.1)
    } else {
        (0, 0, 0, 0)
    };
    LineMeasurement {
        width: (if line.0.x > max_x(line.1) {
            line.0.x
        } else {
            max_x(line.1)
        }) as u32,
        space_width: st.0 as u64,
        space_count: st.1 as u64,
        trailing_space_width: st.2 as u64,
        last_line: is_last_line(line.0.carried),
        carried_token: line.0.carried,
        moves_cursor: has_move(line.1),
    }
}

/// Whether a measured line is drawn with stretched spaces: a justified line that does not end
/// its paragraph, with at least one space between words and no cursor movement.
pub open spec fn stretches(alignment: HorizontalAlignment, m: LineMeasurement, line_width: int) -> bool {
    let content = m.width - m.trailing_space_width - m.space_width;
    &&& alignment is Justified
    &&& !m.last_line
    &&& m.space_count > 0
    &&& 0 <= content <= line_width
    &&& m.space_count <= u32::MAX
    &&& !m.moves_cursor
}

/// A line as the renderer lays it out from position `pos`: measured with one-character spaces
/// from the left edge, then placed by the alignment. A stretched line keeps the measured elements
/// with the spaces between words widened (and spaces after the last word not drawn); any other
/// line keeps the measured elements, moved right by the left offset. Either way the line takes
/// exactly the tokens that the measurement took.
pub open spec fn rendered_line(
    text: Seq<char>,
    pos: int,
    carried: Option<Token>,
    width: u32,
    tab_width: u32,
    alignment: HorizontalAlignment,
    leading_spaces: bool,
    trailing_spaces: bool,
    char_width: u32,
) -> (LineModel, Seq<PlacedElement>) {
    let measure = line_of(
        text,
        pos,
        LineCursor { width, position: 0, tab_width },
        JustifiedSpaceConfig { space_width: char_width, space_count: 0 },
        carried,
        leading_spaces,
        trailing_spaces,
        char_width,
    );
    let m = measurement_of(measure);
    let (left, config) = placement(alignment, m, width as int, char_width);
    if stretches(alignment, m, width as int) {
        let st = stretched(measure.1, last_content(measure.1), config, width as int, char_width as int);
        (LineModel { x: st.1, ..measure.0 }, st.0)
    } else {
        (LineModel { x: left + measure.0.x, ..measure.0 }, shifted(measure.1, left))
    }
}

/// Adds up the spaces of a line.
pub fn space_statistics(es: &Vec<PlacedElement>) -> (r: (u64, u64, u64, u64))
    requires
        es@.len() <= u32::MAX,
    ensures
        r.0 == space_stats(es@).0,
        r.1 == space_stats(es@).1,
        r.2 == space_stats(es@).2,
        r.3 == space_stats(es@).3,
{
    let mut sp: u64 = 0;
    let mut sc: u64 = 0;
    let mut tp: u64 = 0;
    let mut tc: u64 = 0;
    let mut i: usize = 0;
    while i < es.len()
        invariant
            i <= es@.len() <= u32::MAX,
            (sp as int, sc as int, tp as int, tc as int) == space_stats(es@.subrange(0, i as int)),
            sp + tp <= i * u32::MAX,
            sc + tc <= i * u32::MAX,
        decreases es@.len() - i,
    {
        let ghost prefix = es@.subrange(0, i as int);
        assert(es@.subrange(0, (i + 1) as int).drop_last() == prefix);
        proof {
            assert(i * u32::MAX + u32::MAX == (i + 1) * u32::MAX) by (nonlinear_arith);
            assert((i + 1) * u32::MAX <= u32::MAX * u32::MAX) by (nonlinear_arith)
                requires
                    i < u32::MAX,
            ;
        }
        match es[i].element {
            RenderElement::Space(w, n) => {
                if n > 0 {
                    tp = tp + w as u64;
                    tc = tc + n as u64;
                } else {
                    sp = sp + tp;
                    sc = sc + tc;
                    tp = 0;
                    tc = 0;
                }
            },
            RenderElement::PrintedCharacters(_, _) | RenderElement::PrintedGlyph(_) => {
                sp = sp + tp;
                sc = sc + tc;
                tp = 0;
                tc = 0;
            },
            _ => {},
        }
        i = i + 1;
    }
    assert(es@.subrange(0, es@.len() as int) == es@);
    (sp, sc, tp, tc)
}

/// The rightmost start of an element, and whether any element moves the pen.
pub fn reach_and_moves(es: &Vec<PlacedElement>) -> (r: (u32, bool))
    ensures
        r.0 == max_x(es@),
        r.1 == has_move(es@),
        forall|i: int| 0 <= i < es@.len() ==> #[trigger] es@[i].x <= r.0,
        !r.1 ==> forall|i: int| 0 <= i < es@.len() ==> !(#[trigger] es@[i].element is MoveCursor),
{
    let mut m: u32 = 0;
    let mut mv = false;
    let mut i: usize = 0;
    while i < es.len()
        invariant
            i <= es@.len(),
            m == max_x(es@.subrange(0, i as int)),
            mv == has_move(es@.subrange(0, i as int)),
            forall|j: int| 0 <= j < i ==> #[trigger] es@[j].x <= m,
            !mv ==> forall|j: int| 0 <= j < i ==> !(#[trigger] es@[j].element is MoveCursor),
        decreases es@.len() - i,
    {
        assert(es@.subrange(0, (i + 1) as int).drop_last() == es@.subrange(0, i as int));
        if es[i].x > m {
            m = es[i].x;
        }
        let is_move = match es[i].element {
            RenderElement::MoveCursor(_) => true,
            _ => false,
        };
        mv = mv || is_move;
        i = i + 1;
    }
    assert(es@.subrange(0, es@.len() as int) == es@);
    (m, mv)
}

/// The left offset and the whitespace widths of a line, for an alignment.
pub open spec fn placement(
    alignment: HorizontalAlignment,
    m: LineMeasurement,
    line_width: int,
    char_width: u32,
) -> (int, JustifiedSpaceConfig) {
    let uniform = JustifiedSpaceConfig { space_width: char_width, space_count: 0 };
    let content = m.width - m.trailing_space_width - m.space_width;
    match alignment {
        HorizontalAlignment::Left => (0, uniform),
        HorizontalAlignment::Right => (if m.width <= line_width {
            line_width - m.width
        } else {
            0
        }, uniform),
        HorizontalAlignment::Center => (if m.width <= line_width {
            (line_width - m.width) / 2
        } else {
            0
        }, uniform),
        HorizontalAlignment::Justified => if !m.last_line && m.space_count > 0 && 0 <= content
            <= line_width && m.space_count <= u32::MAX && !m.moves_cursor {
            let slack = line_width - content;
            (
                0,
                JustifiedSpaceConfig {
                    space_width: (slack / m.space_count as int) as u32,
                    space_count: (slack % m.space_count as int) as u32,
                },
            )
        } else {
            (0, uniform)
        },
    }
}

/// Places a measured line: the left offset and the whitespace widths.
pub fn place_line(
    alignment: HorizontalAlignment,
    m: &LineMeasurement,
    line_width: u32,
    char_width: u32,
) -> (r: (u32, JustifiedSpaceConfig, bool))
    ensures
        (r.0 as int, r.1) == placement(alignment, *m, line_width as int, char_width),
        r.2 == stretches(alignment, *m, line_width as int),
        r.0 <= line_width,
        m.width <= line_width ==> r.0 + m.width <= line_width,
        ({
            let content = m.width - m.trailing_space_width - m.space_width;
            stretches(alignment, *m, line_width as int) ==> spaces_width(
                r.1.space_width as int,
                r.1.space_count as int,
                m.space_count as int,
            ) == line_width - content
        }),
{
    let uniform = JustifiedSpaceConfig::uniform(char_width);
    match alignment {
        HorizontalAlignment::Left => (0, uniform, false),
        HorizontalAlignment::Right => (
            if m.width <= line_width {
                line_width - m.width
            } else {
                0
            },
            uniform,
            false,
        ),
        HorizontalAlignment::Center => (
            if m.width <= line_width {
                (line_width - m.width) / 2
            } else {
                0
            },
            uniform,
            false,
        ),
        HorizontalAlignment::Justified => {
            let sub = m.trailing_space_width as u128 + m.space_width as u128;
            if !m.last_line && m.space_count > 0 && sub <= m.width as u128 && m.space_count
                <= u32::MAX as u64 && !m.moves_cursor {
                let content = (m.width as u128 - sub) as u32;
                if content <= line_width {
                    let slack = line_width - content;
                    let count = m.space_count as u32;
                    proof {
                        lemma_justified_spaces_fill_slack(slack, count);
                    }
                    (0, JustifiedSpaceConfig::new(slack / count, slack % count), true)
                } else {
                    (0, uniform, false)
                }
            } else {
                (0, uniform, false)
            }
        },
    }
}

/// A line that has been laid out.
pub struct RenderedLine {
    /// The elements, with the pen position (from the line's left edge) at which each is drawn.
    pub elements: Vec<PlacedElement>,
    /// Where the pen ends.
    pub end: u32,
    /// The measurement the line was placed by.
    pub measurement: LineMeasurement,
    /// The left offset chosen by the alignment.
    pub left: u32,
    /// The whitespace widths chosen by the alignment.
    pub space_config: JustifiedSpaceConfig,
    /// The parser, advanced past this line.
    pub parser: Parser,
    /// The token that the next line starts with.
    pub carried_token: Option<Token>,
}

/// Renders a single line of text.
pub struct StyledLineRenderer {
    parser: Parser,
    cursor: LineCursor,
    alignment: HorizontalAlignment,
    leading_spaces: bool,
    trailing_spaces: bool,
    char_width: u32,
    carried_token: Option<Token>,
}

impl StyledLineRenderer {
    pub closed spec fn wf(&self) -> bool {
        &&& self.parser.wf()
        &&& self.cursor.wf()
        &&& self.cursor.position == 0
        &&& self.carried_token matches Some(t) ==> token_wf(t, self.parser.text())
    }

    pub closed spec fn text(&self) -> Seq<char> {
        self.parser.text()
    }

    pub closed spec fn pos(&self) -> int {
        self.parser.pos()
    }

    pub closed spec fn line_width(&self) -> int {
        self.cursor.width as int
    }

    pub closed spec fn carried(&self) -> Option<Token> {
        self.carried_token
    }

    pub closed spec fn char_width_spec(&self) -> int {
        self.char_width as int
    }

    pub closed spec fn alignment_spec(&self) -> HorizontalAlignment {
        self.alignment
    }

    pub closed spec fn leading_spaces_spec(&self) -> bool {
        self.leading_spaces
    }

    pub closed spec fn trailing_spaces_spec(&self) -> bool {
        self.trailing_spaces
    }

    pub closed spec fn tab_width(&self) -> u32 {
        self.cursor.tab_width
    }

    /// The line as the measuring pass lays it out: from the left edge, every space one
    /// character wide.
    pub open spec fn measure_pass(&self) -> (LineModel, Seq<PlacedElement>) {
        line_of(
            self.text(),
            self.pos(),
            LineCursor { width: self.line_width() as u32, position: 0, tab_width: self.tab_width() },
            JustifiedSpaceConfig { space_width: self.char_width_spec() as u32, space_count: 0 },
            self.carried(),
            self.leading_spaces_spec(),
            self.trailing_spaces_spec(),
            self.char_width_spec() as u32,
        )
    }

    /// Creates a new line renderer.
    pub fn new(
        parser: Parser,
        cursor: LineCursor,
        alignment: HorizontalAlignment,
        leading_spaces: bool,
        trailing_spaces: bool,
        char_width: u32,
        carried_token: Option<Token>,
    ) -> (r: StyledLineRenderer)
        requires
            parser.wf(),
            cursor.wf(),
            cursor.position == 0,
            carried_token matches Some(t) ==> token_wf(t, parser.text()),
        ensures
            r.wf(),
            r.text() == parser.text(),
            r.pos() == parser.pos(),
            r.line_width() == cursor.width,
            r.carried() == carried_token,
            r.char_width_spec() == char_width,
            r.alignment_spec() == alignment,
            r.leading_spaces_spec() == leading_spaces,
            r.trailing_spaces_spec() == trailing_spaces,
            r.tab_width() == cursor.tab_width,
    {
        StyledLineRenderer {
            parser,
            cursor,
            alignment,
            leading_spaces,
            trailing_spaces,
            char_width,
            carried_token,
        }
    }

    /// Measures the line with one-character spaces.
    pub fn measure(&self) -> (m: LineMeasurement)
        requires
            self.wf(),
        ensures
            m.width <= self.line_width(),
            m.last_line == is_last_line(m.carried_token),
            m == measurement_of(self.measure_pass()),
    {
        let (m, _, _, _) = self.measure_line();
        m
    }

    /// Runs the measuring pass: the measurement, the elements, where the pen ends and the
    /// advanced parser.
    fn measure_line(&self) -> (r: (LineMeasurement, Vec<PlacedElement>, u32, Parser))
        requires
            self.wf(),
        ensures
            r.0 == measurement_of(self.measure_pass()),
            r.0.width <= self.line_width(),
            r.0.last_line == is_last_line(r.0.carried_token),
            r.1@ == self.measure_pass().1,
            r.2 == self.measure_pass().0.x,
            r.2 <= r.0.width,
            r.1@.len() <= u32::MAX ==> r.0.space_width == space_stats(r.1@).0 && r.0.space_count
                == space_stats(r.1@).1 && r.0.trailing_space_width == space_stats(r.1@).2,
            r.0.width == if r.2 > max_x(r.1@) {
                r.2 as int
            } else {
                max_x(r.1@)
            },
            forall|i: int| 0 <= i < r.1@.len() ==> #[trigger] r.1@[i].x <= r.0.width,
            !r.0.moves_cursor ==> forall|i: int|
                0 <= i < r.1@.len() ==> !(#[trigger] r.1@[i].element is MoveCursor),
            r.3.wf(),
            r.3.text() == self.text(),
            r.3.pos() == self.measure_pass().0.pos,
            r.3.pos() >= self.pos(),
            r.0.carried_token == self.measure_pass().0.carried,
            r.0.carried_token matches Some(t) ==> token_wf(t, self.text()),
            r.0.carried_token == Some(Token::CarriageReturn) ==> r.3.pos() > self.pos(),
            placed_chain(r.1@, 0, r.2 as int, self.char_width_spec()),
            forall|i: int| 0 <= i < r.1@.len() ==> #[trigger] r.1@[i].x <= self.line_width(),
            forall|i: int|
                0 <= i < r.1@.len() ==> (#[trigger] r.1@[i].element is MoveCursor || element_width(
                    r.1@[i].element,
                    self.char_width_spec(),
                ) >= 0),
            forall|i: int|
                0 <= i < r.1@.len() ==> (#[trigger] r.1@[i].element matches RenderElement::PrintedCharacters(
                    a,
                    b,
                ) ==> printable(self.text(), a as int, b as int)),
    {
        let mut elements = LineElementParser::new(
            self.parser.duplicate(),
            self.cursor,
            JustifiedSpaceConfig::uniform(self.char_width),
            self.carried_token,
            self.leading_spaces,
            self.trailing_spaces,
            self.char_width,
        );
        let placed = elements.process();
        let carried = elements.carried_token();
        let end = elements.cursor().position;
        let parser = elements.into_parser();
        let stats = if placed.len() <= u32::MAX as usize {
            space_statistics(&placed)
        } else {
            (0, 0, 0, 0)
        };
        let last_line = match carried {
            None => true,
            Some(Token::NewLine) => true,
            _ => false,
        };
        let (reach, moves_cursor) = reach_and_moves(&placed);
        proof {
            lemma_max_x_within(placed@, self.cursor.width as int);
        }
        (
            LineMeasurement {
                width: if end > reach {
                    end
                } else {
                    reach
                },
                space_width: stats.0,
                space_count: stats.1,
                trailing_space_width: stats.2,
                last_line,
                carried_token: carried,
                moves_cursor,
            },
            placed,
            end,
            parser,
        )
    }

    /// Lays the line out: measures it, then places the measured elements by the alignment. The
    /// line takes exactly the tokens that the measurement took. A justified line that does not
    /// end its paragraph gets its spaces between words stretched so that it ends at the right
    /// edge, and spaces after its last word are not drawn; any other line is moved right by the
    /// alignment's offset, keeping the measured widths (tab stops included).
    pub fn draw(self) -> (r: RenderedLine)
        requires
            self.wf(),
        ensures
            r.parser.wf(),
            r.parser.text() == self.text(),
            r.parser.pos() >= self.pos(),
            r.carried_token matches Some(t) ==> token_wf(t, r.parser.text()),
            r.carried_token == Some(Token::CarriageReturn) ==> r.parser.pos() > self.pos(),
            r.measurement == measurement_of(self.measure_pass()),
            r.carried_token == r.measurement.carried_token,
            r.parser.pos() == self.measure_pass().0.pos,
            (r.left as int, r.space_config) == placement(
                self.alignment_spec(),
                r.measurement,
                self.line_width(),
                self.char_width_spec() as u32,
            ),
            stretches(self.alignment_spec(), r.measurement, self.line_width()) ==> {
                let content = r.measurement.width - r.measurement.trailing_space_width
                    - r.measurement.space_width;
                &&& r.end == self.line_width()
                &&& space_stats(r.elements@).0 == self.line_width() - content
                &&& space_stats(r.elements@).1 == r.measurement.space_count
                &&& space_stats(r.elements@).2 == 0
            },
            !stretches(self.alignment_spec(), r.measurement, self.line_width()) ==> r.end
                == r.left + self.measure_pass().0.x && r.elements@ == shifted(
                self.measure_pass().1,
                r.left as int,
            ),
            r.left <= self.line_width(),
            r.end <= self.line_width(),
            placed_chain(r.elements@, r.left as int, r.end as int, self.char_width_spec()),
            forall|i: int|
                0 <= i < r.elements@.len() ==> #[trigger] r.elements@[i].x <= self.line_width(),
            forall|i: int|
                0 <= i < r.elements@.len() ==> (#[trigger] r.elements@[i].element is MoveCursor
                    || element_width(r.elements@[i].element, self.char_width_spec()) >= 0),
            r.left + elements_width(r.elements@, self.char_width_spec()) == r.end,
            r.left + elements_width(r.elements@, self.char_width_spec()) <= self.line_width(),
            forall|i: int|
                0 <= i < r.elements@.len() - 1 && !(#[trigger] r.elements@[i].element is MoveCursor)
                    ==> r.elements@[i].x <= r.elements@[i + 1].x,
            forall|i: int|
                0 <= i < r.elements@.len() ==> (#[trigger] r.elements@[i].element matches RenderElement::PrintedCharacters(
                    a,
                    b,
                ) ==> printable(self.text(), a as int, b as int)),
            (r.end as int, r.elements@, r.carried_token, r.parser.pos()) == ({
                let line = rendered_line(
                    self.text(),
                    self.pos(),
                    self.carried(),
                    self.line_width() as u32,
                    self.tab_width(),
                    self.alignment_spec(),
                    self.leading_spaces_spec(),
                    self.trailing_spaces_spec(),
                    self.char_width_spec() as u32,
                );
                (line.0.x, line.1, line.0.carried, line.0.pos)
            }),
    {
        let (measurement, measured, measured_end, parser) = self.measure_line();
        let lw = self.cursor.width;
        let cw = self.char_width;
        let (left, space_config, stretch) = place_line(self.alignment, &measurement, lw, cw);
        let ghost ms = self.measure_pass();
        if stretch {
            let last = last_content_index(&measured);
            proof {
                lemma_no_moves_within(measured@, 0, measured_end as int, cw as int);
                lemma_max_x_within(measured@, measured_end as int);
                assert(measurement.width == measured_end);
                assert(measured@.len() <= u32::MAX);
                lemma_justified_line_fills(measured@, space_config, lw as int, cw as int, measured_end as int);
                lemma_stretched_elements(measured@, last_content(measured@), space_config, lw as int, cw as int);
            }
            let (elements, end) = stretch_line(&measured, last, space_config, lw, cw);
            proof {
                let st = elements@;
                assert forall|i: int| 0 <= i < st.len() implies (#[trigger] st[i].element is MoveCursor
                    || element_width(st[i].element, cw as int) >= 0) by {
                    assert(measured@[i].element is MoveCursor || element_width(measured@[i].element, cw as int) >= 0);
                }
                assert forall|i: int| 0 <= i < st.len() implies (#[trigger] st[i].element matches RenderElement::PrintedCharacters(
                    a,
                    b,
                ) ==> printable(self.text(), a as int, b as int)) by {
                    assert(measured@[i].element matches RenderElement::PrintedCharacters(a, b) ==> printable(self.text(), a as int, b as int));
                }
                lemma_chain_width(st, 0, end as int, cw as int);
                lemma_pen_moves_forward(st, 0, end as int, cw as int);
            }
            RenderedLine {
                elements,
                end,
                measurement,
                left,
                space_config,
                parser,
                carried_token: measurement.carried_token,
            }
        } else {
            let elements = shift_line(&measured, left, measurement.width);
            proof {
                lemma_shifted_chain(measured@, left as int, measured_end as int, measurement.width as int, cw as int);
                let sh = elements@;
                assert forall|i: int| 0 <= i < sh.len() implies #[trigger] sh[i].x <= lw by {
                    assert(measured@[i].x <= measurement.width);
                }
                assert forall|i: int| 0 <= i < sh.len() implies (#[trigger] sh[i].element is MoveCursor
                    || element_width(sh[i].element, cw as int) >= 0) by {
                    assert(sh[i].element == measured@[i].element);
                }
                assert forall|i: int| 0 <= i < sh.len() implies (#[trigger] sh[i].element matches RenderElement::PrintedCharacters(
                    a,
                    b,
                ) ==> printable(self.text(), a as int, b as int)) by {
                    assert(sh[i].element == measured@[i].element);
                }
                lemma_chain_width(sh, left as int, left + measured_end, cw as int);
                lemma_pen_moves_forward(sh, left as int, left + measured_end, cw as int);
            }
            RenderedLine {
                elements,
                end: left + measured_end,
                measurement,
                left,
                space_config,
                parser,
                carried_token: measurement.carried_token,
            }
        }
    }
}

/// No element of a line starts right of where the line ends, so its reach is its end.
pub proof fn lemma_max_x_within(es: Seq<PlacedElement>, end: int)
    requires
        forall|i: int| 0 <= i < es.len() ==> #[trigger] es[i].x <= end,
        0 <= end,
    ensures
        max_x(es) <= end,
    decreases es.len(),
{
    if es.len() > 0 {
        let prev = es.drop_last();
        assert forall|i: int| 0 <= i < prev.len() implies #[trigger] prev[i].x <= end by {
            assert(prev[i] == es[i]);
        }
        assert(es.last() == es[es.len() - 1]);
        lemma_max_x_within(prev, end);
    }
}

} // verus!
