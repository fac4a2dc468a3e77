use embedded_text::alignment::HorizontalAlignment;
use embedded_text::parser::ansi::{Rgb, Sgr};
use embedded_text::parser::{Parser, Token};
use embedded_text::rendering::cursor::{Cursor, LineCursor};
use embedded_text::rendering::line::{place_line, LineMeasurement, StyledLineRenderer};
use embedded_text::rendering::line_iter::{LineElementParser, RenderElement};
use embedded_text::rendering::space_config::JustifiedSpaceConfig;

#[derive(Debug, PartialEq, Eq)]
enum E {
    Chars(String),
    Space(u32, u32),
    Move(i64),
    Sgr(Sgr),
}

fn chars(s: &str) -> E {
    E::Chars(s.to_string())
}

fn convert(text: &[char], e: RenderElement) -> E {
    match e {
        RenderElement::Space(w, n) => E::Space(w, n),
        RenderElement::PrintedCharacters(a, b) => E::Chars(text[a..b].iter().collect()),
        RenderElement::PrintedGlyph(c) => E::Chars(c.to_string()),
        RenderElement::MoveCursor(d) => E::Move(d),
        RenderElement::Sgr(s) => E::Sgr(s),
    }
}

/// Lays out one left-aligned line of at most `max_chars` 6-pixel characters, with tab stops
/// every four characters.
fn assert_line_elements(
    parser: Parser,
    carried: Option<Token>,
    max_chars: u32,
    elements: &[E],
) -> (Parser, Option<Token>) {
    let text: Vec<char> = parser.text_chars().clone();
    let cursor = LineCursor::new(max_chars * 6, 6 * 4);
    let mut line = LineElementParser::new(
        parser,
        cursor,
        JustifiedSpaceConfig::uniform(6),
        carried,
        true,
        true,
        6,
    );
    let got: Vec<E> = line.process().into_iter().map(|p| convert(&text, p.element)).collect();
    assert_eq!(got, elements);
    let carried = line.carried_token();
    (line.into_parser(), carried)
}

#[test]
fn soft_hyphen_no_wrapping() {
    let parser = Parser::parse("sam\u{00AD}ple");
    assert_line_elements(parser, None, 6, &[chars("sam"), chars("ple")]);
}

#[test]
fn soft_hyphen() {
    let parser = Parser::parse("sam\u{00AD}ple");
    let (parser, carried) = assert_line_elements(parser, None, 5, &[chars("sam"), chars("-")]);
    assert_line_elements(parser, carried, 5, &[chars("ple")]);
}

#[test]
fn soft_hyphen_issue_42() {
    let parser = Parser::parse("super\u{AD}cali\u{AD}fragi\u{AD}listic\u{AD}espeali\u{AD}docious");
    let (parser, carried) = assert_line_elements(parser, None, 5, &[chars("super")]);
    assert_line_elements(parser, carried, 5, &[chars("-"), chars("cali")]);
}

#[test]
fn nbsp_is_rendered_as_space() {
    let parser = Parser::parse("glued\u{a0}words");
    assert_line_elements(parser, None, 50, &[chars("glued"), E::Space(6, 1), chars("words")]);
}

#[test]
fn tabs() {
    let parser = Parser::parse("a\tword\nand\t\tanother\t");
    let (parser, carried) = assert_line_elements(
        parser,
        None,
        16,
        &[chars("a"), E::Space(6 * 3, 0), chars("word")],
    );
    assert_eq!(carried, Some(Token::NewLine));
    assert_line_elements(
        parser,
        carried,
        16,
        &[
            chars("and"),
            E::Space(6, 0),
            E::Space(6 * 4, 0),
            chars("another"),
            E::Space(6, 0),
        ],
    );
}

#[test]
fn cursor_limit() {
    let parser = Parser::parse("Some sample text");
    assert_line_elements(parser, None, 2, &[chars("So")]);
}

#[test]
fn colors() {
    let parser = Parser::parse("Lorem \x1b[92mIpsum");
    assert_line_elements(
        parser,
        None,
        100,
        &[
            chars("Lorem"),
            E::Space(6, 1),
            E::Sgr(Sgr::ChangeTextColor(Rgb::new(22, 198, 12))),
            chars("Ipsum"),
        ],
    );
}

#[test]
fn ansi_code_does_not_break_word() {
    let parser = Parser::parse("Lorem foo\x1b[92mbarum");
    let (parser, _) = assert_line_elements(parser, None, 8, &[chars("Lorem")]);
    assert_line_elements(
        parser,
        None,
        8,
        &[
            chars("foo"),
            E::Sgr(Sgr::ChangeTextColor(Rgb::new(22, 198, 12))),
            chars("barum"),
        ],
    );
}

#[test]
fn ansi_cursor_backwards() {
    let parser = Parser::parse("foo\x1b[2Dsample");
    assert_line_elements(parser, None, 7, &[chars("foo"), E::Move(-12), chars("sample")]);
}

#[test]
fn cursor_backwards_stops_at_line_start() {
    let parser = Parser::parse("ab\x1b[9Dc");
    assert_line_elements(parser, None, 7, &[chars("ab"), E::Move(-12), chars("c")]);
}

#[test]
fn long_word_is_split_without_hyphen() {
    let parser = Parser::parse("word somereallylongword");
    let (parser, carried) = assert_line_elements(parser, None, 9, &[chars("word")]);
    let (parser, carried) = assert_line_elements(parser, carried, 9, &[chars("somereall")]);
    assert_line_elements(parser, carried, 9, &[chars("ylongword")]);
}

#[test]
fn zero_width_space_is_a_break() {
    let parser = Parser::parse("two\u{200B}words");
    let (parser, carried) = assert_line_elements(parser, None, 4, &[chars("two")]);
    assert_eq!(carried, Some(Token::Break(None)));
    assert_line_elements(parser, carried, 4, &[chars("word")]);
}

fn render(text: &str, width: u32, alignment: HorizontalAlignment) -> Vec<Vec<(u32, E)>> {
    let mut parser = Parser::parse(text);
    let chars: Vec<char> = parser.text_chars().clone();
    let mut carried = None;
    let mut lines = Vec::new();
    while carried.is_some() || !parser.is_empty() {
        let line = StyledLineRenderer::new(
            parser,
            LineCursor::new(width, 24),
            alignment,
            alignment.starting_spaces(),
            alignment.ending_spaces(),
            6,
            carried,
        )
            .draw();
        lines.push(line.elements.iter().map(|p| (p.x, convert(&chars, p.element))).collect());
        parser = line.parser;
        carried = line.carried_token;
    }
    lines
}

#[test]
fn justified_simple_render() {
    let lines = render("word", 55, HorizontalAlignment::Justified);
    assert_eq!(lines, vec![vec![(0, chars("word"))]]);
}

#[test]
fn simple_word_wrapping() {
    let lines = render("word wrapping", 55, HorizontalAlignment::Justified);
    assert_eq!(lines, vec![vec![(0, chars("word"))], vec![(0, chars("wrapping"))]]);
}

#[test]
fn justified_alignment() {
    let lines = render("word and other word last line", 61, HorizontalAlignment::Justified);
    assert_eq!(
        lines,
        vec![
            vec![(0, chars("word")), (24, E::Space(19, 1)), (43, chars("and"))],
            vec![(0, chars("other")), (30, E::Space(7, 1)), (37, chars("word"))],
            vec![(0, chars("last")), (24, E::Space(6, 1)), (30, chars("line"))],
        ]
    );
}

#[test]
fn justified_remainder_goes_to_leading_spaces() {
    // two gaps share 61 - 36 = 25 pixels: 13, then 12
    let lines = render("ab cd ef gh ij", 61, HorizontalAlignment::Justified);
    assert_eq!(
        lines[0],
        vec![
            (0, chars("ab")),
            (12, E::Space(13, 1)),
            (25, chars("cd")),
            (37, E::Space(12, 1)),
            (49, chars("ef")),
        ]
    );
    assert_eq!(lines[1], vec![(0, chars("gh")), (12, E::Space(6, 1)), (18, chars("ij"))]);
}

#[test]
fn right_and_center_alignment() {
    let right = render("ab cd", 60, HorizontalAlignment::Right);
    assert_eq!(right, vec![vec![(30, chars("ab")), (42, E::Space(6, 1)), (48, chars("cd"))]]);
    let center = render("ab cd", 60, HorizontalAlignment::Center);
    assert_eq!(center, vec![vec![(15, chars("ab")), (27, E::Space(6, 1)), (33, chars("cd"))]]);
}

#[test]
fn right_alignment_drops_leading_spaces() {
    let right = render("  ab", 60, HorizontalAlignment::Right);
    assert_eq!(right, vec![vec![(48, chars("ab"))]]);
    let left = render("  ab", 60, HorizontalAlignment::Left);
    assert_eq!(left, vec![vec![(0, E::Space(12, 2)), (12, chars("ab"))]]);
}

#[test]
fn place_line_spreads_slack() {
    let m = LineMeasurement {
        moves_cursor: false,
        width: 48,
        space_width: 12,
        space_count: 2,
        trailing_space_width: 0,
        last_line: false,
        carried_token: Some(Token::Break(None)),
    };
    let (left, config, stretch) = place_line(HorizontalAlignment::Justified, &m, 61, 6);
    assert_eq!(left, 0);
    assert!(stretch);
    // content is 36 pixels: 25 pixels of slack over two spaces
    assert_eq!(config, JustifiedSpaceConfig::new(12, 1));
    let last = LineMeasurement { last_line: true, ..m };
    assert_eq!(
        place_line(HorizontalAlignment::Justified, &last, 61, 6),
        (0, JustifiedSpaceConfig::uniform(6), false)
    );
    let moving = LineMeasurement { moves_cursor: true, ..m };
    assert_eq!(
        place_line(HorizontalAlignment::Justified, &moving, 61, 6),
        (0, JustifiedSpaceConfig::uniform(6), false)
    );
    assert_eq!(place_line(HorizontalAlignment::Center, &m, 61, 6).0, 6);
    assert_eq!(place_line(HorizontalAlignment::Right, &m, 61, 6).0, 13);
}

#[test]
fn justified_space_config() {
    let mut config = JustifiedSpaceConfig::new(5, 2);
    assert_eq!(config.peek_next_width(3), 17);
    assert_eq!(config.consume(1), 6);
    assert_eq!(config.consume(2), 11);
    assert_eq!(config.consume(1), 5);
    assert_eq!(config.peek_next_width(0), 0);
}

#[test]
fn cursor_geometry() {
    let mut c = LineCursor::new(30, 12);
    assert_eq!(c.advance(7), Ok(7));
    assert_eq!(c.next_tab_width(), 5);
    assert_eq!(c.advance(30), Err(23));
    assert_eq!(c.space(), 23);
    assert!(c.rewind(7));
    assert!(!c.rewind(1));
    c.advance_unchecked(28);
    assert_eq!(c.next_tab_width(), 2);
    c.carriage_return();
    assert_eq!(c.position, 0);

    let mut box_cursor = Cursor::new(0, 0, 30, 20, 8, 1, 24);
    assert!(box_cursor.in_display_area());
    assert!(box_cursor.new_line());
    assert_eq!(box_cursor.y, 9);
    assert!(box_cursor.new_line());
    assert!(box_cursor.new_line());
    assert_eq!(box_cursor.y, 27);
    assert!(!box_cursor.in_display_area());
}

#[test]
fn measure_and_render_agree_for_left_alignment() {
    for text in ["word and other word last line", "a\tb c\u{AD}d", "foo\x1b[2Dbar baz"] {
        let cursor = LineCursor::new(61, 24);
        let r1 = StyledLineRenderer::new(Parser::parse(text), cursor, HorizontalAlignment::Left, true, true, 6, None);
        let m = r1.measure();
        let line = r1.draw();
        assert_eq!(m.width, line.end);
        assert_eq!(m.carried_token, line.carried_token);
    }
}

#[test]
fn parse_keeps_characters() {
    let parser = Parser::parse("a😅b");
    assert_eq!(parser.text_chars(), &vec!['a', '😅', 'b']);
    assert_eq!(parser.position(), 0);
}

#[test]
fn word_longer_than_line_wraps_word() {
    let lines = render("word somereallylongword", 55, HorizontalAlignment::Justified);
    assert_eq!(
        lines,
        vec![
            vec![(0, chars("word"))],
            vec![(0, chars("somereall"))],
            vec![(0, chars("ylongword"))],
        ]
    );
}

#[test]
fn first_word_longer_than_line_wraps_word() {
    let lines = render("somereallylongword", 55, HorizontalAlignment::Justified);
    assert_eq!(lines, vec![vec![(0, chars("somereall"))], vec![(0, chars("ylongword"))]]);
}

#[test]
fn nbsp_doesnt_break() {
    let lines = render("a b c\u{a0}d e f", 30, HorizontalAlignment::Left);
    assert_eq!(
        lines,
        vec![
            vec![(0, chars("a")), (6, E::Space(6, 1)), (12, chars("b"))],
            vec![
                (0, chars("c")),
                (6, E::Space(6, 1)),
                (12, chars("d")),
                (18, E::Space(6, 1)),
                (24, chars("e")),
            ],
            vec![(0, chars("f"))],
        ]
    );
}

/// Draws the first line of `text` with left alignment, `max_chars` 6-pixel characters wide.
fn draw_first_line(text: &str, max_chars: u32) -> (Vec<(u32, E)>, Option<Token>) {
    let parser = Parser::parse(text);
    let chars: Vec<char> = parser.text_chars().clone();
    let line = StyledLineRenderer::new(
            parser,
            LineCursor::new(max_chars * 6, 24),
            HorizontalAlignment::Left,
            HorizontalAlignment::Left.starting_spaces(),
            HorizontalAlignment::Left.ending_spaces(),
            6,
            None,
        )
    .draw();
    (line.elements.iter().map(|p| (p.x, convert(&chars, p.element))).collect(), line.carried_token)
}

#[test]
fn newline_stops_render() {
    let (elements, carried) = draw_first_line("Some \nsample text", 7);
    assert_eq!(elements, vec![(0, chars("Some")), (24, E::Space(6, 1))]);
    assert_eq!(carried, Some(Token::NewLine));
}

#[test]
fn line_simple_render() {
    let (elements, carried) = draw_first_line("Some sample text", 7);
    assert_eq!(elements, vec![(0, chars("Some"))]);
    assert_eq!(carried, Some(Token::Break(None)));
}

#[test]
fn simple_render_first_word_not_wrapped() {
    let (elements, carried) = draw_first_line("Some sample text", 2);
    assert_eq!(elements, vec![(0, chars("So"))]);
    assert_eq!(carried, Some(Token::Word(2, 4)));
}

#[test]
fn simple_render_nbsp() {
    let parser = Parser::parse("Some\u{A0}sample text");
    let (parser, carried) = assert_line_elements(parser, None, 7, &[chars("Some"), E::Space(6, 1), chars("sa")]);
    assert_line_elements(parser, carried, 7, &[chars("mple")]);
}

#[test]
fn measure_and_render_end_on_the_same_token() {
    // One-pixel characters, five pixels wide: the measuring pass keeps a trailing space and
    // carries "cc"; the drawn line takes the same tokens, with its one gap stretched to three
    // pixels and the trailing space not drawn.
    let parser = Parser::parse("a b  cc");
    let chars_: Vec<char> = parser.text_chars().clone();
    let renderer = StyledLineRenderer::new(
            parser,
            LineCursor::new(5, 4),
            HorizontalAlignment::Justified,
            HorizontalAlignment::Justified.starting_spaces(),
            HorizontalAlignment::Justified.ending_spaces(),
            1,
            None,
        );
    let m = renderer.measure();
    let line = renderer.draw();
    assert_eq!(line.carried_token, m.carried_token);
    assert_eq!(line.carried_token, Some(Token::Word(5, 7)));
    assert_eq!(line.parser.position(), 7);
    let got: Vec<(u32, E)> =
        line.elements.iter().map(|p| (p.x, convert(&chars_, p.element))).collect();
    assert_eq!(got, vec![(0, chars("a")), (1, E::Space(3, 1)), (4, chars("b")), (5, E::Space(0, 1))]);
    assert_eq!(line.end, 5);
}

/// Draws the first line of `text`, `width` pixels wide with 6-pixel characters and tab stops
/// every 24 pixels: the elements, where the pen ends, and the carried token.
fn first_line(text: &str, width: u32, alignment: HorizontalAlignment) -> (Vec<(u32, E)>, u32, Option<Token>) {
    let parser = Parser::parse(text);
    let chars_: Vec<char> = parser.text_chars().clone();
    let line = StyledLineRenderer::new(
        parser,
        LineCursor::new(width, 24),
        alignment,
        alignment.starting_spaces(),
        alignment.ending_spaces(),
        6,
        None,
    )
    .draw();
    (
        line.elements.iter().map(|p| (p.x, convert(&chars_, p.element))).collect(),
        line.end,
        line.carried_token,
    )
}

#[test]
fn justified_line_with_trailing_space_is_stretched() {
    let (elements, end, carried) = first_line("aaa bbb  cccccccc", 60, HorizontalAlignment::Justified);
    assert_eq!(
        elements,
        vec![(0, chars("aaa")), (18, E::Space(24, 1)), (42, chars("bbb")), (60, E::Space(0, 1))]
    );
    assert_eq!(end, 60);
    assert_eq!(carried, Some(Token::Word(9, 17)));
}

#[test]
fn right_aligned_tab_keeps_its_measured_width() {
    let (elements, end, _) = first_line("a\tbb", 54, HorizontalAlignment::Right);
    assert_eq!(elements, vec![(18, chars("a")), (24, E::Space(18, 0)), (42, chars("bb"))]);
    assert_eq!(end, 54);
    let (elements, end, _) = first_line("a\tb", 60, HorizontalAlignment::Right);
    assert_eq!(elements, vec![(30, chars("a")), (36, E::Space(18, 0)), (54, chars("b"))]);
    assert_eq!(end, 60);
}

#[test]
fn justified_line_fills_the_width() {
    for text in ["word and other word last line", "ab cd ef gh ij", "aa b cc dd eee f"] {
        let mut parser = Parser::parse(text);
        let mut carried = None;
        while carried.is_some() || !parser.is_empty() {
            let line = StyledLineRenderer::new(
            parser,
            LineCursor::new(61, 24),
            HorizontalAlignment::Justified,
            HorizontalAlignment::Justified.starting_spaces(),
            HorizontalAlignment::Justified.ending_spaces(),
            6,
            carried,
        )
            .draw();
            if !line.measurement.last_line && line.measurement.space_count > 0 {
                assert_eq!(line.end, 61);
            }
            parser = line.parser;
            carried = line.carried_token;
        }
    }
}

#[test]
fn zero_width_space_keeps_the_next_word_whole() {
    let parser = Parser::parse("word\u{200B}other");
    assert_line_elements(parser, None, 10, &[chars("word"), chars("other")]);
    let parser = Parser::parse("word\u{200B}other");
    let (parser, carried) = assert_line_elements(parser, None, 6, &[chars("word")]);
    assert_eq!(carried, Some(Token::Break(None)));
    assert_line_elements(parser, carried, 6, &[chars("other")]);
}
