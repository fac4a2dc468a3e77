use embedded_text::parser::ansi::{
    try_parse_escape_seq, Decoration, EscapeSequence, Paint, Rgb, Sgr, TextAttributes,
};
use embedded_text::parser::{Parser, Token};

#[derive(Debug, PartialEq, Eq)]
enum T {
    NewLine,
    CarriageReturn,
    Tab,
    Whitespace(u32),
    Word(String),
    Break(Option<char>),
    Escape(EscapeSequence),
}

fn tokens(text: &str) -> Vec<T> {
    let mut parser = Parser::parse(text);
    let chars: Vec<char> = parser.text_chars().clone();
    parser
        .tokens()
        .into_iter()
        .map(|t| match t {
            Token::NewLine => T::NewLine,
            Token::CarriageReturn => T::CarriageReturn,
            Token::Tab => T::Tab,
            Token::Whitespace(n) => T::Whitespace(n),
            Token::Word(a, b) => T::Word(chars[a..b].iter().collect()),
            Token::Break(c) => T::Break(c),
            Token::Glyph(c) => T::Word(c.to_string()),
            Token::EscapeSequence(e) => T::Escape(e),
        })
        .collect()
}

fn word(s: &str) -> T {
    T::Word(s.to_string())
}

#[test]
fn parse() {
    // (At least) for now, \r is considered a whitespace
    let text = "Lorem ipsum \r dolor sit amet, conse😅ctetur adipiscing\nelit";

    assert_eq!(
        tokens(text),
        vec![
            word("Lorem"),
            T::Whitespace(1),
            word("ipsum"),
            T::Whitespace(1),
            T::CarriageReturn,
            T::Whitespace(1),
            word("dolor"),
            T::Whitespace(1),
            word("sit"),
            T::Whitespace(1),
            word("amet,"),
            T::Whitespace(1),
            word("conse😅ctetur"),
            T::Whitespace(1),
            word("adipiscing"),
            T::NewLine,
            word("elit"),
        ]
    );
}

#[test]
fn parse_zwsp() {
    let text = "two\u{200B}words";
    assert_eq!(9, "two\u{200B}words".chars().count());

    assert_eq!(tokens(text), vec![word("two"), T::Break(None), word("words")]);

    assert_eq!(tokens("  \u{200B} "), vec![T::Whitespace(3)]);
}

#[test]
fn parse_multibyte_last() {
    let text = "test😅";

    assert_eq!(tokens(text), vec![word("test😅")]);
}

#[test]
fn parse_nbsp_as_word_char() {
    let text = "test\u{A0}word";

    assert_eq!(9, "test\u{A0}word".chars().count());
    assert_eq!(tokens(text), vec![word("test\u{A0}word")]);
    assert_eq!(tokens(" \u{A0}word"), vec![T::Whitespace(1), word("\u{A0}word")]);
}

#[test]
fn parse_soft_hyphen_and_tab() {
    assert_eq!(
        tokens("sam\u{AD}ple\tx"),
        vec![word("sam"), T::Break(Some('-')), word("ple"), T::Tab, word("x")]
    );
}

#[test]
fn parse_escape_splits_word() {
    assert_eq!(
        tokens("Lorem foo\x1b[92mbarum"),
        vec![
            word("Lorem"),
            T::Whitespace(1),
            word("foo"),
            T::Escape(EscapeSequence::Sgr(Sgr::ChangeTextColor(Rgb::new(22, 198, 12)))),
            word("barum"),
        ]
    );
}

#[test]
fn parse_malformed_escape_is_word() {
    assert_eq!(tokens("a\x1b[9x"), vec![word("a\x1b[9x")]);
}

#[test]
fn empty_parser() {
    let mut parser = Parser::parse("");
    assert!(parser.is_empty());
    assert_eq!(parser.peek(), None);
    assert_eq!(parser.next(), None);
}

#[test]
fn peek_does_not_advance() {
    let mut parser = Parser::parse("ab cd");
    assert_eq!(parser.peek(), Some(Token::Word(0, 2)));
    assert_eq!(parser.peek(), Some(Token::Word(0, 2)));
    assert_eq!(parser.next(), Some(Token::Word(0, 2)));
    assert_eq!(parser.next(), Some(Token::Whitespace(1)));
    assert!(!parser.is_empty());
    assert_eq!(parser.next(), Some(Token::Word(3, 5)));
    assert!(parser.is_empty());
}

fn esc(s: &str) -> Option<(Token, usize)> {
    let chars: Vec<char> = s.chars().collect();
    try_parse_escape_seq(&chars, 0)
}

fn sgr(s: &str) -> Option<Sgr> {
    match esc(s) {
        Some((Token::EscapeSequence(EscapeSequence::Sgr(sgr)), _)) => Some(sgr),
        _ => None,
    }
}

#[test]
fn escape_standard_colors() {
    assert_eq!(sgr("\x1b[31m"), Some(Sgr::ChangeTextColor(Rgb::new(197, 15, 31))));
    assert_eq!(sgr("\x1b[92m"), Some(Sgr::ChangeTextColor(Rgb::new(22, 198, 12))));
    assert_eq!(sgr("\x1b[40m"), Some(Sgr::ChangeBackgroundColor(Rgb::new(12, 12, 12))));
    assert_eq!(sgr("\x1b[107m"), Some(Sgr::ChangeBackgroundColor(Rgb::new(242, 242, 242))));
}

#[test]
fn escape_attributes() {
    assert_eq!(sgr("\x1b[0m"), Some(Sgr::Reset));
    assert_eq!(sgr("\x1b[m"), Some(Sgr::Reset));
    assert_eq!(sgr("\x1b[4m"), Some(Sgr::Underline));
    assert_eq!(sgr("\x1b[24m"), Some(Sgr::UnderlineOff));
    assert_eq!(sgr("\x1b[9m"), Some(Sgr::CrossedOut));
    assert_eq!(sgr("\x1b[29m"), Some(Sgr::NotCrossedOut));
    assert_eq!(sgr("\x1b[39m"), Some(Sgr::DefaultTextColor));
    assert_eq!(sgr("\x1b[49m"), Some(Sgr::DefaultBackgroundColor));
}

#[test]
fn escape_extended_colors() {
    assert_eq!(sgr("\x1b[38;2;1;2;3m"), Some(Sgr::ChangeTextColor(Rgb::new(1, 2, 3))));
    assert_eq!(sgr("\x1b[48;5;9m"), Some(Sgr::ChangeBackgroundColor(Rgb::new(231, 72, 86))));
    // 16 + 36 * 1 + 6 * 2 + 3 = 67
    assert_eq!(sgr("\x1b[38;5;67m"), Some(Sgr::ChangeTextColor(Rgb::new(51, 102, 153))));
    assert_eq!(sgr("\x1b[38;5;232m"), Some(Sgr::ChangeTextColor(Rgb::new(0, 0, 0))));
    assert_eq!(sgr("\x1b[38;5;255m"), Some(Sgr::ChangeTextColor(Rgb::new(255, 255, 255))));
    assert_eq!(sgr("\x1b[38;5;250m"), Some(Sgr::ChangeTextColor(Rgb::new(198, 198, 198))));
}

#[test]
fn escape_cursor_moves_and_errors() {
    assert_eq!(
        esc("\x1b[2D"),
        Some((Token::EscapeSequence(EscapeSequence::CursorBackward(2)), 4))
    );
    assert_eq!(
        esc("\x1b[C"),
        Some((Token::EscapeSequence(EscapeSequence::CursorForward(1)), 3))
    );
    assert_eq!(
        esc("\x1b[5m"),
        Some((Token::EscapeSequence(EscapeSequence::Unsupported), 4))
    );
    assert_eq!(esc("\x1b[256m"), None);
    assert_eq!(esc("\x1b[38;3;1m"), None);
    assert_eq!(esc("\x1b(m"), None);
    assert_eq!(esc("x[1m"), None);
}

#[test]
fn sgr_changes_attributes() {

    let start = TextAttributes::inherited();
    let red = Sgr::ChangeTextColor(Rgb::new(197, 15, 31)).apply(start);
    assert_eq!(red, TextAttributes { text_color: Paint::Color(Rgb::new(197, 15, 31)), ..start });
    let underlined = Sgr::Underline.apply(red);
    assert_eq!(underlined.underline, Decoration::TextColor);
    assert_eq!(underlined.text_color, red.text_color);
    assert_eq!(Sgr::NotCrossedOut.apply(start).strikethrough, Decoration::Off);
    assert_eq!(Sgr::DefaultBackgroundColor.apply(start).background_color, Paint::Transparent);
    assert_eq!(
        Sgr::Reset.apply(underlined),
        TextAttributes {
            text_color: Paint::Transparent,
            background_color: Paint::Transparent,
            underline: Decoration::Off,
            strikethrough: Decoration::Off,
        }
    );
}
