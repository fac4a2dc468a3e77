//! The elements of one line: words, spaces, control elements, and the token that is carried to
//! the next line.
use vstd::prelude::*;

use crate::parser::ansi::{EscapeSequence, Sgr};
use crate::parser::{is_word_char, lemma_token_at_bounds, token_at, Parser, Token, SPEC_CHAR_NBSP};
use crate::rendering::cursor::LineCursor;
use crate::rendering::space_config::{
    lemma_consume_split,
    lemma_spaces_width_bound,
    JustifiedSpaceConfig,
};

verus! {

/// What to draw.
#[derive(Copy, Clone, Debug, PartialEq, Eq, Structural)]
pub enum RenderElement {
    /// A whitespace block of the given width in pixels, standing for the given number of spaces
    /// (0 for a tab).
    Space(u32, u32),
    /// The characters `start..end` of the text.
    PrintedCharacters(usize, usize),
    /// A single character that is not part of the text (the hyphen of a soft hyphen).
    PrintedGlyph(char),
    /// Move the pen by the given number of pixels.
    MoveCursor(i64),
    /// A Select Graphic Rendition command.
    Sgr(Sgr),
}

/// What the line element parser does next.
#[derive(Copy, Clone, Debug, PartialEq, Eq, Structural)]
pub enum State {
    /// Decide what to do with a token.
    ProcessToken(Token),
    /// The word `start..end` is the first on the line and may not fit: print what fits.
    FirstWord(usize, usize),
    /// The word `start..end` fits: print it.
    Word(usize, usize),
    /// The line is complete.
    Done,
}

/// How far the pen moves when an element is drawn.
pub open spec fn element_width(e: RenderElement, char_width: int) -> int {
    match e {
        RenderElement::Space(w, _) => w as int,
        RenderElement::PrintedCharacters(a, b) => (b - a) * char_width,
        RenderElement::PrintedGlyph(_) => char_width,
        RenderElement::MoveCursor(d) => d as int,
        RenderElement::Sgr(_) => 0,
    }
}

/// The characters `s[a..b]` are all word characters.
pub open spec fn all_word_chars(s: Seq<char>, a: int, b: int) -> bool {
    forall|k: int| a <= k < b ==> is_word_char(#[trigger] s[k])
}

/// The characters `s[a..b]` can be printed as they are: word characters other than the no-break
/// space, which is drawn as a space.
pub open spec fn printable(s: Seq<char>, a: int, b: int) -> bool {
    forall|k: int| a <= k < b ==> is_word_char(#[trigger] s[k]) && s[k] != SPEC_CHAR_NBSP
}

/// A token of the text `s`: a word is a non-empty range of word characters of `s`.
pub open spec fn token_wf(t: Token, s: Seq<char>) -> bool {
    match t {
        Token::Word(a, b) => a < b <= s.len() && all_word_chars(s, a as int, b as int),
        _ => true,
    }
}

/// The number of no-break spaces among `s[a..b]`.
pub open spec fn nbsp_count(s: Seq<char>, a: int, b: int) -> int
    decreases b - a,
{
    if a < b {
        (if s[a] == SPEC_CHAR_NBSP {
            1int
        } else {
            0int
        }) + nbsp_count(s, a + 1, b)
    } else {
        0
    }
}

/// The width of the word `s[a..b]`, where its no-break spaces take the width of the next spaces
/// of `config`.
pub open spec fn word_px(
    s: Seq<char>,
    a: int,
    b: int,
    char_width: int,
    config: JustifiedSpaceConfig,
) -> int {
    (b - a - nbsp_count(s, a, b)) * char_width + config.peek_spec(nbsp_count(s, a, b))
}

/// The accumulated width, or zero.
pub open spec fn or_zero(acc: Option<int>) -> int {
    match acc {
        Some(w) => w,
        None => 0,
    }
}

/// The total width of the words (and soft-hyphen hyphen) that follow `i` without whitespace,
/// added to `acc`; `None` when no word follows.
pub open spec fn next_word_width_from(s: Seq<char>, i: int, char_width: int, acc: Option<int>) -> Option<
    int,
>
    decreases s.len() - i,
{
    if 0 <= i < s.len() {
        match token_at(s, i) {
            Some((Token::Word(a, b), j)) => if i < j <= s.len() {
                next_word_width_from(
                    s,
                    j,
                    char_width,
                    Some(or_zero(acc) + (b - a) * char_width),
                )
            } else {
                acc
            },
            Some((Token::Break(Some(_)), _)) => Some(or_zero(acc) + char_width),
            Some((Token::EscapeSequence(_), j)) => if i < j <= s.len() {
                next_word_width_from(s, j, char_width, acc)
            } else {
                acc
            },
            _ => acc,
        }
    } else {
        acc
    }
}

pub proof fn lemma_nbsp_count_bounds(s: Seq<char>, a: int, b: int)
    requires
        a <= b,
    ensures
        0 <= nbsp_count(s, a, b) <= b - a,
    decreases b - a,
{
    if a < b {
        lemma_nbsp_count_bounds(s, a + 1, b);
    }
}

pub proof fn lemma_nbsp_count_split(s: Seq<char>, a: int, p: int, b: int)
    requires
        a <= p <= b,
    ensures
        nbsp_count(s, a, b) == nbsp_count(s, a, p) + nbsp_count(s, p, b),
    decreases p - a,
{
    if a < p {
        lemma_nbsp_count_split(s, a + 1, p, b);
    }
}

proof fn lemma_mul_bound(x: int, y: int)
    requires
        0 <= x <= u32::MAX,
        0 <= y <= u32::MAX,
    ensures
        0 <= x * y <= u32::MAX * u32::MAX,
{
    assert(0 <= x * y <= u32::MAX * u32::MAX) by (nonlinear_arith)
        requires
            0 <= x <= u32::MAX,
            0 <= y <= u32::MAX,
    ;
}

proof fn lemma_mul_add(x: int, y: int, c: int)
    ensures
        (x + y) * c == x * c + y * c,
{
    assert((x + y) * c == x * c + y * c) by (nonlinear_arith);
}

proof fn lemma_mul_mono(x: int, y: int, c: int)
    requires
        0 <= x <= y,
        0 <= c,
    ensures
        x * c <= y * c,
{
    assert(x * c <= y * c) by (nonlinear_arith)
        requires
            0 <= x <= y,
            0 <= c,
    ;
}


/// The values that stay fixed while a line is laid out.
pub struct LineConsts {
    pub text: Seq<char>,
    pub width: int,
    pub tab_width: int,
    pub char_width: int,
    pub starting_spaces: bool,
    pub ending_spaces: bool,
}

/// The state of a line element parser, as plain values.
pub struct LineModel {
    /// The parser's position in the text.
    pub pos: int,
    /// The pen's offset in the line.
    pub x: int,
    pub current: State,
    pub config: JustifiedSpaceConfig,
    pub first_word: bool,
    pub carried: Option<Token>,
}

/// Takes the next token of the text.
pub open spec fn advanced(c: LineConsts, m: LineModel) -> LineModel {
    match token_at(c.text, m.pos) {
        Some((t, j)) => LineModel { pos: j, current: State::ProcessToken(t), ..m },
        None => LineModel { current: State::Done, ..m },
    }
}

/// Ends the line, carrying `t` to the next one.
pub open spec fn finished(m: LineModel, t: Token) -> LineModel {
    LineModel { carried: Some(t), current: State::Done, ..m }
}

/// The configuration after `n` spaces were consumed.
pub open spec fn consumed(config: JustifiedSpaceConfig, n: int) -> JustifiedSpaceConfig {
    JustifiedSpaceConfig {
        space_width: config.space_width,
        space_count: if config.space_count < n {
            0
        } else {
            (config.space_count - n) as u32
        },
    }
}

/// The most spaces, counting up from `k` to at most `n`, that take less than `available`
/// pixels.
pub open spec fn widest_from(config: JustifiedSpaceConfig, n: int, available: int, k: int) -> int
    decreases n - k,
{
    if k < n && config.peek_spec(k + 1) < available {
        widest_from(config, n, available, k + 1)
    } else {
        k
    }
}

/// The index of the first no-break space in `s[a..b]`, or `b`.
pub open spec fn first_nbsp(s: Seq<char>, a: int, b: int) -> int
    decreases b - a,
{
    if a < b && s[a] != SPEC_CHAR_NBSP {
        first_nbsp(s, a + 1, b)
    } else {
        a
    }
}

/// Prints what fits of the first word `a..b` of a line, from `idx`, where the characters
/// `a..idx` take `width` pixels.
pub open spec fn first_word_scan(
    c: LineConsts,
    m: LineModel,
    a: int,
    b: int,
    idx: int,
    width: int,
) -> (LineModel, Option<Option<RenderElement>>)
    decreases b - idx,
{
    if idx >= b {
        (
            advanced(c, LineModel { x: m.x + width, ..m }),
            Some(Some(RenderElement::PrintedCharacters(a as usize, b as usize))),
        )
    } else {
        let ch = c.text[idx];
        let chw = if ch == SPEC_CHAR_NBSP {
            m.config.peek_spec(1)
        } else {
            c.char_width
        };
        if width + chw <= c.width - m.x {
            if ch == SPEC_CHAR_NBSP {
                if idx == a {
                    let m1 = LineModel { config: consumed(m.config, 1), x: m.x + chw, ..m };
                    (
                        if a + 1 < b {
                            LineModel { current: State::FirstWord((a + 1) as usize, b as usize), ..m1 }
                        } else {
                            advanced(c, m1)
                        },
                        Some(Some(RenderElement::Space(chw as u32, 1))),
                    )
                } else {
                    (
                        LineModel {
                            x: m.x + width,
                            current: State::FirstWord(idx as usize, b as usize),
                            ..m
                        },
                        Some(Some(RenderElement::PrintedCharacters(a as usize, idx as usize))),
                    )
                }
            } else {
                first_word_scan(c, m, a, b, idx + 1, width + chw)
            }
        } else if idx == a {
            (m, Some(None))
        } else {
            (
                finished(LineModel { x: m.x + width, ..m }, Token::Word(idx as usize, b as usize)),
                Some(Some(RenderElement::PrintedCharacters(a as usize, idx as usize))),
            )
        }
    }
}

/// One decision of the line element parser: the next state, and `Some(r)` when the decision
/// hands out `r`, `None` when it goes on deciding.
pub open spec fn step(c: LineConsts, m: LineModel) -> (LineModel, Option<Option<RenderElement>>) {
    let m0 = LineModel { current: State::Done, ..m };
    let space = c.width - m.x;
    match m.current {
        State::Done => (m, Some(None)),
        State::ProcessToken(t) => match t {
            Token::Whitespace(n) => {
                let ww = next_word_width_from(c.text, m.pos, c.char_width, None);
                let fits = match ww {
                    Some(w) => m.config.peek_spec(n as int) + w <= space,
                    None => true,
                };
                let would_wrap = !m.first_word && ww is Some && !fits;
                let render = if m.first_word {
                    c.starting_spaces
                } else if ww is Some {
                    c.ending_spaces || fits
                } else {
                    c.ending_spaces
                };
                let m1 = LineModel {
                    first_word: if m.first_word && c.starting_spaces {
                        false
                    } else {
                        m.first_word
                    },
                    ..m0
                };
                let n2: int = if would_wrap && n > 0 {
                    n - 1
                } else {
                    n as int
                };
                let k = widest_from(m.config, n2, space, 0);
                if render {
                    if k > 0 {
                        let w = m.config.peek_spec(k);
                        let m2 = LineModel { x: m.x + w, config: consumed(m.config, k), ..m1 };
                        (
                            if n2 - k == 0 {
                                advanced(c, m2)
                            } else {
                                finished(m2, Token::Whitespace((n2 - k) as u32))
                            },
                            Some(Some(RenderElement::Space(w as u32, k as u32))),
                        )
                    } else if n2 > 1 {
                        (finished(m1, Token::Whitespace((n2 - 1) as u32)), None)
                    } else {
                        (finished(m1, Token::Break(None)), None)
                    }
                } else if would_wrap {
                    (finished(m1, Token::Break(None)), None)
                } else {
                    (advanced(c, m1), None)
                }
            },
            Token::Break(ch) => {
                let fits = match next_word_width_from(c.text, m.pos, c.char_width, None) {
                    Some(w) => w <= space,
                    None => true,
                };
                if fits {
                    (advanced(c, m0), None)
                } else {
                    match ch {
                        Some(g) => if c.char_width <= space {
                            (
                                finished(LineModel { x: m.x + c.char_width, ..m0 }, Token::Break(None)),
                                Some(Some(RenderElement::PrintedGlyph(g))),
                            )
                        } else {
                            (finished(m0, Token::Glyph(g)), None)
                        },
                        None => (finished(m0, Token::Break(None)), None),
                    }
                }
            },
            Token::Glyph(g) => if c.char_width <= space {
                (
                    advanced(c, LineModel { first_word: false, x: m.x + c.char_width, ..m0 }),
                    Some(Some(RenderElement::PrintedGlyph(g))),
                )
            } else if m.first_word {
                (LineModel { first_word: false, ..m0 }, None)
            } else {
                (finished(m0, t), None)
            },
            Token::Word(a, b) => if word_px(c.text, a as int, b as int, c.char_width, m.config)
                <= space {
                (LineModel { first_word: false, current: State::Word(a, b), ..m0 }, None)
            } else if m.first_word {
                (LineModel { first_word: false, current: State::FirstWord(a, b), ..m0 }, None)
            } else {
                (finished(m0, t), None)
            },
            Token::Tab => {
                let td = if c.tab_width == 0 {
                    0
                } else {
                    c.tab_width - (m.x % c.tab_width)
                };
                let sp = if td <= space {
                    td
                } else {
                    space
                };
                let m1 = LineModel { x: m.x + sp, ..m0 };
                (
                    if td <= space {
                        advanced(c, m1)
                    } else {
                        finished(m1, Token::Break(None))
                    },
                    Some(Some(RenderElement::Space(sp as u32, 0))),
                )
            },
            Token::EscapeSequence(seq) => {
                let m1 = advanced(c, m0);
                match seq {
                    EscapeSequence::Sgr(sgr) => (m1, Some(Some(RenderElement::Sgr(sgr)))),
                    EscapeSequence::CursorForward(n) => {
                        let d = n * c.char_width;
                        let by = if d <= space {
                            d
                        } else {
                            space
                        };
                        (LineModel { x: m.x + by, ..m1 }, Some(Some(RenderElement::MoveCursor(by as i64))))
                    },
                    EscapeSequence::CursorBackward(n) => {
                        let d = n * c.char_width;
                        if d <= m.x {
                            (
                                LineModel { x: m.x - d, ..m1 },
                                Some(Some(RenderElement::MoveCursor((-d) as i64))),
                            )
                        } else {
                            (
                                LineModel { x: 0, ..m1 },
                                Some(Some(RenderElement::MoveCursor((-m.x) as i64))),
                            )
                        }
                    },
                    EscapeSequence::Unsupported => (m1, None),
                }
            },
            Token::NewLine => (finished(m0, t), None),
            Token::CarriageReturn => (finished(m0, t), None),
        },
        State::Word(a, b) => {
            let p = first_nbsp(c.text, a as int, b as int);
            if p == a {
                let sp = m.config.peek_spec(1);
                let m1 = LineModel { config: consumed(m.config, 1), x: m.x + sp, ..m0 };
                (
                    if a + 1 < b {
                        LineModel { current: State::Word((a + 1) as usize, b), ..m1 }
                    } else {
                        advanced(c, m1)
                    },
                    Some(Some(RenderElement::Space(sp as u32, 1))),
                )
            } else {
                let m1 = LineModel { x: m.x + (p - a) * c.char_width, ..m0 };
                (
                    if p < b {
                        LineModel { current: State::Word(p as usize, b), ..m1 }
                    } else {
                        advanced(c, m1)
                    },
                    Some(Some(RenderElement::PrintedCharacters(a, p as usize))),
                )
            }
        },
        State::FirstWord(a, b) => first_word_scan(c, m0, a as int, b as int, a as int, 0),
    }
}

/// A zero-width space wraps no worse than a space, under every alignment. Where the words after
/// it do not fit, the line ends at the zero-width space, drawing nothing for it and carrying an
/// invisible break, so the words start the next line whole; where trailing whitespace is not
/// rendered, this is exactly what a space there does. Where the words fit, the line goes on past
/// the zero-width space, drawing nothing for it.
pub proof fn lemma_zero_width_space_wraps_like_space(c: LineConsts, m: LineModel, n: u32)
    requires
        m.current == State::ProcessToken(Token::Break(None)),
        n > 0,
    ensures
        ({
            let space = LineModel { current: State::ProcessToken(Token::Whitespace(n)), ..m };
            let m0 = LineModel { current: State::Done, ..m };
            match next_word_width_from(c.text, m.pos, c.char_width, None) {
                Some(w) => if w > c.width - m.x {
                    &&& step(c, m) == (finished(m0, Token::Break(None)), None::<Option<RenderElement>>)
                    &&& (!m.first_word && !c.ending_spaces ==> step(c, m) == step(c, space))
                } else {
                    step(c, m) == (advanced(c, m0), None::<Option<RenderElement>>)
                },
                None => step(c, m) == (advanced(c, m0), None::<Option<RenderElement>>),
            }
        }),
{
    let space = LineModel { current: State::ProcessToken(Token::Whitespace(n)), ..m };
    if let Some(w) = next_word_width_from(c.text, m.pos, c.char_width, None) {
        if w > c.width - m.x && !m.first_word && !c.ending_spaces {
            if w >= 0 {
                assert(m.config.peek_spec(n as int) >= 0) by (nonlinear_arith)
                    requires
                        m.config.peek_spec(n as int) == n * m.config.space_width + if m.config.space_count < n {
                            m.config.space_count as int
                        } else {
                            n as int
                        },
                        n > 0,
                ;
            }
            assert(step(c, space).0 == finished(LineModel { current: State::Done, ..m }, Token::Break(None)));
        }
    }
}

/// The measure of work left in a state.
pub open spec fn state_rank(s: State) -> int {
    match s {
        State::ProcessToken(Token::Word(a, b)) => 2 + (b - a),
        State::ProcessToken(_) => 2,
        State::Word(a, b) => 1 + (b - a),
        State::FirstWord(a, b) => 1 + (b - a),
        State::Done => 0,
    }
}

/// What `next` does: decide until an element is handed out or the line is done.
pub open spec fn run(c: LineConsts, m: LineModel) -> (LineModel, Option<RenderElement>)
    decreases c.text.len() - m.pos, state_rank(m.current),
{
    let (m1, out) = step(c, m);
    match out {
        Some(r) => (m1, r),
        None => if m1.pos <= c.text.len() && 0 <= state_rank(m1.current) && (m.pos < m1.pos || (
        m.pos == m1.pos && state_rank(m1.current) < state_rank(m.current))) {
            run(c, m1)
        } else {
            (m1, None)
        },
    }
}

/// Parser that breaks a line down into the elements used by measurement and rendering.
pub struct LineElementParser {
    cursor: LineCursor,
    parser: Parser,
    current_token: State,
    config: JustifiedSpaceConfig,
    first_word: bool,
    starting_spaces: bool,
    ending_spaces: bool,
    char_width: u32,
    carried_token: Option<Token>,
}

impl LineElementParser {
    /// The values that stay fixed while the line is laid out.
    pub closed spec fn consts(&self) -> LineConsts {
        LineConsts {
            text: self.parser.text(),
            width: self.cursor.width as int,
            tab_width: self.cursor.tab_width as int,
            char_width: self.char_width as int,
            starting_spaces: self.starting_spaces,
            ending_spaces: self.ending_spaces,
        }
    }

    /// The state, as plain values.
    pub closed spec fn model(&self) -> LineModel {
        LineModel {
            pos: self.parser.pos(),
            x: self.cursor.position as int,
            current: self.current_token,
            config: self.config,
            first_word: self.first_word,
            carried: self.carried_token,
        }
    }

    /// Position information.
    pub closed spec fn line_cursor(&self) -> LineCursor {
        self.cursor
    }

    /// The parser, advanced past the tokens that have been taken.
    pub closed spec fn parser_state(&self) -> Parser {
        self.parser
    }

    pub closed spec fn state(&self) -> State {
        self.current_token
    }

    pub closed spec fn carried(&self) -> Option<Token> {
        self.carried_token
    }

    pub closed spec fn space_config(&self) -> JustifiedSpaceConfig {
        self.config
    }

    pub closed spec fn char_width_spec(&self) -> int {
        self.char_width as int
    }

    pub open spec fn text(&self) -> Seq<char> {
        self.parser_state().text()
    }

    pub closed spec fn wf(&self) -> bool {
        &&& self.parser.wf()
        &&& self.cursor.wf()
        &&& match self.current_token {
            State::ProcessToken(t) => token_wf(t, self.parser.text()),
            State::Word(a, b) => {
                &&& a < b <= self.parser.text().len()
                &&& all_word_chars(self.parser.text(), a as int, b as int)
                &&& word_px(self.parser.text(), a as int, b as int, self.char_width as int, self.config)
                    <= self.cursor.space_spec()
            },
            State::FirstWord(a, b) => a < b <= self.parser.text().len() && all_word_chars(
                self.parser.text(),
                a as int,
                b as int,
            ),
            State::Done => true,
        }
        &&& match self.carried_token {
            Some(t) => token_wf(t, self.parser.text()) && self.current_token is Done,
            None => true,
        }
    }

    /// A measure of the work left, which each element decreases.
    pub closed spec fn rank(&self) -> int {
        state_rank(self.current_token)
    }

    /// Creates a new element parser. The carried token starts the line, unless it is a newline,
    /// a carriage return or an invisible break, which only ended the previous line.
    pub fn new(
        parser: Parser,
        cursor: LineCursor,
        config: JustifiedSpaceConfig,
        carried_token: Option<Token>,
        leading_spaces: bool,
        trailing_spaces: bool,
        char_width: u32,
    ) -> (r: LineElementParser)
        requires
            parser.wf(),
            cursor.wf(),
            carried_token matches Some(t) ==> token_wf(t, parser.text()),
        ensures
            r.wf(),
            r.text() == parser.text(),
            r.line_cursor() == cursor,
            r.space_config() == config,
            r.char_width_spec() == char_width,
            r.carried() is None,
            r.parser_state().pos() >= parser.pos(),
            r.consts() == line_consts(parser.text(), cursor, leading_spaces, trailing_spaces, char_width),
            r.model() == initial_model(parser.text(), parser.pos(), cursor, config, carried_token),
            match carried_token {
                Some(t) if !(t is NewLine || t is CarriageReturn || t == Token::Break(None)) => {
                    r.state() == State::ProcessToken(t) && r.parser_state().pos() == parser.pos()
                },
                _ => match token_at(parser.text(), parser.pos()) {
                    Some((t, j)) => r.state() == State::ProcessToken(t) && r.parser_state().pos() == j
                        && parser.pos() < j,
                    None => r.state() == State::Done && r.parser_state().pos() == parser.pos(),
                },
            },
    {
        let mut parser = parser;
        let restart = match carried_token {
            Some(Token::NewLine) => None,
            Some(Token::CarriageReturn) => None,
            Some(Token::Break(None)) => None,
            other => other,
        };
        proof {
            if parser.pos() < parser.text().len() {
                lemma_token_at_bounds(parser.text(), parser.pos());
                lemma_token_wf(parser.text(), parser.pos());
            }
        }
        let current_token = match restart {
            Some(t) => State::ProcessToken(t),
            None => match parser.next() {
                Some(t) => State::ProcessToken(t),
                None => State::Done,
            },
        };
        LineElementParser {
            cursor,
            parser,
            current_token,
            config,
            first_word: true,
            starting_spaces: leading_spaces,
            ending_spaces: trailing_spaces,
            char_width,
            carried_token: None,
        }
    }

    /// The token that the next line starts with, once this line is done.
    pub fn carried_token(&self) -> (r: Option<Token>)
        ensures
            r == self.carried(),
            r == self.model().carried,
    {
        self.carried_token
    }

    /// Whether the line is complete.
    pub fn is_done(&self) -> (r: bool)
        ensures
            r == (self.state() is Done),
    {
        match self.current_token {
            State::Done => true,
            _ => false,
        }
    }

    /// The pen position.
    pub fn cursor(&self) -> (r: LineCursor)
        ensures
            r == self.line_cursor(),
            r.position == self.model().x,
    {
        self.cursor
    }

    /// Gives back the parser, advanced past the tokens of this line.
    pub fn into_parser(self) -> (r: Parser)
        ensures
            r == self.parser_state(),
            r.pos() == self.model().pos,
    {
        self.parser
    }

    fn next_token(&mut self)
        requires
            old(self).wf(),
            old(self).current_token is Done,
            old(self).carried_token is None,
        ensures
            final(self).wf(),
            *final(self) == (LineElementParser {
                parser: final(self).parser,
                current_token: final(self).current_token,
                ..*old(self)
            }),
            final(self).parser.text() == old(self).parser.text(),
            match token_at(old(self).parser.text(), old(self).parser.pos()) {
                Some((t, j)) => final(self).current_token == State::ProcessToken(t)
                    && final(self).parser.pos() == j && old(self).parser.pos() < j,
                None => final(self).current_token is Done && final(self).parser.pos()
                    == old(self).parser.pos(),
            },
            final(self).model() == advanced(old(self).consts(), old(self).model()),
            final(self).consts() == old(self).consts(),
    {
        proof {
            if self.parser.pos() < self.parser.text().len() {
                lemma_token_at_bounds(self.parser.text(), self.parser.pos());
                lemma_token_wf(self.parser.text(), self.parser.pos());
            }
        }
        match self.parser.next() {
            None => self.current_token = State::Done,
            Some(t) => self.current_token = State::ProcessToken(t),
        }
    }

    fn finish(&mut self, t: Token)
        requires
            token_wf(t, old(self).parser.text()),
            old(self).wf(),
        ensures
            final(self).wf(),
            *final(self) == (LineElementParser {
                carried_token: Some(t),
                current_token: State::Done,
                ..*old(self)
            }),
            final(self).model() == finished(old(self).model(), t),
            final(self).consts() == old(self).consts(),
    {
        self.carried_token = Some(t);
        self.current_token = State::Done;
    }

    fn next_word_width(&self) -> (r: Option<u64>)
        requires
            self.wf(),
        ensures
            r matches Some(w) ==> w <= u32::MAX * u32::MAX,
            match next_word_width_from(
                self.parser.text(),
                self.parser.pos(),
                self.char_width as int,
                None,
            ) {
                Some(w) => r == Some(w as u64) && 0 <= w <= u32::MAX * u32::MAX,
                None => r is None,
            },
    {
        let ghost s = self.parser.text();
        let ghost start = self.parser.pos();
        let cw = self.char_width as u64;
        let mut width: Option<u64> = None;
        let mut at = self.parser.position();
        proof {
            self.parser.lemma_pos_nonneg();
        }
        loop
            invariant
                self.wf(),
                s == self.parser.text(),
                0 <= start <= at <= s.len(),
                start == self.parser.pos(),
                cw == self.char_width,
                width matches Some(w) ==> w <= (at - start) * cw,
                width matches Some(w) ==> w <= u32::MAX * u32::MAX,
                next_word_width_from(s, start, cw as int, None) == next_word_width_from(
                    s,
                    at as int,
                    cw as int,
                    match width {
                        Some(w) => Some(w as int),
                        None => None,
                    },
                ),
            decreases s.len() - at,
        {
            let ghost acc = match width {
                Some(w) => Some(w as int),
                None => None::<int>,
            };
            if at >= self.parser.text_chars().len() {
                return width;
            }
            proof {
                lemma_token_at_bounds(s, at as int);
                lemma_token_wf(s, at as int);
                lemma_mul_bound((at - start) as int, cw as int);
            }
            match self.parser.token_at(at) {
                Some((Token::Word(a, b), j)) => {
                    let prev: u64 = match width {
                        Some(w) => w,
                        None => 0,
                    };
                    proof {
                        lemma_mul_add((at - start) as int, (j - at) as int, cw as int);
                        lemma_mul_bound((j - start) as int, cw as int);
                        assert(b - a == j - at);
                    }
                    width = Some(prev + (b - a) as u64 * cw);
                    at = j;
                },
                Some((Token::Break(Some(_)), j)) => {
                    let prev: u64 = match width {
                        Some(w) => w,
                        None => 0,
                    };
                    proof {
                        lemma_mul_add((at - start) as int, 1, cw as int);
                        lemma_mul_bound((j - start) as int, cw as int);
                    }
                    return Some(prev + cw);
                },
                Some((Token::EscapeSequence(_), j)) => {
                    proof {
                        lemma_mul_mono((at - start) as int, (j - start) as int, cw as int);
                    }
                    at = j;
                },
                _ => {
                    return width;
                },
            }
        }
    }

    fn count_widest_space_seq(&self, n: u32) -> (r: u32)
        requires
            self.wf(),
        ensures
            r <= n,
            r == 0 || self.config.peek_spec(r as int) < self.cursor.space_spec(),
            r == n || self.config.peek_spec(r + 1) >= self.cursor.space_spec(),
            r == widest_from(self.config, n as int, self.cursor.space_spec(), 0),
    {
        let mut spaces_to_render: u32 = 0;
        let available = self.cursor.space() as u64;
        while spaces_to_render < n && self.config.peek_next_width(spaces_to_render + 1) < available
            invariant
                self.wf(),
                available == self.cursor.space_spec(),
                spaces_to_render <= n,
                spaces_to_render == 0 || self.config.peek_spec(spaces_to_render as int)
                    < available,
                widest_from(self.config, n as int, available as int, 0) == widest_from(
                    self.config,
                    n as int,
                    available as int,
                    spaces_to_render as int,
                ),
            decreases n - spaces_to_render,
        {
            spaces_to_render = spaces_to_render + 1;
        }
        spaces_to_render
    }

    /// The number of no-break spaces in the word `a..b`.
    fn count_nbsp(&self, a: usize, b: usize) -> (r: u32)
        requires
            self.wf(),
            a <= b <= self.parser.text().len(),
        ensures
            r == nbsp_count(self.parser.text(), a as int, b as int),
    {
        let text = self.parser.text_chars();
        let mut k = b;
        let mut count: u32 = 0;
        proof {
            lemma_nbsp_count_bounds(text@, a as int, b as int);
        }
        while k > a
            invariant
                text@ == self.parser.text(),
                self.parser.wf(),
                a <= k <= b <= text@.len(),
                count == nbsp_count(text@, k as int, b as int),
                count <= b - k,
            decreases k - a,
        {
            proof {
                lemma_nbsp_count_split(text@, (k - 1) as int, k as int, b as int);
                lemma_nbsp_count_bounds(text@, k as int, b as int);
            }
            if text[k - 1] == SPEC_CHAR_NBSP {
                count = count + 1;
            }
            k = k - 1;
        }
        count
    }

    /// Whether the word `a..b` fits in the rest of the line.
    fn word_fits(&self, a: usize, b: usize) -> (r: bool)
        requires
            self.wf(),
            a <= b <= self.parser.text().len(),
        ensures
            r == (word_px(self.parser.text(), a as int, b as int, self.char_width as int, self.config)
                <= self.cursor.space_spec()),
    {
        let nbsp = self.count_nbsp(a, b);
        proof {
            lemma_nbsp_count_bounds(self.parser.text(), a as int, b as int);
            lemma_mul_bound((b - a - nbsp) as int, self.char_width as int);
        }
        let chars_px = ((b - a) as u64 - nbsp as u64) * (self.char_width as u64);
        let spaces_px = self.config.peek_next_width(nbsp);
        self.cursor.pair_fits_in_line(chars_px, spaces_px)
    }

    /// Draws the next element of the line. Returns `None` once the line is complete.
    #[verifier::rlimit(100)]
    #[verifier::spinoff_prover]
    pub fn next(&mut self) -> (r: Option<RenderElement>)
        requires
            old(self).wf(),
        ensures
            final(self).wf(),
            final(self).line_cursor().wf(),
            final(self).text() == old(self).text(),
            final(self).char_width_spec() == old(self).char_width_spec(),
            final(self).line_cursor().width == old(self).line_cursor().width,
            final(self).line_cursor().tab_width == old(self).line_cursor().tab_width,
            old(self).parser_state().pos() <= final(self).parser_state().pos(),
            old(self).carried() is Some ==> final(self).carried() == old(self).carried(),
            match r {
                Some(e) => {
                    &&& final(self).line_cursor().position == old(self).line_cursor().position + element_width(
                        e,
                        old(self).char_width_spec(),
                    )
                    &&& (e is MoveCursor || element_width(e, old(self).char_width_spec()) >= 0)
                    &&& (old(self).parser_state().pos() < final(self).parser_state().pos() || final(self).rank()
                        < old(self).rank())
                    &&& e matches RenderElement::PrintedCharacters(a, b) ==> a < b
                        <= old(self).text().len() && printable(old(self).text(), a as int, b as int)
                },
                None => final(self).state() is Done && old(self).state() is Done ==> *final(self)
                    == *old(self),
            },
            final(self).consts() == old(self).consts(),
            (final(self).model(), r) == run(old(self).consts(), old(self).model()),
            r is None ==> final(self).state() is Done,
            r is None ==> final(self).line_cursor() == old(self).line_cursor(),
            final(self).parser_state().pos() == old(self).parser_state().pos() && final(self).state()
                == State::ProcessToken(Token::CarriageReturn) ==> old(self).state()
                == State::ProcessToken(Token::CarriageReturn),
            final(self).carried() == Some(Token::CarriageReturn) && old(self).carried() is None ==> (
            old(self).parser_state().pos() < final(self).parser_state().pos() || old(self).state()
                == State::ProcessToken(Token::CarriageReturn)),
    {
        let ghost len = self.parser.text().len();
        let cw = self.char_width;
        loop
            invariant
                self.wf(),
                self.parser.text() == old(self).parser.text(),
                len == self.parser.text().len(),
                self.char_width == cw,
                cw == old(self).char_width,
                self.cursor.width == old(self).cursor.width,
                self.cursor.tab_width == old(self).cursor.tab_width,
                self.cursor.position == old(self).cursor.position,
                self.config == old(self).config,
                old(self).parser.pos() <= self.parser.pos(),
                old(self).carried_token is Some ==> self.carried_token
                    == old(self).carried_token,
                self.parser.pos() == old(self).parser.pos() ==> self.rank() <= old(self).rank(),
                old(self).current_token is Done ==> *self == *old(self),
                self.consts() == old(self).consts(),
                run(old(self).consts(), old(self).model()) == run(self.consts(), self.model()),
                self.parser.pos() == old(self).parser.pos() && self.current_token
                    == State::ProcessToken(Token::CarriageReturn) ==> old(self).current_token
                    == State::ProcessToken(Token::CarriageReturn),
                self.carried_token == Some(Token::CarriageReturn) && old(self).carried_token is None
                    ==> (old(self).parser.pos() < self.parser.pos() || old(self).current_token
                    == State::ProcessToken(Token::CarriageReturn)),
            decreases len - self.parser.pos(), self.rank(),
        {
            let ghost before = *self;
            let current = self.current_token;
            self.current_token = State::Done;
            match current {
                State::ProcessToken(token) => {
                    match token {
                        Token::Whitespace(n) => {
                            let mut would_wrap = false;
                            let render_whitespace = if self.first_word {
                                if self.starting_spaces {
                                    self.first_word = false;
                                }
                                self.starting_spaces
                            } else {
                                match self.next_word_width() {
                                    Some(word_width) => {
                                        let space_width = self.config.peek_next_width(n);
                                        let fits = self.cursor.pair_fits_in_line(
                                            space_width,
                                            word_width,
                                        );
                                        would_wrap = !fits;
                                        self.ending_spaces || fits
                                    },
                                    None => self.ending_spaces,
                                }
                            };
                            if render_whitespace {
                                let n = if would_wrap && n > 0 {
                                    n - 1
                                } else {
                                    n
                                };
                                let spaces_to_render = self.count_widest_space_seq(n);
                                if spaces_to_render > 0 {
                                    let space_width = self.config.consume(spaces_to_render);
                                    self.cursor.advance_unchecked(space_width);
                                    let carried = n - spaces_to_render;
                                    if carried == 0 {
                                        self.next_token();
                                    } else {
                                        self.finish(Token::Whitespace(carried));
                                    }
                                    return Some(
                                        RenderElement::Space(space_width as u32, spaces_to_render),
                                    );
                                } else if n > 1 {
                                    self.finish(Token::Whitespace(n - 1));
                                } else {
                                    self.finish(Token::Break(None));
                                }
                            } else if would_wrap {
                                self.finish(Token::Break(None));
                            } else {
                                self.next_token();
                            }
                        },
                        Token::Break(c) => {
                            let fits = match self.next_word_width() {
                                Some(word_width) => self.cursor.fits_in_line(word_width),
                                None => true,
                            };
                            if fits {
                                self.next_token();
                            } else {
                                match c {
                                    Some(c) => {
                                        if self.cursor.advance(cw as u64).is_ok() {
                                            self.finish(Token::Break(None));
                                            return Some(RenderElement::PrintedGlyph(c));
                                        } else {
                                            self.finish(Token::Glyph(c));
                                        }
                                    },
                                    None => {
                                        self.finish(Token::Break(None));
                                    },
                                }
                            }
                        },
                        Token::Glyph(c) => {
                            if self.cursor.fits_in_line(cw as u64) {
                                self.first_word = false;
                                self.cursor.advance_unchecked(cw as u64);
                                self.next_token();
                                return Some(RenderElement::PrintedGlyph(c));
                            } else if self.first_word {
                                // Not even one character fits: give up on this token.
                                self.first_word = false;
                            } else {
                                self.finish(token);
                            }
                        },
                        Token::Word(a, b) => {
                            if self.word_fits(a, b) {
                                self.first_word = false;
                                self.current_token = State::Word(a, b);
                            } else if self.first_word {
                                self.first_word = false;
                                self.current_token = State::FirstWord(a, b);
                            } else {
                                self.finish(token);
                            }
                        },
                        Token::Tab => {
                            let sp_width = self.cursor.next_tab_width();
                            let wraps = !self.cursor.fits_in_line(
                                if self.cursor.tab_width == 0 {
                                    0
                                } else {
                                    (self.cursor.tab_width - (self.cursor.position
                                        % self.cursor.tab_width)) as u64
                                },
                            );
                            self.cursor.advance_unchecked(sp_width as u64);
                            if wraps {
                                self.finish(Token::Break(None));
                            } else {
                                self.next_token();
                            }
                            // tabs are not counted as spaces
                            return Some(RenderElement::Space(sp_width, 0));
                        },
                        Token::EscapeSequence(seq) => {
                            self.next_token();
                            match seq {
                                EscapeSequence::Sgr(sgr) => {
                                    return Some(RenderElement::Sgr(sgr));
                                },
                                EscapeSequence::CursorForward(n) => {
                                    proof {
                                        lemma_mul_bound(n as int, cw as int);
                                    }
                                    let delta = (n as u64) * (cw as u64);
                                    let space = self.cursor.space() as u64;
                                    let by = if delta <= space {
                                        delta
                                    } else {
                                        space
                                    };
                                    self.cursor.advance_unchecked(by);
                                    return Some(RenderElement::MoveCursor(by as i64));
                                },
                                EscapeSequence::CursorBackward(n) => {
                                    proof {
                                        lemma_mul_bound(n as int, cw as int);
                                    }
                                    let delta = (n as u64) * (cw as u64);
                                    let at = self.cursor.position;
                                    if self.cursor.rewind(delta) {
                                        return Some(RenderElement::MoveCursor(-(delta as i64)));
                                    } else {
                                        self.cursor.carriage_return();
                                        return Some(RenderElement::MoveCursor(-(at as i64)));
                                    }
                                },
                                EscapeSequence::Unsupported => {},
                            }
                        },
                        Token::NewLine => {
                            self.finish(token);
                        },
                        Token::CarriageReturn => {
                            self.finish(token);
                        },
                    }
                },
                State::Word(a, b) => {
                    let ghost s = self.parser.text();
                    let text = self.parser.text_chars();
                    let mut p = a;
                    while p < b && text[p] != SPEC_CHAR_NBSP
                        invariant
                            text@ == s,
                            a <= p <= b <= s.len(),
                            nbsp_count(s, a as int, p as int) == 0,
                            first_nbsp(s, a as int, b as int) == first_nbsp(s, p as int, b as int),
                            forall|k: int| a <= k < p ==> #[trigger] s[k] != SPEC_CHAR_NBSP,
                        decreases b - p,
                    {
                        proof {
                            lemma_nbsp_count_split(s, a as int, p as int, (p + 1) as int);
                            assert(nbsp_count(s, (p + 1) as int, (p + 1) as int) == 0);
                            assert(nbsp_count(s, p as int, (p + 1) as int) == 0);
                        }
                        p = p + 1;
                    }
                    proof {
                        lemma_nbsp_count_split(s, a as int, p as int, b as int);
                        lemma_nbsp_count_bounds(s, p as int, b as int);
                        lemma_nbsp_count_bounds(s, a as int, b as int);
                    }
                    if p == a {
                        // the word starts with a no-break space, which is drawn as a space
                        proof {
                            let n = nbsp_count(s, a as int, b as int);
                            assert(s[a as int] == SPEC_CHAR_NBSP);
                            lemma_nbsp_count_bounds(s, (a + 1) as int, b as int);
                            assert(n == 1 + nbsp_count(s, (a + 1) as int, b as int));
                            lemma_consume_split(self.config, 1, n - 1);
                            lemma_mul_bound((b - a - n) as int, cw as int);
                            lemma_spaces_width_bound(
                                self.config.space_width as int,
                                (if self.config.space_count < 1 {
                                    0
                                } else {
                                    self.config.space_count - 1
                                }) as int,
                                n - 1,
                            );
                        }
                        let sp_width = self.config.consume(1);
                        proof {
                            lemma_spaces_width_bound(
                                before.config.space_width as int,
                                before.config.space_count as int,
                                1,
                            );
                        }
                        self.cursor.advance_unchecked(sp_width);
                        if a + 1 < b {
                            self.current_token = State::Word(a + 1, b);
                            proof {
                                let n = nbsp_count(s, a as int, b as int);
                                assert(nbsp_count(s, (a + 1) as int, b as int) == n - 1);
                                assert(b - (a + 1) - (n - 1) == b - a - n);
                            }
                        } else {
                            self.next_token();
                        }
                        return Some(RenderElement::Space(sp_width as u32, 1));
                    } else {
                        proof {
                            let n = nbsp_count(s, a as int, b as int);
                            lemma_mul_add((p - a) as int, (b - p - n) as int, cw as int);
                            lemma_mul_bound((p - a) as int, cw as int);
                            lemma_mul_bound((b - p - n) as int, cw as int);
                        }
                        let width = (p - a) as u64 * cw as u64;
                        self.cursor.advance_unchecked(width);
                        if p < b {
                            self.current_token = State::Word(p, b);
                        } else {
                            self.next_token();
                        }
                        return Some(RenderElement::PrintedCharacters(a, p));
                    }
                },
                State::FirstWord(a, b) => {
                    let ghost s = self.parser.text();
                    let text = self.parser.text_chars();
                    let mut idx = a;
                    let mut width: u64 = 0;
                    while idx < b
                        invariant
                            text@ == s,
                            self.wf(),
                            self.parser.text() == s,
                            self.current_token is Done,
                            self.char_width == cw,
                            a <= idx <= b <= s.len(),
                            s.len() <= u32::MAX,
                            width == (idx - a) * cw,
                            width <= self.cursor.space_spec(),
                            idx > a ==> s[a as int] != SPEC_CHAR_NBSP,
                            forall|k: int| a < k < idx ==> s[k] != SPEC_CHAR_NBSP,
                            self.cursor == before.cursor,
                            self.config == before.config,
                            self.parser == before.parser,
                            self.carried_token is None,
                            self.parser.text() == old(self).parser.text(),
                            len == self.parser.text().len(),
                            cw == old(self).char_width,
                            self.cursor.width == old(self).cursor.width,
                            self.cursor.tab_width == old(self).cursor.tab_width,
                            self.cursor.position == old(self).cursor.position,
                            self.config == old(self).config,
                            old(self).parser.pos() <= self.parser.pos(),
                            self.parser.pos() == old(self).parser.pos() ==> before.rank()
                                <= old(self).rank(),
                            before.current_token == State::FirstWord(a, b),
                            all_word_chars(s, a as int, b as int),
                            self.consts() == old(self).consts(),
                            run(old(self).consts(), old(self).model()) == run(
                                before.consts(),
                                before.model(),
                            ),
                            before.consts() == old(self).consts(),
                            self.model() == (LineModel { current: State::Done, ..before.model() }),
                            first_word_scan(self.consts(), self.model(), a as int, b as int, a as int, 0)
                                == first_word_scan(
                                self.consts(),
                                self.model(),
                                a as int,
                                b as int,
                                idx as int,
                                width as int,
                            ),
                            old(self).carried_token is None,
                            old(self).current_token !is Done,
                        decreases b - idx,
                    {
                        let c = text[idx];
                        let char_width = if c == SPEC_CHAR_NBSP {
                            self.config.peek_next_width(1)
                        } else {
                            cw as u64
                        };
                        proof {
                            lemma_spaces_width_bound(
                                self.config.space_width as int,
                                self.config.space_count as int,
                                1,
                            );
                        }
                        if self.cursor.pair_fits_in_line(width, char_width) {
                            if c == SPEC_CHAR_NBSP {
                                if idx == a {
                                    self.config.consume(1);
                                    self.cursor.advance_unchecked(char_width);
                                    if a + 1 < b {
                                        self.current_token = State::FirstWord(a + 1, b);
                                    } else {
                                        self.next_token();
                                    }
                                    return Some(RenderElement::Space(char_width as u32, 1));
                                } else {
                                    self.cursor.advance_unchecked(width);
                                    self.current_token = State::FirstWord(idx, b);
                                    return Some(RenderElement::PrintedCharacters(a, idx));
                                }
                            }
                            proof {
                                lemma_mul_add((idx - a) as int, 1, cw as int);
                            }
                            width = width + char_width;
                        } else {
                            if idx == a {
                                // Not even one character fits: give up on this word.
                                return None;
                            } else {
                                self.cursor.advance_unchecked(width);
                                self.finish(Token::Word(idx, b));
                                return Some(RenderElement::PrintedCharacters(a, idx));
                            }
                        }
                        idx = idx + 1;
                    }
                    self.cursor.advance_unchecked(width);
                    self.next_token();
                    return Some(RenderElement::PrintedCharacters(a, b));
                },
                State::Done => {
                    return None;
                },
            }
            proof {
                assert(step(self.consts(), before.model()) == (
                    self.model(),
                    None::<Option<RenderElement>>,
                ));
            }
        }
    }
}

/// The fixed values of a line laid out in `text` with a cursor, whether whitespace before the
/// first word and at the end of the line is rendered, and a character width.
pub open spec fn line_consts(
    text: Seq<char>,
    cursor: LineCursor,
    leading_spaces: bool,
    trailing_spaces: bool,
    char_width: u32,
) -> LineConsts {
    LineConsts {
        text,
        width: cursor.width as int,
        tab_width: cursor.tab_width as int,
        char_width: char_width as int,
        starting_spaces: leading_spaces,
        ending_spaces: trailing_spaces,
    }
}

/// The state a line starts in: the carried token comes first, unless it is a newline, a carriage
/// return or an invisible break, which only ended the previous line.
pub open spec fn initial_model(
    text: Seq<char>,
    pos: int,
    cursor: LineCursor,
    config: JustifiedSpaceConfig,
    carried: Option<Token>,
) -> LineModel {
    let m = LineModel {
        pos,
        x: cursor.position as int,
        current: State::Done,
        config,
        first_word: true,
        carried: None,
    };
    match carried {
        Some(t) if !(t is NewLine || t is CarriageReturn || t == Token::Break(None)) => LineModel {
            current: State::ProcessToken(t),
            ..m
        },
        _ => advanced(line_consts(text, cursor, true, true, 0), m),
    }
}

/// A whole line laid out from position `pos` of `text`: the final state and the elements.
pub open spec fn line_of(
    text: Seq<char>,
    pos: int,
    cursor: LineCursor,
    config: JustifiedSpaceConfig,
    carried: Option<Token>,
    leading_spaces: bool,
    trailing_spaces: bool,
    char_width: u32,
) -> (LineModel, Seq<PlacedElement>) {
    run_line(
        line_consts(text, cursor, leading_spaces, trailing_spaces, char_width),
        initial_model(text, pos, cursor, config, carried),
    )
}

/// Whether a step from `m` to `m1` makes progress.
pub open spec fn progresses(c: LineConsts, m: LineModel, m1: LineModel) -> bool {
    &&& m1.pos <= c.text.len()
    &&& 0 <= state_rank(m1.current)
    &&& (m.pos < m1.pos || (m.pos == m1.pos && state_rank(m1.current) < state_rank(m.current)))
}

/// The whole line from state `m`: the final state and every element with its pen position.
pub open spec fn run_line(c: LineConsts, m: LineModel) -> (LineModel, Seq<PlacedElement>)
    decreases c.text.len() - m.pos, state_rank(m.current),
{
    if m.current is Done {
        (m, Seq::empty())
    } else {
        let (m1, r) = run(c, m);
        match r {
            Some(e) => if progresses(c, m, m1) {
                let (mf, es) = run_line(c, m1);
                (mf, seq![PlacedElement { x: m.x as u32, element: e }] + es)
            } else {
                (m1, Seq::empty())
            },
            None => (m1, Seq::empty()),
        }
    }
}

/// An element and the pen position at which it is drawn.
#[derive(Copy, Clone, Debug, PartialEq, Eq, Structural)]
pub struct PlacedElement {
    /// The pen's offset from the line's left edge before the element is drawn.
    pub x: u32,
    /// The element.
    pub element: RenderElement,
}

/// Each element starts where the previous one ended; the first starts at `start` and the last
/// ends at `end`.
pub open spec fn placed_chain(es: Seq<PlacedElement>, start: int, end: int, char_width: int) -> bool {
    &&& es.len() == 0 ==> start == end
    &&& es.len() > 0 ==> es[0].x == start && es.last().x + element_width(
        es.last().element,
        char_width,
    ) == end
    &&& forall|i: int|
        0 <= i < es.len() - 1 ==> #[trigger] es[i].x + element_width(es[i].element, char_width) == es[i
            + 1].x
}

/// The total width of a sequence of elements.
pub open spec fn elements_width(es: Seq<PlacedElement>, char_width: int) -> int
    decreases es.len(),
{
    if es.len() == 0 {
        0
    } else {
        elements_width(es.drop_last(), char_width) + element_width(es.last().element, char_width)
    }
}

/// The elements of a line add up: the pen ends at its start plus the widths of all elements.
pub proof fn lemma_chain_width(es: Seq<PlacedElement>, start: int, end: int, char_width: int)
    requires
        placed_chain(es, start, end, char_width),
    ensures
        start + elements_width(es, char_width) == end,
    decreases es.len(),
{
    if es.len() > 0 {
        let init = es.drop_last();
        let last = es.last();
        if init.len() > 0 {
            assert(init.last() == es[es.len() - 2]);
            assert(es[es.len() - 2].x + element_width(es[es.len() - 2].element, char_width)
                == es[es.len() - 1].x);
            assert forall|i: int| 0 <= i < init.len() - 1 implies #[trigger] init[i].x
                + element_width(init[i].element, char_width) == init[i + 1].x by {
                assert(init[i] == es[i]);
                assert(init[i + 1] == es[i + 1]);
            }
        }
        lemma_chain_width(init, start, last.x as int, char_width);
    }
}

/// Within a line the pen only moves left through a cursor movement: every other element
/// starts no further right than the next one (or the end of the line).
pub proof fn lemma_pen_moves_forward(es: Seq<PlacedElement>, start: int, end: int, char_width: int)
    requires
        placed_chain(es, start, end, char_width),
        forall|i: int|
            0 <= i < es.len() ==> (#[trigger] es[i].element is MoveCursor || element_width(
                es[i].element,
                char_width,
            ) >= 0),
    ensures
        forall|i: int|
            0 <= i < es.len() - 1 && !(#[trigger] es[i].element is MoveCursor) ==> es[i].x <= es[i
                + 1].x,
        es.len() > 0 && !(es.last().element is MoveCursor) ==> es.last().x <= end,
{
    assert forall|i: int|
        0 <= i < es.len() - 1 && !(#[trigger] es[i].element is MoveCursor) implies es[i].x <= es[i
        + 1].x by {
        assert(es[i].x + element_width(es[i].element, char_width) == es[i + 1].x);
    }
}

impl LineElementParser {
    /// Draws the whole line: every element, with the pen position it is drawn at.
    pub fn process(&mut self) -> (r: Vec<PlacedElement>)
        requires
            old(self).wf(),
        ensures
            final(self).wf(),
            final(self).line_cursor().wf(),
            final(self).parser_state().wf(),
            final(self).carried() matches Some(t) ==> token_wf(t, final(self).text()),
            final(self).state() is Done,
            final(self).text() == old(self).text(),
            final(self).char_width_spec() == old(self).char_width_spec(),
            final(self).line_cursor().width == old(self).line_cursor().width,
            final(self).line_cursor().tab_width == old(self).line_cursor().tab_width,
            old(self).parser_state().pos() <= final(self).parser_state().pos(),
            placed_chain(
                r@,
                old(self).line_cursor().position as int,
                final(self).line_cursor().position as int,
                old(self).char_width_spec(),
            ),
            forall|i: int|
                0 <= i < r@.len() ==> #[trigger] r@[i].x <= old(self).line_cursor().width,
            forall|i: int|
                0 <= i < r@.len() ==> (#[trigger] r@[i].element is MoveCursor || element_width(
                    r@[i].element,
                    old(self).char_width_spec(),
                ) >= 0),
            old(self).carried() is Some ==> final(self).carried() == old(self).carried(),
            final(self).carried() == Some(Token::CarriageReturn) && old(self).carried() is None ==> (
            old(self).parser_state().pos() < final(self).parser_state().pos() || old(self).state()
                == State::ProcessToken(Token::CarriageReturn)),
            final(self).consts() == old(self).consts(),
            (final(self).model(), r@) == run_line(old(self).consts(), old(self).model()),
            forall|i: int|
                0 <= i < r@.len() ==> (#[trigger] r@[i].element matches RenderElement::PrintedCharacters(
                    a,
                    b,
                ) ==> printable(old(self).text(), a as int, b as int)),
    {
        let mut out: Vec<PlacedElement> = Vec::new();
        let ghost len = self.parser.text().len();
        let ghost cw = self.char_width as int;
        while !self.is_done()
            invariant
                self.wf(),
                self.parser.text() == old(self).parser.text(),
                len == self.parser.text().len(),
                self.char_width == old(self).char_width,
                cw == self.char_width,
                self.cursor.width == old(self).cursor.width,
                self.cursor.tab_width == old(self).cursor.tab_width,
                old(self).parser.pos() <= self.parser.pos(),
                placed_chain(
                    out@,
                    old(self).cursor.position as int,
                    self.cursor.position as int,
                    cw,
                ),
                forall|i: int| 0 <= i < out@.len() ==> #[trigger] out@[i].x <= self.cursor.width,
                forall|i: int|
                    0 <= i < out@.len() ==> (#[trigger] out@[i].element is MoveCursor
                        || element_width(out@[i].element, cw) >= 0),
                forall|i: int|
                    0 <= i < out@.len() ==> (#[trigger] out@[i].element matches RenderElement::PrintedCharacters(
                        a,
                        b,
                    ) ==> printable(old(self).parser.text(), a as int, b as int)),
                old(self).carried_token is Some ==> self.carried_token == old(self).carried_token,
                self.carried_token == Some(Token::CarriageReturn) && old(self).carried_token is None
                    ==> (old(self).parser.pos() < self.parser.pos() || old(self).current_token
                    == State::ProcessToken(Token::CarriageReturn)),
                self.parser.pos() == old(self).parser.pos() && self.current_token
                    == State::ProcessToken(Token::CarriageReturn) ==> old(self).current_token
                    == State::ProcessToken(Token::CarriageReturn),
                self.consts() == old(self).consts(),
                run_line(old(self).consts(), old(self).model()) == (
                    run_line(self.consts(), self.model()).0,
                    out@ + run_line(self.consts(), self.model()).1,
                ),
            decreases len - self.parser.pos(), self.rank(),
        {
            let ghost m_before = self.model();
            let x = self.cursor.position;
            let ghost prev = out@;
            match self.next() {
                Some(e) => {
                    out.push(PlacedElement { x, element: e });
                    proof {
                        let c = self.consts();
                        assert(progresses(c, m_before, self.model()));
                        let tail = run_line(c, self.model());
                        assert(run_line(c, m_before) == (
                            tail.0,
                            seq![PlacedElement { x, element: e }] + tail.1,
                        ));
                        assert(out@ == prev + seq![PlacedElement { x, element: e }]);
                        assert(out@ + tail.1 == prev + (seq![PlacedElement { x, element: e }]
                            + tail.1));
                        assert forall|i: int| 0 <= i < out@.len() - 1 implies #[trigger] out@[i].x
                            + element_width(out@[i].element, cw) == out@[i + 1].x by {
                            if i < prev.len() - 1 {
                                assert(out@[i] == prev[i]);
                                assert(out@[i + 1] == prev[i + 1]);
                            }
                        }
                    }
                },
                None => {
                    proof {
                        let c = self.consts();
                        assert(run_line(c, m_before) == (self.model(), Seq::<PlacedElement>::empty()));
                        assert(out@ + Seq::<PlacedElement>::empty() == out@);
                    }
                },
            }
        }
        proof {
            assert(out@ + Seq::<PlacedElement>::empty() == out@);
        }
        out
    }
}

/// Every token of a text is well formed.
pub proof fn lemma_token_wf(s: Seq<char>, i: int)
    requires
        0 <= i < s.len(),
        s.len() <= u32::MAX,
    ensures
        token_at(s, i) matches Some((t, _)) && token_wf(t, s),
{
    crate::parser::lemma_token_covers(s, i);
    let (t, j) = token_at(s, i).unwrap();
    match t {
        Token::Word(a, b) => {
            assert(a == i && b == j);
            assert forall|k: int| a <= k < b implies is_word_char(#[trigger] s[k]) by {}
        },
        _ => {},
    }
}

} // verus!
