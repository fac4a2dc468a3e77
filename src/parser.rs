//! Splits text into words, whitespace runs, break opportunities and control tokens.
use vstd::prelude::*;
use vstd::std_specs::iter::IteratorSpec;

pub mod ansi;

use crate::parser::ansi::{escape_at, try_parse_escape_seq, EscapeSequence, ESCAPE_CHAR};

verus! {

/// No-break space: rendered as a space, but never a wrapping point.
pub const SPEC_CHAR_NBSP: char = '\u{a0}';

/// Soft hyphen: a wrapping point that shows a hyphen when the line wraps there.
pub const SPEC_CHAR_SHY: char = '\u{ad}';

/// Zero-width space: an invisible wrapping point.
pub const SPEC_CHAR_ZWSP: char = '\u{200b}';

/// A text token. Words are given as the range `start..end` of character indices into the text
/// that the parser was created from.
#[derive(Copy, Clone, Debug, PartialEq, Eq, Structural)]
pub enum Token {
    /// A newline character.
    NewLine,
    /// A `\r` character.
    CarriageReturn,
    /// A tab character.
    Tab,
    /// A number of whitespace characters.
    Whitespace(u32),
    /// A word: the characters `start..end` of the text.
    Word(usize, usize),
    /// A possible wrapping point, with the character that is shown if the line wraps there.
    Break(Option<char>),
    /// A single character that is laid out as a word of its own (the character of a break that
    /// did not fit at the end of the previous line).
    Glyph(char),
    /// An in-band control sequence.
    EscapeSequence(EscapeSequence),
}

/// The characters that `char::is_whitespace` accepts (Unicode `White_Space`).
pub open spec fn is_unicode_whitespace(c: char) -> bool {
    ||| '\u{9}' <= c && c <= '\u{d}'
    ||| c == ' '
    ||| c == '\u{85}'
    ||| c == '\u{a0}'
    ||| c == '\u{1680}'
    ||| '\u{2000}' <= c && c <= '\u{200a}'
    ||| c == '\u{2028}'
    ||| c == '\u{2029}'
    ||| c == '\u{202f}'
    ||| c == '\u{205f}'
    ||| c == '\u{3000}'
}

/// Characters that belong to words. A no-break space is one of them.
pub open spec fn is_word_char(c: char) -> bool {
    (!is_unicode_whitespace(c) || c == SPEC_CHAR_NBSP) && c != SPEC_CHAR_ZWSP && c != SPEC_CHAR_SHY
}

/// Characters that continue a whitespace run. A zero-width space continues the run without
/// being counted.
pub open spec fn is_space_char(c: char) -> bool {
    ||| is_unicode_whitespace(c) && c != '\n' && c != '\r' && c != '\t' && c != SPEC_CHAR_NBSP
    ||| c == SPEC_CHAR_ZWSP
}

/// Whether a control sequence starts at `i`.
pub open spec fn escape_starts(s: Seq<char>, i: int) -> bool {
    0 <= i < s.len() && s[i] == ESCAPE_CHAR && escape_at(s, i) is Some
}

/// The end of the word that continues at `k`.
pub open spec fn word_end(s: Seq<char>, k: int) -> int
    decreases s.len() - k,
{
    if 0 <= k < s.len() && is_word_char(s[k]) && !escape_starts(s, k) {
        word_end(s, k + 1)
    } else {
        k
    }
}

/// The end of the whitespace run that continues at `k`.
pub open spec fn space_end(s: Seq<char>, k: int) -> int
    decreases s.len() - k,
{
    if 0 <= k < s.len() && is_space_char(s[k]) {
        space_end(s, k + 1)
    } else {
        k
    }
}

/// The number of counted spaces in the whitespace run that continues at `k`.
pub open spec fn space_count(s: Seq<char>, k: int) -> int
    decreases s.len() - k,
{
    if 0 <= k < s.len() && is_space_char(s[k]) {
        (if s[k] == SPEC_CHAR_ZWSP { 0int } else { 1int }) + space_count(s, k + 1)
    } else {
        0
    }
}

/// The token that starts at `i`, and the index after it.
pub open spec fn token_at(s: Seq<char>, i: int) -> Option<(Token, int)> {
    if i < 0 || i >= s.len() {
        None
    } else {
        let c = s[i];
        if escape_starts(s, i) {
            match escape_at(s, i) {
                Some((e, j)) => Some((Token::EscapeSequence(e), j)),
                None => None,
            }
        } else if is_word_char(c) {
            Some((Token::Word(i as usize, word_end(s, i + 1) as usize), word_end(s, i + 1)))
        } else if c == '\n' {
            Some((Token::NewLine, i + 1))
        } else if c == '\r' {
            Some((Token::CarriageReturn, i + 1))
        } else if c == '\t' {
            Some((Token::Tab, i + 1))
        } else if c == SPEC_CHAR_ZWSP {
            Some((Token::Break(None), i + 1))
        } else if c == SPEC_CHAR_SHY {
            Some((Token::Break(Some('-')), i + 1))
        } else {
            Some((Token::Whitespace((1 + space_count(s, i + 1)) as u32), space_end(s, i + 1)))
        }
    }
}

/// The tokens of the text from `i` to its end.
pub open spec fn tokens_from(s: Seq<char>, i: int) -> Seq<Token>
    decreases s.len() - i,
{
    if 0 <= i < s.len() {
        match token_at(s, i) {
            Some((t, j)) => if i < j <= s.len() {
                seq![t] + tokens_from(s, j)
            } else {
                Seq::empty()
            },
            None => Seq::empty(),
        }
    } else {
        Seq::empty()
    }
}

pub proof fn lemma_word_end_bounds(s: Seq<char>, k: int)
    requires
        0 <= k <= s.len(),
    ensures
        k <= word_end(s, k) <= s.len(),
    decreases s.len() - k,
{
    if 0 <= k < s.len() && is_word_char(s[k]) && !escape_starts(s, k) {
        lemma_word_end_bounds(s, k + 1);
    }
}

pub proof fn lemma_space_end_bounds(s: Seq<char>, k: int)
    requires
        0 <= k <= s.len(),
    ensures
        k <= space_end(s, k) <= s.len(),
        0 <= space_count(s, k) <= space_end(s, k) - k,
    decreases s.len() - k,
{
    if 0 <= k < s.len() && is_space_char(s[k]) {
        lemma_space_end_bounds(s, k + 1);
    }
}

pub proof fn lemma_escape_end(s: Seq<char>, i: int)
    requires
        escape_at(s, i) is Some,
    ensures
        escape_at(s, i) matches Some((_, j)) && i < j <= s.len(),
{
}

/// A token ends after it starts, within the text.
pub proof fn lemma_token_at_bounds(s: Seq<char>, i: int)
    requires
        0 <= i < s.len(),
    ensures
        token_at(s, i) matches Some((t, j)) && i < j <= s.len(),
{
    lemma_word_end_bounds(s, i + 1);
    lemma_space_end_bounds(s, i + 1);
    if escape_starts(s, i) {
        lemma_escape_end(s, i);
    }
}

pub proof fn lemma_word_end_chars(s: Seq<char>, k: int)
    requires
        0 <= k <= s.len(),
    ensures
        forall|m: int| k <= m < word_end(s, k) ==> is_word_char(#[trigger] s[m]),
    decreases s.len() - k,
{
    if 0 <= k < s.len() && is_word_char(s[k]) && !escape_starts(s, k) {
        lemma_word_end_chars(s, k + 1);
    }
}

pub proof fn lemma_space_end_chars(s: Seq<char>, k: int)
    requires
        0 <= k <= s.len(),
    ensures
        forall|m: int| k <= m < space_end(s, k) ==> is_space_char(#[trigger] s[m]),
    decreases s.len() - k,
{
    if 0 <= k < s.len() && is_space_char(s[k]) {
        lemma_space_end_chars(s, k + 1);
    }
}

/// Every character of the text is accounted for by exactly one token: the token that starts at
/// `i` spans `s[i..j]` and the next one starts at `j`. A word holds exactly the characters it
/// spans, all of them word characters; a whitespace run spans only whitespace and counts the
/// characters that are not zero-width spaces; a newline, carriage return, tab or break stands
/// for the one character at `i`.
pub proof fn lemma_token_covers(s: Seq<char>, i: int)
    requires
        0 <= i < s.len(),
        s.len() <= u32::MAX,
    ensures
        token_at(s, i) matches Some((t, j)) && {
            &&& i < j <= s.len()
            &&& t matches Token::Word(a, b) ==> a == i && b == j && forall|m: int|
                i <= m < j ==> is_word_char(#[trigger] s[m])
            &&& t matches Token::Whitespace(n) ==> n == 1 + space_count(s, i + 1) && s[i]
                != SPEC_CHAR_ZWSP && forall|m: int| i <= m < j ==> is_space_char(#[trigger] s[m])
            &&& t is NewLine ==> s[i] == '\n' && j == i + 1
            &&& t is CarriageReturn ==> s[i] == '\r' && j == i + 1
            &&& t is Tab ==> s[i] == '\t' && j == i + 1
            &&& t == Token::Break(None) ==> s[i] == SPEC_CHAR_ZWSP && j == i + 1
            &&& t == Token::Break(Some('-')) ==> s[i] == SPEC_CHAR_SHY && j == i + 1
            &&& t is EscapeSequence ==> s[i] == ESCAPE_CHAR
        },
{
    lemma_token_at_bounds(s, i);
    lemma_word_end_bounds(s, i + 1);
    lemma_word_end_chars(s, i + 1);
    lemma_space_end_bounds(s, i + 1);
    lemma_space_end_chars(s, i + 1);
}

fn is_whitespace(c: char) -> (r: bool)
    ensures
        r == is_unicode_whitespace(c),
{
    ('\u{9}' <= c && c <= '\u{d}') || c == ' ' || c == '\u{85}' || c == '\u{a0}' || c
        == '\u{1680}' || ('\u{2000}' <= c && c <= '\u{200a}') || c == '\u{2028}' || c == '\u{2029}'
        || c == '\u{202f}' || c == '\u{205f}' || c == '\u{3000}'
}

/// The characters of a string, in order.
fn chars_of(text: &str) -> (r: Vec<char>)
    ensures
        r@ == text@,
{
    broadcast use vstd::string::axiom_spec_iter, vstd::string::next_postcondition;

    let mut out: Vec<char> = Vec::new();
    let mut it = text.chars();
    loop
        invariant
            out@ + it.remaining() == text@,
            it.decrease() is Some,
        decreases it.decrease()->0,
    {
        let ghost before = it.remaining();
        match it.next() {
            Some(c) => {
                out.push(c);
                assert(out@ + it.remaining() == text@) by {
                    assert(before == seq![c] + it.remaining());
                    assert(out@ + it.remaining() =~= (out@.drop_last() + seq![c]) + it.remaining());
                }
            },
            None => {
                assert(it.remaining() == before);
                assert(before.len() == 0);
                assert(out@ + before =~= out@);
                return out;
            },
        }
    }
}

/// Text parser. Turns a text into a stream of [`Token`] objects.
#[derive(Clone, Debug)]
pub struct Parser {
    text: Vec<char>,
    pos: usize,
}

impl Parser {
    /// The whole text.
    pub closed spec fn text(&self) -> Seq<char> {
        self.text@
    }

    /// The index of the first character that has not been turned into a token yet.
    pub closed spec fn pos(&self) -> int {
        self.pos as int
    }

    pub proof fn lemma_pos_nonneg(&self)
        ensures
            0 <= self.pos(),
    {
    }

    pub open spec fn wf(&self) -> bool {
        &&& 0 <= self.pos() <= self.text().len()
        &&& self.text().len() <= u32::MAX
    }

    pub fn text_chars(&self) -> (r: &Vec<char>)
        ensures
            r@ == self.text(),
    {
        &self.text
    }

    pub fn position(&self) -> (r: usize)
        ensures
            r as int == self.pos(),
    {
        self.pos
    }

    /// Create a new parser object to process the given piece of text.
    pub fn parse(text: &str) -> (p: Parser)
        requires
            text@.len() <= u32::MAX,
        ensures
            p.wf(),
            p.text() == text@,
            p.pos() == 0,
    {
        Parser { text: chars_of(text), pos: 0 }
    }

    /// Returns true if there are no tokens to process.
    pub fn is_empty(&self) -> (r: bool)
        requires
            self.wf(),
        ensures
            r == (self.pos() >= self.text().len()),
    {
        self.pos >= self.text.len()
    }

    /// Returns a copy of this parser, in the same state.
    pub fn duplicate(&self) -> (r: Parser)
        ensures
            r.text() == self.text(),
            r.pos() == self.pos(),
    {
        Parser { text: self.text.clone(), pos: self.pos }
    }

    fn is_word_char(c: char) -> (r: bool)
        ensures
            r == is_word_char(c),
    {
        (!is_whitespace(c) || c == SPEC_CHAR_NBSP) && c != SPEC_CHAR_ZWSP && c != SPEC_CHAR_SHY
    }

    fn is_space_char(c: char) -> (r: bool)
        ensures
            r == is_space_char(c),
    {
        (is_whitespace(c) && c != '\n' && c != '\r' && c != '\t' && c != SPEC_CHAR_NBSP) || c
            == SPEC_CHAR_ZWSP
    }

    fn escape_starts_at(&self, k: usize) -> (r: bool)
        requires
            self.wf(),
        ensures
            r == escape_starts(self.text(), k as int),
    {
        k < self.text.len() && self.text[k] == ESCAPE_CHAR && try_parse_escape_seq(
            self.text.as_slice(),
            k,
        ).is_some()
    }

    /// The token that starts at `at`, and the index after it; the parser is not advanced.
    pub fn token_at(&self, at: usize) -> (r: Option<(Token, usize)>)
        requires
            self.wf(),
        ensures
            match token_at(self.text(), at as int) {
                None => r is None,
                Some((t, j)) => r == Some((t, j as usize)),
            },
    {
        let s = &self.text;
        if at >= s.len() {
            return None;
        }
        proof {
            lemma_token_at_bounds(self.text(), at as int);
        }
        let c = s[at];
        if self.escape_starts_at(at) {
            return try_parse_escape_seq(s.as_slice(), at);
        }
        if Self::is_word_char(c) {
            let mut k = at + 1;
            while k < s.len() && Self::is_word_char(s[k]) && !self.escape_starts_at(k)
                invariant
                    self.wf(),
                    s@ == self.text(),
                    at + 1 <= k <= s@.len(),
                    word_end(s@, (at + 1) as int) == word_end(s@, k as int),
                decreases s@.len() - k,
            {
                k = k + 1;
            }
            Some((Token::Word(at, k), k))
        } else if c == '\n' {
            Some((Token::NewLine, at + 1))
        } else if c == '\r' {
            Some((Token::CarriageReturn, at + 1))
        } else if c == '\t' {
            Some((Token::Tab, at + 1))
        } else if c == SPEC_CHAR_ZWSP {
            Some((Token::Break(None), at + 1))
        } else if c == SPEC_CHAR_SHY {
            Some((Token::Break(Some('-')), at + 1))
        } else {
            let mut k = at + 1;
            let mut n: u32 = 1;
            proof {
                lemma_space_end_bounds(s@, k as int);
            }
            while k < s.len() && Self::is_space_char(s[k])
                invariant
                    s@ == self.text(),
                    s@.len() <= u32::MAX,
                    at + 1 <= k <= s@.len(),
                    space_end(s@, (at + 1) as int) == space_end(s@, k as int),
                    1 + space_count(s@, (at + 1) as int) == n + space_count(s@, k as int),
                    n <= k - at,
                decreases s@.len() - k,
            {
                if s[k] != SPEC_CHAR_ZWSP {
                    n = n + 1;
                }
                k = k + 1;
            }
            Some((Token::Whitespace(n), k))
        }
    }

    /// Returns the next token without advancing.
    pub fn peek(&self) -> (r: Option<Token>)
        requires
            self.wf(),
        ensures
            match token_at(self.text(), self.pos()) {
                None => r is None,
                Some((t, _)) => r == Some(t),
            },
    {
        match self.token_at(self.pos) {
            None => None,
            Some((t, _)) => Some(t),
        }
    }

    /// Returns the next token and advances past it.
    pub fn next(&mut self) -> (r: Option<Token>)
        requires
            old(self).wf(),
        ensures
            final(self).wf(),
            final(self).text() == old(self).text(),
            match token_at(old(self).text(), old(self).pos()) {
                None => r is None && final(self).pos() == old(self).pos(),
                Some((t, j)) => r == Some(t) && final(self).pos() == j,
            },
    {
        proof {
            if self.pos() < self.text().len() {
                lemma_token_at_bounds(self.text(), self.pos());
            }
        }
        match self.token_at(self.pos) {
            None => None,
            Some((t, j)) => {
                self.pos = j;
                Some(t)
            },
        }
    }

    /// Every remaining token, in order; the parser ends up empty.
    pub fn tokens(&mut self) -> (r: Vec<Token>)
        requires
            old(self).wf(),
        ensures
            final(self).wf(),
            final(self).text() == old(self).text(),
            final(self).pos() >= final(self).text().len(),
            r@ == tokens_from(old(self).text(), old(self).pos()),
    {
        let mut out: Vec<Token> = Vec::new();
        while !self.is_empty()
            invariant
                self.wf(),
                self.text() == old(self).text(),
                old(self).pos() <= self.pos(),
                out@ + tokens_from(self.text(), self.pos()) == tokens_from(
                    old(self).text(),
                    old(self).pos(),
                ),
            decreases self.text().len() - self.pos(),
        {
            proof {
                lemma_token_at_bounds(self.text(), self.pos());
            }
            let ghost before = out@;
            let ghost p = self.pos();
            match self.next() {
                Some(t) => {
                    out.push(t);
                    proof {
                        assert(tokens_from(self.text(), p) == seq![t] + tokens_from(
                            self.text(),
                            self.pos(),
                        ));
                        assert(out@ == before + seq![t]);
                        assert(out@ + tokens_from(self.text(), self.pos()) == before
                            + tokens_from(self.text(), p));
                    }
                },
                None => {
                    assert(false);
                },
            }
        }
        out
    }
}

} // verus!
