//! Classification of one lexical unit at a time.
use vstd::prelude::*;
use super::cursor::{byte_offset, utf8_len, Cursor};

verus! {

/// Whether `c` has the Unicode `Alphabetic` property.
pub uninterp spec fn alphabetic(c: char) -> bool;

pub open spec fn ascii_letter(c: char) -> bool {
    ('a' <= c <= 'z') || ('A' <= c <= 'Z')
}

/// Whether `c` is a letter: among ASCII characters the 52 Latin letters, and
/// beyond ASCII those with the Unicode `Alphabetic` property.
pub open spec fn letter(c: char) -> bool {
    if c <= '\x7f' {
        ascii_letter(c)
    } else {
        alphabetic(c)
    }
}

/// Relies on `char::is_alphabetic`: whether `c` has the Unicode `Alphabetic`
/// property, which depends on `c` alone.
#[verifier::external_body]
fn is_alphabetic(c: char) -> (r: bool)
    ensures
        r == alphabetic(c),
{
    c.is_alphabetic()
}

pub open spec fn whitespace_char(c: char) -> bool {
    c == ' ' || c == '\t' || c == '\n' || c == '\r'
}

pub open spec fn identifier_start(c: char) -> bool {
    letter(c) || c == '_'
}

pub open spec fn ascii_digit(c: char) -> bool {
    '0' <= c <= '9'
}

pub open spec fn identifier_continue(c: char) -> bool {
    identifier_start(c) || ascii_digit(c)
}

pub fn is_whitespace(c: char) -> (r: bool)
    ensures
        r == whitespace_char(c),
{
    c == ' ' || c == '\t' || c == '\n' || c == '\r'
}

/// ASCII letters are told apart here; beyond ASCII, std's Unicode tables
/// decide.
fn is_letter(c: char) -> (r: bool)
    ensures
        r == letter(c),
{
    if c <= '\x7f' {
        ('a' <= c && c <= 'z') || ('A' <= c && c <= 'Z')
    } else {
        is_alphabetic(c)
    }
}

pub fn is_valid_identifier_start(c: char) -> (r: bool)
    ensures
        r == identifier_start(c),
{
    is_letter(c) || c == '_'
}

fn is_ascii_digit(c: char) -> (r: bool)
    ensures
        r == ascii_digit(c),
{
    '0' <= c && c <= '9'
}

pub fn is_valid_identifier_continue(c: char) -> (r: bool)
    ensures
        r == identifier_continue(c),
{
    is_valid_identifier_start(c) || is_ascii_digit(c)
}

fn is_not_quote(c: char) -> (r: bool)
    ensures
        r == (c != '\''),
{
    c != '\''
}

fn is_not_double_quote(c: char) -> (r: bool)
    ensures
        r == (c != '"'),
{
    c != '"'
}

/// The raw category of one lexical unit.
#[derive(Debug, Clone, Copy, PartialEq, Eq, Structural)]
pub enum ScannedTokenKind {
    Whitespace,
    Identifier,
    CharLiteral,
    StringLiteral,
    IntegerLiteral,
    DecimalLiteral,
    Equals,
    LessThan,
    GreaterThan,
    Plus,
    Minus,
    Star,
    Slash,
    Percent,
    Caret,
    And,
    Or,
    Dot,
    Comma,
    Semicolon,
    OpenParenthesis,
    CloseParenthesis,
    OpenBrace,
    CloseBrace,
    OpenBracket,
    CloseBracket,
    Eof,
    Unknown,
}

/// A lexical unit: its category and how many bytes of UTF-8 it spans.
#[derive(Debug, Clone, Copy, PartialEq, Eq, Structural)]
pub struct ScannedToken {
    pub kind: ScannedTokenKind,
    pub len: u32,
}

impl ScannedToken {
    pub fn new(kind: ScannedTokenKind, len: u32) -> (r: ScannedToken)
        ensures
            r.kind == kind,
            r.len == len,
    {
        ScannedToken { kind, len }
    }
}

/// The characters that a run of one lexical unit may go on with.
pub enum CharClass {
    Whitespace,
    IdentifierContinue,
    Digit,
    NotQuote,
    NotDoubleQuote,
}

pub open spec fn in_class(class: CharClass, c: char) -> bool {
    match class {
        CharClass::Whitespace => whitespace_char(c),
        CharClass::IdentifierContinue => identifier_continue(c),
        CharClass::Digit => ascii_digit(c),
        CharClass::NotQuote => c != '\'',
        CharClass::NotDoubleQuote => c != '"',
    }
}

/// Where the longest run of characters of `class` from `i` on ends.
pub open spec fn run_end(s: Seq<char>, i: int, class: CharClass) -> int
    decreases s.len() - i,
{
    if 0 <= i < s.len() && in_class(class, s[i]) {
        run_end(s, i + 1, class)
    } else {
        i
    }
}

/// Past the closing quote at `j`, if the text has not ended before it.
pub open spec fn past_closing(s: Seq<char>, j: int) -> int {
    if j < s.len() {
        j + 1
    } else {
        j
    }
}

/// The category of the one-character symbol `c`.
pub open spec fn symbol_kind(c: char) -> ScannedTokenKind {
    if c == '=' {
        ScannedTokenKind::Equals
    } else if c == '<' {
        ScannedTokenKind::LessThan
    } else if c == '>' {
        ScannedTokenKind::GreaterThan
    } else if c == '+' {
        ScannedTokenKind::Plus
    } else if c == '-' {
        ScannedTokenKind::Minus
    } else if c == '*' {
        ScannedTokenKind::Star
    } else if c == '/' {
        ScannedTokenKind::Slash
    } else if c == '%' {
        ScannedTokenKind::Percent
    } else if c == '^' {
        ScannedTokenKind::Caret
    } else if c == '&' {
        ScannedTokenKind::And
    } else if c == '|' {
        ScannedTokenKind::Or
    } else if c == '.' {
        ScannedTokenKind::Dot
    } else if c == ',' {
        ScannedTokenKind::Comma
    } else if c == ';' {
        ScannedTokenKind::Semicolon
    } else if c == '(' {
        ScannedTokenKind::OpenParenthesis
    } else if c == ')' {
        ScannedTokenKind::CloseParenthesis
    } else if c == '{' {
        ScannedTokenKind::OpenBrace
    } else if c == '}' {
        ScannedTokenKind::CloseBrace
    } else if c == '[' {
        ScannedTokenKind::OpenBracket
    } else if c == ']' {
        ScannedTokenKind::CloseBracket
    } else {
        ScannedTokenKind::Unknown
    }
}

/// The lexical unit that starts at `i`: its category and where it ends.
pub open spec fn scan(s: Seq<char>, i: int) -> (ScannedTokenKind, int) {
    if i >= s.len() {
        (ScannedTokenKind::Eof, i)
    } else {
        let c = s[i];
        if whitespace_char(c) {
            (ScannedTokenKind::Whitespace, run_end(s, i + 1, CharClass::Whitespace))
        } else if identifier_start(c) {
            (ScannedTokenKind::Identifier, run_end(s, i + 1, CharClass::IdentifierContinue))
        } else if c == '\'' {
            (ScannedTokenKind::CharLiteral, past_closing(s, run_end(s, i + 1, CharClass::NotQuote)))
        } else if c == '"' {
            (
                ScannedTokenKind::StringLiteral,
                past_closing(s, run_end(s, i + 1, CharClass::NotDoubleQuote)),
            )
        } else if ascii_digit(c) {
            let d = run_end(s, i + 1, CharClass::Digit);
            if d < s.len() && s[d] == '.' {
                (ScannedTokenKind::DecimalLiteral, run_end(s, d + 1, CharClass::Digit))
            } else {
                (ScannedTokenKind::IntegerLiteral, d)
            }
        } else {
            (symbol_kind(c), i + 1)
        }
    }
}

pub proof fn lemma_run_end(s: Seq<char>, i: int, class: CharClass)
    requires
        0 <= i <= s.len(),
    ensures
        i <= run_end(s, i, class) <= s.len(),
        forall|j: int| i <= j < run_end(s, i, class) ==> in_class(class, #[trigger] s[j]),
        run_end(s, i, class) == s.len() || !in_class(class, s[run_end(s, i, class)]),
    decreases s.len() - i,
{
    if i < s.len() && in_class(class, s[i]) {
        lemma_run_end(s, i + 1, class);
    }
}

/// A run is determined by where it starts.
pub proof fn lemma_run_end_unique(s: Seq<char>, i: int, e: int, class: CharClass)
    requires
        0 <= i <= e <= s.len(),
        forall|j: int| i <= j < e ==> in_class(class, #[trigger] s[j]),
        e == s.len() || !in_class(class, s[e]),
    ensures
        run_end(s, i, class) == e,
    decreases e - i,
{
    if i < e {
        lemma_run_end_unique(s, i + 1, e, class);
    }
}

/// A unit that starts before the end of the text is not empty.
pub proof fn lemma_scan_advances(s: Seq<char>, i: int)
    requires
        0 <= i <= s.len(),
    ensures
        i <= scan(s, i).1 <= s.len(),
        i < s.len() ==> i < scan(s, i).1,
        (scan(s, i).0 == ScannedTokenKind::Eof) == (i == s.len()),
{
    if i < s.len() {
        lemma_run_end(s, i + 1, CharClass::Whitespace);
        lemma_run_end(s, i + 1, CharClass::IdentifierContinue);
        lemma_run_end(s, i + 1, CharClass::NotQuote);
        lemma_run_end(s, i + 1, CharClass::NotDoubleQuote);
        let d = run_end(s, i + 1, CharClass::Digit);
        lemma_run_end(s, i + 1, CharClass::Digit);
        if d < s.len() {
            lemma_run_end(s, d + 1, CharClass::Digit);
        }
    }
}

/// Classifies the source text one lexical unit at a time.
pub struct Scanner {
    cursor: Cursor,
}

impl Scanner {
    /// The text being scanned.
    pub closed spec fn text(&self) -> Seq<char> {
        self.cursor.text()
    }

    /// Where the next unit starts.
    pub closed spec fn pos(&self) -> int {
        self.cursor.pos()
    }

    /// The cursor has counted nothing since the unit last scanned.
    pub closed spec fn at_boundary(&self) -> bool {
        &&& self.cursor.wf()
        &&& self.cursor.mark() == self.cursor.pos()
    }

    pub open spec fn wf(&self) -> bool {
        &&& self.at_boundary()
        &&& 0 <= self.pos() <= self.text().len()
        &&& utf8_len(self.text()) <= u32::MAX
    }

    pub fn new(input: &str) -> (r: Scanner)
        requires
            utf8_len(input@) <= u32::MAX,
        ensures
            r.wf(),
            r.text() == input@,
            r.pos() == 0,
    {
        Scanner { cursor: Cursor::new(input) }
    }

    /// The index of the character where the next unit starts.
    pub fn index(&self) -> (r: usize)
        ensures
            r == self.pos(),
    {
        self.cursor.index()
    }

    fn take_run(&mut self, class: CharClass)
        requires
            old(self).cursor.wf(),
        ensures
            final(self).cursor.wf(),
            final(self).cursor.text() == old(self).cursor.text(),
            final(self).cursor.mark() == old(self).cursor.mark(),
            final(self).cursor.pos() == run_end(
                old(self).cursor.text(),
                old(self).cursor.pos(),
                class,
            ),
    {
        let ghost s = self.cursor.text();
        let ghost i = self.cursor.pos();
        match class {
            CharClass::Whitespace => self.cursor.take_while(is_whitespace),
            CharClass::IdentifierContinue => self.cursor.take_while(is_valid_identifier_continue),
            CharClass::Digit => self.cursor.take_while(is_ascii_digit),
            CharClass::NotQuote => self.cursor.take_while(is_not_quote),
            CharClass::NotDoubleQuote => self.cursor.take_while(is_not_double_quote),
        }
        proof {
            lemma_run_end_unique(s, i, self.cursor.pos(), class);
        }
    }

    fn whitespace(&mut self) -> (r: ScannedTokenKind)
        requires
            old(self).cursor.wf(),
        ensures
            final(self).cursor.wf(),
            final(self).cursor.text() == old(self).cursor.text(),
            final(self).cursor.mark() == old(self).cursor.mark(),
            final(self).cursor.pos() == run_end(
                old(self).cursor.text(),
                old(self).cursor.pos(),
                CharClass::Whitespace,
            ),
            r == ScannedTokenKind::Whitespace,
    {
        self.take_run(CharClass::Whitespace);
        ScannedTokenKind::Whitespace
    }

    fn identifier(&mut self) -> (r: ScannedTokenKind)
        requires
            old(self).cursor.wf(),
        ensures
            final(self).cursor.wf(),
            final(self).cursor.text() == old(self).cursor.text(),
            final(self).cursor.mark() == old(self).cursor.mark(),
            final(self).cursor.pos() == run_end(
                old(self).cursor.text(),
                old(self).cursor.pos(),
                CharClass::IdentifierContinue,
            ),
            r == ScannedTokenKind::Identifier,
    {
        self.take_run(CharClass::IdentifierContinue);
        ScannedTokenKind::Identifier
    }

    /// The rest of a number whose first digit has been consumed: more digits,
    /// then a fractional part if a `.` follows them.
    fn numeric_literal(&mut self) -> (r: ScannedTokenKind)
        requires
            old(self).cursor.wf(),
        ensures
            final(self).cursor.wf(),
            final(self).cursor.text() == old(self).cursor.text(),
            final(self).cursor.mark() == old(self).cursor.mark(),
            ({
                let s = old(self).cursor.text();
                let d = run_end(s, old(self).cursor.pos(), CharClass::Digit);
                if d < s.len() && s[d] == '.' {
                    &&& r == ScannedTokenKind::DecimalLiteral
                    &&& final(self).cursor.pos() == run_end(s, d + 1, CharClass::Digit)
                } else {
                    &&& r == ScannedTokenKind::IntegerLiteral
                    &&& final(self).cursor.pos() == d
                }
            }),
    {
        self.take_run(CharClass::Digit);
        match self.cursor.peek_next() {
            Some('.') => {
                self.cursor.take_next();
                self.take_run(CharClass::Digit);
                ScannedTokenKind::DecimalLiteral
            },
            _ => ScannedTokenKind::IntegerLiteral,
        }
    }

    /// The rest of a character literal: up to and past the closing quote.
    fn char_literal(&mut self) -> (r: ScannedTokenKind)
        requires
            old(self).cursor.wf(),
        ensures
            final(self).cursor.wf(),
            final(self).cursor.text() == old(self).cursor.text(),
            final(self).cursor.mark() == old(self).cursor.mark(),
            final(self).cursor.pos() == past_closing(
                old(self).cursor.text(),
                run_end(old(self).cursor.text(), old(self).cursor.pos(), CharClass::NotQuote),
            ),
            r == ScannedTokenKind::CharLiteral,
    {
        self.take_run(CharClass::NotQuote);
        self.cursor.take_next();
        ScannedTokenKind::CharLiteral
    }

    /// The rest of a string literal: up to and past the closing quote.
    fn string_literal(&mut self) -> (r: ScannedTokenKind)
        requires
            old(self).cursor.wf(),
        ensures
            final(self).cursor.wf(),
            final(self).cursor.text() == old(self).cursor.text(),
            final(self).cursor.mark() == old(self).cursor.mark(),
            final(self).cursor.pos() == past_closing(
                old(self).cursor.text(),
                run_end(
                    old(self).cursor.text(),
                    old(self).cursor.pos(),
                    CharClass::NotDoubleQuote,
                ),
            ),
            r == ScannedTokenKind::StringLiteral,
    {
        self.take_run(CharClass::NotDoubleQuote);
        self.cursor.take_next();
        ScannedTokenKind::StringLiteral
    }

    /// Classifies the unit at the current position and moves past it.
    pub fn next_token(&mut self) -> (r: ScannedToken)
        requires
            old(self).wf(),
        ensures
            final(self).wf(),
            final(self).text() == old(self).text(),
            r.kind == scan(old(self).text(), old(self).pos()).0,
            final(self).pos() == scan(old(self).text(), old(self).pos()).1,
            r.len == byte_offset(old(self).text(), final(self).pos()) - byte_offset(
                old(self).text(),
                old(self).pos(),
            ),
    {
        let c = match self.cursor.take_next() {
            Some(c) => c,
            None => return ScannedToken::new(ScannedTokenKind::Eof, 0),
        };
        let token_kind = if is_whitespace(c) {
            self.whitespace()
        } else if is_valid_identifier_start(c) {
            self.identifier()
        } else if c == '\'' {
            self.char_literal()
        } else if c == '"' {
            self.string_literal()
        } else if is_ascii_digit(c) {
            self.numeric_literal()
        } else {
            match c {
                '=' => ScannedTokenKind::Equals,
                '<' => ScannedTokenKind::LessThan,
                '>' => ScannedTokenKind::GreaterThan,
                '+' => ScannedTokenKind::Plus,
                '-' => ScannedTokenKind::Minus,
                '*' => ScannedTokenKind::Star,
                '/' => ScannedTokenKind::Slash,
                '%' => ScannedTokenKind::Percent,
                '^' => ScannedTokenKind::Caret,
                '&' => ScannedTokenKind::And,
                '|' => ScannedTokenKind::Or,
                '.' => ScannedTokenKind::Dot,
                ',' => ScannedTokenKind::Comma,
                ';' => ScannedTokenKind::Semicolon,
                '(' => ScannedTokenKind::OpenParenthesis,
                ')' => ScannedTokenKind::CloseParenthesis,
                '{' => ScannedTokenKind::OpenBrace,
                '}' => ScannedTokenKind::CloseBrace,
                '[' => ScannedTokenKind::OpenBracket,
                ']' => ScannedTokenKind::CloseBracket,
                _ => ScannedTokenKind::Unknown,
            }
        };
        let token = ScannedToken::new(token_kind, self.cursor.consumed_size());
        self.cursor.reset_consumed_size();
        token
    }
}

} // verus!
