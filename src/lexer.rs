//! Token production and delimiter grouping.
pub mod cursor;
pub mod scanner;
pub mod laws;

use vstd::prelude::*;
use self::cursor::{byte_offset, chars_of, lemma_byte_offset_grows, utf8_len};
use self::scanner::{
    lemma_run_end, lemma_scan_advances, scan, whitespace_char, CharClass, ScannedTokenKind,
    Scanner,
};
use crate::token::{
    lemma_group_view, trees_view, Delimiter, Identifier, Lexeme, Literal, LiteralKind, Position,
    Span, Token, TokenKind, TokenStream, TokenTree, Tree,
};

verus! {

/// What went wrong, seen as plain values: offsets and delimiters.
pub enum Fault {
    UnexpectedCharacter(int),
    UnmatchedDelimiter(Option<Delimiter>, Delimiter, int),
    UnclosedDelimiter(Seq<int>),
}

/// Why a source text could not be lexed.
#[derive(Debug, PartialEq, Clone)]
pub enum LexError {
    /// A character that starts no token.
    UnexpectedCharacter { position: Position },
    /// A closing delimiter that does not close the innermost open one
    /// (`expected`; `None` where no delimiter is open).
    UnmatchedDelimiter { expected: Option<Delimiter>, found: Delimiter, position: Position },
    /// The end of the input, with delimiters still open at these positions,
    /// outermost first.
    UnclosedDelimiter { open_positions: Vec<Position> },
}

impl View for LexError {
    type V = Fault;

    open spec fn view(&self) -> Fault {
        match self {
            LexError::UnexpectedCharacter { position } => Fault::UnexpectedCharacter(position@),
            LexError::UnmatchedDelimiter { expected, found, position } => Fault::UnmatchedDelimiter(
                *expected,
                *found,
                position@,
            ),
            LexError::UnclosedDelimiter { open_positions } => Fault::UnclosedDelimiter(
                open_positions@.map_values(|p: Position| p@),
            ),
        }
    }
}

/// A lexed token, or the error, seen as plain values.
pub open spec fn token_outcome(r: Result<Token, LexError>) -> Result<Lexeme, Fault> {
    match r {
        Ok(token) => Ok(token@),
        Err(e) => Err(e@),
    }
}

/// A lexed stream of trees, or the error, seen as plain values.
pub open spec fn outcome(r: Result<TokenStream, LexError>) -> Result<Seq<Tree>, Fault> {
    match r {
        Ok(stream) => Ok(stream@),
        Err(e) => Err(e@),
    }
}

/// Whether a token of this category keeps the characters it covers.
pub open spec fn keeps_text(k: ScannedTokenKind) -> bool {
    ||| k == ScannedTokenKind::Identifier
    ||| k == ScannedTokenKind::CharLiteral
    ||| k == ScannedTokenKind::StringLiteral
    ||| k == ScannedTokenKind::IntegerLiteral
    ||| k == ScannedTokenKind::DecimalLiteral
}

/// `t` with its character indices turned into byte offsets in the UTF-8
/// encoding of `s`.
pub open spec fn located(s: Seq<char>, t: Lexeme) -> Lexeme {
    Lexeme {
        kind: t.kind,
        text: t.text,
        start: byte_offset(s, t.start) as int,
        end: byte_offset(s, t.end) as int,
    }
}

/// `r` with a token's character indices turned into byte offsets.
pub open spec fn placed(s: Seq<char>, r: Result<Lexeme, Fault>) -> Result<Lexeme, Fault> {
    match r {
        Ok(t) => Ok(located(s, t)),
        Err(e) => Err(e),
    }
}

/// The token of category `k` that covers the characters `[start, end)` of `s`.
pub open spec fn lexeme(s: Seq<char>, k: ScannedTokenKind, start: int, end: int) -> Lexeme {
    Lexeme {
        kind: k,
        text: if keeps_text(k) {
            s.subrange(start, end)
        } else {
            Seq::empty()
        },
        start,
        end,
    }
}

/// The first token at or after the character index `i`, whitespace skipped;
/// at the end of the text an empty end-of-input token. Its span is given in
/// character indices (see [`located`]); an error gives a byte offset.
pub open spec fn next_lexeme(s: Seq<char>, i: nat) -> Result<Lexeme, Fault>
    decreases s.len() - i,
{
    if i >= s.len() {
        Ok(lexeme(s, ScannedTokenKind::Eof, i as int, i as int))
    } else {
        let (k, e) = scan(s, i as int);
        if k == ScannedTokenKind::Whitespace {
            proof {
                lemma_scan_advances(s, i as int);
            }
            next_lexeme(s, e as nat)
        } else if k == ScannedTokenKind::Unknown {
            Err(Fault::UnexpectedCharacter(byte_offset(s, i as int) as int))
        } else {
            Ok(lexeme(s, k, i as int, e))
        }
    }
}

pub proof fn lemma_next_lexeme(s: Seq<char>, i: nat)
    ensures
        next_lexeme(s, i) matches Ok(t) ==> {
            &&& t.kind != ScannedTokenKind::Whitespace
            &&& t.kind != ScannedTokenKind::Unknown
            &&& i <= t.start <= t.end
            &&& t.kind == ScannedTokenKind::Eof ==> t.start == t.end
            &&& t.kind == ScannedTokenKind::Eof && i <= s.len() ==> t.start == s.len()
            &&& t.kind != ScannedTokenKind::Eof ==> t.start < t.end <= s.len()
            &&& forall|j: int| i <= j < t.start ==> whitespace_char(#[trigger] s[j])
            &&& t == lexeme(s, t.kind, t.start, t.end)
        },
    decreases s.len() - i,
{
    if i < s.len() {
        lemma_scan_advances(s, i as int);
        let (k, e) = scan(s, i as int);
        if k == ScannedTokenKind::Whitespace {
            lemma_run_end(s, i + 1 as int, CharClass::Whitespace);
            lemma_next_lexeme(s, e as nat);
        }
    }
}


/// The tokens from the character index `i` on, up to and including the
/// end-of-input token, spans in character indices; or the first error met.
pub open spec fn lex_from(s: Seq<char>, i: nat) -> Result<Seq<Lexeme>, Fault>
    decreases s.len() - i,
{
    match next_lexeme(s, i) {
        Err(e) => Err(e),
        Ok(t) => if t.kind == ScannedTokenKind::Eof {
            Ok(seq![t])
        } else {
            proof {
                lemma_next_lexeme(s, i);
            }
            match lex_from(s, t.end as nat) {
                Err(e) => Err(e),
                Ok(rest) => Ok(seq![t] + rest),
            }
        },
    }
}

/// The delimiter that a token of this category opens, if any.
pub open spec fn opens(k: ScannedTokenKind) -> Option<Delimiter> {
    match k {
        ScannedTokenKind::OpenParenthesis => Some(Delimiter::Parenthesis),
        ScannedTokenKind::OpenBrace => Some(Delimiter::Brace),
        ScannedTokenKind::OpenBracket => Some(Delimiter::Bracket),
        _ => None,
    }
}

/// The delimiter that a token of this category closes, if any.
pub open spec fn closes(k: ScannedTokenKind) -> Option<Delimiter> {
    match k {
        ScannedTokenKind::CloseParenthesis => Some(Delimiter::Parenthesis),
        ScannedTokenKind::CloseBrace => Some(Delimiter::Brace),
        ScannedTokenKind::CloseBracket => Some(Delimiter::Bracket),
        _ => None,
    }
}

/// One frame of the grouping stack: the delimiter that opened it (`None` for
/// the outermost frame), where it was opened, and the trees gathered in it.
pub struct Level {
    pub delimiter: Option<Delimiter>,
    pub open: int,
    pub trees: Seq<Tree>,
}

/// The stack before the first token: the outermost frame, empty.
pub open spec fn root() -> Seq<Level> {
    seq![Level { delimiter: None, open: 0, trees: Seq::empty() }]
}

/// The stack with `tree` added to the innermost frame.
pub open spec fn add_tree(stack: Seq<Level>, tree: Tree) -> Seq<Level> {
    let top = stack.last();
    stack.update(
        stack.len() - 1,
        Level { delimiter: top.delimiter, open: top.open, trees: top.trees.push(tree) },
    )
}

/// The grouping stack after one more token that is not the end of input:
/// an opening delimiter pushes a frame, a closing one folds the innermost
/// frame into a group of its parent, any other token is added as a leaf.
pub open spec fn step(stack: Seq<Level>, t: Lexeme) -> Result<Seq<Level>, Fault> {
    match opens(t.kind) {
        Some(d) => Ok(stack.push(Level { delimiter: Some(d), open: t.start, trees: Seq::empty() })),
        None => match closes(t.kind) {
            Some(d) => {
                let top = stack.last();
                if stack.len() >= 2 && top.delimiter == Some(d) {
                    Ok(add_tree(stack.drop_last(), Tree::Group(d, top.trees)))
                } else {
                    Err(Fault::UnmatchedDelimiter(top.delimiter, d, t.start))
                }
            },
            None => Ok(add_tree(stack, Tree::Leaf(t))),
        },
    }
}

/// What the grouping stack gives at the end of the input.
pub open spec fn finish(stack: Seq<Level>) -> Result<Seq<Tree>, Fault> {
    if stack.len() == 1 {
        Ok(stack[0].trees)
    } else {
        Err(Fault::UnclosedDelimiter(stack.drop_first().map_values(|l: Level| l.open)))
    }
}

/// Lexing from the character index `i` on with the grouping stack `stack`:
/// the first error met, or the trees of the outermost frame.
pub open spec fn trees_from(s: Seq<char>, i: nat, stack: Seq<Level>) -> Result<Seq<Tree>, Fault>
    decreases s.len() - i,
{
    match next_lexeme(s, i) {
        Err(e) => Err(e),
        Ok(t) => if t.kind == ScannedTokenKind::Eof {
            finish(stack)
        } else {
            match step(stack, located(s, t)) {
                Err(e) => Err(e),
                Ok(next) => {
                    proof {
                        lemma_next_lexeme(s, i);
                    }
                    trees_from(s, t.end as nat, next)
                },
            }
        },
    }
}

/// The token trees of the source text `s`, or the first error met in it.
pub open spec fn lex_trees(s: Seq<char>) -> Result<Seq<Tree>, Fault> {
    trees_from(s, 0, root())
}

/// A frame of the grouping stack.
struct Frame {
    delimiter: Option<Delimiter>,
    open: Position,
    trees: Vec<TokenTree>,
}

impl View for Frame {
    type V = Level;

    closed spec fn view(&self) -> Level {
        Level { delimiter: self.delimiter, open: self.open@, trees: trees_view(self.trees@) }
    }
}

spec fn levels(stack: Seq<Frame>) -> Seq<Level> {
    stack.map_values(|f: Frame| f@)
}

/// Relies on `String::push`: the character is appended at the end.
#[verifier::external_body]
fn push_char(s: &mut String, c: char)
    ensures
        final(s)@ == old(s)@.push(c),
{
    s.push(c);
}

/// Turns source text into tokens, and tokens into trees of delimited groups.
pub struct Lexer {
    code: Vec<char>,
    index: usize,
    position: u32,
    scanner: Scanner,
}

impl Lexer {
    /// The source text.
    pub closed spec fn text(&self) -> Seq<char> {
        self.code@
    }

    /// The index of the character where the next token is looked for.
    pub closed spec fn pos(&self) -> nat {
        self.index as nat
    }

    pub closed spec fn wf(&self) -> bool {
        &&& self.scanner.wf()
        &&& self.scanner.text() == self.code@
        &&& self.scanner.pos() == self.index
        &&& self.position == byte_offset(self.code@, self.index as int)
        &&& utf8_len(self.code@) <= u32::MAX
    }

    pub fn new(code: &str) -> (r: Lexer)
        requires
            utf8_len(code@) <= u32::MAX,
        ensures
            r.wf(),
            r.text() == code@,
            r.pos() == 0,
    {
        let chars = chars_of(code);
        assert(chars@.take(0) =~= Seq::<char>::empty());
        assert(vstd::utf8::encode_utf8(Seq::<char>::empty()) =~= Seq::<u8>::empty());
        Lexer { code: chars, index: 0, position: 0, scanner: Scanner::new(code) }
    }

    /// The source text from `start` to the current position.
    fn text_from(&self, start: usize) -> (r: String)
        requires
            self.wf(),
            start <= self.pos(),
        ensures
            r@ == self.text().subrange(start as int, self.pos() as int),
    {
        let mut value = String::new();
        let mut i: usize = start;
        while i < self.index
            invariant
                self.wf(),
                start <= i <= self.pos(),
                value@ == self.text().subrange(start as int, i as int),
            decreases self.pos() - i,
        {
            push_char(&mut value, self.code[i]);
            assert(value@ =~= self.text().subrange(start as int, i + 1));
            i = i + 1;
        }
        value
    }

    fn identifier(&self, start: usize) -> (r: TokenKind)
        requires
            self.wf(),
            start <= self.pos(),
        ensures
            r@ == (ScannedTokenKind::Identifier, self.text().subrange(start as int, self.pos() as int)),
    {
        TokenKind::Identifier(Identifier { value: self.text_from(start) })
    }

    fn literal(&self, start: usize, kind: ScannedTokenKind) -> (r: TokenKind)
        requires
            self.wf(),
            start <= self.pos(),
            kind == ScannedTokenKind::CharLiteral || kind == ScannedTokenKind::StringLiteral
                || kind == ScannedTokenKind::IntegerLiteral || kind
                == ScannedTokenKind::DecimalLiteral,
        ensures
            r@ == (kind, self.text().subrange(start as int, self.pos() as int)),
    {
        let literal_kind = match kind {
            ScannedTokenKind::CharLiteral => LiteralKind::Char,
            ScannedTokenKind::StringLiteral => LiteralKind::String,
            ScannedTokenKind::IntegerLiteral => LiteralKind::Integer,
            _ => LiteralKind::Decimal,
        };
        TokenKind::Literal(Literal { kind: literal_kind, value: self.text_from(start) })
    }

    /// The next token, whitespace skipped. At the end of the input this is an
    /// end-of-input token, again on every later call.
    pub fn next_token(&mut self) -> (r: Result<Token, LexError>)
        requires
            old(self).wf(),
        ensures
            final(self).wf(),
            final(self).text() == old(self).text(),
            token_outcome(r) == placed(
                old(self).text(),
                next_lexeme(old(self).text(), old(self).pos()),
            ),
            r is Ok ==> final(self).pos() == next_lexeme(
                old(self).text(),
                old(self).pos(),
            )->Ok_0.end,
    {
        let ghost s = self.text();
        let ghost goal = next_lexeme(s, self.pos());
        loop
            invariant
                self.wf(),
                s == old(self).text(),
                goal == next_lexeme(s, old(self).pos()),
                self.text() == s,
                next_lexeme(s, self.pos()) == goal,
            decreases s.len() - self.pos(),
        {
            proof {
                lemma_scan_advances(s, self.pos() as int);
            }
            let scanned = self.scanner.next_token();
            let start_index: usize = self.index;
            let start: u32 = self.position;
            proof {
                lemma_byte_offset_grows(s, self.pos() as int, self.scanner.pos());
                lemma_byte_offset_grows(s, self.scanner.pos(), s.len() as int);
            }
            self.position = self.position + scanned.len;
            self.index = self.scanner.index();
            let token_kind = match scanned.kind {
                ScannedTokenKind::Whitespace => continue,
                ScannedTokenKind::Identifier => self.identifier(start_index),
                ScannedTokenKind::CharLiteral
                | ScannedTokenKind::StringLiteral
                | ScannedTokenKind::IntegerLiteral
                | ScannedTokenKind::DecimalLiteral => self.literal(start_index, scanned.kind),
                ScannedTokenKind::Equals => TokenKind::Equals,
                ScannedTokenKind::LessThan => TokenKind::LessThan,
                ScannedTokenKind::GreaterThan => TokenKind::GreaterThan,
                ScannedTokenKind::Plus => TokenKind::Plus,
                ScannedTokenKind::Minus => TokenKind::Minus,
                ScannedTokenKind::Star => TokenKind::Star,
                ScannedTokenKind::Slash => TokenKind::Slash,
                ScannedTokenKind::Percent => TokenKind::Percent,
                ScannedTokenKind::Caret => TokenKind::Caret,
                ScannedTokenKind::And => TokenKind::And,
                ScannedTokenKind::Or => TokenKind::Or,
                ScannedTokenKind::Dot => TokenKind::Dot,
                ScannedTokenKind::Comma => TokenKind::Comma,
                ScannedTokenKind::Semicolon => TokenKind::Semicolon,
                ScannedTokenKind::OpenParenthesis => TokenKind::OpenDelimiter(
                    Delimiter::Parenthesis,
                ),
                ScannedTokenKind::CloseParenthesis => TokenKind::CloseDelimiter(
                    Delimiter::Parenthesis,
                ),
                ScannedTokenKind::OpenBrace => TokenKind::OpenDelimiter(Delimiter::Brace),
                ScannedTokenKind::CloseBrace => TokenKind::CloseDelimiter(Delimiter::Brace),
                ScannedTokenKind::OpenBracket => TokenKind::OpenDelimiter(Delimiter::Bracket),
                ScannedTokenKind::CloseBracket => TokenKind::CloseDelimiter(Delimiter::Bracket),
                ScannedTokenKind::Eof => TokenKind::Eof,
                ScannedTokenKind::Unknown => {
                    return Err(
                        LexError::UnexpectedCharacter { position: Position::from_u32(start) },
                    );
                },
            };
            let span = Span::from_positions(
                Position::from_u32(start),
                Position::from_u32(self.position),
            );
            return Ok(Token::new(token_kind, span));
        }
    }

    /// Lexes the rest of the input and folds its tokens into trees of
    /// delimited groups.
    pub fn lex_token_trees(&mut self) -> (r: Result<TokenStream, LexError>)
        requires
            old(self).wf(),
        ensures
            final(self).wf(),
            final(self).text() == old(self).text(),
            outcome(r) == trees_from(old(self).text(), old(self).pos(), root()),
            r is Ok ==> final(self).pos() == final(self).text().len(),
    {
        let ghost s = self.text();
        let ghost goal = trees_from(s, self.pos(), root());
        let mut stack: Vec<Frame> = Vec::new();
        stack.push(Frame { delimiter: None, open: Position::from_u32(0), trees: Vec::new() });
        assert(trees_view(Seq::empty()) =~= Seq::<Tree>::empty());
        assert(levels(stack@) =~= root());
        loop
            invariant
                s == old(self).text(),
                goal == trees_from(s, old(self).pos(), root()),
                self.wf(),
                self.text() == s,
                stack@.len() >= 1,
                trees_from(s, self.pos(), levels(stack@)) == goal,
            decreases s.len() - self.pos(),
        {
            let ghost before = levels(stack@);
            let ghost i = self.pos();
            proof {
                lemma_next_lexeme(s, i);
            }
            let token = match self.next_token() {
                Ok(token) => token,
                Err(e) => return Err(e),
            };
            let last: usize = stack.len() - 1;
            match token.kind {
                TokenKind::OpenDelimiter(d) => {
                    stack.push(
                        Frame {
                            delimiter: Some(d),
                            open: token.span.start_position(),
                            trees: Vec::new(),
                        },
                    );
                    assert(trees_view(Seq::empty()) =~= Seq::<Tree>::empty());
                    assert(levels(stack@) =~= step(before, token@)->Ok_0);
                },
                TokenKind::CloseDelimiter(d) => {
                    let matched = match stack[last].delimiter {
                        Some(open) => last >= 1 && open == d,
                        None => false,
                    };
                    if !matched {
                        return Err(
                            LexError::UnmatchedDelimiter {
                                expected: stack[last].delimiter,
                                found: d,
                                position: token.span.start_position(),
                            },
                        );
                    }
                    let top = stack.pop().unwrap();
                    let mut parent = stack.pop().unwrap();
                    proof {
                        lemma_group_view(d, top.trees);
                    }
                    parent.trees.push(TokenTree::Group(d, top.trees));
                    stack.push(parent);
                    proof {
                        assert(trees_view(parent.trees@) =~= before[last - 1].trees.push(
                            Tree::Group(d, before[last as int].trees),
                        ));
                        assert(levels(stack@) =~= step(before, token@)->Ok_0);
                    }
                },
                TokenKind::Eof => {
                    if stack.len() != 1 {
                        let mut open_positions: Vec<Position> = Vec::new();
                        let mut k: usize = 1;
                        while k < stack.len()
                            invariant
                                1 <= k <= stack@.len(),
                                open_positions@.len() == k - 1,
                                forall|j: int|
                                    0 <= j < k - 1 ==> open_positions@[j] == stack@[j + 1].open,
                            decreases stack@.len() - k,
                        {
                            open_positions.push(stack[k].open);
                            k = k + 1;
                        }
                        assert(open_positions@.map_values(|p: Position| p@) =~= levels(
                            stack@,
                        ).drop_first().map_values(|l: Level| l.open));
                        return Err(LexError::UnclosedDelimiter { open_positions });
                    }
                    let outer = stack.pop().unwrap();
                    return Ok(TokenStream::new(outer.trees));
                },
                _ => {
                    let mut top = stack.pop().unwrap();
                    top.trees.push(TokenTree::Token(token));
                    stack.push(top);
                    proof {
                        assert(trees_view(top.trees@) =~= before[last as int].trees.push(
                            Tree::Leaf(token@),
                        ));
                        assert(levels(stack@) =~= step(before, token@)->Ok_0);
                    }
                },
            }
        }
    }
}

/// Lexes `code` into trees of delimited groups.
pub fn lex_token_trees(code: &str) -> (r: Result<TokenStream, LexError>)
    requires
        utf8_len(code@) <= u32::MAX,
    ensures
        outcome(r) == lex_trees(code@),
{
    let mut lexer = Lexer::new(code);
    lexer.lex_token_trees()
}

} // verus!
