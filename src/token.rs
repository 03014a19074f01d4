//! The positioned tokens and token trees that lexing produces.
use vstd::prelude::*;
use crate::lexer::scanner::ScannedTokenKind;

verus! {

/// A byte offset into the UTF-8 encoding of the source text.
#[derive(Debug, Clone, Copy, PartialEq, Eq, Structural)]
pub struct Position(u32);

impl View for Position {
    type V = int;

    closed spec fn view(&self) -> int {
        self.0 as int
    }
}

impl Position {
    pub fn from_u32(value: u32) -> (r: Position)
        ensures
            r@ == value,
    {
        Position(value)
    }

    pub fn to_u32(&self) -> (r: u32)
        ensures
            r == self@,
    {
        self.0
    }
}

/// The half-open range of the source `[start, start + len)`.
#[derive(Debug, Clone, Copy, PartialEq, Eq, Structural)]
pub struct Span {
    start: u32,
    len: u32,
}

impl Span {
    #[verifier::type_invariant]
    spec fn fits(&self) -> bool {
        self.start + self.len <= u32::MAX
    }

    pub closed spec fn start(&self) -> int {
        self.start as int
    }

    pub closed spec fn end(&self) -> int {
        self.start + self.len
    }

    pub fn start_position(&self) -> (r: Position)
        ensures
            r@ == self.start(),
    {
        Position::from_u32(self.start)
    }

    pub fn end_position(&self) -> (r: Position)
        ensures
            r@ == self.end(),
    {
        proof {
            use_type_invariant(self);
        }
        Position::from_u32(self.start + self.len)
    }

    pub fn from_positions(start: Position, end: Position) -> (r: Span)
        requires
            start@ <= end@,
        ensures
            r.start() == start@,
            r.end() == end@,
    {
        let s: u32 = start.to_u32();
        let e: u32 = end.to_u32();
        Span { start: s, len: e - s }
    }
}

#[derive(Debug, PartialEq, Clone)]
pub struct Identifier {
    pub value: String,
}

#[derive(Debug, Clone, Copy, PartialEq, Eq, Structural)]
pub enum LiteralKind {
    Char,
    String,
    Integer,
    Decimal,
}

#[derive(Debug, PartialEq, Clone)]
pub struct Literal {
    pub kind: LiteralKind,
    pub value: String,
}

#[derive(Debug, Clone, Copy, PartialEq, Eq, Structural)]
pub enum Delimiter {
    Parenthesis,
    Brace,
    Bracket,
}

#[derive(Debug, PartialEq, Clone)]
pub enum TokenKind {
    Identifier(Identifier),
    Literal(Literal),
    Equals,
    LessThan,
    GreaterThan,
    Plus,
    Minus,
    Star,
    Slash,
    Percent,
    Caret,
    And,
    Or,
    Dot,
    Comma,
    Semicolon,
    OpenDelimiter(Delimiter),
    CloseDelimiter(Delimiter),
    Eof,
}

/// The category under which the scanner finds a literal of this kind.
pub open spec fn literal_category(k: LiteralKind) -> ScannedTokenKind {
    match k {
        LiteralKind::Char => ScannedTokenKind::CharLiteral,
        LiteralKind::String => ScannedTokenKind::StringLiteral,
        LiteralKind::Integer => ScannedTokenKind::IntegerLiteral,
        LiteralKind::Decimal => ScannedTokenKind::DecimalLiteral,
    }
}

pub open spec fn open_category(d: Delimiter) -> ScannedTokenKind {
    match d {
        Delimiter::Parenthesis => ScannedTokenKind::OpenParenthesis,
        Delimiter::Brace => ScannedTokenKind::OpenBrace,
        Delimiter::Bracket => ScannedTokenKind::OpenBracket,
    }
}

pub open spec fn close_category(d: Delimiter) -> ScannedTokenKind {
    match d {
        Delimiter::Parenthesis => ScannedTokenKind::CloseParenthesis,
        Delimiter::Brace => ScannedTokenKind::CloseBrace,
        Delimiter::Bracket => ScannedTokenKind::CloseBracket,
    }
}

/// A token kind is seen as the scanner's category for it together with the
/// text it keeps: an identifier's name or a literal's characters, and
/// nothing for the other kinds.
impl View for TokenKind {
    type V = (ScannedTokenKind, Seq<char>);

    open spec fn view(&self) -> (ScannedTokenKind, Seq<char>) {
        match self {
            TokenKind::Identifier(id) => (ScannedTokenKind::Identifier, id.value@),
            TokenKind::Literal(lit) => (literal_category(lit.kind), lit.value@),
            TokenKind::Equals => (ScannedTokenKind::Equals, Seq::empty()),
            TokenKind::LessThan => (ScannedTokenKind::LessThan, Seq::empty()),
            TokenKind::GreaterThan => (ScannedTokenKind::GreaterThan, Seq::empty()),
            TokenKind::Plus => (ScannedTokenKind::Plus, Seq::empty()),
            TokenKind::Minus => (ScannedTokenKind::Minus, Seq::empty()),
            TokenKind::Star => (ScannedTokenKind::Star, Seq::empty()),
            TokenKind::Slash => (ScannedTokenKind::Slash, Seq::empty()),
            TokenKind::Percent => (ScannedTokenKind::Percent, Seq::empty()),
            TokenKind::Caret => (ScannedTokenKind::Caret, Seq::empty()),
            TokenKind::And => (ScannedTokenKind::And, Seq::empty()),
            TokenKind::Or => (ScannedTokenKind::Or, Seq::empty()),
            TokenKind::Dot => (ScannedTokenKind::Dot, Seq::empty()),
            TokenKind::Comma => (ScannedTokenKind::Comma, Seq::empty()),
            TokenKind::Semicolon => (ScannedTokenKind::Semicolon, Seq::empty()),
            TokenKind::OpenDelimiter(d) => (open_category(*d), Seq::empty()),
            TokenKind::CloseDelimiter(d) => (close_category(*d), Seq::empty()),
            TokenKind::Eof => (ScannedTokenKind::Eof, Seq::empty()),
        }
    }
}

/// What a token is: its category, the text it keeps, and the range
/// `[start, end)` of the source it covers, in byte offsets.
pub struct Lexeme {
    pub kind: ScannedTokenKind,
    pub text: Seq<char>,
    pub start: int,
    pub end: int,
}

#[derive(Debug, PartialEq, Clone)]
pub struct Token {
    pub kind: TokenKind,
    pub span: Span,
}

impl View for Token {
    type V = Lexeme;

    open spec fn view(&self) -> Lexeme {
        Lexeme {
            kind: self.kind@.0,
            text: self.kind@.1,
            start: self.span.start(),
            end: self.span.end(),
        }
    }
}

impl Token {
    pub fn new(kind: TokenKind, span: Span) -> (r: Token)
        ensures
            r.kind == kind,
            r.span == span,
    {
        Token { kind, span }
    }
}

/// A token, or a group of trees between a pair of matching delimiters.
pub enum Tree {
    Leaf(Lexeme),
    Group(Delimiter, Seq<Tree>),
}

#[derive(Debug, PartialEq)]
pub enum TokenTree {
    Token(Token),
    Group(Delimiter, Vec<TokenTree>),
}

impl View for TokenTree {
    type V = Tree;

    open spec fn view(&self) -> Tree
        decreases self,
    {
        match self {
            TokenTree::Token(t) => Tree::Leaf(t@),
            TokenTree::Group(d, trees) => Tree::Group(
                *d,
                Seq::new(
                    trees@.len(),
                    |i: int|
                        if 0 <= i < trees@.len() {
                            trees@[i].view()
                        } else {
                            Tree::Group(*d, Seq::empty())
                        },
                ),
            ),
        }
    }
}

/// The trees that a sequence of token trees stands for.
pub open spec fn trees_view(trees: Seq<TokenTree>) -> Seq<Tree> {
    trees.map_values(|t: TokenTree| t@)
}

pub proof fn lemma_group_view(d: Delimiter, trees: Vec<TokenTree>)
    ensures
        TokenTree::Group(d, trees)@ == Tree::Group(d, trees_view(trees@)),
{
    assert(TokenTree::Group(d, trees)@->Group_1 =~= trees_view(trees@));
}

/// The token trees of one nesting level.
#[derive(Debug, PartialEq)]
pub struct TokenStream {
    tokens: Vec<TokenTree>,
}

impl View for TokenStream {
    type V = Seq<Tree>;

    closed spec fn view(&self) -> Seq<Tree> {
        trees_view(self.tokens@)
    }
}

impl TokenStream {
    pub fn new(tokens: Vec<TokenTree>) -> (r: TokenStream)
        ensures
            r@ == trees_view(tokens@),
    {
        TokenStream { tokens }
    }
}

} // verus!
