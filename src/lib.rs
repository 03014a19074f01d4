//! The lexical front end of a small compiler.
//!
//! Source text is read by a [`lexer::cursor::Cursor`], cut into raw lexical
//! units by a [`lexer::scanner::Scanner`], and turned by the
//! [`lexer::Lexer`] into positioned tokens that are folded into a tree of
//! bracket-delimited groups.
//!
//! Positions and lengths count bytes of the source's UTF-8 encoding.
pub mod branded;
pub mod lexer;
pub mod token;
