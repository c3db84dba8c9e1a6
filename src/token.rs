//! The token vocabulary and its canonical textual rendering.
use vstd::prelude::*;

use crate::text::{append_str, push_char, string_of};

verus! {

/// The reserved words of the language.
#[derive(Debug, PartialEq, Eq, Structural, Copy, Clone)]
pub enum KeywordKind {
    Class,
    Else,
    Fi,
    If,
    In,
    Inherits,
    IsVoid,
    Let,
    Loop,
    Pool,
    Then,
    While,
    Case,
    Esac,
    New,
    Of,
    Not,
}

/// The classification of a lexeme.
#[derive(Debug, PartialEq, Eq, Clone)]
pub enum TokenKind {
    /// Any run of space, `\n`, `\f`, `\r`, `\t` or `\v`.
    Whitespace,
    ObjectId(String),
    TypeId(String),
    Int(String),
    /// A string literal, holding its unescaped value.
    String(String),
    Bool(bool),
    LineComment,
    BlockComment,
    Keyword(KeywordKind),
    Plus,
    Minus,
    Star,
    Slash,
    Tilde,
    /// `<`
    Lt,
    /// `<=`
    Le,
    /// `=>`
    DArrow,
    /// `<-`
    Assign,
    /// `:`
    Colon,
    /// `,`
    Comma,
    /// `.`
    Dot,
    /// `=`
    Equal,
    /// `(`
    OpenParen,
    /// `)`
    CloseParen,
    /// `{`
    OpenBrace,
    /// `}`
    CloseBrace,
    /// `@`
    At,
    /// `;`
    SemiColon,
    /// Malformed input, with a diagnostic message.
    Error(String),
}

/// A classified span at the start of `source`.
///
/// `newlines` is the number of lines the match spans, added to the line
/// counter when the match is committed; `skip` is the number of characters
/// consumed after the token itself on commit (a trailing delimiter or an
/// error-recovery distance).
pub struct Token<'s> {
    pub kind: TokenKind,
    pub length: usize,
    pub source: &'s [char],
    pub newlines: usize,
    pub skip: usize,
}

impl<'s> Token<'s> {
    /// The token's characters and everything it consumes on commit fit in its source.
    pub open spec fn wf(&self) -> bool {
        self.length + self.skip <= self.source@.len() && self.newlines <= self.length + self.skip
    }

    /// The characters the token covers.
    pub open spec fn text(&self) -> Seq<char> {
        self.source@.take(self.length as int)
    }

    /// A token of `length` characters at the start of `source`, spanning no line.
    pub fn new(kind: TokenKind, length: usize, source: &'s [char]) -> (r: Self)
        requires
            length <= source@.len(),
        ensures
            r.kind == kind,
            r.length == length,
            r.source == source,
            r.newlines == 0,
            r.skip == 0,
            r.wf(),
    {
        Token { kind, length, source, newlines: 0, skip: 0 }
    }

    /// The characters the token covers.
    pub fn as_str(&self) -> (r: String)
        requires
            self.length <= self.source@.len(),
        ensures
            r@ == self.text(),
    {
        string_of(&self.source[0..self.length])
    }
}

/// A copy of a token kind.
pub(crate) fn copy_kind(k: &TokenKind) -> (r: TokenKind)
    ensures
        r == *k,
{
    match k {
        TokenKind::Whitespace => TokenKind::Whitespace,
        TokenKind::ObjectId(s) => TokenKind::ObjectId(s.clone()),
        TokenKind::TypeId(s) => TokenKind::TypeId(s.clone()),
        TokenKind::Int(s) => TokenKind::Int(s.clone()),
        TokenKind::String(s) => TokenKind::String(s.clone()),
        TokenKind::Bool(b) => TokenKind::Bool(*b),
        TokenKind::LineComment => TokenKind::LineComment,
        TokenKind::BlockComment => TokenKind::BlockComment,
        TokenKind::Keyword(w) => TokenKind::Keyword(*w),
        TokenKind::Plus => TokenKind::Plus,
        TokenKind::Minus => TokenKind::Minus,
        TokenKind::Star => TokenKind::Star,
        TokenKind::Slash => TokenKind::Slash,
        TokenKind::Tilde => TokenKind::Tilde,
        TokenKind::Lt => TokenKind::Lt,
        TokenKind::Le => TokenKind::Le,
        TokenKind::DArrow => TokenKind::DArrow,
        TokenKind::Assign => TokenKind::Assign,
        TokenKind::Colon => TokenKind::Colon,
        TokenKind::Comma => TokenKind::Comma,
        TokenKind::Dot => TokenKind::Dot,
        TokenKind::Equal => TokenKind::Equal,
        TokenKind::OpenParen => TokenKind::OpenParen,
        TokenKind::CloseParen => TokenKind::CloseParen,
        TokenKind::OpenBrace => TokenKind::OpenBrace,
        TokenKind::CloseBrace => TokenKind::CloseBrace,
        TokenKind::At => TokenKind::At,
        TokenKind::SemiColon => TokenKind::SemiColon,
        TokenKind::Error(s) => TokenKind::Error(s.clone()),
    }
}

} // verus!
