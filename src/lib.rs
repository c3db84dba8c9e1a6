//! A rule-driven lexical analyser: competing matching rules, longest-match
//! arbitration with first-registered tie-break, nested comments, string
//! literals with escapes, and per-token line accounting.

pub mod cool;
pub mod cursor;
pub mod lexer;
pub mod prelude;
pub mod render;
pub mod rule;
pub mod scan;
pub mod text;
pub mod token;

pub use crate::cursor::Cursor;
pub use crate::lexer::{Lexer, LexerContext};
pub use crate::rule::{AcceptingFn, CompiledRegex, KindSource, KeywordRule, LiteralRule, Refinement, RegexRule, Rule, RuleError};
pub use crate::scan::{BlockCommentRule, StringRule};
pub use crate::token::{KeywordKind, Token, TokenKind};
