//! The items a user of the lexer needs, in one place.
pub use crate::lexer::{Lexer, LexerContext};
pub use crate::rule::{AcceptingFn, CompiledRegex, KeywordRule, LiteralRule, Refinement, RegexRule, Rule, RuleError};
pub use crate::scan::{BlockCommentRule, StringRule};
pub use crate::token::{KeywordKind, Token, TokenKind};
