//! The lexical rules of the COOL language, in priority order.
use vstd::prelude::*;

use crate::rule::{anchored, regex_compiles, AcceptingFn, KeywordRule, KindSource, LiteralRule, Refinement, RegexRule, Rule, RuleError};
use crate::scan::{BlockCommentRule, StringRule};
use crate::token::{KeywordKind, TokenKind};

verus! {

/// Whether `r` is a literal rule for `lit` producing `kind`.
pub open spec fn is_literal_rule(r: Rule, lit: Seq<char>, kind: TokenKind) -> bool {
    r matches Rule::Literal(l) && l.wf() && l.literal() == lit && l.kind() == kind
}

/// Whether `r` is a rule for `pattern`, anchored, with multi-line and
/// dot-matches-newline on, and with the given kind source and commit behaviour.
pub open spec fn is_regex_rule(r: Rule, pattern: Seq<char>, ks: KindSource, af: Option<AcceptingFn>) -> bool {
    r matches Rule::Regex(x) && x.kind_source() == ks && x.accepting() == af
        && x.pattern() == anchored(pattern) && x.multi_line() && x.dot_all()
}

/// Every expression of the language compiles.
pub open spec fn patterns_compile() -> bool {
    &&& regex_compiles(anchored("--[^\n]*$"@), true, true)
    &&& regex_compiles(anchored("\n"@), true, true)
    &&& regex_compiles(anchored("t(?i:rue)"@), true, true)
    &&& regex_compiles(anchored("f(?i:alse)"@), true, true)
    &&& regex_compiles(anchored("[0-9]+"@), true, true)
    &&& regex_compiles(anchored("(SELF_TYPE|[A-Z][A-Za-z0-9_]*)"@), true, true)
    &&& regex_compiles(anchored("(self|[a-z][A-Za-z0-9_]*)"@), true, true)
    &&& regex_compiles(anchored("[ \t\r\x0C\x0B]+"@), true, true)
    &&& regex_compiles(anchored("."@), true, true)
}

/// The rule list of the language, entry by entry.
pub open spec fn is_cool_rules(v: Seq<Rule>) -> bool {
    &&& v.len() == 31
    &&& v[0] is Keyword
    &&& v[4] is BlockComment
    &&& v[6] is String
    &&& is_literal_rule(v[1], "<="@, TokenKind::Le)
    &&& is_literal_rule(v[2], "=>"@, TokenKind::DArrow)
    &&& is_literal_rule(v[3], "<-"@, TokenKind::Assign)
    &&& is_literal_rule(v[7], "{"@, TokenKind::OpenBrace)
    &&& is_literal_rule(v[8], "}"@, TokenKind::CloseBrace)
    &&& is_literal_rule(v[9], "("@, TokenKind::OpenParen)
    &&& is_literal_rule(v[10], ")"@, TokenKind::CloseParen)
    &&& is_literal_rule(v[11], ":"@, TokenKind::Colon)
    &&& is_literal_rule(v[12], ";"@, TokenKind::SemiColon)
    &&& is_literal_rule(v[13], "@"@, TokenKind::At)
    &&& is_literal_rule(v[14], "."@, TokenKind::Dot)
    &&& is_literal_rule(v[15], ","@, TokenKind::Comma)
    &&& is_literal_rule(v[16], "="@, TokenKind::Equal)
    &&& is_literal_rule(v[17], "~"@, TokenKind::Tilde)
    &&& is_literal_rule(v[18], "+"@, TokenKind::Plus)
    &&& is_literal_rule(v[19], "-"@, TokenKind::Minus)
    &&& is_literal_rule(v[20], "*"@, TokenKind::Star)
    &&& is_literal_rule(v[21], "/"@, TokenKind::Slash)
    &&& is_literal_rule(v[22], "<"@, TokenKind::Lt)
    &&& is_regex_rule(v[5], "--[^\n]*$"@, KindSource::Fixed(TokenKind::LineComment), Some(AcceptingFn::SkipLineEnd))
    &&& is_regex_rule(v[23], "t(?i:rue)"@, KindSource::Fixed(TokenKind::Bool(true)), None)
    &&& is_regex_rule(v[24], "f(?i:alse)"@, KindSource::Fixed(TokenKind::Bool(false)), None)
    &&& is_regex_rule(v[25], "[0-9]+"@, KindSource::Refined(Refinement::Int), None)
    &&& is_regex_rule(v[26], "(SELF_TYPE|[A-Z][A-Za-z0-9_]*)"@, KindSource::Refined(Refinement::TypeId), None)
    &&& is_regex_rule(v[27], "(self|[a-z][A-Za-z0-9_]*)"@, KindSource::Refined(Refinement::ObjectId), None)
    &&& is_regex_rule(v[28], "\n"@, KindSource::Fixed(TokenKind::Whitespace), Some(AcceptingFn::CountLine))
    &&& is_regex_rule(v[29], "[ \t\r\x0C\x0B]+"@, KindSource::Fixed(TokenKind::Whitespace), None)
    &&& is_regex_rule(v[30], "."@, KindSource::Refined(Refinement::Error), None)
}

fn regex_rule(pattern: &str, kind: TokenKind) -> (r: Result<Rule, RuleError>)
    ensures
        r is Ok <==> regex_compiles(anchored(pattern@), true, true),
        r matches Ok(rule) ==> is_regex_rule(rule, pattern@, KindSource::Fixed(kind), None),
{
    match RegexRule::new(pattern, kind) {
        Ok(x) => Ok(Rule::Regex(x)),
        Err(e) => Err(e),
    }
}

fn refined_rule(pattern: &str, refinement: Refinement) -> (r: Result<Rule, RuleError>)
    ensures
        r is Ok <==> regex_compiles(anchored(pattern@), true, true),
        r matches Ok(rule) ==> is_regex_rule(rule, pattern@, KindSource::Refined(refinement), None),
{
    match RegexRule::refined(pattern, refinement) {
        Ok(x) => Ok(Rule::Regex(x)),
        Err(e) => Err(e),
    }
}

fn lit_rule(lit: &'static str, kind: TokenKind) -> (r: Rule)
    ensures
        is_literal_rule(r, lit@, kind),
{
    Rule::Literal(LiteralRule::new(lit, kind))
}

/// The keyword spellings of the language.
fn keywords() -> (r: Vec<(&'static str, KeywordKind)>)
    ensures
        r@.len() == 18,
{
    vec![
        ("class", KeywordKind::Class),
        ("else", KeywordKind::Else),
        ("fi", KeywordKind::Fi),
        ("if", KeywordKind::If),
        ("in", KeywordKind::In),
        ("inherits", KeywordKind::Inherits),
        ("isvoid", KeywordKind::IsVoid),
        ("let", KeywordKind::Let),
        ("loop", KeywordKind::Loop),
        ("pool", KeywordKind::Pool),
        ("then", KeywordKind::Then),
        ("while", KeywordKind::While),
        ("case", KeywordKind::Case),
        ("esac", KeywordKind::Esac),
        ("new", KeywordKind::New),
        ("of", KeywordKind::Of),
        ("not", KeywordKind::Not),
        ("not", KeywordKind::Not),
    ]
}

/// The rules of the language, in priority order: keywords, two-character
/// operators, comments, strings, single characters, operators, booleans,
/// integers, type and object identifiers, line feeds, other whitespace, and
/// a catch-all error for any single character. Fails exactly when one of
/// the expressions does not compile.
pub fn rules() -> (r: Result<Vec<Rule>, RuleError>)
    ensures
        r is Ok <==> patterns_compile(),
        r matches Ok(v) ==> is_cool_rules(v@) && forall|j: int| 0 <= j < v@.len() ==> (#[trigger] v@[j]).wf(),
{
    let line_comment = match RegexRule::new("--[^\n]*$", TokenKind::LineComment) {
        Ok(x) => Rule::Regex(x.with_accepting_fn(AcceptingFn::SkipLineEnd)),
        Err(e) => {
            return Err(e);
        },
    };
    let newline = match RegexRule::new("\n", TokenKind::Whitespace) {
        Ok(x) => Rule::Regex(x.with_accepting_fn(AcceptingFn::CountLine)),
        Err(e) => {
            return Err(e);
        },
    };
    let v = vec![
        Rule::Keyword(KeywordRule::new(keywords())),
        lit_rule("<=", TokenKind::Le),
        lit_rule("=>", TokenKind::DArrow),
        lit_rule("<-", TokenKind::Assign),
        Rule::BlockComment(BlockCommentRule::default()),
        line_comment,
        Rule::String(StringRule::default()),
        lit_rule("{", TokenKind::OpenBrace),
        lit_rule("}", TokenKind::CloseBrace),
        lit_rule("(", TokenKind::OpenParen),
        lit_rule(")", TokenKind::CloseParen),
        lit_rule(":", TokenKind::Colon),
        lit_rule(";", TokenKind::SemiColon),
        lit_rule("@", TokenKind::At),
        lit_rule(".", TokenKind::Dot),
        lit_rule(",", TokenKind::Comma),
        lit_rule("=", TokenKind::Equal),
        lit_rule("~", TokenKind::Tilde),
        lit_rule("+", TokenKind::Plus),
        lit_rule("-", TokenKind::Minus),
        lit_rule("*", TokenKind::Star),
        lit_rule("/", TokenKind::Slash),
        lit_rule("<", TokenKind::Lt),
        regex_rule("t(?i:rue)", TokenKind::Bool(true))?,
        regex_rule("f(?i:alse)", TokenKind::Bool(false))?,
        refined_rule("[0-9]+", Refinement::Int)?,
        refined_rule("(SELF_TYPE|[A-Z][A-Za-z0-9_]*)", Refinement::TypeId)?,
        refined_rule("(self|[a-z][A-Za-z0-9_]*)", Refinement::ObjectId)?,
        newline,
        regex_rule("[ \t\r\x0C\x0B]+", TokenKind::Whitespace)?,
        refined_rule(".", Refinement::Error)?,
    ];
    Ok(v)
}

} // verus!
