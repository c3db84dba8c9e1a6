use lexer::cool::rules;
use lexer::render::escaped_string;
use lexer::{
    BlockCommentRule, CompiledRegex, Cursor, KeywordKind, KeywordRule, Lexer, LexerContext, LiteralRule,
    Refinement, RegexRule, Rule, StringRule, Token, TokenKind,
};

fn chars(s: &str) -> Vec<char> {
    s.chars().collect()
}

fn cool_lexer() -> Lexer {
    Lexer::new(rules().unwrap())
}

fn kinds_and_lines(tokens: &[(Token, LexerContext)]) -> Vec<(TokenKind, usize, usize)> {
    tokens
        .iter()
        .map(|(t, c)| (t.kind.clone(), t.length, c.line_number))
        .collect()
}

#[test]
fn comment_nesting_single_token() {
    let input = chars("(* (* x *) y *)");
    let out = cool_lexer().lex(&input).unwrap();
    assert_eq!(out.len(), 1);
    assert_eq!(out[0].0.kind, TokenKind::BlockComment);
    assert_eq!(out[0].0.length, input.len());
}

#[test]
fn comment_then_unmatched_closer() {
    let input = chars("(* x *) *)");
    let out = cool_lexer().lex(&input).unwrap();
    let kinds: Vec<TokenKind> = out.iter().map(|(t, _)| t.kind.clone()).collect();
    assert_eq!(
        kinds,
        vec![
            TokenKind::BlockComment,
            TokenKind::Whitespace,
            TokenKind::Error("Unmatched *)".into())
        ]
    );
    assert_eq!(out[2].0.length, 2);
}

#[test]
fn comment_eof_and_lines() {
    let rule = BlockCommentRule::default();
    let input = chars("(* a\n(* b\n *)");
    let t = rule.try_match(&input).unwrap();
    assert_eq!(t.kind, TokenKind::Error("EOF in comment".into()));
    assert_eq!(t.length, input.len());
    assert_eq!(t.newlines, 2);
    assert!(rule.try_match(&chars("x (* y *)")).is_none());
}

#[test]
fn null_in_string_recovers() {
    let input = chars("\"ab\0cd\"\nclass");
    let out = cool_lexer().lex(&input).unwrap();
    let got = kinds_and_lines(&out);
    assert_eq!(
        got,
        vec![
            (TokenKind::Error("String contains null character.".into()), 3, 1),
            (TokenKind::Whitespace, 1, 2),
            (TokenKind::Keyword(KeywordKind::Class), 5, 2),
        ]
    );
    assert_eq!(out[0].0.skip, 4);
}

#[test]
fn keyword_longest_wins() {
    let rule = KeywordRule::new(vec![("in", KeywordKind::In), ("inherits", KeywordKind::Inherits)]);
    let input = chars("inherits foo");
    let t = rule.try_match(&input).unwrap();
    assert_eq!(t.kind, TokenKind::Keyword(KeywordKind::Inherits));
    assert_eq!(t.length, 8);
    let out = cool_lexer().lex(&input).unwrap();
    assert_eq!(out[0].0.kind, TokenKind::Keyword(KeywordKind::Inherits));
    assert_eq!(out[0].0.length, 8);
}

#[test]
fn keyword_ignores_case_and_misses() {
    let rule = KeywordRule::new(vec![("class", KeywordKind::Class)]);
    let text1 = chars("CLaSS Main");

    let t = rule.try_match(&text1).unwrap();
    assert_eq!(t.kind, TokenKind::Keyword(KeywordKind::Class));
    assert_eq!(t.as_str(), "CLaSS");
    assert!(rule.try_match(&chars("cla")).is_none());
}

#[test]
fn maximal_munch_and_tie_break() {
    // `<=` beats `<`; for "classy" the object identifier (6) beats the keyword (5).
    let text2 = chars("<= classy class");

    let out = cool_lexer().lex(&text2).unwrap();
    let kinds: Vec<TokenKind> = out.iter().map(|(t, _)| t.kind.clone()).collect();
    assert_eq!(
        kinds,
        vec![
            TokenKind::Le,
            TokenKind::Whitespace,
            TokenKind::ObjectId("classy".into()),
            TokenKind::Whitespace,
            TokenKind::Keyword(KeywordKind::Class),
        ]
    );
    // Equal lengths: the earlier rule wins.
    let first = Lexer::new(vec![
        Rule::Literal(LiteralRule::new("ab", TokenKind::Plus)),
        Rule::Literal(LiteralRule::new("ab", TokenKind::Minus)),
    ]);
    let text3 = chars("abab");

    let out = first.lex(&text3).unwrap();
    assert_eq!(out.len(), 2);
    assert_eq!(out[0].0.kind, TokenKind::Plus);
    assert_eq!(out[1].0.kind, TokenKind::Plus);
}

#[test]
fn no_rule_matches_reports_position() {
    let lexer = Lexer::new(vec![Rule::Literal(LiteralRule::new("a", TokenKind::Plus))]);
    assert_eq!(lexer.lex(&chars("aab")).err(), Some(2));
}

#[test]
fn progress_consumes_everything() {
    let input = chars("class Main { x : Int <- 10; };\n-- done\n");
    let out = cool_lexer().lex(&input).unwrap();
    let total: usize = out.iter().map(|(t, _)| t.length + t.skip).sum();
    assert_eq!(total, input.len());
    assert!(out.len() <= input.len());
    assert!(out.iter().all(|(t, _)| t.length > 0));
}

#[test]
fn line_numbers_follow_newlines() {
    let input = chars("a\n\"x\\\ny\"\n(* \n *) b\n-- c\nd");
    let out = cool_lexer().lex(&input).unwrap();
    let last = out.last().unwrap();
    assert_eq!(last.0.kind, TokenKind::ObjectId("d".into()));
    assert_eq!(last.1.line_number, 7);
    let mut line = 1;
    for (t, c) in &out {
        line += t.newlines;
        assert_eq!(c.line_number, line);
    }
}

#[test]
fn line_comment_eats_newline() {
    let text4 = chars("-- hi\nx");

    let out = cool_lexer().lex(&text4).unwrap();
    assert_eq!(out[0].0.kind, TokenKind::LineComment);
    assert_eq!(out[0].0.length, 5);
    assert_eq!(out[0].0.skip, 1);
    assert_eq!(out[0].1.line_number, 2);
    assert_eq!(out[1].0.kind, TokenKind::ObjectId("x".into()));
    let text5 = chars("-- end");

    let out = cool_lexer().lex(&text5).unwrap();
    assert_eq!(out.len(), 1);
    assert_eq!(out[0].1.line_number, 1);
}

#[test]
fn string_errors() {
    let rule = StringRule::default();
    let text6 = chars("\"abc");

    let t = rule.try_match(&text6).unwrap();
    assert_eq!(t.kind, TokenKind::Error("EOF in string constant.".into()));
    assert_eq!(t.length, 4);
    let text7 = chars("\"ab\ncd\"");

    let t = rule.try_match(&text7).unwrap();
    assert_eq!(t.kind, TokenKind::Error("Unterminated string constant.".into()));
    assert_eq!(t.length, 4);
    assert_eq!(t.newlines, 1);
    let text8 = chars("\"a\\\0b\nc");

    let t = rule.try_match(&text8).unwrap();
    assert_eq!(t.kind, TokenKind::Error("String contains escaped null character.".into()));
    assert_eq!(t.length, 4);
    assert_eq!(t.skip, 2);
    assert!(rule.try_match(&chars("abc")).is_none());
    assert!(rule.try_match(&chars("")).is_none());
}

#[test]
fn string_escapes() {
    let rule = StringRule::default();
    let text9 = chars("\"a\\b\\t\\n\\f\\\nz\\q\\\"\" rest");

    let t = rule.try_match(&text9).unwrap();
    assert_eq!(t.kind, TokenKind::String("a\x08\t\n\x0C\nzq\"".into()));
    assert_eq!(t.newlines, 1);
}

#[test]
fn escape_round_trip() {
    let rule = StringRule::default();
    let value = "tab\there \"quoted\" back\\slash\nnext\x08\x0C";
    let quoted = format!("\"{}\"", escaped_string(value));
    let text10 = chars(&quoted);

    let t = rule.try_match(&text10).unwrap();
    assert_eq!(t.kind, TokenKind::String(value.into()));
    assert_eq!(t.length, quoted.chars().count());
}

#[test]
fn rendering() {
    assert_eq!(TokenKind::String("a\"b\\\n\x01é".into()).render(), "STR_CONST \"a\\\"b\\\\\\n\\001\\351\"");
    assert_eq!(TokenKind::Int("42".into()).render(), "INT_CONST 42");
    assert_eq!(TokenKind::Bool(false).render(), "BOOL_CONST false");
    assert_eq!(TokenKind::ObjectId("x".into()).render(), "OBJECTID x");
    assert_eq!(TokenKind::TypeId("Main".into()).render(), "TYPEID Main");
    assert_eq!(TokenKind::Keyword(KeywordKind::IsVoid).render(), "ISVOID");
    assert_eq!(TokenKind::Whitespace.render(), "");
    assert_eq!(TokenKind::Le.render(), "LE");
    assert_eq!(TokenKind::OpenBrace.render(), "'{'");
    assert_eq!(TokenKind::Error("\0".into()).render(), "ERROR \"\\000\"");
    assert_eq!(TokenKind::Error("#".into()).render(), "ERROR \"#\"");
}

#[test]
fn cursor_lookahead() {
    let input = chars("ab\"c\nd");
    let mut c = Cursor::new(&input);
    assert_eq!(c.peek(), Some('a'));
    assert_eq!(c.second(), Some('b'));
    assert_eq!(c.peek_many(2), &['a', 'b'][..]);
    assert_eq!(c.peek_many(10).len(), 6);
    assert_eq!(c.length_including(&['\n', '"']), 3);
    assert_eq!(c.length_including(&['z']), 6);
    c.bump();
    assert_eq!(c.consumed_len(), 1);
    assert!(!c.next_is_null());
    assert!(!c.next_is_newline());
    assert_eq!(c.chars(), &['b', '"', 'c', '\n', 'd'][..]);
    while c.bump().is_some() {}
    assert!(c.is_eof());
    assert_eq!(c.bump(), None);
}

#[test]
fn regex_rule_kinds() {
    let rule = RegexRule::refined("[A-Z][a-z]*", Refinement::TypeId).unwrap();
    let text11 = chars("Main x");

    let t = rule.try_match(&text11).unwrap();
    assert_eq!(t.kind, TokenKind::TypeId("Main".into()));
    assert_eq!(t.length, 4);
    assert!(rule.try_match(&chars("x Main")).is_none());
    assert!(RegexRule::new("(", TokenKind::Plus).is_err());
    let empty = RegexRule::new("a*", TokenKind::Plus).unwrap();
    assert!(empty.try_match(&chars("bbb")).is_none());
    let t = Token::new(TokenKind::Dot, 1, &['.', 'x']);
    assert_eq!(t.as_str(), ".");
}

#[test]
fn text_helpers() {
    assert_eq!(escaped_string("a\rb"), "a\\015b");
}

#[test]
fn null_recovery_counts_skipped_newline() {
    let rule = StringRule::default();
    let input = chars("\"a\0\nb");
    let t = rule.try_match(&input).unwrap();
    assert_eq!(t.kind, TokenKind::Error("String contains null character.".into()));
    assert_eq!(t.length, 2);
    assert_eq!(t.skip, 2);
    assert_eq!(t.newlines, 1);
    let out = cool_lexer().lex(&input).unwrap();
    assert_eq!(out.len(), 2);
    assert_eq!(out[0].1.line_number, 2);
    assert_eq!(out[1].0.kind, TokenKind::ObjectId("b".into()));
    assert_eq!(out[1].1.line_number, 2);
}

#[test]
fn single_keyword_input() {
    let input = chars("class");
    let out = cool_lexer().lex(&input).unwrap();
    assert_eq!(out.len(), 1);
    assert_eq!(out[0].0.kind, TokenKind::Keyword(KeywordKind::Class));
    assert_eq!(out[0].0.length, 5);
    assert_eq!(out[0].1.line_number, 1);
}

#[test]
fn compiled_regex_settings() {
    assert!(CompiledRegex::new("[", false, false).is_err());
    let dot = RegexRule::with_regex(CompiledRegex::new(r"\A.", false, false).unwrap(), TokenKind::Dot);
    let input = chars("\nx");
    assert!(dot.try_match(&input).is_none());
    let dot_all = RegexRule::with_regex(CompiledRegex::new(r"\A.", false, true).unwrap(), TokenKind::Dot);
    assert_eq!(dot_all.try_match(&input).unwrap().length, 1);
}
