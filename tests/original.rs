use lexer::{CompiledRegex, Cursor, KeywordKind, KeywordRule, RegexRule, StringRule, TokenKind};

fn chars(s: &str) -> Vec<char> {
    s.chars().collect()
}

fn int_rule() -> RegexRule {
    RegexRule::new("[0-9]+", TokenKind::Int("0".into())).unwrap()
}

fn string_rule() -> StringRule {
    StringRule::default()
}

fn line_comment_rule() -> RegexRule {
    RegexRule::with_regex(
        CompiledRegex::new(r"\A(:?--[^\n]*$)", true, false).unwrap(),
        TokenKind::LineComment,
    )
}

#[test]
fn it_works() {
    assert_eq!(2 + 2, 4);
}

#[test]
fn test_cursor_bump() {
    let input = chars("\"Hello World\" class");
    let mut cursor: Cursor = input.as_slice().into();

    assert_eq!(cursor.bump(), Some('\"'));
    assert_eq!(cursor.bump(), Some('H'));
    assert_eq!(cursor.bump(), Some('e'));
    assert_eq!(cursor.bump(), Some('l'));
    assert_eq!(cursor.bump(), Some('l'));
}

#[test]
fn test_int_rule() {
    let rule = RegexRule::new("[0-9]+", TokenKind::Int("0".into()));

    assert!(rule.is_ok());
}

#[test]
fn test_try_match_matches() {
    let rule = int_rule();

    let input = chars("12313\n\tlet a <- 10");
    let token = rule.try_match(&input);

    assert!(token.is_some());
    let token = token.unwrap();

    assert_eq!(token.as_str(), "12313");
    assert_eq!(token.length, 5);
}

#[test]
fn test_keyword_rule() {
    let keyword_rule = KeywordRule::new(
        vec![("InheRits", KeywordKind::Inherits), ("in", KeywordKind::In)]
            .into_iter()
            .collect(),
    );

    let input = chars("inherits A");
    let token = keyword_rule.try_match(&input);

    assert!(token.is_some());
    let token = token.unwrap();

    assert_eq!(token.as_str(), "inherits");
    assert_eq!(token.length, 8);
}

#[test]
fn test_eof_in_line_comment() {
    let rule = line_comment_rule();

    let input = chars("-- can they handle EOF in \"--\" state?");
    let token = rule.try_match(&input);

    assert!(token.is_some());
}

#[test]
fn test_string_rule() {
    let rule = string_rule();

    let input = chars("\"Hello World\" class");
    let token = rule.try_match(&input);

    assert!(token.is_some());
    let token = token.unwrap();

    assert_eq!(token.as_str(), "\"Hello World\"");
    assert_eq!(token.length, 13);
}

#[test]
fn test_string_rule_2() {
    let rule = string_rule();

    let input = chars("\"\\n\\tTo add a number to \");");
    let token = rule.try_match(&input);

    assert!(token.is_some());
    let token = token.unwrap();

    match &token.kind {
        TokenKind::String(s) => assert_eq!(s, "\n\tTo add a number to "),
        _ => assert!(false, "Token kind should be String"),
    };

    assert_eq!(token.as_str(), "\"\\n\\tTo add a number to \"");
    assert_eq!(token.length, 25);
}
