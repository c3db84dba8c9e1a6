//! The canonical textual rendering of tokens.
use vstd::prelude::*;

use crate::text::{append_str, chars_of, push_char};
use crate::token::{KeywordKind, TokenKind};

verus! {

/// The canonical spelling of a keyword.
pub open spec fn keyword_name(k: KeywordKind) -> Seq<char> {
    match k {
        KeywordKind::Class => "CLASS"@,
        KeywordKind::Else => "ELSE"@,
        KeywordKind::Fi => "FI"@,
        KeywordKind::If => "IF"@,
        KeywordKind::In => "IN"@,
        KeywordKind::Inherits => "INHERITS"@,
        KeywordKind::IsVoid => "ISVOID"@,
        KeywordKind::Let => "LET"@,
        KeywordKind::Loop => "LOOP"@,
        KeywordKind::Pool => "POOL"@,
        KeywordKind::Then => "THEN"@,
        KeywordKind::While => "WHILE"@,
        KeywordKind::Case => "CASE"@,
        KeywordKind::Esac => "ESAC"@,
        KeywordKind::New => "NEW"@,
        KeywordKind::Of => "OF"@,
        KeywordKind::Not => "NOT"@,
    }
}

impl KeywordKind {
    /// The canonical spelling of the keyword.
    pub fn render(&self) -> (r: String)
        ensures
            r@ == keyword_name(*self),
    {
        match self {
            KeywordKind::Class => String::from_str("CLASS"),
            KeywordKind::Else => String::from_str("ELSE"),
            KeywordKind::Fi => String::from_str("FI"),
            KeywordKind::If => String::from_str("IF"),
            KeywordKind::In => String::from_str("IN"),
            KeywordKind::Inherits => String::from_str("INHERITS"),
            KeywordKind::IsVoid => String::from_str("ISVOID"),
            KeywordKind::Let => String::from_str("LET"),
            KeywordKind::Loop => String::from_str("LOOP"),
            KeywordKind::Pool => String::from_str("POOL"),
            KeywordKind::Then => String::from_str("THEN"),
            KeywordKind::While => String::from_str("WHILE"),
            KeywordKind::Case => String::from_str("CASE"),
            KeywordKind::Esac => String::from_str("ESAC"),
            KeywordKind::New => String::from_str("NEW"),
            KeywordKind::Of => String::from_str("OF"),
            KeywordKind::Not => String::from_str("NOT"),
        }
    }
}

/// The octal digit for `d < 8`.
pub open spec fn octal_digit(d: nat) -> char {
    if d == 0 {
        '0'
    } else if d == 1 {
        '1'
    } else if d == 2 {
        '2'
    } else if d == 3 {
        '3'
    } else if d == 4 {
        '4'
    } else if d == 5 {
        '5'
    } else if d == 6 {
        '6'
    } else {
        '7'
    }
}

/// The octal numeral of `n`, without leading zeros.
pub open spec fn octal_digits(n: nat) -> Seq<char>
    decreases n,
{
    if n < 8 {
        seq![octal_digit(n)]
    } else {
        octal_digits(n / 8).push(octal_digit(n % 8))
    }
}

/// The octal numeral of `n`, padded with zeros to at least three digits.
pub open spec fn octal_padded(n: nat) -> Seq<char> {
    let d = octal_digits(n);
    if d.len() >= 3 {
        d
    } else {
        Seq::new((3 - d.len()) as nat, |_i: int| '0') + d
    }
}

fn octal_digit_char(d: u32) -> (r: char)
    requires
        d < 8,
    ensures
        r == octal_digit(d as nat),
{
    if d == 0 {
        '0'
    } else if d == 1 {
        '1'
    } else if d == 2 {
        '2'
    } else if d == 3 {
        '3'
    } else if d == 4 {
        '4'
    } else if d == 5 {
        '5'
    } else if d == 6 {
        '6'
    } else {
        '7'
    }
}

/// The octal numeral of `n`, without leading zeros.
fn octal_numeral(n: u32) -> (r: String)
    ensures
        r@ == octal_digits(n as nat),
    decreases n,
{
    let c = octal_digit_char(n % 8);
    if n < 8 {
        let mut r = String::new();
        push_char(&mut r, c);
        assert(r@ =~= seq![c]);
        r
    } else {
        let mut r = octal_numeral(n / 8);
        push_char(&mut r, c);
        r
    }
}

/// The octal numeral of `n`, padded with zeros to three digits.
fn octal3(n: u32) -> (r: String)
    ensures
        r@ == octal_padded(n as nat),
{
    let d = octal_numeral(n);
    let len = d.as_str().unicode_len();
    if len >= 3 {
        return d;
    }
    let mut r = String::new();
    let mut i: usize = 0;
    while i < 3 - len
        invariant
            len < 3,
            i <= 3 - len,
            r@ == Seq::new(i as nat, |_i: int| '0'),
        decreases 3 - len - i,
    {
        push_char(&mut r, '0');
        i = i + 1;
        assert(r@ =~= Seq::new(i as nat, |_i: int| '0'));
    }
    append_str(&mut r, d.as_str());
    r
}

/// Whether `c` is printable ASCII (neither a control character nor beyond ASCII).
pub open spec fn is_printable(c: char) -> bool {
    ' ' <= c <= '~'
}

/// How one character is written inside a quoted literal.
pub open spec fn escape_char(c: char) -> Seq<char> {
    if c == '\\' {
        seq!['\\', '\\']
    } else if c == '"' {
        seq!['\\', '"']
    } else if c == '\n' {
        seq!['\\', 'n']
    } else if c == '\t' {
        seq!['\\', 't']
    } else if c == '\x08' {
        seq!['\\', 'b']
    } else if c == '\x0C' {
        seq!['\\', 'f']
    } else if is_printable(c) {
        seq![c]
    } else {
        seq!['\\'] + octal_padded(c as u32 as nat)
    }
}

/// The escaped form of a character sequence.
pub open spec fn escaped(s: Seq<char>) -> Seq<char>
    decreases s.len(),
{
    if s.len() == 0 {
        Seq::empty()
    } else {
        escaped(s.drop_last()) + escape_char(s.last())
    }
}

/// Writes `s` with backslash escapes for quote, backslash, line feed, tab,
/// backspace and form feed, and octal escapes for every other character
/// that is not printable ASCII.
pub fn escaped_string(s: &str) -> (r: String)
    ensures
        r@ == escaped(s@),
{
    let cs = chars_of(s);
    let mut r = String::new();
    let mut i: usize = 0;
    while i < cs.len()
        invariant
            i <= cs@.len(),
            cs@ == s@,
            r@ == escaped(cs@.take(i as int)),
        decreases cs@.len() - i,
    {
        let c = cs[i];
        proof {
            assert(cs@.take(i + 1 as int).drop_last() =~= cs@.take(i as int));
        }
        if c == '\\' {
            append_str(&mut r, "\\\\");
        } else if c == '"' {
            append_str(&mut r, "\\\"");
        } else if c == '\n' {
            append_str(&mut r, "\\n");
        } else if c == '\t' {
            append_str(&mut r, "\\t");
        } else if c == '\x08' {
            append_str(&mut r, "\\b");
        } else if c == '\x0C' {
            append_str(&mut r, "\\f");
        } else if ' ' <= c && c <= '~' {
            push_char(&mut r, c);
        } else {
            push_char(&mut r, '\\');
            let o = octal3(c as u32);
            append_str(&mut r, o.as_str());
        }
        proof {
            reveal_strlit("\\\\");
            reveal_strlit("\\\"");
            reveal_strlit("\\n");
            reveal_strlit("\\t");
            reveal_strlit("\\b");
            reveal_strlit("\\f");
            assert(r@ =~= escaped(cs@.take(i + 1 as int)));
        }
        i = i + 1;
    }
    proof {
        assert(cs@.take(i as int) =~= s@);
    }
    r
}

/// The canonical display form of a token kind; whitespace and comments
/// render as empty text.
pub open spec fn rendered(k: TokenKind) -> Seq<char> {
    match k {
        TokenKind::Whitespace => Seq::empty(),
        TokenKind::ObjectId(s) => "OBJECTID "@ + s@,
        TokenKind::TypeId(s) => "TYPEID "@ + s@,
        TokenKind::Int(v) => "INT_CONST "@ + v@,
        TokenKind::String(s) => "STR_CONST \""@ + escaped(s@) + "\""@,
        TokenKind::Bool(b) => "BOOL_CONST "@ + if b { "true"@ } else { "false"@ },
        TokenKind::LineComment => Seq::empty(),
        TokenKind::BlockComment => Seq::empty(),
        TokenKind::Keyword(k) => keyword_name(k),
        TokenKind::Plus => "'+'"@,
        TokenKind::Minus => "'-'"@,
        TokenKind::Star => "'*'"@,
        TokenKind::Slash => "'/'"@,
        TokenKind::Tilde => "'~'"@,
        TokenKind::Lt => "'<'"@,
        TokenKind::Le => "LE"@,
        TokenKind::DArrow => "DARROW"@,
        TokenKind::Assign => "ASSIGN"@,
        TokenKind::Colon => "':'"@,
        TokenKind::Comma => "','"@,
        TokenKind::Dot => "'.'"@,
        TokenKind::Equal => "'='"@,
        TokenKind::OpenParen => "'('"@,
        TokenKind::CloseParen => "')'"@,
        TokenKind::OpenBrace => "'{'"@,
        TokenKind::CloseBrace => "'}'"@,
        TokenKind::At => "'@'"@,
        TokenKind::SemiColon => "';'"@,
        TokenKind::Error(reason) => if reason@.len() > 0 && reason@[0] == '\0' {
            "ERROR \"\\000\""@
        } else {
            "ERROR \""@ + escaped(reason@) + "\""@
        },
    }
}

/// `prefix`, then `s`, then `suffix`.
fn framed(prefix: &str, s: &str, suffix: &str) -> (r: String)
    ensures
        r@ == prefix@ + s@ + suffix@,
{
    let mut r = String::from_str(prefix);
    append_str(&mut r, s);
    append_str(&mut r, suffix);
    r
}

impl TokenKind {
    /// The canonical display form of the token kind.
    pub fn render(&self) -> (r: String)
        ensures
            r@ == rendered(*self),
    {
        proof {
            reveal_strlit("");
        }
        match self {
            TokenKind::Whitespace => String::new(),
            TokenKind::ObjectId(s) => framed("OBJECTID ", s.as_str(), ""),
            TokenKind::TypeId(s) => framed("TYPEID ", s.as_str(), ""),
            TokenKind::Int(v) => framed("INT_CONST ", v.as_str(), ""),
            TokenKind::String(s) => {
                let e = escaped_string(s.as_str());
                framed("STR_CONST \"", e.as_str(), "\"")
            },
            TokenKind::Bool(b) => {
                if *b {
                    framed("BOOL_CONST ", "true", "")
                } else {
                    framed("BOOL_CONST ", "false", "")
                }
            },
            TokenKind::LineComment => String::new(),
            TokenKind::BlockComment => String::new(),
            TokenKind::Keyword(k) => k.render(),
            TokenKind::Plus => String::from_str("'+'"),
            TokenKind::Minus => String::from_str("'-'"),
            TokenKind::Star => String::from_str("'*'"),
            TokenKind::Slash => String::from_str("'/'"),
            TokenKind::Tilde => String::from_str("'~'"),
            TokenKind::Lt => String::from_str("'<'"),
            TokenKind::Le => String::from_str("LE"),
            TokenKind::DArrow => String::from_str("DARROW"),
            TokenKind::Assign => String::from_str("ASSIGN"),
            TokenKind::Colon => String::from_str("':'"),
            TokenKind::Comma => String::from_str("','"),
            TokenKind::Dot => String::from_str("'.'"),
            TokenKind::Equal => String::from_str("'='"),
            TokenKind::OpenParen => String::from_str("'('"),
            TokenKind::CloseParen => String::from_str("')'"),
            TokenKind::OpenBrace => String::from_str("'{'"),
            TokenKind::CloseBrace => String::from_str("'}'"),
            TokenKind::At => String::from_str("'@'"),
            TokenKind::SemiColon => String::from_str("';'"),
            TokenKind::Error(reason) => {
                let cs = chars_of(reason.as_str());
                if cs.len() > 0 && cs[0] == '\0' {
                    String::from_str("ERROR \"\\000\"")
                } else {
                    let e = escaped_string(reason.as_str());
                    framed("ERROR \"", e.as_str(), "\"")
                }
            },
        }
    }
}

} // verus!
