//! The two stateful scanners: string literals and nested block comments.
use vstd::prelude::*;

use crate::cursor::{length_including_spec, Cursor};
use crate::render::{escape_char, escaped, is_printable};
use crate::text::push_char;
use crate::token::{Token, TokenKind};

verus! {

/// Why a string literal could not be closed.
#[derive(PartialEq, Eq, Structural, Copy, Clone, Debug)]
pub enum StringFailure {
    /// The input ended inside the literal.
    Eof,
    /// A raw NUL character.
    Null,
    /// A line feed that no backslash escapes.
    Newline,
    /// A backslash followed by NUL.
    EscapedNull,
}

/// The outcome of scanning the body of a string literal (what follows the
/// opening quote): `failure` is `None` when a closing quote was reached.
/// `consumed` counts the characters of the body taken into the token,
/// `value` is the unescaped text gathered, `skip` the recovery distance
/// consumed after the token, and `lines` the line feeds among all the
/// characters consumed, the recovery distance included.
pub ghost struct StringScan {
    pub failure: Option<StringFailure>,
    pub consumed: nat,
    pub value: Seq<char>,
    pub lines: nat,
    pub skip: nat,
}

/// The character a backslash escape stands for.
pub open spec fn unescape(e: char) -> char {
    if e == 'b' {
        '\x08'
    } else if e == 't' {
        '\t'
    } else if e == 'n' {
        '\n'
    } else if e == 'f' {
        '\x0C'
    } else {
        e
    }
}

/// The characters up to and including the next line feed or quote, or to the end.
pub open spec fn recovery_len(s: Seq<char>) -> nat {
    length_including_spec(s, seq!['\n', '"'])
}

/// Scans the body `s` of a string literal from position `i`, with `value`
/// gathered and `lines` spanned so far.
pub open spec fn scan_string(s: Seq<char>, i: nat, value: Seq<char>, lines: nat) -> StringScan
    decreases s.len() - i,
{
    if i >= s.len() {
        StringScan { failure: Some(StringFailure::Eof), consumed: i, value, lines, skip: 0 }
    } else if s[i as int] == '\0' {
        StringScan {
            failure: Some(StringFailure::Null),
            consumed: i,
            value,
            lines: lines + count_newlines(s.skip(i as int).take(recovery_len(s.skip(i as int)) as int)),
            skip: recovery_len(s.skip(i as int)),
        }
    } else if s[i as int] == '\n' {
        StringScan {
            failure: Some(StringFailure::Newline),
            consumed: i + 1,
            value,
            lines: lines + 1,
            skip: 0,
        }
    } else if s[i as int] == '\\' && i + 1 < s.len() {
        let e = s[i + 1 as int];
        if e == '\0' {
            StringScan {
                failure: Some(StringFailure::EscapedNull),
                consumed: i + 2,
                value,
                lines: lines + count_newlines(s.skip(i + 2 as int).take(recovery_len(s.skip(i + 2 as int)) as int)),
                skip: recovery_len(s.skip(i + 2 as int)),
            }
        } else {
            scan_string(s, i + 2, value.push(unescape(e)), if e == '\n' { lines + 1 } else { lines })
        }
    } else if s[i as int] == '"' {
        StringScan { failure: None, consumed: i + 1, value, lines, skip: 0 }
    } else {
        scan_string(s, i + 1, value.push(s[i as int]), lines)
    }
}

/// The diagnostic carried by an error token for each string failure.
pub open spec fn string_failure_message(f: StringFailure) -> Seq<char> {
    match f {
        StringFailure::Eof => "EOF in string constant."@,
        StringFailure::Null => "String contains null character."@,
        StringFailure::Newline => "Unterminated string constant."@,
        StringFailure::EscapedNull => "String contains escaped null character."@,
    }
}

/// Whether `k` is the kind of token a string scan yields: the unescaped
/// value on success, the failure's diagnostic otherwise.
pub open spec fn is_string_scan_kind(k: TokenKind, sc: StringScan) -> bool {
    match sc.failure {
        None => match k {
            TokenKind::String(v) => v@ == sc.value,
            _ => false,
        },
        Some(f) => match k {
            TokenKind::Error(m) => m@ == string_failure_message(f),
            _ => false,
        },
    }
}

/// The number of line feeds in `cs`.
fn count_line_feeds(cs: &[char]) -> (r: usize)
    ensures
        r == count_newlines(cs@),
{
    let mut n: usize = 0;
    let mut i: usize = 0;
    while i < cs.len()
        invariant
            i <= cs@.len(),
            n == count_newlines(cs@.take(i as int)),
            n <= i,
        decreases cs@.len() - i,
    {
        proof {
            lemma_count_step(cs@, i as int);
            lemma_count_newlines_bound(cs@.take(i as int));
        }
        if cs[i] == '\n' {
            n = n + 1;
        }
        i = i + 1;
    }
    proof {
        assert(cs@.take(i as int) =~= cs@);
    }
    n
}

proof fn lemma_recovery_count(s: Seq<char>, i: int, k: int)
    requires
        0 <= i,
        0 <= k,
        i + k <= s.len(),
    ensures
        count_newlines(s.take(i + k)) == count_newlines(s.take(i)) + count_newlines(s.skip(i).take(k)),
        count_newlines(s.take(i + k)) <= i + k,
{
    assert(s.take(i + k) =~= s.take(i) + s.skip(i).take(k));
    lemma_count_newlines_concat(s.take(i), s.skip(i).take(k));
    lemma_count_newlines_bound(s.take(i + k));
}

/// The line feeds of two sequences joined are those of each.
pub proof fn lemma_count_newlines_concat(a: Seq<char>, b: Seq<char>)
    ensures
        count_newlines(a + b) == count_newlines(a) + count_newlines(b),
    decreases b.len(),
{
    if b.len() == 0 {
        assert(a + b =~= a);
    } else {
        assert((a + b).drop_last() =~= a + b.drop_last());
        lemma_count_newlines_concat(a, b.drop_last());
    }
}

proof fn lemma_recovery_len_bound(s: Seq<char>)
    ensures
        recovery_len(s) <= s.len(),
{
    crate::cursor::lemma_length_including_bound(s, seq!['\n', '"']);
}

fn string_failure_text(f: StringFailure) -> (r: String)
    ensures
        r@ == string_failure_message(f),
{
    match f {
        StringFailure::Eof => String::from_str("EOF in string constant."),
        StringFailure::Null => String::from_str("String contains null character."),
        StringFailure::Newline => String::from_str("Unterminated string constant."),
        StringFailure::EscapedNull => String::from_str("String contains escaped null character."),
    }
}

/// What matching a string literal at the start of `source` yields: nothing
/// unless it starts with a quote; otherwise the outcome of scanning the rest.
pub open spec fn string_match<'s>(source: &'s [char], r: Option<Token<'s>>) -> bool {
    &&& (source@.len() == 0 || source@[0] != '"' ==> r is None)
    &&& (source@.len() > 0 && source@[0] == '"' ==> (r matches Some(t) && {
        let sc = scan_string(source@.drop_first(), 0, Seq::empty(), 0);
        &&& is_string_scan_kind(t.kind, sc)
        &&& t.length == sc.consumed + 1
        &&& t.newlines == sc.lines
        &&& t.newlines == count_newlines(t.source@.take(t.length + t.skip))
        &&& t.skip == sc.skip
        &&& t.source == source
        &&& t.wf()
    }))
}

/// Recognises string literals, unescaping their value.
pub struct StringRule {}

impl Default for StringRule {
    fn default() -> (r: Self)
        ensures
            r == (StringRule {  }),
    {
        StringRule {  }
    }
}

impl StringRule {

    /// Scans the body of a literal from `cursor`, which has just passed the
    /// opening quote.
    fn consume_string(&self, mut cursor: Cursor, Ghost(s): Ghost<Seq<char>>) -> (r: (
        Option<StringFailure>,
        usize,
        String,
        usize,
        usize,
    ))
        requires
            cursor.wf(),
            cursor@ == s,
            cursor.consumed() == 1,
            s.len() < usize::MAX,
        ensures
            ({
                let sc = scan_string(s, 0, Seq::empty(), 0);
                &&& r.0 == sc.failure
                &&& r.1 == sc.consumed + 1
                &&& r.2@ == sc.value
                &&& r.3 == sc.lines
                &&& r.4 == sc.skip
                &&& sc.consumed + sc.skip <= s.len()
                &&& sc.lines == count_newlines(s.take((sc.consumed + sc.skip) as int))
            }),
    {
        let mut result = String::new();
        let mut lines: usize = 0;
        let ghost mut i: nat = 0;
        loop
            invariant
                cursor.wf(),
                i <= s.len(),
                cursor@ == s.skip(i as int),
                cursor.consumed() == i + 1,
                lines == count_newlines(s.take(i as int)),
                s.len() < usize::MAX,
                scan_string(s, 0, Seq::empty(), 0) == scan_string(s, i, result@, lines as nat),
            decreases s.len() - i,
        {
            proof {
                assert(cursor@.len() == s.len() - i);
                lemma_count_newlines_bound(s.take(i as int));
                if cursor@.len() > 0 {
                    assert(cursor@[0] == s[i as int]);
                    lemma_count_step(s, i as int);
                }
                if cursor@.len() > 1 {
                    assert(cursor@[1] == s[i + 1 as int]);
                    lemma_count_step(s, i + 1 as int);
                }
            }
            if cursor.is_eof() {
                assert(s.take(i + 0 as int) =~= s.take(i as int));
                return (Some(StringFailure::Eof), cursor.consumed_len(), result, lines, 0);
            } else if cursor.next_is_null() {
                let skip = cursor.length_including(&['\n', '"']);
                proof {
                    assert(seq!['\n', '"'] =~= ['\n', '"']@);
                    lemma_recovery_len_bound(s.skip(i as int));
                }
                let rest = cursor.chars();
                let extra = count_line_feeds(&rest[0..skip]);
                proof {
                    lemma_recovery_count(s, i as int, skip as int);
                }
                lines = lines + extra;
                return (Some(StringFailure::Null), cursor.consumed_len(), result, lines, skip);
            } else if cursor.next_is_newline() {
                lines = lines + 1;
                let _ = cursor.bump();
                assert(s.take(i + 1 + 0 as int) =~= s.take(i + 1 as int));
                return (Some(StringFailure::Newline), cursor.consumed_len(), result, lines, 0);
            } else if cursor.peek() == Some('\\') && cursor.second().is_some() {
                let _ = cursor.bump();
                let e = cursor.bump().unwrap();
                proof {
                    assert(cursor@ =~= s.skip(i + 2 as int));
                }
                if e == '\0' {
                    let skip = cursor.length_including(&['\n', '"']);
                    proof {
                        assert(seq!['\n', '"'] =~= ['\n', '"']@);
                        lemma_recovery_len_bound(s.skip(i + 2 as int));
                    }
                    let rest = cursor.chars();
                    let extra = count_line_feeds(&rest[0..skip]);
                    proof {
                        lemma_recovery_count(s, i + 2 as int, skip as int);
                    }
                    lines = lines + extra;
                    return (Some(StringFailure::EscapedNull), cursor.consumed_len(), result, lines, skip);
                }
                let u = if e == 'b' {
                    '\x08'
                } else if e == 't' {
                    '\t'
                } else if e == 'n' {
                    '\n'
                } else if e == 'f' {
                    '\x0C'
                } else {
                    e
                };
                if e == '\n' {
                    lines = lines + 1;
                }
                push_char(&mut result, u);
                proof {
                    i = i + 2;
                }
            } else if cursor.peek() == Some('"') {
                let _ = cursor.bump();
                assert(s.take(i + 1 + 0 as int) =~= s.take(i + 1 as int));
                return (None, cursor.consumed_len(), result, lines, 0);
            } else {
                let c = cursor.bump().unwrap();
                push_char(&mut result, c);
                proof {
                    assert(cursor@ =~= s.skip(i + 1 as int));
                    i = i + 1;
                }
            }
        }
    }

    /// Matches a string literal at the start of `source`.
    pub fn try_match<'s>(&self, source: &'s [char]) -> (r: Option<Token<'s>>)
        ensures
            string_match(source, r),
    {
        if source.len() == 0 {
            return None;
        }
        let mut cursor = Cursor::new(source);
        match cursor.bump() {
            Some(c) => {
                if c != '"' {
                    return None;
                }
            },
            None => {
                return None;
            },
        }
        let (failure, length, value, lines, skip) = self.consume_string(
            cursor,
            Ghost(source@.drop_first()),
        );
        proof {
            let body = source@.drop_first();
            let n = (length - 1 + skip) as int;
            assert(source@.take(length + skip) =~= seq!['"'] + body.take(n));
            lemma_count_newlines_prepend('"', body.take(n));
            lemma_count_newlines_bound(body.take(n));
        }
        let kind = match failure {
            None => TokenKind::String(value),
            Some(f) => TokenKind::Error(string_failure_text(f)),
        };
        Some(Token { kind, length, source, newlines: lines, skip })
    }
}

/// Why a block comment could not be closed.
#[derive(PartialEq, Eq, Structural, Copy, Clone, Debug)]
pub enum CommentFailure {
    /// A closer with no opener left to match.
    Unmatched,
    /// The input ended inside the comment.
    Eof,
}

/// The outcome of scanning a block comment: `failure` is `None` when the
/// outermost opener was closed; `consumed` counts the characters taken into
/// the token and `lines` the line feeds among them.
pub ghost struct CommentScan {
    pub failure: Option<CommentFailure>,
    pub consumed: nat,
    pub lines: nat,
}

/// Scans `s` from position `i` at nesting `depth`, with `lines` line feeds seen.
pub open spec fn scan_comment(s: Seq<char>, i: nat, depth: nat, lines: nat) -> CommentScan
    decreases s.len() - i,
{
    if i >= s.len() {
        CommentScan { failure: Some(CommentFailure::Eof), consumed: i, lines }
    } else if s[i as int] == '(' && i + 1 < s.len() && s[i + 1 as int] == '*' {
        scan_comment(s, i + 2, depth + 1, lines)
    } else if s[i as int] == '*' && i + 1 < s.len() && s[i + 1 as int] == ')' {
        if depth == 0 {
            CommentScan { failure: Some(CommentFailure::Unmatched), consumed: i + 2, lines }
        } else if depth == 1 {
            CommentScan { failure: None, consumed: i + 2, lines }
        } else {
            scan_comment(s, i + 2, (depth - 1) as nat, lines)
        }
    } else if s[i as int] == '\n' {
        scan_comment(s, i + 1, depth, lines + 1)
    } else {
        scan_comment(s, i + 1, depth, lines)
    }
}

/// The number of line feeds in `s`.
pub open spec fn count_newlines(s: Seq<char>) -> nat
    decreases s.len(),
{
    if s.len() == 0 {
        0
    } else {
        count_newlines(s.drop_last()) + if s.last() == '\n' { 1nat } else { 0nat }
    }
}

/// The diagnostic carried by an error token for each comment failure.
pub open spec fn comment_failure_message(f: CommentFailure) -> Seq<char> {
    match f {
        CommentFailure::Unmatched => "Unmatched *)"@,
        CommentFailure::Eof => "EOF in comment"@,
    }
}

/// Whether `k` is the kind of token a comment scan yields.
pub open spec fn is_comment_scan_kind(k: TokenKind, sc: CommentScan) -> bool {
    match sc.failure {
        None => k == TokenKind::BlockComment,
        Some(f) => match k {
            TokenKind::Error(m) => m@ == comment_failure_message(f),
            _ => false,
        },
    }
}

fn comment_failure_text(f: CommentFailure) -> (r: String)
    ensures
        r@ == comment_failure_message(f),
{
    match f {
        CommentFailure::Unmatched => String::from_str("Unmatched *)"),
        CommentFailure::Eof => String::from_str("EOF in comment"),
    }
}

/// Whether `s` is exactly the two characters `a`, `b`.
fn is_pair(s: &[char], a: char, b: char) -> (r: bool)
    ensures
        r == (s@ == seq![a, b]),
{
    if s.len() == 2 && s[0] == a && s[1] == b {
        assert(s@ =~= seq![a, b]);
        true
    } else {
        false
    }
}

/// What matching a block comment at the start of `source` yields: an
/// unmatched-closer error for a leading `*)`, the outcome of a nested scan
/// for a leading `(*`, and nothing otherwise.
pub open spec fn comment_match<'s>(source: &'s [char], r: Option<Token<'s>>) -> bool {
    &&& (starts_with(source@, seq!['*', ')']) ==> (r matches Some(t) && {
        &&& t.kind matches TokenKind::Error(m) && m@ == comment_failure_message(CommentFailure::Unmatched)
        &&& t.length == 2
        &&& t.newlines == 0
        &&& t.skip == 0
        &&& t.source == source
        &&& t.wf()
    }))
    &&& (!starts_with(source@, seq!['*', ')']) && !starts_with(source@, seq!['(', '*']) ==> r is None)
    &&& (starts_with(source@, seq!['(', '*']) ==> (r matches Some(t) && {
        let sc = scan_comment(source@, 0, 0, 0);
        &&& is_comment_scan_kind(t.kind, sc)
        &&& t.length == sc.consumed
        &&& t.newlines == sc.lines
        &&& t.newlines == count_newlines(t.text())
        &&& t.skip == 0
        &&& t.source == source
        &&& t.wf()
    }))
}

/// Recognises nested block comments, and a stray closer.
pub struct BlockCommentRule {}

impl Default for BlockCommentRule {
    fn default() -> (r: Self)
        ensures
            r == (BlockCommentRule {  }),
    {
        BlockCommentRule {  }
    }
}

impl BlockCommentRule {

    fn consume_comment(&self, mut cursor: Cursor, Ghost(s): Ghost<Seq<char>>) -> (r: (
        Option<CommentFailure>,
        usize,
        usize,
    ))
        requires
            cursor.wf(),
            cursor@ == s,
            cursor.consumed() == 0,
            s.len() <= usize::MAX,
        ensures
            ({
                let sc = scan_comment(s, 0, 0, 0);
                &&& r.0 == sc.failure
                &&& r.1 == sc.consumed
                &&& r.2 == sc.lines
                &&& sc.consumed <= s.len()
                &&& sc.lines == count_newlines(s.take(sc.consumed as int))
            }),
    {
        let mut depth: usize = 0;
        let mut lines: usize = 0;
        let ghost mut i: nat = 0;
        loop
            invariant
                cursor.wf(),
                i <= s.len(),
                cursor@ == s.skip(i as int),
                cursor.consumed() == i,
                depth <= i,
                lines <= i,
                s.len() <= usize::MAX,
                lines == count_newlines(s.take(i as int)),
                scan_comment(s, 0, 0, 0) == scan_comment(s, i, depth as nat, lines as nat),
            decreases s.len() - i,
        {
            proof {
                if cursor@.len() > 0 {
                    assert(cursor@[0] == s[i as int]);
                }
                if cursor@.len() > 1 {
                    assert(cursor@[1] == s[i + 1 as int]);
                }
            }
            match cursor.bump() {
                Some(c) => {
                    proof {
                        assert(cursor@ =~= s.skip(i + 1 as int));
                        lemma_count_step(s, i as int);
                        if i + 1 < s.len() {
                            lemma_count_step(s, i + 1 as int);
                        }
                    }
                    if c == '(' && cursor.peek() == Some('*') {
                        let _ = cursor.bump();
                        depth = depth + 1;
                        proof {
                            assert(cursor@ =~= s.skip(i + 2 as int));
                            i = i + 2;
                        }
                    } else if c == '*' && cursor.peek() == Some(')') {
                        let _ = cursor.bump();
                        if depth == 0 {
                            return (Some(CommentFailure::Unmatched), cursor.consumed_len(), lines);
                        }
                        depth = depth - 1;
                        if depth == 0 {
                            return (None, cursor.consumed_len(), lines);
                        }
                        proof {
                            assert(cursor@ =~= s.skip(i + 2 as int));
                            i = i + 2;
                        }
                    } else if c == '\n' {
                        lines = lines + 1;
                        proof {
                            i = i + 1;
                        }
                    } else {
                        proof {
                            i = i + 1;
                        }
                    }
                },
                None => {
                    proof {
                        assert(s.take(i as int) =~= s);
                    }
                    return (Some(CommentFailure::Eof), cursor.consumed_len(), lines);
                },
            }
        }
    }

    /// Matches a block comment, or a stray closer, at the start of `source`.
    pub fn try_match<'s>(&self, source: &'s [char]) -> (r: Option<Token<'s>>)
        ensures
            comment_match(source, r),
    {
        if source.len() < 2 {
            return None;
        }
        let cursor = Cursor::new(source);
        let first_two = cursor.peek_many(2);
        proof {
            if source@.len() >= 2 {
                assert(first_two@ =~= source@.take(2));
            }
        }
        if is_pair(first_two, '*', ')') {
            return Some(Token { kind: TokenKind::Error(comment_failure_text(CommentFailure::Unmatched)), length: 2, source, newlines: 0, skip: 0 });
        }
        if !is_pair(first_two, '(', '*') {
            return None;
        }
        let (failure, length, lines) = self.consume_comment(cursor, Ghost(source@));
        let kind = match failure {
            None => TokenKind::BlockComment,
            Some(f) => TokenKind::Error(comment_failure_text(f)),
        };
        proof {
            lemma_count_newlines_bound(source@.take(length as int));
        }
        Some(Token { kind, length, source, newlines: lines, skip: 0 })
    }
}

/// Whether `s` begins with `p`.
pub open spec fn starts_with(s: Seq<char>, p: Seq<char>) -> bool {
    p.len() <= s.len() && s.take(p.len() as int) == p
}

proof fn lemma_count_step(s: Seq<char>, i: int)
    requires
        0 <= i < s.len(),
    ensures
        count_newlines(s.take(i + 1)) == count_newlines(s.take(i)) + if s[i] == '\n' { 1nat } else { 0nat },
{
    assert(s.take(i + 1).drop_last() =~= s.take(i));
}

proof fn lemma_count_newlines_prepend(c: char, s: Seq<char>)
    requires
        c != '\n',
    ensures
        count_newlines(seq![c] + s) == count_newlines(s),
    decreases s.len(),
{
    if s.len() > 0 {
        assert((seq![c] + s).drop_last() =~= seq![c] + s.drop_last());
        lemma_count_newlines_prepend(c, s.drop_last());
    } else {
        assert((seq![c] + s).drop_last() =~= s);
    }
}

proof fn lemma_count_newlines_bound(s: Seq<char>)
    ensures
        count_newlines(s) <= s.len(),
    decreases s.len(),
{
    if s.len() > 0 {
        lemma_count_newlines_bound(s.drop_last());
    }
}

/// Characters whose escaped form reads back as themselves: printable ASCII,
/// and the four control characters that have a letter escape.
pub open spec fn reads_back(c: char) -> bool {
    is_printable(c) || c == '\n' || c == '\t' || c == '\x08' || c == '\x0C'
}

proof fn lemma_escaped_concat(a: Seq<char>, b: Seq<char>)
    ensures
        escaped(a + b) == escaped(a) + escaped(b),
    decreases b.len(),
{
    if b.len() == 0 {
        assert(a + b =~= a);
        assert(escaped(a) + escaped(b) =~= escaped(a));
    } else {
        assert((a + b).drop_last() =~= a + b.drop_last());
        lemma_escaped_concat(a, b.drop_last());
        assert(escaped(a) + escaped(b) =~= escaped(a) + escaped(b.drop_last()) + escape_char(b.last()));
    }
}

proof fn lemma_scan_escaped(s: Seq<char>, i: nat, w: Seq<char>, acc: Seq<char>, lines: nat)
    requires
        forall|k: int| 0 <= k < w.len() ==> reads_back(#[trigger] w[k]),
        i + escaped(w).len() < s.len(),
        s.subrange(i as int, (i + escaped(w).len()) as int) == escaped(w),
        s[(i + escaped(w).len()) as int] == '"',
    ensures
        scan_string(s, i, acc, lines) == (StringScan {
            failure: None,
            consumed: i + escaped(w).len() + 1,
            value: acc + w,
            lines,
            skip: 0,
        }),
    decreases w.len(),
{
    if w.len() == 0 {
        assert(acc + w =~= acc);
    } else {
        let c = w[0];
        let rest = w.drop_first();
        assert(seq![c] + rest =~= w);
        assert(seq![c].drop_last() =~= Seq::<char>::empty());
        assert(seq![c].last() == c);
        assert(escaped(Seq::<char>::empty()) =~= Seq::<char>::empty());
        assert(escaped(seq![c]) == escaped(seq![c].drop_last()) + escape_char(c));
        assert(escaped(seq![c]) =~= escape_char(c));
        lemma_escaped_concat(seq![c], rest);
        let e = escape_char(c);
        let n = e.len() as int;
        let j = i as int;
        assert(escaped(w) == e + escaped(rest));
        assert(s[i as int] == escaped(w)[0]);
        assert forall|k: int| 0 <= k < rest.len() implies reads_back(#[trigger] rest[k]) by {
            assert(rest[k] == w[k + 1]);
        }
        assert(s.subrange(j + n, j + n + escaped(rest).len()) =~= escaped(rest)) by {
            assert forall|k: int| 0 <= k < escaped(rest).len() implies s.subrange(j + n, j + n + escaped(rest).len())[k] == escaped(rest)[k] by {
                assert(s[j + n + k] == s.subrange(j, j + escaped(w).len())[n + k]);
            }
        }
        assert(reads_back(w[0]));
        if n == 2 {
            assert(s[j + 1] == escaped(w)[1]);
        }
        lemma_scan_escaped(s, (j + n) as nat, rest, acc.push(c), lines);
        assert(acc.push(c) + rest =~= acc + w);
    }
}

/// Reading back the escaped form of a value, between quotes, recovers the
/// value and spans no line, provided every character of the value is
/// printable ASCII or one of line feed, tab, backspace and form feed.
pub proof fn lemma_string_escape_round_trip(v: Seq<char>, rest: Seq<char>)
    requires
        forall|k: int| 0 <= k < v.len() ==> reads_back(#[trigger] v[k]),
    ensures
        ({
            let source = seq!['"'] + escaped(v) + seq!['"'] + rest;
            let sc = scan_string(source.drop_first(), 0, Seq::empty(), 0);
            &&& sc.failure is None
            &&& sc.value == v
            &&& sc.consumed + 1 == escaped(v).len() + 2
            &&& sc.lines == 0
            &&& sc.skip == 0
        }),
{
    let source = seq!['"'] + escaped(v) + seq!['"'] + rest;
    let s = source.drop_first();
    assert(s =~= escaped(v) + seq!['"'] + rest);
    assert(s.subrange(0, escaped(v).len() as int) =~= escaped(v));
    lemma_scan_escaped(s, 0, v, Seq::empty(), 0);
    assert(Seq::<char>::empty() + v =~= v);
}

/// A comment scan from an opener consumes at least the opener.
pub proof fn lemma_comment_progress(s: Seq<char>)
    requires
        starts_with(s, seq!['(', '*']),
    ensures
        scan_comment(s, 0, 0, 0).consumed >= 2,
{
    assert(s[0] == seq!['(', '*'][0] && s[1] == seq!['(', '*'][1]);
    lemma_scan_comment_mono(s, 2, 1, 0);
}

proof fn lemma_scan_comment_mono(s: Seq<char>, i: nat, depth: nat, lines: nat)
    ensures
        scan_comment(s, i, depth, lines).consumed >= i,
    decreases s.len() - i,
{
    if i < s.len() {
        if s[i as int] == '(' && i + 1 < s.len() && s[i + 1 as int] == '*' {
            lemma_scan_comment_mono(s, i + 2, depth + 1, lines);
        } else if s[i as int] == '*' && i + 1 < s.len() && s[i + 1 as int] == ')' {
            if depth > 1 {
                lemma_scan_comment_mono(s, i + 2, (depth - 1) as nat, lines);
            }
        } else if s[i as int] == '\n' {
            lemma_scan_comment_mono(s, i + 1, depth, lines + 1);
        } else {
            lemma_scan_comment_mono(s, i + 1, depth, lines);
        }
    }
}

} // verus!
