//! The matching rules: exact literals, case-insensitive keywords, regular
//! expressions, and the two scanners, behind one closed `Rule` type.
use vstd::prelude::*;

use crate::scan::{comment_match, starts_with, string_match, BlockCommentRule, StringRule};
use crate::text::{append_str, chars_of, lower_of, lowercase, string_of};
use crate::lexer::LexerContext;
use crate::token::{copy_kind, KeywordKind, Token, TokenKind};

verus! {

/// Whether keyword `key` matches, ignoring case, at the start of `source`.
pub open spec fn keyword_hit(source: Seq<char>, key: Seq<char>) -> bool {
    0 < key.len() <= source.len() && lower_of(source.take(key.len() as int)) == lower_of(key)
}

/// Whether `s` has the same characters as `t`.
fn same_chars(s: &[char], t: &[char]) -> (r: bool)
    ensures
        r == (s@ == t@),
{
    if s.len() != t.len() {
        return false;
    }
    let mut i: usize = 0;
    while i < s.len()
        invariant
            s@.len() == t@.len(),
            i <= s@.len(),
            forall|k: int| 0 <= k < i ==> s@[k] == t@[k],
        decreases s@.len() - i,
    {
        if s[i] != t[i] {
            return false;
        }
        i = i + 1;
    }
    assert(s@ =~= t@);
    true
}

/// Matches one fixed string exactly.
pub struct LiteralRule {
    lit: &'static str,
    chars: Vec<char>,
    token_kind: TokenKind,
}

impl LiteralRule {
    /// The characters of the literal are cached alongside it.
    pub closed spec fn wf(&self) -> bool {
        self.chars@ == self.lit@
    }

    /// The literal matched.
    pub closed spec fn literal(&self) -> Seq<char> {
        self.lit@
    }

    /// The kind of the tokens produced.
    pub closed spec fn kind(&self) -> TokenKind {
        self.token_kind
    }

    /// A rule matching exactly `lit`, producing tokens of `token_kind`.
    pub fn new(lit: &'static str, token_kind: TokenKind) -> (r: Self)
        ensures
            r.wf(),
            r.literal() == lit@,
            r.kind() == token_kind,
    {
        let chars = chars_of(lit);
        LiteralRule { lit, chars, token_kind }
    }

    /// What matching at the start of `source` yields: a token of the rule's
    /// kind over the literal when `source` begins with it (case-sensitively),
    /// nothing otherwise or when the literal is empty.
    pub open spec fn yields<'s>(&self, source: &'s [char], r: Option<Token<'s>>) -> bool {
        if self.literal().len() > 0 && starts_with(source@, self.literal()) {
            r matches Some(t) && t.kind == self.kind() && t.length == self.literal().len()
                && t.source == source && t.newlines == 0 && t.skip == 0
        } else {
            r is None
        }
    }

    /// Matches the literal at the start of `source`.
    pub fn try_match<'s>(&self, source: &'s [char]) -> (r: Option<Token<'s>>)
        requires
            self.wf(),
        ensures
            self.yields(source, r),
    {
        let n = self.chars.len();
        if n == 0 || source.len() < n {
            return None;
        }
        if same_chars(&source[0..n], self.chars.as_slice()) {
            Some(Token::new(copy_kind(&self.token_kind), n, source))
        } else {
            None
        }
    }
}

/// Matches the longest of a list of keywords, ignoring case.
pub struct KeywordRule {
    mapping: Vec<(&'static str, KeywordKind)>,
}

/// Whether entry `w` of `keys` is the first among the longest that match
/// at the start of `source`.
pub open spec fn is_longest_keyword(
    source: Seq<char>,
    keys: Seq<(Seq<char>, KeywordKind)>,
    w: int,
) -> bool {
    &&& 0 <= w < keys.len()
    &&& keyword_hit(source, keys[w].0)
    &&& forall|j: int|
        0 <= j < keys.len() && keyword_hit(source, #[trigger] keys[j].0) ==> keys[j].0.len()
            <= keys[w].0.len()
    &&& forall|j: int|
        0 <= j < w && keyword_hit(source, #[trigger] keys[j].0) ==> keys[j].0.len()
            < keys[w].0.len()
}

impl KeywordRule {
    /// The keyword spellings and kinds, in registration order.
    pub closed spec fn keywords(&self) -> Seq<(Seq<char>, KeywordKind)> {
        self.mapping@.map_values(|e: (&'static str, KeywordKind)| (e.0@, e.1))
    }

    /// A rule over the given spellings and kinds, in this order.
    pub fn new(mapping: Vec<(&'static str, KeywordKind)>) -> (r: Self)
        ensures
            r.keywords() == mapping@.map_values(|e: (&'static str, KeywordKind)| (e.0@, e.1)),
    {
        KeywordRule { mapping }
    }

    /// What matching at the start of `source` yields: nothing when no
    /// keyword matches; otherwise the keyword token of the longest match,
    /// the earliest registered among equally long ones.
    pub open spec fn yields<'s>(&self, source: &'s [char], r: Option<Token<'s>>) -> bool {
        let keys = self.keywords();
        if exists|j: int| 0 <= j < keys.len() && keyword_hit(source@, #[trigger] keys[j].0) {
            r matches Some(t) && exists|w: int|
                is_longest_keyword(source@, keys, w) && t.kind == TokenKind::Keyword(#[trigger] keys[w].1)
                    && t.length == keys[w].0.len() && t.source == source && t.newlines == 0
                    && t.skip == 0
        } else {
            r is None
        }
    }

    /// Matches the longest keyword at the start of `source`.
    pub fn try_match<'s>(&self, source: &'s [char]) -> (r: Option<Token<'s>>)
        ensures
            self.yields(source, r),
    {
        let ghost keys = self.keywords();
        let mut best: Option<(usize, KeywordKind)> = None;
        let ghost mut w: int = -1;
        let mut i: usize = 0;
        while i < self.mapping.len()
            invariant
                keys == self.keywords(),
                keys.len() == self.mapping@.len(),
                i <= keys.len(),
                best is None <==> w == -1,
                best is None ==> forall|j: int| 0 <= j < i ==> !keyword_hit(source@, #[trigger] keys[j].0),
                best matches Some(b) ==> {
                    &&& 0 <= w < i
                    &&& keyword_hit(source@, keys[w].0)
                    &&& b.0 == keys[w].0.len()
                    &&& b.1 == keys[w].1
                    &&& forall|j: int|
                        0 <= j < i && keyword_hit(source@, #[trigger] keys[j].0) ==> keys[j].0.len() <= b.0
                    &&& forall|j: int|
                        0 <= j < w && keyword_hit(source@, #[trigger] keys[j].0) ==> keys[j].0.len() < b.0
                },
            decreases keys.len() - i,
        {
            let (key, kind) = self.mapping[i];
            assert(keys[i as int] == (key@, kind));
            let n = key.unicode_len();
            let mut hit = false;
            if 0 < n && n <= source.len() {
                let prefix = string_of(&source[0..n]);
                let a = lowercase(prefix.as_str());
                let b = lowercase(key);
                hit = a == b;
                assert(source@.subrange(0, n as int) =~= source@.take(n as int));
            }
            assert(hit == keyword_hit(source@, keys[i as int].0));
            if hit {
                let longer = match best {
                    None => true,
                    Some(b) => n > b.0,
                };
                if longer {
                    best = Some((n, kind));
                    proof {
                        w = i as int;
                    }
                }
            }
            i = i + 1;
        }
        match best {
            None => None,
            Some(b) => {
                assert(b.0 <= source@.len());
                Some(Token::new(TokenKind::Keyword(b.1), b.0, source))
            },
        }
    }
}

#[verifier::external_type_specification]
#[verifier::external_body]
pub struct ExRegex(regex::Regex);

#[verifier::external_type_specification]
#[verifier::external_body]
pub struct ExRegexError(regex::Error);

/// Whether `pattern` compiles, with the given multi-line and
/// dot-matches-newline settings.
pub uninterp spec fn regex_compiles(pattern: Seq<char>, multi_line: bool, dot_all: bool) -> bool;

/// What `regex::Regex::find` reports for an expression built from `pattern`
/// with the given settings, searching `haystack`: the text before the
/// leftmost-first match and the matched text, or `None` without a match.
pub uninterp spec fn regex_find(
    pattern: Seq<char>,
    multi_line: bool,
    dot_all: bool,
    haystack: Seq<char>,
) -> Option<(Seq<char>, Seq<char>)>;

/// A compiled expression, with the pattern and settings it was built from.
pub struct CompiledRegex {
    regex: regex::Regex,
    pattern: Ghost<Seq<char>>,
    multi_line: Ghost<bool>,
    dot_all: Ghost<bool>,
}

impl CompiledRegex {
    /// The pattern the expression was built from.
    pub closed spec fn pattern(&self) -> Seq<char> {
        self.pattern@
    }

    /// Whether `^` and `$` match at line boundaries.
    pub closed spec fn multi_line(&self) -> bool {
        self.multi_line@
    }

    /// Whether `.` matches a line feed.
    pub closed spec fn dot_all(&self) -> bool {
        self.dot_all@
    }

    /// Compiles `pattern` with the given settings; fails exactly when it does
    /// not compile.
    pub fn new(pattern: &str, multi_line: bool, dot_all: bool) -> (r: Result<Self, RuleError>)
        ensures
            r is Ok <==> regex_compiles(pattern@, multi_line, dot_all),
            r matches Ok(c) ==> c.pattern() == pattern@ && c.multi_line() == multi_line
                && c.dot_all() == dot_all,
    {
        match build_regex(pattern, multi_line, dot_all) {
            Ok(c) => Ok(c),
            Err(e) => Err(RuleError::RegexError(e)),
        }
    }
}

/// Relies on `regex::RegexBuilder::build`: it fails exactly when the pattern
/// is invalid or too large, which depends on the pattern and settings alone.
/// The pattern and settings are kept beside the result.
#[verifier::external_body]
fn build_regex(pattern: &str, multi_line: bool, dot_all: bool) -> (r: Result<CompiledRegex, regex::Error>)
    ensures
        r is Ok <==> regex_compiles(pattern@, multi_line, dot_all),
        r matches Ok(c) ==> c.pattern() == pattern@ && c.multi_line() == multi_line
            && c.dot_all() == dot_all,
{
    match regex::RegexBuilder::new(pattern).multi_line(multi_line).dot_matches_new_line(dot_all).build() {
        Ok(regex) => Ok(CompiledRegex { regex, pattern: Ghost(pattern@), multi_line: Ghost(multi_line), dot_all: Ghost(dot_all) }),
        Err(e) => Err(e),
    }
}

/// Relies on `regex::Regex::find`: the leftmost-first match, if any, as the
/// text before it (up to `Match::start`) and the matched text
/// (`Match::as_str`), which together begin the haystack.
#[verifier::external_body]
fn find_match(re: &CompiledRegex, text: &[char]) -> (r: Option<(Vec<char>, Vec<char>)>)
    ensures
        r matches Some(m) ==> regex_find(re.pattern(), re.multi_line(), re.dot_all(), text@) == Some((m.0@, m.1@)),
        r is None <==> regex_find(re.pattern(), re.multi_line(), re.dot_all(), text@) is None,
        r matches Some(m) ==> starts_with(text@, m.0@ + m.1@),
{
    let haystack: String = text.iter().collect();
    match re.regex.find(&haystack) {
        Some(m) => Some((haystack[..m.start()].chars().collect(), m.as_str().chars().collect())),
        None => None,
    }
}

/// Building a rule failed.
#[derive(Debug)]
pub enum RuleError {
    /// The pattern did not compile.
    RegexError(regex::Error),
}

/// How the matched text of a regular expression becomes a token kind.
#[derive(PartialEq, Eq, Structural, Copy, Clone, Debug)]
pub enum Refinement {
    /// An object identifier spelled as matched.
    ObjectId,
    /// A type identifier spelled as matched.
    TypeId,
    /// An integer literal spelled as matched.
    Int,
    /// An error whose message is the matched text.
    Error,
}

/// Whether `k` is what refinement `f` makes of the matched text `m`.
pub open spec fn is_refined(f: Refinement, m: Seq<char>, k: TokenKind) -> bool {
    match f {
        Refinement::ObjectId => k matches TokenKind::ObjectId(s) && s@ == m,
        Refinement::TypeId => k matches TokenKind::TypeId(s) && s@ == m,
        Refinement::Int => k matches TokenKind::Int(s) && s@ == m,
        Refinement::Error => k matches TokenKind::Error(s) && s@ == m,
    }
}

/// Where the kind of a regular-expression token comes from.
pub enum KindSource {
    /// Always this kind.
    Fixed(TokenKind),
    /// Computed from the matched text.
    Refined(Refinement),
}

/// Consumption beyond the plain token on commit.
#[derive(PartialEq, Eq, Structural, Copy, Clone, Debug)]
pub enum AcceptingFn {
    /// Also consume the character after the token (the line feed ending a
    /// line comment) and count a line, unless the token reaches the end.
    SkipLineEnd,
    /// Count one line (the token is a line feed).
    CountLine,
}

/// Matches an anchored regular expression.
pub struct RegexRule {
    regex: CompiledRegex,
    token_kind: KindSource,
    accepting_fn: Option<AcceptingFn>,
}

/// `\A(?:` + `pattern` + `)`: the pattern anchored at the start of the input.
pub open spec fn anchored(pattern: Seq<char>) -> Seq<char> {
    "\\A(?:"@ + pattern + ")"@
}

/// The characters of a search result.
pub open spec fn found_view(found: Option<(Vec<char>, Vec<char>)>) -> Option<(Seq<char>, Seq<char>)> {
    match found {
        Some(m) => Some((m.0@, m.1@)),
        None => None,
    }
}

/// Whether `t` is the token for a match of `m` at the start of `source`,
/// with kind source `ks` and commit behaviour `af`.
pub open spec fn is_regex_token<'s>(
    ks: KindSource,
    af: Option<AcceptingFn>,
    m: Seq<char>,
    source: &'s [char],
    t: Token<'s>,
) -> bool {
    &&& t.length == m.len()
    &&& t.source == source
    &&& match ks {
        KindSource::Fixed(k) => t.kind == k,
        KindSource::Refined(f) => is_refined(f, m, t.kind),
    }
    &&& match af {
        None => t.newlines == 0 && t.skip == 0,
        Some(AcceptingFn::SkipLineEnd) => if m.len() < source@.len() {
            t.newlines == 1 && t.skip == 1
        } else {
            t.newlines == 0 && t.skip == 0
        },
        Some(AcceptingFn::CountLine) => t.newlines == 1 && t.skip == 0,
    }
}

fn refine(f: Refinement, m: &[char]) -> (r: TokenKind)
    ensures
        is_refined(f, m@, r),
{
    let s = string_of(m);
    match f {
        Refinement::ObjectId => TokenKind::ObjectId(s),
        Refinement::TypeId => TokenKind::TypeId(s),
        Refinement::Int => TokenKind::Int(s),
        Refinement::Error => TokenKind::Error(s),
    }
}

/// Compiles `pattern`, anchored at the start, with multi-line and
/// dot-matches-newline on.
fn compile_anchored(pattern: &str) -> (r: Result<CompiledRegex, RuleError>)
    ensures
        r is Ok <==> regex_compiles(anchored(pattern@), true, true),
        r matches Ok(c) ==> c.pattern() == anchored(pattern@) && c.multi_line() && c.dot_all(),
{
    let mut full = String::from_str("\\A(?:");
    append_str(&mut full, pattern);
    append_str(&mut full, ")");
    CompiledRegex::new(full.as_str(), true, true)
}

impl RegexRule {
    /// Where the rule's token kinds come from.
    pub closed spec fn kind_source(&self) -> KindSource {
        self.token_kind
    }

    /// The rule's extra consumption on commit.
    pub closed spec fn accepting(&self) -> Option<AcceptingFn> {
        self.accepting_fn
    }

    /// The pattern of the rule's expression.
    pub closed spec fn pattern(&self) -> Seq<char> {
        self.regex.pattern()
    }

    /// Whether the expression matches `^` and `$` at line boundaries.
    pub closed spec fn multi_line(&self) -> bool {
        self.regex.multi_line()
    }

    /// Whether the expression's `.` matches a line feed.
    pub closed spec fn dot_all(&self) -> bool {
        self.regex.dot_all()
    }

    /// What searching `haystack` with the rule's expression reports.
    pub open spec fn search(&self, haystack: Seq<char>) -> Option<(Seq<char>, Seq<char>)> {
        regex_find(self.pattern(), self.multi_line(), self.dot_all(), haystack)
    }

    /// A rule for `pattern`, anchored at the start of the input, with
    /// multi-line and dot-matches-newline on; it fails exactly when that
    /// pattern does not compile.
    pub fn new(pattern: &str, token_kind: TokenKind) -> (r: Result<Self, RuleError>)
        ensures
            r is Ok <==> regex_compiles(anchored(pattern@), true, true),
            r matches Ok(rule) ==> rule.kind_source() == KindSource::Fixed(token_kind)
                && rule.accepting() is None && rule.pattern() == anchored(pattern@)
                && rule.multi_line() && rule.dot_all(),
    {
        match compile_anchored(pattern) {
            Ok(regex) => Ok(RegexRule { regex, token_kind: KindSource::Fixed(token_kind), accepting_fn: None }),
            Err(e) => Err(e),
        }
    }

    /// A rule for an already compiled expression, used as it is.
    pub fn with_regex(regex: CompiledRegex, token_kind: TokenKind) -> (r: Self)
        ensures
            r.kind_source() == KindSource::Fixed(token_kind),
            r.accepting() is None,
            r.pattern() == regex.pattern(),
            r.multi_line() == regex.multi_line(),
            r.dot_all() == regex.dot_all(),
    {
        RegexRule { regex, token_kind: KindSource::Fixed(token_kind), accepting_fn: None }
    }

    /// Like `new`, with the token kind computed from the matched text.
    pub fn refined(pattern: &str, refinement: Refinement) -> (r: Result<Self, RuleError>)
        ensures
            r is Ok <==> regex_compiles(anchored(pattern@), true, true),
            r matches Ok(rule) ==> rule.kind_source() == KindSource::Refined(refinement)
                && rule.accepting() is None && rule.pattern() == anchored(pattern@)
                && rule.multi_line() && rule.dot_all(),
    {
        match compile_anchored(pattern) {
            Ok(regex) => Ok(RegexRule { regex, token_kind: KindSource::Refined(refinement), accepting_fn: None }),
            Err(e) => Err(e),
        }
    }

    /// The same rule, with extra consumption on commit.
    pub fn with_accepting_fn(self, accepting_fn: AcceptingFn) -> (r: Self)
        ensures
            r.kind_source() == self.kind_source(),
            r.accepting() == Some(accepting_fn),
            r.pattern() == self.pattern(),
            r.multi_line() == self.multi_line(),
            r.dot_all() == self.dot_all(),
    {
        RegexRule { regex: self.regex, token_kind: self.token_kind, accepting_fn: Some(accepting_fn) }
    }

    /// What a search result `found` (the text before a match and the match)
    /// yields at the start of `source`: a token only for a non-empty match
    /// that begins `source`.
    pub open spec fn yields_from<'s>(
        &self,
        found: Option<(Seq<char>, Seq<char>)>,
        source: &'s [char],
        r: Option<Token<'s>>,
    ) -> bool {
        match found {
            Some(m) => if m.0.len() == 0 && m.1.len() > 0 && starts_with(source@, m.1) {
                r matches Some(t) && is_regex_token(self.kind_source(), self.accepting(), m.1, source, t)
            } else {
                r is None
            },
            None => r is None,
        }
    }

    /// What matching at the start of `source` yields: the token for the
    /// expression's match there, if it is non-empty and anchored at the start.
    pub open spec fn yields<'s>(&self, source: &'s [char], r: Option<Token<'s>>) -> bool {
        self.yields_from(self.search(source@), source, r)
    }

    /// Turns a search result into a token, keeping only a non-empty match
    /// anchored at the start of `source`.
    pub fn token_from_match<'s>(&self, found: Option<(Vec<char>, Vec<char>)>, source: &'s [char]) -> (r: Option<Token<'s>>)
        ensures
            self.yields_from(found_view(found), source, r),
    {
        match found {
            None => None,
            Some((before, matched)) => {
                let n = matched.len();
                if before.len() != 0 || n == 0 || n > source.len() {
                    return None;
                }
                if !same_chars(&source[0..n], matched.as_slice()) {
                    proof {
                        assert(source@.subrange(0, n as int) =~= source@.take(n as int));
                    }
                    return None;
                }
                proof {
                    assert(source@.subrange(0, n as int) =~= source@.take(n as int));
                }
                let kind = match &self.token_kind {
                    KindSource::Fixed(k) => copy_kind(k),
                    KindSource::Refined(f) => refine(*f, matched.as_slice()),
                };
                let (newlines, skip) = match self.accepting_fn {
                    None => (0, 0),
                    Some(AcceptingFn::SkipLineEnd) => if n < source.len() {
                        (1, 1)
                    } else {
                        (0, 0)
                    },
                    Some(AcceptingFn::CountLine) => (1, 0),
                };
                Some(Token { kind, length: n, source, newlines, skip })
            },
        }
    }

    /// Matches the expression at the start of `source`.
    pub fn try_match<'s>(&self, source: &'s [char]) -> (r: Option<Token<'s>>)
        ensures
            self.yields(source, r),
    {
        let found = find_match(&self.regex, source);
        self.token_from_match(found, source)
    }
}

/// A matching rule: one of the five behaviours, with a shared interface.
pub enum Rule {
    Literal(LiteralRule),
    Keyword(KeywordRule),
    Regex(RegexRule),
    String(StringRule),
    BlockComment(BlockCommentRule),
}

impl Rule {
    /// The rule's cached data agrees with its definition.
    pub open spec fn wf(&self) -> bool {
        match self {
            Rule::Literal(l) => l.wf(),
            _ => true,
        }
    }

    /// What matching at the start of `source` yields, for each behaviour.
    #[verifier::opaque]
    pub open spec fn yields<'s>(&self, source: &'s [char], r: Option<Token<'s>>) -> bool {
        match self {
            Rule::Literal(l) => l.yields(source, r),
            Rule::Keyword(k) => k.yields(source, r),
            Rule::Regex(x) => x.yields(source, r),
            Rule::String(_) => string_match(source, r),
            Rule::BlockComment(_) => comment_match(source, r),
        }
    }

    /// Attempts a match anchored at the start of `source`; a match is never
    /// empty and never reaches past the end.
    pub fn try_match<'s>(&self, source: &'s [char]) -> (r: Option<Token<'s>>)
        requires
            self.wf(),
        ensures
            self.yields(source, r),
            r matches Some(t) ==> t.wf() && t.length > 0 && t.source == source,
    {
        let r = match self {
            Rule::Literal(l) => l.try_match(source),
            Rule::Keyword(k) => k.try_match(source),
            Rule::Regex(x) => x.try_match(source),
            Rule::String(s) => s.try_match(source),
            Rule::BlockComment(c) => c.try_match(source),
        };
        proof {
            reveal(Rule::yields);
            if let Rule::BlockComment(_) = self {
                if r is Some && starts_with(source@, seq!['(', '*']) {
                    crate::scan::lemma_comment_progress(source@);
                }
            }
        }
        r
    }

    /// Commits `token`: adds the lines it spans to `context` and returns
    /// what is left of `source` after the token and its extra consumption.
    pub fn accept<'s>(&self, token: &Token<'s>, context: &mut LexerContext, source: &'s [char]) -> (r: &'s [char])
        requires
            token.wf(),
            token.source == source,
            old(context).line_number + token.newlines <= usize::MAX,
        ensures
            final(context).line_number == old(context).line_number + token.newlines,
            r@ == source@.skip(token.length + token.skip),
    {
        let n = source.len();
        context.line_number = context.line_number + token.newlines;
        &source[token.length + token.skip..n]
    }
}

} // verus!
