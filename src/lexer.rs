//! The driver: longest match wins, the earliest registered rule breaks ties,
//! and a line counter is threaded through the commits.
use vstd::prelude::*;

use crate::rule::Rule;
use crate::scan::{count_newlines, lemma_count_newlines_concat};
use crate::token::Token;

verus! {

/// Per-scan state: the current line, starting at 1.
#[derive(Clone, Copy, Debug, PartialEq, Eq, Structural)]
pub struct LexerContext {
    pub line_number: usize,
}

impl Default for LexerContext {
    fn default() -> (r: Self)
        ensures
            r.line_number == 1,
    {
        LexerContext { line_number: 1 }
    }
}

/// A tokenizer over an ordered list of rules.
pub struct Lexer {
    pub rules: Vec<Rule>,
}

/// Whether candidate `w` wins the arbitration: it is a match at least as
/// long as every other match, and strictly longer than every earlier one.
pub open spec fn is_best<'s>(cands: Seq<Option<Token<'s>>>, w: int) -> bool {
    &&& 0 <= w < cands.len()
    &&& cands[w] is Some
    &&& forall|j: int|
        0 <= j < cands.len() && (#[trigger] cands[j]) is Some ==> cands[j]->0.length
            <= cands[w]->0.length
    &&& forall|j: int|
        0 <= j < w && (#[trigger] cands[j]) is Some ==> cands[j]->0.length < cands[w]->0.length
}

/// The characters consumed by the first `k` commits of `out`.
pub open spec fn consumed_by<'s>(out: Seq<(Token<'s>, LexerContext)>, k: int) -> nat
    decreases k,
{
    if k <= 0 {
        0
    } else {
        (consumed_by(out, k - 1) + out[k - 1].0.length + out[k - 1].0.skip) as nat
    }
}

/// The lines spanned by the first `k` commits of `out`.
pub open spec fn lines_by<'s>(out: Seq<(Token<'s>, LexerContext)>, k: int) -> nat
    decreases k,
{
    if k <= 0 {
        0
    } else {
        (lines_by(out, k - 1) + out[k - 1].0.newlines) as nat
    }
}

proof fn lemma_sums_prefix<'s>(a: Seq<(Token<'s>, LexerContext)>, b: Seq<(Token<'s>, LexerContext)>, k: int)
    requires
        0 <= k <= a.len() <= b.len(),
        forall|j: int| 0 <= j < a.len() ==> a[j] == b[j],
    ensures
        consumed_by(a, k) == consumed_by(b, k),
        lines_by(a, k) == lines_by(b, k),
    decreases k,
{
    if k > 0 {
        lemma_sums_prefix(a, b, k - 1);
    }
}

impl Lexer {
    /// Every rule is well formed.
    pub open spec fn wf(&self) -> bool {
        forall|j: int| 0 <= j < self.rules@.len() ==> (#[trigger] self.rules@[j]).wf()
    }

    /// A lexer trying `rules` in this order.
    pub fn new(rules: Vec<Rule>) -> (r: Self)
        ensures
            r.rules == rules,
    {
        Lexer { rules }
    }

    /// Whether `t` is what the arbitration at the start of `source` picks:
    /// some outcome of each rule, in order, of which `t` is the winner.
    pub open spec fn picks<'s>(&self, source: &'s [char], t: Token<'s>) -> bool {
        exists|cands: Seq<Option<Token<'s>>>| #[trigger] self.all_yield(source, cands)
            && exists|w: int| is_best(cands, w) && cands[w] == Some(t)
    }

    /// Whether no rule matches at the start of some slice holding `rest`.
    pub open spec fn none_match<'s>(&self, rest: Seq<char>) -> bool {
        exists|src: &'s [char], cands: Seq<Option<Token<'s>>>|
            src@ == rest && #[trigger] self.all_yield(src, cands)
                && forall|j: int| 0 <= j < cands.len() ==> (#[trigger] cands[j]) is None
    }

    /// Whether `cands` holds, in order, an outcome of each rule at the start of `source`.
    pub open spec fn all_yield<'s>(&self, source: &'s [char], cands: Seq<Option<Token<'s>>>) -> bool {
        &&& cands.len() == self.rules@.len()
        &&& forall|j: int| 0 <= j < cands.len() ==> self.rules@[j].yields(source, #[trigger] cands[j])
    }

    /// Whether `out` is a scan of `input` so far: each token is non-empty,
    /// starts where the commits before it ended, is what the arbitration
    /// there picks, and carries the line counter after its own commit.
    pub open spec fn is_scan<'s>(&self, input: Seq<char>, out: Seq<(Token<'s>, LexerContext)>) -> bool {
        &&& out.len() <= consumed_by(out, out.len() as int)
        &&& consumed_by(out, out.len() as int) <= input.len()
        &&& forall|k: int| 0 <= k < out.len() ==> {
            let t = (#[trigger] out[k]).0;
            &&& t.length > 0
            &&& t.wf()
            &&& t.source@ == input.skip(consumed_by(out, k) as int)
            &&& self.picks(t.source, t)
            &&& out[k].1.line_number == 1 + lines_by(out, k + 1)
        }
    }

    /// Splits `input` into tokens, each paired with the line counter after
    /// its commit. At each position every rule is tried in order; the
    /// longest match wins, the earliest registered rule among equally long
    /// ones. Each commit consumes the token and its extra characters and adds
    /// the lines it spans. Fails with the offset the scan reached when no
    /// rule matches there.
    pub fn lex<'s>(&self, input: &'s [char]) -> (r: Result<Vec<(Token<'s>, LexerContext)>, usize>)
        requires
            self.wf(),
            input@.len() < usize::MAX,
        ensures
            r matches Ok(out) ==> self.is_scan(input@, out@) && consumed_by(out@, out@.len() as int)
                == input@.len(),
            r matches Err(p) ==> p < input@.len() && exists|out: Seq<(Token<'s>, LexerContext)>|
                #[trigger] self.is_scan(input@, out) && p == consumed_by(out, out.len() as int)
                    && self.none_match(input@.skip(p as int)),
    {
        let mut current: &'s [char] = input;
        let mut context = LexerContext::default();
        let mut result: Vec<(Token<'s>, LexerContext)> = Vec::new();
        let ghost mut pos: nat = 0;
        while current.len() > 0
            invariant
                self.wf(),
                input@.len() < usize::MAX,
                pos <= input@.len(),
                current@ == input@.skip(pos as int),
                pos == consumed_by(result@, result@.len() as int),
                lines_by(result@, result@.len() as int) <= pos,
                context.line_number == 1 + lines_by(result@, result@.len() as int),
                self.is_scan(input@, result@),
            decreases current@.len(),
        {
            let ghost mut cands: Seq<Option<Token<'s>>> = Seq::empty();
            let mut best: Option<Token<'s>> = None;
            let mut best_rule: usize = 0;
            let mut i: usize = 0;
            while i < self.rules.len()
                invariant
                    self.wf(),
                    i <= self.rules@.len(),
                    cands.len() == i,
                    forall|j: int| 0 <= j < i ==> self.rules@[j].yields(current, #[trigger] cands[j]),
                    forall|j: int| 0 <= j < i && (#[trigger] cands[j]) is Some ==> cands[j]->0.wf()
                        && cands[j]->0.length > 0 && cands[j]->0.source == current,
                    best is None ==> forall|j: int| 0 <= j < i ==> (#[trigger] cands[j]) is None,
                    best is Some ==> best_rule < i && is_best(cands, best_rule as int) && cands[best_rule as int] == best,
                decreases self.rules@.len() - i,
            {
                let t = self.rules[i].try_match(current);
                let ghost gt = t;
                proof {
                    cands = cands.push(gt);
                }
                match t {
                    Some(tok) => {
                        let longer = match &best {
                            None => true,
                            Some(b) => tok.length > b.length,
                        };
                        if longer {
                            best = Some(tok);
                            best_rule = i;
                        }
                    },
                    None => {},
                }
                i = i + 1;
            }
            match best {
                None => {
                    proof {
                        assert(self.all_yield(current, cands));
                        assert(self.none_match(input@.skip(pos as int)));
                        assert(self.is_scan(input@, result@));
                    }
                    return Err(input.len() - current.len());
                },
                Some(tok) => {
                    proof {
                        assert(self.all_yield(current, cands));
                        assert(self.picks(current, tok));
                    }
                    let rest = self.rules[best_rule].accept(&tok, &mut context, current);
                    let ghost old_result = result@;
                    let ghost step = tok.length + tok.skip;
                    result.push((tok, context));
                    proof {
                        lemma_sums_prefix(old_result, result@, old_result.len() as int);
                        assert forall|k: int| 0 <= k < old_result.len() implies consumed_by(old_result, k) == consumed_by(result@, k)
                            && lines_by(old_result, k + 1) == lines_by(result@, k + 1) by {
                            lemma_sums_prefix(old_result, result@, k);
                            lemma_sums_prefix(old_result, result@, k + 1);
                        }
                        assert(rest@ =~= input@.skip(pos + step));
                        pos = (pos + step) as nat;
                    }
                    current = rest;
                },
            }
        }
        Ok(result)
    }
}

proof fn lemma_lines_prefix<'s>(input: Seq<char>, out: Seq<(Token<'s>, LexerContext)>, m: int)
    requires
        0 <= m <= out.len(),
        forall|k: int| 0 <= k < out.len() ==> {
            let t = (#[trigger] out[k]).0;
            &&& t.wf()
            &&& t.source@ == input.skip(consumed_by(out, k) as int)
            &&& t.newlines == count_newlines(t.source@.take(t.length + t.skip))
        },
    ensures
        consumed_by(out, m) <= input.len(),
        lines_by(out, m) == count_newlines(input.take(consumed_by(out, m) as int)),
    decreases m,
{
    if m == 0 {
        assert(input.take(0) =~= Seq::<char>::empty());
    } else {
        lemma_lines_prefix(input, out, m - 1);
        let t = out[m - 1].0;
        let c = consumed_by(out, m - 1) as int;
        let step = t.length + t.skip;
        assert(input.take(c + step) =~= input.take(c) + t.source@.take(step));
        lemma_count_newlines_concat(input.take(c), t.source@.take(step));
    }
}

/// Line accounting: when every commit spans exactly the line feeds among the
/// characters it consumes, the line recorded with each token of a scan is 1
/// plus the number of line feeds in the input consumed up to and including
/// that token's commit.
pub proof fn lemma_line_accounting<'s>(input: Seq<char>, out: Seq<(Token<'s>, LexerContext)>)
    requires
        forall|k: int| 0 <= k < out.len() ==> {
            let t = (#[trigger] out[k]).0;
            &&& t.wf()
            &&& t.source@ == input.skip(consumed_by(out, k) as int)
            &&& out[k].1.line_number == 1 + lines_by(out, k + 1)
            &&& t.newlines == count_newlines(t.source@.take(t.length + t.skip))
        },
    ensures
        forall|k: int| 0 <= k < out.len() ==> (#[trigger] out[k]).1.line_number == 1 + count_newlines(
            input.take(consumed_by(out, k + 1) as int),
        ),
{
    assert forall|k: int| 0 <= k < out.len() implies (#[trigger] out[k]).1.line_number == 1 + count_newlines(
        input.take(consumed_by(out, k + 1) as int),
    ) by {
        lemma_lines_prefix(input, out, k + 1);
    }
}

proof fn lemma_consumed_mono<'s>(out: Seq<(Token<'s>, LexerContext)>, a: int, b: int)
    requires
        0 <= a <= b <= out.len(),
    ensures
        consumed_by(out, a) <= consumed_by(out, b),
    decreases b - a,
{
    if a < b {
        lemma_consumed_mono(out, a, b - 1);
    }
}

/// Progress: every commit of a scan strictly advances the offset and never
/// passes the end of the input, so a scan of `n` characters has at most `n`
/// tokens.
pub proof fn lemma_scan_progress<'s>(lexer: &Lexer, input: Seq<char>, out: Seq<(Token<'s>, LexerContext)>)
    requires
        lexer.is_scan(input, out),
    ensures
        out.len() <= input.len(),
        forall|k: int| 0 <= k < out.len() ==> consumed_by(out, k) < #[trigger] consumed_by(out, k + 1)
            <= input.len(),
{
    assert forall|k: int| 0 <= k < out.len() implies consumed_by(out, k) < #[trigger] consumed_by(out, k + 1)
        <= input.len() by {
        assert(out[k].0.length > 0);
        lemma_consumed_mono(out, k + 1, out.len() as int);
    }
}

} // verus!
