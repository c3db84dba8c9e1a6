//! A forward-only, peekable view over a character sequence.
use vstd::prelude::*;

verus! {

/// A position within a borrowed character sequence; it only moves forward.
pub struct Cursor<'s> {
    source: &'s [char],
    pos: usize,
}

impl<'s> View for Cursor<'s> {
    /// The characters not consumed yet.
    type V = Seq<char>;

    closed spec fn view(&self) -> Seq<char> {
        self.source@.subrange(self.pos as int, self.source@.len() as int)
    }
}

impl<'s> Cursor<'s> {
    /// The position never passes the end of the sequence.
    pub closed spec fn wf(&self) -> bool {
        self.pos <= self.source@.len()
    }

    /// How many characters were consumed since construction.
    pub closed spec fn consumed(&self) -> nat {
        self.pos as nat
    }

    /// A cursor at the start of `source`.
    pub fn new(source: &'s [char]) -> (r: Self)
        ensures
            r.wf(),
            r@ == source@,
            r.consumed() == 0,
    {
        let r = Cursor { source, pos: 0 };
        proof {
            assert(r@ =~= source@);
        }
        r
    }

    /// Consumes and returns the next character; `None` at the end.
    pub fn bump(&mut self) -> (r: Option<char>)
        requires
            old(self).wf(),
        ensures
            final(self).wf(),
            old(self)@.len() == 0 ==> r is None && final(self)@ == old(self)@
                && final(self).consumed() == old(self).consumed(),
            old(self)@.len() > 0 ==> r == Some(old(self)@[0]) && final(self)@ == old(self)@.drop_first()
                && final(self).consumed() == old(self).consumed() + 1,
    {
        if self.pos < self.source.len() {
            let c = self.source[self.pos];
            self.pos = self.pos + 1;
            proof {
                assert(self@ =~= old(self)@.drop_first());
            }
            Some(c)
        } else {
            None
        }
    }

    /// The next character, not consumed.
    pub fn peek(&self) -> (r: Option<char>)
        requires
            self.wf(),
        ensures
            r == (if self@.len() > 0 { Some(self@[0]) } else { None::<char> }),
    {
        if self.pos < self.source.len() {
            Some(self.source[self.pos])
        } else {
            None
        }
    }

    /// The character after the next one, not consumed.
    pub fn second(&self) -> (r: Option<char>)
        requires
            self.wf(),
        ensures
            r == (if self@.len() > 1 { Some(self@[1]) } else { None::<char> }),
    {
        if self.source.len() - self.pos > 1 {
            Some(self.source[self.pos + 1])
        } else {
            None
        }
    }

    /// Up to `n` characters ahead, fewer where fewer remain.
    pub fn peek_many(&self, n: usize) -> (r: &'s [char])
        requires
            self.wf(),
        ensures
            r@ == self@.take(if n < self@.len() { n as int } else { self@.len() as int }),
    {
        let left = self.source.len() - self.pos;
        let k = if n < left { n } else { left };
        let r = &self.source[self.pos..self.pos + k];
        proof {
            assert(r@ =~= self@.take(k as int));
        }
        r
    }

    /// Whether the next character is NUL.
    pub fn next_is_null(&self) -> (r: bool)
        requires
            self.wf(),
        ensures
            r == (self@.len() > 0 && self@[0] == '\0'),
    {
        match self.peek() {
            Some(c) => c == '\0',
            None => false,
        }
    }

    /// Whether the next character is a line feed.
    pub fn next_is_newline(&self) -> (r: bool)
        requires
            self.wf(),
        ensures
            r == (self@.len() > 0 && self@[0] == '\n'),
    {
        match self.peek() {
            Some(c) => c == '\n',
            None => false,
        }
    }

    /// Whether every character has been consumed.
    pub fn is_eof(&self) -> (r: bool)
        requires
            self.wf(),
        ensures
            r == (self@.len() == 0),
    {
        self.pos >= self.source.len()
    }

    /// How many characters were consumed since construction.
    pub fn consumed_len(&self) -> (r: usize)
        ensures
            r == self.consumed(),
    {
        self.pos
    }

    /// The number of characters up to and including the first one that is in
    /// `delims`, or up to the end where none is.
    pub fn length_including(&self, delims: &[char]) -> (r: usize)
        requires
            self.wf(),
        ensures
            r == length_including_spec(self@, delims@),
    {
        let mut i: usize = self.pos;
        while i < self.source.len()
            invariant
                self.pos <= i <= self.source@.len(),
                forall|k: int| 0 <= k < i - self.pos ==> !delims@.contains(#[trigger] self@[k]),
            decreases self.source@.len() - i,
        {
            if contains_char(delims, self.source[i]) {
                proof {
                    lemma_first_delim(self@, delims@, (i - self.pos) as int);
                }
                return i - self.pos + 1;
            }
            i = i + 1;
        }
        proof {
            lemma_no_delim(self@, delims@);
        }
        self.source.len() - self.pos
    }

    /// The characters not consumed yet.
    pub fn chars(&self) -> (r: &'s [char])
        requires
            self.wf(),
        ensures
            r@ == self@,
    {
        &self.source[self.pos..self.source.len()]
    }
}

/// The index of the first character of `s` that lies in `delims`, if any.
pub open spec fn first_delim(s: Seq<char>, delims: Seq<char>) -> int
    decreases s.len(),
{
    if s.len() == 0 {
        -1
    } else if delims.contains(s[0]) {
        0
    } else {
        let k = first_delim(s.drop_first(), delims);
        if k < 0 { -1 } else { k + 1 }
    }
}

/// Characters up to and including the first delimiter, or all of `s`.
pub open spec fn length_including_spec(s: Seq<char>, delims: Seq<char>) -> nat {
    let k = first_delim(s, delims);
    if k < 0 { s.len() } else { (k + 1) as nat }
}

/// A delimiter search never reaches past the end.
pub proof fn lemma_length_including_bound(s: Seq<char>, delims: Seq<char>)
    ensures
        length_including_spec(s, delims) <= s.len(),
    decreases s.len(),
{
    if s.len() > 0 && !delims.contains(s[0]) {
        lemma_length_including_bound(s.drop_first(), delims);
    }
}

proof fn lemma_first_delim(s: Seq<char>, delims: Seq<char>, i: int)
    requires
        0 <= i < s.len(),
        delims.contains(s[i]),
        forall|k: int| 0 <= k < i ==> !delims.contains(#[trigger] s[k]),
    ensures
        first_delim(s, delims) == i,
    decreases i,
{
    if i > 0 {
        assert(!delims.contains(s[0]));
        assert forall|k: int| 0 <= k < i - 1 implies !delims.contains(#[trigger] s.drop_first()[k]) by {
            assert(s.drop_first()[k] == s[k + 1]);
        }
        lemma_first_delim(s.drop_first(), delims, i - 1);
    }
}

proof fn lemma_no_delim(s: Seq<char>, delims: Seq<char>)
    requires
        forall|k: int| 0 <= k < s.len() ==> !delims.contains(#[trigger] s[k]),
    ensures
        first_delim(s, delims) == -1,
    decreases s.len(),
{
    if s.len() > 0 {
        assert(!delims.contains(s[0]));
        assert forall|k: int| 0 <= k < s.len() - 1 implies !delims.contains(#[trigger] s.drop_first()[k]) by {
            assert(s.drop_first()[k] == s[k + 1]);
        }
        lemma_no_delim(s.drop_first(), delims);
    }
}

/// Whether `c` occurs in `cs`.
fn contains_char(cs: &[char], c: char) -> (r: bool)
    ensures
        r == cs@.contains(c),
{
    let mut i: usize = 0;
    while i < cs.len()
        invariant
            i <= cs@.len(),
            forall|k: int| 0 <= k < i ==> cs@[k] != c,
        decreases cs@.len() - i,
    {
        if cs[i] == c {
            return true;
        }
        i = i + 1;
    }
    false
}

impl<'s> From<&'s [char]> for Cursor<'s> {
    fn from(source: &'s [char]) -> (r: Self)
        ensures
            r.wf(),
            r@ == source@,
            r.consumed() == 0,
    {
        Cursor::new(source)
    }
}

impl<'s> vstd::std_specs::convert::FromSpecImpl<&'s [char]> for Cursor<'s> {
    open spec fn obeys_from_spec() -> bool {
        false
    }

    closed spec fn from_spec(v: &'s [char]) -> Self {
        Cursor { source: v, pos: 0 }
    }
}

} // verus!
