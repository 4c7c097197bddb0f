use vstd::prelude::*;
use crate::text::{decimal, decimal_text};

verus! {

/// Columns that a tab character advances.
pub const SPACES_PER_TAB: usize = 8;

/// `n`, or the largest `usize` where `n` is larger: the counters stop there.
pub open spec fn clamp(n: int) -> nat {
    if n > usize::MAX {
        usize::MAX as nat
    } else {
        n as nat
    }
}

/// Line and column after consuming `c` at line `p.0`, column `p.1`.
pub open spec fn advance(p: (nat, nat), c: char) -> (nat, nat) {
    if c == '\t' {
        (p.0, clamp(p.1 + SPACES_PER_TAB as int))
    } else if c == '\n' {
        (clamp(p.0 as int + 1), 1)
    } else {
        (p.0, clamp(p.1 as int + 1))
    }
}

/// Line and column after consuming every character of `s`, in order, from `p`.
pub open spec fn advance_all(p: (nat, nat), s: Seq<char>) -> (nat, nat)
    decreases s.len(),
{
    if s.len() == 0 {
        p
    } else {
        advance(advance_all(p, s.drop_last()), s.last())
    }
}

/// The text `line:column`.
pub open spec fn position_text(p: (nat, nat)) -> Seq<char> {
    decimal(p.0) + seq![':'] + decimal(p.1)
}

/// A 1-based line and column, advanced over each consumed character.
#[derive(Debug, Clone, Copy, PartialEq, Eq, PartialOrd, Ord)]
pub struct CharPos {
    line: usize,
    chr: usize,
}

impl View for CharPos {
    type V = (nat, nat);

    closed spec fn view(&self) -> (nat, nat) {
        (self.line as nat, self.chr as nat)
    }
}

impl CharPos {
    /// The position before any character: line 1, column 1.
    pub fn new() -> (r: Self)
        ensures
            r@ == (1nat, 1nat),
    {
        Self { line: 1, chr: 1 }
    }

    pub fn line(&self) -> (r: usize)
        ensures
            r as nat == self@.0,
    {
        self.line
    }

    pub fn column(&self) -> (r: usize)
        ensures
            r as nat == self@.1,
    {
        self.chr
    }

    /// Advances over the consumed character `c`: a tab moves the column by
    /// `SPACES_PER_TAB`, a newline starts the next line at column 1, and any
    /// other character moves the column by one.
    pub fn skip(&mut self, c: char)
        ensures
            final(self)@ == advance(old(self)@, c),
    {
        if c == '\t' {
            self.chr = self.chr.saturating_add(SPACES_PER_TAB);
        } else if c == '\n' {
            self.line = self.line.saturating_add(1);
            self.chr = 1;
        } else {
            self.chr = self.chr.saturating_add(1);
        }
    }

    /// The position as `line:column`.
    pub fn to_text(&self) -> (r: String)
        ensures
            r@ == position_text(self@),
    {
        let mut s = decimal_text(self.line);
        let col = decimal_text(self.chr);
        s.append(":");
        s.append(col.as_str());
        proof {
            reveal_strlit(":");
        }
        s
    }
}

/// Consuming a run of `n` characters that holds no tab and no newline, from
/// column `c`, ends at column `c + n` of the same line (while that fits in a
/// `usize`).
pub proof fn lemma_plain_run(p: (nat, nat), s: Seq<char>)
    requires
        forall|i: int| 0 <= i < s.len() ==> s[i] != '\t' && s[i] != '\n',
        p.1 + s.len() <= usize::MAX,
    ensures
        advance_all(p, s) == (p.0, p.1 + s.len()),
    decreases s.len(),
{
    if s.len() > 0 {
        lemma_plain_run(p, s.drop_last());
    }
}

} // verus!
