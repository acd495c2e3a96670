use crate::shared::text::{decimal, spec_decimal};
use vstd::prelude::*;
use vstd::string::StringExecFns;

verus! {

/// A place in a script: line and column (both counted from 1) and the
/// offset in characters from the start of the script.
#[derive(Clone, Copy, Debug, PartialEq, Eq, Structural)]
pub struct Position {
    pub ln: usize,
    pub col: usize,
    pub i: usize,
}

/// The number after `x`, or `x` where the machine has none.
pub open spec fn spec_next(x: usize) -> usize {
    if x < usize::MAX {
        (x + 1) as usize
    } else {
        x
    }
}

fn next(x: usize) -> (y: usize)
    ensures
        y == spec_next(x),
{
    if x < usize::MAX {
        x + 1
    } else {
        x
    }
}

impl Position {
    /// The position of the first character of a script.
    pub open spec fn spec_start() -> Position {
        Position { ln: 1, col: 1, i: 0 }
    }

    /// The position reached from `self` by consuming the character `c`: a
    /// newline moves to the first column of the next line, anything else
    /// moves one column to the right. A line or a column that is the
    /// largest number of the machine stays what it is.
    pub open spec fn spec_advance(self, c: char) -> Position {
        if c == '\n' {
            Position { ln: spec_next(self.ln), col: 1, i: (self.i + 1) as usize }
        } else {
            Position { ln: self.ln, col: spec_next(self.col), i: (self.i + 1) as usize }
        }
    }

    /// The position after the first `n` characters of `text`.
    pub open spec fn spec_at(text: Seq<char>, n: int) -> Position
        decreases n,
    {
        if n <= 0 || n > text.len() {
            Position::spec_start()
        } else {
            Position::spec_at(text, n - 1).spec_advance(text[n - 1])
        }
    }

    /// The position as it is shown: line and column with a colon between.
    pub open spec fn spec_text(self) -> Seq<char> {
        spec_decimal(self.ln as nat) + ":"@ + spec_decimal(self.col as nat)
    }

    /// The position as it is shown.
    pub fn to_text(&self) -> (s: String)
        ensures
            s@ == self.spec_text(),
    {
        let mut s = decimal(self.ln);
        s.append(":");
        s.append(decimal(self.col).as_str());
        s
    }

    /// The position of the first character of a script.
    #[verifier::when_used_as_spec(spec_start)]
    pub fn start() -> (p: Position)
        ensures
            p == Position::spec_start(),
    {
        Position { ln: 1, col: 1, i: 0 }
    }

    /// The position reached by consuming the character `c`.
    #[verifier::when_used_as_spec(spec_advance)]
    pub fn advance(self, c: char) -> (p: Position)
        requires
            self.i < usize::MAX,
        ensures
            p == self.spec_advance(c),
    {
        if c == '\n' {
            Position { ln: next(self.ln), col: 1, i: self.i + 1 }
        } else {
            Position { ln: self.ln, col: next(self.col), i: self.i + 1 }
        }
    }
}

impl core::ops::Add<usize> for Position {
    type Output = Position;

    /// Moves `rhs` columns to the right on the same line.
    fn add(self, rhs: usize) -> (p: Position) {
        Position { ln: self.ln, col: self.col + rhs, i: self.i + rhs }
    }
}

impl vstd::std_specs::ops::AddSpecImpl<usize> for Position {
    open spec fn obeys_add_spec() -> bool {
        true
    }

    open spec fn add_req(self, rhs: usize) -> bool {
        self.col + rhs <= usize::MAX && self.i + rhs <= usize::MAX
    }

    open spec fn add_spec(self, rhs: usize) -> Position {
        Position { ln: self.ln, col: (self.col + rhs) as usize, i: (self.i + rhs) as usize }
    }
}

impl core::ops::Sub<usize> for Position {
    type Output = Position;

    /// Moves `rhs` columns to the left on the same line.
    fn sub(self, rhs: usize) -> (p: Position) {
        Position { ln: self.ln, col: self.col - rhs, i: self.i - rhs }
    }
}

impl vstd::std_specs::ops::SubSpecImpl<usize> for Position {
    open spec fn obeys_sub_spec() -> bool {
        true
    }

    open spec fn sub_req(self, rhs: usize) -> bool {
        rhs <= self.col && rhs <= self.i
    }

    open spec fn sub_spec(self, rhs: usize) -> Position {
        Position { ln: self.ln, col: (self.col - rhs) as usize, i: (self.i - rhs) as usize }
    }
}

/// The position after the first `n` characters lies at offset `n`, on a
/// line and in a column that `n` bounds.
pub proof fn lemma_position_bounds(text: Seq<char>, n: int)
    requires
        0 <= n <= text.len(),
        text.len() <= usize::MAX,
    ensures
        Position::spec_at(text, n).i == n,
        1 <= Position::spec_at(text, n).ln <= n + 1,
        1 <= Position::spec_at(text, n).col <= n + 1,
    decreases n,
{
    if n > 0 {
        lemma_position_bounds(text, n - 1);
    }
}

} // verus!
