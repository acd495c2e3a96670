use crate::shared::position::Position;
use crate::shared::text::{chars_of, string_of};
use vstd::prelude::*;
use vstd::string::StringExecFns;

verus! {

/// A stretch of a script, from `start` up to and excluding `end`.
#[derive(Clone, Copy, Debug, PartialEq, Eq, Structural)]
pub struct Range {
    pub start: Position,
    pub end: Position,
}

impl Range {
    /// True when the range lies inside a script of `len` characters.
    pub open spec fn within(self, len: nat) -> bool {
        self.start.i <= self.end.i <= len
    }

    /// The characters of `script` that the range spans.
    pub open spec fn spec_text(self, script: Seq<char>) -> Seq<char> {
        script.subrange(self.start.i as int, self.end.i as int)
    }

    /// The range as it is shown: its two positions with a hyphen between.
    pub open spec fn spec_shown(self) -> Seq<char> {
        self.start.spec_text() + "-"@ + self.end.spec_text()
    }

    /// The range as it is shown.
    pub fn to_text(&self) -> (s: String)
        ensures
            s@ == self.spec_shown(),
    {
        let mut s = self.start.to_text();
        s.append("-");
        s.append(self.end.to_text().as_str());
        s
    }

    /// The text of `script` that the range spans.
    pub fn get_text(&self, script: &str) -> (s: String)
        requires
            self.within(script@.len()),
        ensures
            s@ == self.spec_text(script@),
    {
        let chars = chars_of(script);
        string_of(&chars, self.start.i, self.end.i)
    }
}

} // verus!
