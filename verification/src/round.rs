//! Consensus rounds.
use vstd::prelude::*;

verus! {

/// A round number, or `Nil` for "no round".
#[derive(Copy, Clone, Debug, PartialEq, Eq, Structural)]
pub enum Round {
    /// No round, e.g. no proof-of-lock round.
    Nil,
    /// A round number.
    Defined(u32),
}

impl Round {
    /// The round numbered `round`.
    pub fn new(round: u32) -> (r: Self)
        ensures
            r == Round::Defined(round),
    {
        Round::Defined(round)
    }

    /// The round as a signed number: -1 for `Nil`.
    pub open spec fn spec_as_i64(self) -> int {
        match self {
            Round::Nil => -1,
            Round::Defined(r) => r as int,
        }
    }

    /// The round as a signed number: -1 for `Nil`.
    pub fn as_i64(&self) -> (r: i64)
        ensures
            r == self.spec_as_i64(),
    {
        match self {
            Round::Nil => -1,
            Round::Defined(r) => *r as i64,
        }
    }

    /// The round with the given signed number: `Nil` for a negative one; a number
    /// beyond the range of a round keeps its low 32 bits.
    pub fn from_i64(round: i64) -> (r: Self)
        ensures
            round < 0 ==> r == Round::Nil,
            0 <= round <= u32::MAX ==> r == Round::Defined(round as u32),
            round >= 0 ==> r == Round::Defined(round as u32),
    {
        if round < 0 {
            Round::Nil
        } else {
            Round::Defined(round as u32)
        }
    }

    /// Whether this is the `Nil` round.
    pub fn is_nil(&self) -> (r: bool)
        ensures
            r == (*self == Round::Nil),
    {
        match self {
            Round::Nil => true,
            Round::Defined(_) => false,
        }
    }
}

} // verus!
