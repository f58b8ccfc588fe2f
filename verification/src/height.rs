//! Block heights.
use vstd::prelude::*;

verus! {

/// Defines the requirements for a height type.
///
/// A height denotes the number of blocks (values) created since the chain began.
/// A height of 0 represents a chain which has not yet produced a block.
pub trait Height: Sized {
    /// The number of blocks the height counts.
    spec fn number(&self) -> nat;

    /// Increment the height by one.
    fn increment(&self) -> (r: Self)
        requires
            self.number() < u64::MAX,
        ensures
            r.number() == self.number() + 1;

    /// Convert the height to a `u64`.
    fn as_u64(&self) -> (r: u64)
        ensures
            r == self.number();
}

/// The height of a block in the ABCI application.
#[derive(Copy, Clone, Debug, PartialEq, Eq, Structural)]
pub struct AbciHeight(pub u64);

impl AbciHeight {
    /// The height `height`.
    pub fn new(height: u64) -> (r: Self)
        ensures
            r.0 == height,
    {
        AbciHeight(height)
    }

    /// `self` is strictly below `other`.
    pub fn lt(&self, other: &Self) -> (r: bool)
        ensures
            r == (self.0 < other.0),
    {
        self.0 < other.0
    }
}

impl Height for AbciHeight {
    open spec fn number(&self) -> nat {
        self.0 as nat
    }

    fn increment(&self) -> (r: Self) {
        AbciHeight(self.0 + 1)
    }

    fn as_u64(&self) -> (r: u64) {
        self.0
    }
}

/// The height of a block on a Starknet chain: a fork and a block number on it.
/// Heights are ordered by fork first, then by block number.
#[derive(Copy, Clone, Debug, PartialEq, Eq, Structural)]
pub struct StarknetHeight {
    pub fork_id: u64,
    pub block_number: u64,
}

impl StarknetHeight {
    /// The height of block `block_number` on fork `fork_id`.
    pub fn new(fork_id: u64, block_number: u64) -> (r: Self)
        ensures
            r.fork_id == fork_id,
            r.block_number == block_number,
    {
        StarknetHeight { fork_id, block_number }
    }

    /// `self` comes before `other`: on an earlier fork, or earlier on the same fork.
    pub open spec fn precedes(self, other: Self) -> bool {
        self.fork_id < other.fork_id || (self.fork_id == other.fork_id && self.block_number
            < other.block_number)
    }

    /// `self` comes before `other`.
    pub fn lt(&self, other: &Self) -> (r: bool)
        ensures
            r == self.precedes(*other),
    {
        self.fork_id < other.fork_id || (self.fork_id == other.fork_id && self.block_number
            < other.block_number)
    }
}

impl Height for StarknetHeight {
    open spec fn number(&self) -> nat {
        self.block_number as nat
    }

    fn increment(&self) -> (r: Self) {
        StarknetHeight { fork_id: self.fork_id, block_number: self.block_number + 1 }
    }

    fn as_u64(&self) -> (r: u64) {
        self.block_number
    }
}

} // verus!
