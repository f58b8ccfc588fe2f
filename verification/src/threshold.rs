//! Quorum thresholds over voting power.
use vstd::prelude::*;

verus! {

/// Voting power of a validator, or of a set of validators.
pub type VotingPower = u64;

/// Represents the different quorum thresholds.
#[derive(Clone, Debug, PartialEq, Eq, PartialOrd, Ord, Hash)]
pub enum Threshold<ValueId> {
    /// No quorum has been reached yet
    Unreached,
    /// Quorum of votes but not for the same value
    Any,
    /// Quorum of votes for nil
    Nil,
    /// Quorum (+2/3) of votes for a value
    Value(ValueId),
}

/// A threshold given as the fraction `numerator / denominator` of the total weight.
#[derive(Copy, Clone, Debug)]
pub struct ThresholdParam {
    /// Numerator of the threshold
    pub numerator: u64,
    /// Denominator of the threshold
    pub denominator: u64,
}

/// The two thresholds used by consensus:
/// - the quorum threshold, the minimum weight required for a quorum (2f+1);
/// - the honest threshold, the minimum weight that contains an honest node (f+1).
#[derive(Copy, Clone, Debug)]
pub struct ThresholdParams {
    /// Threshold for a quorum (default: 2f+1)
    pub quorum: ThresholdParam,
    /// Threshold for the minimum number of honest nodes (default: f+1)
    pub honest: ThresholdParam,
}

impl ThresholdParam {
    /// `weight` is strictly above the fraction of `total` that this threshold names.
    pub open spec fn met_by(self, weight: int, total: int) -> bool {
        weight * self.denominator > total * self.numerator
    }

    /// The least weight that meets the threshold for `total`: one more than the
    /// fraction of `total`, rounded down.
    pub open spec fn min_expected_of(self, total: int) -> int {
        (total * self.numerator) / (self.denominator as int) + 1
    }

    /// Neither product that `is_met` forms overflows a `u64`.
    pub open spec fn fits(self, weight: int, total: int) -> bool {
        &&& weight * self.denominator <= u64::MAX
        &&& total * self.numerator <= u64::MAX
    }

    /// Create a new threshold parameter with the given numerator and denominator.
    pub fn new(numerator: u64, denominator: u64) -> (r: Self)
        ensures
            r.numerator == numerator,
            r.denominator == denominator,
    {
        ThresholdParam { numerator, denominator }
    }

    /// Check whether the threshold is met: `weight * denominator > total * numerator`.
    pub fn is_met(&self, weight: VotingPower, total: VotingPower) -> (r: bool)
        requires
            self.fits(weight as int, total as int),
        ensures
            r == self.met_by(weight as int, total as int),
    {
        let lhs = weight * self.denominator;
        let rhs = total * self.numerator;
        lhs > rhs
    }

    /// Return the minimum expected weight to meet the threshold when applied to the given total:
    /// the least weight that `is_met` accepts for `total`.
    pub fn min_expected(&self, total: VotingPower) -> (r: VotingPower)
        requires
            total * self.numerator <= u64::MAX,
            self.denominator > 0,
            (total * self.numerator) / (self.denominator as int) < u64::MAX,
        ensures
            r == self.min_expected_of(total as int),
            self.met_by(r as int, total as int),
            r >= 1,
            !self.met_by(r - 1, total as int),
    {
        proof {
            lemma_is_met_iff_at_least_min_expected(*self, self.min_expected_of(total as int) as nat, total as nat);
            lemma_is_met_iff_at_least_min_expected(*self, (self.min_expected_of(total as int) - 1) as nat, total as nat);
        }
        (total * self.numerator) / self.denominator + 1
    }
}

/// The parameters for a faulty weight of at most one third.
pub open spec fn one_third_params() -> ThresholdParams {
    ThresholdParams {
        quorum: ThresholdParam { numerator: 2, denominator: 3 },
        honest: ThresholdParam { numerator: 1, denominator: 3 },
    }
}

/// The parameters for a faulty weight of at most one fifth.
pub open spec fn one_fifth_params() -> ThresholdParams {
    ThresholdParams {
        quorum: ThresholdParam { numerator: 2, denominator: 5 },
        honest: ThresholdParam { numerator: 1, denominator: 5 },
    }
}

impl ThresholdParams {
    /// One third of the total weight may be faulty (f = 1/3):
    /// the quorum is more than 2/3, the honest threshold more than 1/3.
    pub fn one_third() -> (r: Self)
        ensures
            r == one_third_params(),
    {
        ThresholdParams { quorum: ThresholdParam::new(2, 3), honest: ThresholdParam::new(1, 3) }
    }

    /// One fifth of the total weight may be faulty (f = 1/5):
    /// the quorum is more than 2/5, the honest threshold more than 1/5.
    pub fn one_fifth() -> (r: Self)
        ensures
            r == one_fifth_params(),
    {
        ThresholdParams { quorum: ThresholdParam::new(2, 5), honest: ThresholdParam::new(1, 5) }
    }
}

/// A threshold is met by a weight exactly when that weight is at least the minimum
/// expected weight for the same total.
pub proof fn lemma_is_met_iff_at_least_min_expected(p: ThresholdParam, weight: nat, total: nat)
    requires
        p.denominator > 0,
    ensures
        p.met_by(weight as int, total as int) <==> weight >= p.min_expected_of(total as int),
{
    let d = p.denominator as int;
    let x = total * p.numerator;
    let q = x / d;
    let r = x % d;
    vstd::arithmetic::div_mod::lemma_fundamental_div_mod(x, d);
    assert(0 <= r < d) by {
        vstd::arithmetic::div_mod::lemma_mod_bound(x, d);
    }
    assert(x == d * q + r);
    if weight > q {
        assert(weight * d >= (q + 1) * d) by (nonlinear_arith)
            requires weight >= q + 1, d > 0;
        assert((q + 1) * d == d * q + d) by (nonlinear_arith);
    } else {
        assert(weight * d <= q * d) by (nonlinear_arith)
            requires weight <= q, d > 0;
        assert(q * d == d * q) by (nonlinear_arith);
    }
}

/// Adding weight never un-meets a threshold.
pub proof fn lemma_is_met_monotonic(p: ThresholdParam, w1: nat, w2: nat, total: nat)
    requires
        p.met_by(w1 as int, total as int),
        w1 <= w2,
    ensures
        p.met_by(w2 as int, total as int),
{
    assert(w1 * p.denominator <= w2 * p.denominator) by (nonlinear_arith)
        requires w1 <= w2;
}

/// With one third of the weight faulty, a quorum always meets the honest threshold too.
pub proof fn lemma_one_third_quorum_is_honest(weight: nat, total: nat)
    ensures
        one_third_params().quorum.met_by(weight as int, total as int)
            ==> one_third_params().honest.met_by(weight as int, total as int),
{
}

/// With one third of the weight faulty, two quorums of the same total weight overlap
/// in a weight that meets the honest threshold: `w1 + w2 - total > total / 3`.
pub proof fn lemma_one_third_quorums_intersect_honestly(w1: nat, w2: nat, total: nat)
    requires
        one_third_params().quorum.met_by(w1 as int, total as int),
        one_third_params().quorum.met_by(w2 as int, total as int),
    ensures
        one_third_params().honest.met_by(w1 + w2 - total, total as int),
{
}

} // verus!
