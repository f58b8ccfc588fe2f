//! The host of the key-value application: its parameters and its validators.
use vstd::prelude::*;
use crate::validator_set::{Validator, ValidatorSet};

verus! {

/// The host of the key-value application. It keeps no mempool of its own: the
/// application's mempool is local to it.
pub struct KvHost<P> {
    params: P,
    validator_set: ValidatorSet,
}

impl<P: Copy> KvHost<P> {
    /// The parameters the host was made with.
    pub closed spec fn spec_params(&self) -> P {
        self.params
    }

    /// The validators the host was made with.
    pub closed spec fn spec_validators(&self) -> Seq<Validator> {
        self.validator_set.validators@
    }

    /// A host with the given parameters and validators.
    pub fn new(params: P, validator_set: ValidatorSet) -> (r: Self)
        ensures
            r.spec_params() == params,
            r.spec_validators() == validator_set.validators@,
    {
        KvHost { params, validator_set }
    }

    /// The parameters of the host.
    pub fn params(&self) -> (r: P)
        ensures
            r == self.spec_params(),
    {
        self.params
    }

    /// A copy of the validator set of the host.
    pub fn validator_set(&self) -> (r: ValidatorSet)
        ensures
            r.validators@ == self.spec_validators(),
    {
        let mut validators: Vec<Validator> = Vec::new();
        let mut i: usize = 0;
        while i < self.validator_set.validators.len()
            invariant
                i <= self.validator_set.validators@.len(),
                validators@ == self.validator_set.validators@.take(i as int),
            decreases self.validator_set.validators@.len() - i,
        {
            validators.push(self.validator_set.validators[i]);
            i += 1;
            assert(validators@ =~= self.validator_set.validators@.take(i as int));
        }
        assert(self.validator_set.validators@.take(i as int) =~= self.validator_set.validators@);
        ValidatorSet { validators }
    }
}

} // verus!
