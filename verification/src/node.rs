//! The ABCI node: its genesis and its private key file.
use vstd::prelude::*;
use crate::address::Address;
use crate::keys::{PrivateKey, PublicKey};
use crate::threshold::VotingPower;
use crate::validator_set::{dedup, sort_by_address, Validator, ValidatorSet};

verus! {

/// The validators that a genesis list describes, in order.
pub open spec fn genesis_validators(entries: Seq<(PublicKey, VotingPower)>) -> Seq<Validator> {
    entries.map_values(|e: (PublicKey, VotingPower)| Validator {
        address: Address(e.0),
        public_key: e.0,
        voting_power: e.1,
    })
}

/// A node that runs consensus for an ABCI application.
pub struct AbciNode;

impl AbciNode {
    /// The genesis validator set: one validator per key and voting power, sorted by
    /// address. The list must not be empty.
    pub fn make_genesis(&self, validators: Vec<(PublicKey, VotingPower)>) -> (r: ValidatorSet)
        requires
            validators@.len() > 0,
        ensures
            r.validators@ == dedup(sort_by_address(genesis_validators(validators@))),
    {
        let mut vals: Vec<Validator> = Vec::new();
        let mut i: usize = 0;
        while i < validators.len()
            invariant
                i <= validators@.len(),
                vals@ == genesis_validators(validators@.take(i as int)),
            decreases validators@.len() - i,
        {
            let (pk, vp) = validators[i];
            vals.push(Validator::new(pk, vp));
            proof {
                assert(validators@.take(i + 1) =~= validators@.take(i as int).push(validators@[i as int]));
                assert(genesis_validators(validators@.take(i + 1)) =~= genesis_validators(
                    validators@.take(i as int),
                ).push(Validator { address: Address(pk), public_key: pk, voting_power: vp }));
            }
            i += 1;
        }
        assert(validators@.take(validators@.len() as int) =~= validators@);
        ValidatorSet::new(vals)
    }

    /// The private key that a key file holds: the file is the key itself.
    pub fn load_private_key(&self, file: PrivateKey) -> (r: PrivateKey)
        ensures
            r == file,
    {
        file
    }

    /// The key file for a private key: the key itself.
    pub fn make_private_key_file(&self, private_key: PrivateKey) -> (r: PrivateKey)
        ensures
            r == private_key,
    {
        private_key
    }
}

} // verus!
