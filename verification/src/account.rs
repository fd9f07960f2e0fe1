//! Account records and the witness snapshot of one leaf transition.

use vstd::prelude::*;

use pairing_ce::bn256::Fr;
use sapling_crypto_ce::poseidon::bn256::Bn256PoseidonParams;

use crate::primitives::fr_from_u64;
use crate::primitives::fr_of;
use crate::primitives::poseidon_digest;
use crate::primitives::poseidon_of;

verus! {

/// One account: the owning key's coordinates, the replay counter and the
/// balance, in the fixed slot order of the leaf encoding.
pub struct Account {
    pub pubkey_x: Fr,
    pub pubkey_y: Fr,
    pub nonce: u64,
    pub balance: u64,
}

/// The genesis content of every leaf: zero key, zero counter, zero balance.
pub open spec fn empty_account() -> Account {
    Account { pubkey_x: fr_of(0), pubkey_y: fr_of(0), nonce: 0, balance: 0 }
}

impl Account {
    /// Builds the genesis content of a leaf.
    pub fn empty() -> (r: Account)
        ensures
            r == empty_account(),
    {
        Account { pubkey_x: fr_from_u64(0), pubkey_y: fr_from_u64(0), nonce: 0, balance: 0 }
    }
}

/// The leaf encoding of an account: one algebraic hash over its four fields.
pub open spec fn leaf_hash_spec(params: Bn256PoseidonParams, a: Account) -> Fr {
    poseidon_of(params, seq![a.pubkey_x, a.pubkey_y, fr_of(a.nonce), fr_of(a.balance)])[0]
}

/// Hashes one account into its leaf digest.
pub fn leaf_hash(params: &Bn256PoseidonParams, a: &Account) -> (r: Fr)
    requires
        crate::primitives::poseidon_wf(*params),
    ensures
        r == leaf_hash_spec(*params, *a),
{
    let mut input: Vec<Fr> = Vec::new();
    input.push(a.pubkey_x);
    input.push(a.pubkey_y);
    input.push(fr_from_u64(a.nonce));
    input.push(fr_from_u64(a.balance));
    proof {
        assert(input@ =~= seq![a.pubkey_x, a.pubkey_y, fr_of(a.nonce), fr_of(a.balance)]);
    }
    poseidon_digest(params, &input)
}

/// Witness snapshot of one leaf transition: the leaf's content before and
/// after, with the authentication path and index bits captured at the time
/// of the mutation.
#[derive(Clone)]
pub struct AccountSnapshot {
    pub old_balance: u64,
    pub new_balance: u64,
    pub old_pubkey_x: Fr,
    pub old_pubkey_y: Fr,
    pub new_pubkey_x: Fr,
    pub new_pubkey_y: Fr,
    pub old_nonce: u64,
    pub new_nonce: u64,
    pub account_path: Vec<Fr>,
    pub account_indices: Vec<bool>,
}

impl AccountSnapshot {
    /// The leaf content before the transition.
    pub open spec fn old_account(self) -> Account {
        Account {
            pubkey_x: self.old_pubkey_x,
            pubkey_y: self.old_pubkey_y,
            nonce: self.old_nonce,
            balance: self.old_balance,
        }
    }

    /// The leaf content after the transition.
    pub open spec fn new_account(self) -> Account {
        Account {
            pubkey_x: self.new_pubkey_x,
            pubkey_y: self.new_pubkey_y,
            nonce: self.new_nonce,
            balance: self.new_balance,
        }
    }
}

/// A circuit is built either over a concrete witness, or, for key setup,
/// over none.
#[derive(Clone)]
pub enum AccountState {
    SetupOnly,
    Witness(AccountSnapshot),
}

} // verus!
