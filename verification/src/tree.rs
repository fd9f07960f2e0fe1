//! The authenticated account database: a fixed-depth Merkle accumulator
//! over accounts, with per-leaf reads, updates, authentication paths and
//! index bits.

use vstd::prelude::*;

use vstd::arithmetic::power2::pow2;

use pairing_ce::bn256::Fr;
use sapling_crypto_ce::poseidon::bn256::Bn256PoseidonParams;

use crate::account::empty_account;
use crate::account::Account;
use crate::merkle::bits_of;
use crate::merkle::leaf_index_bits;
use crate::merkle::path_spec;
use crate::merkle::pow2_exec;
use crate::merkle::subtree_hash;
use crate::merkle::subtree_leaf_path;
use crate::merkle::subtree_root_spec;

verus! {

/// The account database. The root is a pure function of the leaves and is
/// recomputed from them; every leaf mutation therefore moves the root.
pub struct AccountsTree {
    pub depth: usize,
    pub accounts: Vec<Account>,
}

impl AccountsTree {
    /// A tree is well formed when it holds exactly one account per leaf of
    /// a tree of its depth.
    pub open spec fn well_formed(self) -> bool {
        self.accounts@.len() == pow2(self.depth as nat)
    }

    /// The root over all accounts.
    pub open spec fn root_spec(self, params: Bn256PoseidonParams) -> Fr {
        subtree_root_spec(params, self.accounts@)
    }

    /// Creates the genesis tree: every leaf holds the empty account.
    pub fn new(depth: usize) -> (r: AccountsTree)
        requires
            pow2(depth as nat) <= usize::MAX,
        ensures
            r.well_formed(),
            r.depth == depth,
            forall|i: int| 0 <= i < r.accounts@.len() ==> r.accounts@[i] == empty_account(),
    {
        let n = pow2_exec(depth);
        let mut accounts: Vec<Account> = Vec::new();
        let mut k: usize = 0;
        while k < n
            invariant
                k <= n,
                accounts@.len() == k,
                forall|i: int| 0 <= i < k ==> accounts@[i] == empty_account(),
            decreases n - k,
        {
            accounts.push(Account::empty());
            k = k + 1;
        }
        AccountsTree { depth, accounts }
    }

    /// Recomputes the root from the leaves.
    pub fn root(&self, hash_params: &Bn256PoseidonParams) -> (r: Fr)
        requires
            crate::primitives::poseidon_wf(*hash_params),
            self.well_formed(),
        ensures
            r == self.root_spec(*hash_params),
    {
        let _len: usize = self.accounts.len();
        let r = subtree_hash(hash_params, &self.accounts, 0, self.depth);
        proof {
            assert(self.accounts@.subrange(0, pow2(self.depth as nat) as int)
                =~= self.accounts@);
        }
        r
    }

    /// Collects the authentication path of one leaf, bottom level first.
    pub fn get_leaf_path(&self, hash_params: &Bn256PoseidonParams, account_id: usize) -> (r: Vec<
        Fr,
    >)
        requires
            crate::primitives::poseidon_wf(*hash_params),
            self.well_formed(),
            account_id < self.accounts@.len(),
        ensures
            r@ == path_spec(*hash_params, self.accounts@, account_id as nat),
    {
        let _len: usize = self.accounts.len();
        let r = subtree_leaf_path(hash_params, &self.accounts, 0, self.depth, account_id);
        proof {
            assert(self.accounts@.subrange(0, pow2(self.depth as nat) as int)
                =~= self.accounts@);
        }
        r
    }

    /// Decomposes one leaf's position into its index bits.
    pub fn get_leaf_indices(&self, account_id: usize) -> (r: Vec<bool>)
        ensures
            r@ == bits_of(account_id as nat, self.depth as nat),
    {
        leaf_index_bits(account_id as u64, self.depth)
    }

    /// Writes a new balance into one leaf, leaving its key and counter.
    pub fn update_balance(&mut self, account_id: usize, new_balance: u64)
        requires
            account_id < old(self).accounts@.len(),
        ensures
            final(self).depth == old(self).depth,
            final(self).accounts@ == old(self).accounts@.update(
                account_id as int,
                Account {
                    pubkey_x: old(self).accounts@[account_id as int].pubkey_x,
                    pubkey_y: old(self).accounts@[account_id as int].pubkey_y,
                    nonce: old(self).accounts@[account_id as int].nonce,
                    balance: new_balance,
                },
            ),
    {
        let a = &self.accounts[account_id];
        let updated = Account {
            pubkey_x: a.pubkey_x,
            pubkey_y: a.pubkey_y,
            nonce: a.nonce,
            balance: new_balance,
        };
        self.accounts[account_id] = updated;
    }

    /// Writes a new owning key and counter into one leaf, leaving its
    /// balance.
    pub fn update_account(&mut self, account_id: usize, pubkey_x: Fr, pubkey_y: Fr, new_nonce: u64)
        requires
            account_id < old(self).accounts@.len(),
        ensures
            final(self).depth == old(self).depth,
            final(self).accounts@ == old(self).accounts@.update(
                account_id as int,
                Account {
                    pubkey_x: pubkey_x,
                    pubkey_y: pubkey_y,
                    nonce: new_nonce,
                    balance: old(self).accounts@[account_id as int].balance,
                },
            ),
    {
        let balance = self.accounts[account_id].balance;
        let updated = Account { pubkey_x, pubkey_y, nonce: new_nonce, balance };
        self.accounts[account_id] = updated;
    }
}

} // verus!
