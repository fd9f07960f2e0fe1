//! The client-authored withdrawal request: its signing digest, signature
//! handling, and the apply step that mutates the account tree and records a
//! witness snapshot.

use vstd::prelude::*;

use pairing_ce::bn256::Fr;
use sapling_crypto_ce::alt_babyjubjub::AltJubjubBn256;
use sapling_crypto_ce::poseidon::bn256::Bn256PoseidonParams;

use crate::account::Account;
use crate::account::AccountSnapshot;
use crate::account::AccountState;
use crate::account::leaf_hash_spec;
use crate::merkle::bits_of;
use crate::merkle::lemma_path_authenticates;
use crate::merkle::lemma_path_stable_under_update;
use crate::merkle::path_spec;
use crate::merkle::root_from_path;
use crate::primitives::eddsa_sign_raw;
use crate::primitives::eddsa_verifies;
use crate::primitives::eddsa_verify_raw;
use crate::primitives::fr_bytes31_of;
use crate::primitives::fr_from_u64;
use crate::primitives::fr_of;
use crate::primitives::fr_to_bytes_le_31;
use crate::primitives::poseidon_digest;
use crate::primitives::poseidon_of;
use crate::primitives::poseidon_wf;
use crate::primitives::public_of;
use crate::primitives::SpendSignature;
use crate::primitives::SpendingKey;
use crate::primitives::VerifyingKey;
use crate::tree::AccountsTree;

verus! {

/// Why a withdrawal request was rejected, in the order the preconditions
/// are checked.
#[derive(Clone, Copy, PartialEq, Eq, Debug)]
pub enum ApplyError {
    AccountOutOfRange,
    InsufficientBalance,
    NonceMismatch,
}

/// An unconfirmed, client-authored withdrawal intent: consumed exactly once
/// by the operator's apply step.
#[derive(Clone)]
pub struct OffchainWithdrawal {
    pub account_id: usize,
    pub amount: usize,
    pub nonce: usize,
    pub sign: Option<SpendSignature>,
}

impl OffchainWithdrawal {
    /// The signing digest: the algebraic hash over the request's fields,
    /// each cast into the field, in request order.
    pub open spec fn digest_spec(self, hash_params: Bn256PoseidonParams) -> Fr {
        poseidon_of(
            hash_params,
            seq![
                fr_of(self.account_id as u64),
                fr_of(self.amount as u64),
                fr_of(self.nonce as u64),
            ],
        )[0]
    }

    /// What `verify_signature` decides: the stored signature verifies
    /// against `pk` over the digest's fixed-width byte encoding.
    pub open spec fn signature_valid(
        self,
        pk: VerifyingKey,
        hash_params: Bn256PoseidonParams,
        sign_params: AltJubjubBn256,
    ) -> bool {
        eddsa_verifies(
            pk,
            fr_bytes31_of(self.digest_spec(hash_params)),
            self.sign.unwrap(),
            sign_params,
        )
    }

    /// Computes the request's signing digest.
    pub fn hash(&self, hash_params: &Bn256PoseidonParams) -> (r: Fr)
        requires
            poseidon_wf(*hash_params),
        ensures
            r == self.digest_spec(*hash_params),
    {
        let mut request: Vec<Fr> = Vec::new();
        request.push(fr_from_u64(self.account_id as u64));
        request.push(fr_from_u64(self.amount as u64));
        request.push(fr_from_u64(self.nonce as u64));
        proof {
            assert(request@ =~= seq![
                fr_of(self.account_id as u64),
                fr_of(self.amount as u64),
                fr_of(self.nonce as u64),
            ]);
        }
        poseidon_digest(hash_params, &request)
    }

    /// Signs the request's digest and stores the signature; the other
    /// fields stay untouched, and the stored signature is owed acceptance
    /// by the public key derived from `seckey`.
    pub fn sign(
        &mut self,
        seckey: &SpendingKey,
        hash_params: &Bn256PoseidonParams,
        sign_params: &AltJubjubBn256,
    )
        requires
            poseidon_wf(*hash_params),
        ensures
            final(self).account_id == old(self).account_id,
            final(self).amount == old(self).amount,
            final(self).nonce == old(self).nonce,
            final(self).sign is Some,
            final(self).signature_valid(
                public_of(*seckey, *sign_params),
                *hash_params,
                *sign_params,
            ),
    {
        let hash = self.hash(hash_params);
        let hash_bytes = fr_to_bytes_le_31(&hash);
        let sign = eddsa_sign_raw(seckey, &hash_bytes, sign_params);
        self.sign = Some(sign);
    }

    /// Checks the stored signature against a public key, over the same
    /// digest encoding that signing used. A cryptographically invalid
    /// signature yields `false`, not an error; a request that was never
    /// signed must not be checked.
    pub fn verify_signature(
        &self,
        pubkey: &VerifyingKey,
        hash_params: &Bn256PoseidonParams,
        sign_params: &AltJubjubBn256,
    ) -> (r: bool)
        requires
            poseidon_wf(*hash_params),
            self.sign is Some,
        ensures
            r == self.signature_valid(*pubkey, *hash_params, *sign_params),
    {
        let hash = self.hash(hash_params);
        let hash_bytes = fr_to_bytes_le_31(&hash);
        let sig = self.sign.as_ref().unwrap();
        eddsa_verify_raw(pubkey, &hash_bytes, sig, sign_params)
    }

    /// A withdrawal applies to a tree when its leaf exists, the balance
    /// covers the amount, and its nonce is exactly the account's next one.
    pub open spec fn applies_to(self, tree: AccountsTree) -> bool {
        &&& (self.account_id as int) < tree.accounts@.len()
        &&& self.amount <= tree.accounts@[self.account_id as int].balance
        &&& self.nonce >= 1
        &&& tree.accounts@[self.account_id as int].nonce == self.nonce - 1
    }

    /// The first violated precondition, for a withdrawal that does not
    /// apply.
    pub open spec fn apply_error(self, tree: AccountsTree) -> ApplyError {
        if self.account_id as int >= tree.accounts@.len() {
            ApplyError::AccountOutOfRange
        } else if self.amount > tree.accounts@[self.account_id as int].balance {
            ApplyError::InsufficientBalance
        } else {
            ApplyError::NonceMismatch
        }
    }

    /// The leaf's content after the withdrawal: the amount leaves the
    /// balance, the counter becomes the request's nonce, the key stays.
    pub open spec fn applied_account(self, tree: AccountsTree) -> Account {
        let a = tree.accounts@[self.account_id as int];
        Account {
            pubkey_x: a.pubkey_x,
            pubkey_y: a.pubkey_y,
            nonce: self.nonce as u64,
            balance: (a.balance - self.amount) as u64,
        }
    }

    /// Applies the withdrawal: validates it, then writes the new balance
    /// and counter into the tree and returns the witness snapshot of the
    /// transition, with path and index bits captured before the mutation.
    /// Validation happens strictly before any mutation: a rejected request
    /// leaves the tree untouched.
    pub fn update_tree_and_record_state(
        &self,
        tree: &mut AccountsTree,
        hash_params: &Bn256PoseidonParams,
    ) -> (r: Result<AccountState, ApplyError>)
        requires
            poseidon_wf(*hash_params),
            old(tree).well_formed(),
        ensures
            final(tree).well_formed(),
            final(tree).depth == old(tree).depth,
            r is Ok <==> self.applies_to(*old(tree)),
            !self.applies_to(*old(tree)) ==> {
                &&& final(tree).accounts@ == old(tree).accounts@
                &&& r == Err::<AccountState, ApplyError>(self.apply_error(*old(tree)))
            },
            self.applies_to(*old(tree)) ==> {
                &&& final(tree).accounts@ == old(tree).accounts@.update(
                    self.account_id as int,
                    self.applied_account(*old(tree)),
                )
                &&& r->Ok_0 is Witness
                &&& {
                    let a = old(tree).accounts@[self.account_id as int];
                    let s = r->Ok_0->Witness_0;
                    &&& s.old_balance == a.balance
                    &&& s.new_balance == a.balance - self.amount
                    &&& s.old_pubkey_x == a.pubkey_x
                    &&& s.old_pubkey_y == a.pubkey_y
                    &&& s.new_pubkey_x == a.pubkey_x
                    &&& s.new_pubkey_y == a.pubkey_y
                    &&& s.old_nonce == a.nonce
                    &&& s.new_nonce == self.nonce as u64
                    &&& s.account_path@ == path_spec(
                        *hash_params,
                        old(tree).accounts@,
                        self.account_id as nat,
                    )
                    &&& s.account_indices@ == bits_of(
                        self.account_id as nat,
                        old(tree).depth as nat,
                    )
                }
            },
    {
        if self.account_id >= tree.accounts.len() {
            return Err(ApplyError::AccountOutOfRange);
        }
        let old_balance = tree.accounts[self.account_id].balance;
        let amount: u64 = self.amount as u64;
        if amount > old_balance {
            return Err(ApplyError::InsufficientBalance);
        }
        let new_balance = old_balance - amount;

        let pubkey_x = tree.accounts[self.account_id].pubkey_x;
        let pubkey_y = tree.accounts[self.account_id].pubkey_y;
        let old_nonce = tree.accounts[self.account_id].nonce;
        if self.nonce < 1 || old_nonce != self.nonce as u64 - 1 {
            return Err(ApplyError::NonceMismatch);
        }
        let new_nonce = self.nonce as u64;
        let account_path = tree.get_leaf_path(hash_params, self.account_id);
        let account_indices = tree.get_leaf_indices(self.account_id);

        tree.update_balance(self.account_id, new_balance);
        tree.update_account(self.account_id, pubkey_x, pubkey_y, new_nonce);
        proof {
            assert(tree.accounts@ =~= old(tree).accounts@.update(
                self.account_id as int,
                self.applied_account(*old(tree)),
            ));
        }

        Ok(
            AccountState::Witness(
                AccountSnapshot {
                    old_balance,
                    new_balance,
                    old_pubkey_x: pubkey_x,
                    old_pubkey_y: pubkey_y,
                    new_pubkey_x: pubkey_x,
                    new_pubkey_y: pubkey_y,
                    old_nonce,
                    new_nonce,
                    account_path,
                    account_indices,
                },
            ),
        )
    }
}

/// Law: a request signed with a secret key passes verification against that
/// key's own public counterpart.
pub proof fn lemma_sign_then_verify(
    w: OffchainWithdrawal,
    sk: SpendingKey,
    pk: VerifyingKey,
    hash_params: Bn256PoseidonParams,
    sign_params: AltJubjubBn256,
)
    requires
        w.sign is Some,
        w.signature_valid(public_of(sk, sign_params), hash_params, sign_params),
        pk == public_of(sk, sign_params),
    ensures
        w.signature_valid(pk, hash_params, sign_params),
{
}

/// Law: the witness snapshot a successful apply returns authenticates the
/// mutated leaf against both the pre-mutation and the post-mutation root:
/// the old leaf content under the captured path and bits recomputes the old
/// root, and the new content recomputes the new root.
pub proof fn lemma_snapshot_authenticates(
    w: OffchainWithdrawal,
    t0: AccountsTree,
    t1: AccountsTree,
    s: AccountSnapshot,
    hash_params: Bn256PoseidonParams,
)
    requires
        t0.well_formed(),
        w.applies_to(t0),
        t1.depth == t0.depth,
        t1.accounts@ == t0.accounts@.update(w.account_id as int, w.applied_account(t0)),
        s.account_path@ == path_spec(hash_params, t0.accounts@, w.account_id as nat),
        s.account_indices@ == bits_of(w.account_id as nat, t0.depth as nat),
        s.old_account() == t0.accounts@[w.account_id as int],
        s.new_account() == w.applied_account(t0),
    ensures
        root_from_path(
            hash_params,
            leaf_hash_spec(hash_params, s.old_account()),
            s.account_path@,
            s.account_indices@,
        ) == t0.root_spec(hash_params),
        root_from_path(
            hash_params,
            leaf_hash_spec(hash_params, s.new_account()),
            s.account_path@,
            s.account_indices@,
        ) == t1.root_spec(hash_params),
{
    lemma_path_authenticates(
        hash_params,
        t0.accounts@,
        w.account_id as nat,
        t0.depth as nat,
    );
    lemma_path_stable_under_update(
        hash_params,
        t0.accounts@,
        w.account_id as nat,
        t0.depth as nat,
        w.applied_account(t0),
    );
    lemma_path_authenticates(
        hash_params,
        t1.accounts@,
        w.account_id as nat,
        t1.depth as nat,
    );
}

/// Law: a withdrawal's nonce is single-use. Once it has applied, the same
/// request no longer applies; and whenever the remaining balance still
/// covers the amount, the violation it reports is the nonce precondition.
pub proof fn lemma_replay_rejected(w: OffchainWithdrawal, t0: AccountsTree, t1: AccountsTree)
    requires
        w.applies_to(t0),
        t1.depth == t0.depth,
        t1.accounts@ == t0.accounts@.update(w.account_id as int, w.applied_account(t0)),
    ensures
        !w.applies_to(t1),
        w.amount <= t1.accounts@[w.account_id as int].balance ==> w.apply_error(t1)
            == ApplyError::NonceMismatch,
{
}

} // verus!
