//! The deposit step and the batched deposit circuit: the constraint
//! relations one deposit must satisfy against the claimed running
//! accumulator hash and account root, and the fold that chains many steps
//! into one provable unit whose boundary values are the four public inputs.

use vstd::prelude::*;

use vstd::arithmetic::power2::lemma2_to64;
use vstd::arithmetic::power2::lemma2_to64_rest;
use vstd::arithmetic::power2::lemma_pow2_strictly_increases;
use vstd::arithmetic::power2::lemma_pow2_unfold;
use vstd::arithmetic::power2::pow2;

use pairing_ce::bn256::Fr;
use sapling_crypto_ce::poseidon::bn256::Bn256PoseidonParams;

use crate::account::leaf_hash;
use crate::account::leaf_hash_spec;
use crate::account::Account;
use crate::account::AccountState;
use crate::merkle::bits_of;
use crate::merkle::compute_root_from_path;
use crate::merkle::leaf_index_bits;
use crate::merkle::root_from_path;
use crate::primitives::fr_eq;
use crate::primitives::fr_from_u64;
use crate::primitives::fr_of;
use crate::primitives::poseidon_digest;
use crate::primitives::poseidon_of;
use crate::primitives::poseidon_wf;

verus! {

/// Synthesis-time failures: a required witness absent in a mode that needs
/// one, or a constraint no assignment satisfies.
#[derive(Clone, Copy, PartialEq, Eq, Debug)]
pub enum CircuitError {
    AssignmentMissing,
    Unsatisfiable,
}

/// One deposit step: the witness snapshot of the mutated leaf plus the
/// claimed public values of the deposit.
#[derive(Clone)]
pub struct DepositCircuit {
    pub account_state: AccountState,
    pub pubkey_x: Option<Fr>,
    pub pubkey_y: Option<Fr>,
    pub account_id: Option<u64>,
    pub amount: Option<u64>,
}

impl DepositCircuit {
    /// All the witness data a proving-mode synthesis needs.
    pub open spec fn witness_complete(self) -> bool {
        &&& self.account_state is Witness
        &&& self.pubkey_x is Some
        &&& self.pubkey_y is Some
        &&& self.account_id is Some
        &&& self.amount is Some
    }

    /// The constraints of one deposit step, as relations over the witness:
    /// the claimed key equals the new leaf's key slots; the claimed id
    /// decomposes exactly into the leaf's index bits; the amount enters the
    /// balance; the counter is untouched; and the witnessed old leaf
    /// authenticates against the claimed old root under the witnessed path.
    pub open spec fn constraints_hold(
        self,
        account_depth: nat,
        params: Bn256PoseidonParams,
        old_root: Fr,
    ) -> bool {
        let s = self.account_state->Witness_0;
        &&& s.account_path@.len() == account_depth
        &&& s.account_indices@.len() == account_depth
        &&& self.pubkey_x.unwrap() == s.new_pubkey_x
        &&& self.pubkey_y.unwrap() == s.new_pubkey_y
        &&& (self.account_id.unwrap() as nat) < pow2(account_depth)
        &&& bits_of(self.account_id.unwrap() as nat, account_depth) == s.account_indices@
        &&& s.old_balance + self.amount.unwrap() == s.new_balance
        &&& s.old_nonce == s.new_nonce
        &&& root_from_path(
            params,
            leaf_hash_spec(params, s.old_account()),
            s.account_path@,
            s.account_indices@,
        ) == old_root
    }

    /// The running accumulator digest this step chains onto the previous
    /// one: order-sensitive, and fed by the claimed key, id and amount.
    pub open spec fn chained_hash(self, params: Bn256PoseidonParams, old_hash: Fr) -> Fr {
        poseidon_of(
            params,
            seq![
                old_hash,
                self.pubkey_x.unwrap(),
                self.pubkey_y.unwrap(),
                fr_of(self.account_id.unwrap()),
                fr_of(self.amount.unwrap()),
            ],
        )[0]
    }

    /// The root this step hands on: the witnessed new leaf under the same
    /// path and index bits.
    pub open spec fn new_root_spec(self, params: Bn256PoseidonParams) -> Fr {
        let s = self.account_state->Witness_0;
        root_from_path(
            params,
            leaf_hash_spec(params, s.new_account()),
            s.account_path@,
            s.account_indices@,
        )
    }

    /// Evaluates one deposit step against the running `(hash, root)` pair:
    /// checks every constraint of the step against the witness and, when
    /// all hold, hands back the chained accumulator digest and the new
    /// root. A missing witness is the distinct assignment-missing failure;
    /// a violated constraint means no satisfying assignment exists.
    #[verifier::loop_isolation(false)]
    pub fn process_deposit(
        &self,
        account_depth: usize,
        hash_params: &Bn256PoseidonParams,
        old_hash: &Fr,
        old_root: &Fr,
    ) -> (r: Result<(Fr, Fr), CircuitError>)
        requires
            poseidon_wf(*hash_params),
        ensures
            r is Ok <==> self.witness_complete() && self.constraints_hold(
                account_depth as nat,
                *hash_params,
                *old_root,
            ),
            !self.witness_complete() ==> r == Err::<(Fr, Fr), CircuitError>(
                CircuitError::AssignmentMissing,
            ),
            self.witness_complete() && !self.constraints_hold(
                account_depth as nat,
                *hash_params,
                *old_root,
            ) ==> r == Err::<(Fr, Fr), CircuitError>(CircuitError::Unsatisfiable),
            r is Ok ==> r->Ok_0.0 == self.chained_hash(*hash_params, *old_hash),
            r is Ok ==> r->Ok_0.1 == self.new_root_spec(*hash_params),
    {
        let s = match &self.account_state {
            AccountState::Witness(s) => s,
            AccountState::SetupOnly => {
                return Err(CircuitError::AssignmentMissing);
            },
        };
        let px = match &self.pubkey_x {
            Some(x) => *x,
            None => {
                return Err(CircuitError::AssignmentMissing);
            },
        };
        let py = match &self.pubkey_y {
            Some(y) => *y,
            None => {
                return Err(CircuitError::AssignmentMissing);
            },
        };
        let id = match self.account_id {
            Some(i) => i,
            None => {
                return Err(CircuitError::AssignmentMissing);
            },
        };
        let amount = match self.amount {
            Some(a) => a,
            None => {
                return Err(CircuitError::AssignmentMissing);
            },
        };

        if s.account_path.len() != account_depth || s.account_indices.len() != account_depth {
            return Err(CircuitError::Unsatisfiable);
        }

        // claimed key against the new leaf's key slots
        if !fr_eq(&px, &s.new_pubkey_x) || !fr_eq(&py, &s.new_pubkey_y) {
            return Err(CircuitError::Unsatisfiable);
        }

        // the claimed id must address exactly the witnessed leaf position
        if account_depth < 64 {
            let bound = pow2_u64(account_depth);
            if id >= bound {
                return Err(CircuitError::Unsatisfiable);
            }
        } else {
            proof {
                lemma2_to64();
                if 64 < account_depth as nat {
                    lemma_pow2_strictly_increases(64, account_depth as nat);
                }
            }
        }
        let bits = leaf_index_bits(id, account_depth);
        let mut k: usize = 0;
        while k < account_depth
            invariant
                k <= account_depth,
                bits@ == bits_of(id as nat, account_depth as nat),
                s.account_indices@.len() == account_depth,
                bits@.len() == account_depth,
                forall|j: int| 0 <= j < k ==> bits@[j] == s.account_indices@[j],
            decreases account_depth - k,
        {
            if bits[k] != s.account_indices[k] {
                proof {
                    assert(bits_of(id as nat, account_depth as nat)[k as int]
                        != s.account_indices@[k as int]);
                }
                return Err(CircuitError::Unsatisfiable);
            }
            k = k + 1;
        }
        proof {
            assert(bits_of(id as nat, account_depth as nat) =~= s.account_indices@);
        }

        // balance relation and nonce invariance
        if amount > u64::MAX - s.old_balance {
            return Err(CircuitError::Unsatisfiable);
        }
        if s.old_balance + amount != s.new_balance {
            return Err(CircuitError::Unsatisfiable);
        }
        if s.old_nonce != s.new_nonce {
            return Err(CircuitError::Unsatisfiable);
        }

        // the witnessed old leaf must authenticate the claimed old root
        let old_account = Account {
            pubkey_x: s.old_pubkey_x,
            pubkey_y: s.old_pubkey_y,
            nonce: s.old_nonce,
            balance: s.old_balance,
        };
        let old_leaf = leaf_hash(hash_params, &old_account);
        let computed_old_root = compute_root_from_path(
            hash_params,
            &old_leaf,
            &s.account_path,
            &s.account_indices,
        );
        if !fr_eq(&computed_old_root, old_root) {
            return Err(CircuitError::Unsatisfiable);
        }

        // chain the running accumulator digest
        let mut input: Vec<Fr> = Vec::new();
        input.push(*old_hash);
        input.push(px);
        input.push(py);
        input.push(fr_from_u64(id));
        input.push(fr_from_u64(amount));
        proof {
            assert(input@ =~= seq![*old_hash, px, py, fr_of(id), fr_of(amount)]);
        }
        let new_hash = poseidon_digest(hash_params, &input);

        // the new root under the same path and bits
        let new_account = Account {
            pubkey_x: s.new_pubkey_x,
            pubkey_y: s.new_pubkey_y,
            nonce: s.new_nonce,
            balance: s.new_balance,
        };
        let new_leaf = leaf_hash(hash_params, &new_account);
        let new_root = compute_root_from_path(
            hash_params,
            &new_leaf,
            &s.account_path,
            &s.account_indices,
        );

        Ok((new_hash, new_root))
    }
}

/// Computes a power of two that fits a 64-bit word.
fn pow2_u64(e: usize) -> (r: u64)
    requires
        e < 64,
    ensures
        r == pow2(e as nat),
{
    proof {
        lemma2_to64();
        lemma2_to64_rest();
        if (e as nat) < 63 {
            lemma_pow2_strictly_increases(e as nat, 63);
        }
    }
    let mut r: u64 = 1;
    let mut k: usize = 0;
    while k < e
        invariant
            k <= e,
            e < 64,
            r == pow2(k as nat),
            pow2(e as nat) <= 0x8000000000000000,
        decreases e - k,
    {
        proof {
            lemma_pow2_unfold((k + 1) as nat);
            if ((k + 1) as nat) < (e as nat) {
                lemma_pow2_strictly_increases((k + 1) as nat, e as nat);
            }
        }
        r = r * 2;
        k = k + 1;
    }
    r
}

/// Folds the deposit steps: from a running `(hash, root)` pair, the pair
/// after all steps, or nothing when some step's constraints fail along the
/// way.
pub open spec fn chain_from(
    queue: Seq<DepositCircuit>,
    account_depth: nat,
    params: Bn256PoseidonParams,
    h: Fr,
    rt: Fr,
) -> Option<(Fr, Fr)>
    decreases queue.len(),
{
    if queue.len() == 0 {
        Some((h, rt))
    } else {
        let d = queue[0];
        if d.witness_complete() && d.constraints_hold(account_depth, params, rt) {
            chain_from(
                queue.skip(1),
                account_depth,
                params,
                d.chained_hash(params, h),
                d.new_root_spec(params),
            )
        } else {
            None
        }
    }
}

/// The first failure along the fold, when there is one: a missing witness
/// before a violated constraint, step by step in queue order.
pub open spec fn first_chain_error(
    queue: Seq<DepositCircuit>,
    account_depth: nat,
    params: Bn256PoseidonParams,
    h: Fr,
    rt: Fr,
) -> Option<CircuitError>
    decreases queue.len(),
{
    if queue.len() == 0 {
        None
    } else {
        let d = queue[0];
        if !d.witness_complete() {
            Some(CircuitError::AssignmentMissing)
        } else if !d.constraints_hold(account_depth, params, rt) {
            Some(CircuitError::Unsatisfiable)
        } else {
            first_chain_error(
                queue.skip(1),
                account_depth,
                params,
                d.chained_hash(params, h),
                d.new_root_spec(params),
            )
        }
    }
}

/// A fixed-length ordered sequence of deposit steps plus the batch's four
/// boundary public inputs: old and new accumulator hash, old and new
/// account root.
#[derive(Clone)]
pub struct DepositBatchCircuit {
    pub deposit_batch: usize,
    pub account_depth: usize,
    pub deposit_queue: Vec<DepositCircuit>,
    pub old_accum_hash: Option<Fr>,
    pub new_accum_hash: Option<Fr>,
    pub old_account_root: Option<Fr>,
    pub new_account_root: Option<Fr>,
}

impl DepositBatchCircuit {
    /// All four boundary public inputs present.
    pub open spec fn inputs_present(self) -> bool {
        &&& self.old_accum_hash is Some
        &&& self.new_accum_hash is Some
        &&& self.old_account_root is Some
        &&& self.new_account_root is Some
    }

    /// The batch is satisfiable exactly when every step's constraints hold
    /// along the fold and the fold's final pair equals the declared new
    /// boundary values.
    pub open spec fn satisfiable(self, params: Bn256PoseidonParams) -> bool {
        &&& self.inputs_present()
        &&& chain_from(
            self.deposit_queue@,
            self.account_depth as nat,
            params,
            self.old_accum_hash.unwrap(),
            self.old_account_root.unwrap(),
        ) == Some((self.new_accum_hash.unwrap(), self.new_account_root.unwrap()))
    }

    /// Sequences the whole batch: allocates the boundary values, folds the
    /// steps in queue order, each step fed the previous step's pair, and
    /// finally holds the fold's endpoints to the declared new hash and
    /// root. Succeeds exactly on satisfiable batches; the first failure in
    /// order decides the error.
    #[verifier::loop_isolation(false)]
    pub fn synthesize(&self, hash_params: &Bn256PoseidonParams) -> (r: Result<(), CircuitError>)
        requires
            poseidon_wf(*hash_params),
            self.deposit_batch == self.deposit_queue@.len(),
        ensures
            r is Ok <==> self.satisfiable(*hash_params),
            !self.inputs_present() ==> r == Err::<(), CircuitError>(
                CircuitError::AssignmentMissing,
            ),
            self.inputs_present() ==> match first_chain_error(
                self.deposit_queue@,
                self.account_depth as nat,
                *hash_params,
                self.old_accum_hash.unwrap(),
                self.old_account_root.unwrap(),
            ) {
                Some(e) => r == Err::<(), CircuitError>(e),
                None => r is Ok || r == Err::<(), CircuitError>(CircuitError::Unsatisfiable),
            },
    {
        let prev_hash_init = match &self.old_accum_hash {
            Some(h) => *h,
            None => {
                return Err(CircuitError::AssignmentMissing);
            },
        };
        let new_hash = match &self.new_accum_hash {
            Some(h) => *h,
            None => {
                return Err(CircuitError::AssignmentMissing);
            },
        };
        let prev_root_init = match &self.old_account_root {
            Some(rt) => *rt,
            None => {
                return Err(CircuitError::AssignmentMissing);
            },
        };
        let new_root = match &self.new_account_root {
            Some(rt) => *rt,
            None => {
                return Err(CircuitError::AssignmentMissing);
            },
        };

        let ghost q = self.deposit_queue@;
        let ghost depth = self.account_depth as nat;
        let mut prev_hash = prev_hash_init;
        let mut prev_root = prev_root_init;
        let mut i: usize = 0;
        proof {
            assert(q.skip(0) =~= q);
        }
        while i < self.deposit_queue.len()
            invariant
                i <= q.len(),
                q == self.deposit_queue@,
                depth == self.account_depth as nat,
                chain_from(q, depth, *hash_params, prev_hash_init, prev_root_init) == chain_from(
                    q.skip(i as int),
                    depth,
                    *hash_params,
                    prev_hash,
                    prev_root,
                ),
                first_chain_error(q, depth, *hash_params, prev_hash_init, prev_root_init)
                    == first_chain_error(
                    q.skip(i as int),
                    depth,
                    *hash_params,
                    prev_hash,
                    prev_root,
                ),
            decreases q.len() - i,
        {
            let deposit = &self.deposit_queue[i];
            let step = deposit.process_deposit(
                self.account_depth,
                hash_params,
                &prev_hash,
                &prev_root,
            );
            proof {
                assert(q.skip(i as int)[0] == q[i as int]);
                assert(q.skip(i as int).skip(1) =~= q.skip(i as int + 1));
            }
            match step {
                Ok(pair) => {
                    prev_hash = pair.0;
                    prev_root = pair.1;
                },
                Err(e) => {
                    return Err(e);
                },
            }
            i = i + 1;
        }
        proof {
            assert(q.skip(q.len() as int) =~= Seq::<DepositCircuit>::empty());
        }

        if !fr_eq(&prev_hash, &new_hash) {
            return Err(CircuitError::Unsatisfiable);
        }
        if !fr_eq(&prev_root, &new_root) {
            return Err(CircuitError::Unsatisfiable);
        }

        Ok(())
    }
}

/// Law: a deposit step whose witness was captured from a tree — the old
/// leaf content, path and index bits taken at the claimed position — is
/// grounded in that tree: its old-root constraint holds exactly for the
/// tree's own root, and the new root it hands on is the root of the tree
/// with the leaf replaced by the witnessed new content.
pub proof fn lemma_deposit_root_tracks_tree(
    d: DepositCircuit,
    t: crate::tree::AccountsTree,
    params: Bn256PoseidonParams,
)
    requires
        t.well_formed(),
        d.witness_complete(),
        (d.account_id.unwrap() as nat) < pow2(t.depth as nat),
        d.account_state->Witness_0.account_path@ == crate::merkle::path_spec(
            params,
            t.accounts@,
            d.account_id.unwrap() as nat,
        ),
        d.account_state->Witness_0.account_indices@ == bits_of(
            d.account_id.unwrap() as nat,
            t.depth as nat,
        ),
        d.account_state->Witness_0.old_account() == t.accounts@[d.account_id.unwrap() as int],
    ensures
        root_from_path(
            params,
            leaf_hash_spec(params, d.account_state->Witness_0.old_account()),
            d.account_state->Witness_0.account_path@,
            d.account_state->Witness_0.account_indices@,
        ) == t.root_spec(params),
        d.new_root_spec(params) == crate::merkle::subtree_root_spec(
            params,
            t.accounts@.update(
                d.account_id.unwrap() as int,
                d.account_state->Witness_0.new_account(),
            ),
        ),
{
    let pos = d.account_id.unwrap() as nat;
    let s = d.account_state->Witness_0;
    crate::merkle::lemma_path_authenticates(params, t.accounts@, pos, t.depth as nat);
    crate::merkle::lemma_path_stable_under_update(
        params,
        t.accounts@,
        pos,
        t.depth as nat,
        s.new_account(),
    );
    crate::merkle::lemma_path_authenticates(
        params,
        t.accounts@.update(pos as int, s.new_account()),
        pos,
        t.depth as nat,
    );
}

/// Law: the degenerate zero-length batch is satisfiable exactly when the
/// declared new accumulator hash and root equal the old ones.
pub proof fn lemma_empty_batch(b: DepositBatchCircuit, params: Bn256PoseidonParams)
    requires
        b.inputs_present(),
        b.deposit_queue@.len() == 0,
    ensures
        b.satisfiable(params) <==> (b.new_accum_hash == b.old_accum_hash
            && b.new_account_root == b.old_account_root),
{
}

} // verus!
