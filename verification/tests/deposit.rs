use pairing_ce::bn256::Bn256;
use pairing_ce::bn256::Fr;
use pairing_ce::bn256::FrRepr;
use pairing_ce::ff::PrimeField;
use sapling_crypto_ce::poseidon::bn256::Bn256PoseidonParams;
use sapling_crypto_ce::poseidon::poseidon_hash;

use rollup_circuits::account::AccountSnapshot;
use rollup_circuits::account::AccountState;
use rollup_circuits::deposit_circuit::CircuitError;
use rollup_circuits::deposit_circuit::DepositBatchCircuit;
use rollup_circuits::deposit_circuit::DepositCircuit;
use rollup_circuits::tree::AccountsTree;

fn fr(x: u64) -> Fr {
    Fr::from_repr(FrRepr::from(x)).unwrap()
}

fn hash_params() -> Bn256PoseidonParams {
    rollup_circuits::primitives::poseidon_params()
}

/// Applies one deposit to the tree as the operator would, and returns the
/// circuit step describing it.
fn make_deposit(
    tree: &mut AccountsTree,
    params: &Bn256PoseidonParams,
    account_id: usize,
    amount: u64,
) -> DepositCircuit {
    let a = &tree.accounts[account_id];
    let (px, py, nonce, old_balance) = (a.pubkey_x, a.pubkey_y, a.nonce, a.balance);
    let snapshot = AccountSnapshot {
        old_balance,
        new_balance: old_balance + amount,
        old_pubkey_x: px,
        old_pubkey_y: py,
        new_pubkey_x: px,
        new_pubkey_y: py,
        old_nonce: nonce,
        new_nonce: nonce,
        account_path: tree.get_leaf_path(params, account_id),
        account_indices: tree.get_leaf_indices(account_id),
    };
    tree.update_balance(account_id, old_balance + amount);
    DepositCircuit {
        account_state: AccountState::Witness(snapshot),
        pubkey_x: Some(px),
        pubkey_y: Some(py),
        account_id: Some(account_id as u64),
        amount: Some(amount),
    }
}

#[test]
fn deposit_step_consistent_witness() {
    let params = hash_params();
    let mut tree = AccountsTree::new(2);
    tree.update_account(2, fr(7), fr(8), 5);
    tree.update_balance(2, 10);

    let old_root = tree.root(&params);
    let old_hash = fr(0);
    let deposit = make_deposit(&mut tree, &params, 2, 15);
    let new_root_expected = tree.root(&params);

    let (new_hash, new_root) = deposit.process_deposit(2, &params, &old_hash, &old_root).unwrap();
    assert_eq!(new_root, new_root_expected);
    let direct = poseidon_hash::<Bn256>(&params, &[old_hash, fr(7), fr(8), fr(2), fr(15)])[0];
    assert_eq!(new_hash, direct);
    assert_eq!(tree.accounts[2].balance, 25);
}

#[test]
fn zero_amount_deposit_still_chains() {
    let params = hash_params();
    let mut tree = AccountsTree::new(2);
    tree.update_account(1, fr(7), fr(8), 5);
    tree.update_balance(1, 10);

    let old_root = tree.root(&params);
    let old_hash = fr(3);
    let deposit = make_deposit(&mut tree, &params, 1, 0);

    // the balance is unchanged, so the root is the one the tree still has
    let (new_hash, new_root) = deposit.process_deposit(2, &params, &old_hash, &old_root).unwrap();
    assert_eq!(new_root, tree.root(&params));
    assert_eq!(tree.accounts[1].balance, 10);
    // but the accumulator hash still moves: id and key enter the digest
    assert_ne!(new_hash, old_hash);
}

#[test]
fn deposit_step_failures() {
    let params = hash_params();
    let mut tree = AccountsTree::new(2);
    tree.update_account(2, fr(7), fr(8), 5);
    tree.update_balance(2, 10);
    let old_root = tree.root(&params);
    let old_hash = fr(0);
    let good = make_deposit(&mut tree, &params, 2, 15);

    // key-setup mode has no witness to check
    let setup = DepositCircuit {
        account_state: AccountState::SetupOnly,
        pubkey_x: None,
        pubkey_y: None,
        account_id: None,
        amount: None,
    };
    assert!(matches!(
        setup.process_deposit(2, &params, &old_hash, &old_root),
        Err(CircuitError::AssignmentMissing)
    ));

    // a deposit must not touch the nonce
    let mut bad = good.clone();
    if let AccountState::Witness(s) = &mut bad.account_state {
        s.new_nonce = s.old_nonce + 1;
    }
    assert!(matches!(
        bad.process_deposit(2, &params, &old_hash, &old_root),
        Err(CircuitError::Unsatisfiable)
    ));

    // the claimed key must match the stored one
    let mut bad = good.clone();
    bad.pubkey_x = Some(fr(9));
    assert!(matches!(
        bad.process_deposit(2, &params, &old_hash, &old_root),
        Err(CircuitError::Unsatisfiable)
    ));

    // the claimed id must address the witnessed leaf
    let mut bad = good.clone();
    bad.account_id = Some(1);
    assert!(matches!(
        bad.process_deposit(2, &params, &old_hash, &old_root),
        Err(CircuitError::Unsatisfiable)
    ));

    // the witness must authenticate the claimed old root
    assert!(matches!(
        good.process_deposit(2, &params, &old_hash, &fr(1)),
        Err(CircuitError::Unsatisfiable)
    ));

    // the balance relation must hold exactly
    let mut bad = good.clone();
    bad.amount = Some(16);
    assert!(matches!(
        bad.process_deposit(2, &params, &old_hash, &old_root),
        Err(CircuitError::Unsatisfiable)
    ));
}

#[test]
fn batch_folds_and_checks_endpoints() {
    let params = hash_params();
    let mut tree = AccountsTree::new(2);
    tree.update_account(0, fr(7), fr(8), 1);
    tree.update_account(3, fr(9), fr(10), 2);

    let old_hash = fr(0);
    let old_root = tree.root(&params);
    let d0 = make_deposit(&mut tree, &params, 0, 5);
    let d1 = make_deposit(&mut tree, &params, 3, 11);

    // fold the two steps to learn the true endpoints
    let (h1, r1) = d0.process_deposit(2, &params, &old_hash, &old_root).unwrap();
    let (h2, r2) = d1.process_deposit(2, &params, &h1, &r1).unwrap();
    assert_eq!(r2, tree.root(&params));

    let batch = DepositBatchCircuit {
        deposit_batch: 2,
        account_depth: 2,
        deposit_queue: vec![d0.clone(), d1.clone()],
        old_accum_hash: Some(old_hash),
        new_accum_hash: Some(h2),
        old_account_root: Some(old_root),
        new_account_root: Some(r2),
    };
    assert!(batch.synthesize(&params).is_ok());

    // a declared endpoint that the fold does not reach is unsatisfiable
    let mut wrong = batch.clone();
    wrong.new_accum_hash = Some(old_hash);
    assert!(matches!(wrong.synthesize(&params), Err(CircuitError::Unsatisfiable)));

    // changing one amount without updating the declared hash breaks the batch
    let mut tampered = batch.clone();
    let mut d0_tampered = d0.clone();
    d0_tampered.amount = Some(6);
    if let AccountState::Witness(s) = &mut d0_tampered.account_state {
        s.new_balance = s.old_balance + 6;
    }
    tampered.deposit_queue = vec![d0_tampered, d1.clone()];
    assert!(matches!(tampered.synthesize(&params), Err(CircuitError::Unsatisfiable)));

    // a missing public input is the distinct assignment-missing failure
    let mut missing = batch.clone();
    missing.new_account_root = None;
    assert!(matches!(missing.synthesize(&params), Err(CircuitError::AssignmentMissing)));
}

#[test]
fn reorder_changes_accumulator() {
    let params = hash_params();
    let old_hash = fr(0);

    // first order: the deposit on account 0, then the one on account 3
    let mut tree_a = AccountsTree::new(2);
    tree_a.update_account(0, fr(7), fr(8), 1);
    tree_a.update_account(3, fr(9), fr(10), 2);
    let root_a = tree_a.root(&params);
    let a0 = make_deposit(&mut tree_a, &params, 0, 5);
    let a1 = make_deposit(&mut tree_a, &params, 3, 11);
    let (ha1, ra1) = a0.process_deposit(2, &params, &old_hash, &root_a).unwrap();
    let (ha2, _) = a1.process_deposit(2, &params, &ha1, &ra1).unwrap();

    // second order: the same two deposits, swapped
    let mut tree_b = AccountsTree::new(2);
    tree_b.update_account(0, fr(7), fr(8), 1);
    tree_b.update_account(3, fr(9), fr(10), 2);
    let root_b = tree_b.root(&params);
    let b0 = make_deposit(&mut tree_b, &params, 3, 11);
    let b1 = make_deposit(&mut tree_b, &params, 0, 5);
    let (hb1, rb1) = b0.process_deposit(2, &params, &old_hash, &root_b).unwrap();
    let (hb2, _) = b1.process_deposit(2, &params, &hb1, &rb1).unwrap();

    // same multiset of operations, same final tree, different accumulator
    assert_eq!(tree_a.root(&params), tree_b.root(&params));
    assert_ne!(ha2, hb2);
}

#[test]
fn empty_batch_pins_equal_endpoints() {
    let params = hash_params();
    let tree = AccountsTree::new(2);
    let root = tree.root(&params);
    let batch = DepositBatchCircuit {
        deposit_batch: 0,
        account_depth: 2,
        deposit_queue: Vec::new(),
        old_accum_hash: Some(fr(4)),
        new_accum_hash: Some(fr(4)),
        old_account_root: Some(root),
        new_account_root: Some(root),
    };
    assert!(batch.synthesize(&params).is_ok());

    let mut moved = batch.clone();
    moved.new_accum_hash = Some(fr(5));
    assert!(matches!(moved.synthesize(&params), Err(CircuitError::Unsatisfiable)));
}
