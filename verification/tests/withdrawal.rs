use pairing_ce::bn256::Bn256;
use pairing_ce::bn256::Fr;
use pairing_ce::bn256::FrRepr;
use pairing_ce::ff::PrimeField;
use sapling_crypto_ce::alt_babyjubjub::AltJubjubBn256;
use sapling_crypto_ce::poseidon::bn256::Bn256PoseidonParams;
use sapling_crypto_ce::poseidon::poseidon_hash;

use rollup_circuits::offchain_withdrawal::ApplyError;
use rollup_circuits::offchain_withdrawal::OffchainWithdrawal;
use rollup_circuits::primitives::generate_keypair;
use rollup_circuits::tree::AccountsTree;

fn fr(x: u64) -> Fr {
    Fr::from_repr(FrRepr::from(x)).unwrap()
}

fn hash_params() -> Bn256PoseidonParams {
    rollup_circuits::primitives::poseidon_params()
}

#[test]
fn hash_matches_direct_poseidon() {
    let params = hash_params();
    let w = OffchainWithdrawal { account_id: 5, amount: 40, nonce: 4, sign: None };
    let direct = poseidon_hash::<Bn256>(&params, &[fr(5), fr(40), fr(4)])[0];
    assert_eq!(w.hash(&params), direct);
    // the digest is deterministic
    assert_eq!(w.hash(&params), w.hash(&params));
    // and sensitive to every field
    let other = OffchainWithdrawal { account_id: 5, amount: 41, nonce: 4, sign: None };
    assert_ne!(w.hash(&params), other.hash(&params));
}

#[test]
fn sign_then_verify_roundtrip() {
    let params = hash_params();
    let sign_params = AltJubjubBn256::new();
    let (sk, pk) = generate_keypair(&sign_params);
    let mut w = OffchainWithdrawal { account_id: 5, amount: 40, nonce: 4, sign: None };
    w.sign(&sk, &params, &sign_params);
    assert!(w.sign.is_some());
    assert!(w.verify_signature(&pk, &params, &sign_params));

    // tampering with any single field after signing must break verification
    let mut tampered = w.clone();
    tampered.amount = 41;
    assert!(!tampered.verify_signature(&pk, &params, &sign_params));
    let mut tampered = w.clone();
    tampered.nonce = 5;
    assert!(!tampered.verify_signature(&pk, &params, &sign_params));
    let mut tampered = w.clone();
    tampered.account_id = 6;
    assert!(!tampered.verify_signature(&pk, &params, &sign_params));

    // a key pair that does not match the signer must be rejected
    let (_, other_pk) = generate_keypair(&sign_params);
    assert!(!w.verify_signature(&other_pk, &params, &sign_params));
}

#[test]
fn withdrawal_scenario_account_five() {
    let params = hash_params();
    let sign_params = AltJubjubBn256::new();
    let (sk, pk) = generate_keypair(&sign_params);

    // account 5 has balance 100, nonce 3
    let mut tree = AccountsTree::new(3);
    tree.update_account(5, fr(7), fr(8), 3);
    tree.update_balance(5, 100);

    let mut w = OffchainWithdrawal { account_id: 5, amount: 40, nonce: 4, sign: None };
    w.sign(&sk, &params, &sign_params);
    assert!(w.verify_signature(&pk, &params, &sign_params));

    let state = w.update_tree_and_record_state(&mut tree, &params).unwrap();
    match state {
        rollup_circuits::account::AccountState::Witness(s) => {
            assert_eq!(s.old_balance, 100);
            assert_eq!(s.new_balance, 60);
            assert_eq!(s.old_nonce, 3);
            assert_eq!(s.new_nonce, 4);
            assert_eq!(s.old_pubkey_x, fr(7));
            assert_eq!(s.new_pubkey_x, fr(7));
            assert_eq!(s.account_path.len(), 3);
            assert_eq!(s.account_indices, vec![true, false, true]);
        },
        _ => panic!("expected a witness snapshot"),
    }
    assert_eq!(tree.accounts[5].balance, 60);
    assert_eq!(tree.accounts[5].nonce, 4);

    // replaying the identical request must fail the nonce precondition
    let replay = w.update_tree_and_record_state(&mut tree, &params);
    assert!(matches!(replay, Err(ApplyError::NonceMismatch)));
    assert_eq!(tree.accounts[5].balance, 60);
}

#[test]
fn root_changes_when_amount_nonzero() {
    let params = hash_params();
    let mut tree = AccountsTree::new(3);
    tree.update_account(5, fr(7), fr(8), 3);
    tree.update_balance(5, 100);
    let root_before = tree.root(&params);

    let w = OffchainWithdrawal { account_id: 5, amount: 40, nonce: 4, sign: None };
    w.update_tree_and_record_state(&mut tree, &params).unwrap();
    let root_after = tree.root(&params);
    assert_ne!(root_before, root_after);
}

#[test]
fn apply_rejections() {
    let params = hash_params();
    let mut tree = AccountsTree::new(2);
    tree.update_account(1, fr(7), fr(8), 3);
    tree.update_balance(1, 10);
    let root_before = tree.root(&params);

    let out_of_range = OffchainWithdrawal { account_id: 4, amount: 1, nonce: 4, sign: None };
    assert!(matches!(
        out_of_range.update_tree_and_record_state(&mut tree, &params),
        Err(ApplyError::AccountOutOfRange)
    ));

    let too_much = OffchainWithdrawal { account_id: 1, amount: 11, nonce: 4, sign: None };
    assert!(matches!(
        too_much.update_tree_and_record_state(&mut tree, &params),
        Err(ApplyError::InsufficientBalance)
    ));

    let wrong_nonce = OffchainWithdrawal { account_id: 1, amount: 1, nonce: 7, sign: None };
    assert!(matches!(
        wrong_nonce.update_tree_and_record_state(&mut tree, &params),
        Err(ApplyError::NonceMismatch)
    ));

    let zero_nonce = OffchainWithdrawal { account_id: 1, amount: 1, nonce: 0, sign: None };
    assert!(matches!(
        zero_nonce.update_tree_and_record_state(&mut tree, &params),
        Err(ApplyError::NonceMismatch)
    ));

    // a rejected request leaves the tree untouched
    assert_eq!(tree.root(&params), root_before);
}
