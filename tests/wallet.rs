use ed25519_dalek::{Signer, SigningKey};
use nexus_svm::keys::Pubkey;
use nexus_svm::operation::{calculate_user_op_hash, UserOperation};
use nexus_svm::wallet::{
    add_guardian, apply_user_operation, approve_recovery, derive_unified_wallet_address, execute_user_operation,
    freeze_wallet, initialize_wallet, initiate_recovery, remove_guardian, unfreeze_wallet, PaymasterData,
    RecoveryProgress, Wallet, WalletError,
};

fn key(b: u8) -> Pubkey {
    Pubkey::new([b; 32])
}

fn signer(seed: u8) -> (SigningKey, Pubkey) {
    let sk = SigningKey::from_bytes(&[seed; 32]);
    let pk = Pubkey::new(sk.verifying_key().to_bytes());
    (sk, pk)
}

fn op(nonce: u64, max_fee_per_gas: u64) -> UserOperation {
    UserOperation {
        sender: key(1),
        nonce,
        init_code: vec![],
        call_data: vec![0xAA, 0xBB],
        call_gas_limit: 100_000,
        verification_gas_limit: 50_000,
        pre_verification_gas: 21_000,
        max_fee_per_gas,
        max_priority_fee_per_gas: 1,
        paymaster_and_data: vec![],
        signature: [0u8; 64],
    }
}

fn signed(sk: &SigningKey, mut o: UserOperation) -> UserOperation {
    let h = calculate_user_op_hash(&o);
    o.signature = sk.sign(&h).to_bytes();
    o
}

fn wallet_with_guardians(owner: Pubkey, n: u8) -> Wallet {
    let mut w = initialize_wallet(owner, [7u8; 32], 1_000, 0);
    for g in 0..n {
        add_guardian(&mut w, &owner, key(100 + g)).unwrap();
    }
    w
}

#[test]
fn user_op_hash_is_sha256_of_canonical_fields() {
    let o = op(5, 20);
    let expected: [u8; 32] = [
        174, 128, 232, 232, 123, 179, 78, 64, 125, 116, 56, 139, 54, 113, 108, 253, 250, 88, 208, 140, 215, 84, 211,
        25, 93, 235, 213, 86, 127, 14, 28, 250,
    ];
    assert_eq!(calculate_user_op_hash(&o), expected);
    let mut other = o.clone();
    other.verification_gas_limit = 1;
    other.paymaster_and_data = vec![1, 2, 3];
    other.signature = [9u8; 64];
    assert_eq!(calculate_user_op_hash(&other), expected);
    other.nonce = 6;
    assert_ne!(calculate_user_op_hash(&other), expected);
}

#[test]
fn nonce_advances_by_one_and_rejects_mismatch() {
    let (sk, owner) = signer(11);
    let mut w = initialize_wallet(owner, [7u8; 32], 1_000, 0);
    for n in 0..3u64 {
        assert_eq!(execute_user_operation(&mut w, &signed(&sk, op(n, 10)), &None, 10), Ok(()));
        assert_eq!(w.nonce, n + 1);
    }
    let stale = signed(&sk, op(1, 10));
    assert_eq!(execute_user_operation(&mut w, &stale, &None, 10), Err(WalletError::InvalidNonce));
    assert_eq!(w.nonce, 3);
    let ahead = signed(&sk, op(9, 10));
    assert_eq!(execute_user_operation(&mut w, &ahead, &None, 10), Err(WalletError::InvalidNonce));
    assert_eq!(w.nonce, 3);
}

#[test]
fn bad_signature_still_consumes_nonce() {
    let (_, owner) = signer(11);
    let (other_sk, _) = signer(12);
    let mut w = initialize_wallet(owner, [7u8; 32], 1_000, 0);
    let forged = signed(&other_sk, op(0, 10));
    assert_eq!(execute_user_operation(&mut w, &forged, &None, 10), Err(WalletError::InvalidSignature));
    assert_eq!(w.nonce, 1);
    assert_eq!(w.daily_spent, 10);
}

#[test]
fn daily_limit_resets_after_window() {
    let t0: i64 = 1_700_000_000;
    let mut w = initialize_wallet(key(2), [7u8; 32], 100, t0);
    w.daily_spent = 90;
    assert_eq!(apply_user_operation(&mut w, 0, 20, false, t0 + 1, true), Err(WalletError::DailyLimitExceeded));
    assert_eq!(w.daily_spent, 90);
    assert_eq!(w.nonce, 1);
    assert_eq!(apply_user_operation(&mut w, 1, 20, false, t0 + 86400, true), Ok(()));
    assert_eq!(w.daily_spent, 20);
    assert_eq!(w.last_reset, t0 + 86400);
}

#[test]
fn sponsored_operation_skips_daily_limit() {
    let (sk, owner) = signer(13);
    let mut w = initialize_wallet(owner, [7u8; 32], 5, 0);
    let pm = PaymasterData { paymaster: key(9), token_mint: None, max_cost: 50, signature: [0u8; 64] };
    assert_eq!(execute_user_operation(&mut w, &signed(&sk, op(0, 50)), &Some(pm), 1), Ok(()));
    assert_eq!(w.daily_spent, 0);
    assert_eq!(execute_user_operation(&mut w, &signed(&sk, op(1, 50)), &None, 1), Err(WalletError::DailyLimitExceeded));
}

#[test]
fn frozen_wallet_rejects_operations() {
    let (sk, owner) = signer(14);
    let mut w = wallet_with_guardians(owner, 1);
    assert_eq!(freeze_wallet(&mut w, &key(50)), Err(WalletError::UnauthorizedGuardian));
    assert_eq!(freeze_wallet(&mut w, &key(100)), Ok(()));
    assert_eq!(execute_user_operation(&mut w, &signed(&sk, op(0, 1)), &None, 1), Err(WalletError::WalletFrozen));
    assert_eq!(w.nonce, 0);
    assert_eq!(unfreeze_wallet(&mut w, &key(100)), Err(WalletError::NotOwner));
    assert_eq!(unfreeze_wallet(&mut w, &owner), Ok(()));
    assert_eq!(execute_user_operation(&mut w, &signed(&sk, op(0, 1)), &None, 1), Ok(()));
}

#[test]
fn guardian_set_rules() {
    let owner = key(3);
    let mut w = wallet_with_guardians(owner, 10);
    assert_eq!(add_guardian(&mut w, &owner, key(200)), Err(WalletError::TooManyGuardians));
    assert_eq!(add_guardian(&mut w, &key(4), key(200)), Err(WalletError::NotOwner));
    assert_eq!(remove_guardian(&mut w, &owner, key(100)), Ok(()));
    assert_eq!(w.guardians.len(), 9);
    assert_eq!(remove_guardian(&mut w, &owner, key(100)), Err(WalletError::GuardianNotFound));
    assert_eq!(add_guardian(&mut w, &owner, key(101)), Err(WalletError::GuardianAlreadyExists));
    assert_eq!(add_guardian(&mut w, &owner, key(100)), Ok(()));
}

#[test]
fn recovery_needs_majority_of_guardians() {
    let owner = key(3);
    let new_owner = key(4);
    let mut w = wallet_with_guardians(owner, 4);
    assert_eq!(initiate_recovery(&mut w, &key(100), new_owner, 5), Ok(()));
    assert_eq!(initiate_recovery(&mut w, &key(101), new_owner, 5), Err(WalletError::RecoveryInProgress));
    match approve_recovery(&mut w, &key(101)) {
        Ok(RecoveryProgress::Approved(a)) => {
            assert_eq!(a.approvals, 2);
            assert_eq!(a.required, 3);
        }
        other => panic!("unexpected {:?}", other),
    }
    assert_eq!(w.owner, owner);
    assert!(w.pending_recovery.is_some());
    assert_eq!(approve_recovery(&mut w, &key(101)).unwrap_err(), WalletError::AlreadyApproved);
    assert_eq!(approve_recovery(&mut w, &key(50)).unwrap_err(), WalletError::UnauthorizedGuardian);
    let nonce_before = w.nonce;
    match approve_recovery(&mut w, &key(102)) {
        Ok(RecoveryProgress::Completed(c)) => {
            assert_eq!(c.old_owner, owner);
            assert_eq!(c.new_owner, new_owner);
        }
        other => panic!("unexpected {:?}", other),
    }
    assert_eq!(w.owner, new_owner);
    assert!(w.pending_recovery.is_none());
    assert_eq!(w.nonce, nonce_before + 1);
    assert_eq!(approve_recovery(&mut w, &key(103)).unwrap_err(), WalletError::NoRecoveryInProgress);
}

#[test]
fn recovery_initiation_requires_guardian() {
    let mut w = wallet_with_guardians(key(3), 2);
    assert_eq!(initiate_recovery(&mut w, &key(9), key(4), 5), Err(WalletError::UnauthorizedGuardian));
    assert!(w.pending_recovery.is_none());
}

#[test]
fn unified_wallet_address_matches_program_derivation() {
    let owner = key(21);
    let recovery_hash = [8u8; 32];
    let (address, bump) = derive_unified_wallet_address(&owner, &recovery_hash).unwrap();
    let program_id: solana_program::pubkey::Pubkey = "G4vCcRCeB3rWpaTkkpsPWTf9Ar2a7qoWTJsWboztF6wS".parse().unwrap();
    let owner_key = solana_program::pubkey::Pubkey::new_from_array(owner.bytes);
    let (expected, expected_bump) =
        solana_program::pubkey::Pubkey::find_program_address(&[b"wallet", owner_key.as_ref(), &recovery_hash], &program_id);
    assert_eq!(address.bytes, expected.to_bytes());
    assert_eq!(bump, expected_bump);
    assert_ne!(address.bytes, owner.bytes);
}
