use ed25519_dalek::{Signer, SigningKey};
use nexus_svm::keys::Pubkey;
use nexus_svm::svm_account::{check_wallet_account_address, derive_wallet_account_address, SvmError, WalletAccount};

#[test]
fn account_serialization_layout() {
    let a = WalletAccount { owner: Pubkey::new([3u8; 32]), initialized: true, nonce: 258 };
    let bytes = a.encode();
    let reference = borsh::to_vec(&([3u8; 32], true, 258u64)).unwrap();
    assert_eq!(bytes, reference);
    let d = WalletAccount::decode(&bytes).unwrap();
    assert_eq!(d.nonce, 258);
    assert!(d.initialized);
    let mut bad = bytes.clone();
    bad[32] = 2;
    assert!(WalletAccount::decode(&bad).is_none());
    assert!(WalletAccount::decode(&bytes[..40]).is_none());
}

#[test]
fn validate_user_op_checks_owner_signature() {
    let sk = SigningKey::from_bytes(&[21u8; 32]);
    let owner = Pubkey::new(sk.verifying_key().to_bytes());
    let mut a = WalletAccount::new(owner);
    let h = [5u8; 32];
    assert_eq!(a.validate_user_op(&h, &[0u8; 64]), Err(SvmError::InvalidSignature));
    assert_eq!(a.nonce, 0);
    let sig = sk.sign(&h).to_bytes();
    assert_eq!(a.validate_user_op(&h, &sig), Ok(()));
    assert_eq!(a.nonce, 1);
    assert_eq!(a.authorize_execution(&owner), Ok(()));
    assert_eq!(a.authorize_execution(&Pubkey::new([1u8; 32])), Err(SvmError::InvalidAccountData));
    a.record_execution();
    assert_eq!(a.nonce, 2);
}

#[test]
fn wallet_account_address_derivation() {
    let owner = Pubkey::new([3u8; 32]);
    let program = Pubkey::new([4u8; 32]);
    let (addr, bump) = derive_wallet_account_address(&owner, 9, &program).unwrap();
    let (expected, expected_bump) = solana_program::pubkey::Pubkey::find_program_address(
        &[&[3u8; 32], &9u64.to_le_bytes()],
        &solana_program::pubkey::Pubkey::new_from_array([4u8; 32]),
    );
    assert_eq!(addr.bytes, expected.to_bytes());
    assert_eq!(bump, expected_bump);
    assert_eq!(check_wallet_account_address(&owner, 9, &program, &addr), Ok(bump));
    assert_eq!(check_wallet_account_address(&owner, 9, &program, &owner), Err(SvmError::InvalidSeeds));
}
