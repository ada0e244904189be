use ed25519_dalek::{Signer, SigningKey};
use nexus_svm::bridge::{
    add_supported_chain, burn_tokens, count_valid_signatures, initialize_bridge, lock_tokens, mint_tokens,
    set_paused, settle_mint, settlement_message, update_validators, Bridge, BridgeError, ChainType, MintLedger,
    MintRequest,
};
use nexus_svm::keys::Pubkey;

fn key(b: u8) -> Pubkey {
    Pubkey::new([b; 32])
}

fn validators(n: u8) -> (Vec<SigningKey>, Vec<Pubkey>) {
    let sks: Vec<SigningKey> = (0..n).map(|i| SigningKey::from_bytes(&[40 + i; 32])).collect();
    let pks = sks.iter().map(|sk| Pubkey::new(sk.verifying_key().to_bytes())).collect();
    (sks, pks)
}

fn bridge_with_chain(pks: Vec<Pubkey>, threshold: u8) -> Bridge {
    let authority = key(1);
    let mut b = initialize_bridge(authority, pks, threshold).unwrap();
    add_supported_chain(&mut b, &authority, 2, ChainType::Evm, [5u8; 32], 12).unwrap();
    b
}

fn request() -> MintRequest {
    MintRequest {
        lock_id: 7,
        source_chain: 2,
        source_tx_hash: [9u8; 32],
        recipient: key(3),
        token_mint: None,
        amount: 1000,
    }
}

fn message_hash(req: &MintRequest) -> [u8; 32] {
    solana_program::hash::hash(&settlement_message(req)).to_bytes()
}

#[test]
fn settlement_message_layout_and_hash() {
    let req = request();
    let msg = settlement_message(&req);
    assert_eq!(msg.len(), 8 + 8 + 32 + 32 + 32 + 8);
    assert_eq!(&msg[0..8], &7u64.to_le_bytes());
    assert_eq!(&msg[112..120], &1000u64.to_le_bytes());
    assert!(msg[80..112].iter().all(|b| *b == 0));
    let expected: [u8; 32] = [
        213, 173, 30, 238, 109, 177, 68, 182, 240, 98, 89, 204, 103, 182, 176, 5, 138, 204, 108, 236, 242, 51, 222,
        38, 75, 148, 139, 221, 126, 102, 232, 0,
    ];
    assert_eq!(message_hash(&req), expected);
}

#[test]
fn threshold_two_of_three_index_aligned() {
    let (sks, pks) = validators(3);
    let req = request();
    let h = message_hash(&req);
    let good0 = sks[0].sign(&h).to_bytes();
    let good1 = sks[1].sign(&h).to_bytes();
    let bad = [0u8; 64];

    let mut b = bridge_with_chain(pks.clone(), 2);
    let mut ledger = MintLedger::new();
    let sigs = vec![good0, good1, bad];
    assert_eq!(count_valid_signatures(&b.validators, &h, &sigs), 2);
    let r = mint_tokens(&mut b, &mut ledger, 7, 2, [9u8; 32], key(3), None, 1000, &sigs, 100);
    let rec = r.unwrap();
    assert!(rec.is_minted);
    assert_eq!(rec.amount, 1000);
    assert_eq!(b.total_minted, 1000);
    assert_eq!(b.supported_chains[0].total_volume, 1000);

    let mut b = bridge_with_chain(pks.clone(), 2);
    let mut ledger = MintLedger::new();
    let sigs = vec![good0, bad, bad];
    let r = mint_tokens(&mut b, &mut ledger, 7, 2, [9u8; 32], key(3), None, 1000, &sigs, 100);
    assert_eq!(r.unwrap_err(), BridgeError::InsufficientValidSignatures);
    assert_eq!(b.total_minted, 0);
    assert_eq!(ledger.records.len(), 0);

    // a valid signature at the wrong index does not count
    let swapped = vec![good1, good0, bad];
    assert_eq!(count_valid_signatures(&pks, &h, &swapped), 0);
}

#[test]
fn too_few_signatures_supplied() {
    let (_, pks) = validators(3);
    let mut b = bridge_with_chain(pks, 2);
    let mut ledger = MintLedger::new();
    let r = mint_tokens(&mut b, &mut ledger, 7, 2, [9u8; 32], key(3), None, 1000, &vec![[0u8; 64]], 100);
    assert_eq!(r.unwrap_err(), BridgeError::InsufficientSignatures);
}

#[test]
fn second_mint_of_same_transfer_fails() {
    let (sks, pks) = validators(3);
    let req = request();
    let h = message_hash(&req);
    let sigs: Vec<[u8; 64]> = sks.iter().map(|sk| sk.sign(&h).to_bytes()).collect();
    let mut b = bridge_with_chain(pks, 2);
    let mut ledger = MintLedger::new();
    assert!(mint_tokens(&mut b, &mut ledger, 7, 2, [9u8; 32], key(3), None, 1000, &sigs, 100).is_ok());
    let again = mint_tokens(&mut b, &mut ledger, 7, 2, [9u8; 32], key(3), None, 1000, &sigs, 200);
    assert_eq!(again.unwrap_err(), BridgeError::AlreadyMinted);
    assert_eq!(b.total_minted, 1000);
    assert_eq!(ledger.records.len(), 1);
}

#[test]
fn settle_mint_checks_in_order() {
    let (_, pks) = validators(3);
    let req = request();
    let mut b = bridge_with_chain(pks, 2);
    let mut ledger = MintLedger::new();
    let mut other = req;
    other.source_chain = 99;
    assert_eq!(settle_mint(&mut b, &mut ledger, &other, 3, 3, 1).unwrap_err(), BridgeError::UnsupportedChain);
    assert_eq!(settle_mint(&mut b, &mut ledger, &req, 1, 1, 1).unwrap_err(), BridgeError::InsufficientSignatures);
    assert_eq!(settle_mint(&mut b, &mut ledger, &req, 3, 1, 1).unwrap_err(), BridgeError::InsufficientValidSignatures);
    assert!(settle_mint(&mut b, &mut ledger, &req, 2, 2, 1).is_ok());
    assert_eq!(settle_mint(&mut b, &mut ledger, &req, 3, 3, 2).unwrap_err(), BridgeError::AlreadyMinted);
    let mut later = req;
    later.lock_id = 8;
    assert!(settle_mint(&mut b, &mut ledger, &later, 2, 2, 3).is_ok());
    assert_eq!(b.total_minted, 2000);
    let authority = key(1);
    set_paused(&mut b, &authority, true).unwrap();
    later.lock_id = 9;
    assert_eq!(settle_mint(&mut b, &mut ledger, &later, 3, 3, 4).unwrap_err(), BridgeError::BridgePaused);
}

#[test]
fn locks_and_burns_share_one_id_sequence() {
    let (_, pks) = validators(1);
    let mut b = bridge_with_chain(pks, 1);
    let lock = lock_tokens(&mut b, key(3), 500, 2, [6u8; 32], None, 10).unwrap();
    assert_eq!(lock.id, 0);
    assert_eq!(lock.amount, 500);
    assert!(!lock.is_claimed);
    let burn = burn_tokens(&mut b, key(3), 300, 2, [6u8; 32], key(8), 11).unwrap();
    assert_eq!(burn.id, 1);
    let lock2 = lock_tokens(&mut b, key(3), 1, 2, [6u8; 32], Some(key(8)), 12).unwrap();
    assert_eq!(lock2.id, 2);
    assert_eq!(b.nonce, 3);
    assert_eq!(b.total_locked, 501);
    assert_eq!(b.supported_chains[0].total_volume, 801);
}

#[test]
fn lock_rejections_leave_bridge_unchanged() {
    let (_, pks) = validators(1);
    let mut b = bridge_with_chain(pks, 1);
    assert_eq!(lock_tokens(&mut b, key(3), 0, 2, [6u8; 32], None, 10).unwrap_err(), BridgeError::InvalidAmount);
    assert_eq!(lock_tokens(&mut b, key(3), 5, 77, [6u8; 32], None, 10).unwrap_err(), BridgeError::UnsupportedChain);
    assert_eq!(burn_tokens(&mut b, key(3), 5, 77, [6u8; 32], key(8), 10).unwrap_err(), BridgeError::UnsupportedChain);
    assert_eq!(b.nonce, 0);
    assert_eq!(set_paused(&mut b, &key(2), true), Err(BridgeError::Unauthorized));
    set_paused(&mut b, &key(1), true).unwrap();
    assert_eq!(lock_tokens(&mut b, key(3), 5, 2, [6u8; 32], None, 10).unwrap_err(), BridgeError::BridgePaused);
    assert_eq!(burn_tokens(&mut b, key(3), 5, 2, [6u8; 32], key(8), 10).unwrap_err(), BridgeError::BridgePaused);
    assert_eq!(b.nonce, 0);
    assert_eq!(b.total_locked, 0);
}

#[test]
fn bridge_setup_bounds() {
    assert_eq!(initialize_bridge(key(1), vec![key(2)], 0).unwrap_err(), BridgeError::InvalidThreshold);
    assert_eq!(initialize_bridge(key(1), vec![key(2)], 2).unwrap_err(), BridgeError::InsufficientValidators);
    let many: Vec<Pubkey> = (0..21).map(|i| key(i)).collect();
    assert_eq!(initialize_bridge(key(1), many.clone(), 3).unwrap_err(), BridgeError::TooManyValidators);
    let twenty: Vec<Pubkey> = (0..20).map(|i| key(i)).collect();
    let mut b = initialize_bridge(key(1), twenty, 20).unwrap();
    assert_eq!(b.nonce, 0);
    assert_eq!(update_validators(&mut b, &key(9), vec![key(2)], 1), Err(BridgeError::Unauthorized));
    assert_eq!(update_validators(&mut b, &key(1), vec![key(2)], 0), Err(BridgeError::InvalidThreshold));
    assert_eq!(update_validators(&mut b, &key(1), vec![key(2)], 2), Err(BridgeError::InsufficientValidators));
    assert_eq!(update_validators(&mut b, &key(1), many, 2), Err(BridgeError::TooManyValidators));
    assert_eq!(update_validators(&mut b, &key(1), vec![key(2), key(3)], 2), Ok(()));
    assert_eq!(b.threshold, 2);
    assert_eq!(b.validators.len(), 2);
}

#[test]
fn chain_registry_bounds() {
    let authority = key(1);
    let mut b = initialize_bridge(authority, vec![key(2)], 1).unwrap();
    assert_eq!(
        add_supported_chain(&mut b, &key(5), 1, ChainType::Svm, [0u8; 32], 1),
        Err(BridgeError::Unauthorized)
    );
    for id in 0..50u64 {
        assert_eq!(add_supported_chain(&mut b, &authority, id, ChainType::Evm, [0u8; 32], 1), Ok(()));
    }
    assert_eq!(
        add_supported_chain(&mut b, &authority, 50, ChainType::Evm, [0u8; 32], 1),
        Err(BridgeError::TooManyChains)
    );
    let mut b = initialize_bridge(authority, vec![key(2)], 1).unwrap();
    add_supported_chain(&mut b, &authority, 4, ChainType::Evm, [0u8; 32], 1).unwrap();
    assert_eq!(
        add_supported_chain(&mut b, &authority, 4, ChainType::Svm, [1u8; 32], 2),
        Err(BridgeError::ChainAlreadySupported)
    );
    assert!(b.supported_chains[0].is_active);
    assert_eq!(b.supported_chains[0].total_volume, 0);
}
