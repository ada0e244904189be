use nexus_svm::entry_point::{
    add_stake, extract_paymaster, get_deposit_info, handle_ops, initialize, process_user_operation,
    simulate_validation, unlock_stake, validate_user_operation, withdraw_stake, EntryPointError, ValidationResult,
};
use nexus_svm::keys::Pubkey;
use nexus_svm::operation::{calculate_user_op_hash, UserOperation};

fn key(b: u8) -> Pubkey {
    Pubkey::new([b; 32])
}

fn op(nonce: u64, call_gas_limit: u64, max_fee_per_gas: u64) -> UserOperation {
    UserOperation {
        sender: key(1),
        nonce,
        init_code: vec![],
        call_data: vec![nonce as u8],
        call_gas_limit,
        verification_gas_limit: 0,
        pre_verification_gas: 0,
        max_fee_per_gas,
        max_priority_fee_per_gas: 0,
        paymaster_and_data: vec![],
        signature: [0u8; 64],
    }
}

#[test]
fn batch_isolates_failing_operation() {
    let mut ep = initialize(key(9));
    ep.total_operations = 10;
    let ops = vec![op(0, 100, 1), op(1, 0, 1), op(2, 300, 1)];
    let (events, summary) = handle_ops(&mut ep, &ops, key(8));
    assert_eq!(summary.successful_operations, 2);
    assert_eq!(summary.total_operations, 3);
    assert_eq!(summary.total_gas_used, 400);
    assert_eq!(summary.beneficiary, key(8));
    assert_eq!(ep.total_operations, 13);
    assert_eq!(events.len(), 3);
    assert!(events[0].success);
    assert!(!events[1].success);
    assert_eq!(events[1].actual_gas_cost, 0);
    assert!(events[2].success);
    assert_eq!(events[2].actual_gas_used, 300);
    assert_eq!(events[1].user_op_hash, calculate_user_op_hash(&ops[1]));
    assert_eq!(events[1].nonce, 1);
}

#[test]
fn empty_batch_changes_only_nothing() {
    let mut ep = initialize(key(9));
    let (events, summary) = handle_ops(&mut ep, &vec![], key(8));
    assert!(events.is_empty());
    assert_eq!(summary.successful_operations, 0);
    assert_eq!(ep.total_operations, 0);
}

#[test]
fn prefilter_verdicts() {
    assert_eq!(validate_user_operation(&op(0, 0, 1)), ValidationResult::GasLimitExceeded);
    assert_eq!(validate_user_operation(&op(0, 0, 0)), ValidationResult::GasLimitExceeded);
    assert_eq!(validate_user_operation(&op(0, 5, 0)), ValidationResult::InsufficientFunds);
    assert_eq!(validate_user_operation(&op(0, 5, 1)), ValidationResult::Valid);
    assert_eq!(process_user_operation(&op(0, 5, 1)), Ok(5));
    assert_eq!(process_user_operation(&op(0, 5, 0)), Err(EntryPointError::InvalidUserOperation));
    let sim = simulate_validation(&op(3, 0, 1));
    assert_eq!(sim.validation_result, ValidationResult::GasLimitExceeded);
    assert_eq!(sim.user_op_hash, calculate_user_op_hash(&op(3, 0, 1)));
}

#[test]
fn paymaster_named_by_leading_bytes() {
    assert_eq!(extract_paymaster(&[4u8; 31]), None);
    assert_eq!(extract_paymaster(&[4u8; 32]), Some(key(4)));
    let mut data = vec![6u8; 32];
    data.extend_from_slice(&[1, 2, 3]);
    assert_eq!(extract_paymaster(&data), Some(key(6)));
}

#[test]
fn stake_lifecycle() {
    let ep = initialize(key(9));
    assert_eq!(ep.min_stake, 1_000_000_000);
    assert_eq!(ep.unstake_delay, 86400);
    assert_eq!(add_stake(&ep, key(5), 2_000, 100).unwrap_err(), EntryPointError::InvalidUnstakeDelay);
    let mut stake = add_stake(&ep, key(5), 2_000, 86400).unwrap();
    assert_eq!(stake.withdraw_time, 0);
    assert_eq!(withdraw_stake(&stake, 1_000_000), Err(EntryPointError::WithdrawTimeNotReached));
    unlock_stake(&mut stake, 1_000);
    assert_eq!(stake.withdraw_time, 87_400);
    assert_eq!(withdraw_stake(&stake, 87_399), Err(EntryPointError::WithdrawTimeNotReached));
    assert_eq!(withdraw_stake(&stake, 87_400), Ok(2_000));
    let info = get_deposit_info(77, Some(stake));
    assert_eq!(info.deposit, 77);
    assert_eq!(info.staked, 2_000);
    assert_eq!(info.withdraw_time, 87_400);
    let none = get_deposit_info(5, None);
    assert_eq!(none.staked, 0);
    assert_eq!(none.stake_delay, 0);
}
