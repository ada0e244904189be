use vstd::prelude::*;
use crate::keys::Pubkey;
use crate::operation::{UserOperation, calculate_user_op_hash, user_op_hash_spec};

verus! {

/// Stake a paymaster must post by default, in lamports.
pub const DEFAULT_MIN_STAKE: u64 = 1_000_000_000;

/// Default delay between unlocking and withdrawing a stake, in seconds.
pub const DEFAULT_UNSTAKE_DELAY: i64 = 86400;

/// The global operation counter and paymaster policy defaults.
#[derive(Clone, Copy, Debug)]
pub struct EntryPoint {
    pub authority: Pubkey,
    pub total_operations: u64,
    pub total_paymasters: u64,
    pub min_stake: u64,
    pub unstake_delay: i64,
}

/// A paymaster's posted collateral; a `withdraw_time` of zero means locked.
#[derive(Clone, Copy, Debug)]
pub struct PaymasterStake {
    pub paymaster: Pubkey,
    pub stake: u64,
    pub unstake_delay: i64,
    pub withdraw_time: i64,
}

/// The verdict of the coarse, wallet-independent pre-filter.
#[derive(Clone, Copy, Debug, PartialEq, Eq, Structural)]
pub enum ValidationResult {
    Valid,
    InvalidSignature,
    InvalidNonce,
    InsufficientFunds,
    PaymasterRejected,
    GasLimitExceeded,
}

/// An account's balance and stake.
#[derive(Clone, Copy, Debug)]
pub struct DepositInfo {
    pub deposit: u64,
    pub staked: u64,
    pub stake_delay: i64,
    pub withdraw_time: i64,
}

/// The outcome of one operation of a batch.
#[derive(Clone, Copy, Debug)]
pub struct UserOperationEvent {
    pub user_op_hash: [u8; 32],
    pub sender: Pubkey,
    pub paymaster: Option<Pubkey>,
    pub nonce: u64,
    pub success: bool,
    pub actual_gas_cost: u64,
    pub actual_gas_used: u64,
}

/// The totals of a batch.
#[derive(Clone, Copy, Debug)]
pub struct BatchProcessed {
    pub beneficiary: Pubkey,
    pub total_operations: u64,
    pub successful_operations: u64,
    pub total_gas_used: u64,
}

/// The outcome of a simulated validation.
#[derive(Clone, Copy, Debug)]
pub struct ValidationSimulated {
    pub user_op_hash: [u8; 32],
    pub sender: Pubkey,
    pub validation_result: ValidationResult,
}

#[derive(Clone, Copy, Debug, PartialEq, Eq, Structural)]
pub enum EntryPointError {
    InvalidUnstakeDelay,
    WithdrawTimeNotReached,
    InvalidUserOperation,
    InsufficientGas,
    PaymasterValidationFailed,
    InvalidSignature,
    InvalidNonce,
}

/// The pre-filter's verdict on `op`.
pub open spec fn validation_of(op: UserOperation) -> ValidationResult {
    if op.call_gas_limit == 0 {
        ValidationResult::GasLimitExceeded
    } else if op.max_fee_per_gas == 0 {
        ValidationResult::InsufficientFunds
    } else {
        ValidationResult::Valid
    }
}

/// The gas an operation of a batch is charged: its call gas limit when it
/// passes, nothing otherwise.
pub open spec fn gas_charged(op: UserOperation) -> nat {
    if validation_of(op) == ValidationResult::Valid {
        op.call_gas_limit as nat
    } else {
        0
    }
}

/// How many operations of `ops` pass.
pub open spec fn successful_count(ops: Seq<UserOperation>) -> nat
    decreases ops.len(),
{
    if ops.len() == 0 {
        0
    } else {
        successful_count(ops.drop_last()) + if validation_of(ops.last()) == ValidationResult::Valid {
            1nat
        } else {
            0nat
        }
    }
}

/// The gas charged over `ops`.
pub open spec fn gas_total(ops: Seq<UserOperation>) -> nat
    decreases ops.len(),
{
    if ops.len() == 0 {
        0
    } else {
        gas_total(ops.drop_last()) + gas_charged(ops.last())
    }
}

/// `paymaster` is what the first 32 bytes of `data` name, if there are 32.
pub open spec fn paymaster_named(paymaster: Option<Pubkey>, data: Seq<u8>) -> bool {
    match paymaster {
        Some(p) => data.len() >= 32 && p@ == data.subrange(0, 32),
        None => data.len() < 32,
    }
}

/// `ev` reports the outcome of `op`, judged on its own.
pub open spec fn reports(ev: UserOperationEvent, op: UserOperation) -> bool {
    &&& ev.user_op_hash@ == user_op_hash_spec(op)
    &&& ev.sender == op.sender
    &&& paymaster_named(ev.paymaster, op.paymaster_and_data@)
    &&& ev.nonce == op.nonce
    &&& ev.success == (validation_of(op) == ValidationResult::Valid)
    &&& ev.actual_gas_cost == gas_charged(op)
    &&& ev.actual_gas_used == gas_charged(op)
}

/// Sets up the entry point with the default stake policy.
pub fn initialize(authority: Pubkey) -> (r: EntryPoint)
    ensures
        r.authority == authority,
        r.total_operations == 0,
        r.total_paymasters == 0,
        r.min_stake == DEFAULT_MIN_STAKE,
        r.unstake_delay == DEFAULT_UNSTAKE_DELAY,
{
    EntryPoint {
        authority,
        total_operations: 0,
        total_paymasters: 0,
        min_stake: DEFAULT_MIN_STAKE,
        unstake_delay: DEFAULT_UNSTAKE_DELAY,
    }
}

/// The coarse pre-filter: a zero call gas limit or a zero fee rejects the
/// operation; it does not replace the wallet's own checks.
pub fn validate_user_operation(user_op: &UserOperation) -> (r: ValidationResult)
    ensures
        r == validation_of(*user_op),
{
    if user_op.call_gas_limit == 0 {
        return ValidationResult::GasLimitExceeded;
    }
    if user_op.max_fee_per_gas == 0 {
        return ValidationResult::InsufficientFunds;
    }
    ValidationResult::Valid
}

/// Validates and runs one operation, giving the gas it used.
pub fn process_user_operation(user_op: &UserOperation) -> (r: Result<u64, EntryPointError>)
    ensures
        validation_of(*user_op) == ValidationResult::Valid ==> r == Ok::<u64, EntryPointError>(user_op.call_gas_limit),
        validation_of(*user_op) != ValidationResult::Valid ==> r == Err::<u64, EntryPointError>(
            EntryPointError::InvalidUserOperation,
        ),
{
    match validate_user_operation(user_op) {
        ValidationResult::Valid => Ok(user_op.call_gas_limit),
        _ => Err(EntryPointError::InvalidUserOperation),
    }
}

/// The paymaster named by the first 32 bytes of `paymaster_and_data`, if
/// there are that many.
pub fn extract_paymaster(paymaster_and_data: &[u8]) -> (r: Option<Pubkey>)
    ensures
        paymaster_named(r, paymaster_and_data@),
{
    if paymaster_and_data.len() >= 32 {
        let mut bytes = [0u8; 32];
        let mut i: usize = 0;
        while i < 32
            invariant
                0 <= i <= 32,
                paymaster_and_data@.len() >= 32,
                bytes@.len() == 32,
                forall|j: int| 0 <= j < i ==> bytes@[j] == paymaster_and_data@[j],
            decreases 32 - i,
        {
            bytes[i] = paymaster_and_data[i];
            i = i + 1;
        }
        assert(bytes@ =~= paymaster_and_data@.subrange(0, 32));
        Some(Pubkey { bytes })
    } else {
        None
    }
}

proof fn lemma_gas_prefix_bounded(ops: Seq<UserOperation>, i: int)
    requires
        0 <= i <= ops.len(),
    ensures
        gas_total(ops.subrange(0, i)) <= gas_total(ops),
    decreases ops.len() - i,
{
    if i < ops.len() {
        lemma_gas_prefix_bounded(ops, i + 1);
        assert(ops.subrange(0, i + 1).drop_last() =~= ops.subrange(0, i));
    } else {
        assert(ops.subrange(0, i) =~= ops);
    }
}

/// Runs a batch. Each operation is judged on its own and reported in the
/// event at the same index; a failing operation does not stop the others.
/// The entry point counts every operation of the batch, passed or not.
pub fn handle_ops(
    entry_point: &mut EntryPoint,
    user_ops: &Vec<UserOperation>,
    beneficiary: Pubkey,
) -> (r: (Vec<UserOperationEvent>, BatchProcessed))
    requires
        old(entry_point).total_operations + user_ops@.len() <= u64::MAX,
        gas_total(user_ops@) <= u64::MAX,
    ensures
        r.0@.len() == user_ops@.len(),
        forall|i: int| 0 <= i < user_ops@.len() ==> reports(#[trigger] r.0@[i], user_ops@[i]),
        r.1.beneficiary == beneficiary,
        r.1.total_operations == user_ops@.len(),
        r.1.successful_operations == successful_count(user_ops@),
        r.1.total_gas_used == gas_total(user_ops@),
        *final(entry_point) == (EntryPoint {
            total_operations: (old(entry_point).total_operations + user_ops@.len()) as u64,
            ..*old(entry_point)
        }),
{
    let mut events: Vec<UserOperationEvent> = Vec::new();
    let mut successful_ops: u64 = 0;
    let mut total_gas_used: u64 = 0;
    let mut i: usize = 0;
    while i < user_ops.len()
        invariant
            0 <= i <= user_ops@.len(),
            gas_total(user_ops@) <= u64::MAX,
            events@.len() == i,
            forall|j: int| 0 <= j < i ==> reports(#[trigger] events@[j], user_ops@[j]),
            successful_ops == successful_count(user_ops@.subrange(0, i as int)),
            successful_ops <= i,
            total_gas_used == gas_total(user_ops@.subrange(0, i as int)),
        decreases user_ops@.len() - i,
    {
        let user_op = &user_ops[i];
        proof {
            assert(user_ops@.subrange(0, i as int + 1).drop_last() =~= user_ops@.subrange(0, i as int));
            lemma_gas_prefix_bounded(user_ops@, i as int + 1);
        }
        let event = match process_user_operation(user_op) {
            Ok(gas_used) => {
                successful_ops = successful_ops + 1;
                total_gas_used = total_gas_used + gas_used;
                UserOperationEvent {
                    user_op_hash: calculate_user_op_hash(user_op),
                    sender: user_op.sender,
                    paymaster: extract_paymaster(user_op.paymaster_and_data.as_slice()),
                    nonce: user_op.nonce,
                    success: true,
                    actual_gas_cost: gas_used,
                    actual_gas_used: gas_used,
                }
            },
            Err(_) => {
                UserOperationEvent {
                    user_op_hash: calculate_user_op_hash(user_op),
                    sender: user_op.sender,
                    paymaster: extract_paymaster(user_op.paymaster_and_data.as_slice()),
                    nonce: user_op.nonce,
                    success: false,
                    actual_gas_cost: 0,
                    actual_gas_used: 0,
                }
            },
        };
        events.push(event);
        i = i + 1;
    }
    assert(user_ops@.subrange(0, user_ops@.len() as int) =~= user_ops@);
    entry_point.total_operations = entry_point.total_operations + user_ops.len() as u64;
    let summary = BatchProcessed {
        beneficiary,
        total_operations: user_ops.len() as u64,
        successful_operations: successful_ops,
        total_gas_used,
    };
    (events, summary)
}

/// Runs the pre-filter on `user_op` and reports its verdict.
pub fn simulate_validation(user_op: &UserOperation) -> (r: ValidationSimulated)
    ensures
        r.user_op_hash@ == user_op_hash_spec(*user_op),
        r.sender == user_op.sender,
        r.validation_result == validation_of(*user_op),
{
    let validation_result = validate_user_operation(user_op);
    ValidationSimulated { user_op_hash: calculate_user_op_hash(user_op), sender: user_op.sender, validation_result }
}

/// Posts `deposit` lamports of stake for `paymaster`, locked; the unstake
/// delay may not be shorter than the entry point's.
pub fn add_stake(entry_point: &EntryPoint, paymaster: Pubkey, deposit: u64, unstake_delay: i64) -> (r: Result<
    PaymasterStake,
    EntryPointError,
>)
    ensures
        unstake_delay < entry_point.unstake_delay ==> r == Err::<PaymasterStake, EntryPointError>(
            EntryPointError::InvalidUnstakeDelay,
        ),
        unstake_delay >= entry_point.unstake_delay ==> r == Ok::<PaymasterStake, EntryPointError>(
            PaymasterStake { paymaster, stake: deposit, unstake_delay, withdraw_time: 0 },
        ),
{
    if unstake_delay < entry_point.unstake_delay {
        return Err(EntryPointError::InvalidUnstakeDelay);
    }
    Ok(PaymasterStake { paymaster, stake: deposit, unstake_delay, withdraw_time: 0 })
}

/// Starts the unstake delay at time `now`.
pub fn unlock_stake(paymaster_stake: &mut PaymasterStake, now: i64)
    requires
        i64::MIN <= now + old(paymaster_stake).unstake_delay <= i64::MAX,
    ensures
        *final(paymaster_stake) == (PaymasterStake {
            withdraw_time: (now + old(paymaster_stake).unstake_delay) as i64,
            ..*old(paymaster_stake)
        }),
{
    paymaster_stake.withdraw_time = now + paymaster_stake.unstake_delay;
}

/// The amount that may be withdrawn at time `now`: the whole stake, once
/// it was unlocked and its delay has passed.
pub fn withdraw_stake(paymaster_stake: &PaymasterStake, now: i64) -> (r: Result<u64, EntryPointError>)
    ensures
        paymaster_stake.withdraw_time > 0 && now >= paymaster_stake.withdraw_time ==> r == Ok::<
            u64,
            EntryPointError,
        >(paymaster_stake.stake),
        !(paymaster_stake.withdraw_time > 0 && now >= paymaster_stake.withdraw_time) ==> r == Err::<
            u64,
            EntryPointError,
        >(EntryPointError::WithdrawTimeNotReached),
{
    if paymaster_stake.withdraw_time > 0 && now >= paymaster_stake.withdraw_time {
        Ok(paymaster_stake.stake)
    } else {
        Err(EntryPointError::WithdrawTimeNotReached)
    }
}

/// The balance `deposit` of an account together with its stake, if any.
pub fn get_deposit_info(deposit: u64, stake_account: Option<PaymasterStake>) -> (r: DepositInfo)
    ensures
        r.deposit == deposit,
        match stake_account {
            Some(s) => r.staked == s.stake && r.stake_delay == s.unstake_delay && r.withdraw_time == s.withdraw_time,
            None => r.staked == 0 && r.stake_delay == 0 && r.withdraw_time == 0,
        },
{
    match stake_account {
        Some(stake) => DepositInfo {
            deposit,
            staked: stake.stake,
            stake_delay: stake.unstake_delay,
            withdraw_time: stake.withdraw_time,
        },
        None => DepositInfo { deposit, staked: 0, stake_delay: 0, withdraw_time: 0 },
    }
}

} // verus!
