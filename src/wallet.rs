use vstd::prelude::*;
use crate::keys::{Pubkey, contains_key, distinct_keys, find_key, holds_key};
use crate::crypto::{append_bytes, ed25519_accepts, program_address_of, try_find_program_address, verify_signature};
use crate::operation::{UserOperation, calculate_user_op_hash, user_op_hash_spec};

verus! {

/// Most guardians a wallet may register.
pub const MAX_GUARDIANS: usize = 10;

/// Length of the rolling spending window, in seconds.
pub const DAILY_WINDOW: i64 = 86400;

/// An in-flight proposal to transfer ownership of a wallet.
#[derive(Debug)]
pub struct RecoveryRequest {
    pub new_owner: Pubkey,
    pub guardian_approvals: Vec<Pubkey>,
    pub initiated_at: i64,
}

/// A smart account controlled by one owner key.
#[derive(Debug)]
pub struct Wallet {
    pub owner: Pubkey,
    pub recovery_hash: [u8; 32],
    pub daily_limit: u64,
    pub daily_spent: u64,
    pub last_reset: i64,
    pub nonce: u64,
    pub initialized: bool,
    pub is_frozen: bool,
    pub guardians: Vec<Pubkey>,
    pub pending_recovery: Option<RecoveryRequest>,
}

/// Sponsorship data handed in beside an operation.
#[derive(Clone, Copy, Debug)]
pub struct PaymasterData {
    pub paymaster: Pubkey,
    pub token_mint: Option<Pubkey>,
    pub max_cost: u64,
    pub signature: [u8; 64],
}

/// A guardian's approval that did not yet reach the quorum.
#[derive(Clone, Copy, Debug)]
pub struct RecoveryApproved {
    pub guardian: Pubkey,
    pub approvals: u64,
    pub required: u64,
}

/// An ownership transfer carried out on reaching the quorum.
#[derive(Clone, Copy, Debug)]
pub struct RecoveryCompleted {
    pub old_owner: Pubkey,
    pub new_owner: Pubkey,
}

/// What an approval led to.
#[derive(Clone, Copy, Debug)]
pub enum RecoveryProgress {
    Approved(RecoveryApproved),
    Completed(RecoveryCompleted),
}

#[derive(Clone, Copy, Debug, PartialEq, Eq, Structural)]
pub enum WalletError {
    WalletFrozen,
    InvalidNonce,
    DailyLimitExceeded,
    InvalidSignature,
    TooManyGuardians,
    GuardianAlreadyExists,
    GuardianNotFound,
    UnauthorizedGuardian,
    NotOwner,
    RecoveryInProgress,
    NoRecoveryInProgress,
    AlreadyApproved,
    InsufficientGas,
}

/// Approvals needed to complete a recovery: a strict majority of guardians.
pub open spec fn required_approvals(guardian_count: int) -> int {
    guardian_count / 2 + 1
}

impl Wallet {
    /// At most ten distinct guardians; a pending recovery holds at most ten
    /// distinct approvals.
    pub open spec fn wf(&self) -> bool {
        &&& self.guardians@.len() <= MAX_GUARDIANS
        &&& distinct_keys(self.guardians@)
        &&& match self.pending_recovery {
            Some(p) => p.guardian_approvals@.len() <= MAX_GUARDIANS && distinct_keys(p.guardian_approvals@),
            None => true,
        }
    }

}

/// Whether a full window has passed since `last_reset` at time `now`.
pub open spec fn window_elapsed(last_reset: i64, now: i64) -> bool {
    now - last_reset >= DAILY_WINDOW
}

/// The relation between the wallet before (`w0`) and after (`w1`) running an
/// operation with nonce `op_nonce` and fee `fee` at time `now`, and its
/// result `r`. `sponsored` says whether a paymaster pays (then no spending
/// limit applies) and `signature_ok` whether the owner's signature verifies.
/// Once the nonce matches it is consumed, whatever fails afterwards.
pub open spec fn execute_outcome(
    w0: Wallet,
    w1: Wallet,
    r: Result<(), WalletError>,
    op_nonce: u64,
    fee: u64,
    sponsored: bool,
    now: i64,
    signature_ok: bool,
) -> bool {
    if w0.is_frozen {
        r == Err::<(), WalletError>(WalletError::WalletFrozen) && w1 == w0
    } else if op_nonce != w0.nonce {
        r == Err::<(), WalletError>(WalletError::InvalidNonce) && w1 == w0
    } else {
        let reset = !sponsored && window_elapsed(w0.last_reset, now);
        let spent: u64 = if reset { 0 } else { w0.daily_spent };
        let last_reset = if reset { now } else { w0.last_reset };
        if !sponsored && spent + fee > w0.daily_limit {
            &&& r == Err::<(), WalletError>(WalletError::DailyLimitExceeded)
            &&& w1 == Wallet { nonce: (w0.nonce + 1) as u64, daily_spent: spent, last_reset, ..w0 }
        } else {
            &&& w1 == Wallet {
                nonce: (w0.nonce + 1) as u64,
                daily_spent: if sponsored { spent } else { (spent + fee) as u64 },
                last_reset,
                ..w0
            }
            &&& r == if signature_ok {
                Ok::<(), WalletError>(())
            } else {
                Err::<(), WalletError>(WalletError::InvalidSignature)
            }
        }
    }
}

/// Creates a wallet for `owner` at time `now`, with no guardians.
pub fn initialize_wallet(owner: Pubkey, recovery_hash: [u8; 32], daily_limit: u64, now: i64) -> (r: Wallet)
    ensures
        r.wf(),
        r.owner == owner,
        r.recovery_hash == recovery_hash,
        r.daily_limit == daily_limit,
        r.daily_spent == 0,
        r.last_reset == now,
        r.nonce == 0,
        r.initialized,
        !r.is_frozen,
        r.guardians@.len() == 0,
        r.pending_recovery is None,
{
    Wallet {
        owner,
        recovery_hash,
        daily_limit,
        daily_spent: 0,
        last_reset: now,
        nonce: 0,
        initialized: true,
        is_frozen: false,
        guardians: Vec::new(),
        pending_recovery: None,
    }
}

/// Runs the wallet's checks for an operation whose signature verdict is
/// already known: not frozen, matching nonce (then consumed), the rolling
/// daily limit for unsponsored operations, and finally the signature.
pub fn apply_user_operation(
    wallet: &mut Wallet,
    op_nonce: u64,
    max_fee_per_gas: u64,
    sponsored: bool,
    now: i64,
    signature_ok: bool,
) -> (r: Result<(), WalletError>)
    requires
        old(wallet).nonce < u64::MAX,
    ensures
        execute_outcome(*old(wallet), *final(wallet), r, op_nonce, max_fee_per_gas, sponsored, now, signature_ok),
{
    if wallet.is_frozen {
        return Err(WalletError::WalletFrozen);
    }
    if op_nonce != wallet.nonce {
        return Err(WalletError::InvalidNonce);
    }
    wallet.nonce = wallet.nonce + 1;
    if !sponsored {
        if now as i128 - wallet.last_reset as i128 >= DAILY_WINDOW as i128 {
            wallet.daily_spent = 0;
            wallet.last_reset = now;
        }
        if max_fee_per_gas > wallet.daily_limit || wallet.daily_spent > wallet.daily_limit - max_fee_per_gas {
            return Err(WalletError::DailyLimitExceeded);
        }
        wallet.daily_spent = wallet.daily_spent + max_fee_per_gas;
    }
    if !signature_ok {
        return Err(WalletError::InvalidSignature);
    }
    Ok(())
}

/// Executes `user_op` on the wallet at time `now`. The owner must have
/// signed the operation's canonical hash; `paymaster_data` present means the
/// fee is sponsored and the daily limit does not apply.
pub fn execute_user_operation(
    wallet: &mut Wallet,
    user_op: &UserOperation,
    paymaster_data: &Option<PaymasterData>,
    now: i64,
) -> (r: Result<(), WalletError>)
    requires
        old(wallet).nonce < u64::MAX,
    ensures
        execute_outcome(
            *old(wallet),
            *final(wallet),
            r,
            user_op.nonce,
            user_op.max_fee_per_gas,
            paymaster_data is Some,
            now,
            ed25519_accepts(old(wallet).owner@, user_op_hash_spec(*user_op), user_op.signature@),
        ),
{
    let user_op_hash = calculate_user_op_hash(user_op);
    let signature_ok = verify_signature(&user_op_hash, &user_op.signature, &wallet.owner);
    apply_user_operation(
        wallet,
        user_op.nonce,
        user_op.max_fee_per_gas,
        paymaster_data.is_some(),
        now,
        signature_ok,
    )
}

/// Registers `guardian` (owner only); at most ten, no duplicates.
pub fn add_guardian(wallet: &mut Wallet, caller: &Pubkey, guardian: Pubkey) -> (r: Result<(), WalletError>)
    requires
        old(wallet).wf(),
    ensures
        final(wallet).wf(),
        caller@ != old(wallet).owner@ ==> r == Err::<(), WalletError>(WalletError::NotOwner),
        caller@ == old(wallet).owner@ && old(wallet).guardians@.len() >= MAX_GUARDIANS ==> r == Err::<
            (),
            WalletError,
        >(WalletError::TooManyGuardians),
        caller@ == old(wallet).owner@ && old(wallet).guardians@.len() < MAX_GUARDIANS && holds_key(
            old(wallet).guardians@,
            guardian,
        ) ==> r == Err::<(), WalletError>(WalletError::GuardianAlreadyExists),
        r is Ok <==> (caller@ == old(wallet).owner@ && old(wallet).guardians@.len() < MAX_GUARDIANS && !holds_key(
            old(wallet).guardians@,
            guardian,
        )),
        r is Err ==> *final(wallet) == *old(wallet),
        r is Ok ==> {
            &&& caller@ == old(wallet).owner@
            &&& old(wallet).guardians@.len() < MAX_GUARDIANS
            &&& !holds_key(old(wallet).guardians@, guardian)
            &&& *final(wallet) == (Wallet { guardians: final(wallet).guardians, ..*old(wallet) })
            &&& final(wallet).guardians@ == old(wallet).guardians@.push(guardian)
        },
{
    if *caller != wallet.owner {
        return Err(WalletError::NotOwner);
    }
    if wallet.guardians.len() >= MAX_GUARDIANS {
        return Err(WalletError::TooManyGuardians);
    }
    if contains_key(&wallet.guardians, &guardian) {
        return Err(WalletError::GuardianAlreadyExists);
    }
    let ghost before = wallet.guardians@;
    wallet.guardians.push(guardian);
    assert forall|i: int, j: int|
        0 <= i < j < wallet.guardians@.len() implies #[trigger] wallet.guardians@[i]@ != #[trigger] wallet.guardians@[j]@ by {
        if j == before.len() {
            assert(wallet.guardians@[i] == before[i]);
        }
    }
    Ok(())
}

/// Removes `guardian` (owner only).
pub fn remove_guardian(wallet: &mut Wallet, caller: &Pubkey, guardian: Pubkey) -> (r: Result<(), WalletError>)
    requires
        old(wallet).wf(),
    ensures
        final(wallet).wf(),
        caller@ != old(wallet).owner@ ==> r == Err::<(), WalletError>(WalletError::NotOwner),
        caller@ == old(wallet).owner@ && !holds_key(old(wallet).guardians@, guardian) ==> r == Err::<
            (),
            WalletError,
        >(WalletError::GuardianNotFound),
        r is Ok <==> (caller@ == old(wallet).owner@ && holds_key(old(wallet).guardians@, guardian)),
        r is Err ==> *final(wallet) == *old(wallet),
        r is Ok ==> {
            &&& caller@ == old(wallet).owner@
            &&& *final(wallet) == (Wallet { guardians: final(wallet).guardians, ..*old(wallet) })
            &&& exists|i: int|
                0 <= i < old(wallet).guardians@.len() && (#[trigger] old(wallet).guardians@[i])@ == guardian@
                    && final(wallet).guardians@ == old(wallet).guardians@.remove(i)
            &&& !holds_key(final(wallet).guardians@, guardian)
        },
{
    if *caller != wallet.owner {
        return Err(WalletError::NotOwner);
    }
    match find_key(&wallet.guardians, &guardian) {
        Some(index) => {
            let ghost before = wallet.guardians@;
            wallet.guardians.remove(index);
            assert(before[index as int]@ == guardian@);
            assert forall|i: int, j: int|
                0 <= i < j < wallet.guardians@.len() implies #[trigger] wallet.guardians@[i]@
                != #[trigger] wallet.guardians@[j]@ by {
                let bi = if i < index { i } else { i + 1 };
                let bj = if j < index { j } else { j + 1 };
                assert(wallet.guardians@[i] == before[bi]);
                assert(wallet.guardians@[j] == before[bj]);
            }
            assert forall|k: int| 0 <= k < wallet.guardians@.len() implies #[trigger] wallet.guardians@[k]@
                != guardian@ by {
                let bk = if k < index { k } else { k + 1 };
                assert(wallet.guardians@[k] == before[bk]);
                if bk < index {
                    assert(before[bk]@ != before[index as int]@);
                } else {
                    assert(before[index as int]@ != before[bk]@);
                }
            }
            Ok(())
        },
        None => Err(WalletError::GuardianNotFound),
    }
}

/// Starts a recovery towards `new_owner`, proposed by `guardian` at time
/// `now`, who counts as its first approval.
pub fn initiate_recovery(wallet: &mut Wallet, guardian: &Pubkey, new_owner: Pubkey, now: i64) -> (r: Result<(), WalletError>)
    requires
        old(wallet).wf(),
    ensures
        final(wallet).wf(),
        !holds_key(old(wallet).guardians@, *guardian) ==> r == Err::<(), WalletError>(
            WalletError::UnauthorizedGuardian,
        ),
        holds_key(old(wallet).guardians@, *guardian) && old(wallet).pending_recovery is Some ==> r == Err::<
            (),
            WalletError,
        >(WalletError::RecoveryInProgress),
        r is Ok <==> (holds_key(old(wallet).guardians@, *guardian) && old(wallet).pending_recovery is None),
        r is Err ==> *final(wallet) == *old(wallet),
        r is Ok ==> {
            &&& holds_key(old(wallet).guardians@, *guardian)
            &&& old(wallet).pending_recovery is None
            &&& *final(wallet) == (Wallet { pending_recovery: final(wallet).pending_recovery, ..*old(wallet) })
            &&& final(wallet).pending_recovery matches Some(p) && p.new_owner == new_owner && p.initiated_at == now
                && p.guardian_approvals@ == seq![*guardian]
        },
{
    if !contains_key(&wallet.guardians, guardian) {
        return Err(WalletError::UnauthorizedGuardian);
    }
    if wallet.pending_recovery.is_some() {
        return Err(WalletError::RecoveryInProgress);
    }
    let mut approvals: Vec<Pubkey> = Vec::new();
    approvals.push(*guardian);
    wallet.pending_recovery = Some(RecoveryRequest { new_owner, guardian_approvals: approvals, initiated_at: now });
    Ok(())
}

/// The relation between the wallet before (`w0`) and after (`w1`)
/// `guardian` approves the pending recovery, and the result `r`.
pub open spec fn approve_outcome(
    w0: Wallet,
    w1: Wallet,
    r: Result<RecoveryProgress, WalletError>,
    guardian: Pubkey,
) -> bool {
    if !holds_key(w0.guardians@, guardian) {
        r == Err::<RecoveryProgress, WalletError>(WalletError::UnauthorizedGuardian) && w1 == w0
    } else {
        match w0.pending_recovery {
            None => r == Err::<RecoveryProgress, WalletError>(WalletError::NoRecoveryInProgress) && w1 == w0,
            Some(p) => {
                let count = p.guardian_approvals@.len() + 1;
                let required = required_approvals(w0.guardians@.len() as int);
                if holds_key(p.guardian_approvals@, guardian) {
                    r == Err::<RecoveryProgress, WalletError>(WalletError::AlreadyApproved) && w1 == w0
                } else if count >= required {
                    &&& r matches Ok(RecoveryProgress::Completed(c))
                    &&& c.old_owner == w0.owner
                    &&& c.new_owner == p.new_owner
                    &&& w1 == Wallet {
                        owner: p.new_owner,
                        nonce: (w0.nonce + 1) as u64,
                        pending_recovery: None,
                        ..w0
                    }
                } else {
                    &&& r matches Ok(RecoveryProgress::Approved(a))
                    &&& a.guardian == guardian
                    &&& a.approvals == count
                    &&& a.required == required
                    &&& w1 == Wallet { pending_recovery: w1.pending_recovery, ..w0 }
                    &&& w1.pending_recovery matches Some(q) && q.new_owner == p.new_owner && q.initiated_at
                        == p.initiated_at && q.guardian_approvals@ == p.guardian_approvals@.push(guardian)
                }
            },
        }
    }
}

/// Records `guardian`'s approval of the pending recovery. Once a strict
/// majority of the current guardians has approved, the owner is replaced by
/// the proposed one, the recovery is cleared and the nonce advances, which
/// voids operations signed under the old owner.
pub fn approve_recovery(wallet: &mut Wallet, guardian: &Pubkey) -> (r: Result<RecoveryProgress, WalletError>)
    requires
        old(wallet).wf(),
        old(wallet).nonce < u64::MAX,
    ensures
        final(wallet).wf(),
        approve_outcome(*old(wallet), *final(wallet), r, *guardian),
{
    if !contains_key(&wallet.guardians, guardian) {
        return Err(WalletError::UnauthorizedGuardian);
    }
    let guardians_count = wallet.guardians.len();
    let mut recovery = match wallet.pending_recovery.take() {
        Some(recovery) => recovery,
        None => {
            return Err(WalletError::NoRecoveryInProgress);
        },
    };
    if contains_key(&recovery.guardian_approvals, guardian) {
        wallet.pending_recovery = Some(recovery);
        return Err(WalletError::AlreadyApproved);
    }
    let ghost before = recovery.guardian_approvals@;
    recovery.guardian_approvals.push(*guardian);
    let required_approvals = guardians_count / 2 + 1;
    let current_approvals = recovery.guardian_approvals.len();
    if current_approvals >= required_approvals {
        let old_owner = wallet.owner;
        let new_owner = recovery.new_owner;
        wallet.owner = new_owner;
        wallet.nonce = wallet.nonce + 1;
        Ok(RecoveryProgress::Completed(RecoveryCompleted { old_owner, new_owner }))
    } else {
        assert forall|i: int, j: int|
            0 <= i < j < recovery.guardian_approvals@.len() implies #[trigger] recovery.guardian_approvals@[i]@
            != #[trigger] recovery.guardian_approvals@[j]@ by {
            if j == before.len() {
                assert(recovery.guardian_approvals@[i] == before[i]);
            }
        }
        wallet.pending_recovery = Some(recovery);
        Ok(
            RecoveryProgress::Approved(
                RecoveryApproved {
                    guardian: *guardian,
                    approvals: current_approvals as u64,
                    required: required_approvals as u64,
                },
            ),
        )
    }
}

/// Freezes the wallet; any registered guardian may do so.
pub fn freeze_wallet(wallet: &mut Wallet, guardian: &Pubkey) -> (r: Result<(), WalletError>)
    requires
        old(wallet).wf(),
    ensures
        final(wallet).wf(),
        !holds_key(old(wallet).guardians@, *guardian) ==> r == Err::<(), WalletError>(
            WalletError::UnauthorizedGuardian,
        ) && *final(wallet) == *old(wallet),
        holds_key(old(wallet).guardians@, *guardian) ==> r is Ok && *final(wallet) == (Wallet {
            is_frozen: true,
            ..*old(wallet)
        }),
{
    if !contains_key(&wallet.guardians, guardian) {
        return Err(WalletError::UnauthorizedGuardian);
    }
    wallet.is_frozen = true;
    Ok(())
}

/// Unfreezes the wallet (owner only).
pub fn unfreeze_wallet(wallet: &mut Wallet, caller: &Pubkey) -> (r: Result<(), WalletError>)
    requires
        old(wallet).wf(),
    ensures
        final(wallet).wf(),
        caller@ != old(wallet).owner@ ==> r == Err::<(), WalletError>(WalletError::NotOwner) && *final(wallet)
            == *old(wallet),
        caller@ == old(wallet).owner@ ==> r is Ok && *final(wallet) == (Wallet { is_frozen: false, ..*old(wallet) }),
{
    if *caller != wallet.owner {
        return Err(WalletError::NotOwner);
    }
    wallet.is_frozen = false;
    Ok(())
}

/// The wallet program's id.
pub open spec fn wallet_program_id_spec() -> Seq<u8> {
    seq![
        223u8, 224, 51, 48, 177, 135, 247, 17, 156, 134, 88, 164, 9, 191, 8, 251,
        183, 235, 225, 255, 225, 184, 216, 190, 145, 25, 202, 223, 0, 182, 128, 137,
    ]
}

/// The seed that starts every wallet address derivation.
pub open spec fn wallet_seed() -> Seq<u8> {
    seq![119u8, 97, 108, 108, 101, 116]
}

/// The wallet program's id.
pub fn wallet_program_id() -> (r: Pubkey)
    ensures
        r@ == wallet_program_id_spec(),
{
    let r = Pubkey {
        bytes: [
            223u8, 224, 51, 48, 177, 135, 247, 17, 156, 134, 88, 164, 9, 191, 8, 251,
            183, 235, 225, 255, 225, 184, 216, 190, 145, 25, 202, 223, 0, 182, 128, 137,
        ],
    };
    assert(r@ =~= wallet_program_id_spec());
    r
}

/// The deterministic address (and bump seed) of the wallet of `owner` with
/// `recovery_hash`, derived from the seeds `"wallet" ‖ owner ‖ recovery_hash`
/// under the wallet program's id; `None` when no address can be derived.
pub fn derive_unified_wallet_address(owner: &Pubkey, recovery_hash: &[u8; 32]) -> (r: Option<(Pubkey, u8)>)
    ensures
        ({
            let derived = program_address_of(seq![wallet_seed(), owner@, recovery_hash@], wallet_program_id_spec());
            match r {
                Some((address, bump)) => derived == Some((address@, bump)),
                None => derived is None,
            }
        }),
{
    let mut seed: Vec<u8> = Vec::new();
    seed.push(119u8);
    seed.push(97u8);
    seed.push(108u8);
    seed.push(108u8);
    seed.push(101u8);
    seed.push(116u8);
    let mut owner_seed: Vec<u8> = Vec::new();
    append_bytes(&mut owner_seed, owner.bytes.as_slice());
    let mut hash_seed: Vec<u8> = Vec::new();
    append_bytes(&mut hash_seed, recovery_hash.as_slice());
    let mut seeds: Vec<Vec<u8>> = Vec::new();
    seeds.push(seed);
    seeds.push(owner_seed);
    seeds.push(hash_seed);
    let program_id = wallet_program_id();
    assert(seeds@[0]@ =~= wallet_seed());
    assert(seeds@.map_values(|s: Vec<u8>| s@) =~= seq![wallet_seed(), owner@, recovery_hash@]);
    try_find_program_address(&seeds, &program_id)
}

/// Recovery needs a quorum: a new approval by a guardian leaves the owner
/// and nonce as they were while the approvals stay below a strict majority
/// of the guardians; the approval that reaches it hands the wallet to the
/// proposed owner, clears the recovery and advances the nonce, in one step.
pub proof fn lemma_recovery_quorum(w0: Wallet, w1: Wallet, r: Result<RecoveryProgress, WalletError>, guardian: Pubkey)
    requires
        approve_outcome(w0, w1, r, guardian),
        w0.nonce < u64::MAX,
        holds_key(w0.guardians@, guardian),
        w0.pending_recovery matches Some(p) && !holds_key(p.guardian_approvals@, guardian),
    ensures
        ({
            let p = w0.pending_recovery.unwrap();
            let count = p.guardian_approvals@.len() + 1;
            let required = required_approvals(w0.guardians@.len() as int);
            &&& r is Ok
            &&& count < required ==> w1.owner == w0.owner && w1.nonce == w0.nonce && w1.pending_recovery is Some
            &&& count >= required ==> w1.owner == p.new_owner && w1.pending_recovery is None && w1.nonce
                == w0.nonce + 1
        }),
{
}

/// A replayed operation is rejected: once an operation with nonce `n` has
/// succeeded, running one with the same nonce again fails with
/// `InvalidNonce` and leaves the wallet, whose nonce is then `n + 1`, as it was.
pub proof fn lemma_replay_rejected(
    w0: Wallet,
    w1: Wallet,
    r1: Result<(), WalletError>,
    w2: Wallet,
    r2: Result<(), WalletError>,
    op_nonce: u64,
    first: (u64, bool, i64, bool),
    second: (u64, bool, i64, bool),
)
    requires
        w0.nonce < u64::MAX,
        execute_outcome(w0, w1, r1, op_nonce, first.0, first.1, first.2, first.3),
        r1 is Ok,
        execute_outcome(w1, w2, r2, op_nonce, second.0, second.1, second.2, second.3),
    ensures
        op_nonce == w0.nonce,
        r2 == Err::<(), WalletError>(WalletError::InvalidNonce),
        w2 == w1,
        w2.nonce == w0.nonce + 1,
{
}

/// A wallet's nonce never goes back, each operation that passes the nonce
/// check advances it by exactly one, an operation with another nonce fails,
/// and operations that succeed in turn carry strictly increasing nonces, so
/// none can be replayed. `calls[i]` holds the nonce, fee, sponsorship, time
/// and signature verdict of the `i`-th call, which took `ws[i]` to `ws[i + 1]`.
pub proof fn lemma_nonce_monotonic(
    ws: Seq<Wallet>,
    calls: Seq<(u64, u64, bool, i64, bool)>,
    results: Seq<Result<(), WalletError>>,
)
    requires
        ws.len() == calls.len() + 1,
        results.len() == calls.len(),
        forall|i: int|
            0 <= i < calls.len() ==> execute_outcome(
                #[trigger] ws[i],
                ws[i + 1],
                results[i],
                calls[i].0,
                calls[i].1,
                calls[i].2,
                calls[i].3,
                calls[i].4,
            ),
        ws[0].nonce + calls.len() <= u64::MAX,
    ensures
        forall|i: int, j: int| 0 <= i <= j < ws.len() ==> #[trigger] ws[i].nonce <= #[trigger] ws[j].nonce,
        forall|i: int| 0 <= i < calls.len() && calls[i].0 != ws[i].nonce ==> (#[trigger] results[i]) is Err && ws[i
            + 1].nonce == ws[i].nonce,
        forall|i: int|
            0 <= i < calls.len() && calls[i].0 == ws[i].nonce && !ws[i].is_frozen ==> #[trigger] ws[i + 1].nonce
                == ws[i].nonce + 1,
        forall|i: int, j: int|
            0 <= i < j < calls.len() && (#[trigger] results[i]) is Ok && (#[trigger] results[j]) is Ok ==> calls[i].0
                < calls[j].0,
{
    lemma_nonce_steps(ws, calls, results);
    assert forall|i: int, j: int| 0 <= i <= j < ws.len() implies #[trigger] ws[i].nonce <= #[trigger] ws[j].nonce by {
        lemma_nonce_between(ws, calls, results, i, j);
    }
    assert forall|i: int, j: int|
        0 <= i < j < calls.len() && (#[trigger] results[i]) is Ok && (#[trigger] results[j]) is Ok implies calls[i].0
        < calls[j].0 by {
        lemma_nonce_between(ws, calls, results, i + 1, j);
    }
}

proof fn lemma_nonce_steps(
    ws: Seq<Wallet>,
    calls: Seq<(u64, u64, bool, i64, bool)>,
    results: Seq<Result<(), WalletError>>,
)
    requires
        ws.len() == calls.len() + 1,
        results.len() == calls.len(),
        forall|i: int|
            0 <= i < calls.len() ==> execute_outcome(
                #[trigger] ws[i],
                ws[i + 1],
                results[i],
                calls[i].0,
                calls[i].1,
                calls[i].2,
                calls[i].3,
                calls[i].4,
            ),
        ws[0].nonce + calls.len() <= u64::MAX,
    ensures
        forall|i: int| 0 <= i < ws.len() ==> #[trigger] ws[i].nonce <= ws[0].nonce + i,
        forall|i: int|
            0 <= i < calls.len() ==> (ws[i + 1].nonce == ws[i].nonce || ws[i + 1].nonce == ws[i].nonce + 1)
                && (#[trigger] results[i] is Ok ==> calls[i].0 == ws[i].nonce && ws[i + 1].nonce == ws[i].nonce
                + 1),
{
    assert forall|i: int| 0 <= i < ws.len() implies #[trigger] ws[i].nonce <= ws[0].nonce + i by {
        lemma_nonce_prefix(ws, calls, results, i);
    }
    assert forall|i: int| 0 <= i < calls.len() implies (ws[i + 1].nonce == ws[i].nonce || ws[i + 1].nonce
        == ws[i].nonce + 1) && (#[trigger] results[i] is Ok ==> calls[i].0 == ws[i].nonce && ws[i + 1].nonce
        == ws[i].nonce + 1) by {
        lemma_nonce_prefix(ws, calls, results, i);
        assert(execute_outcome(ws[i], ws[i + 1], results[i], calls[i].0, calls[i].1, calls[i].2, calls[i].3, calls[i].4));
    }
}

proof fn lemma_nonce_prefix(
    ws: Seq<Wallet>,
    calls: Seq<(u64, u64, bool, i64, bool)>,
    results: Seq<Result<(), WalletError>>,
    k: int,
)
    requires
        ws.len() == calls.len() + 1,
        results.len() == calls.len(),
        forall|i: int|
            0 <= i < calls.len() ==> execute_outcome(
                #[trigger] ws[i],
                ws[i + 1],
                results[i],
                calls[i].0,
                calls[i].1,
                calls[i].2,
                calls[i].3,
                calls[i].4,
            ),
        ws[0].nonce + calls.len() <= u64::MAX,
        0 <= k < ws.len(),
    ensures
        ws[k].nonce <= ws[0].nonce + k,
    decreases k,
{
    if k > 0 {
        lemma_nonce_prefix(ws, calls, results, k - 1);
        assert(execute_outcome(
            ws[k - 1],
            ws[k],
            results[k - 1],
            calls[k - 1].0,
            calls[k - 1].1,
            calls[k - 1].2,
            calls[k - 1].3,
            calls[k - 1].4,
        ));
    }
}

proof fn lemma_nonce_between(
    ws: Seq<Wallet>,
    calls: Seq<(u64, u64, bool, i64, bool)>,
    results: Seq<Result<(), WalletError>>,
    i: int,
    j: int,
)
    requires
        ws.len() == calls.len() + 1,
        results.len() == calls.len(),
        forall|i: int|
            0 <= i < calls.len() ==> (ws[i + 1].nonce == ws[i].nonce || ws[i + 1].nonce == ws[i].nonce + 1)
                && (#[trigger] results[i] is Ok ==> calls[i].0 == ws[i].nonce && ws[i + 1].nonce == ws[i].nonce
                + 1),
        0 <= i <= j < ws.len(),
    ensures
        ws[i].nonce <= ws[j].nonce,
    decreases j - i,
{
    if i < j {
        lemma_nonce_between(ws, calls, results, i, j - 1);
        assert(results[j - 1] is Ok || results[j - 1] is Err);
    }
}

} // verus!
