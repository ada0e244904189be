use vstd::prelude::*;
use crate::keys::Pubkey;
use crate::crypto::{append_bytes, append_le64, ed25519_accepts, le64, sha256, sha256_of, verify_signature};

verus! {

/// Most validators a bridge may register.
pub const MAX_VALIDATORS: usize = 20;

/// Most remote chains a bridge may register.
pub const MAX_CHAINS: usize = 50;

/// The family of a remote chain.
#[derive(Clone, Copy, Debug, PartialEq, Eq, Structural)]
pub enum ChainType {
    Evm,
    Svm,
}

/// A registered remote domain.
#[derive(Clone, Copy, Debug)]
pub struct SupportedChain {
    pub chain_id: u64,
    pub chain_type: ChainType,
    pub bridge_address: [u8; 32],
    pub min_confirmations: u64,
    pub is_active: bool,
    pub total_volume: u64,
}

/// The cross-domain custody ledger.
#[derive(Clone, Debug)]
pub struct Bridge {
    pub authority: Pubkey,
    pub validators: Vec<Pubkey>,
    pub threshold: u8,
    pub nonce: u64,
    pub total_locked: u64,
    pub total_minted: u64,
    pub is_paused: bool,
    pub supported_chains: Vec<SupportedChain>,
}

/// Proof that a user escrowed assets for an outbound transfer.
#[derive(Clone, Copy, Debug)]
pub struct LockRecord {
    pub id: u64,
    pub user: Pubkey,
    pub token_mint: Option<Pubkey>,
    pub amount: u64,
    pub destination_chain: u64,
    pub destination_address: [u8; 32],
    pub timestamp: i64,
    pub is_claimed: bool,
    pub claim_tx_hash: Option<[u8; 32]>,
}

/// Proof that an inbound transfer has been settled.
#[derive(Clone, Copy, Debug)]
pub struct MintRecord {
    pub lock_id: u64,
    pub source_chain: u64,
    pub source_tx_hash: [u8; 32],
    pub recipient: Pubkey,
    pub token_mint: Option<Pubkey>,
    pub amount: u64,
    pub timestamp: i64,
    pub is_minted: bool,
}

/// Proof that a user destroyed assets for an outbound transfer.
#[derive(Clone, Copy, Debug)]
pub struct BurnRecord {
    pub id: u64,
    pub user: Pubkey,
    pub token_mint: Pubkey,
    pub amount: u64,
    pub destination_chain: u64,
    pub destination_address: [u8; 32],
    pub timestamp: i64,
    pub is_claimed: bool,
    pub claim_tx_hash: Option<[u8; 32]>,
}

/// What an inbound settlement message asks the bridge to release.
#[derive(Clone, Copy, Debug)]
pub struct MintRequest {
    pub lock_id: u64,
    pub source_chain: u64,
    pub source_tx_hash: [u8; 32],
    pub recipient: Pubkey,
    pub token_mint: Option<Pubkey>,
    pub amount: u64,
}

/// The settlement records, keyed by `(lock_id, source_chain)`.
#[derive(Clone, Debug)]
pub struct MintLedger {
    pub records: Vec<MintRecord>,
}

#[derive(Clone, Copy, Debug, PartialEq, Eq, Structural)]
pub enum BridgeError {
    InvalidThreshold,
    InsufficientValidators,
    TooManyValidators,
    TooManyChains,
    ChainAlreadySupported,
    Unauthorized,
    BridgePaused,
    UnsupportedChain,
    InvalidAmount,
    MissingTokenAccount,
    MissingBridgeTokenAccount,
    MissingTokenProgram,
    MissingMintAccount,
    MissingRecipientAccount,
    InsufficientSignatures,
    InsufficientValidSignatures,
    AlreadyMinted,
    InvalidSignature,
}

/// No chain id occurs twice.
pub open spec fn unique_chain_ids(chains: Seq<SupportedChain>) -> bool {
    forall|i: int, j: int|
        0 <= i < j < chains.len() ==> #[trigger] chains[i].chain_id != #[trigger] chains[j].chain_id
}

/// Some registered chain has this id and is active.
pub open spec fn chain_active(chains: Seq<SupportedChain>, chain_id: u64) -> bool {
    exists|i: int| 0 <= i < chains.len() && #[trigger] chains[i].chain_id == chain_id && chains[i].is_active
}

/// Some registered chain has this id.
pub open spec fn chain_known(chains: Seq<SupportedChain>, chain_id: u64) -> bool {
    exists|i: int| 0 <= i < chains.len() && #[trigger] chains[i].chain_id == chain_id
}

/// The registry after `amount` is added to the volume of chain `chain_id`.
pub open spec fn credit_volume(chains: Seq<SupportedChain>, chain_id: u64, amount: u64) -> Seq<SupportedChain> {
    chains.map_values(
        |c: SupportedChain|
            if c.chain_id == chain_id {
                SupportedChain { total_volume: (c.total_volume + amount) as u64, ..c }
            } else {
                c
            },
    )
}

/// Adding `amount` to the volume of chain `chain_id` does not overflow.
pub open spec fn volume_fits(chains: Seq<SupportedChain>, chain_id: u64, amount: u64) -> bool {
    forall|i: int|
        0 <= i < chains.len() && #[trigger] chains[i].chain_id == chain_id ==> chains[i].total_volume + amount
            <= u64::MAX
}

impl Bridge {
    /// The bridge's invariant: a threshold between one and the number of
    /// validators, at most twenty validators, at most fifty chains, and
    /// unique chain ids.
    pub open spec fn wf(&self) -> bool {
        &&& 1 <= self.threshold
        &&& self.threshold as int <= self.validators@.len()
        &&& self.validators@.len() <= MAX_VALIDATORS
        &&& self.supported_chains@.len() <= MAX_CHAINS
        &&& unique_chain_ids(self.supported_chains@)
    }

    /// Everything but the counters and the chain registry's volumes is as in `other`.
    pub open spec fn same_settings(&self, other: Bridge) -> bool {
        &&& self.authority == other.authority
        &&& self.validators@ == other.validators@
        &&& self.threshold == other.threshold
        &&& self.is_paused == other.is_paused
    }
}

impl MintLedger {
    /// Keys are unique and every record is settled.
    pub open spec fn wf(&self) -> bool {
        &&& forall|i: int, j: int|
            0 <= i < j < self.records@.len() ==> !(#[trigger] self.records@[i].lock_id == #[trigger] self.records@[j].lock_id
                && self.records@[i].source_chain == self.records@[j].source_chain)
        &&& forall|i: int| 0 <= i < self.records@.len() ==> #[trigger] self.records@[i].is_minted
    }

    /// A minted record exists for `(lock_id, source_chain)`.
    pub open spec fn is_settled(&self, lock_id: u64, source_chain: u64) -> bool {
        exists|i: int|
            0 <= i < self.records@.len() && #[trigger] self.records@[i].lock_id == lock_id
                && self.records@[i].source_chain == source_chain && self.records@[i].is_minted
    }

    /// An empty ledger.
    pub fn new() -> (r: MintLedger)
        ensures
            r.wf(),
            r.records@.len() == 0,
    {
        MintLedger { records: Vec::new() }
    }

    /// The position of the record for `(lock_id, source_chain)`, if any.
    pub fn find(&self, lock_id: u64, source_chain: u64) -> (r: Option<usize>)
        ensures
            match r {
                Some(i) => i < self.records@.len() && self.records@[i as int].lock_id == lock_id
                    && self.records@[i as int].source_chain == source_chain,
                None => forall|j: int|
                    0 <= j < self.records@.len() ==> !(#[trigger] self.records@[j].lock_id == lock_id
                        && self.records@[j].source_chain == source_chain),
            },
    {
        let mut i: usize = 0;
        while i < self.records.len()
            invariant
                0 <= i <= self.records@.len(),
                forall|j: int|
                    0 <= j < i ==> !(#[trigger] self.records@[j].lock_id == lock_id
                        && self.records@[j].source_chain == source_chain),
            decreases self.records@.len() - i,
        {
            if self.records[i].lock_id == lock_id && self.records[i].source_chain == source_chain {
                return Some(i);
            }
            i = i + 1;
        }
        None
    }
}

/// The position of the first chain with id `chain_id`.
fn find_chain(chains: &Vec<SupportedChain>, chain_id: u64) -> (r: Option<usize>)
    ensures
        match r {
            Some(i) => i < chains@.len() && chains@[i as int].chain_id == chain_id,
            None => !chain_known(chains@, chain_id),
        },
{
    let mut i: usize = 0;
    while i < chains.len()
        invariant
            0 <= i <= chains@.len(),
            forall|j: int| 0 <= j < i ==> #[trigger] chains@[j].chain_id != chain_id,
        decreases chains@.len() - i,
    {
        if chains[i].chain_id == chain_id {
            return Some(i);
        }
        i = i + 1;
    }
    None
}

/// Whether a registered chain has id `chain_id` and is active.
pub fn is_chain_active(chains: &Vec<SupportedChain>, chain_id: u64) -> (r: bool)
    requires
        unique_chain_ids(chains@),
    ensures
        r == chain_active(chains@, chain_id),
{
    match find_chain(chains, chain_id) {
        Some(i) => {
            let active = chains[i].is_active;
            if !active {
                assert forall|j: int| 0 <= j < chains@.len() && #[trigger] chains@[j].chain_id == chain_id implies !chains@[j].is_active by {
                    if j != i as int {
                        if j < i as int {
                            assert(chains@[j].chain_id != chains@[i as int].chain_id);
                        } else {
                            assert(chains@[i as int].chain_id != chains@[j].chain_id);
                        }
                    }
                }
            }
            active
        },
        None => false,
    }
}

/// Adds `amount` to the volume of chain `chain_id`.
fn add_chain_volume(chains: &mut Vec<SupportedChain>, chain_id: u64, amount: u64)
    requires
        unique_chain_ids(old(chains)@),
        volume_fits(old(chains)@, chain_id, amount),
    ensures
        final(chains)@ == credit_volume(old(chains)@, chain_id, amount),
{
    match find_chain(chains, chain_id) {
        Some(i) => {
            let ghost before = chains@;
            let mut c = chains[i];
            c.total_volume = c.total_volume + amount;
            chains.set(i, c);
            assert forall|j: int| 0 <= j < before.len() && j != i as int implies #[trigger] before[j].chain_id != chain_id by {
                if j < i as int {
                    assert(before[j].chain_id != before[i as int].chain_id);
                } else {
                    assert(before[i as int].chain_id != before[j].chain_id);
                }
            }
            assert(chains@ =~= credit_volume(before, chain_id, amount));
        },
        None => {
            assert(chains@ =~= credit_volume(chains@, chain_id, amount));
        },
    }
}

/// Crediting volume keeps every chain's id and activity, hence unique ids
/// and the set of active chains.
pub proof fn lemma_credit_keeps_registry(chains: Seq<SupportedChain>, chain_id: u64, amount: u64)
    ensures
        credit_volume(chains, chain_id, amount).len() == chains.len(),
        forall|i: int|
            0 <= i < chains.len() ==> (#[trigger] credit_volume(chains, chain_id, amount)[i]).chain_id
                == chains[i].chain_id && credit_volume(chains, chain_id, amount)[i].is_active
                == chains[i].is_active,
        unique_chain_ids(chains) ==> unique_chain_ids(credit_volume(chains, chain_id, amount)),
        forall|id: u64| chain_active(chains, id) ==> #[trigger] chain_active(credit_volume(chains, chain_id, amount), id),
{
    let c = credit_volume(chains, chain_id, amount);
    assert forall|id: u64| chain_active(chains, id) implies #[trigger] chain_active(c, id) by {
        let i = choose|i: int| 0 <= i < chains.len() && #[trigger] chains[i].chain_id == id && chains[i].is_active;
        assert(c[i].chain_id == id);
    }
}

/// The 32 bytes that stand for the asset in a settlement message: the mint,
/// or zeros for the native asset.
pub open spec fn asset_bytes(token_mint: Option<Pubkey>) -> Seq<u8> {
    match token_mint {
        Some(m) => m@,
        None => Seq::new(32, |i: int| 0u8),
    }
}

/// The settlement message that validators sign, before hashing:
/// `le64(lock_id) ‖ le64(source_chain) ‖ source_tx_hash ‖ recipient ‖ asset ‖ le64(amount)`.
pub open spec fn settlement_preimage(req: MintRequest) -> Seq<u8> {
    le64(req.lock_id) + le64(req.source_chain) + req.source_tx_hash@ + req.recipient@ + asset_bytes(
        req.token_mint,
    ) + le64(req.amount)
}

/// The hash that each validator signs.
pub open spec fn settlement_hash(req: MintRequest) -> Seq<u8> {
    sha256_of(settlement_preimage(req))
}

/// How many of `signatures` verify against the validator at the same index.
pub open spec fn valid_signature_count(validators: Seq<Pubkey>, message: Seq<u8>, signatures: Seq<[u8; 64]>) -> nat
    decreases signatures.len(),
{
    if signatures.len() == 0 {
        0
    } else {
        let i = signatures.len() - 1;
        valid_signature_count(validators, message, signatures.drop_last()) + if i < validators.len()
            && ed25519_accepts(validators[i]@, message, signatures[i]@) {
            1nat
        } else {
            0nat
        }
    }
}

/// The record that a successful mint of `req` at time `now` leaves.
pub open spec fn minted_record(req: MintRequest, now: i64) -> MintRecord {
    MintRecord {
        lock_id: req.lock_id,
        source_chain: req.source_chain,
        source_tx_hash: req.source_tx_hash,
        recipient: req.recipient,
        token_mint: req.token_mint,
        amount: req.amount,
        timestamp: now,
        is_minted: true,
    }
}

/// Why a mint of `req` fails, given how many signatures were supplied and
/// how many of them verify; `None` when it succeeds.
pub open spec fn mint_error(b: Bridge, l: MintLedger, req: MintRequest, supplied: int, valid: int) -> Option<BridgeError> {
    if b.is_paused {
        Some(BridgeError::BridgePaused)
    } else if supplied < b.threshold {
        Some(BridgeError::InsufficientSignatures)
    } else if !chain_active(b.supported_chains@, req.source_chain) {
        Some(BridgeError::UnsupportedChain)
    } else if valid < b.threshold {
        Some(BridgeError::InsufficientValidSignatures)
    } else if l.is_settled(req.lock_id, req.source_chain) {
        Some(BridgeError::AlreadyMinted)
    } else {
        None
    }
}

/// The relation between the state before (`b0`, `l0`) and after (`b1`, `l1`)
/// a mint of `req`, and its result `r`.
pub open spec fn mint_outcome(
    b0: Bridge,
    l0: MintLedger,
    b1: Bridge,
    l1: MintLedger,
    r: Result<MintRecord, BridgeError>,
    req: MintRequest,
    supplied: int,
    valid: int,
    now: i64,
) -> bool {
    match mint_error(b0, l0, req, supplied, valid) {
        Some(e) => r == Err::<MintRecord, BridgeError>(e) && b1 == b0 && l1 == l0,
        None => {
            &&& r == Ok::<MintRecord, BridgeError>(minted_record(req, now))
            &&& l1.records@ == l0.records@.push(minted_record(req, now))
            &&& b1.total_minted == b0.total_minted + req.amount
            &&& b1.supported_chains@ == credit_volume(b0.supported_chains@, req.source_chain, req.amount)
            &&& b1.nonce == b0.nonce
            &&& b1.total_locked == b0.total_locked
            &&& b1.same_settings(b0)
        },
    }
}

/// The counters that a mint of `req` adds to do not overflow.
pub open spec fn mint_fits(b: Bridge, req: MintRequest) -> bool {
    &&& b.total_minted + req.amount <= u64::MAX
    &&& volume_fits(b.supported_chains@, req.source_chain, req.amount)
}

/// Builds the settlement message of `req`, before hashing.
pub fn settlement_message(req: &MintRequest) -> (r: Vec<u8>)
    ensures
        r@ == settlement_preimage(*req),
{
    let mut buf: Vec<u8> = Vec::new();
    append_le64(&mut buf, req.lock_id);
    append_le64(&mut buf, req.source_chain);
    append_bytes(&mut buf, req.source_tx_hash.as_slice());
    append_bytes(&mut buf, req.recipient.bytes.as_slice());
    match req.token_mint {
        Some(m) => append_bytes(&mut buf, m.bytes.as_slice()),
        None => {
            let zeros = [0u8; 32];
            assert(zeros@ =~= Seq::new(32, |i: int| 0u8));
            append_bytes(&mut buf, zeros.as_slice());
        },
    }
    append_le64(&mut buf, req.amount);
    assert(buf@ =~= settlement_preimage(*req));
    buf
}

/// Counts the signatures that verify against the validator at the same
/// index; a signature past the last validator counts for nothing.
pub fn count_valid_signatures(validators: &Vec<Pubkey>, message: &[u8; 32], signatures: &Vec<[u8; 64]>) -> (r: usize)
    ensures
        r == valid_signature_count(validators@, message@, signatures@),
        r <= signatures@.len(),
{
    let mut count: usize = 0;
    let mut i: usize = 0;
    while i < signatures.len()
        invariant
            0 <= i <= signatures@.len(),
            count == valid_signature_count(validators@, message@, signatures@.subrange(0, i as int)),
            count <= i,
        decreases signatures@.len() - i,
    {
        assert(signatures@.subrange(0, i as int + 1).drop_last() =~= signatures@.subrange(0, i as int));
        if i < validators.len() {
            if verify_signature(message, &signatures[i], &validators[i]) {
                count = count + 1;
            }
        }
        i = i + 1;
    }
    assert(signatures@.subrange(0, signatures@.len() as int) =~= signatures@);
    count
}

/// Settles a mint once the signatures are counted: `supplied` were handed
/// in and `valid` of them verify. Checks, in order, that the bridge is not
/// paused, that enough signatures were supplied, that the source chain is
/// registered and active, that enough of them verify, and that the transfer
/// was not settled before; then records it for good.
pub fn settle_mint(
    bridge: &mut Bridge,
    ledger: &mut MintLedger,
    req: &MintRequest,
    supplied: usize,
    valid: usize,
    now: i64,
) -> (r: Result<MintRecord, BridgeError>)
    requires
        old(bridge).wf(),
        old(ledger).wf(),
        mint_fits(*old(bridge), *req),
    ensures
        mint_outcome(*old(bridge), *old(ledger), *final(bridge), *final(ledger), r, *req, supplied as int, valid as int, now),
        final(bridge).wf(),
        final(ledger).wf(),
{
    if bridge.is_paused {
        return Err(BridgeError::BridgePaused);
    }
    if supplied < bridge.threshold as usize {
        return Err(BridgeError::InsufficientSignatures);
    }
    if !is_chain_active(&bridge.supported_chains, req.source_chain) {
        return Err(BridgeError::UnsupportedChain);
    }
    if valid < bridge.threshold as usize {
        return Err(BridgeError::InsufficientValidSignatures);
    }
    match ledger.find(req.lock_id, req.source_chain) {
        Some(i) => {
            assert(ledger.records@[i as int].is_minted);
            return Err(BridgeError::AlreadyMinted);
        },
        None => {},
    }
    let record = MintRecord {
        lock_id: req.lock_id,
        source_chain: req.source_chain,
        source_tx_hash: req.source_tx_hash,
        recipient: req.recipient,
        token_mint: req.token_mint,
        amount: req.amount,
        timestamp: now,
        is_minted: true,
    };
    ledger.records.push(record);
    bridge.total_minted = bridge.total_minted + req.amount;
    proof {
        lemma_credit_keeps_registry(bridge.supported_chains@, req.source_chain, req.amount);
    }
    add_chain_volume(&mut bridge.supported_chains, req.source_chain, req.amount);
    Ok(record)
}

/// Mints (or releases) the asset of an inbound transfer once a quorum of
/// validators has signed its settlement message. The signature at index `i`
/// is checked against validator `i` only.
pub fn mint_tokens(
    bridge: &mut Bridge,
    ledger: &mut MintLedger,
    lock_id: u64,
    source_chain: u64,
    source_tx_hash: [u8; 32],
    recipient: Pubkey,
    token_mint: Option<Pubkey>,
    amount: u64,
    validator_signatures: &Vec<[u8; 64]>,
    now: i64,
) -> (r: Result<MintRecord, BridgeError>)
    requires
        old(bridge).wf(),
        old(ledger).wf(),
        mint_fits(
            *old(bridge),
            MintRequest { lock_id, source_chain, source_tx_hash, recipient, token_mint, amount },
        ),
    ensures
        ({
            let req = MintRequest { lock_id, source_chain, source_tx_hash, recipient, token_mint, amount };
            mint_outcome(
                *old(bridge),
                *old(ledger),
                *final(bridge),
                *final(ledger),
                r,
                req,
                validator_signatures@.len() as int,
                valid_signature_count(old(bridge).validators@, settlement_hash(req), validator_signatures@) as int,
                now,
            )
        }),
        final(bridge).wf(),
        final(ledger).wf(),
{
    let req = MintRequest { lock_id, source_chain, source_tx_hash, recipient, token_mint, amount };
    let message = settlement_message(&req);
    let message_hash = sha256(message.as_slice());
    let valid = count_valid_signatures(&bridge.validators, &message_hash, validator_signatures);
    settle_mint(bridge, ledger, &req, validator_signatures.len(), valid, now)
}

/// A transfer is settled at most once: after a successful mint of
/// `(lock_id, source_chain)`, a second mint of the same pair with a full
/// quorum fails with `AlreadyMinted` and changes nothing, so the minted
/// total and the source chain's volume hold the first amount only.
pub proof fn lemma_no_double_mint(
    b0: Bridge,
    l0: MintLedger,
    b1: Bridge,
    l1: MintLedger,
    r1: Result<MintRecord, BridgeError>,
    req1: MintRequest,
    supplied1: int,
    valid1: int,
    now1: i64,
    b2: Bridge,
    l2: MintLedger,
    r2: Result<MintRecord, BridgeError>,
    req2: MintRequest,
    supplied2: int,
    valid2: int,
    now2: i64,
)
    requires
        mint_outcome(b0, l0, b1, l1, r1, req1, supplied1, valid1, now1),
        r1 is Ok,
        mint_outcome(b1, l1, b2, l2, r2, req2, supplied2, valid2, now2),
        req2.lock_id == req1.lock_id,
        req2.source_chain == req1.source_chain,
        supplied2 >= b1.threshold,
        valid2 >= b1.threshold,
    ensures
        r2 == Err::<MintRecord, BridgeError>(BridgeError::AlreadyMinted),
        b2 == b1,
        l2 == l1,
        b2.total_minted == b0.total_minted + req1.amount,
        b2.supported_chains@ == credit_volume(b0.supported_chains@, req1.source_chain, req1.amount),
{
    lemma_credit_keeps_registry(b0.supported_chains@, req1.source_chain, req1.amount);
    let last = l0.records@.len() as int;
    assert(l1.records@[last] == minted_record(req1, now1));
    assert(l1.records@[last].lock_id == req2.lock_id);
    assert(l1.is_settled(req2.lock_id, req2.source_chain));
}

/// With the bridge running, enough signatures supplied, the source chain
/// active and the transfer not yet settled, a mint succeeds exactly when at
/// least `threshold` of the index-aligned signatures verify.
pub proof fn lemma_threshold_decides(
    b0: Bridge,
    l0: MintLedger,
    b1: Bridge,
    l1: MintLedger,
    r: Result<MintRecord, BridgeError>,
    req: MintRequest,
    supplied: int,
    valid: int,
    now: i64,
)
    requires
        mint_outcome(b0, l0, b1, l1, r, req, supplied, valid, now),
        !b0.is_paused,
        supplied >= b0.threshold,
        chain_active(b0.supported_chains@, req.source_chain),
        !l0.is_settled(req.lock_id, req.source_chain),
    ensures
        r is Ok <==> valid >= b0.threshold,
        valid < b0.threshold ==> r == Err::<MintRecord, BridgeError>(BridgeError::InsufficientValidSignatures),
{
}

/// Sets up a bridge with the given validator set and quorum.
pub fn initialize_bridge(authority: Pubkey, validators: Vec<Pubkey>, threshold: u8) -> (r: Result<Bridge, BridgeError>)
    ensures
        threshold == 0 ==> r == Err::<Bridge, BridgeError>(BridgeError::InvalidThreshold),
        threshold > 0 && validators@.len() < threshold ==> r == Err::<Bridge, BridgeError>(
            BridgeError::InsufficientValidators,
        ),
        threshold > 0 && validators@.len() >= threshold && validators@.len() > MAX_VALIDATORS ==> r
            == Err::<Bridge, BridgeError>(BridgeError::TooManyValidators),
        r is Ok <==> (threshold > 0 && threshold <= validators@.len() <= MAX_VALIDATORS),
        r matches Ok(b) ==> {
            &&& b.wf()
            &&& b.authority == authority
            &&& b.validators@ == validators@
            &&& b.threshold == threshold
            &&& b.nonce == 0
            &&& b.total_locked == 0
            &&& b.total_minted == 0
            &&& !b.is_paused
            &&& b.supported_chains@.len() == 0
        },
{
    if threshold == 0 {
        return Err(BridgeError::InvalidThreshold);
    }
    if validators.len() < threshold as usize {
        return Err(BridgeError::InsufficientValidators);
    }
    if validators.len() > MAX_VALIDATORS {
        return Err(BridgeError::TooManyValidators);
    }
    Ok(
        Bridge {
            authority,
            validators,
            threshold,
            nonce: 0,
            total_locked: 0,
            total_minted: 0,
            is_paused: false,
            supported_chains: Vec::new(),
        },
    )
}

/// Registers a remote chain (authority only); it starts active with no volume.
pub fn add_supported_chain(
    bridge: &mut Bridge,
    caller: &Pubkey,
    chain_id: u64,
    chain_type: ChainType,
    bridge_address: [u8; 32],
    min_confirmations: u64,
) -> (r: Result<(), BridgeError>)
    requires
        old(bridge).wf(),
    ensures
        final(bridge).wf(),
        caller@ != old(bridge).authority@ ==> r == Err::<(), BridgeError>(BridgeError::Unauthorized),
        caller@ == old(bridge).authority@ && old(bridge).supported_chains@.len() >= MAX_CHAINS ==> r
            == Err::<(), BridgeError>(BridgeError::TooManyChains),
        caller@ == old(bridge).authority@ && old(bridge).supported_chains@.len() < MAX_CHAINS && chain_known(
            old(bridge).supported_chains@,
            chain_id,
        ) ==> r == Err::<(), BridgeError>(BridgeError::ChainAlreadySupported),
        r is Ok <==> (caller@ == old(bridge).authority@ && old(bridge).supported_chains@.len() < MAX_CHAINS
            && !chain_known(old(bridge).supported_chains@, chain_id)),
        r is Err ==> *final(bridge) == *old(bridge),
        r is Ok ==> {
            &&& caller@ == old(bridge).authority@
            &&& old(bridge).supported_chains@.len() < MAX_CHAINS
            &&& !chain_known(old(bridge).supported_chains@, chain_id)
            &&& final(bridge).supported_chains@ == old(bridge).supported_chains@.push(
                SupportedChain {
                    chain_id,
                    chain_type,
                    bridge_address,
                    min_confirmations,
                    is_active: true,
                    total_volume: 0,
                },
            )
            &&& final(bridge).same_settings(*old(bridge))
            &&& final(bridge).nonce == old(bridge).nonce
            &&& final(bridge).total_locked == old(bridge).total_locked
            &&& final(bridge).total_minted == old(bridge).total_minted
        },
{
    if *caller != bridge.authority {
        return Err(BridgeError::Unauthorized);
    }
    if bridge.supported_chains.len() >= MAX_CHAINS {
        return Err(BridgeError::TooManyChains);
    }
    if find_chain(&bridge.supported_chains, chain_id).is_some() {
        return Err(BridgeError::ChainAlreadySupported);
    }
    let chain_info = SupportedChain {
        chain_id,
        chain_type,
        bridge_address,
        min_confirmations,
        is_active: true,
        total_volume: 0,
    };
    bridge.supported_chains.push(chain_info);
    Ok(())
}

/// Why a lock or burn towards `destination_chain` fails; `None` when it proceeds.
pub open spec fn outbound_error(b: Bridge, destination_chain: u64) -> Option<BridgeError> {
    if b.is_paused {
        Some(BridgeError::BridgePaused)
    } else if !chain_active(b.supported_chains@, destination_chain) {
        Some(BridgeError::UnsupportedChain)
    } else {
        None
    }
}

/// The counters that an outbound transfer of `amount` adds to do not overflow.
pub open spec fn outbound_fits(b: Bridge, destination_chain: u64, amount: u64) -> bool {
    &&& b.nonce < u64::MAX
    &&& volume_fits(b.supported_chains@, destination_chain, amount)
}

/// Escrows `amount` of the native asset (`token_mint` is `None`) or of a
/// token for transfer to `destination_chain`. The lock takes its id from the
/// bridge's nonce, which then advances; the moving of the asset itself is
/// done by the caller.
pub fn lock_tokens(
    bridge: &mut Bridge,
    user: Pubkey,
    amount: u64,
    destination_chain: u64,
    destination_address: [u8; 32],
    token_mint: Option<Pubkey>,
    now: i64,
) -> (r: Result<LockRecord, BridgeError>)
    requires
        old(bridge).wf(),
        outbound_fits(*old(bridge), destination_chain, amount),
        old(bridge).total_locked + amount <= u64::MAX,
    ensures
        final(bridge).wf(),
        outbound_error(*old(bridge), destination_chain) matches Some(e) ==> r == Err::<LockRecord, BridgeError>(e),
        outbound_error(*old(bridge), destination_chain) is None && token_mint is None && amount == 0 ==> r
            == Err::<LockRecord, BridgeError>(BridgeError::InvalidAmount),
        r is Err ==> *final(bridge) == *old(bridge),
        r is Ok <==> (outbound_error(*old(bridge), destination_chain) is None && (token_mint is Some || amount
            > 0)),
        r is Ok ==> {
            &&& r == Ok::<LockRecord, BridgeError>(
                LockRecord {
                    id: old(bridge).nonce,
                    user,
                    token_mint,
                    amount,
                    destination_chain,
                    destination_address,
                    timestamp: now,
                    is_claimed: false,
                    claim_tx_hash: None,
                },
            )
            &&& final(bridge).nonce == old(bridge).nonce + 1
            &&& final(bridge).total_locked == old(bridge).total_locked + amount
            &&& final(bridge).total_minted == old(bridge).total_minted
            &&& final(bridge).supported_chains@ == credit_volume(
                old(bridge).supported_chains@,
                destination_chain,
                amount,
            )
            &&& final(bridge).same_settings(*old(bridge))
        },
{
    if bridge.is_paused {
        return Err(BridgeError::BridgePaused);
    }
    if !is_chain_active(&bridge.supported_chains, destination_chain) {
        return Err(BridgeError::UnsupportedChain);
    }
    if token_mint.is_none() && amount == 0 {
        return Err(BridgeError::InvalidAmount);
    }
    let lock_id = bridge.nonce;
    bridge.nonce = bridge.nonce + 1;
    bridge.total_locked = bridge.total_locked + amount;
    proof {
        lemma_credit_keeps_registry(bridge.supported_chains@, destination_chain, amount);
    }
    add_chain_volume(&mut bridge.supported_chains, destination_chain, amount);
    Ok(
        LockRecord {
            id: lock_id,
            user,
            token_mint,
            amount,
            destination_chain,
            destination_address,
            timestamp: now,
            is_claimed: false,
            claim_tx_hash: None,
        },
    )
}

/// Destroys `amount` of the token `token_mint` for transfer to
/// `destination_chain`. The burn takes its id from the same nonce as locks;
/// the burning itself is done by the caller.
pub fn burn_tokens(
    bridge: &mut Bridge,
    user: Pubkey,
    amount: u64,
    destination_chain: u64,
    destination_address: [u8; 32],
    token_mint: Pubkey,
    now: i64,
) -> (r: Result<BurnRecord, BridgeError>)
    requires
        old(bridge).wf(),
        outbound_fits(*old(bridge), destination_chain, amount),
    ensures
        final(bridge).wf(),
        outbound_error(*old(bridge), destination_chain) matches Some(e) ==> r == Err::<BurnRecord, BridgeError>(e)
            && *final(bridge) == *old(bridge),
        outbound_error(*old(bridge), destination_chain) is None ==> {
            &&& r == Ok::<BurnRecord, BridgeError>(
                BurnRecord {
                    id: old(bridge).nonce,
                    user,
                    token_mint,
                    amount,
                    destination_chain,
                    destination_address,
                    timestamp: now,
                    is_claimed: false,
                    claim_tx_hash: None,
                },
            )
            &&& final(bridge).nonce == old(bridge).nonce + 1
            &&& final(bridge).total_locked == old(bridge).total_locked
            &&& final(bridge).total_minted == old(bridge).total_minted
            &&& final(bridge).supported_chains@ == credit_volume(
                old(bridge).supported_chains@,
                destination_chain,
                amount,
            )
            &&& final(bridge).same_settings(*old(bridge))
        },
{
    if bridge.is_paused {
        return Err(BridgeError::BridgePaused);
    }
    if !is_chain_active(&bridge.supported_chains, destination_chain) {
        return Err(BridgeError::UnsupportedChain);
    }
    let burn_id = bridge.nonce;
    bridge.nonce = bridge.nonce + 1;
    proof {
        lemma_credit_keeps_registry(bridge.supported_chains@, destination_chain, amount);
    }
    add_chain_volume(&mut bridge.supported_chains, destination_chain, amount);
    Ok(
        BurnRecord {
            id: burn_id,
            user,
            token_mint,
            amount,
            destination_chain,
            destination_address,
            timestamp: now,
            is_claimed: false,
            claim_tx_hash: None,
        },
    )
}

/// Pauses or resumes the bridge (authority only).
pub fn set_paused(bridge: &mut Bridge, caller: &Pubkey, is_paused: bool) -> (r: Result<(), BridgeError>)
    requires
        old(bridge).wf(),
    ensures
        final(bridge).wf(),
        caller@ != old(bridge).authority@ ==> r == Err::<(), BridgeError>(BridgeError::Unauthorized) && *final(bridge)
            == *old(bridge),
        caller@ == old(bridge).authority@ ==> r is Ok && *final(bridge) == (Bridge { is_paused, ..*old(bridge) }),
{
    if *caller != bridge.authority {
        return Err(BridgeError::Unauthorized);
    }
    bridge.is_paused = is_paused;
    Ok(())
}

/// Replaces the validator set and quorum (authority only), under the same
/// bounds as at set-up.
pub fn update_validators(
    bridge: &mut Bridge,
    caller: &Pubkey,
    new_validators: Vec<Pubkey>,
    new_threshold: u8,
) -> (r: Result<(), BridgeError>)
    requires
        old(bridge).wf(),
    ensures
        final(bridge).wf(),
        caller@ != old(bridge).authority@ ==> r == Err::<(), BridgeError>(BridgeError::Unauthorized),
        caller@ == old(bridge).authority@ && new_threshold == 0 ==> r == Err::<(), BridgeError>(
            BridgeError::InvalidThreshold,
        ),
        caller@ == old(bridge).authority@ && new_threshold > 0 && new_validators@.len() < new_threshold ==> r
            == Err::<(), BridgeError>(BridgeError::InsufficientValidators),
        caller@ == old(bridge).authority@ && new_threshold > 0 && new_validators@.len() >= new_threshold
            && new_validators@.len() > MAX_VALIDATORS ==> r == Err::<(), BridgeError>(
            BridgeError::TooManyValidators,
        ),
        r is Ok <==> (caller@ == old(bridge).authority@ && new_threshold > 0 && new_threshold
            <= new_validators@.len() <= MAX_VALIDATORS),
        r is Err ==> *final(bridge) == *old(bridge),
        r is Ok ==> {
            &&& final(bridge).validators@ == new_validators@
            &&& final(bridge).threshold == new_threshold
            &&& final(bridge).authority == old(bridge).authority
            &&& final(bridge).nonce == old(bridge).nonce
            &&& final(bridge).total_locked == old(bridge).total_locked
            &&& final(bridge).total_minted == old(bridge).total_minted
            &&& final(bridge).is_paused == old(bridge).is_paused
            &&& final(bridge).supported_chains@ == old(bridge).supported_chains@
        },
{
    if *caller != bridge.authority {
        return Err(BridgeError::Unauthorized);
    }
    if new_threshold == 0 {
        return Err(BridgeError::InvalidThreshold);
    }
    if new_validators.len() < new_threshold as usize {
        return Err(BridgeError::InsufficientValidators);
    }
    if new_validators.len() > MAX_VALIDATORS {
        return Err(BridgeError::TooManyValidators);
    }
    bridge.validators = new_validators;
    bridge.threshold = new_threshold;
    Ok(())
}

} // verus!
