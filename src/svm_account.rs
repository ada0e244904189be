use vstd::prelude::*;
use vstd::bytes::{lemma_auto_spec_u64_to_from_le_bytes, u64_from_le_bytes};
use vstd::slice::slice_subrange;
use crate::keys::{Pubkey, key_at};
use crate::crypto::{
    append_bytes,
    append_le64,
    ed25519_accepts,
    le64,
    program_address_of,
    try_find_program_address,
    verify_signature,
};

verus! {

/// Length of a serialized wallet account: owner, flag and nonce.
pub const WALLET_ACCOUNT_LEN: usize = 41;

/// The state of a program-derived wallet account.
#[derive(Clone, Copy, Debug)]
pub struct WalletAccount {
    pub owner: Pubkey,
    pub initialized: bool,
    pub nonce: u64,
}

#[derive(Clone, Copy, Debug, PartialEq, Eq, Structural)]
pub enum SvmError {
    InvalidSeeds,
    InvalidAccountData,
    InvalidSignature,
}

/// The serialized form of a wallet account: owner, `0`/`1` flag, and the
/// little-endian nonce.
pub open spec fn account_bytes(a: WalletAccount) -> Seq<u8> {
    a.owner@ + seq![if a.initialized { 1u8 } else { 0u8 }] + le64(a.nonce)
}

impl WalletAccount {
    /// A freshly initialized account of `owner`.
    pub fn new(owner: Pubkey) -> (r: WalletAccount)
        ensures
            r == (WalletAccount { owner, initialized: true, nonce: 0 }),
    {
        WalletAccount { owner, initialized: true, nonce: 0 }
    }

    /// Serializes the account.
    pub fn encode(&self) -> (r: Vec<u8>)
        ensures
            r@ == account_bytes(*self),
    {
        let mut buf: Vec<u8> = Vec::new();
        append_bytes(&mut buf, self.owner.bytes.as_slice());
        buf.push(if self.initialized { 1u8 } else { 0u8 });
        append_le64(&mut buf, self.nonce);
        assert(buf@ =~= account_bytes(*self));
        buf
    }

    /// Decodes an account; the buffer must hold exactly one, with a flag of
    /// `0` or `1`.
    pub fn decode(data: &[u8]) -> (r: Option<WalletAccount>)
        ensures
            match r {
                Some(a) => account_bytes(a) == data@,
                None => forall|a: WalletAccount| #[trigger] account_bytes(a) != data@,
            },
    {
        proof {
            lemma_auto_spec_u64_to_from_le_bytes();
        }
        if data.len() != WALLET_ACCOUNT_LEN || data[32] > 1 {
            assert forall|a: WalletAccount| #[trigger] account_bytes(a) != data@ by {
                if account_bytes(a) == data@ {
                    assert(account_bytes(a)[32] == (if a.initialized { 1u8 } else { 0u8 }));
                }
            }
            return None;
        }
        let owner = key_at(data, 0);
        let initialized = data[32] == 1;
        let nonce_bytes = slice_subrange(data, 33, 41);
        let nonce = u64_from_le_bytes(nonce_bytes);
        let a = WalletAccount { owner, initialized, nonce };
        assert(le64(nonce) == data@.subrange(33, 41));
        assert(data@ =~= data@.subrange(0, 32) + seq![data@[32]] + data@.subrange(33, 41));
        Some(a)
    }

    /// Checks that the account may run a transaction for a program account
    /// owned by `account_owner`: it must be initialized and owned by it.
    pub fn authorize_execution(&self, account_owner: &Pubkey) -> (r: Result<(), SvmError>)
        ensures
            r is Ok <==> (self.initialized && self.owner@ == account_owner@),
            r is Err ==> r == Err::<(), SvmError>(SvmError::InvalidAccountData),
    {
        if !self.initialized || self.owner != *account_owner {
            return Err(SvmError::InvalidAccountData);
        }
        Ok(())
    }

    /// Counts an executed transaction.
    pub fn record_execution(&mut self)
        requires
            old(self).nonce < u64::MAX,
        ensures
            *final(self) == (WalletAccount { nonce: (old(self).nonce + 1) as u64, ..*old(self) }),
    {
        self.nonce = self.nonce + 1;
    }

    /// Validates a user operation: the owner's signature on `user_op_hash`
    /// must verify, and then the nonce advances.
    pub fn validate_user_op(&mut self, user_op_hash: &[u8; 32], signature: &[u8; 64]) -> (r: Result<(), SvmError>)
        requires
            old(self).nonce < u64::MAX,
        ensures
            ed25519_accepts(old(self).owner@, user_op_hash@, signature@) ==> r is Ok && *final(self) == (WalletAccount {
                nonce: (old(self).nonce + 1) as u64,
                ..*old(self)
            }),
            !ed25519_accepts(old(self).owner@, user_op_hash@, signature@) ==> r == Err::<(), SvmError>(
                SvmError::InvalidSignature,
            ) && *final(self) == *old(self),
    {
        if !verify_signature(user_op_hash, signature, &self.owner) {
            return Err(SvmError::InvalidSignature);
        }
        self.nonce = self.nonce + 1;
        Ok(())
    }
}

/// The address of the wallet account of `owner` with `seed`, derived from
/// the seeds `owner ‖ le64(seed)` under `program_id`, and its bump seed.
pub fn derive_wallet_account_address(owner: &Pubkey, seed: u64, program_id: &Pubkey) -> (r: Option<(Pubkey, u8)>)
    ensures
        ({
            let derived = program_address_of(seq![owner@, le64(seed)], program_id@);
            match r {
                Some((address, bump)) => derived == Some((address@, bump)),
                None => derived is None,
            }
        }),
{
    let mut owner_seed: Vec<u8> = Vec::new();
    append_bytes(&mut owner_seed, owner.bytes.as_slice());
    let mut nonce_seed: Vec<u8> = Vec::new();
    append_le64(&mut nonce_seed, seed);
    let mut seeds: Vec<Vec<u8>> = Vec::new();
    seeds.push(owner_seed);
    seeds.push(nonce_seed);
    assert(seeds@.map_values(|s: Vec<u8>| s@) =~= seq![owner@, le64(seed)]);
    try_find_program_address(&seeds, program_id)
}

/// Checks that `provided` is the wallet account address of `owner` with
/// `seed`, giving its bump seed.
pub fn check_wallet_account_address(owner: &Pubkey, seed: u64, program_id: &Pubkey, provided: &Pubkey) -> (r: Result<
    u8,
    SvmError,
>)
    ensures
        ({
            let derived = program_address_of(seq![owner@, le64(seed)], program_id@);
            match r {
                Ok(bump) => derived == Some((provided@, bump)),
                Err(e) => e == SvmError::InvalidSeeds && !(derived matches Some((a, _)) && a == provided@),
            }
        }),
{
    match derive_wallet_account_address(owner, seed, program_id) {
        Some((address, bump)) => {
            if address == *provided {
                Ok(bump)
            } else {
                Err(SvmError::InvalidSeeds)
            }
        },
        None => Err(SvmError::InvalidSeeds),
    }
}

} // verus!
