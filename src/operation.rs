use vstd::prelude::*;
use crate::keys::Pubkey;
use crate::crypto::{append_bytes, append_le64, le64, sha256, sha256_of};

verus! {

/// A sender-signed intent to act through a smart wallet.
#[derive(Clone, Debug)]
pub struct UserOperation {
    pub sender: Pubkey,
    pub nonce: u64,
    pub init_code: Vec<u8>,
    pub call_data: Vec<u8>,
    pub call_gas_limit: u64,
    pub verification_gas_limit: u64,
    pub pre_verification_gas: u64,
    pub max_fee_per_gas: u64,
    pub max_priority_fee_per_gas: u64,
    pub paymaster_and_data: Vec<u8>,
    pub signature: [u8; 64],
}

/// The bytes that the canonical hash of an operation covers:
/// `sender ‖ le64(nonce) ‖ call_data ‖ le64(call_gas_limit) ‖ le64(max_fee_per_gas)`.
pub open spec fn user_op_preimage(op: UserOperation) -> Seq<u8> {
    op.sender@ + le64(op.nonce) + op.call_data@ + le64(op.call_gas_limit) + le64(op.max_fee_per_gas)
}

/// The canonical hash of an operation.
pub open spec fn user_op_hash_spec(op: UserOperation) -> Seq<u8> {
    sha256_of(user_op_preimage(op))
}

/// Builds the canonical preimage of `user_op`.
pub fn user_op_preimage_bytes(user_op: &UserOperation) -> (r: Vec<u8>)
    ensures
        r@ == user_op_preimage(*user_op),
{
    let mut buf: Vec<u8> = Vec::new();
    append_bytes(&mut buf, user_op.sender.bytes.as_slice());
    append_le64(&mut buf, user_op.nonce);
    append_bytes(&mut buf, user_op.call_data.as_slice());
    append_le64(&mut buf, user_op.call_gas_limit);
    append_le64(&mut buf, user_op.max_fee_per_gas);
    assert(buf@ =~= user_op_preimage(*user_op));
    buf
}

/// The canonical hash of `user_op`; it depends on the sender, nonce, call
/// data, call gas limit and maximum fee only.
pub fn calculate_user_op_hash(user_op: &UserOperation) -> (r: [u8; 32])
    ensures
        r@ == user_op_hash_spec(*user_op),
{
    let preimage = user_op_preimage_bytes(user_op);
    sha256(preimage.as_slice())
}

/// Two operations that agree on the hashed fields have the same canonical
/// hash, whatever their other fields hold.
pub proof fn lemma_hash_covers_only_signed_fields(a: UserOperation, b: UserOperation)
    requires
        a.sender@ == b.sender@,
        a.nonce == b.nonce,
        a.call_data@ == b.call_data@,
        a.call_gas_limit == b.call_gas_limit,
        a.max_fee_per_gas == b.max_fee_per_gas,
    ensures
        user_op_hash_spec(a) == user_op_hash_spec(b),
{
    assert(user_op_preimage(a) == user_op_preimage(b));
}

} // verus!
