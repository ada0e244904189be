use vstd::prelude::*;
use vstd::bytes::{spec_u64_to_le_bytes, u64_to_le_bytes};
use crate::keys::Pubkey;

verus! {

/// The SHA-256 digest of `data`.
pub uninterp spec fn sha256_of(data: Seq<u8>) -> Seq<u8>;

/// Whether the Ed25519 signature `signature` on `message` verifies, in the
/// strict sense, under the public key `key`.
pub uninterp spec fn ed25519_accepts(key: Seq<u8>, message: Seq<u8>, signature: Seq<u8>) -> bool;

/// The program-derived address and bump seed found for `seeds` under
/// `program_id`, or `None` when no bump seed gives an off-curve address or
/// the seeds are out of bounds.
pub uninterp spec fn program_address_of(seeds: Seq<Seq<u8>>, program_id: Seq<u8>) -> Option<(Seq<u8>, u8)>;

/// Relies on `solana_program::hash::hashv`: the SHA-256 digest of the
/// concatenated slices, here a single one.
#[verifier::external_body]
pub(crate) fn sha256(data: &[u8]) -> (r: [u8; 32])
    ensures
        r@ == sha256_of(data@),
{
    solana_program::hash::hashv(&[data]).to_bytes()
}

/// Relies on `ed25519_dalek::VerifyingKey::from_bytes` and
/// `VerifyingKey::verify_strict`: a key that does not decode verifies nothing.
#[verifier::external_body]
pub(crate) fn verify_signature(message: &[u8; 32], signature: &[u8; 64], key: &Pubkey) -> (r: bool)
    ensures
        r == ed25519_accepts(key@, message@, signature@),
{
    match ed25519_dalek::VerifyingKey::from_bytes(&key.bytes) {
        Ok(vk) => vk.verify_strict(message, &ed25519_dalek::Signature::from_bytes(signature)).is_ok(),
        Err(_) => false,
    }
}

/// Relies on `solana_program::pubkey::Pubkey::try_find_program_address`,
/// which searches the bump seeds from 255 down and returns `None` rather
/// than panicking.
#[verifier::external_body]
pub(crate) fn try_find_program_address(seeds: &Vec<Vec<u8>>, program_id: &Pubkey) -> (r: Option<(Pubkey, u8)>)
    ensures
        match r {
            Some((address, bump)) => program_address_of(seeds@.map_values(|s: Vec<u8>| s@), program_id@) == Some((address@, bump)),
            None => program_address_of(seeds@.map_values(|s: Vec<u8>| s@), program_id@).is_none(),
        },
{
    let slices: Vec<&[u8]> = seeds.iter().map(|s| s.as_slice()).collect();
    let id = solana_program::pubkey::Pubkey::new_from_array(program_id.bytes);
    solana_program::pubkey::Pubkey::try_find_program_address(&slices, &id)
        .map(|(address, bump)| (Pubkey { bytes: address.to_bytes() }, bump))
}

/// The eight little-endian bytes of `x`.
pub open spec fn le64(x: u64) -> Seq<u8> {
    spec_u64_to_le_bytes(x)
}

/// Appends `data` to `buf`.
pub fn append_bytes(buf: &mut Vec<u8>, data: &[u8])
    ensures
        final(buf)@ == old(buf)@ + data@,
{
    let ghost start = buf@;
    let mut i: usize = 0;
    while i < data.len()
        invariant
            0 <= i <= data@.len(),
            buf@ == start + data@.subrange(0, i as int),
        decreases data@.len() - i,
    {
        buf.push(data[i]);
        i = i + 1;
        assert(buf@ =~= start + data@.subrange(0, i as int));
    }
    assert(data@.subrange(0, data@.len() as int) =~= data@);
}

/// Appends the little-endian encoding of `x` to `buf`.
pub fn append_le64(buf: &mut Vec<u8>, x: u64)
    ensures
        final(buf)@ == old(buf)@ + le64(x),
{
    let bytes = u64_to_le_bytes(x);
    append_bytes(buf, bytes.as_slice());
}

} // verus!
