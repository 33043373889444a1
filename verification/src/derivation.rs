use vstd::prelude::*;

use crate::keys::Pubkey;

verus! {

/// The address and bump that the program-derived-address scheme assigns to
/// `(seed, owner)` under `program`. The derivation is a pure function of
/// those bytes (repeated SHA-256 plus a curve check), so it carries a name
/// here rather than a transcription.
pub uninterp spec fn pda_of(seed: Seq<u8>, owner: Seq<u8>, program: Seq<u8>) -> (Seq<u8>, u8);

/// Relies on `derive_program_address`, re-exported at `anchor_lang`'s root
/// from `const_crypto::ed25519`: it finds the first bump (searching down
/// from 255) whose SHA-256 digest of seeds, bump, program id and the PDA
/// marker is off the ed25519 curve. The result depends on the seed bytes,
/// the owner bytes and the program id alone.
#[verifier::external_body]
pub(crate) fn derive_address(seed: &[u8], owner: &Pubkey, program: &Pubkey) -> (r: (Pubkey, u8))
    ensures
        r.0@ == pda_of(seed@, owner@, program@).0,
        r.1 == pda_of(seed@, owner@, program@).1,
{
    let (bytes, bump) = anchor_lang::derive_program_address(
        &[seed, &owner.bytes],
        &program.bytes,
    );
    (Pubkey { bytes }, bump)
}

/// The namespace under which every vault address is derived: the bytes of
/// `"gas_tank"`.
pub open spec fn namespace_seed() -> Seq<u8> {
    seq![103u8, 97u8, 115u8, 95u8, 116u8, 97u8, 110u8, 107u8]
}

/// The namespace constant as runnable bytes.
pub fn namespace_bytes() -> (r: Vec<u8>)
    ensures
        r@ == namespace_seed(),
{
    let mut v: Vec<u8> = Vec::new();
    v.push(103u8);
    v.push(97u8);
    v.push(115u8);
    v.push(95u8);
    v.push(116u8);
    v.push(97u8);
    v.push(110u8);
    v.push(107u8);
    proof {
        assert(v@ =~= namespace_seed());
    }
    v
}

} // verus!
