use vstd::prelude::*;

use crate::keys::Pubkey;
use crate::keys::zero_key;

verus! {

/// The spending policy of a vault: a hard per-transaction cap. Zero means
/// the agent may never spend.
#[derive(Clone, Copy, Debug, PartialEq, Eq)]
pub struct Rules {
    pub max_spend_per_tx: u64,
}

/// One vault record. `owner` never changes after creation; `agent` and
/// `rules` are overwritten together by the policy engine; `bump` is the
/// disambiguation byte of the address derivation, kept so every later
/// access can re-derive and confirm the address; `held_balance` is the
/// value in custody, mutated only by deposits and spends.
#[derive(Clone, Copy, Debug, PartialEq, Eq)]
pub struct GasTank {
    pub owner: Pubkey,
    pub agent: Pubkey,
    pub rules: Rules,
    pub bump: u8,
    pub held_balance: u64,
}

/// The observable record of a successful spend, for audit.
#[derive(Clone, Copy, Debug, PartialEq, Eq)]
pub struct TransferReceipt {
    pub agent: Pubkey,
    pub destination: Pubkey,
    pub amount: u64,
}

/// A vault record together with the address it lives at.
#[derive(Clone, Copy, Debug, PartialEq, Eq)]
pub struct VaultEntry {
    pub address: Pubkey,
    pub tank: GasTank,
}

/// What a vault looks like the moment it is created: owned by its creator,
/// no agent, a zero cap, nothing held, and the derivation bump recorded.
pub open spec fn is_fresh_tank(t: GasTank, owner: Seq<u8>, bump: u8) -> bool {
    &&& t.owner@ == owner
    &&& t.agent@ == zero_key()
    &&& t.rules.max_spend_per_tx == 0
    &&& t.bump == bump
    &&& t.held_balance == 0
}

} // verus!
