use vstd::prelude::*;

use crate::errors::ErrorCode;
use crate::keys::Pubkey;
use crate::keys::zero_key;
use crate::ledger::LedgerAccount;
use crate::ledger::balance_of;
use crate::registry::deposit_post;
use crate::registry::has_addr;
use crate::registry::init_post;
use crate::registry::set_post;
use crate::registry::spend_post;
use crate::registry::tank_at;
use crate::tank::Rules;
use crate::tank::TransferReceipt;
use crate::tank::VaultEntry;

verus! {

/// Law: a single vault per owner. Once a creation for an owner has
/// succeeded, a second creation for the same owner — which derives the
/// same address, the derivation being a function of the owner — fails
/// `AlreadyExists` and changes nothing.
pub proof fn lemma_single_vault_per_owner(
    pre: Seq<VaultEntry>,
    mid: Seq<VaultEntry>,
    post: Seq<VaultEntry>,
    owner: Seq<u8>,
    derived: (Seq<u8>, u8),
    r1: Result<Pubkey, ErrorCode>,
    r2: Result<Pubkey, ErrorCode>,
)
    requires
        init_post(pre, mid, owner, derived, r1),
        r1 is Ok,
        init_post(mid, post, owner, derived, r2),
    ensures
        r2 == Err::<Pubkey, ErrorCode>(ErrorCode::AlreadyExists),
        post == mid,
{
    assert(mid[mid.len() - 1].address@ == derived.0);
    assert(has_addr(mid, derived.0));
}

/// Law: revocation is immediate. Once the owner has overwritten the agent
/// with a different identity, a spend attempted by the previous agent —
/// however early its request was built — fails `Unauthorized` and moves
/// nothing.
pub proof fn lemma_revocation_is_immediate(
    rpre: Seq<VaultEntry>,
    rmid: Seq<VaultEntry>,
    rpost: Seq<VaultEntry>,
    lpre: Seq<LedgerAccount>,
    lpost: Seq<LedgerAccount>,
    owner_caller: Seq<u8>,
    vault: Seq<u8>,
    prior_agent: Seq<u8>,
    new_agent: Seq<u8>,
    rules: Rules,
    derived_set: (Seq<u8>, u8),
    derived_spend: (Seq<u8>, u8),
    destination: Seq<u8>,
    amount: u64,
    r_spend: Result<TransferReceipt, ErrorCode>,
)
    requires
        set_post(rpre, rmid, owner_caller, vault, new_agent, rules, derived_set, Ok::<(), ErrorCode>(())),
        prior_agent != new_agent,
        spend_post(rmid, rpost, lpre, lpost, prior_agent, vault, destination, amount, derived_spend, r_spend),
    ensures
        r_spend == Err::<TransferReceipt, ErrorCode>(ErrorCode::Unauthorized),
        rpost == rmid,
        lpost == lpre,
{
    assert(has_addr(rmid, vault));
    assert(tank_at(rmid, vault).agent@ == new_agent);
}

/// Law: the cap is inclusive. A spend of exactly the configured
/// per-transaction maximum, by the configured agent of an authentic vault
/// with enough held balance and an overflow-free destination, succeeds.
pub proof fn lemma_spend_at_cap_succeeds(
    rpre: Seq<VaultEntry>,
    rpost: Seq<VaultEntry>,
    lpre: Seq<LedgerAccount>,
    lpost: Seq<LedgerAccount>,
    caller: Seq<u8>,
    vault: Seq<u8>,
    destination: Seq<u8>,
    derived: (Seq<u8>, u8),
    r: Result<TransferReceipt, ErrorCode>,
)
    requires
        has_addr(rpre, vault),
        tank_at(rpre, vault).agent@ == caller,
        caller != zero_key(),
        derived.0 == vault,
        derived.1 == tank_at(rpre, vault).bump,
        tank_at(rpre, vault).rules.max_spend_per_tx <= tank_at(rpre, vault).held_balance,
        balance_of(lpre, destination) + tank_at(rpre, vault).rules.max_spend_per_tx <= u64::MAX,
        spend_post(
            rpre,
            rpost,
            lpre,
            lpost,
            caller,
            vault,
            destination,
            tank_at(rpre, vault).rules.max_spend_per_tx,
            derived,
            r,
        ),
    ensures
        r matches Ok(rc) && rc.amount == tank_at(rpre, vault).rules.max_spend_per_tx,
{
}

/// Law: the cap is strict. A spend of more than the configured
/// per-transaction maximum, by the configured agent of an authentic
/// vault, fails `SpendingLimitExceeded` and moves nothing — in
/// particular a spend of the cap plus one.
pub proof fn lemma_spend_above_cap_refused(
    rpre: Seq<VaultEntry>,
    rpost: Seq<VaultEntry>,
    lpre: Seq<LedgerAccount>,
    lpost: Seq<LedgerAccount>,
    caller: Seq<u8>,
    vault: Seq<u8>,
    destination: Seq<u8>,
    amount: u64,
    derived: (Seq<u8>, u8),
    r: Result<TransferReceipt, ErrorCode>,
)
    requires
        has_addr(rpre, vault),
        tank_at(rpre, vault).agent@ == caller,
        caller != zero_key(),
        derived.0 == vault,
        derived.1 == tank_at(rpre, vault).bump,
        amount > tank_at(rpre, vault).rules.max_spend_per_tx,
        spend_post(rpre, rpost, lpre, lpost, caller, vault, destination, amount, derived, r),
    ensures
        r == Err::<TransferReceipt, ErrorCode>(ErrorCode::SpendingLimitExceeded),
        rpost == rpre,
        lpost == lpre,
{
}

/// Law: no overdraw. A spend within the cap but above the held balance
/// fails `InsufficientFunds` and moves nothing. The held balance itself
/// is an unsigned quantity in every state, so it is never negative.
pub proof fn lemma_overdraw_refused(
    rpre: Seq<VaultEntry>,
    rpost: Seq<VaultEntry>,
    lpre: Seq<LedgerAccount>,
    lpost: Seq<LedgerAccount>,
    caller: Seq<u8>,
    vault: Seq<u8>,
    destination: Seq<u8>,
    amount: u64,
    derived: (Seq<u8>, u8),
    r: Result<TransferReceipt, ErrorCode>,
)
    requires
        has_addr(rpre, vault),
        tank_at(rpre, vault).agent@ == caller,
        caller != zero_key(),
        derived.0 == vault,
        derived.1 == tank_at(rpre, vault).bump,
        amount <= tank_at(rpre, vault).rules.max_spend_per_tx,
        amount > tank_at(rpre, vault).held_balance,
        spend_post(rpre, rpost, lpre, lpost, caller, vault, destination, amount, derived, r),
    ensures
        r == Err::<TransferReceipt, ErrorCode>(ErrorCode::InsufficientFunds),
        rpost == rpre,
        lpost == lpre,
{
}

/// One balance-moving operation of a trace: a deposit or a spend, with
/// the ledger states it ran between, the derivation it saw, and its
/// result.
pub enum VaultStep {
    Deposit {
        lpre: Seq<LedgerAccount>,
        lpost: Seq<LedgerAccount>,
        caller: Seq<u8>,
        vault: Seq<u8>,
        amount: u64,
        derived: (Seq<u8>, u8),
        r: Result<(), ErrorCode>,
    },
    Spend {
        lpre: Seq<LedgerAccount>,
        lpost: Seq<LedgerAccount>,
        caller: Seq<u8>,
        vault: Seq<u8>,
        destination: Seq<u8>,
        amount: u64,
        derived: (Seq<u8>, u8),
        r: Result<TransferReceipt, ErrorCode>,
    },
}

/// The step `s` really happened between registry states `rpre` and
/// `rpost`.
pub open spec fn step_post(rpre: Seq<VaultEntry>, rpost: Seq<VaultEntry>, s: VaultStep) -> bool {
    match s {
        VaultStep::Deposit { lpre, lpost, caller, vault, amount, derived, r } =>
            deposit_post(rpre, rpost, lpre, lpost, caller, vault, amount, derived, r),
        VaultStep::Spend { lpre, lpost, caller, vault, destination, amount, derived, r } =>
            spend_post(rpre, rpost, lpre, lpost, caller, vault, destination, amount, derived, r),
    }
}

/// What the step `s` contributes to the held balance of the vault at
/// `vault`: a successful deposit counts positive, a successful spend
/// negative, anything else — a failure, or another vault's traffic —
/// nothing.
pub open spec fn step_delta(s: VaultStep, vault: Seq<u8>) -> int {
    match s {
        VaultStep::Deposit { vault: v, amount, r, .. } =>
            if v == vault && r is Ok {
                amount as int
            } else {
                0
            },
        VaultStep::Spend { vault: v, amount, r, .. } =>
            if v == vault && r is Ok {
                -(amount as int)
            } else {
                0
            },
    }
}

/// The sum of what `steps` contribute to the vault at `vault`:
/// deposits minus spends, successes only.
pub open spec fn net_flow(steps: Seq<VaultStep>, vault: Seq<u8>) -> int
    decreases steps.len(),
{
    if steps.len() == 0 {
        0
    } else {
        step_delta(steps[0], vault) + net_flow(steps.drop_first(), vault)
    }
}

/// `states` is a run of the registry under `steps`: one more state than
/// steps, each step relating its neighbours.
pub open spec fn trace_ok(states: Seq<Seq<VaultEntry>>, steps: Seq<VaultStep>) -> bool {
    &&& states.len() == steps.len() + 1
    &&& forall|i: int| 0 <= i < steps.len() ==> step_post(states[i], states[i + 1], steps[i])
}

/// One step moves the held balance of any existing vault by exactly its
/// contribution, and keeps the vault in existence.
pub proof fn lemma_step_held(rpre: Seq<VaultEntry>, rpost: Seq<VaultEntry>, s: VaultStep, vault: Seq<u8>)
    requires
        step_post(rpre, rpost, s),
        has_addr(rpre, vault),
    ensures
        has_addr(rpost, vault),
        tank_at(rpost, vault).held_balance as int
            == tank_at(rpre, vault).held_balance + step_delta(s, vault),
{
}

/// Law: balance conservation. Over any run of deposits and spends, the
/// held balance of a vault ends at where it began plus the sum of its
/// successful deposits minus the sum of its successful spends; failed
/// operations, and other vaults' traffic, contribute nothing.
pub proof fn lemma_balance_conservation(
    states: Seq<Seq<VaultEntry>>,
    steps: Seq<VaultStep>,
    vault: Seq<u8>,
)
    requires
        trace_ok(states, steps),
        has_addr(states[0], vault),
    ensures
        has_addr(states.last(), vault),
        tank_at(states.last(), vault).held_balance as int
            == tank_at(states[0], vault).held_balance + net_flow(steps, vault),
    decreases steps.len(),
{
    if steps.len() == 0 {
        assert(states.last() == states[0]);
    } else {
        lemma_step_held(states[0], states[1], steps[0], vault);
        let tail_states = states.drop_first();
        let tail_steps = steps.drop_first();
        assert forall|i: int| 0 <= i < tail_steps.len() implies step_post(
            tail_states[i],
            tail_states[i + 1],
            tail_steps[i],
        ) by {
            assert(step_post(states[i + 1], states[i + 2], steps[i + 1]));
        }
        lemma_balance_conservation(tail_states, tail_steps, vault);
        assert(tail_states.last() == states.last());
        assert(tail_states[0] == states[1]);
    }
}

} // verus!
