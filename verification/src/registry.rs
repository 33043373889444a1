use vstd::prelude::*;

use crate::derivation::derive_address;
use crate::derivation::namespace_bytes;
use crate::derivation::namespace_seed;
use crate::derivation::pda_of;
use crate::errors::ErrorCode;
use crate::keys::Pubkey;
use crate::keys::zero_key;
use crate::ledger::Ledger;
use crate::ledger::balance_of;
use crate::ledger::balances_except;
use crate::tank::GasTank;
use crate::tank::Rules;
use crate::tank::TransferReceipt;
use crate::tank::VaultEntry;
use crate::tank::is_fresh_tank;

verus! {

/// Whether some vault in `s` lives at address `a`.
pub open spec fn has_addr(s: Seq<VaultEntry>, a: Seq<u8>) -> bool {
    exists|i: int| 0 <= i < s.len() && s[i].address@ == a
}

/// The position of the vault at `a` (meaningful when `has_addr` holds and
/// addresses are unique).
pub open spec fn vault_index(s: Seq<VaultEntry>, a: Seq<u8>) -> int {
    choose|i: int| 0 <= i < s.len() && s[i].address@ == a
}

/// The vault record stored at address `a`.
pub open spec fn tank_at(s: Seq<VaultEntry>, a: Seq<u8>) -> GasTank {
    s[vault_index(s, a)].tank
}

/// No address holds two vaults.
pub open spec fn unique_addrs(s: Seq<VaultEntry>) -> bool {
    forall|i: int, j: int|
        0 <= i < s.len() && 0 <= j < s.len() && i != j ==> s[i].address@ != s[j].address@
}

/// The registries `pre` and `post` hold vaults at the same addresses, and
/// every vault but the one at `vault` is untouched.
pub open spec fn same_tanks_except(pre: Seq<VaultEntry>, post: Seq<VaultEntry>, vault: Seq<u8>) -> bool {
    &&& post.len() == pre.len()
    &&& forall|a: Seq<u8>| has_addr(post, a) == has_addr(pre, a)
    &&& forall|a: Seq<u8>| a != vault && has_addr(pre, a) ==> tank_at(post, a) == tank_at(pre, a)
}

/// `t1` is `t0` with the policy overwritten: agent and cap change together,
/// nothing else moves.
pub open spec fn policy_set(t0: GasTank, t1: GasTank, agent: Seq<u8>, rules: Rules) -> bool {
    &&& t1.owner == t0.owner
    &&& t1.agent@ == agent
    &&& t1.rules == rules
    &&& t1.bump == t0.bump
    &&& t1.held_balance == t0.held_balance
}

/// `t1` is `t0` with only the held balance moved to `new_held`.
pub open spec fn held_set(t0: GasTank, t1: GasTank, new_held: u64) -> bool {
    &&& t1.owner == t0.owner
    &&& t1.agent == t0.agent
    &&& t1.rules == t0.rules
    &&& t1.bump == t0.bump
    &&& t1.held_balance == new_held
}

/// In a registry with unique addresses, any position holding `a` is the
/// position `tank_at` reads.
proof fn lemma_vault_witness(s: Seq<VaultEntry>, a: Seq<u8>, i: int)
    requires
        unique_addrs(s),
        0 <= i < s.len(),
        s[i].address@ == a,
    ensures
        has_addr(s, a),
        vault_index(s, a) == i,
        tank_at(s, a) == s[i].tank,
{
    assert(has_addr(s, a));
    let k = vault_index(s, a);
    assert(0 <= k < s.len() && s[k].address@ == a);
    if k != i {
        assert(s[k].address@ != s[i].address@);
    }
}

/// Overwriting the record at a position, address kept, changes no other
/// vault.
proof fn lemma_vault_update(pre: Seq<VaultEntry>, post: Seq<VaultEntry>, i: int, e: VaultEntry)
    requires
        unique_addrs(pre),
        0 <= i < pre.len(),
        e.address@ == pre[i].address@,
        post == pre.update(i, e),
    ensures
        unique_addrs(post),
        same_tanks_except(pre, post, pre[i].address@),
        tank_at(post, pre[i].address@) == e.tank,
{
    let a0 = pre[i].address@;
    assert(forall|j: int| 0 <= j < post.len() ==> post[j].address@ == pre[j].address@);
    assert(unique_addrs(post));
    lemma_vault_witness(post, a0, i);
    assert forall|a: Seq<u8>| has_addr(post, a) == has_addr(pre, a) by {
        if has_addr(post, a) {
            let j = vault_index(post, a);
            assert(pre[j].address@ == a);
        }
        if has_addr(pre, a) {
            let j = vault_index(pre, a);
            assert(post[j].address@ == a);
        }
    }
    assert forall|a: Seq<u8>| a != a0 && has_addr(pre, a) implies tank_at(post, a) == tank_at(pre, a) by {
        let j = vault_index(pre, a);
        assert(0 <= j < pre.len() && pre[j].address@ == a);
        assert(j != i);
        lemma_vault_witness(post, a, j);
        lemma_vault_witness(pre, a, j);
    }
}

/// Appending a vault at a fresh address leaves every existing vault alone.
proof fn lemma_vault_push(pre: Seq<VaultEntry>, e: VaultEntry)
    requires
        unique_addrs(pre),
        !has_addr(pre, e.address@),
    ensures
        unique_addrs(pre.push(e)),
        pre.push(e).take(pre.len() as int) == pre,
        has_addr(pre.push(e), e.address@),
        tank_at(pre.push(e), e.address@) == e.tank,
        forall|a: Seq<u8>| a != e.address@ && has_addr(pre, a) ==> tank_at(pre.push(e), a) == tank_at(pre, a),
{
    let post = pre.push(e);
    assert forall|i: int, j: int|
        0 <= i < post.len() && 0 <= j < post.len() && i != j implies post[i].address@ != post[j].address@ by {
        if i < pre.len() && j < pre.len() {
            assert(pre[i].address@ != pre[j].address@);
        } else if i < pre.len() {
            assert(post[j] == e);
            assert(pre[i].address@ != e.address@);
        } else {
            assert(post[i] == e);
            assert(pre[j].address@ != e.address@);
        }
    }
    assert(post.take(pre.len() as int) =~= pre);
    lemma_vault_witness(post, e.address@, pre.len() as int);
    assert forall|a: Seq<u8>| a != e.address@ && has_addr(pre, a) implies tank_at(post, a) == tank_at(pre, a) by {
        let j = vault_index(pre, a);
        lemma_vault_witness(post, a, j);
        lemma_vault_witness(pre, a, j);
    }
}

/// What creating a vault does. `derived` is the address and bump the
/// derivation scheme assigns to the owner. A second creation for an owner
/// whose address is already taken fails `AlreadyExists` and changes
/// nothing; otherwise a fresh record is appended at the derived address
/// and handed back.
pub open spec fn init_post(
    pre: Seq<VaultEntry>,
    post: Seq<VaultEntry>,
    owner: Seq<u8>,
    derived: (Seq<u8>, u8),
    r: Result<Pubkey, ErrorCode>,
) -> bool {
    if has_addr(pre, derived.0) {
        &&& post == pre
        &&& r == Err::<Pubkey, ErrorCode>(ErrorCode::AlreadyExists)
    } else {
        &&& r matches Ok(h) && h@ == derived.0
        &&& post.len() == pre.len() + 1
        &&& post.take(pre.len() as int) == pre
        &&& post.last().address@ == derived.0
        &&& is_fresh_tank(post.last().tank, owner, derived.1)
    }
}

/// What configuring a policy does. `derived` is the derivation of the
/// stored owner's address. Only the owner may configure; agent and cap are
/// overwritten together; no balance and no other vault moves.
pub open spec fn set_post(
    pre: Seq<VaultEntry>,
    post: Seq<VaultEntry>,
    caller: Seq<u8>,
    vault: Seq<u8>,
    agent: Seq<u8>,
    rules: Rules,
    derived: (Seq<u8>, u8),
    r: Result<(), ErrorCode>,
) -> bool {
    if !has_addr(pre, vault) {
        &&& post == pre
        &&& r == Err::<(), ErrorCode>(ErrorCode::AddressMismatch)
    } else {
        let t = tank_at(pre, vault);
        if t.owner@ != caller {
            &&& post == pre
            &&& r == Err::<(), ErrorCode>(ErrorCode::Unauthorized)
        } else if derived.0 != vault || derived.1 != t.bump {
            &&& post == pre
            &&& r == Err::<(), ErrorCode>(ErrorCode::AddressMismatch)
        } else {
            &&& r == Ok::<(), ErrorCode>(())
            &&& same_tanks_except(pre, post, vault)
            &&& policy_set(t, tank_at(post, vault), agent, rules)
        }
    }
}

/// What a deposit does. `derived` is the derivation of the caller's own
/// address: only the owner's identity re-derives to the vault's address,
/// so only the owner deposits. On success exactly `amount` moves from the
/// caller's external balance into the vault's held balance; any failure
/// moves nothing.
pub open spec fn deposit_post(
    rpre: Seq<VaultEntry>,
    rpost: Seq<VaultEntry>,
    lpre: Seq<crate::ledger::LedgerAccount>,
    lpost: Seq<crate::ledger::LedgerAccount>,
    caller: Seq<u8>,
    vault: Seq<u8>,
    amount: u64,
    derived: (Seq<u8>, u8),
    r: Result<(), ErrorCode>,
) -> bool {
    if !has_addr(rpre, vault) {
        &&& rpost == rpre
        &&& lpost == lpre
        &&& r == Err::<(), ErrorCode>(ErrorCode::AddressMismatch)
    } else {
        let t = tank_at(rpre, vault);
        if derived.0 != vault || derived.1 != t.bump {
            &&& rpost == rpre
            &&& lpost == lpre
            &&& r == Err::<(), ErrorCode>(ErrorCode::AddressMismatch)
        } else if t.held_balance + amount > u64::MAX {
            &&& rpost == rpre
            &&& lpost == lpre
            &&& r == Err::<(), ErrorCode>(ErrorCode::ArithmeticOverflow)
        } else if balance_of(lpre, caller) < amount {
            &&& rpost == rpre
            &&& lpost == lpre
            &&& r == Err::<(), ErrorCode>(ErrorCode::InsufficientFunds)
        } else {
            &&& r == Ok::<(), ErrorCode>(())
            &&& same_tanks_except(rpre, rpost, vault)
            &&& held_set(t, tank_at(rpost, vault), (t.held_balance + amount) as u64)
            &&& balance_of(lpost, caller) == balance_of(lpre, caller) - amount
            &&& balances_except(lpre, lpost, caller)
        }
    }
}

/// What a delegated spend does. `derived` is the derivation of the stored
/// owner's address, re-checked so a substituted record is refused. The
/// caller must be the configured agent (an unset agent authorizes nobody);
/// the amount must sit within the per-transaction cap and the held
/// balance; the destination credit must not overflow. On success exactly
/// `amount` moves from the vault's held balance to the destination's
/// external balance and a receipt is handed back; any failure moves
/// nothing.
pub open spec fn spend_post(
    rpre: Seq<VaultEntry>,
    rpost: Seq<VaultEntry>,
    lpre: Seq<crate::ledger::LedgerAccount>,
    lpost: Seq<crate::ledger::LedgerAccount>,
    caller: Seq<u8>,
    vault: Seq<u8>,
    destination: Seq<u8>,
    amount: u64,
    derived: (Seq<u8>, u8),
    r: Result<TransferReceipt, ErrorCode>,
) -> bool {
    if !has_addr(rpre, vault) {
        &&& rpost == rpre
        &&& lpost == lpre
        &&& r == Err::<TransferReceipt, ErrorCode>(ErrorCode::AddressMismatch)
    } else {
        let t = tank_at(rpre, vault);
        if t.agent@ != caller || t.agent@ == zero_key() {
            &&& rpost == rpre
            &&& lpost == lpre
            &&& r == Err::<TransferReceipt, ErrorCode>(ErrorCode::Unauthorized)
        } else if derived.0 != vault || derived.1 != t.bump {
            &&& rpost == rpre
            &&& lpost == lpre
            &&& r == Err::<TransferReceipt, ErrorCode>(ErrorCode::AddressMismatch)
        } else if amount > t.rules.max_spend_per_tx {
            &&& rpost == rpre
            &&& lpost == lpre
            &&& r == Err::<TransferReceipt, ErrorCode>(ErrorCode::SpendingLimitExceeded)
        } else if amount > t.held_balance {
            &&& rpost == rpre
            &&& lpost == lpre
            &&& r == Err::<TransferReceipt, ErrorCode>(ErrorCode::InsufficientFunds)
        } else if balance_of(lpre, destination) + amount > u64::MAX {
            &&& rpost == rpre
            &&& lpost == lpre
            &&& r == Err::<TransferReceipt, ErrorCode>(ErrorCode::ArithmeticOverflow)
        } else {
            &&& r matches Ok(rc) && rc.agent@ == caller && rc.destination@ == destination
                && rc.amount == amount
            &&& same_tanks_except(rpre, rpost, vault)
            &&& held_set(t, tank_at(rpost, vault), (t.held_balance - amount) as u64)
            &&& balance_of(lpost, destination) == balance_of(lpre, destination) + amount
            &&& balances_except(lpre, lpost, destination)
        }
    }
}

/// The vault registry: every vault record this deployment has created,
/// each at the address derived from its owner under the program identity.
pub struct Registry {
    program_id: Pubkey,
    entries: Vec<VaultEntry>,
}

impl View for Registry {
    type V = Seq<VaultEntry>;

    closed spec fn view(&self) -> Seq<VaultEntry> {
        self.entries@
    }
}

impl Registry {
    /// The identity of the deployment all addresses are derived under.
    pub closed spec fn spec_program_id(self) -> Seq<u8> {
        self.program_id@
    }

    /// Addresses are unique, so each locates one well-defined vault.
    pub open spec fn wf(self) -> bool {
        unique_addrs(self@)
    }

    /// A registry with no vaults, bound to one program identity.
    pub fn new(program_id: Pubkey) -> (r: Registry)
        ensures
            r.wf(),
            r.spec_program_id() == program_id@,
            r@.len() == 0,
    {
        Registry { program_id, entries: Vec::new() }
    }

    /// The position of the vault at `addr`, if one exists.
    fn find_index(&self, addr: &Pubkey) -> (r: Option<usize>)
        ensures
            match r {
                Some(i) => i < self@.len() && self@[i as int].address@ == addr@,
                None => !has_addr(self@, addr@),
            },
    {
        let mut i: usize = 0;
        while i < self.entries.len()
            invariant
                0 <= i <= self@.len(),
                forall|j: int| 0 <= j < i ==> self@[j].address@ != addr@,
            decreases self@.len() - i,
        {
            if self.entries[i].address.eq_key(addr) {
                return Some(i);
            }
            i += 1;
        }
        None
    }

    /// The vault record at `addr`, if one exists, for inspection.
    pub fn get_tank(&self, addr: &Pubkey) -> (r: Option<GasTank>)
        requires
            self.wf(),
        ensures
            match r {
                Some(t) => has_addr(self@, addr@) && t == tank_at(self@, addr@),
                None => !has_addr(self@, addr@),
            },
    {
        match self.find_index(addr) {
            Some(i) => {
                proof {
                    lemma_vault_witness(self@, addr@, i as int);
                }
                Some(self.entries[i].tank)
            },
            None => None,
        }
    }

    /// Create the vault of `owner`: derive its address under this program,
    /// refuse the creation if the address is taken, otherwise store a
    /// fresh record there and hand the address back.
    pub fn initialize_tank(&mut self, owner: &Pubkey) -> (r: Result<Pubkey, ErrorCode>)
        requires
            old(self).wf(),
        ensures
            final(self).wf(),
            final(self).spec_program_id() == old(self).spec_program_id(),
            init_post(
                old(self)@,
                final(self)@,
                owner@,
                pda_of(namespace_seed(), owner@, old(self).spec_program_id()),
                r,
            ),
    {
        let ns = namespace_bytes();
        let (addr, bump) = derive_address(ns.as_slice(), owner, &self.program_id);
        match self.find_index(&addr) {
            Some(i) => {
                proof {
                    lemma_vault_witness(self@, addr@, i as int);
                }
                Err(ErrorCode::AlreadyExists)
            },
            None => {
                let tank = GasTank {
                    owner: *owner,
                    agent: Pubkey::zero(),
                    rules: Rules { max_spend_per_tx: 0 },
                    bump,
                    held_balance: 0,
                };
                let e = VaultEntry { address: addr, tank };
                proof {
                    lemma_vault_push(self@, e);
                }
                self.entries.push(e);
                Ok(addr)
            },
        }
    }

    /// Overwrite the policy of the vault at `vault`: only its owner may,
    /// and the stored owner must still re-derive to that address. Agent
    /// and cap change together; nothing else does.
    pub fn set_config(
        &mut self,
        caller: &Pubkey,
        vault: &Pubkey,
        agent_pubkey: &Pubkey,
        rules: Rules,
    ) -> (r: Result<(), ErrorCode>)
        requires
            old(self).wf(),
        ensures
            final(self).wf(),
            final(self).spec_program_id() == old(self).spec_program_id(),
            set_post(
                old(self)@,
                final(self)@,
                caller@,
                vault@,
                agent_pubkey@,
                rules,
                pda_of(
                    namespace_seed(),
                    tank_at(old(self)@, vault@).owner@,
                    old(self).spec_program_id(),
                ),
                r,
            ),
    {
        let i = match self.find_index(vault) {
            Some(i) => i,
            None => {
                return Err(ErrorCode::AddressMismatch);
            },
        };
        proof {
            lemma_vault_witness(self@, vault@, i as int);
        }
        let t = self.entries[i].tank;
        if !caller.eq_key(&t.owner) {
            return Err(ErrorCode::Unauthorized);
        }
        let ns = namespace_bytes();
        let (expected, expected_bump) = derive_address(ns.as_slice(), &t.owner, &self.program_id);
        if !expected.eq_key(vault) || expected_bump != t.bump {
            return Err(ErrorCode::AddressMismatch);
        }
        let mut e = self.entries[i];
        e.tank.agent = *agent_pubkey;
        e.tank.rules = rules;
        self.entries[i] = e;
        proof {
            lemma_vault_update(old(self)@, self@, i as int, e);
        }
        Ok(())
    }

    /// Deposit `amount` from the caller's external balance into the vault
    /// at `vault`. The caller's identity must re-derive to that address:
    /// only the owner deposits into their own vault. All-or-nothing: a
    /// failed withdrawal or an overflowing credit moves nothing.
    pub fn deposit_sol(
        &mut self,
        ledger: &mut Ledger,
        caller: &Pubkey,
        vault: &Pubkey,
        amount: u64,
    ) -> (r: Result<(), ErrorCode>)
        requires
            old(self).wf(),
            old(ledger).wf(),
        ensures
            final(self).wf(),
            final(ledger).wf(),
            final(self).spec_program_id() == old(self).spec_program_id(),
            deposit_post(
                old(self)@,
                final(self)@,
                old(ledger)@,
                final(ledger)@,
                caller@,
                vault@,
                amount,
                pda_of(namespace_seed(), caller@, old(self).spec_program_id()),
                r,
            ),
    {
        let i = match self.find_index(vault) {
            Some(i) => i,
            None => {
                return Err(ErrorCode::AddressMismatch);
            },
        };
        proof {
            lemma_vault_witness(self@, vault@, i as int);
        }
        let t = self.entries[i].tank;
        let ns = namespace_bytes();
        let (expected, expected_bump) = derive_address(ns.as_slice(), caller, &self.program_id);
        if !expected.eq_key(vault) || expected_bump != t.bump {
            return Err(ErrorCode::AddressMismatch);
        }
        if amount > u64::MAX - t.held_balance {
            return Err(ErrorCode::ArithmeticOverflow);
        }
        match ledger.withdraw(caller, amount) {
            Ok(()) => {},
            Err(e) => {
                return Err(e);
            },
        }
        let mut e = self.entries[i];
        e.tank.held_balance = t.held_balance + amount;
        self.entries[i] = e;
        proof {
            lemma_vault_update(old(self)@, self@, i as int, e);
        }
        Ok(())
    }

    /// Spend `amount` from the vault at `vault` to `destination`, on the
    /// configured agent's authority. Checks run in order — agent identity,
    /// per-transaction cap, held balance, destination overflow — and the
    /// first failure aborts with nothing moved. On success the debit and
    /// the credit commit together and a receipt is handed back.
    pub fn agent_spend(
        &mut self,
        ledger: &mut Ledger,
        caller: &Pubkey,
        vault: &Pubkey,
        destination: &Pubkey,
        amount: u64,
    ) -> (r: Result<TransferReceipt, ErrorCode>)
        requires
            old(self).wf(),
            old(ledger).wf(),
        ensures
            final(self).wf(),
            final(ledger).wf(),
            final(self).spec_program_id() == old(self).spec_program_id(),
            spend_post(
                old(self)@,
                final(self)@,
                old(ledger)@,
                final(ledger)@,
                caller@,
                vault@,
                destination@,
                amount,
                pda_of(
                    namespace_seed(),
                    tank_at(old(self)@, vault@).owner@,
                    old(self).spec_program_id(),
                ),
                r,
            ),
    {
        let i = match self.find_index(vault) {
            Some(i) => i,
            None => {
                return Err(ErrorCode::AddressMismatch);
            },
        };
        proof {
            lemma_vault_witness(self@, vault@, i as int);
        }
        let t = self.entries[i].tank;
        if !caller.eq_key(&t.agent) || t.agent.is_zero() {
            return Err(ErrorCode::Unauthorized);
        }
        let ns = namespace_bytes();
        let (expected, expected_bump) = derive_address(ns.as_slice(), &t.owner, &self.program_id);
        if !expected.eq_key(vault) || expected_bump != t.bump {
            return Err(ErrorCode::AddressMismatch);
        }
        if amount > t.rules.max_spend_per_tx {
            return Err(ErrorCode::SpendingLimitExceeded);
        }
        if amount > t.held_balance {
            return Err(ErrorCode::InsufficientFunds);
        }
        match ledger.credit(destination, amount) {
            Ok(()) => {},
            Err(e) => {
                return Err(e);
            },
        }
        let mut e = self.entries[i];
        e.tank.held_balance = t.held_balance - amount;
        self.entries[i] = e;
        proof {
            lemma_vault_update(old(self)@, self@, i as int, e);
        }
        Ok(TransferReceipt { agent: *caller, destination: *destination, amount })
    }
}

} // verus!
