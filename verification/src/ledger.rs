use vstd::prelude::*;

use crate::errors::ErrorCode;
use crate::keys::Pubkey;

verus! {

/// One external account: an identity and the value it holds outside any
/// vault.
#[derive(Clone, Copy, Debug, PartialEq, Eq)]
pub struct LedgerAccount {
    pub id: Pubkey,
    pub balance: u64,
}

/// Whether some account in `s` carries the identity `id`.
pub open spec fn has_acct(s: Seq<LedgerAccount>, id: Seq<u8>) -> bool {
    exists|i: int| 0 <= i < s.len() && s[i].id@ == id
}

/// The position of the account carrying `id` (meaningful when `has_acct`
/// holds and identities are unique).
pub open spec fn acct_index(s: Seq<LedgerAccount>, id: Seq<u8>) -> int {
    choose|i: int| 0 <= i < s.len() && s[i].id@ == id
}

/// The balance `s` records for `id`; an identity without an account holds
/// nothing.
pub open spec fn balance_of(s: Seq<LedgerAccount>, id: Seq<u8>) -> u64 {
    if has_acct(s, id) {
        s[acct_index(s, id)].balance
    } else {
        0u64
    }
}

/// No identity appears twice.
pub open spec fn unique_accts(s: Seq<LedgerAccount>) -> bool {
    forall|i: int, j: int|
        0 <= i < s.len() && 0 <= j < s.len() && i != j ==> s[i].id@ != s[j].id@
}

/// Balances outside `id` agree between `pre` and `post`.
pub open spec fn balances_except(pre: Seq<LedgerAccount>, post: Seq<LedgerAccount>, id: Seq<u8>) -> bool {
    forall|a: Seq<u8>| a != id ==> balance_of(post, a) == balance_of(pre, a)
}

/// In a ledger with unique identities, any position holding `id` is the
/// position `balance_of` reads.
proof fn lemma_acct_witness(s: Seq<LedgerAccount>, id: Seq<u8>, i: int)
    requires
        unique_accts(s),
        0 <= i < s.len(),
        s[i].id@ == id,
    ensures
        has_acct(s, id),
        acct_index(s, id) == i,
        balance_of(s, id) == s[i].balance,
{
    assert(has_acct(s, id));
    let k = acct_index(s, id);
    assert(0 <= k < s.len() && s[k].id@ == id);
    if k != i {
        assert(s[k].id@ != s[i].id@);
    }
}

/// Overwriting the balance at a position leaves every other identity's
/// balance alone.
proof fn lemma_acct_update(pre: Seq<LedgerAccount>, post: Seq<LedgerAccount>, i: int, e: LedgerAccount)
    requires
        unique_accts(pre),
        0 <= i < pre.len(),
        e.id@ == pre[i].id@,
        post == pre.update(i, e),
    ensures
        unique_accts(post),
        balance_of(post, pre[i].id@) == e.balance,
        balances_except(pre, post, pre[i].id@),
{
    let id = pre[i].id@;
    assert(forall|j: int| 0 <= j < post.len() ==> post[j].id@ == pre[j].id@);
    assert(unique_accts(post));
    lemma_acct_witness(post, id, i);
    assert forall|a: Seq<u8>| a != id implies balance_of(post, a) == balance_of(pre, a) by {
        if has_acct(pre, a) {
            let j = acct_index(pre, a);
            assert(0 <= j < pre.len() && pre[j].id@ == a);
            assert(j != i);
            lemma_acct_witness(post, a, j);
            lemma_acct_witness(pre, a, j);
        } else {
            if has_acct(post, a) {
                let j = acct_index(post, a);
                assert(pre[j].id@ == a);
            }
        }
    }
}

/// Appending an account for a fresh identity gives it that balance and
/// leaves every other identity's balance alone.
proof fn lemma_acct_push(pre: Seq<LedgerAccount>, e: LedgerAccount)
    requires
        unique_accts(pre),
        !has_acct(pre, e.id@),
    ensures
        unique_accts(pre.push(e)),
        balance_of(pre.push(e), e.id@) == e.balance,
        balances_except(pre, pre.push(e), e.id@),
{
    let post = pre.push(e);
    assert forall|i: int, j: int|
        0 <= i < post.len() && 0 <= j < post.len() && i != j implies post[i].id@ != post[j].id@ by {
        if i < pre.len() && j < pre.len() {
            assert(pre[i].id@ != pre[j].id@);
        } else if i < pre.len() {
            assert(post[j] == e);
            assert(pre[i].id@ != e.id@);
        } else {
            assert(post[i] == e);
            assert(pre[j].id@ != e.id@);
        }
    }
    lemma_acct_witness(post, e.id@, pre.len() as int);
    assert forall|a: Seq<u8>| a != e.id@ implies balance_of(post, a) == balance_of(pre, a) by {
        if has_acct(pre, a) {
            let j = acct_index(pre, a);
            lemma_acct_witness(post, a, j);
            lemma_acct_witness(pre, a, j);
        } else {
            if has_acct(post, a) {
                let j = acct_index(post, a);
                assert(0 <= j < post.len() && post[j].id@ == a);
                assert(j < pre.len() ==> pre[j].id@ == a);
                assert(j == pre.len() as int ==> post[j] == e);
            }
        }
    }
}

/// The external value-transfer capability, modeled in full: a table of
/// identities and the balances they hold, with checked, all-or-nothing
/// mutations. The core moves value between vaults and this ledger.
pub struct Ledger {
    accounts: Vec<LedgerAccount>,
}

impl View for Ledger {
    type V = Seq<LedgerAccount>;

    closed spec fn view(&self) -> Seq<LedgerAccount> {
        self.accounts@
    }
}

impl Ledger {
    /// Identities are unique, so each has one well-defined balance.
    pub open spec fn wf(self) -> bool {
        unique_accts(self@)
    }

    /// An empty ledger: every identity holds nothing.
    pub fn new() -> (r: Ledger)
        ensures
            r.wf(),
            forall|a: Seq<u8>| balance_of(r@, a) == 0u64,
    {
        let l = Ledger { accounts: Vec::new() };
        proof {
            assert(forall|a: Seq<u8>| !has_acct(l@, a));
        }
        l
    }

    /// The position of `id`'s account, if it has one.
    fn find_index(&self, id: &Pubkey) -> (r: Option<usize>)
        ensures
            match r {
                Some(i) => i < self@.len() && self@[i as int].id@ == id@,
                None => !has_acct(self@, id@),
            },
    {
        let mut i: usize = 0;
        while i < self.accounts.len()
            invariant
                0 <= i <= self@.len(),
                forall|j: int| 0 <= j < i ==> self@[j].id@ != id@,
            decreases self@.len() - i,
        {
            if self.accounts[i].id.eq_key(id) {
                return Some(i);
            }
            i += 1;
        }
        None
    }

    /// What `self` records for `id`.
    pub fn balance(&self, id: &Pubkey) -> (r: u64)
        requires
            self.wf(),
        ensures
            r == balance_of(self@, id@),
    {
        match self.find_index(id) {
            Some(i) => {
                let b = self.accounts[i].balance;
                proof {
                    lemma_acct_witness(self@, id@, i as int);
                }
                b
            },
            None => 0,
        }
    }

    /// `external_credit`: add `amount` to what `id` holds. Fails closed with
    /// `ArithmeticOverflow`, and changes nothing, where the checked addition
    /// would overflow; every other balance is untouched either way.
    pub fn credit(&mut self, id: &Pubkey, amount: u64) -> (r: Result<(), ErrorCode>)
        requires
            old(self).wf(),
        ensures
            final(self).wf(),
            match r {
                Ok(()) => {
                    &&& balance_of(old(self)@, id@) + amount <= u64::MAX
                    &&& balance_of(final(self)@, id@) == balance_of(old(self)@, id@) + amount
                    &&& balances_except(old(self)@, final(self)@, id@)
                },
                Err(e) => {
                    &&& e == ErrorCode::ArithmeticOverflow
                    &&& balance_of(old(self)@, id@) + amount > u64::MAX
                    &&& final(self)@ == old(self)@
                },
            },
    {
        match self.find_index(id) {
            Some(i) => {
                proof {
                    lemma_acct_witness(self@, id@, i as int);
                }
                let held = self.accounts[i].balance;
                if amount > u64::MAX - held {
                    return Err(ErrorCode::ArithmeticOverflow);
                }
                let mut e = self.accounts[i];
                e.balance = held + amount;
                self.accounts[i] = e;
                proof {
                    lemma_acct_update(old(self)@, self@, i as int, e);
                }
                Ok(())
            },
            None => {
                let e = LedgerAccount { id: *id, balance: amount };
                self.accounts.push(e);
                proof {
                    lemma_acct_push(old(self)@, e);
                }
                Ok(())
            },
        }
    }

    /// `external_withdraw`: take `amount` out of what `id` holds. Fails
    /// closed with `InsufficientFunds`, and changes nothing, where `id`
    /// holds less than `amount`; every other balance is untouched either
    /// way.
    pub fn withdraw(&mut self, id: &Pubkey, amount: u64) -> (r: Result<(), ErrorCode>)
        requires
            old(self).wf(),
        ensures
            final(self).wf(),
            match r {
                Ok(()) => {
                    &&& balance_of(old(self)@, id@) >= amount
                    &&& balance_of(final(self)@, id@) == balance_of(old(self)@, id@) - amount
                    &&& balances_except(old(self)@, final(self)@, id@)
                },
                Err(e) => {
                    &&& e == ErrorCode::InsufficientFunds
                    &&& balance_of(old(self)@, id@) < amount
                    &&& final(self)@ == old(self)@
                },
            },
    {
        match self.find_index(id) {
            Some(i) => {
                proof {
                    lemma_acct_witness(self@, id@, i as int);
                }
                let held = self.accounts[i].balance;
                if amount > held {
                    return Err(ErrorCode::InsufficientFunds);
                }
                let mut e = self.accounts[i];
                e.balance = held - amount;
                self.accounts[i] = e;
                proof {
                    lemma_acct_update(old(self)@, self@, i as int, e);
                }
                Ok(())
            },
            None => {
                if amount == 0 {
                    Ok(())
                } else {
                    Err(ErrorCode::InsufficientFunds)
                }
            },
        }
    }
}

} // verus!
