use vstd::prelude::*;

verus! {

/// Every way an operation can fail. All failures are terminal and leave
/// every piece of state exactly as it was.
#[derive(Clone, Copy, Debug, PartialEq, Eq)]
pub enum ErrorCode {
    /// Vault creation was attempted for an owner that already has one.
    AlreadyExists,
    /// The caller is not the role the operation demands: the owner for
    /// policy changes, the configured agent for spends.
    Unauthorized,
    /// A spend asked for more than the per-transaction cap allows.
    SpendingLimitExceeded,
    /// A spend (or the checked debit guarding it) asked for more than the
    /// vault holds, or a withdrawal asked for more than the external balance.
    InsufficientFunds,
    /// A checked credit would overflow the destination's balance.
    ArithmeticOverflow,
    /// A supplied vault reference does not re-derive to the address implied
    /// by its claimed owner.
    AddressMismatch,
}

} // verus!
