//! The failure reasons an escrow operation can report. Every error aborts the
//! whole operation with no partial effect on the ledger.

use vstd::prelude::*;

verus! {

/// Why an escrow operation was rejected.
#[derive(Clone, Copy, Debug, PartialEq, Eq, Structural)]
pub enum EscrowError {
    /// The derived address or bump does not check out: the authority could
    /// not be derived, or a stored record fails re-derivation.
    InvalidAuthority,
    /// No escrow record exists for the given maker and seed: it was never
    /// created, or it was already settled or refunded.
    NotFound,
    /// The caller is not the party this operation requires.
    Unauthorized,
    /// The source account holds less than the requested movement.
    InsufficientFunds,
    /// A balance would exceed the native integer range.
    ArithmeticOverflow,
    /// An escrow record already exists at the derived address.
    AlreadyExists,
}

} // verus!
