//! An escrow trade protocol: a two-party, atomic, custody-based asset swap.
//!
//! A maker deposits an offered asset into a custody vault controlled by a
//! deterministically derived authority (no private key exists for it), and a
//! taker later settles the trade by paying the requested counter-asset in a
//! single indivisible operation. The ledger itself (accounts, balances,
//! records) is modelled as an addressable store, [`ledger::Ledger`], so that
//! every state transition of the protocol is a verified function.

use vstd::prelude::*;

pub mod authority;
pub mod error;
pub mod laws;
pub mod ledger;
pub mod protocol;
pub mod state;

verus! {

/// A participant identity or account address on the ledger: 32 raw bytes.
pub type Address = [u8; 32];

/// Compares two addresses byte by byte.
pub fn addr_eq(a: &Address, b: &Address) -> (r: bool)
    ensures
        r == (a@ == b@),
{
    let mut i: usize = 0;
    while i < 32
        invariant
            i <= 32,
            forall|j: int| 0 <= j < i ==> a@[j] == b@[j],
        decreases 32 - i,
    {
        if a[i] != b[i] {
            return false;
        }
        i += 1;
    }
    proof {
        assert(a@ =~= b@);
    }
    true
}

} // verus!
