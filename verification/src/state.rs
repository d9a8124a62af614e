//! The escrow record: the persisted trade terms, keyed by the derived
//! authority address.

use vstd::prelude::*;

use crate::Address;

verus! {

/// The trade terms a maker commits to when opening an escrow. Created
/// atomically with the custody vault, immutable afterwards, and destroyed
/// atomically by settlement or refund.
#[derive(Clone, Copy, Debug)]
pub struct Escrow {
    /// Nonce disambiguating multiple escrows by the same maker.
    pub seed: u64,
    /// The maker's identity; the only party a refund may pay.
    pub maker: Address,
    /// The asset the maker has deposited into the vault.
    pub mint_a: Address,
    /// The asset the maker asks for in return.
    pub mint_b: Address,
    /// How much of `mint_b` the taker must pay the maker.
    pub receive: u64,
    /// Canonicalization bump of the derived authority address; reproduced and
    /// checked on every operation, never trusted.
    pub bump: u8,
}

} // verus!
