//! Deterministic authority derivation.
//!
//! The control address of an escrow's custody vault is computed from a fixed
//! namespace tag, the maker's identity and a nonce, together with a
//! canonicalization bump that guarantees the address has no private key. The
//! derivation itself is the ledger runtime's program-derived-address scheme;
//! this module names its results so the rest of the library can reason about
//! them exactly.

use vstd::prelude::*;

use crate::Address;

verus! {

/// What the runtime's program-address search returns for this library's
/// namespace, the given maker and the given nonce: the derived address and
/// its canonical bump, or nothing in the statistically improbable event that
/// no bump yields a valid (off-curve) address. A function of maker and seed
/// alone.
pub uninterp spec fn derived_authority(maker: Seq<u8>, seed: u64) -> Option<(Seq<u8>, u8)>;

/// What the runtime's program-address construction returns for this library's
/// namespace, the given maker, nonce and an explicitly supplied bump: the
/// address, or nothing if that bump does not yield a valid (off-curve)
/// address. A function of maker, seed and bump alone.
pub uninterp spec fn authority_for_bump(maker: Seq<u8>, seed: u64, bump: u8) -> Option<Seq<u8>>;

/// Relies on `Pubkey::try_find_program_address`: for fixed seeds and program
/// id it is a pure function, searching bumps from 255 downward and returning
/// the first bump for which `Pubkey::create_program_address` on the same
/// seeds succeeds, together with that address; `None` only if no bump at all
/// succeeds.
#[verifier::external_body]
fn find_escrow_authority(maker: &Address, seed: u64) -> (r: Option<(Address, u8)>)
    ensures
        (match r {
            Some(p) => derived_authority(maker@, seed) == Some((p.0@, p.1))
                && authority_for_bump(maker@, seed, p.1) == Some(p.0@),
            None => derived_authority(maker@, seed) is None,
        }),
{
    let program_id =
        anchor_lang::prelude::Pubkey::from_str_const("7RwCakEJihTYJDvpQHkBnXZBuTgX9x51Wrg5Ut4DMRxm");
    let seed_bytes = seed.to_le_bytes();
    let seeds: [&[u8]; 3] = [b"escrow", &maker[..], &seed_bytes];
    match anchor_lang::prelude::Pubkey::try_find_program_address(&seeds, &program_id) {
        Some((address, bump)) => Some((address.to_bytes(), bump)),
        None => None,
    }
}

/// Relies on `Pubkey::create_program_address`: for fixed seeds, bump and
/// program id it is a pure function, returning the derived address, or an
/// error if the hash lands on the ed25519 curve (an invalid bump).
#[verifier::external_body]
fn escrow_authority_for_bump(maker: &Address, seed: u64, bump: u8) -> (r: Option<Address>)
    ensures
        (match r {
            Some(a) => authority_for_bump(maker@, seed, bump) == Some(a@),
            None => authority_for_bump(maker@, seed, bump) is None,
        }),
{
    let program_id =
        anchor_lang::prelude::Pubkey::from_str_const("7RwCakEJihTYJDvpQHkBnXZBuTgX9x51Wrg5Ut4DMRxm");
    let seed_bytes = seed.to_le_bytes();
    let bump_bytes = [bump];
    let seeds: [&[u8]; 4] = [b"escrow", &maker[..], &seed_bytes, &bump_bytes];
    match anchor_lang::prelude::Pubkey::create_program_address(&seeds, &program_id) {
        Ok(address) => Some(address.to_bytes()),
        Err(_) => None,
    }
}

/// Derives the escrow authority for a maker and nonce: the control address of
/// the custody vault and the canonical bump. Reproducible by any party from
/// the public seed material; no private key for the address ever exists.
pub fn derive_authority(maker: &Address, seed: u64) -> (r: Option<(Address, u8)>)
    ensures
        (match r {
            Some(p) => derived_authority(maker@, seed) == Some((p.0@, p.1))
                && authority_for_bump(maker@, seed, p.1) == Some(p.0@),
            None => derived_authority(maker@, seed) is None,
        }),
{
    find_escrow_authority(maker, seed)
}

/// Re-derives the authority address from an explicitly supplied bump, as every
/// verifying operation must: a stored bump is reproduced and checked, never
/// trusted. Returns `None` for an invalid bump.
pub fn reproduce_authority(maker: &Address, seed: u64, bump: u8) -> (r: Option<Address>)
    ensures
        (match r {
            Some(a) => authority_for_bump(maker@, seed, bump) == Some(a@),
            None => authority_for_bump(maker@, seed, bump) is None,
        }),
{
    escrow_authority_for_bump(maker, seed, bump)
}

/// Derivation is deterministic: any two results of the derivation on the same
/// maker and seed are the same address and the same bump.
pub proof fn lemma_derivation_deterministic(
    maker: Seq<u8>,
    seed: u64,
    r1: Option<(Seq<u8>, u8)>,
    r2: Option<(Seq<u8>, u8)>,
)
    ensures
        r1 == derived_authority(maker, seed) && r2 == derived_authority(maker, seed) ==> r1 == r2,
{
}

} // verus!
