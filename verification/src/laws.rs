//! Laws of the escrow protocol, proved over the state machine in
//! [`crate::protocol`]. Each law quantifies over an arbitrary pre-state and
//! an arbitrary derived address, so it holds of every ledger the operations
//! can produce.

use vstd::prelude::*;

use crate::error::EscrowError;
use crate::ledger::LedgerView;
use crate::ledger::STORAGE_BOND;
use crate::ledger::bal;
use crate::ledger::nbal;
use crate::protocol::make_post;
use crate::protocol::make_result;
use crate::protocol::refund_post;
use crate::protocol::refund_result;
use crate::protocol::take_post;
use crate::protocol::take_result;

verus! {

/// A successful Make funds the vault with exactly the deposit and reduces the
/// maker's balance of the offered asset by exactly the same amount, whatever
/// the deposit and terms.
pub proof fn lemma_make_funds_vault(
    pre: LedgerView,
    maker: Seq<u8>,
    seed: u64,
    mint_a: Seq<u8>,
    mint_b: Seq<u8>,
    deposit: u64,
    receive: u64,
    addr: Seq<u8>,
    bump: u8,
)
    requires
        make_result(pre, maker, mint_a, deposit, Some((addr, bump))) == Ok::<(), EscrowError>(()),
    ensures
        ({
            let post = make_post(pre, maker, seed, mint_a, mint_b, deposit, receive, addr, bump);
            &&& post.escrows.contains_key(addr)
            &&& post.escrows[addr].vault_amount == deposit
            &&& post.escrows[addr].receive == receive
            &&& bal(post.wallets, maker, mint_a) == bal(pre.wallets, maker, mint_a) - deposit
            &&& nbal(post.native, maker) == nbal(pre.native, maker) - STORAGE_BOND
        }),
{
}

/// Take is possible exactly once per record: after a successful Take, any
/// further Take of the same record, by any caller, fails with `NotFound`.
pub proof fn lemma_take_exactly_once(
    pre: LedgerView,
    taker1: Seq<u8>,
    taker2: Seq<u8>,
    maker: Seq<u8>,
    seed: u64,
    addr: Seq<u8>,
    bump: u8,
)
    requires
        take_result(pre, taker1, maker, seed, Some((addr, bump))) == Ok::<(), EscrowError>(()),
    ensures
        take_result(take_post(pre, taker1, addr), taker2, maker, seed, Some((addr, bump)))
            == Err::<(), EscrowError>(EscrowError::NotFound),
{
}

/// Settlement is terminal: after a successful Take, a Refund of the same
/// record also fails with `NotFound` — there is no transition out of the
/// settled state.
pub proof fn lemma_terminal_after_take(
    pre: LedgerView,
    taker: Seq<u8>,
    caller: Seq<u8>,
    maker: Seq<u8>,
    seed: u64,
    addr: Seq<u8>,
    bump: u8,
)
    requires
        take_result(pre, taker, maker, seed, Some((addr, bump))) == Ok::<(), EscrowError>(()),
    ensures
        refund_result(take_post(pre, taker, addr), caller, maker, seed, Some((addr, bump)))
            == Err::<(), EscrowError>(EscrowError::NotFound),
{
}

/// Refund is terminal: after a successful Refund, any further Take or Refund
/// of the same record fails with `NotFound` — there is no transition out of
/// the refunded state.
pub proof fn lemma_terminal_after_refund(
    pre: LedgerView,
    caller: Seq<u8>,
    taker2: Seq<u8>,
    caller2: Seq<u8>,
    maker: Seq<u8>,
    seed: u64,
    addr: Seq<u8>,
    bump: u8,
)
    requires
        refund_result(pre, caller, maker, seed, Some((addr, bump))) == Ok::<(), EscrowError>(()),
    ensures
        take_result(refund_post(pre, addr), taker2, maker, seed, Some((addr, bump))) == Err::<
            (),
            EscrowError,
        >(EscrowError::NotFound),
        refund_result(refund_post(pre, addr), caller2, maker, seed, Some((addr, bump))) == Err::<
            (),
            EscrowError,
        >(EscrowError::NotFound),
{
}

/// Take's payment step comes first: when the taker cannot pay the requested
/// amount, Take reports `InsufficientFunds`. Together with Take's contract —
/// every rejected Take leaves the ledger exactly as it was — nothing leaves
/// the vault and the record still exists.
pub proof fn lemma_take_atomic_when_unpaid(
    pre: LedgerView,
    taker: Seq<u8>,
    maker: Seq<u8>,
    seed: u64,
    addr: Seq<u8>,
    bump: u8,
)
    requires
        pre.escrows.contains_key(addr),
        pre.escrows[addr].maker == maker,
        pre.escrows[addr].seed == seed,
        bal(pre.wallets, taker, pre.escrows[addr].mint_b) < pre.escrows[addr].receive,
    ensures
        take_result(pre, taker, maker, seed, Some((addr, bump))) == Err::<(), EscrowError>(
            EscrowError::InsufficientFunds,
        ),
{
}

/// A successful Take pays the maker exactly the record's requested amount,
/// independent of what the vault holds, and pays the taker the vault's entire
/// live balance — not a cached deposit figure.
pub proof fn lemma_take_pays_exactly(
    pre: LedgerView,
    taker: Seq<u8>,
    maker: Seq<u8>,
    seed: u64,
    addr: Seq<u8>,
    bump: u8,
)
    requires
        take_result(pre, taker, maker, seed, Some((addr, bump))) == Ok::<(), EscrowError>(()),
        pre.escrows[addr].mint_a != pre.escrows[addr].mint_b,
        taker != maker,
    ensures
        ({
            let e = pre.escrows[addr];
            let post = take_post(pre, taker, addr);
            &&& bal(post.wallets, maker, e.mint_b) == bal(pre.wallets, maker, e.mint_b)
                + e.receive
            &&& bal(post.wallets, taker, e.mint_b) == bal(pre.wallets, taker, e.mint_b)
                - e.receive
            &&& bal(post.wallets, taker, e.mint_a) == bal(pre.wallets, taker, e.mint_a)
                + e.vault_amount
            &&& nbal(post.native, maker) == nbal(pre.native, maker) + e.bond
            &&& !post.escrows.contains_key(addr)
        }),
{
}

/// Refund after Make restores the maker's offered-asset and native balances
/// exactly, and the record and vault no longer exist.
pub proof fn lemma_refund_restores(
    pre: LedgerView,
    maker: Seq<u8>,
    seed: u64,
    mint_a: Seq<u8>,
    mint_b: Seq<u8>,
    deposit: u64,
    receive: u64,
    addr: Seq<u8>,
    bump: u8,
)
    requires
        make_result(pre, maker, mint_a, deposit, Some((addr, bump))) == Ok::<(), EscrowError>(()),
    ensures
        ({
            let mid = make_post(pre, maker, seed, mint_a, mint_b, deposit, receive, addr, bump);
            &&& refund_result(mid, maker, maker, seed, Some((addr, bump))) == Ok::<
                (),
                EscrowError,
            >(())
            &&& ({
                let post = refund_post(mid, addr);
                &&& bal(post.wallets, maker, mint_a) == bal(pre.wallets, maker, mint_a)
                &&& nbal(post.native, maker) == nbal(pre.native, maker)
                &&& !post.escrows.contains_key(addr)
            })
        }),
{
}

/// Refund is rejected, with `Unauthorized`, for any caller other than the
/// record's own maker.
pub proof fn lemma_refund_requires_maker(
    pre: LedgerView,
    caller: Seq<u8>,
    maker: Seq<u8>,
    seed: u64,
    addr: Seq<u8>,
    bump: u8,
)
    requires
        pre.escrows.contains_key(addr),
        pre.escrows[addr].maker == maker,
        pre.escrows[addr].seed == seed,
        caller != maker,
    ensures
        refund_result(pre, caller, maker, seed, Some((addr, bump))) == Err::<(), EscrowError>(
            EscrowError::Unauthorized,
        ),
{
}

} // verus!
