//! The escrow state machine, specified over the ledger's abstract view.
//!
//! Each trade operation is described by a pair of functions: a result
//! function saying exactly which outcome the operation reports on a given
//! pre-state, and a post function giving the state after a successful run.
//! The executable operations on [`crate::ledger::Ledger`] are verified
//! against these; the laws in [`crate::laws`] are proved from them. The
//! `key` argument is the derived authority lookup for the maker and seed in
//! question, as the executable operations obtain it from the derivation.

use vstd::prelude::*;

use crate::error::EscrowError;
use crate::ledger::EscrowModel;
use crate::ledger::LedgerView;
use crate::ledger::STORAGE_BOND;
use crate::ledger::bal;
use crate::ledger::credited;
use crate::ledger::debited;
use crate::ledger::nbal;
use crate::ledger::ncredited;
use crate::ledger::ndebited;

verus! {

/// The outcome of Make: rejected when the authority cannot be derived, when
/// an escrow already sits at the derived address, or when the maker cannot
/// cover the deposit and the storage bond; accepted otherwise.
pub open spec fn make_result(
    l: LedgerView,
    maker: Seq<u8>,
    mint_a: Seq<u8>,
    deposit: u64,
    key: Option<(Seq<u8>, u8)>,
) -> Result<(), EscrowError> {
    match key {
        None => Err(EscrowError::InvalidAuthority),
        Some(p) => if l.escrows.contains_key(p.0) {
            Err(EscrowError::AlreadyExists)
        } else if bal(l.wallets, maker, mint_a) < deposit {
            Err(EscrowError::InsufficientFunds)
        } else if nbal(l.native, maker) < STORAGE_BOND {
            Err(EscrowError::InsufficientFunds)
        } else {
            Ok(())
        },
    }
}

/// The ledger after a successful Make: the record and vault exist at the
/// derived address, the vault holds exactly the deposit, and the maker has
/// paid the deposit and the storage bond — all in one atomic unit.
pub open spec fn make_post(
    l: LedgerView,
    maker: Seq<u8>,
    seed: u64,
    mint_a: Seq<u8>,
    mint_b: Seq<u8>,
    deposit: u64,
    receive: u64,
    addr: Seq<u8>,
    bump: u8,
) -> LedgerView {
    LedgerView {
        wallets: debited(l.wallets, maker, mint_a, deposit),
        escrows: l.escrows.insert(
            addr,
            EscrowModel {
                seed,
                maker,
                mint_a,
                mint_b,
                receive,
                bump,
                vault_amount: deposit,
                bond: STORAGE_BOND,
            },
        ),
        native: ndebited(l.native, maker, STORAGE_BOND),
    }
}

/// The outcome of Take: not found when no record sits at the derived address
/// (never created, or already settled or refunded); an authority error when
/// the record's own terms do not match the supplied maker and seed; a funds
/// error when the taker cannot pay the requested amount; an overflow error
/// when a credited balance would leave the native range; accepted otherwise.
pub open spec fn take_result(
    l: LedgerView,
    taker: Seq<u8>,
    maker: Seq<u8>,
    seed: u64,
    key: Option<(Seq<u8>, u8)>,
) -> Result<(), EscrowError> {
    match key {
        None => Err(EscrowError::NotFound),
        Some(p) => if !l.escrows.contains_key(p.0) {
            Err(EscrowError::NotFound)
        } else {
            let e = l.escrows[p.0];
            let w1 = debited(l.wallets, taker, e.mint_b, e.receive);
            let w2 = credited(w1, e.maker, e.mint_b, e.receive);
            if e.maker != maker || e.seed != seed {
                Err(EscrowError::InvalidAuthority)
            } else if bal(l.wallets, taker, e.mint_b) < e.receive {
                Err(EscrowError::InsufficientFunds)
            } else if bal(w1, e.maker, e.mint_b) + e.receive > u64::MAX {
                Err(EscrowError::ArithmeticOverflow)
            } else if bal(w2, taker, e.mint_a) + e.vault_amount > u64::MAX {
                Err(EscrowError::ArithmeticOverflow)
            } else if nbal(l.native, e.maker) + e.bond > u64::MAX {
                Err(EscrowError::ArithmeticOverflow)
            } else {
                Ok(())
            }
        },
    }
}

/// The ledger after a successful Take, in the operation's fixed order: the
/// taker pays the maker the requested amount (payment before delivery), the
/// taker receives the vault's entire live balance, and the record and vault
/// are released, returning their storage bond to the maker — all in one
/// atomic unit.
pub open spec fn take_post(l: LedgerView, taker: Seq<u8>, addr: Seq<u8>) -> LedgerView {
    let e = l.escrows[addr];
    let w1 = debited(l.wallets, taker, e.mint_b, e.receive);
    let w2 = credited(w1, e.maker, e.mint_b, e.receive);
    let w3 = credited(w2, taker, e.mint_a, e.vault_amount);
    LedgerView {
        wallets: w3,
        escrows: l.escrows.remove(addr),
        native: ncredited(l.native, e.maker, e.bond),
    }
}

/// The outcome of Refund: not found and authority errors as for Take; the
/// caller must be the record's own maker; an overflow error when a restored
/// balance would leave the native range; accepted otherwise. Refund may be
/// called at any time before a successful Take.
pub open spec fn refund_result(
    l: LedgerView,
    caller: Seq<u8>,
    maker: Seq<u8>,
    seed: u64,
    key: Option<(Seq<u8>, u8)>,
) -> Result<(), EscrowError> {
    match key {
        None => Err(EscrowError::NotFound),
        Some(p) => if !l.escrows.contains_key(p.0) {
            Err(EscrowError::NotFound)
        } else {
            let e = l.escrows[p.0];
            if e.maker != maker || e.seed != seed {
                Err(EscrowError::InvalidAuthority)
            } else if caller != e.maker {
                Err(EscrowError::Unauthorized)
            } else if bal(l.wallets, e.maker, e.mint_a) + e.vault_amount > u64::MAX {
                Err(EscrowError::ArithmeticOverflow)
            } else if nbal(l.native, e.maker) + e.bond > u64::MAX {
                Err(EscrowError::ArithmeticOverflow)
            } else {
                Ok(())
            }
        },
    }
}

/// The ledger after a successful Refund: the vault's entire balance goes back
/// to the maker, and the record and vault are released, returning their
/// storage bond to the maker — all in one atomic unit.
pub open spec fn refund_post(l: LedgerView, addr: Seq<u8>) -> LedgerView {
    let e = l.escrows[addr];
    LedgerView {
        wallets: credited(l.wallets, e.maker, e.mint_a, e.vault_amount),
        escrows: l.escrows.remove(addr),
        native: ncredited(l.native, e.maker, e.bond),
    }
}

/// The outcome of an external deposit into an escrow's vault: anyone holding
/// the vault's asset may move funds in; only the derived authority can ever
/// move funds out.
pub open spec fn vault_deposit_result(
    l: LedgerView,
    from: Seq<u8>,
    amount: u64,
    key: Option<(Seq<u8>, u8)>,
) -> Result<(), EscrowError> {
    match key {
        None => Err(EscrowError::NotFound),
        Some(p) => if !l.escrows.contains_key(p.0) {
            Err(EscrowError::NotFound)
        } else {
            let e = l.escrows[p.0];
            if bal(l.wallets, from, e.mint_a) < amount {
                Err(EscrowError::InsufficientFunds)
            } else if e.vault_amount + amount > u64::MAX {
                Err(EscrowError::ArithmeticOverflow)
            } else {
                Ok(())
            }
        },
    }
}

/// The ledger after a successful external deposit into an escrow's vault:
/// the sender's balance drops and the vault's live balance rises by the same
/// amount.
pub open spec fn vault_deposit_post(
    l: LedgerView,
    from: Seq<u8>,
    amount: u64,
    addr: Seq<u8>,
) -> LedgerView {
    let e = l.escrows[addr];
    LedgerView {
        wallets: debited(l.wallets, from, e.mint_a, amount),
        escrows: l.escrows.insert(
            addr,
            EscrowModel { vault_amount: (e.vault_amount + amount) as u64, ..e },
        ),
        ..l
    }
}

} // verus!
