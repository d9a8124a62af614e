use escrow::Address;
use escrow::addr_eq;
use escrow::authority::derive_authority;
use escrow::authority::reproduce_authority;
use escrow::error::EscrowError;
use escrow::ledger::Ledger;
use escrow::ledger::STORAGE_BOND;

fn addr(n: u8) -> Address {
    let mut a = [0u8; 32];
    a[0] = n;
    a
}

/// A ledger with a maker funded to open escrows: `balance` of `mint_a` and
/// one storage bond of native currency.
fn funded_ledger(maker: &Address, mint_a: &Address, balance: u64) -> Ledger {
    let mut l = Ledger::new();
    l.airdrop(maker, STORAGE_BOND).unwrap();
    l.mint_to(maker, mint_a, balance).unwrap();
    l
}

#[test]
fn addr_eq_distinguishes() {
    assert!(addr_eq(&addr(1), &addr(1)));
    assert!(!addr_eq(&addr(1), &addr(2)));
}

#[test]
fn empty_ledger_balances_are_zero() {
    let l = Ledger::new();
    assert_eq!(l.wallet_balance(&addr(1), &addr(9)), 0);
    assert_eq!(l.native_balance(&addr(1)), 0);
    assert!(l.escrow_record(&addr(1), 0).is_none());
    assert!(l.vault_amount(&addr(1), 0).is_none());
}

#[test]
fn derivation_is_deterministic() {
    let maker = addr(3);
    let first = derive_authority(&maker, 11).expect("derivation should find a bump");
    let second = derive_authority(&maker, 11).expect("derivation should find a bump");
    assert_eq!(first.0, second.0);
    assert_eq!(first.1, second.1);
}

#[test]
fn derivation_differs_across_nonces() {
    let maker = addr(3);
    let a = derive_authority(&maker, 1).unwrap();
    let b = derive_authority(&maker, 2).unwrap();
    let c = derive_authority(&maker, 3).unwrap();
    assert_ne!(a.0, b.0);
    assert_ne!(a.0, c.0);
    assert_ne!(b.0, c.0);
}

#[test]
fn derivation_differs_across_makers() {
    let a = derive_authority(&addr(3), 1).unwrap();
    let b = derive_authority(&addr(4), 1).unwrap();
    assert_ne!(a.0, b.0);
}

#[test]
fn derived_address_is_not_the_maker() {
    let maker = addr(5);
    let (address, _) = derive_authority(&maker, 0).unwrap();
    assert_ne!(address, maker);
}

#[test]
fn canonical_bump_reproduces_the_address() {
    let maker = addr(6);
    let (address, bump) = derive_authority(&maker, 42).unwrap();
    let reproduced = reproduce_authority(&maker, 42, bump);
    assert_eq!(reproduced, Some(address));
}

#[test]
fn bumps_above_the_canonical_are_invalid() {
    let maker = addr(6);
    let (_, bump) = derive_authority(&maker, 42).unwrap();
    // The search starts at 255 and returns the first valid bump, so every
    // bump above the canonical one fails to derive an address.
    for b in (bump as u16 + 1)..=255 {
        assert_eq!(reproduce_authority(&maker, 42, b as u8), None);
    }
}

#[test]
fn make_funds_vault_and_debits_maker() {
    let maker = addr(1);
    let mint_a = addr(10);
    let mint_b = addr(11);
    let mut l = funded_ledger(&maker, &mint_a, 100);
    l.make(&maker, 7, &mint_a, &mint_b, 42, 9).unwrap();
    assert_eq!(l.vault_amount(&maker, 7), Some(42));
    assert_eq!(l.wallet_balance(&maker, &mint_a), 58);
    assert_eq!(l.native_balance(&maker), 0);
    let rec = l.escrow_record(&maker, 7).unwrap();
    assert_eq!(rec.seed, 7);
    assert_eq!(rec.maker, maker);
    assert_eq!(rec.mint_a, mint_a);
    assert_eq!(rec.mint_b, mint_b);
    assert_eq!(rec.receive, 9);
}

#[test]
fn make_rejects_insufficient_deposit_funds() {
    let maker = addr(1);
    let mint_a = addr(10);
    let mut l = funded_ledger(&maker, &mint_a, 30);
    let r = l.make(&maker, 1, &mint_a, &addr(11), 31, 5);
    assert_eq!(r, Err(EscrowError::InsufficientFunds));
    assert_eq!(l.wallet_balance(&maker, &mint_a), 30);
    assert!(l.escrow_record(&maker, 1).is_none());
}

#[test]
fn make_rejects_missing_storage_bond() {
    let maker = addr(1);
    let mint_a = addr(10);
    let mut l = Ledger::new();
    l.mint_to(&maker, &mint_a, 100).unwrap();
    l.airdrop(&maker, STORAGE_BOND - 1).unwrap();
    let r = l.make(&maker, 1, &mint_a, &addr(11), 10, 5);
    assert_eq!(r, Err(EscrowError::InsufficientFunds));
}

#[test]
fn make_rejects_a_second_escrow_under_the_same_seed() {
    let maker = addr(1);
    let mint_a = addr(10);
    let mut l = funded_ledger(&maker, &mint_a, 100);
    l.airdrop(&maker, STORAGE_BOND).unwrap();
    l.make(&maker, 1, &mint_a, &addr(11), 10, 5).unwrap();
    let r = l.make(&maker, 1, &mint_a, &addr(11), 10, 5);
    assert_eq!(r, Err(EscrowError::AlreadyExists));
    assert_eq!(l.vault_amount(&maker, 1), Some(10));
}

#[test]
fn make_under_distinct_seeds_opens_distinct_escrows() {
    let maker = addr(1);
    let mint_a = addr(10);
    let mut l = funded_ledger(&maker, &mint_a, 100);
    l.airdrop(&maker, STORAGE_BOND).unwrap();
    l.make(&maker, 1, &mint_a, &addr(11), 10, 5).unwrap();
    l.make(&maker, 2, &mint_a, &addr(11), 20, 5).unwrap();
    assert_eq!(l.vault_amount(&maker, 1), Some(10));
    assert_eq!(l.vault_amount(&maker, 2), Some(20));
    assert_eq!(l.wallet_balance(&maker, &mint_a), 70);
}

#[test]
fn make_accepts_zero_amounts() {
    // Whether zero-amount terms are worth opening is caller policy; the
    // protocol does not reject them.
    let maker = addr(1);
    let mint_a = addr(10);
    let mut l = funded_ledger(&maker, &mint_a, 5);
    l.make(&maker, 1, &mint_a, &addr(11), 0, 0).unwrap();
    assert_eq!(l.vault_amount(&maker, 1), Some(0));
}

#[test]
fn take_settles_once_then_not_found() {
    let maker = addr(1);
    let taker = addr(2);
    let mint_a = addr(10);
    let mint_b = addr(11);
    let mut l = funded_ledger(&maker, &mint_a, 100);
    l.make(&maker, 1, &mint_a, &mint_b, 100, 50).unwrap();
    l.mint_to(&taker, &mint_b, 50).unwrap();
    assert_eq!(l.take(&taker, &maker, 1), Ok(()));
    assert_eq!(l.take(&taker, &maker, 1), Err(EscrowError::NotFound));
    assert_eq!(l.take(&addr(9), &maker, 1), Err(EscrowError::NotFound));
}

#[test]
fn take_before_make_is_not_found() {
    let mut l = Ledger::new();
    assert_eq!(l.take(&addr(2), &addr(1), 1), Err(EscrowError::NotFound));
}

#[test]
fn take_is_atomic_when_payment_fails() {
    let maker = addr(1);
    let taker = addr(2);
    let mint_a = addr(10);
    let mint_b = addr(11);
    let mut l = funded_ledger(&maker, &mint_a, 100);
    l.make(&maker, 1, &mint_a, &mint_b, 100, 50).unwrap();
    l.mint_to(&taker, &mint_b, 49).unwrap();
    let r = l.take(&taker, &maker, 1);
    assert_eq!(r, Err(EscrowError::InsufficientFunds));
    // Nothing left the vault and the record still exists.
    assert_eq!(l.vault_amount(&maker, 1), Some(100));
    assert!(l.escrow_record(&maker, 1).is_some());
    assert_eq!(l.wallet_balance(&taker, &mint_b), 49);
    assert_eq!(l.wallet_balance(&taker, &mint_a), 0);
    assert_eq!(l.wallet_balance(&maker, &mint_b), 0);
}

#[test]
fn take_pays_the_live_vault_balance() {
    let maker = addr(1);
    let taker = addr(2);
    let third = addr(3);
    let mint_a = addr(10);
    let mint_b = addr(11);
    let mut l = funded_ledger(&maker, &mint_a, 100);
    l.make(&maker, 1, &mint_a, &mint_b, 100, 50).unwrap();
    // External drift: a third party pays 25 more of the offered asset into
    // the vault after the deposit.
    l.mint_to(&third, &mint_a, 25).unwrap();
    l.deposit_to_vault(&third, &maker, 1, 25).unwrap();
    assert_eq!(l.vault_amount(&maker, 1), Some(125));
    l.mint_to(&taker, &mint_b, 50).unwrap();
    l.take(&taker, &maker, 1).unwrap();
    // The taker receives the vault's full live balance, not the cached
    // deposit; the maker is paid exactly the requested amount.
    assert_eq!(l.wallet_balance(&taker, &mint_a), 125);
    assert_eq!(l.wallet_balance(&maker, &mint_b), 50);
}

#[test]
fn vault_deposit_requires_funds_and_an_escrow() {
    let maker = addr(1);
    let third = addr(3);
    let mint_a = addr(10);
    let mut l = funded_ledger(&maker, &mint_a, 100);
    assert_eq!(l.deposit_to_vault(&third, &maker, 1, 5), Err(EscrowError::NotFound));
    l.make(&maker, 1, &mint_a, &addr(11), 100, 50).unwrap();
    assert_eq!(l.deposit_to_vault(&third, &maker, 1, 5), Err(EscrowError::InsufficientFunds));
}

#[test]
fn take_reports_overflow_and_changes_nothing() {
    let maker = addr(1);
    let taker = addr(2);
    let mint_a = addr(10);
    let mint_b = addr(11);
    let mut l = funded_ledger(&maker, &mint_a, 100);
    l.make(&maker, 1, &mint_a, &mint_b, 100, 50).unwrap();
    // The maker already holds the maximum of the requested asset, so paying
    // them 50 more cannot be represented.
    l.mint_to(&maker, &mint_b, u64::MAX).unwrap();
    l.mint_to(&taker, &mint_b, 50).unwrap();
    let r = l.take(&taker, &maker, 1);
    assert_eq!(r, Err(EscrowError::ArithmeticOverflow));
    assert_eq!(l.vault_amount(&maker, 1), Some(100));
    assert_eq!(l.wallet_balance(&taker, &mint_b), 50);
    assert_eq!(l.wallet_balance(&maker, &mint_b), u64::MAX);
}

#[test]
fn refund_is_rejected_for_anyone_but_the_maker() {
    let maker = addr(1);
    let stranger = addr(4);
    let mint_a = addr(10);
    let mut l = funded_ledger(&maker, &mint_a, 100);
    l.make(&maker, 1, &mint_a, &addr(11), 100, 50).unwrap();
    assert_eq!(l.refund(&stranger, &maker, 1), Err(EscrowError::Unauthorized));
    assert_eq!(l.vault_amount(&maker, 1), Some(100));
}

#[test]
fn refund_restores_the_maker_exactly() {
    let maker = addr(1);
    let mint_a = addr(10);
    let mut l = funded_ledger(&maker, &mint_a, 100);
    l.make(&maker, 1, &mint_a, &addr(11), 100, 50).unwrap();
    assert_eq!(l.wallet_balance(&maker, &mint_a), 0);
    assert_eq!(l.native_balance(&maker), 0);
    assert_eq!(l.refund(&maker, &maker, 1), Ok(()));
    assert_eq!(l.wallet_balance(&maker, &mint_a), 100);
    assert_eq!(l.native_balance(&maker), STORAGE_BOND);
    assert!(l.escrow_record(&maker, 1).is_none());
    assert_eq!(l.take(&addr(2), &maker, 1), Err(EscrowError::NotFound));
    assert_eq!(l.refund(&maker, &maker, 1), Err(EscrowError::NotFound));
}

#[test]
fn end_to_end_trade() {
    let maker = addr(1);
    let taker = addr(2);
    let mint_a = addr(10);
    let mint_b = addr(11);
    let mut l = Ledger::new();
    l.airdrop(&maker, STORAGE_BOND).unwrap();
    l.mint_to(&maker, &mint_a, 100).unwrap();
    l.mint_to(&taker, &mint_b, 50).unwrap();

    l.make(&maker, 1, &mint_a, &mint_b, 100, 50).unwrap();
    l.take(&taker, &maker, 1).unwrap();

    assert_eq!(l.wallet_balance(&maker, &mint_a), 0);
    assert_eq!(l.wallet_balance(&maker, &mint_b), 50);
    assert_eq!(l.wallet_balance(&taker, &mint_a), 100);
    assert_eq!(l.wallet_balance(&taker, &mint_b), 0);
    assert_eq!(l.native_balance(&maker), STORAGE_BOND);
    assert!(l.escrow_record(&maker, 1).is_none());
    assert!(l.vault_amount(&maker, 1).is_none());
    assert_eq!(l.take(&taker, &maker, 1), Err(EscrowError::NotFound));
}

#[test]
fn self_take_returns_the_deposit_to_the_maker() {
    let maker = addr(1);
    let mint_a = addr(10);
    let mint_b = addr(11);
    let mut l = funded_ledger(&maker, &mint_a, 100);
    l.mint_to(&maker, &mint_b, 50).unwrap();
    l.make(&maker, 1, &mint_a, &mint_b, 100, 50).unwrap();
    // The maker takes their own escrow: they pay themselves the requested
    // amount and receive the vault back.
    l.take(&maker, &maker, 1).unwrap();
    assert_eq!(l.wallet_balance(&maker, &mint_a), 100);
    assert_eq!(l.wallet_balance(&maker, &mint_b), 50);
    assert_eq!(l.native_balance(&maker), STORAGE_BOND);
    assert!(l.escrow_record(&maker, 1).is_none());
}

#[test]
fn trade_of_one_asset_for_itself() {
    let maker = addr(1);
    let taker = addr(2);
    let mint = addr(10);
    let mut l = funded_ledger(&maker, &mint, 100);
    l.mint_to(&taker, &mint, 50).unwrap();
    l.make(&maker, 1, &mint, &mint, 100, 50).unwrap();
    l.take(&taker, &maker, 1).unwrap();
    assert_eq!(l.wallet_balance(&maker, &mint), 50);
    assert_eq!(l.wallet_balance(&taker, &mint), 100);
}

#[test]
fn mint_and_airdrop_report_overflow() {
    let owner = addr(1);
    let asset = addr(10);
    let mut l = Ledger::new();
    l.mint_to(&owner, &asset, u64::MAX).unwrap();
    assert_eq!(l.mint_to(&owner, &asset, 1), Err(EscrowError::ArithmeticOverflow));
    assert_eq!(l.wallet_balance(&owner, &asset), u64::MAX);
    l.airdrop(&owner, u64::MAX).unwrap();
    assert_eq!(l.airdrop(&owner, 1), Err(EscrowError::ArithmeticOverflow));
    assert_eq!(l.native_balance(&owner), u64::MAX);
}
