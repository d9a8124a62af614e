//! The ledger: an addressable store of token balances, native balances and
//! escrow records, keyed by identities and derived addresses.
//!
//! The external runtime's global account space is modelled as this store, so
//! that every escrow operation is a verified function of it. Its abstract
//! value, [`LedgerView`], is a triple of maps; the trade operations' contracts
//! are stated over those maps alone.

use vstd::prelude::*;

use crate::Address;
use crate::addr_eq;
use crate::error::EscrowError;
use crate::state::Escrow;

verus! {

/// The storage bond required to keep an escrow's record and vault allocated;
/// paid by the maker on Make, refunded to the maker when Take or Refund
/// releases them.
pub const STORAGE_BOND: u64 = 2_500_000;

/// A token holding: how much of `asset` the identity `owner` can spend.
#[derive(Clone, Copy, Debug)]
pub(crate) struct WalletEntry {
    pub owner: Address,
    pub asset: Address,
    pub amount: u64,
}

/// A native-currency holding, from which storage bonds are paid.
#[derive(Clone, Copy, Debug)]
pub(crate) struct NativeEntry {
    pub owner: Address,
    pub amount: u64,
}

/// An escrow record together with its custody vault: the two form a single
/// logical unit, created and destroyed atomically, keyed by the derived
/// authority address.
#[derive(Clone, Copy, Debug)]
pub(crate) struct EscrowAccount {
    pub address: Address,
    pub record: Escrow,
    pub vault_amount: u64,
    pub bond: u64,
}

/// The abstract value of an escrow record and its vault.
#[verifier::ext_equal]
pub ghost struct EscrowModel {
    pub seed: u64,
    pub maker: Seq<u8>,
    pub mint_a: Seq<u8>,
    pub mint_b: Seq<u8>,
    pub receive: u64,
    pub bump: u8,
    /// The vault's live balance of `mint_a`, not a cached deposit figure.
    pub vault_amount: u64,
    /// The storage bond returned to the maker when the escrow is released.
    pub bond: u64,
}

/// The abstract value of the whole ledger.
#[verifier::ext_equal]
pub ghost struct LedgerView {
    /// Token balances, keyed by (owner identity, asset).
    pub wallets: Map<(Seq<u8>, Seq<u8>), u64>,
    /// Escrow records with their vaults, keyed by derived address.
    pub escrows: Map<Seq<u8>, EscrowModel>,
    /// Native balances, keyed by owner identity.
    pub native: Map<Seq<u8>, u64>,
}

/// The balance a map of token balances gives an owner in an asset; absent
/// keys hold zero.
pub open spec fn bal(m: Map<(Seq<u8>, Seq<u8>), u64>, owner: Seq<u8>, asset: Seq<u8>) -> u64 {
    if m.contains_key((owner, asset)) {
        m[(owner, asset)]
    } else {
        0u64
    }
}

/// The map after `amount` has been added to an owner's balance in an asset.
/// Meaningful when the sum stays within `u64`.
pub open spec fn credited(
    m: Map<(Seq<u8>, Seq<u8>), u64>,
    owner: Seq<u8>,
    asset: Seq<u8>,
    amount: u64,
) -> Map<(Seq<u8>, Seq<u8>), u64> {
    m.insert((owner, asset), (bal(m, owner, asset) + amount) as u64)
}

/// The map after `amount` has been taken from an owner's balance in an asset.
/// Meaningful when the balance covers the amount.
pub open spec fn debited(
    m: Map<(Seq<u8>, Seq<u8>), u64>,
    owner: Seq<u8>,
    asset: Seq<u8>,
    amount: u64,
) -> Map<(Seq<u8>, Seq<u8>), u64> {
    m.insert((owner, asset), (bal(m, owner, asset) - amount) as u64)
}

/// The native balance of an owner; absent keys hold zero.
pub open spec fn nbal(m: Map<Seq<u8>, u64>, owner: Seq<u8>) -> u64 {
    if m.contains_key(owner) {
        m[owner]
    } else {
        0u64
    }
}

/// The native map after `amount` has been added to an owner's balance.
pub open spec fn ncredited(m: Map<Seq<u8>, u64>, owner: Seq<u8>, amount: u64) -> Map<Seq<u8>, u64> {
    m.insert(owner, (nbal(m, owner) + amount) as u64)
}

/// The native map after `amount` has been taken from an owner's balance.
pub open spec fn ndebited(m: Map<Seq<u8>, u64>, owner: Seq<u8>, amount: u64) -> Map<Seq<u8>, u64> {
    m.insert(owner, (nbal(m, owner) - amount) as u64)
}

// ---------------------------------------------------------------------------
// Token balances: the stored entries and their map view.
// ---------------------------------------------------------------------------

pub(crate) open spec fn wallet_key(e: WalletEntry) -> (Seq<u8>, Seq<u8>) {
    (e.owner@, e.asset@)
}

pub(crate) open spec fn wallets_map(s: Seq<WalletEntry>) -> Map<(Seq<u8>, Seq<u8>), u64>
    decreases s.len(),
{
    if s.len() == 0 {
        Map::empty()
    } else {
        wallets_map(s.drop_last()).insert(wallet_key(s.last()), s.last().amount)
    }
}

pub(crate) open spec fn wallets_unique(s: Seq<WalletEntry>) -> bool {
    forall|i: int, j: int|
        0 <= i < j < s.len() ==> wallet_key(#[trigger] s[i]) != wallet_key(#[trigger] s[j])
}

proof fn lemma_wallets_map_dom(s: Seq<WalletEntry>, k: (Seq<u8>, Seq<u8>))
    ensures
        wallets_map(s).contains_key(k) <==> (exists|i: int|
            0 <= i < s.len() && wallet_key(#[trigger] s[i]) == k),
    decreases s.len(),
{
    if s.len() > 0 {
        lemma_wallets_map_dom(s.drop_last(), k);
        if wallet_key(s.last()) == k {
            assert(wallet_key(s[s.len() - 1]) == k);
        } else if wallets_map(s).contains_key(k) {
            let i = choose|i: int|
                0 <= i < s.drop_last().len() && wallet_key(#[trigger] s.drop_last()[i]) == k;
            assert(wallet_key(s[i]) == k);
        } else {
            assert(forall|i: int| 0 <= i < s.len() - 1 ==> s.drop_last()[i] == #[trigger] s[i]);
        }
    }
}

proof fn lemma_wallets_map_value(s: Seq<WalletEntry>, i: int)
    requires
        wallets_unique(s),
        0 <= i < s.len(),
    ensures
        wallets_map(s).contains_key(wallet_key(s[i])),
        wallets_map(s)[wallet_key(s[i])] == s[i].amount,
    decreases s.len(),
{
    if i < s.len() - 1 {
        assert(forall|m: int| 0 <= m < s.len() - 1 ==> s.drop_last()[m] == #[trigger] s[m]);
        lemma_wallets_map_value(s.drop_last(), i);
        assert(wallet_key(s[i]) != wallet_key(s[s.len() - 1]));
    }
}

proof fn lemma_wallets_map_update(s: Seq<WalletEntry>, i: int, e: WalletEntry)
    requires
        wallets_unique(s),
        0 <= i < s.len(),
        wallet_key(e) == wallet_key(s[i]),
    ensures
        wallets_unique(s.update(i, e)),
        wallets_map(s.update(i, e)) == wallets_map(s).insert(wallet_key(e), e.amount),
    decreases s.len(),
{
    let s2 = s.update(i, e);
    if i == s.len() - 1 {
        assert(s2.drop_last() =~= s.drop_last());
        assert(s2.last() == e);
        assert(wallets_map(s2) =~= wallets_map(s).insert(wallet_key(e), e.amount));
    } else {
        assert(s2.drop_last() =~= s.drop_last().update(i, e));
        assert(s2.last() == s.last());
        assert(forall|m: int| 0 <= m < s.len() - 1 ==> s.drop_last()[m] == #[trigger] s[m]);
        lemma_wallets_map_update(s.drop_last(), i, e);
        assert(wallet_key(e) != wallet_key(s.last()));
        assert(wallets_map(s2) =~= wallets_map(s).insert(wallet_key(e), e.amount));
    }
}

proof fn lemma_wallets_map_push(s: Seq<WalletEntry>, e: WalletEntry)
    requires
        wallets_unique(s),
        forall|i: int| 0 <= i < s.len() ==> wallet_key(#[trigger] s[i]) != wallet_key(e),
    ensures
        wallets_unique(s.push(e)),
        wallets_map(s.push(e)) == wallets_map(s).insert(wallet_key(e), e.amount),
{
    assert(s.push(e).drop_last() =~= s);
    assert(s.push(e).last() == e);
    assert(forall|i: int| 0 <= i < s.len() ==> s.push(e)[i] == #[trigger] s[i]);
}

/// Finds the entry holding `owner`'s balance of `asset`, if one is stored.
fn wallet_find(v: &Vec<WalletEntry>, owner: &Address, asset: &Address) -> (r: Option<usize>)
    ensures
        (match r {
            Some(i) => i < v@.len() && wallet_key(v@[i as int]) == (owner@, asset@),
            None => forall|i: int|
                0 <= i < v@.len() ==> wallet_key(#[trigger] v@[i]) != (owner@, asset@),
        }),
{
    let mut i: usize = 0;
    while i < v.len()
        invariant
            i <= v@.len(),
            forall|j: int| 0 <= j < i ==> wallet_key(#[trigger] v@[j]) != (owner@, asset@),
        decreases v@.len() - i,
    {
        if addr_eq(&v[i].owner, owner) && addr_eq(&v[i].asset, asset) {
            return Some(i);
        }
        i += 1;
    }
    None
}

/// Reads `owner`'s balance of `asset` from the stored entries.
pub(crate) fn wallet_balance_in(v: &Vec<WalletEntry>, owner: &Address, asset: &Address) -> (r: u64)
    requires
        wallets_unique(v@),
    ensures
        r == bal(wallets_map(v@), owner@, asset@),
{
    match wallet_find(v, owner, asset) {
        Some(i) => {
            proof {
                lemma_wallets_map_value(v@, i as int);
            }
            v[i].amount
        },
        None => {
            proof {
                lemma_wallets_map_dom(v@, (owner@, asset@));
            }
            0
        },
    }
}

/// Adds `amount` to `owner`'s balance of `asset`. Reports whether the sum
/// stayed within range; on overflow nothing changes.
pub(crate) fn wallet_credit(
    v: &mut Vec<WalletEntry>,
    owner: &Address,
    asset: &Address,
    amount: u64,
) -> (ok: bool)
    requires
        wallets_unique(old(v)@),
    ensures
        wallets_unique(final(v)@),
        ok == (bal(wallets_map(old(v)@), owner@, asset@) + amount <= u64::MAX),
        ok ==> wallets_map(final(v)@) == credited(wallets_map(old(v)@), owner@, asset@, amount),
        !ok ==> final(v)@ == old(v)@,
{
    match wallet_find(v, owner, asset) {
        Some(i) => {
            proof {
                lemma_wallets_map_value(v@, i as int);
            }
            let current = v[i].amount;
            if amount > u64::MAX - current {
                return false;
            }
            let entry = WalletEntry { owner: *owner, asset: *asset, amount: current + amount };
            proof {
                lemma_wallets_map_update(v@, i as int, entry);
            }
            v[i] = entry;
            true
        },
        None => {
            proof {
                lemma_wallets_map_dom(v@, (owner@, asset@));
            }
            let entry = WalletEntry { owner: *owner, asset: *asset, amount };
            proof {
                lemma_wallets_map_push(v@, entry);
            }
            v.push(entry);
            true
        },
    }
}

/// Takes `amount` from `owner`'s balance of `asset`; the balance must cover
/// it.
pub(crate) fn wallet_debit(v: &mut Vec<WalletEntry>, owner: &Address, asset: &Address, amount: u64)
    requires
        wallets_unique(old(v)@),
        amount <= bal(wallets_map(old(v)@), owner@, asset@),
    ensures
        wallets_unique(final(v)@),
        wallets_map(final(v)@) == debited(wallets_map(old(v)@), owner@, asset@, amount),
{
    match wallet_find(v, owner, asset) {
        Some(i) => {
            proof {
                lemma_wallets_map_value(v@, i as int);
            }
            let entry = WalletEntry { owner: *owner, asset: *asset, amount: v[i].amount - amount };
            proof {
                lemma_wallets_map_update(v@, i as int, entry);
            }
            v[i] = entry;
        },
        None => {
            proof {
                lemma_wallets_map_dom(v@, (owner@, asset@));
            }
            let entry = WalletEntry { owner: *owner, asset: *asset, amount: 0 };
            proof {
                lemma_wallets_map_push(v@, entry);
            }
            v.push(entry);
        },
    }
}

// ---------------------------------------------------------------------------
// Native balances: the stored entries and their map view.
// ---------------------------------------------------------------------------

pub(crate) open spec fn natives_map(s: Seq<NativeEntry>) -> Map<Seq<u8>, u64>
    decreases s.len(),
{
    if s.len() == 0 {
        Map::empty()
    } else {
        natives_map(s.drop_last()).insert(s.last().owner@, s.last().amount)
    }
}

pub(crate) open spec fn natives_unique(s: Seq<NativeEntry>) -> bool {
    forall|i: int, j: int| 0 <= i < j < s.len() ==> (#[trigger] s[i]).owner@ != (#[trigger] s[j]).owner@
}

proof fn lemma_natives_map_dom(s: Seq<NativeEntry>, k: Seq<u8>)
    ensures
        natives_map(s).contains_key(k) <==> (exists|i: int|
            0 <= i < s.len() && (#[trigger] s[i]).owner@ == k),
    decreases s.len(),
{
    if s.len() > 0 {
        lemma_natives_map_dom(s.drop_last(), k);
        if s.last().owner@ == k {
            assert((s[s.len() - 1]).owner@ == k);
        } else if natives_map(s).contains_key(k) {
            let i = choose|i: int| 0 <= i < s.drop_last().len() && (#[trigger] s.drop_last()[i]).owner@ == k;
            assert((s[i]).owner@ == k);
        } else {
            assert(forall|i: int| 0 <= i < s.len() - 1 ==> s.drop_last()[i] == #[trigger] s[i]);
        }
    }
}

proof fn lemma_natives_map_value(s: Seq<NativeEntry>, i: int)
    requires
        natives_unique(s),
        0 <= i < s.len(),
    ensures
        natives_map(s).contains_key(s[i].owner@),
        natives_map(s)[s[i].owner@] == s[i].amount,
    decreases s.len(),
{
    if i < s.len() - 1 {
        assert(forall|m: int| 0 <= m < s.len() - 1 ==> s.drop_last()[m] == #[trigger] s[m]);
        lemma_natives_map_value(s.drop_last(), i);
        assert(s[i].owner@ != s[s.len() - 1].owner@);
    }
}

proof fn lemma_natives_map_update(s: Seq<NativeEntry>, i: int, e: NativeEntry)
    requires
        natives_unique(s),
        0 <= i < s.len(),
        e.owner@ == s[i].owner@,
    ensures
        natives_unique(s.update(i, e)),
        natives_map(s.update(i, e)) == natives_map(s).insert(e.owner@, e.amount),
    decreases s.len(),
{
    let s2 = s.update(i, e);
    if i == s.len() - 1 {
        assert(s2.drop_last() =~= s.drop_last());
        assert(s2.last() == e);
        assert(natives_map(s2) =~= natives_map(s).insert(e.owner@, e.amount));
    } else {
        assert(s2.drop_last() =~= s.drop_last().update(i, e));
        assert(s2.last() == s.last());
        assert(forall|m: int| 0 <= m < s.len() - 1 ==> s.drop_last()[m] == #[trigger] s[m]);
        lemma_natives_map_update(s.drop_last(), i, e);
        assert(e.owner@ != s.last().owner@);
        assert(natives_map(s2) =~= natives_map(s).insert(e.owner@, e.amount));
    }
}

proof fn lemma_natives_map_push(s: Seq<NativeEntry>, e: NativeEntry)
    requires
        natives_unique(s),
        forall|i: int| 0 <= i < s.len() ==> (#[trigger] s[i]).owner@ != e.owner@,
    ensures
        natives_unique(s.push(e)),
        natives_map(s.push(e)) == natives_map(s).insert(e.owner@, e.amount),
{
    assert(s.push(e).drop_last() =~= s);
    assert(s.push(e).last() == e);
    assert(forall|i: int| 0 <= i < s.len() ==> s.push(e)[i] == #[trigger] s[i]);
}

/// Finds the entry holding `owner`'s native balance, if one is stored.
fn native_find(v: &Vec<NativeEntry>, owner: &Address) -> (r: Option<usize>)
    ensures
        (match r {
            Some(i) => i < v@.len() && v@[i as int].owner@ == owner@,
            None => forall|i: int| 0 <= i < v@.len() ==> (#[trigger] v@[i]).owner@ != owner@,
        }),
{
    let mut i: usize = 0;
    while i < v.len()
        invariant
            i <= v@.len(),
            forall|j: int| 0 <= j < i ==> (#[trigger] v@[j]).owner@ != owner@,
        decreases v@.len() - i,
    {
        if addr_eq(&v[i].owner, owner) {
            return Some(i);
        }
        i += 1;
    }
    None
}

/// Reads `owner`'s native balance from the stored entries.
pub(crate) fn native_balance_in(v: &Vec<NativeEntry>, owner: &Address) -> (r: u64)
    requires
        natives_unique(v@),
    ensures
        r == nbal(natives_map(v@), owner@),
{
    match native_find(v, owner) {
        Some(i) => {
            proof {
                lemma_natives_map_value(v@, i as int);
            }
            v[i].amount
        },
        None => {
            proof {
                lemma_natives_map_dom(v@, owner@);
            }
            0
        },
    }
}

/// Adds `amount` to `owner`'s native balance. Reports whether the sum stayed
/// within range; on overflow nothing changes.
pub(crate) fn native_credit(v: &mut Vec<NativeEntry>, owner: &Address, amount: u64) -> (ok: bool)
    requires
        natives_unique(old(v)@),
    ensures
        natives_unique(final(v)@),
        ok == (nbal(natives_map(old(v)@), owner@) + amount <= u64::MAX),
        ok ==> natives_map(final(v)@) == ncredited(natives_map(old(v)@), owner@, amount),
        !ok ==> final(v)@ == old(v)@,
{
    match native_find(v, owner) {
        Some(i) => {
            proof {
                lemma_natives_map_value(v@, i as int);
            }
            let current = v[i].amount;
            if amount > u64::MAX - current {
                return false;
            }
            let entry = NativeEntry { owner: *owner, amount: current + amount };
            proof {
                lemma_natives_map_update(v@, i as int, entry);
            }
            v[i] = entry;
            true
        },
        None => {
            proof {
                lemma_natives_map_dom(v@, owner@);
            }
            let entry = NativeEntry { owner: *owner, amount };
            proof {
                lemma_natives_map_push(v@, entry);
            }
            v.push(entry);
            true
        },
    }
}

/// Takes `amount` from `owner`'s native balance; the balance must cover it.
pub(crate) fn native_debit(v: &mut Vec<NativeEntry>, owner: &Address, amount: u64)
    requires
        natives_unique(old(v)@),
        amount <= nbal(natives_map(old(v)@), owner@),
    ensures
        natives_unique(final(v)@),
        natives_map(final(v)@) == ndebited(natives_map(old(v)@), owner@, amount),
{
    match native_find(v, owner) {
        Some(i) => {
            proof {
                lemma_natives_map_value(v@, i as int);
            }
            let entry = NativeEntry { owner: *owner, amount: v[i].amount - amount };
            proof {
                lemma_natives_map_update(v@, i as int, entry);
            }
            v[i] = entry;
        },
        None => {
            proof {
                lemma_natives_map_dom(v@, owner@);
            }
            let entry = NativeEntry { owner: *owner, amount: 0 };
            proof {
                lemma_natives_map_push(v@, entry);
            }
            v.push(entry);
        },
    }
}

// ---------------------------------------------------------------------------
// Escrow records with their vaults: the stored entries and their map view.
// ---------------------------------------------------------------------------

pub(crate) open spec fn escrow_model(a: EscrowAccount) -> EscrowModel {
    EscrowModel {
        seed: a.record.seed,
        maker: a.record.maker@,
        mint_a: a.record.mint_a@,
        mint_b: a.record.mint_b@,
        receive: a.record.receive,
        bump: a.record.bump,
        vault_amount: a.vault_amount,
        bond: a.bond,
    }
}

pub(crate) open spec fn escrows_map(s: Seq<EscrowAccount>) -> Map<Seq<u8>, EscrowModel>
    decreases s.len(),
{
    if s.len() == 0 {
        Map::empty()
    } else {
        escrows_map(s.drop_last()).insert(s.last().address@, escrow_model(s.last()))
    }
}

pub(crate) open spec fn escrows_unique(s: Seq<EscrowAccount>) -> bool {
    forall|i: int, j: int|
        0 <= i < j < s.len() ==> (#[trigger] s[i]).address@ != (#[trigger] s[j]).address@
}

proof fn lemma_escrows_map_dom(s: Seq<EscrowAccount>, k: Seq<u8>)
    ensures
        escrows_map(s).contains_key(k) <==> (exists|i: int|
            0 <= i < s.len() && (#[trigger] s[i]).address@ == k),
    decreases s.len(),
{
    if s.len() > 0 {
        lemma_escrows_map_dom(s.drop_last(), k);
        if s.last().address@ == k {
            assert((s[s.len() - 1]).address@ == k);
        } else if escrows_map(s).contains_key(k) {
            let i = choose|i: int|
                0 <= i < s.drop_last().len() && (#[trigger] s.drop_last()[i]).address@ == k;
            assert((s[i]).address@ == k);
        } else {
            assert(forall|i: int| 0 <= i < s.len() - 1 ==> s.drop_last()[i] == #[trigger] s[i]);
        }
    }
}

proof fn lemma_escrows_map_value(s: Seq<EscrowAccount>, i: int)
    requires
        escrows_unique(s),
        0 <= i < s.len(),
    ensures
        escrows_map(s).contains_key(s[i].address@),
        escrows_map(s)[s[i].address@] == escrow_model(s[i]),
    decreases s.len(),
{
    if i < s.len() - 1 {
        assert(forall|m: int| 0 <= m < s.len() - 1 ==> s.drop_last()[m] == #[trigger] s[m]);
        lemma_escrows_map_value(s.drop_last(), i);
        assert(s[i].address@ != s[s.len() - 1].address@);
    }
}

proof fn lemma_escrows_map_update(s: Seq<EscrowAccount>, i: int, e: EscrowAccount)
    requires
        escrows_unique(s),
        0 <= i < s.len(),
        e.address@ == s[i].address@,
    ensures
        escrows_unique(s.update(i, e)),
        escrows_map(s.update(i, e)) == escrows_map(s).insert(e.address@, escrow_model(e)),
    decreases s.len(),
{
    let s2 = s.update(i, e);
    if i == s.len() - 1 {
        assert(s2.drop_last() =~= s.drop_last());
        assert(s2.last() == e);
        assert(escrows_map(s2) =~= escrows_map(s).insert(e.address@, escrow_model(e)));
    } else {
        assert(s2.drop_last() =~= s.drop_last().update(i, e));
        assert(s2.last() == s.last());
        assert(forall|m: int| 0 <= m < s.len() - 1 ==> s.drop_last()[m] == #[trigger] s[m]);
        lemma_escrows_map_update(s.drop_last(), i, e);
        assert(e.address@ != s.last().address@);
        assert(escrows_map(s2) =~= escrows_map(s).insert(e.address@, escrow_model(e)));
    }
}

proof fn lemma_escrows_map_push(s: Seq<EscrowAccount>, e: EscrowAccount)
    requires
        escrows_unique(s),
        forall|i: int| 0 <= i < s.len() ==> (#[trigger] s[i]).address@ != e.address@,
    ensures
        escrows_unique(s.push(e)),
        escrows_map(s.push(e)) == escrows_map(s).insert(e.address@, escrow_model(e)),
{
    assert(s.push(e).drop_last() =~= s);
    assert(s.push(e).last() == e);
    assert(forall|i: int| 0 <= i < s.len() ==> s.push(e)[i] == #[trigger] s[i]);
}

proof fn lemma_escrows_map_remove(s: Seq<EscrowAccount>, i: int)
    requires
        escrows_unique(s),
        0 <= i < s.len(),
    ensures
        escrows_unique(s.remove(i)),
        escrows_map(s.remove(i)) == escrows_map(s).remove(s[i].address@),
    decreases s.len(),
{
    let s2 = s.remove(i);
    assert(forall|m: int| 0 <= m < s.len() - 1 ==> s.drop_last()[m] == #[trigger] s[m]);
    if i == s.len() - 1 {
        assert(s2 =~= s.drop_last());
        lemma_escrows_map_dom(s.drop_last(), s[i].address@);
        assert(!escrows_map(s.drop_last()).contains_key(s[i].address@));
        assert(escrows_map(s2) =~= escrows_map(s).remove(s[i].address@));
    } else {
        assert(s2.drop_last() =~= s.drop_last().remove(i));
        assert(s2.last() == s.last());
        lemma_escrows_map_remove(s.drop_last(), i);
        assert(s[i].address@ != s.last().address@);
        assert(escrows_map(s2) =~= escrows_map(s).remove(s[i].address@));
    }
}

/// Finds the escrow stored at the given derived address, if any.
fn escrow_find(v: &Vec<EscrowAccount>, address: &Address) -> (r: Option<usize>)
    ensures
        (match r {
            Some(i) => i < v@.len() && v@[i as int].address@ == address@,
            None => forall|i: int| 0 <= i < v@.len() ==> (#[trigger] v@[i]).address@ != address@,
        }),
{
    let mut i: usize = 0;
    while i < v.len()
        invariant
            i <= v@.len(),
            forall|j: int| 0 <= j < i ==> (#[trigger] v@[j]).address@ != address@,
        decreases v@.len() - i,
    {
        if addr_eq(&v[i].address, address) {
            return Some(i);
        }
        i += 1;
    }
    None
}

// ---------------------------------------------------------------------------
// The ledger itself.
// ---------------------------------------------------------------------------

/// A stored escrow is internally consistent: its address is the derivation of
/// its own maker and seed, and its stored bump reproduces that address.
pub(crate) open spec fn escrow_entry_valid(a: EscrowAccount) -> bool {
    &&& crate::authority::derived_authority(a.record.maker@, a.record.seed) == Some(
        (a.address@, a.record.bump),
    )
    &&& crate::authority::authority_for_bump(a.record.maker@, a.record.seed, a.record.bump)
        == Some(a.address@)
}

/// The addressable store the escrow protocol operates on. Its abstract value
/// is a [`LedgerView`]; all public operations are specified over that view.
pub struct Ledger {
    wallets: Vec<WalletEntry>,
    escrows: Vec<EscrowAccount>,
    natives: Vec<NativeEntry>,
}

impl View for Ledger {
    type V = LedgerView;

    closed spec fn view(&self) -> LedgerView {
        LedgerView {
            wallets: wallets_map(self.wallets@),
            escrows: escrows_map(self.escrows@),
            native: natives_map(self.natives@),
        }
    }
}

impl Ledger {
    /// Every account is stored once, and every stored escrow's address and
    /// bump are its own derivation: the record's address is never trusted
    /// from stored or caller-supplied data without being reproducible.
    #[verifier::type_invariant]
    spec fn inv(self) -> bool {
        &&& wallets_unique(self.wallets@)
        &&& natives_unique(self.natives@)
        &&& escrows_unique(self.escrows@)
        &&& forall|i: int|
            0 <= i < self.escrows@.len() ==> escrow_entry_valid(#[trigger] self.escrows@[i])
    }

    /// An empty ledger: no balances, no escrows.
    pub fn new() -> (r: Ledger)
        ensures
            r@.wallets == Map::<(Seq<u8>, Seq<u8>), u64>::empty(),
            r@.escrows == Map::<Seq<u8>, EscrowModel>::empty(),
            r@.native == Map::<Seq<u8>, u64>::empty(),
    {
        Ledger { wallets: Vec::new(), escrows: Vec::new(), natives: Vec::new() }
    }

    /// How much of `asset` the identity `owner` holds.
    pub fn wallet_balance(&self, owner: &Address, asset: &Address) -> (r: u64)
        ensures
            r == bal(self@.wallets, owner@, asset@),
    {
        proof {
            use_type_invariant(&*self);
        }
        wallet_balance_in(&self.wallets, owner, asset)
    }

    /// The native balance of the identity `owner`.
    pub fn native_balance(&self, owner: &Address) -> (r: u64)
        ensures
            r == nbal(self@.native, owner@),
    {
        proof {
            use_type_invariant(&*self);
        }
        native_balance_in(&self.natives, owner)
    }

    /// Creates `amount` of `asset` in `owner`'s wallet, modelling an external
    /// token issuance into the store.
    pub fn mint_to(&mut self, owner: &Address, asset: &Address, amount: u64) -> (r: Result<
        (),
        crate::error::EscrowError,
    >)
        ensures
            (r is Ok) == (bal(old(self)@.wallets, owner@, asset@) + amount <= u64::MAX),
            r is Ok ==> final(self)@ == (LedgerView {
                wallets: credited(old(self)@.wallets, owner@, asset@, amount),
                ..old(self)@
            }),
            r is Err ==> final(self)@ == old(self)@ && r == Err::<(), crate::error::EscrowError>(
                crate::error::EscrowError::ArithmeticOverflow,
            ),
    {
        proof {
            use_type_invariant(&*self);
        }
        let mut w: Vec<WalletEntry> = Vec::new();
        std::mem::swap(&mut self.wallets, &mut w);
        let ok = wallet_credit(&mut w, owner, asset, amount);
        std::mem::swap(&mut self.wallets, &mut w);
        if ok {
            Ok(())
        } else {
            Err(crate::error::EscrowError::ArithmeticOverflow)
        }
    }

    /// Creates `amount` of native currency for `owner`, modelling an external
    /// faucet or transfer into the store.
    pub fn airdrop(&mut self, owner: &Address, amount: u64) -> (r: Result<
        (),
        crate::error::EscrowError,
    >)
        ensures
            (r is Ok) == (nbal(old(self)@.native, owner@) + amount <= u64::MAX),
            r is Ok ==> final(self)@ == (LedgerView {
                native: ncredited(old(self)@.native, owner@, amount),
                ..old(self)@
            }),
            r is Err ==> final(self)@ == old(self)@ && r == Err::<(), crate::error::EscrowError>(
                crate::error::EscrowError::ArithmeticOverflow,
            ),
    {
        proof {
            use_type_invariant(&*self);
        }
        let mut n: Vec<NativeEntry> = Vec::new();
        std::mem::swap(&mut self.natives, &mut n);
        let ok = native_credit(&mut n, owner, amount);
        std::mem::swap(&mut self.natives, &mut n);
        if ok {
            Ok(())
        } else {
            Err(crate::error::EscrowError::ArithmeticOverflow)
        }
    }

    /// The trade terms of the escrow a maker opened under a nonce, if it
    /// still exists.
    pub fn escrow_record(&self, maker: &Address, seed: u64) -> (r: Option<Escrow>)
        ensures
            (match crate::authority::derived_authority(maker@, seed) {
                Some(p) => (match r {
                    Some(rec) => self@.escrows.contains_key(p.0) && ({
                        let e = self@.escrows[p.0];
                        rec.seed == e.seed && rec.maker@ == e.maker && rec.mint_a@ == e.mint_a
                            && rec.mint_b@ == e.mint_b && rec.receive == e.receive && rec.bump
                            == e.bump
                    }),
                    None => !self@.escrows.contains_key(p.0),
                }),
                None => r is None,
            }),
    {
        proof {
            use_type_invariant(&*self);
        }
        let (address, _bump) = match crate::authority::derive_authority(maker, seed) {
            Some(p) => p,
            None => {
                return None;
            },
        };
        match escrow_find(&self.escrows, &address) {
            Some(i) => {
                proof {
                    lemma_escrows_map_value(self.escrows@, i as int);
                }
                Some(self.escrows[i].record)
            },
            None => {
                proof {
                    lemma_escrows_map_dom(self.escrows@, address@);
                }
                None
            },
        }
    }

    /// The live balance held by the escrow's custody vault, if the escrow
    /// still exists.
    pub fn vault_amount(&self, maker: &Address, seed: u64) -> (r: Option<u64>)
        ensures
            (match crate::authority::derived_authority(maker@, seed) {
                Some(p) => (match r {
                    Some(a) => self@.escrows.contains_key(p.0) && a
                        == self@.escrows[p.0].vault_amount,
                    None => !self@.escrows.contains_key(p.0),
                }),
                None => r is None,
            }),
    {
        proof {
            use_type_invariant(&*self);
        }
        let (address, _bump) = match crate::authority::derive_authority(maker, seed) {
            Some(p) => p,
            None => {
                return None;
            },
        };
        match escrow_find(&self.escrows, &address) {
            Some(i) => {
                proof {
                    lemma_escrows_map_value(self.escrows@, i as int);
                }
                Some(self.escrows[i].vault_amount)
            },
            None => {
                proof {
                    lemma_escrows_map_dom(self.escrows@, address@);
                }
                None
            },
        }
    }
}

/// Copies the stored wallet entries, for working on a scratch ledger that is
/// only committed once every step of an operation has succeeded.
fn copy_wallets(v: &Vec<WalletEntry>) -> (r: Vec<WalletEntry>)
    ensures
        r@ == v@,
{
    let mut r: Vec<WalletEntry> = Vec::new();
    let mut i: usize = 0;
    while i < v.len()
        invariant
            i <= v@.len(),
            r@ == v@.subrange(0, i as int),
        decreases v@.len() - i,
    {
        r.push(v[i]);
        proof {
            assert(r@ =~= v@.subrange(0, (i + 1) as int));
        }
        i += 1;
    }
    proof {
        assert(r@ =~= v@);
    }
    r
}

// ---------------------------------------------------------------------------
// The trade operations.
// ---------------------------------------------------------------------------

impl Ledger {
    /// Make: opens an escrow. Derives the authority from the maker and seed,
    /// creates the record and vault at the derived address, and moves exactly
    /// `deposit` of `mint_a` (plus the storage bond) from the maker — one
    /// atomic unit: on any failure nothing changes.
    ///
    /// `mint_b` and `receive` are the terms the maker wants back; whether a
    /// zero `deposit` or `receive` is worth opening is the maker's policy,
    /// not enforced here.
    pub fn make(
        &mut self,
        maker: &Address,
        seed: u64,
        mint_a: &Address,
        mint_b: &Address,
        deposit: u64,
        receive: u64,
    ) -> (r: Result<(), EscrowError>)
        ensures
            r == crate::protocol::make_result(
                old(self)@,
                maker@,
                mint_a@,
                deposit,
                crate::authority::derived_authority(maker@, seed),
            ),
            (match crate::authority::derived_authority(maker@, seed) {
                Some(p) => r is Ok ==> final(self)@ == crate::protocol::make_post(
                    old(self)@,
                    maker@,
                    seed,
                    mint_a@,
                    mint_b@,
                    deposit,
                    receive,
                    p.0,
                    p.1,
                ),
                None => true,
            }),
            !(r is Ok) ==> final(self)@ == old(self)@,
    {
        proof {
            use_type_invariant(&*self);
        }
        let (address, bump) = match crate::authority::derive_authority(maker, seed) {
            Some(p) => p,
            None => {
                return Err(EscrowError::InvalidAuthority);
            },
        };
        match escrow_find(&self.escrows, &address) {
            Some(i) => {
                proof {
                    lemma_escrows_map_value(self.escrows@, i as int);
                }
                return Err(EscrowError::AlreadyExists);
            },
            None => {
                proof {
                    lemma_escrows_map_dom(self.escrows@, address@);
                }
            },
        }
        if wallet_balance_in(&self.wallets, maker, mint_a) < deposit {
            return Err(EscrowError::InsufficientFunds);
        }
        if native_balance_in(&self.natives, maker) < STORAGE_BOND {
            return Err(EscrowError::InsufficientFunds);
        }
        let mut w: Vec<WalletEntry> = Vec::new();
        std::mem::swap(&mut self.wallets, &mut w);
        wallet_debit(&mut w, maker, mint_a, deposit);
        std::mem::swap(&mut self.wallets, &mut w);
        let mut n: Vec<NativeEntry> = Vec::new();
        std::mem::swap(&mut self.natives, &mut n);
        native_debit(&mut n, maker, STORAGE_BOND);
        std::mem::swap(&mut self.natives, &mut n);
        let entry = EscrowAccount {
            address,
            record: Escrow {
                seed,
                maker: *maker,
                mint_a: *mint_a,
                mint_b: *mint_b,
                receive,
                bump,
            },
            vault_amount: deposit,
            bond: STORAGE_BOND,
        };
        let mut es: Vec<EscrowAccount> = Vec::new();
        std::mem::swap(&mut self.escrows, &mut es);
        proof {
            lemma_escrows_map_push(es@, entry);
        }
        es.push(entry);
        std::mem::swap(&mut self.escrows, &mut es);
        proof {
            assert(self@ =~= crate::protocol::make_post(
                old(self)@,
                maker@,
                seed,
                mint_a@,
                mint_b@,
                deposit,
                receive,
                address@,
                bump,
            ));
        }
        Ok(())
    }

    /// Take: settles the trade. The caller (taker) pays the record's maker
    /// exactly the requested amount, receives the vault's entire live
    /// balance, and the record and vault are released to the maker — one
    /// atomic unit, payment before delivery: on any failure, including a
    /// failed payment step, nothing changes and the record still exists.
    ///
    /// The record is looked up by re-deriving the address from the supplied
    /// maker and seed, its stored terms are checked against them, and its
    /// stored bump is reproduced and checked; nothing is trusted from
    /// caller-supplied data. A second Take on the same record fails with
    /// `NotFound`: the record no longer exists.
    pub fn take(&mut self, taker: &Address, maker: &Address, seed: u64) -> (r: Result<
        (),
        EscrowError,
    >)
        ensures
            r == crate::protocol::take_result(
                old(self)@,
                taker@,
                maker@,
                seed,
                crate::authority::derived_authority(maker@, seed),
            ),
            (match crate::authority::derived_authority(maker@, seed) {
                Some(p) => r is Ok ==> final(self)@ == crate::protocol::take_post(
                    old(self)@,
                    taker@,
                    p.0,
                ),
                None => true,
            }),
            !(r is Ok) ==> final(self)@ == old(self)@,
    {
        proof {
            use_type_invariant(&*self);
        }
        let (address, _found_bump) = match crate::authority::derive_authority(maker, seed) {
            Some(p) => p,
            None => {
                return Err(EscrowError::NotFound);
            },
        };
        let i = match escrow_find(&self.escrows, &address) {
            Some(i) => {
                proof {
                    lemma_escrows_map_value(self.escrows@, i as int);
                }
                i
            },
            None => {
                proof {
                    lemma_escrows_map_dom(self.escrows@, address@);
                }
                return Err(EscrowError::NotFound);
            },
        };
        let record = self.escrows[i].record;
        let vault_amount = self.escrows[i].vault_amount;
        let bond = self.escrows[i].bond;
        if !(addr_eq(&record.maker, maker) && record.seed == seed) {
            return Err(EscrowError::InvalidAuthority);
        }
        // Reproduce the derived authority from the record's stored bump; a
        // mismatching bump is rejected. For a record this ledger stores the
        // check always passes: its validity is part of the store's invariant.
        let bump_ok = match crate::authority::reproduce_authority(maker, seed, record.bump) {
            Some(a) => addr_eq(&a, &address),
            None => false,
        };
        proof {
            assert(bump_ok);
        }
        if !bump_ok {
            return Err(EscrowError::InvalidAuthority);
        }
        if wallet_balance_in(&self.wallets, taker, &record.mint_b) < record.receive {
            return Err(EscrowError::InsufficientFunds);
        }
        // Work on a scratch copy; commit only when every step has succeeded.
        let mut w = copy_wallets(&self.wallets);
        wallet_debit(&mut w, taker, &record.mint_b, record.receive);
        if !wallet_credit(&mut w, &record.maker, &record.mint_b, record.receive) {
            return Err(EscrowError::ArithmeticOverflow);
        }
        if !wallet_credit(&mut w, taker, &record.mint_a, vault_amount) {
            return Err(EscrowError::ArithmeticOverflow);
        }
        if native_balance_in(&self.natives, &record.maker) > u64::MAX - bond {
            return Err(EscrowError::ArithmeticOverflow);
        }
        self.wallets = w;
        let mut n: Vec<NativeEntry> = Vec::new();
        std::mem::swap(&mut self.natives, &mut n);
        let native_ok = native_credit(&mut n, &record.maker, bond);
        std::mem::swap(&mut self.natives, &mut n);
        proof {
            assert(native_ok);
        }
        let mut es: Vec<EscrowAccount> = Vec::new();
        std::mem::swap(&mut self.escrows, &mut es);
        proof {
            lemma_escrows_map_remove(es@, i as int);
        }
        es.remove(i);
        std::mem::swap(&mut self.escrows, &mut es);
        proof {
            assert(self@ =~= crate::protocol::take_post(old(self)@, taker@, address@));
        }
        Ok(())
    }

    /// Refund: abandons the trade. Only the record's own maker may call it,
    /// at any time before a successful Take. The vault's entire balance goes
    /// back to the maker and the record and vault are released to the maker —
    /// one atomic unit: on any failure nothing changes.
    pub fn refund(&mut self, caller: &Address, maker: &Address, seed: u64) -> (r: Result<
        (),
        EscrowError,
    >)
        ensures
            r == crate::protocol::refund_result(
                old(self)@,
                caller@,
                maker@,
                seed,
                crate::authority::derived_authority(maker@, seed),
            ),
            (match crate::authority::derived_authority(maker@, seed) {
                Some(p) => r is Ok ==> final(self)@ == crate::protocol::refund_post(
                    old(self)@,
                    p.0,
                ),
                None => true,
            }),
            !(r is Ok) ==> final(self)@ == old(self)@,
    {
        proof {
            use_type_invariant(&*self);
        }
        let (address, _found_bump) = match crate::authority::derive_authority(maker, seed) {
            Some(p) => p,
            None => {
                return Err(EscrowError::NotFound);
            },
        };
        let i = match escrow_find(&self.escrows, &address) {
            Some(i) => {
                proof {
                    lemma_escrows_map_value(self.escrows@, i as int);
                }
                i
            },
            None => {
                proof {
                    lemma_escrows_map_dom(self.escrows@, address@);
                }
                return Err(EscrowError::NotFound);
            },
        };
        let record = self.escrows[i].record;
        let vault_amount = self.escrows[i].vault_amount;
        let bond = self.escrows[i].bond;
        if !(addr_eq(&record.maker, maker) && record.seed == seed) {
            return Err(EscrowError::InvalidAuthority);
        }
        if !addr_eq(caller, &record.maker) {
            return Err(EscrowError::Unauthorized);
        }
        // Reproduce the derived authority from the record's stored bump, as
        // for Take; for a stored record the check always passes.
        let bump_ok = match crate::authority::reproduce_authority(maker, seed, record.bump) {
            Some(a) => addr_eq(&a, &address),
            None => false,
        };
        proof {
            assert(bump_ok);
        }
        if !bump_ok {
            return Err(EscrowError::InvalidAuthority);
        }
        if wallet_balance_in(&self.wallets, &record.maker, &record.mint_a) > u64::MAX
            - vault_amount {
            return Err(EscrowError::ArithmeticOverflow);
        }
        if native_balance_in(&self.natives, &record.maker) > u64::MAX - bond {
            return Err(EscrowError::ArithmeticOverflow);
        }
        let mut w: Vec<WalletEntry> = Vec::new();
        std::mem::swap(&mut self.wallets, &mut w);
        let wallet_ok = wallet_credit(&mut w, &record.maker, &record.mint_a, vault_amount);
        std::mem::swap(&mut self.wallets, &mut w);
        proof {
            assert(wallet_ok);
        }
        let mut n: Vec<NativeEntry> = Vec::new();
        std::mem::swap(&mut self.natives, &mut n);
        let native_ok = native_credit(&mut n, &record.maker, bond);
        std::mem::swap(&mut self.natives, &mut n);
        proof {
            assert(native_ok);
        }
        let mut es: Vec<EscrowAccount> = Vec::new();
        std::mem::swap(&mut self.escrows, &mut es);
        proof {
            lemma_escrows_map_remove(es@, i as int);
        }
        es.remove(i);
        std::mem::swap(&mut self.escrows, &mut es);
        proof {
            assert(self@ =~= crate::protocol::refund_post(old(self)@, address@));
        }
        Ok(())
    }

    /// Moves `amount` of the escrow's offered asset from `from`'s wallet into
    /// the custody vault. Anyone holding the asset can pay into a vault; the
    /// vault's balance is live, and Take always delivers all of it.
    pub fn deposit_to_vault(
        &mut self,
        from: &Address,
        maker: &Address,
        seed: u64,
        amount: u64,
    ) -> (r: Result<(), EscrowError>)
        ensures
            r == crate::protocol::vault_deposit_result(
                old(self)@,
                from@,
                amount,
                crate::authority::derived_authority(maker@, seed),
            ),
            (match crate::authority::derived_authority(maker@, seed) {
                Some(p) => r is Ok ==> final(self)@ == crate::protocol::vault_deposit_post(
                    old(self)@,
                    from@,
                    amount,
                    p.0,
                ),
                None => true,
            }),
            !(r is Ok) ==> final(self)@ == old(self)@,
    {
        proof {
            use_type_invariant(&*self);
        }
        let (address, _found_bump) = match crate::authority::derive_authority(maker, seed) {
            Some(p) => p,
            None => {
                return Err(EscrowError::NotFound);
            },
        };
        let i = match escrow_find(&self.escrows, &address) {
            Some(i) => {
                proof {
                    lemma_escrows_map_value(self.escrows@, i as int);
                }
                i
            },
            None => {
                proof {
                    lemma_escrows_map_dom(self.escrows@, address@);
                }
                return Err(EscrowError::NotFound);
            },
        };
        let entry = self.escrows[i];
        if wallet_balance_in(&self.wallets, from, &entry.record.mint_a) < amount {
            return Err(EscrowError::InsufficientFunds);
        }
        if entry.vault_amount > u64::MAX - amount {
            return Err(EscrowError::ArithmeticOverflow);
        }
        let mut w: Vec<WalletEntry> = Vec::new();
        std::mem::swap(&mut self.wallets, &mut w);
        wallet_debit(&mut w, from, &entry.record.mint_a, amount);
        std::mem::swap(&mut self.wallets, &mut w);
        let updated = EscrowAccount { vault_amount: entry.vault_amount + amount, ..entry };
        let mut es: Vec<EscrowAccount> = Vec::new();
        std::mem::swap(&mut self.escrows, &mut es);
        proof {
            lemma_escrows_map_update(es@, i as int, updated);
        }
        es[i] = updated;
        std::mem::swap(&mut self.escrows, &mut es);
        proof {
            assert(self@ =~= crate::protocol::vault_deposit_post(
                old(self)@,
                from@,
                amount,
                address@,
            ));
        }
        Ok(())
    }
}

} // verus!



