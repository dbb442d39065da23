//! The abstract state of the asset ledger, what each operation does to it,
//! and the laws that the operations keep.
use vstd::prelude::*;

use crate::holdings::{
    holding_at, holdings, lemma_holdings_bound, lemma_holdings_insert,
    lemma_holdings_pair_bound,
};
use crate::types::{
    saturating_diff, saturating_sum, AccountAssetMetadata, AccountId, AssetDetails, AssetId,
    Balance, Error, Event,
};

verus! {

/// The ledger as a whole.
#[verifier::ext_equal]
pub struct LedgerView {
    /// What each account holds of each asset, for every `(asset, account)`
    /// pair that has been written.
    pub accounts: Map<(AssetId, AccountId), AccountAssetMetadata>,
    /// The details of the asset classes; asset `i` is at position `i`, and the
    /// next asset to be created gets the identifier `assets.len()`.
    pub assets: Seq<AssetDetails>,
    /// The events deposited so far, oldest first.
    pub events: Seq<Event>,
}

impl LedgerView {
    /// The ledger before anything happened.
    pub open spec fn genesis() -> LedgerView {
        LedgerView { accounts: Map::empty(), assets: Seq::empty(), events: Seq::empty() }
    }

    /// What `who` holds of asset `id` (nothing, when it was never written).
    pub open spec fn account(self, id: AssetId, who: AccountId) -> AccountAssetMetadata {
        holding_at(self.accounts, (id, who))
    }

    /// The details of asset `id`, if it was created.
    pub open spec fn total_supply(self, id: AssetId) -> Option<AssetDetails> {
        if id < self.assets.len() {
            Some(self.assets[id as int])
        } else {
            None
        }
    }

    /// The total supply of asset `id`; zero for an asset that was never created.
    pub open spec fn supply_of(self, id: AssetId) -> Balance {
        match self.total_supply(id) {
            Some(details) => details.supply,
            None => 0,
        }
    }

    /// The ledger with `meta` recorded as what `who` holds of asset `id`.
    pub open spec fn with_account(self, id: AssetId, who: AccountId, meta: AccountAssetMetadata) -> LedgerView {
        LedgerView { accounts: self.accounts.insert((id, who), meta), ..self }
    }

    /// The ledger with `event` deposited.
    pub open spec fn deposit(self, event: Event) -> LedgerView {
        LedgerView { events: self.events.push(event), ..self }
    }

    /// The supply of every asset is the total that all accounts hold of it,
    /// free and frozen together; nobody holds an asset that was never created.
    pub open spec fn supply_law(self) -> bool {
        &&& self.accounts.dom().finite()
        &&& forall|id: AssetId| #[trigger] holdings(self.accounts, id) == self.supply_of(id)
    }

    /// Issuing a new asset class of `total` units, all held free by `owner`;
    /// it gets the next identifier.
    pub open spec fn create_step(self, owner: AccountId, total: Balance) -> LedgerView {
        let id = self.assets.len() as AssetId;
        LedgerView {
            accounts: self.accounts.insert((id, owner), AccountAssetMetadata { free: total, frozen: 0 }),
            assets: self.assets.push(AssetDetails { issuer: owner, init: false, supply: total }),
            events: self.events.push(Event::Issued(id, owner, total)),
        }
    }

    /// Moving `amount` free units of asset `id` from `origin` to `target`.
    /// A zero amount, or more than `origin` holds free, is refused and changes
    /// nothing; a transfer that goes through deposits the `Transferred` event.
    pub open spec fn transfer_step(
        self,
        id: AssetId,
        origin: AccountId,
        target: AccountId,
        amount: Balance,
    ) -> (LedgerView, Result<(), Error>) {
        if amount == 0 {
            (self, Err(Error::AmountZero))
        } else if origin == target {
            (self.deposit(Event::Transferred(id, origin, target, amount)), Ok(()))
        } else if self.account(id, origin).free < amount {
            (self, Err(Error::BalanceLow))
        } else {
            let from = self.account(id, origin);
            let to = self.account(id, target);
            (
                self.with_account(
                    id,
                    origin,
                    AccountAssetMetadata { free: (from.free - amount) as Balance, frozen: from.frozen },
                ).with_account(
                    id,
                    target,
                    AccountAssetMetadata { free: saturating_sum(to.free, amount), frozen: to.frozen },
                ).deposit(Event::Transferred(id, origin, target, amount)),
                Ok(()),
            )
        }
    }

    /// The issuer of asset `id` minting `amount` new units into its own free balance.
    pub open spec fn mint_step(self, id: AssetId, issuer: AccountId, amount: Balance) -> (LedgerView, Result<(), Error>) {
        match self.total_supply(id) {
            None => (self, Err(Error::Unknown)),
            Some(details) => {
                if details.issuer != issuer {
                    (self, Err(Error::NoPermission))
                } else if details.supply + amount > u64::MAX {
                    (self, Err(Error::Overflow))
                } else {
                    let held = self.account(id, issuer);
                    let next = LedgerView {
                        assets: self.assets.update(
                            id as int,
                            AssetDetails { supply: (details.supply + amount) as Balance, ..details },
                        ),
                        ..self
                    };
                    (
                        next.with_account(
                            id,
                            issuer,
                            AccountAssetMetadata { free: saturating_sum(held.free, amount), frozen: held.frozen },
                        ).deposit(Event::Minted(id, issuer, amount)),
                        Ok(()),
                    )
                }
            },
        }
    }

    /// The issuer of asset `id` burning `amount` units of its own free balance.
    pub open spec fn burn_step(self, id: AssetId, issuer: AccountId, amount: Balance) -> (LedgerView, Result<(), Error>) {
        match self.total_supply(id) {
            None => (self, Err(Error::Unknown)),
            Some(details) => {
                if details.issuer != issuer {
                    (self, Err(Error::NoPermission))
                } else if self.account(id, issuer).free < amount {
                    (self, Err(Error::BalanceLow))
                } else {
                    let held = self.account(id, issuer);
                    let next = LedgerView {
                        assets: self.assets.update(
                            id as int,
                            AssetDetails { supply: saturating_diff(details.supply, amount), ..details },
                        ),
                        ..self
                    };
                    (
                        next.with_account(
                            id,
                            issuer,
                            AccountAssetMetadata { free: (held.free - amount) as Balance, frozen: held.frozen },
                        ).deposit(Event::Burned(id, issuer, amount)),
                        Ok(()),
                    )
                }
            },
        }
    }

    /// `who` moving `amount` units of asset `id` from free to frozen.
    pub open spec fn lock_step(self, id: AssetId, who: AccountId, amount: Balance) -> (LedgerView, Result<(), Error>) {
        let held = self.account(id, who);
        if held.free < amount {
            (self, Err(Error::BalanceLow))
        } else {
            (
                self.with_account(
                    id,
                    who,
                    AccountAssetMetadata {
                        free: (held.free - amount) as Balance,
                        frozen: saturating_sum(held.frozen, amount),
                    },
                ).deposit(Event::Locked(id, who, amount)),
                Ok(()),
            )
        }
    }

    /// `who` moving `amount` units of asset `id` from frozen back to free.
    pub open spec fn unlock_step(self, id: AssetId, who: AccountId, amount: Balance) -> (LedgerView, Result<(), Error>) {
        let held = self.account(id, who);
        if held.frozen < amount {
            (self, Err(Error::BalanceLow))
        } else {
            (
                self.with_account(
                    id,
                    who,
                    AccountAssetMetadata {
                        free: saturating_sum(held.free, amount),
                        frozen: (held.frozen - amount) as Balance,
                    },
                ).deposit(Event::UnLocked(id, who, amount)),
                Ok(()),
            )
        }
    }
}

/// The ledger before anything happened keeps the supply law.
pub proof fn lemma_genesis_supply_law()
    ensures
        LedgerView::genesis().supply_law(),
{
    broadcast use vstd::set::group_set_axioms, vstd::map::group_map_axioms;

    let g = LedgerView::genesis();
    assert(g.accounts.dom() =~= Set::empty());
    assert forall|id: AssetId| #[trigger] holdings(g.accounts, id) == g.supply_of(id) by {
        crate::holdings::lemma_holdings_empty(id);
    }
}

/// Issuing a new asset keeps the supply law: the owner holds its whole supply.
pub proof fn lemma_create_keeps_supply_law(v: LedgerView, owner: AccountId, total: Balance)
    requires
        v.supply_law(),
        v.assets.len() < u32::MAX,
    ensures
        v.create_step(owner, total).supply_law(),
{
    let w = v.create_step(owner, total);
    let id = v.assets.len() as AssetId;
    let key = (id, owner);
    let meta = AccountAssetMetadata { free: total, frozen: 0 };
    assert forall|x: AssetId| #[trigger] holdings(w.accounts, x) == w.supply_of(x) by {
        lemma_holdings_insert(v.accounts, key, meta, x);
        lemma_holdings_bound(v.accounts, key, x);
        assert(holdings(v.accounts, x) == v.supply_of(x));
        if x == id {
            assert(v.supply_of(x) == 0);
        } else if x < v.assets.len() {
            assert(w.assets[x as int] == v.assets[x as int]);
        }
    }
    lemma_holdings_insert(v.accounts, key, meta, 0);
}

/// A transfer keeps the supply law, and what all accounts hold of each asset.
pub proof fn lemma_transfer_keeps_supply_law(
    v: LedgerView,
    id: AssetId,
    origin: AccountId,
    target: AccountId,
    amount: Balance,
)
    requires
        v.supply_law(),
    ensures
        v.transfer_step(id, origin, target, amount).0.supply_law(),
        v.transfer_step(id, origin, target, amount).0.assets == v.assets,
        forall|x: AssetId|
            #[trigger] holdings(v.transfer_step(id, origin, target, amount).0.accounts, x) == holdings(
                v.accounts,
                x,
            ),
{
    let w = v.transfer_step(id, origin, target, amount).0;
    if amount != 0 && origin != target && v.account(id, origin).free >= amount {
        let from = v.account(id, origin);
        let to = v.account(id, target);
        let m0 = v.accounts;
        let from2 = AccountAssetMetadata { free: (from.free - amount) as Balance, frozen: from.frozen };
        let to2 = AccountAssetMetadata { free: saturating_sum(to.free, amount), frozen: to.frozen };
        let m1 = m0.insert((id, origin), from2);
        lemma_holdings_pair_bound(m0, (id, origin), (id, target), id);
        assert(to.free + amount <= u64::MAX);
        assert forall|x: AssetId| #[trigger] holdings(w.accounts, x) == holdings(v.accounts, x) by {
            lemma_holdings_insert(m0, (id, origin), from2, x);
            lemma_holdings_insert(m1, (id, target), to2, x);
            assert(holding_at(m1, (id, target)) == to);
        }
        lemma_holdings_insert(m0, (id, origin), from2, 0);
        lemma_holdings_insert(m1, (id, target), to2, 0);
    }
}

/// Minting keeps the supply law: the supply and the issuer's free balance
/// grow by the same amount.
pub proof fn lemma_mint_keeps_supply_law(v: LedgerView, id: AssetId, issuer: AccountId, amount: Balance)
    requires
        v.supply_law(),
    ensures
        v.mint_step(id, issuer, amount).0.supply_law(),
{
    let w = v.mint_step(id, issuer, amount).0;
    if v.mint_step(id, issuer, amount).1 is Ok {
        let held = v.account(id, issuer);
        let meta = AccountAssetMetadata { free: saturating_sum(held.free, amount), frozen: held.frozen };
        lemma_holdings_bound(v.accounts, (id, issuer), id);
        assert(held.free + amount <= u64::MAX);
        assert forall|x: AssetId| #[trigger] holdings(w.accounts, x) == w.supply_of(x) by {
            lemma_holdings_insert(v.accounts, (id, issuer), meta, x);
            assert(holdings(v.accounts, x) == v.supply_of(x));
        }
        lemma_holdings_insert(v.accounts, (id, issuer), meta, 0);
    }
}

/// Burning keeps the supply law: the supply and the issuer's free balance
/// shrink by the same amount.
pub proof fn lemma_burn_keeps_supply_law(v: LedgerView, id: AssetId, issuer: AccountId, amount: Balance)
    requires
        v.supply_law(),
    ensures
        v.burn_step(id, issuer, amount).0.supply_law(),
{
    let w = v.burn_step(id, issuer, amount).0;
    if v.burn_step(id, issuer, amount).1 is Ok {
        let held = v.account(id, issuer);
        let meta = AccountAssetMetadata { free: (held.free - amount) as Balance, frozen: held.frozen };
        lemma_holdings_bound(v.accounts, (id, issuer), id);
        assert(holdings(v.accounts, id) == v.supply_of(id));
        assert forall|x: AssetId| #[trigger] holdings(w.accounts, x) == w.supply_of(x) by {
            lemma_holdings_insert(v.accounts, (id, issuer), meta, x);
            assert(holdings(v.accounts, x) == v.supply_of(x));
        }
        lemma_holdings_insert(v.accounts, (id, issuer), meta, 0);
    }
}

/// Locking keeps the supply law, and the account's total: units only move
/// from free to frozen.
pub proof fn lemma_lock_keeps_supply_law(v: LedgerView, id: AssetId, who: AccountId, amount: Balance)
    requires
        v.supply_law(),
    ensures
        v.lock_step(id, who, amount).0.supply_law(),
        v.lock_step(id, who, amount).0.account(id, who).total_spec() == v.account(id, who).total_spec(),
{
    let w = v.lock_step(id, who, amount).0;
    if v.lock_step(id, who, amount).1 is Ok {
        let held = v.account(id, who);
        let meta = AccountAssetMetadata {
            free: (held.free - amount) as Balance,
            frozen: saturating_sum(held.frozen, amount),
        };
        lemma_holdings_bound(v.accounts, (id, who), id);
        assert(holdings(v.accounts, id) == v.supply_of(id));
        assert(held.frozen + amount <= u64::MAX);
        assert forall|x: AssetId| #[trigger] holdings(w.accounts, x) == w.supply_of(x) by {
            lemma_holdings_insert(v.accounts, (id, who), meta, x);
            assert(holdings(v.accounts, x) == v.supply_of(x));
        }
        lemma_holdings_insert(v.accounts, (id, who), meta, 0);
    }
}

/// Unlocking keeps the supply law, and the account's total: units only move
/// from frozen to free.
pub proof fn lemma_unlock_keeps_supply_law(v: LedgerView, id: AssetId, who: AccountId, amount: Balance)
    requires
        v.supply_law(),
    ensures
        v.unlock_step(id, who, amount).0.supply_law(),
        v.unlock_step(id, who, amount).0.account(id, who).total_spec() == v.account(id, who).total_spec(),
{
    let w = v.unlock_step(id, who, amount).0;
    if v.unlock_step(id, who, amount).1 is Ok {
        let held = v.account(id, who);
        let meta = AccountAssetMetadata {
            free: saturating_sum(held.free, amount),
            frozen: (held.frozen - amount) as Balance,
        };
        lemma_holdings_bound(v.accounts, (id, who), id);
        assert(holdings(v.accounts, id) == v.supply_of(id));
        assert(held.free + amount <= u64::MAX);
        assert forall|x: AssetId| #[trigger] holdings(w.accounts, x) == w.supply_of(x) by {
            lemma_holdings_insert(v.accounts, (id, who), meta, x);
            assert(holdings(v.accounts, x) == v.supply_of(x));
        }
        lemma_holdings_insert(v.accounts, (id, who), meta, 0);
    }
}


/// Unlocking what was just locked gives every account back what it held,
/// unless the frozen balance had clamped at the largest balance.
pub proof fn lemma_lock_unlock_round_trip(v: LedgerView, id: AssetId, who: AccountId, amount: Balance)
    requires
        v.lock_step(id, who, amount).1 is Ok,
        v.account(id, who).frozen + amount <= u64::MAX,
    ensures
        ({
            let locked = v.lock_step(id, who, amount).0;
            let unlocked = locked.unlock_step(id, who, amount);
            &&& unlocked.1 is Ok
            &&& forall|x: AssetId, y: AccountId| #[trigger] unlocked.0.account(x, y) == v.account(x, y)
            &&& unlocked.0.assets == v.assets
            &&& unlocked.0.events == v.events.push(Event::Locked(id, who, amount)).push(
                Event::UnLocked(id, who, amount),
            )
        }),
{
}

/// Burning what was just minted gives every account and every asset back
/// what it had, unless the issuer's free balance had clamped at the largest balance.
pub proof fn lemma_mint_burn_round_trip(v: LedgerView, id: AssetId, issuer: AccountId, amount: Balance)
    requires
        v.mint_step(id, issuer, amount).1 is Ok,
        v.account(id, issuer).free + amount <= u64::MAX,
    ensures
        ({
            let minted = v.mint_step(id, issuer, amount).0;
            let burned = minted.burn_step(id, issuer, amount);
            &&& burned.1 is Ok
            &&& forall|x: AssetId, y: AccountId| #[trigger] burned.0.account(x, y) == v.account(x, y)
            &&& burned.0.assets == v.assets
            &&& burned.0.events == v.events.push(Event::Minted(id, issuer, amount)).push(
                Event::Burned(id, issuer, amount),
            )
        }),
{
    let minted = v.mint_step(id, issuer, amount).0;
    let burned = minted.burn_step(id, issuer, amount).0;
    assert(burned.assets =~= v.assets);
}

/// Sending back what was just sent gives every account back what it held,
/// unless the receiver's free balance had clamped at the largest balance.
pub proof fn lemma_transfer_round_trip(
    v: LedgerView,
    id: AssetId,
    origin: AccountId,
    target: AccountId,
    amount: Balance,
)
    requires
        v.transfer_step(id, origin, target, amount).1 is Ok,
        v.account(id, target).free + amount <= u64::MAX,
    ensures
        ({
            let sent = v.transfer_step(id, origin, target, amount).0;
            let returned = sent.transfer_step(id, target, origin, amount);
            &&& returned.1 is Ok
            &&& forall|x: AssetId, y: AccountId| #[trigger] returned.0.account(x, y) == v.account(x, y)
            &&& returned.0.assets == v.assets
        }),
{
}


/// Issuing a new asset gives its whole supply, as free balance, to the owner:
/// the new asset's supply is `total`, and that is what all accounts hold of it.
pub proof fn lemma_create_gives_owner_whole_supply(v: LedgerView, owner: AccountId, total: Balance)
    requires
        v.supply_law(),
        v.assets.len() < u32::MAX,
    ensures
        ({
            let id = v.assets.len() as AssetId;
            let w = v.create_step(owner, total);
            &&& w.total_supply(id) == Some(AssetDetails { issuer: owner, init: false, supply: total })
            &&& w.account(id, owner) == (AccountAssetMetadata { free: total, frozen: 0 })
            &&& holdings(w.accounts, id) == total
        }),
{
    lemma_create_keeps_supply_law(v, owner, total);
}

} // verus!
