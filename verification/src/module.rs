//! The asset ledger itself: its storage, the queries on it, and the
//! operations that create assets and move, mint, burn, lock and unlock units.
use vstd::prelude::*;

use crate::account_store::AccountStore;
use crate::holdings::{holdings, lemma_holdings_bound};
use crate::ledger::{
    lemma_burn_keeps_supply_law, lemma_create_keeps_supply_law, lemma_genesis_supply_law,
    lemma_lock_keeps_supply_law, lemma_mint_keeps_supply_law, lemma_transfer_keeps_supply_law,
    lemma_unlock_keeps_supply_law, LedgerView,
};
use crate::types::{
    ensure_signed, AccountAssetMetadata, AccountId, AssetDetails, AssetId, Balance, DispatchError,
    Error, Event, Origin,
};

verus! {

/// The asset ledger: balances per `(asset, account)`, the details of each
/// asset class, the next asset identifier, and the events deposited.
pub struct Module {
    accounts: AccountStore,
    assets: Vec<AssetDetails>,
    next_asset_id: AssetId,
    events: Vec<Event>,
}

impl View for Module {
    type V = LedgerView;

    closed spec fn view(&self) -> LedgerView {
        LedgerView { accounts: self.accounts@, assets: self.assets@, events: self.events@ }
    }
}

impl Module {
    /// The storage is consistent: no balance is stored twice, the next asset
    /// identifier is the number of assets created, and the supply law holds.
    pub closed spec fn wf(&self) -> bool {
        &&& self.accounts.wf()
        &&& self.assets@.len() == self.next_asset_id
        &&& self@.supply_law()
    }

    /// Every ledger keeps the supply law: the supply of each asset is what all
    /// accounts hold of it.
    pub proof fn lemma_supply_law(&self)
        requires
            self.wf(),
        ensures
            self@.supply_law(),
    {
    }

    /// The ledger before anything happened.
    pub fn new() -> (r: Module)
        ensures
            r.wf(),
            r@ == LedgerView::genesis(),
            r@.supply_law(),
    {
        let r = Module {
            accounts: AccountStore::new(),
            assets: Vec::new(),
            next_asset_id: 0,
            events: Vec::new(),
        };
        proof {
            lemma_genesis_supply_law();
            assert(r@ =~= LedgerView::genesis());
        }
        r
    }

    /// Get the asset `id` free balance of `who`.
    pub fn free_balance(&self, id: AssetId, who: AccountId) -> (r: Balance)
        requires
            self.wf(),
        ensures
            r == self@.account(id, who).free,
    {
        self.accounts.get(id, who).free
    }

    /// Get the asset `id` total balance of `who`.
    pub fn total_balance(&self, id: AssetId, who: AccountId) -> (r: Balance)
        requires
            self.wf(),
        ensures
            r == self@.account(id, who).total_spec(),
            r == self@.account(id, who).free + self@.account(id, who).frozen,
    {
        proof {
            lemma_holdings_bound(self@.accounts, (id, who), id);
            assert(holdings(self@.accounts, id) == self@.supply_of(id));
        }
        self.accounts.get(id, who).total()
    }

    /// Get the total supply of an asset `id`.
    pub fn total_issuances(&self, id: AssetId) -> (r: Balance)
        requires
            self.wf(),
        ensures
            r == self@.supply_of(id),
    {
        match self.total_supply(id) {
            Some(asset) => asset.supply,
            None => 0,
        }
    }

    /// The details of an asset.
    pub fn total_supply(&self, id: AssetId) -> (r: Option<AssetDetails>)
        requires
            self.wf(),
        ensures
            r == self@.total_supply(id),
    {
        if id < self.next_asset_id {
            Some(self.assets[id as usize])
        } else {
            None
        }
    }

    /// The next asset identifier up for grabs.
    pub fn next_asset_id(&self) -> (r: AssetId)
        requires
            self.wf(),
        ensures
            r == self@.assets.len(),
    {
        self.next_asset_id
    }

    /// The events deposited so far, oldest first.
    pub fn events(&self) -> (r: &Vec<Event>)
        ensures
            r@ == self@.events,
    {
        &self.events
    }

    fn deposit_event(&mut self, event: Event)
        ensures
            final(self).accounts == old(self).accounts,
            final(self).assets == old(self).assets,
            final(self).next_asset_id == old(self).next_asset_id,
            final(self).events@ == old(self).events@.push(event),
    {
        self.events.push(event);
    }

    /// Issue a new class of fungible assets. There are `total` such assets and
    /// they all belong to `owner` initially. The class gets the identifier
    /// `next_asset_id`, which is given in the `Issued` event.
    pub fn create(&mut self, owner: AccountId, total: Balance)
        requires
            old(self).wf(),
            old(self)@.assets.len() < u32::MAX,
        ensures
            final(self).wf(),
            final(self)@ == old(self)@.create_step(owner, total),
            final(self)@.supply_law(),
    {
        let id = self.next_asset_id;
        self.next_asset_id = id + 1;
        let details = AssetDetails { issuer: owner, init: false, supply: total };
        let meta = AccountAssetMetadata { free: total, frozen: 0 };
        self.assets.push(details);
        self.accounts.set(id, owner, meta);
        self.deposit_event(Event::Issued(id, owner, total));
        proof {
            assert(self@ =~= old(self)@.create_step(owner, total));
            lemma_create_keeps_supply_law(old(self)@, owner, total);
        }
    }

    /// Move `amount` units of asset `id` from `origin`'s free balance to `target`'s.
    pub fn base_transfer(&mut self, id: AssetId, origin: AccountId, target: AccountId, amount: Balance) -> (r: Result<(), Error>)
        requires
            old(self).wf(),
        ensures
            final(self).wf(),
            final(self)@ == old(self)@.transfer_step(id, origin, target, amount).0,
            r == old(self)@.transfer_step(id, origin, target, amount).1,
            final(self)@.supply_law(),
    {
        proof {
            lemma_transfer_keeps_supply_law(old(self)@, id, origin, target, amount);
        }
        if amount == 0 {
            return Err(Error::AmountZero);
        }
        if origin == target {
            self.deposit_event(Event::Transferred(id, origin, target, amount));
            proof {
                assert(self@ =~= old(self)@.transfer_step(id, origin, target, amount).0);
            }
            return Ok(());
        }
        let from = self.accounts.get(id, origin);
        if from.free < amount {
            return Err(Error::BalanceLow);
        }
        let to = self.accounts.get(id, target);
        self.accounts.set(id, origin, AccountAssetMetadata { free: from.free - amount, frozen: from.frozen });
        self.accounts.set(
            id,
            target,
            AccountAssetMetadata { free: to.free.saturating_add(amount), frozen: to.frozen },
        );
        self.deposit_event(Event::Transferred(id, origin, target, amount));
        proof {
            assert(self@ =~= old(self)@.transfer_step(id, origin, target, amount).0);
        }
        Ok(())
    }

    /// Move some assets from one holder to another: the call signed by `origin`
    /// sends `amount` units of asset `id` to `target`.
    pub fn transfer(&mut self, origin: Origin, id: AssetId, target: AccountId, amount: Balance) -> (r: Result<(), DispatchError>)
        requires
            old(self).wf(),
        ensures
            final(self).wf(),
            match origin {
                Origin::Signed(who) => {
                    &&& final(self)@ == old(self)@.transfer_step(id, who, target, amount).0
                    &&& r == match old(self)@.transfer_step(id, who, target, amount).1 {
                        Ok(()) => Ok::<(), DispatchError>(()),
                        Err(e) => Err::<(), DispatchError>(DispatchError::Module(e)),
                    }
                },
                _ => {
                    &&& final(self)@ == old(self)@
                    &&& r == Err::<(), DispatchError>(DispatchError::BadOrigin)
                },
            },
            final(self)@.supply_law(),
    {
        let who = match ensure_signed(origin) {
            Ok(who) => who,
            Err(e) => return Err(e),
        };
        match self.base_transfer(id, who, target, amount) {
            Ok(()) => Ok(()),
            Err(e) => Err(DispatchError::Module(e)),
        }
    }

    /// The issuer of asset `id` mints `amount` new units into its own free balance.
    pub fn base_mint(&mut self, id: AssetId, issuer: AccountId, amount: Balance) -> (r: Result<(), Error>)
        requires
            old(self).wf(),
        ensures
            final(self).wf(),
            final(self)@ == old(self)@.mint_step(id, issuer, amount).0,
            r == old(self)@.mint_step(id, issuer, amount).1,
            final(self)@.supply_law(),
    {
        proof {
            lemma_mint_keeps_supply_law(old(self)@, id, issuer, amount);
        }
        let details = match self.total_supply(id) {
            Some(details) => details,
            None => return Err(Error::Unknown),
        };
        if issuer != details.issuer {
            return Err(Error::NoPermission);
        }
        let supply = match details.supply.checked_add(amount) {
            Some(supply) => supply,
            None => return Err(Error::Overflow),
        };
        let held = self.accounts.get(id, issuer);
        self.assets.set(id as usize, AssetDetails { supply, ..details });
        self.accounts.set(
            id,
            issuer,
            AccountAssetMetadata { free: held.free.saturating_add(amount), frozen: held.frozen },
        );
        self.deposit_event(Event::Minted(id, issuer, amount));
        proof {
            assert(self@ =~= old(self)@.mint_step(id, issuer, amount).0);
        }
        Ok(())
    }

    /// The issuer of asset `id` burns `amount` units of its own free balance.
    pub fn base_burn(&mut self, id: AssetId, issuer: AccountId, amount: Balance) -> (r: Result<(), Error>)
        requires
            old(self).wf(),
        ensures
            final(self).wf(),
            final(self)@ == old(self)@.burn_step(id, issuer, amount).0,
            r == old(self)@.burn_step(id, issuer, amount).1,
            final(self)@.supply_law(),
    {
        proof {
            lemma_burn_keeps_supply_law(old(self)@, id, issuer, amount);
        }
        let details = match self.total_supply(id) {
            Some(details) => details,
            None => return Err(Error::Unknown),
        };
        if issuer != details.issuer {
            return Err(Error::NoPermission);
        }
        let held = self.accounts.get(id, issuer);
        if held.free < amount {
            return Err(Error::BalanceLow);
        }
        self.accounts.set(id, issuer, AccountAssetMetadata { free: held.free - amount, frozen: held.frozen });
        self.assets.set(id as usize, AssetDetails { supply: details.supply.saturating_sub(amount), ..details });
        self.deposit_event(Event::Burned(id, issuer, amount));
        proof {
            assert(self@ =~= old(self)@.burn_step(id, issuer, amount).0);
        }
        Ok(())
    }

    /// `who` moves `amount` units of asset `id` from its free to its frozen balance.
    pub fn base_lock(&mut self, id: AssetId, who: AccountId, amount: Balance) -> (r: Result<(), Error>)
        requires
            old(self).wf(),
        ensures
            final(self).wf(),
            final(self)@ == old(self)@.lock_step(id, who, amount).0,
            r == old(self)@.lock_step(id, who, amount).1,
            final(self)@.supply_law(),
    {
        proof {
            lemma_lock_keeps_supply_law(old(self)@, id, who, amount);
        }
        let held = self.accounts.get(id, who);
        if held.free < amount {
            return Err(Error::BalanceLow);
        }
        self.accounts.set(
            id,
            who,
            AccountAssetMetadata { free: held.free - amount, frozen: held.frozen.saturating_add(amount) },
        );
        self.deposit_event(Event::Locked(id, who, amount));
        proof {
            assert(self@ =~= old(self)@.lock_step(id, who, amount).0);
        }
        Ok(())
    }

    /// `who` moves `amount` units of asset `id` from its frozen back to its free balance.
    pub fn base_unlock(&mut self, id: AssetId, who: AccountId, amount: Balance) -> (r: Result<(), Error>)
        requires
            old(self).wf(),
        ensures
            final(self).wf(),
            final(self)@ == old(self)@.unlock_step(id, who, amount).0,
            r == old(self)@.unlock_step(id, who, amount).1,
            final(self)@.supply_law(),
    {
        proof {
            lemma_unlock_keeps_supply_law(old(self)@, id, who, amount);
        }
        let held = self.accounts.get(id, who);
        if held.frozen < amount {
            return Err(Error::BalanceLow);
        }
        self.accounts.set(
            id,
            who,
            AccountAssetMetadata { free: held.free.saturating_add(amount), frozen: held.frozen - amount },
        );
        self.deposit_event(Event::UnLocked(id, who, amount));
        proof {
            assert(self@ =~= old(self)@.unlock_step(id, who, amount).0);
        }
        Ok(())
    }
}

} // verus!
