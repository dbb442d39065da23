//! What each ledger operation does, stated in terms of its inputs and its
//! result: when it succeeds, which error it gives otherwise, and how the
//! balances and supplies it touches move.
use vstd::prelude::*;

use crate::holdings::{holdings, lemma_holdings_bound, lemma_holdings_pair_bound};
use crate::ledger::LedgerView;
use crate::types::{AccountId, AssetId, Balance, Error, Event};

verus! {

/// A transfer between two distinct accounts succeeds exactly when the amount
/// is non-zero and the origin holds at least that much free, whatever either
/// account holds frozen. Then the origin's free balance falls by the amount,
/// the target's rises by it, nothing frozen and no other account or asset
/// changes, and a `Transferred` event is deposited. A refused transfer changes
/// nothing. A transfer to oneself with a non-zero amount succeeds and only
/// deposits the event.
pub proof fn law_transfer(v: LedgerView, id: AssetId, origin: AccountId, target: AccountId, amount: Balance)
    requires
        v.supply_law(),
    ensures
        ({
            let (w, r) = v.transfer_step(id, origin, target, amount);
            let from = v.account(id, origin);
            let to = v.account(id, target);
            &&& (r == Err::<(), Error>(Error::AmountZero) <==> amount == 0)
            &&& (r == Err::<(), Error>(Error::BalanceLow) <==> amount != 0 && origin != target
                && from.free < amount)
            &&& (r is Ok <==> amount != 0 && (origin == target || from.free >= amount))
            &&& (r is Err ==> w == v)
            &&& (r is Ok ==> {
                &&& w.events == v.events.push(Event::Transferred(id, origin, target, amount))
                &&& w.assets == v.assets
                &&& forall|x: AssetId, y: AccountId|
                    (x, y) != (id, origin) && (x, y) != (id, target) ==> #[trigger] w.account(x, y)
                        == v.account(x, y)
            })
            &&& (r is Ok && origin == target ==> w.account(id, origin) == from)
            &&& (r is Ok && origin != target ==> {
                &&& w.account(id, origin).free == from.free - amount
                &&& w.account(id, origin).frozen == from.frozen
                &&& w.account(id, target).free == to.free + amount
                &&& w.account(id, target).frozen == to.frozen
            })
        }),
{
    if amount != 0 && origin != target && v.account(id, origin).free >= amount {
        lemma_holdings_pair_bound(v.accounts, (id, origin), (id, target), id);
        assert(holdings(v.accounts, id) == v.supply_of(id));
    }
    let (w, r) = v.transfer_step(id, origin, target, amount);
    if r is Err {
        assert(w =~= v);
    }
}

/// Minting succeeds exactly when the asset exists, the caller is its issuer,
/// and supply plus amount fits in a balance; the errors come in that order:
/// `Unknown`, `NoPermission`, `Overflow`. On success the asset's supply and the
/// issuer's free balance both rise by the amount, its frozen balance and every
/// other account and asset stay, and a `Minted` event is deposited. A refused
/// mint changes nothing.
pub proof fn law_mint(v: LedgerView, id: AssetId, issuer: AccountId, amount: Balance)
    requires
        v.supply_law(),
    ensures
        ({
            let (w, r) = v.mint_step(id, issuer, amount);
            let held = v.account(id, issuer);
            &&& (r == Err::<(), Error>(Error::Unknown) <==> id >= v.assets.len())
            &&& (r == Err::<(), Error>(Error::NoPermission) <==> id < v.assets.len()
                && v.assets[id as int].issuer != issuer)
            &&& (r == Err::<(), Error>(Error::Overflow) <==> id < v.assets.len()
                && v.assets[id as int].issuer == issuer && v.assets[id as int].supply + amount
                > u64::MAX)
            &&& (r is Ok <==> id < v.assets.len() && v.assets[id as int].issuer == issuer
                && v.assets[id as int].supply + amount <= u64::MAX)
            &&& (r is Err ==> w == v)
            &&& (r is Ok ==> {
                &&& w.supply_of(id) == v.supply_of(id) + amount
                &&& w.assets.len() == v.assets.len()
                &&& w.assets[id as int].issuer == v.assets[id as int].issuer
                &&& w.assets[id as int].init == v.assets[id as int].init
                &&& forall|j: int| 0 <= j < v.assets.len() && j != id ==> #[trigger] w.assets[j] == v.assets[j]
                &&& w.account(id, issuer).free == held.free + amount
                &&& w.account(id, issuer).frozen == held.frozen
                &&& forall|x: AssetId, y: AccountId|
                    (x, y) != (id, issuer) ==> #[trigger] w.account(x, y) == v.account(x, y)
                &&& w.events == v.events.push(Event::Minted(id, issuer, amount))
            })
        }),
{
    lemma_holdings_bound(v.accounts, (id, issuer), id);
    assert(holdings(v.accounts, id) == v.supply_of(id));
    let (w, r) = v.mint_step(id, issuer, amount);
    if r is Err {
        assert(w =~= v);
    }
}

/// Burning succeeds exactly when the asset exists, the caller is its issuer,
/// and the issuer holds at least the amount free (frozen units cannot be
/// burned); the errors come in that order: `Unknown`, `NoPermission`,
/// `BalanceLow`. On success the asset's supply and the issuer's free balance
/// both fall by the amount, its frozen balance and every other account and
/// asset stay, and a `Burned` event is deposited. A refused burn changes nothing.
pub proof fn law_burn(v: LedgerView, id: AssetId, issuer: AccountId, amount: Balance)
    requires
        v.supply_law(),
    ensures
        ({
            let (w, r) = v.burn_step(id, issuer, amount);
            let held = v.account(id, issuer);
            &&& (r == Err::<(), Error>(Error::Unknown) <==> id >= v.assets.len())
            &&& (r == Err::<(), Error>(Error::NoPermission) <==> id < v.assets.len()
                && v.assets[id as int].issuer != issuer)
            &&& (r == Err::<(), Error>(Error::BalanceLow) <==> id < v.assets.len()
                && v.assets[id as int].issuer == issuer && held.free < amount)
            &&& (r is Ok <==> id < v.assets.len() && v.assets[id as int].issuer == issuer
                && held.free >= amount)
            &&& (r is Err ==> w == v)
            &&& (r is Ok ==> {
                &&& w.supply_of(id) == v.supply_of(id) - amount
                &&& w.assets.len() == v.assets.len()
                &&& w.assets[id as int].issuer == v.assets[id as int].issuer
                &&& w.assets[id as int].init == v.assets[id as int].init
                &&& forall|j: int| 0 <= j < v.assets.len() && j != id ==> #[trigger] w.assets[j] == v.assets[j]
                &&& w.account(id, issuer).free == held.free - amount
                &&& w.account(id, issuer).frozen == held.frozen
                &&& forall|x: AssetId, y: AccountId|
                    (x, y) != (id, issuer) ==> #[trigger] w.account(x, y) == v.account(x, y)
                &&& w.events == v.events.push(Event::Burned(id, issuer, amount))
            })
        }),
{
    lemma_holdings_bound(v.accounts, (id, issuer), id);
    assert(holdings(v.accounts, id) == v.supply_of(id));
    let (w, r) = v.burn_step(id, issuer, amount);
    if r is Err {
        assert(w =~= v);
    }
}

/// Locking succeeds exactly when the account holds at least the amount free
/// (all of it may be locked). On success exactly the amount moves from free to
/// frozen, no other account or asset changes, and a `Locked` event is
/// deposited. A refused lock gives `BalanceLow` and changes nothing.
pub proof fn law_lock(v: LedgerView, id: AssetId, who: AccountId, amount: Balance)
    requires
        v.supply_law(),
    ensures
        ({
            let (w, r) = v.lock_step(id, who, amount);
            let held = v.account(id, who);
            &&& (r is Ok <==> held.free >= amount)
            &&& (r is Err ==> r == Err::<(), Error>(Error::BalanceLow) && w == v)
            &&& (r is Ok ==> {
                &&& w.account(id, who).free == held.free - amount
                &&& w.account(id, who).frozen == held.frozen + amount
                &&& forall|x: AssetId, y: AccountId|
                    (x, y) != (id, who) ==> #[trigger] w.account(x, y) == v.account(x, y)
                &&& w.assets == v.assets
                &&& w.events == v.events.push(Event::Locked(id, who, amount))
            })
        }),
{
    lemma_holdings_bound(v.accounts, (id, who), id);
    assert(holdings(v.accounts, id) == v.supply_of(id));
}

/// Unlocking succeeds exactly when the account holds at least the amount
/// frozen. On success exactly the amount moves from frozen to free, no other
/// account or asset changes, and an `UnLocked` event is deposited. A refused
/// unlock gives `BalanceLow` and changes nothing.
pub proof fn law_unlock(v: LedgerView, id: AssetId, who: AccountId, amount: Balance)
    requires
        v.supply_law(),
    ensures
        ({
            let (w, r) = v.unlock_step(id, who, amount);
            let held = v.account(id, who);
            &&& (r is Ok <==> held.frozen >= amount)
            &&& (r is Err ==> r == Err::<(), Error>(Error::BalanceLow) && w == v)
            &&& (r is Ok ==> {
                &&& w.account(id, who).free == held.free + amount
                &&& w.account(id, who).frozen == held.frozen - amount
                &&& forall|x: AssetId, y: AccountId|
                    (x, y) != (id, who) ==> #[trigger] w.account(x, y) == v.account(x, y)
                &&& w.assets == v.assets
                &&& w.events == v.events.push(Event::UnLocked(id, who, amount))
            })
        }),
{
    lemma_holdings_bound(v.accounts, (id, who), id);
    assert(holdings(v.accounts, id) == v.supply_of(id));
}

} // verus!
