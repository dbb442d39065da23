//! How much of one asset all accounts hold together, over the map from
//! `(asset, account)` to what that account holds, and how that sum moves when
//! one account's holding is replaced.
use vstd::prelude::*;

use crate::types::{AccountAssetMetadata, AccountId, AssetId};

verus! {

/// What the account under `key` holds of asset `id`: its free plus frozen
/// balance when the key belongs to that asset, nothing otherwise.
pub open spec fn held_of(key: (AssetId, AccountId), meta: AccountAssetMetadata, id: AssetId) -> nat {
    if key.0 == id {
        meta.held()
    } else {
        0
    }
}

/// What the map records for `key`, the empty holding when it records nothing.
pub open spec fn holding_at(
    accounts: Map<(AssetId, AccountId), AccountAssetMetadata>,
    key: (AssetId, AccountId),
) -> AccountAssetMetadata {
    if accounts.contains_key(key) {
        accounts[key]
    } else {
        AccountAssetMetadata::empty()
    }
}

/// The sum, over every account of `accounts`, of what it holds of asset `id`.
pub open spec fn holdings(accounts: Map<(AssetId, AccountId), AccountAssetMetadata>, id: AssetId) -> nat
    decreases accounts.len(),
    when accounts.dom().finite()
{
    if accounts.len() == 0 {
        0
    } else {
        let key = accounts.dom().choose();
        held_of(key, accounts[key], id) + holdings(accounts.remove(key), id)
    }
}

/// Taking one account out of the sum takes out exactly what it holds.
pub proof fn lemma_holdings_remove(
    accounts: Map<(AssetId, AccountId), AccountAssetMetadata>,
    key: (AssetId, AccountId),
    id: AssetId,
)
    requires
        accounts.dom().finite(),
        accounts.contains_key(key),
    ensures
        holdings(accounts, id) == held_of(key, accounts[key], id) + holdings(accounts.remove(key), id),
    decreases accounts.len(),
{
    broadcast use vstd::set::group_set_axioms, vstd::map::group_map_axioms;

    assert(accounts.dom().contains(key));
    assert(accounts.len() > 0);
    let c = accounts.dom().choose();
    assert(accounts.dom().contains(c));
    if c != key {
        let without_c = accounts.remove(c);
        let without_key = accounts.remove(key);
        assert(without_c.dom() =~= accounts.dom().remove(c));
        assert(without_key.dom() =~= accounts.dom().remove(key));
        lemma_holdings_remove(without_c, key, id);
        lemma_holdings_remove(without_key, c, id);
        assert(without_c.remove(key) =~= without_key.remove(c));
    }
}

/// Replacing one account's holding changes the sum by the difference of what
/// the account held before and after.
pub proof fn lemma_holdings_insert(
    accounts: Map<(AssetId, AccountId), AccountAssetMetadata>,
    key: (AssetId, AccountId),
    meta: AccountAssetMetadata,
    id: AssetId,
)
    requires
        accounts.dom().finite(),
    ensures
        accounts.insert(key, meta).dom().finite(),
        holdings(accounts.insert(key, meta), id) + held_of(key, holding_at(accounts, key), id)
            == holdings(accounts, id) + held_of(key, meta, id),
{
    broadcast use vstd::set::group_set_axioms, vstd::map::group_map_axioms;

    let after = accounts.insert(key, meta);
    assert(after.dom() =~= accounts.dom().insert(key));
    lemma_holdings_remove(after, key, id);
    if accounts.contains_key(key) {
        lemma_holdings_remove(accounts, key, id);
        assert(after.remove(key) =~= accounts.remove(key));
    } else {
        assert(after.remove(key) =~= accounts);
    }
}

/// No account holds more of an asset than all accounts together.
pub proof fn lemma_holdings_bound(
    accounts: Map<(AssetId, AccountId), AccountAssetMetadata>,
    key: (AssetId, AccountId),
    id: AssetId,
)
    requires
        accounts.dom().finite(),
    ensures
        held_of(key, holding_at(accounts, key), id) <= holdings(accounts, id),
{
    if accounts.contains_key(key) {
        lemma_holdings_remove(accounts, key, id);
    }
}

/// Two distinct accounts together hold no more of an asset than all accounts.
pub proof fn lemma_holdings_pair_bound(
    accounts: Map<(AssetId, AccountId), AccountAssetMetadata>,
    first: (AssetId, AccountId),
    second: (AssetId, AccountId),
    id: AssetId,
)
    requires
        accounts.dom().finite(),
        first != second,
    ensures
        held_of(first, holding_at(accounts, first), id) + held_of(second, holding_at(accounts, second), id)
            <= holdings(accounts, id),
{
    broadcast use vstd::set::group_set_axioms, vstd::map::group_map_axioms;

    if accounts.contains_key(first) {
        lemma_holdings_remove(accounts, first, id);
        let rest = accounts.remove(first);
        assert(rest.dom() =~= accounts.dom().remove(first));
        assert(holding_at(rest, second) == holding_at(accounts, second));
        lemma_holdings_bound(rest, second, id);
    } else {
        lemma_holdings_bound(accounts, second, id);
    }
}

/// With no account recorded, nobody holds anything.
pub proof fn lemma_holdings_empty(id: AssetId)
    ensures
        holdings(Map::<(AssetId, AccountId), AccountAssetMetadata>::empty(), id) == 0,
{
    broadcast use vstd::set::group_set_axioms, vstd::map::group_map_axioms;

    assert(Map::<(AssetId, AccountId), AccountAssetMetadata>::empty().dom() =~= Set::empty());
}

} // verus!
