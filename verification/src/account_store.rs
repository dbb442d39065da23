//! The per-account balances, stored as a list of entries keyed by
//! `(asset, account)` in which no key occurs twice, and seen as a map.
use vstd::prelude::*;

use crate::holdings::holding_at;
use crate::types::{AccountAssetMetadata, AccountId, AssetId};

verus! {

/// One stored balance: what `who` holds of asset `asset`.
#[derive(Clone, Copy)]
pub struct AccountEntry {
    pub asset: AssetId,
    pub who: AccountId,
    pub meta: AccountAssetMetadata,
}

impl AccountEntry {
    pub open spec fn key(self) -> (AssetId, AccountId) {
        (self.asset, self.who)
    }
}

/// The map that a list of entries records; a later entry wins over an earlier one.
pub open spec fn entries_map(entries: Seq<AccountEntry>) -> Map<(AssetId, AccountId), AccountAssetMetadata>
    decreases entries.len(),
{
    if entries.len() == 0 {
        Map::empty()
    } else {
        entries_map(entries.drop_last()).insert(entries.last().key(), entries.last().meta)
    }
}

/// No key occurs twice in the list.
pub open spec fn keys_unique(entries: Seq<AccountEntry>) -> bool {
    forall|i: int, j: int|
        0 <= i < entries.len() && 0 <= j < entries.len() && i != j ==> #[trigger] entries[i].key()
            != #[trigger] entries[j].key()
}

/// The map has a finite domain, made of the keys of the entries.
proof fn lemma_entries_map_dom(entries: Seq<AccountEntry>)
    ensures
        entries_map(entries).dom().finite(),
        forall|k: (AssetId, AccountId)|
            #[trigger] entries_map(entries).contains_key(k) <==> exists|i: int|
                0 <= i < entries.len() && entries[i].key() == k,
    decreases entries.len(),
{
    broadcast use vstd::set::group_set_axioms, vstd::map::group_map_axioms;

    if entries.len() > 0 {
        let rest = entries.drop_last();
        lemma_entries_map_dom(rest);
        assert forall|k: (AssetId, AccountId)|
            #[trigger] entries_map(entries).contains_key(k) <==> exists|i: int|
                0 <= i < entries.len() && entries[i].key() == k by {
            if entries_map(entries).contains_key(k) {
                if k == entries.last().key() {
                    assert(entries[entries.len() - 1].key() == k);
                } else {
                    let i = choose|i: int| 0 <= i < rest.len() && rest[i].key() == k;
                    assert(entries[i].key() == k);
                }
            }
            if exists|i: int| 0 <= i < entries.len() && entries[i].key() == k {
                let i = choose|i: int| 0 <= i < entries.len() && entries[i].key() == k;
                if i < entries.len() - 1 {
                    assert(rest[i].key() == k);
                }
            }
        }
    }
}

/// With unique keys, the map gives every entry's holding under its key.
proof fn lemma_entries_map_value(entries: Seq<AccountEntry>, i: int)
    requires
        keys_unique(entries),
        0 <= i < entries.len(),
    ensures
        entries_map(entries).contains_key(entries[i].key()),
        entries_map(entries)[entries[i].key()] == entries[i].meta,
    decreases entries.len(),
{
    if i < entries.len() - 1 {
        let rest = entries.drop_last();
        assert(rest[i] == entries[i]);
        assert(keys_unique(rest));
        lemma_entries_map_value(rest, i);
        assert(entries[i].key() != entries[entries.len() - 1].key());
    }
}

/// Replacing an entry by one with the same key replaces that key's holding.
proof fn lemma_entries_map_update(entries: Seq<AccountEntry>, i: int, e: AccountEntry)
    requires
        keys_unique(entries),
        0 <= i < entries.len(),
        e.key() == entries[i].key(),
    ensures
        keys_unique(entries.update(i, e)),
        entries_map(entries.update(i, e)) == entries_map(entries).insert(e.key(), e.meta),
    decreases entries.len(),
{
    broadcast use vstd::map::group_map_axioms;

    let updated = entries.update(i, e);
    assert(keys_unique(updated)) by {
        assert forall|a: int, b: int|
            0 <= a < updated.len() && 0 <= b < updated.len() && a != b implies #[trigger] updated[a].key()
            != #[trigger] updated[b].key() by {
            assert(entries[a].key() != entries[b].key());
        }
    }
    if i == entries.len() - 1 {
        assert(updated.drop_last() =~= entries.drop_last());
        assert(entries_map(updated) =~= entries_map(entries).insert(e.key(), e.meta));
    } else {
        let rest = entries.drop_last();
        assert(keys_unique(rest));
        lemma_entries_map_update(rest, i, e);
        assert(updated.drop_last() =~= rest.update(i, e));
        assert(entries.last().key() != e.key());
        assert(entries_map(updated) =~= entries_map(entries).insert(e.key(), e.meta));
    }
}

/// The stored balances of every account and asset.
pub struct AccountStore {
    entries: Vec<AccountEntry>,
}

impl View for AccountStore {
    type V = Map<(AssetId, AccountId), AccountAssetMetadata>;

    closed spec fn view(&self) -> Map<(AssetId, AccountId), AccountAssetMetadata> {
        entries_map(self.entries@)
    }
}

impl AccountStore {
    /// No key is stored twice.
    pub closed spec fn wf(&self) -> bool {
        keys_unique(self.entries@)
    }

    /// The recorded balances form a finite map.
    pub proof fn lemma_finite(&self)
        ensures
            self@.dom().finite(),
    {
        lemma_entries_map_dom(self.entries@);
    }

    /// A store that records nothing.
    pub fn new() -> (r: AccountStore)
        ensures
            r.wf(),
            r@ == Map::<(AssetId, AccountId), AccountAssetMetadata>::empty(),
    {
        let r = AccountStore { entries: Vec::new() };
        assert(r@ =~= Map::<(AssetId, AccountId), AccountAssetMetadata>::empty());
        r
    }

    /// The position of the entry stored under `(id, who)`, if there is one.
    fn position(&self, id: AssetId, who: AccountId) -> (r: Option<usize>)
        requires
            self.wf(),
        ensures
            match r {
                Some(i) => i < self.entries@.len() && self.entries@[i as int].key() == (id, who),
                None => !self@.contains_key((id, who)),
            },
    {
        let mut i: usize = 0;
        while i < self.entries.len()
            invariant
                i <= self.entries@.len(),
                forall|j: int| 0 <= j < i ==> #[trigger] self.entries@[j].key() != (id, who),
            decreases self.entries@.len() - i,
        {
            let e = &self.entries[i];
            if e.asset == id && e.who == who {
                return Some(i);
            }
            i = i + 1;
        }
        proof {
            lemma_entries_map_dom(self.entries@);
        }
        None
    }

    /// What `who` holds of asset `id`; the empty holding when nothing is stored.
    pub fn get(&self, id: AssetId, who: AccountId) -> (r: AccountAssetMetadata)
        requires
            self.wf(),
        ensures
            r == holding_at(self@, (id, who)),
    {
        match self.position(id, who) {
            Some(i) => {
                proof {
                    lemma_entries_map_value(self.entries@, i as int);
                }
                self.entries[i].meta
            },
            None => AccountAssetMetadata { free: 0, frozen: 0 },
        }
    }

    /// Stores `meta` as what `who` holds of asset `id`.
    pub fn set(&mut self, id: AssetId, who: AccountId, meta: AccountAssetMetadata)
        requires
            old(self).wf(),
        ensures
            final(self).wf(),
            final(self)@ == old(self)@.insert((id, who), meta),
    {
        let e = AccountEntry { asset: id, who, meta };
        match self.position(id, who) {
            Some(i) => {
                proof {
                    lemma_entries_map_update(self.entries@, i as int, e);
                }
                self.entries.set(i, e);
            },
            None => {
                proof {
                    lemma_entries_map_dom(self.entries@);
                }
                let ghost before = self.entries@;
                self.entries.push(e);
                proof {
                    assert(self.entries@.drop_last() =~= before);
                    assert forall|a: int, b: int|
                        0 <= a < self.entries@.len() && 0 <= b < self.entries@.len() && a != b
                        implies #[trigger] self.entries@[a].key()
                        != #[trigger] self.entries@[b].key() by {
                        if a < before.len() && b < before.len() {
                            assert(before[a].key() != before[b].key());
                        } else if a < before.len() {
                            assert(!entries_map(before).contains_key((id, who)));
                            assert(before[a].key() != (id, who));
                        } else if b < before.len() {
                            assert(before[b].key() != (id, who));
                        }
                    }
                }
            },
        }
    }
}

} // verus!
