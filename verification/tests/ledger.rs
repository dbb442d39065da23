use idavoll_asset::module::Module;
use idavoll_asset::types::{AccountAssetMetadata, AssetDetails, DispatchError, Error, Event, Origin};

fn ledger_with_asset(owner: u64, total: u64) -> Module {
    let mut m = Module::new();
    m.create(owner, total);
    m
}

#[test]
fn issuing_asset_units_to_issuer_should_work() {
    let m = ledger_with_asset(1, 100);
    assert_eq!(m.free_balance(0, 1), 100);
    assert_eq!(m.total_balance(0, 1), 100);
    assert_eq!(m.total_issuances(0), 100);
    assert_eq!(m.next_asset_id(), 1);
    assert_eq!(m.events(), &vec![Event::Issued(0, 1, 100)]);
}

#[test]
fn created_assets_get_consecutive_ids() {
    let mut m = ledger_with_asset(1, 100);
    m.create(2, 7);
    assert_eq!(m.next_asset_id(), 2);
    assert_eq!(m.total_issuances(1), 7);
    assert_eq!(m.free_balance(1, 2), 7);
    assert_eq!(m.free_balance(1, 1), 0);
    assert_eq!(m.free_balance(0, 2), 0);
    assert_eq!(
        m.total_supply(1),
        Some(AssetDetails { issuer: 2, init: false, supply: 7 })
    );
}

#[test]
fn unknown_asset_has_no_supply() {
    let m = ledger_with_asset(1, 100);
    assert_eq!(m.total_issuances(5), 0);
    assert_eq!(m.total_supply(5), None);
    assert_eq!(m.free_balance(5, 1), 0);
}

#[test]
fn querying_total_supply_should_work() {
    let mut m = ledger_with_asset(1, 100);
    assert_eq!(m.base_transfer(0, 1, 2, 50), Ok(()));
    assert_eq!(m.free_balance(0, 1), 50);
    assert_eq!(m.free_balance(0, 2), 50);
    assert_eq!(m.events().last(), Some(&Event::Transferred(0, 1, 2, 50)));
    assert_eq!(m.base_transfer(0, 2, 3, 31), Ok(()));
    assert_eq!(m.free_balance(0, 1), 50);
    assert_eq!(m.free_balance(0, 2), 19);
    assert_eq!(m.free_balance(0, 3), 31);
    assert_eq!(m.total_issuances(0), 100);
}

#[test]
fn transferring_less_than_one_unit_should_not_work() {
    let mut m = ledger_with_asset(1, 100);
    assert_eq!(m.base_transfer(0, 1, 2, 0), Err(Error::AmountZero));
    assert_eq!(m.free_balance(0, 1), 100);
    assert_eq!(m.events().len(), 1);
}

#[test]
fn transferring_more_units_than_balance_should_not_work() {
    let mut m = ledger_with_asset(1, 100);
    assert_eq!(m.base_transfer(0, 1, 2, 101), Err(Error::BalanceLow));
    assert_eq!(m.free_balance(0, 1), 100);
    assert_eq!(m.free_balance(0, 2), 0);
    assert_eq!(m.events(), &vec![Event::Issued(0, 1, 100)]);
}

#[test]
fn transferring_to_oneself_changes_nothing_but_the_events() {
    let mut m = ledger_with_asset(1, 100);
    assert_eq!(m.base_transfer(0, 1, 1, 500), Ok(()));
    assert_eq!(m.free_balance(0, 1), 100);
    assert_eq!(m.events().len(), 2);
}

#[test]
fn transferring_frozen_units_should_not_work() {
    let mut m = ledger_with_asset(1, 100);
    assert_eq!(m.base_lock(0, 1, 60), Ok(()));
    assert_eq!(m.base_transfer(0, 1, 2, 50), Err(Error::BalanceLow));
    assert_eq!(m.base_transfer(0, 1, 2, 40), Ok(()));
    assert_eq!(m.free_balance(0, 1), 0);
    assert_eq!(m.total_balance(0, 1), 60);
    assert_eq!(m.free_balance(0, 2), 40);
}

#[test]
fn signed_transfer_should_work() {
    let mut m = ledger_with_asset(1, 100);
    assert_eq!(m.transfer(Origin::Signed(1), 0, 2, 30), Ok(()));
    assert_eq!(m.free_balance(0, 1), 70);
    assert_eq!(m.free_balance(0, 2), 30);
    assert_eq!(
        m.transfer(Origin::Signed(2), 0, 3, 31),
        Err(DispatchError::Module(Error::BalanceLow))
    );
    assert_eq!(
        m.transfer(Origin::Signed(2), 0, 3, 0),
        Err(DispatchError::Module(Error::AmountZero))
    );
}

#[test]
fn unsigned_transfer_should_not_work() {
    let mut m = ledger_with_asset(1, 100);
    assert_eq!(m.transfer(Origin::Root, 0, 2, 30), Err(DispatchError::BadOrigin));
    assert_eq!(m.transfer(Origin::Unsigned, 0, 2, 30), Err(DispatchError::BadOrigin));
    assert_eq!(m.free_balance(0, 1), 100);
    assert_eq!(m.events().len(), 1);
}

#[test]
fn minting_should_work() {
    let mut m = ledger_with_asset(1, 100);
    assert_eq!(m.base_mint(0, 1, 25), Ok(()));
    assert_eq!(m.total_issuances(0), 125);
    assert_eq!(m.free_balance(0, 1), 125);
    assert_eq!(m.events().last(), Some(&Event::Minted(0, 1, 25)));
}

#[test]
fn minting_unknown_asset_should_not_work() {
    let mut m = ledger_with_asset(1, 100);
    assert_eq!(m.base_mint(3, 1, 25), Err(Error::Unknown));
    assert_eq!(m.events().len(), 1);
}

#[test]
fn minting_by_other_than_issuer_should_not_work() {
    let mut m = ledger_with_asset(1, 100);
    assert_eq!(m.base_mint(0, 2, 25), Err(Error::NoPermission));
    assert_eq!(m.total_issuances(0), 100);
    assert_eq!(m.free_balance(0, 2), 0);
}

#[test]
fn minting_past_the_largest_supply_should_not_work() {
    let mut m = ledger_with_asset(1, u64::MAX - 10);
    assert_eq!(m.base_mint(0, 1, 11), Err(Error::Overflow));
    assert_eq!(m.total_issuances(0), u64::MAX - 10);
    assert_eq!(m.base_mint(0, 1, 10), Ok(()));
    assert_eq!(m.total_issuances(0), u64::MAX);
    assert_eq!(m.free_balance(0, 1), u64::MAX);
}

#[test]
fn burning_should_work() {
    let mut m = ledger_with_asset(1, 100);
    assert_eq!(m.base_burn(0, 1, 40), Ok(()));
    assert_eq!(m.total_issuances(0), 60);
    assert_eq!(m.free_balance(0, 1), 60);
    assert_eq!(m.events().last(), Some(&Event::Burned(0, 1, 40)));
}

#[test]
fn burning_errors_come_in_order() {
    let mut m = ledger_with_asset(1, 100);
    assert_eq!(m.base_burn(1, 1, 40), Err(Error::Unknown));
    assert_eq!(m.base_burn(0, 2, 40), Err(Error::NoPermission));
    assert_eq!(m.base_burn(0, 1, 101), Err(Error::BalanceLow));
    assert_eq!(m.total_issuances(0), 100);
    assert_eq!(m.free_balance(0, 1), 100);
    assert_eq!(m.events().len(), 1);
}

#[test]
fn burning_frozen_units_should_not_work() {
    let mut m = ledger_with_asset(1, 100);
    assert_eq!(m.base_lock(0, 1, 80), Ok(()));
    assert_eq!(m.base_burn(0, 1, 30), Err(Error::BalanceLow));
    assert_eq!(m.base_burn(0, 1, 20), Ok(()));
    assert_eq!(m.total_issuances(0), 80);
    assert_eq!(m.total_balance(0, 1), 80);
}

#[test]
fn locking_and_unlocking_should_work() {
    let mut m = ledger_with_asset(1, 100);
    assert_eq!(m.base_lock(0, 1, 30), Ok(()));
    assert_eq!(m.free_balance(0, 1), 70);
    assert_eq!(m.total_balance(0, 1), 100);
    assert_eq!(m.base_unlock(0, 1, 31), Err(Error::BalanceLow));
    assert_eq!(m.base_unlock(0, 1, 10), Ok(()));
    assert_eq!(m.free_balance(0, 1), 80);
    assert_eq!(m.total_balance(0, 1), 100);
    assert_eq!(
        m.events(),
        &vec![Event::Issued(0, 1, 100), Event::Locked(0, 1, 30), Event::UnLocked(0, 1, 10)]
    );
}

#[test]
fn locking_more_than_free_balance_should_not_work() {
    let mut m = ledger_with_asset(1, 100);
    assert_eq!(m.base_lock(0, 1, 101), Err(Error::BalanceLow));
    assert_eq!(m.base_lock(0, 2, 1), Err(Error::BalanceLow));
    assert_eq!(m.free_balance(0, 1), 100);
    assert_eq!(m.events().len(), 1);
}

#[test]
fn locking_nothing_of_an_empty_account_should_work() {
    let mut m = ledger_with_asset(1, 100);
    assert_eq!(m.base_lock(0, 9, 0), Ok(()));
    assert_eq!(m.total_balance(0, 9), 0);
    assert_eq!(m.events().last(), Some(&Event::Locked(0, 9, 0)));
}

#[test]
fn lock_then_unlock_gives_the_balance_back() {
    let mut m = ledger_with_asset(1, 100);
    assert_eq!(m.base_lock(0, 1, 45), Ok(()));
    assert_eq!(m.base_unlock(0, 1, 45), Ok(()));
    assert_eq!(m.free_balance(0, 1), 100);
    assert_eq!(m.total_balance(0, 1), 100);
}

#[test]
fn mint_then_burn_gives_the_supply_back() {
    let mut m = ledger_with_asset(1, 100);
    assert_eq!(m.base_mint(0, 1, 17), Ok(()));
    assert_eq!(m.base_burn(0, 1, 17), Ok(()));
    assert_eq!(m.total_issuances(0), 100);
    assert_eq!(m.free_balance(0, 1), 100);
}

#[test]
fn transfer_there_and_back_gives_the_balances_back() {
    let mut m = ledger_with_asset(1, 100);
    assert_eq!(m.base_transfer(0, 1, 2, 33), Ok(()));
    assert_eq!(m.base_transfer(0, 2, 1, 33), Ok(()));
    assert_eq!(m.free_balance(0, 1), 100);
    assert_eq!(m.free_balance(0, 2), 0);
}

#[test]
fn supply_is_what_all_accounts_hold() {
    let mut m = ledger_with_asset(1, 1000);
    m.create(7, 5);
    assert_eq!(m.base_transfer(0, 1, 2, 300), Ok(()));
    assert_eq!(m.base_transfer(0, 2, 3, 100), Ok(()));
    assert_eq!(m.base_lock(0, 3, 60), Ok(()));
    assert_eq!(m.base_mint(0, 1, 50), Ok(()));
    assert_eq!(m.base_burn(0, 1, 20), Ok(()));
    assert_eq!(m.base_unlock(0, 3, 10), Ok(()));
    let held: u64 = (1..=3).map(|who| m.total_balance(0, who)).sum();
    assert_eq!(held, m.total_issuances(0));
    assert_eq!(m.total_issuances(0), 1030);
    assert_eq!(m.total_issuances(1), 5);
    assert_eq!(m.total_balance(1, 7), 5);
}

#[test]
fn account_total_adds_free_and_frozen() {
    let m = AccountAssetMetadata { free: 30, frozen: 12 };
    assert_eq!(m.total(), 42);
    assert_eq!(m.valid(), 30);
}

#[test]
fn account_total_saturates() {
    let m = AccountAssetMetadata { free: u64::MAX, frozen: 1 };
    assert_eq!(m.total(), u64::MAX);
    assert_eq!(m.valid(), u64::MAX);
}

#[test]
fn default_account_holds_nothing() {
    let m = AccountAssetMetadata::default();
    assert_eq!(m, AccountAssetMetadata { free: 0, frozen: 0 });
    assert_eq!(m.total(), 0);
}
