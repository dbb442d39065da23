//! The values that the asset ledger stores and reports: per-account balances,
//! per-asset details, the events it deposits and the errors it returns.
use vstd::prelude::*;

verus! {

/// Identifier of an asset class.
pub type AssetId = u32;

/// Identifier of an account.
pub type AccountId = u64;

/// The unit in which balances are recorded.
pub type Balance = u64;

/// `a + b`, clamped at the largest balance.
pub open spec fn saturating_sum(a: Balance, b: Balance) -> Balance {
    if a + b > u64::MAX {
        u64::MAX
    } else {
        (a + b) as Balance
    }
}

/// `a - b`, clamped at zero.
pub open spec fn saturating_diff(a: Balance, b: Balance) -> Balance {
    if a < b {
        0
    } else {
        (a - b) as Balance
    }
}

/// The details of an asset class.
#[derive(Clone, Copy, Debug, PartialEq, Eq, Structural)]
pub struct AssetDetails {
    /// The account that issued the asset; only it may mint or burn.
    pub issuer: AccountId,
    /// Whether the first allocation has been made (set to `false` on creation).
    pub init: bool,
    /// The total supply across all accounts.
    pub supply: Balance,
}

/// What one account holds of one asset.
#[derive(Clone, Copy, Debug, PartialEq, Eq, Structural)]
pub struct AccountAssetMetadata {
    /// The free balance.
    pub free: Balance,
    /// The frozen balance.
    pub frozen: Balance,
}

impl AccountAssetMetadata {
    /// The holding of an account that was never written: nothing free, nothing frozen.
    pub open spec fn empty() -> AccountAssetMetadata {
        AccountAssetMetadata { free: 0, frozen: 0 }
    }

    /// Free plus frozen, clamped at the largest balance.
    pub open spec fn total_spec(self) -> Balance {
        saturating_sum(self.free, self.frozen)
    }

    /// Free plus frozen, as a mathematical integer.
    pub open spec fn held(self) -> nat {
        (self.free + self.frozen) as nat
    }

    /// Computes and returns the total balance, including frozen funds.
    pub fn total(&self) -> (r: Balance)
        ensures
            r == self.total_spec(),
    {
        self.free.saturating_add(self.frozen)
    }

    /// The balance that can be spent: the free balance.
    pub fn valid(&self) -> (r: Balance)
        ensures
            r == self.free,
    {
        self.free
    }
}

impl Default for AccountAssetMetadata {
    fn default() -> (r: AccountAssetMetadata)
        ensures
            r == AccountAssetMetadata::empty(),
    {
        AccountAssetMetadata { free: 0, frozen: 0 }
    }
}

/// The total of a holding never falls below what of it is free.
pub proof fn lemma_total_covers_free(m: AccountAssetMetadata)
    ensures
        m.total_spec() >= m.free,
        m.total_spec() >= m.frozen,
{
}

/// What the ledger reports after a change.
#[derive(Clone, Copy, Debug, PartialEq, Eq, Structural)]
pub enum Event {
    /// Some assets were issued. \[asset_id, owner, total_supply\]
    Issued(AssetId, AccountId, Balance),
    /// Some assets were transferred. \[asset_id, from, to, amount\]
    Transferred(AssetId, AccountId, AccountId, Balance),
    /// Some assets were destroyed. \[asset_id, owner, balance\]
    Destroyed(AssetId, AccountId, Balance),
    /// Some assets were minted. \[asset_id, issuer, amount\]
    Minted(AssetId, AccountId, Balance),
    /// Some assets were burned. \[asset_id, issuer, amount\]
    Burned(AssetId, AccountId, Balance),
    /// Some assets were locked. \[asset_id, who, amount\]
    Locked(AssetId, AccountId, Balance),
    /// Some assets were unlocked. \[asset_id, who, amount\]
    UnLocked(AssetId, AccountId, Balance),
}

/// Why a ledger operation was refused.
#[derive(Clone, Copy, Debug, PartialEq, Eq, Structural)]
pub enum Error {
    /// Transfer amount should be non-zero
    AmountZero,
    /// Account balance must be greater than or equal to the transfer amount
    BalanceLow,
    /// Balance should be non-zero
    BalanceZero,
    /// The signing account has no permission to do the operation.
    NoPermission,
    /// The given asset ID is unknown.
    Unknown,
    /// A mint operation lead to an overflow.
    Overflow,
}

/// Who a call comes from.
#[derive(Clone, Copy, Debug, PartialEq, Eq, Structural)]
pub enum Origin {
    /// The privileged root origin.
    Root,
    /// A call signed by the given account.
    Signed(AccountId),
    /// A call signed by nobody (an unsigned transaction or an inherent).
    Unsigned,
}

/// Why a dispatched call failed.
#[derive(Clone, Copy, Debug, PartialEq, Eq, Structural)]
pub enum DispatchError {
    /// The call did not come from a signed origin.
    BadOrigin,
    /// The ledger refused the call.
    Module(Error),
}

/// The account that signed `origin`, or `BadOrigin` when nobody did.
pub fn ensure_signed(origin: Origin) -> (r: Result<AccountId, DispatchError>)
    ensures
        match origin {
            Origin::Signed(who) => r == Ok::<AccountId, DispatchError>(who),
            _ => r == Err::<AccountId, DispatchError>(DispatchError::BadOrigin),
        },
{
    match origin {
        Origin::Signed(who) => Ok(who),
        _ => Err(DispatchError::BadOrigin),
    }
}

} // verus!
