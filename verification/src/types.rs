//! Plain data shared by every part of the engine.

use vstd::prelude::*;

verus! {

/// Amount of currency, tokens or liquidity shares.
pub type Balance = u128;

/// Identifier of one token inside a multi-token collection.
pub type TokenId = u128;

/// Running number of a pool; the first pool has index 1.
pub type PoolIndex = u32;

/// A 32-byte account identifier.
#[derive(Clone, Copy, Debug, Eq)]
pub struct AccountId {
    pub bytes: [u8; 32],
}

impl PartialEq for AccountId {
    fn eq(&self, other: &AccountId) -> (r: bool) {
        let mut i: usize = 0;
        while i < 32
            invariant
                i <= 32,
                forall|j: int| 0 <= j < i ==> self.bytes[j] == other.bytes[j],
            decreases 32 - i,
        {
            if self.bytes[i] != other.bytes[i] {
                return false;
            }
            i += 1;
        }
        assert(self.bytes =~= other.bytes);
        true
    }
}

impl vstd::std_specs::cmp::PartialEqSpecImpl for AccountId {
    open spec fn obeys_eq_spec() -> bool {
        true
    }

    open spec fn eq_spec(&self, other: &AccountId) -> bool {
        *self == *other
    }
}

/// Everything that can make an operation fail.
#[derive(Clone, Copy, Debug, PartialEq, Eq, Structural)]
pub enum Error {
    CurrencyAccountNotFound,
    TokenAccountNotFound,
    Overflow,
    InvalidPoolAccount,
    NullMaxCurrency,
    NullTokensAmount,
    InsufficientCurrencyAmount,
    InsufficientTokens,
    MaxCurrencyAmountExceeded,
    InvalidCurrencyAmount,
    NullTotalLiquidity,
    NullTokensBought,
    NullTokensSold,
    EmptyReserve,
    UnsortedOrDuplicateTokenIds,
}

/// The accounts that make up one pool. A pool is written once, when it is
/// created, and never changed afterwards.
#[derive(Clone, Copy, Debug, Eq)]
pub struct Pool {
    /// The account that created the pool.
    pub owner: AccountId,
    /// Handle of the fungible currency traded in this pool.
    pub currency: AccountId,
    /// Handle of the multi-token collection traded in this pool.
    pub token: AccountId,
    /// Handle of the collection that holds this pool's liquidity shares.
    pub lp_token: AccountId,
    /// The account that holds every pooled asset.
    pub vault: AccountId,
}

impl PartialEq for Pool {
    fn eq(&self, other: &Pool) -> (r: bool) {
        self.owner == other.owner && self.currency == other.currency && self.token == other.token
            && self.lp_token == other.lp_token && self.vault == other.vault
    }
}

impl vstd::std_specs::cmp::PartialEqSpecImpl for Pool {
    open spec fn obeys_eq_spec() -> bool {
        true
    }

    open spec fn eq_spec(&self, other: &Pool) -> bool {
        *self == *other
    }
}

/// Constants that the host chooses.
#[derive(Clone, Copy, Debug, PartialEq, Eq)]
pub struct Config {
    /// Seed from which the vault and the pool accounts are derived.
    pub pallet_id: [u8; 8],
    /// Bond in native currency that the creator of a pool pays to the vault.
    pub create_pool_deposit: Balance,
}

} // verus!
