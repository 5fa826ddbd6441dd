//! How a pool comes into being. Pools are never changed and never removed.
//!
//! Creating a pool has two halves, like every operation that moves assets.
//! The first checks the request and says what the creator pays and which
//! collection to create for the pool's liquidity shares. The second, once
//! the ledger has answered with that collection's handle, numbers the pool
//! and enters it in the registry.

use vstd::prelude::*;
use crate::account::{spec_pool_account, spec_vault_account};
use crate::ledger::{Event, EventView, LedgerOp, LedgerOpView};
use crate::store::Pallet;
use crate::types::{AccountId, Error, Pool, PoolIndex};

verus! {

impl Pallet {
    /// The number of the next pool, given whether the ledgers know the two
    /// handles it is to trade.
    ///
    /// There is none where the currency handle does not exist
    /// (`CurrencyAccountNotFound`), where the token handle does not exist
    /// (`TokenAccountNotFound`), or where the pools can no longer be counted
    /// (`Overflow`).
    pub open spec fn spec_create_pool(
        &self,
        currency_exists: bool,
        token_exists: bool,
    ) -> Result<PoolIndex, Error> {
        if !currency_exists {
            Err(Error::CurrencyAccountNotFound)
        } else if !token_exists {
            Err(Error::TokenAccountNotFound)
        } else if self.pool_count == u32::MAX {
            Err(Error::Overflow)
        } else {
            Ok((self.pool_count + 1) as PoolIndex)
        }
    }

    /// `vault` is the account of this exchange's vault.
    pub open spec fn is_vault(&self, vault: AccountId) -> bool {
        vault.bytes@ == spec_vault_account(self.config.pallet_id@)
    }

    /// `account` is the account of this exchange's pool number `index`.
    pub open spec fn is_pool_account(&self, account: AccountId, index: PoolIndex) -> bool {
        account.bytes@ == spec_pool_account(self.config.pallet_id@, index)
    }

    /// First half of the creation of a pool by `who`: the creator pays the
    /// deposit into the vault in native currency, then a collection owned by
    /// the vault is created for the pool's liquidity shares.
    ///
    /// `currency_exists` and `token_exists` say whether the fungible ledger
    /// knows the pool's currency handle and the multi-token ledger its token
    /// handle.
    pub fn create_pool(&self, who: &AccountId, currency_exists: bool, token_exists: bool) -> (r:
        Result<Vec<LedgerOp>, Error>)
        ensures
            match (r, self.spec_create_pool(currency_exists, token_exists)) {
                (Ok(transfers), Ok(_)) => {
                    &&& transfers@.len() == 2
                    &&& transfers@[0]@ matches LedgerOpView::TransferNative { from, to, amount }
                    &&& from == *who
                    &&& self.is_vault(to)
                    &&& amount == self.config.create_pool_deposit
                    &&& transfers@[1]@ matches LedgerOpView::CreateCollection { owner }
                    &&& self.is_vault(owner)
                },
                (Err(e), Err(expected)) => e == expected,
                _ => false,
            },
    {
        if !currency_exists {
            return Err(Error::CurrencyAccountNotFound);
        }
        if !token_exists {
            return Err(Error::TokenAccountNotFound);
        }
        if self.pool_count == u32::MAX {
            return Err(Error::Overflow);
        }
        let vault = self.account_id();
        let mut transfers: Vec<LedgerOp> = Vec::new();
        transfers.push(
            LedgerOp::TransferNative {
                from: *who,
                to: vault,
                amount: self.config.create_pool_deposit,
            },
        );
        transfers.push(LedgerOp::CreateCollection { owner: vault });
        Ok(transfers)
    }

    /// Second half of the creation of a pool by `who`, which trades the
    /// currency `currency` against the collection `token` and keeps its
    /// liquidity shares in the collection `lp_token`, just created.
    ///
    /// The pool gets the next number and is registered under the account
    /// derived from that number. On failure the exchange is left as it was.
    pub fn do_create_pool(
        &mut self,
        who: &AccountId,
        currency: &AccountId,
        token: &AccountId,
        currency_exists: bool,
        token_exists: bool,
        lp_token: &AccountId,
    ) -> (r: Result<Event, Error>)
        ensures
            match (r, old(self).spec_create_pool(currency_exists, token_exists)) {
                (Ok(event), Ok(index)) => {
                    &&& event@ matches EventView::PoolCreated(account, owner)
                    &&& owner == *who
                    &&& final(self).is_pool_account(account, index)
                    &&& final(self).pool_count == index
                    &&& final(self).config == old(self).config
                    &&& final(self).markets == old(self).markets
                    &&& final(self).spec_pool(account) matches Some(pool)
                    &&& pool.owner == *who
                    &&& pool.currency == *currency
                    &&& pool.token == *token
                    &&& pool.lp_token == *lp_token
                    &&& final(self).is_vault(pool.vault)
                    &&& forall|other: AccountId|
                        other != account ==> #[trigger] final(self).spec_pool(other) == old(
                            self,
                        ).spec_pool(other)
                },
                (Err(e), Err(expected)) => e == expected && *final(self) == *old(self),
                _ => false,
            },
    {
        if !currency_exists {
            return Err(Error::CurrencyAccountNotFound);
        }
        if !token_exists {
            return Err(Error::TokenAccountNotFound);
        }
        let index = match self.pool_count.checked_add(1) {
            Some(index) => index,
            None => {
                return Err(Error::Overflow);
            },
        };
        let pool_account = self.pool_account_id(index);
        let vault = self.account_id();
        let pool = Pool { owner: *who, currency: *currency, token: *token, lp_token: *lp_token, vault };
        self.insert_pool(&pool_account, pool);
        self.pool_count = index;
        Ok(Event::PoolCreated(pool_account, *who))
    }
}

} // verus!
