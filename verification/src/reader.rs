//! How the vault's token balances are asked for.
//!
//! A batch may name each token id once only: with two or more ids they must
//! be strictly ascending. Otherwise one call could spend the same reserve
//! twice.

use vstd::prelude::*;
use crate::ledger::{BalanceQuery, BalanceQueryView};
use crate::store::Pallet;
use crate::types::{AccountId, Error, Pool, TokenId};

verus! {

/// Each id is larger than the one before it.
pub open spec fn strictly_ascending(ids: Seq<TokenId>) -> bool {
    forall|i: int| 0 < i < ids.len() ==> ids[i - 1] < #[trigger] ids[i]
}

/// In a strictly ascending list an earlier id is smaller than a later one, so
/// no id occurs twice.
pub proof fn lemma_ascending_is_ordered(ids: Seq<TokenId>, a: int, b: int)
    requires
        strictly_ascending(ids),
        0 <= a < b < ids.len(),
    ensures
        ids[a] < ids[b],
    decreases b - a,
{
    if a + 1 < b {
        lemma_ascending_is_ordered(ids, a, b - 1);
    }
    assert(ids[b - 1] < ids[b]);
}

/// The question that yields the vault's balance of every id in `ids`: a
/// single query for one id, a batch query otherwise. There is none
/// (`UnsortedOrDuplicateTokenIds`) where the ids are not strictly ascending.
pub open spec fn spec_token_reserves(
    vault: AccountId,
    token_account: AccountId,
    ids: Seq<TokenId>,
) -> Result<BalanceQueryView, Error> {
    if ids.len() == 1 {
        Ok(BalanceQueryView::Single { holder: vault, handle: token_account, id: ids[0] })
    } else if !strictly_ascending(ids) {
        Err(Error::UnsortedOrDuplicateTokenIds)
    } else {
        Ok(
            BalanceQueryView::Batch {
                handle: token_account,
                holders: Seq::new(ids.len(), |i: int| vault),
                ids,
            },
        )
    }
}

/// Whether `ids` is strictly ascending.
pub fn is_strictly_ascending(ids: &Vec<TokenId>) -> (r: bool)
    ensures
        r == strictly_ascending(ids@),
{
    let mut i: usize = 1;
    while i < ids.len()
        invariant
            1 <= i,
            forall|j: int| 0 < j < i && j < ids.len() ==> ids[j - 1] < #[trigger] ids[j],
        decreases ids.len() - i,
    {
        if !(ids[i - 1] < ids[i]) {
            return false;
        }
        i += 1;
    }
    true
}

/// A copy of `values`.
pub(crate) fn copy_of(values: &Vec<u128>) -> (r: Vec<u128>)
    ensures
        r@ == values@,
{
    let mut copy: Vec<u128> = Vec::new();
    let mut i: usize = 0;
    while i < values.len()
        invariant
            i <= values.len(),
            copy@ == values@.take(i as int),
        decreases values.len() - i,
    {
        copy.push(values[i]);
        assert(values@.take(i as int).push(values@[i as int]) =~= values@.take(i + 1));
        i += 1;
    }
    assert(values@.take(values.len() as int) =~= values@);
    copy
}

impl Pallet {
    /// What an operation on `pool_account` with the ids `ids` opens against:
    /// the pool, into whose vault the assets at stake go, and the question
    /// for the vault's balances of `ids`.
    ///
    /// There is no opening where no pool is registered under `pool_account`
    /// (`InvalidPoolAccount`) or where the ids are not strictly ascending
    /// (`UnsortedOrDuplicateTokenIds`).
    pub open spec fn spec_opening(
        &self,
        pool_account: AccountId,
        ids: Seq<TokenId>,
    ) -> Result<(Pool, BalanceQueryView), Error> {
        match self.spec_pool(pool_account) {
            None => Err(Error::InvalidPoolAccount),
            Some(pool) => match spec_token_reserves(pool.vault, pool.token, ids) {
                Err(e) => Err(e),
                Ok(query) => Ok((pool, query)),
            },
        }
    }

    /// The question to put to the multi-token ledger to learn what `vault`
    /// holds of each of `token_ids` in the collection `token_account`. The
    /// answer has one balance per id, in the order of the ids.
    pub fn get_token_reserves(
        vault: &AccountId,
        token_account: &AccountId,
        token_ids: &Vec<TokenId>,
    ) -> (r: Result<BalanceQuery, Error>)
        ensures
            match r {
                Ok(query) => spec_token_reserves(*vault, *token_account, token_ids@) == Ok::<
                    BalanceQueryView,
                    Error,
                >(query@),
                Err(e) => spec_token_reserves(*vault, *token_account, token_ids@) == Err::<
                    BalanceQueryView,
                    Error,
                >(e),
            },
    {
        let n = token_ids.len();
        if n == 1 {
            return Ok(
                BalanceQuery::Single { holder: *vault, handle: *token_account, id: token_ids[0] },
            );
        }
        if !is_strictly_ascending(token_ids) {
            return Err(Error::UnsortedOrDuplicateTokenIds);
        }
        let mut holders: Vec<AccountId> = Vec::new();
        let mut i: usize = 0;
        while i < n
            invariant
                i <= n,
                holders@.len() == i,
                forall|j: int| 0 <= j < i ==> holders@[j] == *vault,
            decreases n - i,
        {
            holders.push(*vault);
            i += 1;
        }
        assert(holders@ =~= Seq::new(token_ids@.len(), |i: int| *vault));
        Ok(BalanceQuery::Batch { handle: *token_account, holders, ids: copy_of(token_ids) })
    }
}

} // verus!
