//! The engine's own state: the pool registry and, for every pool and token
//! id, the currency reserve and the number of liquidity shares outstanding.

use vstd::prelude::*;
use crate::types::{AccountId, Balance, Config, Pool, PoolIndex, TokenId};

verus! {

/// One line of the pool registry.
#[derive(Clone, Copy, Debug, PartialEq, Eq)]
pub struct PoolEntry {
    /// The account under which the pool is registered.
    pub account: AccountId,
    pub pool: Pool,
}

/// The books of one token id in one pool.
#[derive(Clone, Copy, Debug, PartialEq, Eq)]
pub struct Market {
    /// The account of the pool.
    pub pool: AccountId,
    pub id: TokenId,
    /// Currency locked against this id.
    pub currency_reserve: Balance,
    /// Liquidity shares outstanding for this id.
    pub total_supply: Balance,
}

/// The exchange: its constants and all of its state.
///
/// `pools` and `markets` are read front to back and the first line with a
/// given key counts, so every value of this type is a valid state.
#[derive(Clone, Debug, PartialEq, Eq)]
pub struct Pallet {
    pub config: Config,
    /// Number of pools created so far.
    pub pool_count: PoolIndex,
    pub pools: Vec<PoolEntry>,
    pub markets: Vec<Market>,
}

/// The first line of `pools` registered under `account`.
pub open spec fn find_pool(pools: Seq<PoolEntry>, account: AccountId) -> Option<Pool>
    decreases pools.len(),
{
    if pools.len() == 0 {
        None
    } else if pools[0].account == account {
        Some(pools[0].pool)
    } else {
        find_pool(pools.drop_first(), account)
    }
}

/// The first line of `markets` for token `id` of `pool`.
pub open spec fn find_market(markets: Seq<Market>, pool: AccountId, id: TokenId) -> Option<Market>
    decreases markets.len(),
{
    if markets.len() == 0 {
        None
    } else if markets[0].pool == pool && markets[0].id == id {
        Some(markets[0])
    } else {
        find_market(markets.drop_first(), pool, id)
    }
}

/// No line of `markets` before position `k` is for token `id` of `pool`.
pub open spec fn no_market_before(markets: Seq<Market>, pool: AccountId, id: TokenId, k: int) -> bool {
    forall|j: int| 0 <= j < k ==> !(#[trigger] markets[j].pool == pool && markets[j].id == id)
}

/// No line of `pools` before position `k` is registered under `account`.
pub open spec fn no_pool_before(pools: Seq<PoolEntry>, account: AccountId, k: int) -> bool {
    forall|j: int| 0 <= j < k ==> #[trigger] pools[j].account != account
}

/// A search that has passed `k` lines without a match goes on with the rest.
proof fn lemma_find_market_skip(markets: Seq<Market>, pool: AccountId, id: TokenId, k: int)
    requires
        0 <= k <= markets.len(),
        no_market_before(markets, pool, id, k),
    ensures
        find_market(markets, pool, id) == find_market(markets.skip(k), pool, id),
    decreases k,
{
    if k == 0 {
        assert(markets.skip(0) =~= markets);
    } else {
        assert(!(markets[0].pool == pool && markets[0].id == id));
        let rest = markets.drop_first();
        assert forall|j: int| 0 <= j < k - 1 implies !(#[trigger] rest[j].pool == pool && rest[j].id
            == id) by {
            assert(rest[j] == markets[j + 1]);
        }
        lemma_find_market_skip(rest, pool, id, k - 1);
        assert(rest.skip(k - 1) =~= markets.skip(k));
    }
}

proof fn lemma_find_pool_skip(pools: Seq<PoolEntry>, account: AccountId, k: int)
    requires
        0 <= k <= pools.len(),
        no_pool_before(pools, account, k),
    ensures
        find_pool(pools, account) == find_pool(pools.skip(k), account),
    decreases k,
{
    if k == 0 {
        assert(pools.skip(0) =~= pools);
    } else {
        assert(pools[0].account != account);
        let rest = pools.drop_first();
        assert forall|j: int| 0 <= j < k - 1 implies #[trigger] rest[j].account != account by {
            assert(rest[j] == pools[j + 1]);
        }
        lemma_find_pool_skip(rest, account, k - 1);
        assert(rest.skip(k - 1) =~= pools.skip(k));
    }
}

/// Rewriting the line that a search finds changes what that search finds and
/// nothing else.
proof fn lemma_find_market_update(
    markets: Seq<Market>,
    k: int,
    line: Market,
    pool: AccountId,
    id: TokenId,
)
    requires
        0 <= k < markets.len(),
        markets[k].pool == line.pool,
        markets[k].id == line.id,
        no_market_before(markets, line.pool, line.id, k),
    ensures
        find_market(markets.update(k, line), pool, id) == if pool == line.pool && id == line.id {
            Some(line)
        } else {
            find_market(markets, pool, id)
        },
    decreases k,
{
    let updated = markets.update(k, line);
    if k == 0 {
        assert(updated.drop_first() =~= markets.drop_first());
    } else {
        assert(!(markets[0].pool == line.pool && markets[0].id == line.id));
        let rest = markets.drop_first();
        assert forall|j: int| 0 <= j < k - 1 implies !(#[trigger] rest[j].pool == line.pool
            && rest[j].id == line.id) by {
            assert(rest[j] == markets[j + 1]);
        }
        lemma_find_market_update(rest, k - 1, line, pool, id);
        assert(updated.drop_first() =~= rest.update(k - 1, line));
        assert(updated[0] == markets[0]);
    }
}

/// A line added at the end is found where no earlier line matches, and
/// changes no other search.
proof fn lemma_find_market_push(markets: Seq<Market>, line: Market, pool: AccountId, id: TokenId)
    ensures
        find_market(markets.push(line), pool, id) == match find_market(markets, pool, id) {
            Some(found) => Some(found),
            None => if pool == line.pool && id == line.id {
                Some(line)
            } else {
                None
            },
        },
    decreases markets.len(),
{
    let pushed = markets.push(line);
    if markets.len() == 0 {
        assert(pushed.drop_first() =~= Seq::<Market>::empty());
        assert(pushed[0] == line);
    } else {
        assert(pushed[0] == markets[0]);
        assert(pushed.drop_first() =~= markets.drop_first().push(line));
        lemma_find_market_push(markets.drop_first(), line, pool, id);
    }
}

proof fn lemma_find_pool_update(pools: Seq<PoolEntry>, k: int, line: PoolEntry, account: AccountId)
    requires
        0 <= k < pools.len(),
        pools[k].account == line.account,
        no_pool_before(pools, line.account, k),
    ensures
        find_pool(pools.update(k, line), account) == if account == line.account {
            Some(line.pool)
        } else {
            find_pool(pools, account)
        },
    decreases k,
{
    let updated = pools.update(k, line);
    if k == 0 {
        assert(updated.drop_first() =~= pools.drop_first());
    } else {
        assert(pools[0].account != line.account);
        let rest = pools.drop_first();
        assert forall|j: int| 0 <= j < k - 1 implies #[trigger] rest[j].account
            != line.account by {
            assert(rest[j] == pools[j + 1]);
        }
        lemma_find_pool_update(rest, k - 1, line, account);
        assert(updated.drop_first() =~= rest.update(k - 1, line));
        assert(updated[0] == pools[0]);
    }
}

proof fn lemma_find_pool_push(pools: Seq<PoolEntry>, line: PoolEntry, account: AccountId)
    ensures
        find_pool(pools.push(line), account) == match find_pool(pools, account) {
            Some(found) => Some(found),
            None => if account == line.account {
                Some(line.pool)
            } else {
                None
            },
        },
    decreases pools.len(),
{
    let pushed = pools.push(line);
    if pools.len() == 0 {
        assert(pushed.drop_first() =~= Seq::<PoolEntry>::empty());
        assert(pushed[0] == line);
    } else {
        assert(pushed[0] == pools[0]);
        assert(pushed.drop_first() =~= pools.drop_first().push(line));
        lemma_find_pool_push(pools.drop_first(), line, account);
        if pools[0].account == account {
            assert(find_pool(pushed, account) == Some(pools[0].pool));
            assert(find_pool(pools, account) == Some(pools[0].pool));
        } else {
            assert(find_pool(pushed, account) == find_pool(pushed.drop_first(), account));
            assert(find_pool(pools, account) == find_pool(pools.drop_first(), account));
        }
    }
}

impl Pallet {
    /// The pool registered under `account`, if there is one.
    pub open spec fn spec_pool(&self, account: AccountId) -> Option<Pool> {
        find_pool(self.pools@, account)
    }

    /// The currency locked against token `id` of `pool`; 0 where the books
    /// have no line for it.
    pub open spec fn spec_currency_reserves(&self, pool: AccountId, id: TokenId) -> Balance {
        match find_market(self.markets@, pool, id) {
            Some(market) => market.currency_reserve,
            None => 0,
        }
    }

    /// The liquidity shares outstanding for token `id` of `pool`; 0 where
    /// the books have no line for it.
    pub open spec fn spec_total_supplies(&self, pool: AccountId, id: TokenId) -> Balance {
        match find_market(self.markets@, pool, id) {
            Some(market) => market.total_supply,
            None => 0,
        }
    }

    /// An exchange with no pools and empty books.
    pub fn new(config: Config) -> (r: Pallet)
        ensures
            r.config == config,
            r.pool_count == 0,
            r.pools@.len() == 0,
            r.markets@.len() == 0,
            forall|account: AccountId| r.spec_pool(account) is None,
            forall|pool: AccountId, id: TokenId| r.spec_currency_reserves(pool, id) == 0,
            forall|pool: AccountId, id: TokenId| r.spec_total_supplies(pool, id) == 0,
    {
        Pallet { config, pool_count: 0, pools: Vec::new(), markets: Vec::new() }
    }

    /// Number of pools created so far.
    pub fn pool_count(&self) -> (r: PoolIndex)
        ensures
            r == self.pool_count,
    {
        self.pool_count
    }

    /// Where the registry keeps the pool registered under `account`, if it
    /// has a line for it.
    fn pool_index(&self, account: &AccountId) -> (r: Option<usize>)
        ensures
            match r {
                Some(k) => {
                    &&& k < self.pools@.len()
                    &&& self.pools@[k as int].account == *account
                    &&& no_pool_before(self.pools@, *account, k as int)
                    &&& find_pool(self.pools@, *account) == Some(self.pools@[k as int].pool)
                },
                None => find_pool(self.pools@, *account) is None,
            },
    {
        let mut i: usize = 0;
        while i < self.pools.len()
            invariant
                i <= self.pools.len(),
                no_pool_before(self.pools@, *account, i as int),
            decreases self.pools.len() - i,
        {
            if self.pools[i].account == *account {
                proof {
                    lemma_find_pool_skip(self.pools@, *account, i as int);
                }
                return Some(i);
            }
            i += 1;
        }
        proof {
            lemma_find_pool_skip(self.pools@, *account, i as int);
        }
        None
    }

    /// The pool registered under `account`, if there is one.
    pub fn pool(&self, account: &AccountId) -> (r: Option<Pool>)
        ensures
            r == self.spec_pool(*account),
    {
        match self.pool_index(account) {
            Some(k) => Some(self.pools[k].pool),
            None => None,
        }
    }

    /// Where the books keep token `id` of `pool`, if they have a line for it.
    fn market_index(&self, pool: &AccountId, id: TokenId) -> (r: Option<usize>)
        ensures
            match r {
                Some(k) => {
                    &&& k < self.markets@.len()
                    &&& self.markets@[k as int].pool == *pool
                    &&& self.markets@[k as int].id == id
                    &&& no_market_before(self.markets@, *pool, id, k as int)
                    &&& find_market(self.markets@, *pool, id) == Some(self.markets@[k as int])
                },
                None => find_market(self.markets@, *pool, id) is None,
            },
    {
        let mut i: usize = 0;
        while i < self.markets.len()
            invariant
                i <= self.markets.len(),
                no_market_before(self.markets@, *pool, id, i as int),
            decreases self.markets.len() - i,
        {
            if self.markets[i].pool == *pool && self.markets[i].id == id {
                proof {
                    lemma_find_market_skip(self.markets@, *pool, id, i as int);
                }
                return Some(i);
            }
            i += 1;
        }
        proof {
            lemma_find_market_skip(self.markets@, *pool, id, i as int);
        }
        None
    }

    /// The currency locked against token `id` of `pool`.
    pub fn currency_reserves(&self, pool: &AccountId, id: TokenId) -> (r: Balance)
        ensures
            r == self.spec_currency_reserves(*pool, id),
    {
        match self.market_index(pool, id) {
            Some(k) => self.markets[k].currency_reserve,
            None => 0,
        }
    }

    /// The liquidity shares outstanding for token `id` of `pool`.
    pub fn total_supplies(&self, pool: &AccountId, id: TokenId) -> (r: Balance)
        ensures
            r == self.spec_total_supplies(*pool, id),
    {
        match self.market_index(pool, id) {
            Some(k) => self.markets[k].total_supply,
            None => 0,
        }
    }

    /// The currency reserve and the liquidity shares outstanding of token
    /// `id` of `pool`.
    pub(crate) fn market(&self, pool: &AccountId, id: TokenId) -> (r: (Balance, Balance))
        ensures
            r.0 == self.spec_currency_reserves(*pool, id),
            r.1 == self.spec_total_supplies(*pool, id),
    {
        match self.market_index(pool, id) {
            Some(k) => (self.markets[k].currency_reserve, self.markets[k].total_supply),
            None => (0, 0),
        }
    }

    /// Writes the books of token `id` of `pool`, and leaves every other
    /// market and the registry as they are.
    pub(crate) fn set_market(
        &mut self,
        pool: &AccountId,
        id: TokenId,
        currency_reserve: Balance,
        total_supply: Balance,
    )
        ensures
            final(self).config == old(self).config,
            final(self).pool_count == old(self).pool_count,
            final(self).pools == old(self).pools,
            forall|p: AccountId, j: TokenId|
                #![trigger find_market(final(self).markets@, p, j)]
                find_market(final(self).markets@, p, j) == if p == *pool && j == id {
                    Some(Market { pool: *pool, id, currency_reserve, total_supply })
                } else {
                    find_market(old(self).markets@, p, j)
                },
    {
        let line = Market { pool: *pool, id, currency_reserve, total_supply };
        match self.market_index(pool, id) {
            Some(k) => {
                proof {
                    assert forall|p: AccountId, j: TokenId|
                        #![trigger find_market(self.markets@.update(k as int, line), p, j)]
                        find_market(self.markets@.update(k as int, line), p, j) == if p == *pool
                            && j == id {
                            Some(line)
                        } else {
                            find_market(self.markets@, p, j)
                        } by {
                        lemma_find_market_update(self.markets@, k as int, line, p, j);
                    }
                }
                self.markets.set(k, line);
            },
            None => {
                proof {
                    assert forall|p: AccountId, j: TokenId|
                        #![trigger find_market(self.markets@.push(line), p, j)]
                        find_market(self.markets@.push(line), p, j) == if p == *pool && j == id {
                            Some(line)
                        } else {
                            find_market(self.markets@, p, j)
                        } by {
                        lemma_find_market_push(self.markets@, line, p, j);
                    }
                }
                self.markets.push(line);
            },
        }
    }

    /// Registers `pool` under `account`, in place of whatever was registered
    /// there, and leaves every other pool and the books as they are.
    pub(crate) fn insert_pool(&mut self, account: &AccountId, pool: Pool)
        ensures
            final(self).config == old(self).config,
            final(self).pool_count == old(self).pool_count,
            final(self).markets == old(self).markets,
            forall|a: AccountId|
                #![trigger find_pool(final(self).pools@, a)]
                find_pool(final(self).pools@, a) == if a == *account {
                    Some(pool)
                } else {
                    find_pool(old(self).pools@, a)
                },
    {
        let line = PoolEntry { account: *account, pool };
        match self.pool_index(account) {
            Some(k) => {
                proof {
                    assert forall|a: AccountId|
                        #![trigger find_pool(self.pools@.update(k as int, line), a)]
                        find_pool(self.pools@.update(k as int, line), a) == if a == *account {
                            Some(pool)
                        } else {
                            find_pool(self.pools@, a)
                        } by {
                        lemma_find_pool_update(self.pools@, k as int, line, a);
                    }
                }
                self.pools.set(k, line);
            },
            None => {
                proof {
                    assert forall|a: AccountId|
                        #![trigger find_pool(self.pools@.push(line), a)]
                        find_pool(self.pools@.push(line), a) == if a == *account {
                            Some(pool)
                        } else {
                            find_pool(self.pools@, a)
                        } by {
                        lemma_find_pool_push(self.pools@, line, a);
                    }
                }
                self.pools.push(line);
            },
        }
    }
}

} // verus!
