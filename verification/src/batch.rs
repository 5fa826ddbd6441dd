//! What the four batch operations share: the outcome of one token id, how
//! the outcomes of a batch are gathered, and how they are written to the
//! books.
//!
//! A batch is worked through in the order of its ids. The first id that
//! fails, fails the batch, and the books are written only when every id has
//! succeeded.

use vstd::prelude::*;
use crate::reader::{lemma_ascending_is_ordered, strictly_ascending};
use crate::store::{find_market, Pallet};
use crate::types::{AccountId, Balance, Error, TokenId};

verus! {

/// What an operation decided for one token id.
#[derive(Clone, Copy, Debug, PartialEq, Eq, Structural)]
pub struct Fill {
    /// The currency that changes hands for this id.
    pub currency_amount: Balance,
    /// The tokens that change hands for this id; where liquidity is added,
    /// the shares minted.
    pub quantity: Balance,
    /// The currency reserve of the market once the operation is through.
    pub currency_reserve: Balance,
    /// The liquidity shares outstanding once the operation is through.
    pub total_supply: Balance,
}

/// The outcomes of the first `k` steps of a batch, or the error of the first
/// step that failed.
pub open spec fn collect(steps: Seq<Result<Fill, Error>>, k: int) -> Result<Seq<Fill>, Error>
    decreases k,
{
    if k <= 0 {
        Ok(Seq::empty())
    } else {
        match collect(steps, k - 1) {
            Err(e) => Err(e),
            Ok(fills) => match steps[k - 1] {
                Err(e) => Err(e),
                Ok(fill) => Ok(fills.push(fill)),
            },
        }
    }
}

/// Once a step has failed, the steps after it change nothing.
pub proof fn lemma_collect_error_stays(steps: Seq<Result<Fill, Error>>, k: int, m: int)
    requires
        0 <= k <= m,
        collect(steps, k) is Err,
    ensures
        collect(steps, m) == collect(steps, k),
    decreases m - k,
{
    if k < m {
        lemma_collect_error_stays(steps, k, m - 1);
    }
}

/// A batch succeeds exactly where each of its steps does, and then gathers
/// their outcomes in order.
pub proof fn lemma_collect_ok(steps: Seq<Result<Fill, Error>>, k: int)
    requires
        0 <= k <= steps.len(),
    ensures
        collect(steps, k) is Ok <==> forall|i: int| 0 <= i < k ==> (#[trigger] steps[i]) is Ok,
        collect(steps, k) matches Ok(fills) ==> {
            &&& fills.len() == k
            &&& forall|i: int| 0 <= i < k ==> #[trigger] steps[i] == Ok::<Fill, Error>(fills[i])
        },
    decreases k,
{
    if k > 0 {
        lemma_collect_ok(steps, k - 1);
    }
}

/// The sum of `values`.
pub open spec fn sum(values: Seq<Balance>) -> nat
    decreases values.len(),
{
    if values.len() == 0 {
        0
    } else {
        sum(values.drop_last()) + values.last() as nat
    }
}

/// The sum of `values`, or the largest balance where the sum exceeds it.
pub open spec fn saturating_sum(values: Seq<Balance>) -> Balance {
    if sum(values) > u128::MAX {
        u128::MAX
    } else {
        sum(values) as Balance
    }
}

/// Adding one more value to a saturating sum is a saturating addition.
pub proof fn lemma_saturating_sum_push(values: Seq<Balance>, value: Balance)
    ensures
        saturating_sum(values.push(value)) == if saturating_sum(values) + value > u128::MAX {
            u128::MAX
        } else {
            (saturating_sum(values) + value) as Balance
        },
{
    assert(values.push(value).drop_last() =~= values);
}

/// The currency amounts of `fills`, in order.
pub open spec fn currency_amounts(fills: Seq<Fill>) -> Seq<Balance> {
    Seq::new(fills.len(), |i: int| fills[i].currency_amount)
}

/// The quantities of `fills`, in order.
pub open spec fn quantities(fills: Seq<Fill>) -> Seq<Balance> {
    Seq::new(fills.len(), |i: int| fills[i].quantity)
}

/// The currency amounts of `fills`, in order.
pub(crate) fn currency_amounts_of(fills: &Vec<Fill>) -> (r: Vec<Balance>)
    ensures
        r@ == currency_amounts(fills@),
{
    let mut amounts: Vec<Balance> = Vec::new();
    let mut i: usize = 0;
    while i < fills.len()
        invariant
            i <= fills.len(),
            amounts@.len() == i,
            forall|j: int| 0 <= j < i ==> amounts@[j] == fills@[j].currency_amount,
        decreases fills.len() - i,
    {
        amounts.push(fills[i].currency_amount);
        i += 1;
    }
    assert(amounts@ =~= currency_amounts(fills@));
    amounts
}

/// The quantities of `fills`, in order.
pub(crate) fn quantities_of(fills: &Vec<Fill>) -> (r: Vec<Balance>)
    ensures
        r@ == quantities(fills@),
{
    let mut amounts: Vec<Balance> = Vec::new();
    let mut i: usize = 0;
    while i < fills.len()
        invariant
            i <= fills.len(),
            amounts@.len() == i,
            forall|j: int| 0 <= j < i ==> amounts@[j] == fills@[j].quantity,
        decreases fills.len() - i,
    {
        amounts.push(fills[i].quantity);
        i += 1;
    }
    assert(amounts@ =~= quantities(fills@));
    amounts
}

impl Pallet {
    /// The currency reserve of each of `ids` in `pool`.
    pub open spec fn reserves_of(&self, pool: AccountId, ids: Seq<TokenId>) -> Seq<Balance> {
        Seq::new(ids.len(), |i: int| self.spec_currency_reserves(pool, ids[i]))
    }

    /// The liquidity shares outstanding for each of `ids` in `pool`.
    pub open spec fn supplies_of(&self, pool: AccountId, ids: Seq<TokenId>) -> Seq<Balance> {
        Seq::new(ids.len(), |i: int| self.spec_total_supplies(pool, ids[i]))
    }

    /// `self` is `before` with the books of `pool` rewritten for `ids` as
    /// `fills` say, and with nothing else changed: not the constants, not the
    /// registry, not the books of any other pool or id.
    pub open spec fn books_updated(
        &self,
        before: &Pallet,
        pool: AccountId,
        ids: Seq<TokenId>,
        fills: Seq<Fill>,
    ) -> bool {
        &&& self.config == before.config
        &&& self.pool_count == before.pool_count
        &&& self.pools == before.pools
        &&& forall|i: int|
            0 <= i < ids.len() ==> {
                &&& self.spec_currency_reserves(pool, #[trigger] ids[i])
                    == fills[i].currency_reserve
                &&& self.spec_total_supplies(pool, ids[i]) == fills[i].total_supply
            }
        &&& forall|p: AccountId, id: TokenId|
            !(p == pool && ids.contains(id)) ==> {
                &&& #[trigger] self.spec_currency_reserves(p, id) == before.spec_currency_reserves(
                    p,
                    id,
                )
                &&& #[trigger] self.spec_total_supplies(p, id) == before.spec_total_supplies(p, id)
            }
    }

    /// Writes the outcome of a batch to the books.
    pub(crate) fn commit(&mut self, pool: &AccountId, ids: &Vec<TokenId>, fills: &Vec<Fill>)
        requires
            ids.len() == fills.len(),
            strictly_ascending(ids@),
        ensures
            final(self).books_updated(old(self), *pool, ids@, fills@),
    {
        let ghost before = *self;
        let n = ids.len();
        let mut i: usize = 0;
        while i < n
            invariant
                i <= n,
                n == ids.len(),
                n == fills.len(),
                strictly_ascending(ids@),
                self.config == before.config,
                self.pool_count == before.pool_count,
                self.pools == before.pools,
                forall|j: int|
                    0 <= j < i ==> {
                        &&& (#[trigger] find_market(self.markets@, *pool, ids@[j])) is Some
                        &&& find_market(self.markets@, *pool, ids@[j])->0.currency_reserve
                            == fills@[j].currency_reserve
                        &&& find_market(self.markets@, *pool, ids@[j])->0.total_supply
                            == fills@[j].total_supply
                    },
                forall|p: AccountId, id: TokenId|
                    !(p == *pool && ids@.take(i as int).contains(id)) ==> #[trigger] find_market(
                        self.markets@,
                        p,
                        id,
                    ) == find_market(before.markets@, p, id),
            decreases n - i,
        {
            let ghost previous = self.markets@;
            self.set_market(pool, ids[i], fills[i].currency_reserve, fills[i].total_supply);
            proof {
                assert forall|j: int| 0 <= j < i + 1 implies {
                    &&& (#[trigger] find_market(self.markets@, *pool, ids@[j])) is Some
                    &&& find_market(self.markets@, *pool, ids@[j])->0.currency_reserve
                        == fills@[j].currency_reserve
                    &&& find_market(self.markets@, *pool, ids@[j])->0.total_supply
                        == fills@[j].total_supply
                } by {
                    if j < i {
                        lemma_ascending_is_ordered(ids@, j, i as int);
                        assert(find_market(self.markets@, *pool, ids@[j]) == find_market(
                            previous,
                            *pool,
                            ids@[j],
                        ));
                    }
                }
                assert forall|p: AccountId, id: TokenId|
                    !(p == *pool && ids@.take(i + 1).contains(id)) implies #[trigger] find_market(
                    self.markets@,
                    p,
                    id,
                ) == find_market(before.markets@, p, id) by {
                    if p == *pool && ids@.take(i as int).contains(id) {
                        let j = choose|j: int|
                            0 <= j < i && ids@.take(i as int)[j] == id;
                        assert(ids@.take(i + 1)[j] == id);
                    }
                    if p == *pool && id == ids@[i as int] {
                        assert(ids@.take(i + 1)[i as int] == id);
                    }
                }
            }
            i += 1;
        }
        proof {
            assert(ids@.take(n as int) =~= ids@);
        }
    }
}

} // verus!
