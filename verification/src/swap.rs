//! The swap engine: currency for a batch of token ids, and a batch of token
//! ids for currency.
//!
//! Each swap has two halves. The first checks the request and says what goes
//! into the vault and which balances to read. The second, once the host has
//! moved the assets and read the balances, prices every id, updates the
//! currency reserves and says what leaves the vault.

use vstd::prelude::*;
use crate::batch::{
    collect,
    currency_amounts,
    currency_amounts_of,
    lemma_collect_error_stays,
    lemma_saturating_sum_push,
    saturating_sum,
    sum,
    Fill,
};
use crate::laws::{
    lemma_swap_currency_to_token_stays_backed,
    lemma_swap_token_to_currency_stays_backed,
};
use crate::ledger::{ops_view, Event, EventView, LedgerOp, LedgerOpView, Opening, Settlement};
use crate::pricing::{lemma_sell_quotient_bounded, spec_buy_price, spec_sell_price};
use crate::reader::{copy_of, is_strictly_ascending, strictly_ascending};
use crate::store::Pallet;
use crate::types::{AccountId, Balance, Error, Pool, TokenId};

verus! {

/// Buying `amount_out` of one id from a market with the given reserves, out
/// of a budget of which `refund` is left.
///
/// The buyer pays the buy price, which is added to the currency reserve.
/// Nothing is bought where `amount_out` is 0 (`NullTokensBought`), where
/// there is no price, where the price exceeds what is left of the budget
/// (`MaxCurrencyAmountExceeded`), or where the currency reserve would exceed
/// the largest balance (`Overflow`).
pub open spec fn buy_step(
    amount_out: Balance,
    currency_reserve: Balance,
    total_supply: Balance,
    token_reserve: Balance,
    refund: Balance,
) -> Result<Fill, Error> {
    if amount_out == 0 {
        Err(Error::NullTokensBought)
    } else {
        match spec_buy_price(amount_out, currency_reserve, token_reserve) {
            Err(e) => Err(e),
            Ok(cost) => if cost > refund {
                Err(Error::MaxCurrencyAmountExceeded)
            } else if currency_reserve + cost > u128::MAX {
                Err(Error::Overflow)
            } else {
                Ok(
                    Fill {
                        currency_amount: cost,
                        quantity: amount_out,
                        currency_reserve: (currency_reserve + cost) as Balance,
                        total_supply,
                    },
                )
            },
        }
    }
}

/// Buying the first `k` ids of a batch out of `budget`: the outcome of each
/// id and what is left of the budget, or the error of the first id that
/// failed.
pub open spec fn buy_batch(
    amounts: Seq<Balance>,
    reserves: Seq<Balance>,
    supplies: Seq<Balance>,
    tokens: Seq<Balance>,
    budget: Balance,
    k: int,
) -> Result<(Seq<Fill>, Balance), Error>
    decreases k,
{
    if k <= 0 {
        Ok((Seq::empty(), budget))
    } else {
        match buy_batch(amounts, reserves, supplies, tokens, budget, k - 1) {
            Err(e) => Err(e),
            Ok((fills, refund)) => match buy_step(
                amounts[k - 1],
                reserves[k - 1],
                supplies[k - 1],
                tokens[k - 1],
                refund,
            ) {
                Err(e) => Err(e),
                Ok(fill) => Ok((fills.push(fill), (refund - fill.currency_amount) as Balance)),
            },
        }
    }
}

/// Once an id has failed, the ids after it change nothing.
pub proof fn lemma_buy_batch_error_stays(
    amounts: Seq<Balance>,
    reserves: Seq<Balance>,
    supplies: Seq<Balance>,
    tokens: Seq<Balance>,
    budget: Balance,
    k: int,
    m: int,
)
    requires
        0 <= k <= m,
        buy_batch(amounts, reserves, supplies, tokens, budget, k) is Err,
    ensures
        buy_batch(amounts, reserves, supplies, tokens, budget, m) == buy_batch(
            amounts,
            reserves,
            supplies,
            tokens,
            budget,
            k,
        ),
    decreases m - k,
{
    if k < m {
        lemma_buy_batch_error_stays(amounts, reserves, supplies, tokens, budget, k, m - 1);
    }
}

/// A purchase spends exactly the sum of the prices of its ids, and never
/// more than its budget: what is spent and what is refunded add up to the
/// budget. Each id's outcome is that of [`buy_step`] with what the ids before
/// it left of the budget.
pub proof fn lemma_buy_batch_spends(
    amounts: Seq<Balance>,
    reserves: Seq<Balance>,
    supplies: Seq<Balance>,
    tokens: Seq<Balance>,
    budget: Balance,
    k: int,
)
    requires
        0 <= k,
        buy_batch(amounts, reserves, supplies, tokens, budget, k) is Ok,
    ensures
        ({
            let (fills, refund) = buy_batch(amounts, reserves, supplies, tokens, budget, k)->Ok_0;
            &&& fills.len() == k
            &&& sum(currency_amounts(fills)) + refund == budget
            &&& forall|i: int|
                0 <= i < k ==> spec_buy_price(amounts[i], reserves[i], tokens[i]) == Ok::<
                    Balance,
                    Error,
                >((#[trigger] fills[i]).currency_amount)
            &&& forall|i: int|
                0 <= i < k ==> {
                    &&& (#[trigger] fills[i]).quantity == amounts[i]
                    &&& fills[i].currency_reserve == reserves[i] + fills[i].currency_amount
                    &&& fills[i].total_supply == supplies[i]
                    &&& amounts[i] > 0
                }
        }),
    decreases k,
{
    if k > 0 {
        lemma_buy_batch_spends(amounts, reserves, supplies, tokens, budget, k - 1);
        let (before, left) = buy_batch(amounts, reserves, supplies, tokens, budget, k - 1)->Ok_0;
        let (fills, refund) = buy_batch(amounts, reserves, supplies, tokens, budget, k)->Ok_0;
        let fill = buy_step(amounts[k - 1], reserves[k - 1], supplies[k - 1], tokens[k - 1], left)->Ok_0;
        assert(fills == before.push(fill));
        assert(currency_amounts(fills).drop_last() =~= currency_amounts(before));
        assert(currency_amounts(fills).last() == fill.currency_amount);
    } else {
        assert(currency_amounts(Seq::<Fill>::empty()) =~= Seq::<Balance>::empty());
    }
}

/// Selling `amount_in` of one id to a market, where `token_reserve` is what
/// the vault holds of the id once the seller's tokens have arrived.
///
/// The seller receives the sell price, computed with the token reserve as it
/// was before the tokens arrived, and taken from the currency reserve.
/// Nothing is sold where `amount_in` is 0 (`NullTokensSold`) or where there
/// is no price.
pub open spec fn sell_step(
    amount_in: Balance,
    currency_reserve: Balance,
    total_supply: Balance,
    token_reserve: Balance,
) -> Result<Fill, Error> {
    if amount_in == 0 {
        Err(Error::NullTokensSold)
    } else {
        let tokens_before = if token_reserve >= amount_in {
            (token_reserve - amount_in) as Balance
        } else {
            0
        };
        match spec_sell_price(amount_in, tokens_before, currency_reserve) {
            Err(e) => Err(e),
            Ok(proceeds) => Ok(
                Fill {
                    currency_amount: proceeds,
                    quantity: amount_in,
                    currency_reserve: (currency_reserve - proceeds) as Balance,
                    total_supply,
                },
            ),
        }
    }
}

/// [`sell_step`] for every id of a batch.
pub open spec fn sell_steps(
    amounts: Seq<Balance>,
    reserves: Seq<Balance>,
    supplies: Seq<Balance>,
    tokens: Seq<Balance>,
) -> Seq<Result<Fill, Error>> {
    Seq::new(
        amounts.len(),
        |i: int| sell_step(amounts[i], reserves[i], supplies[i], tokens[i]),
    )
}

/// The transfers that end a purchase: the refund, where there is one, from
/// the vault to the buyer, then the tokens from the vault to the recipient.
pub open spec fn buy_transfers(
    pool: Pool,
    who: AccountId,
    to: AccountId,
    ids: Seq<TokenId>,
    amounts: Seq<Balance>,
    refund: Balance,
) -> Seq<LedgerOpView> {
    let tokens = LedgerOpView::TransferTokens {
        operator: pool.vault,
        handle: pool.token,
        from: pool.vault,
        to,
        ids,
        amounts,
    };
    if refund > 0 {
        seq![
            LedgerOpView::TransferCurrency {
                operator: pool.vault,
                handle: pool.currency,
                from: pool.vault,
                to: who,
                amount: refund,
            },
            tokens,
        ]
    } else {
        seq![tokens]
    }
}

/// The transfer that ends a sale: the proceeds from the vault to the
/// recipient.
pub open spec fn sell_transfers(pool: Pool, to: AccountId, total: Balance) -> Seq<LedgerOpView> {
    seq![
        LedgerOpView::TransferCurrency {
            operator: pool.vault,
            handle: pool.currency,
            from: pool.vault,
            to,
            amount: total,
        },
    ]
}

/// [`buy_step`], computed.
fn buy_one(
    amount_out: Balance,
    currency_reserve: Balance,
    total_supply: Balance,
    token_reserve: Balance,
    refund: Balance,
) -> (r: Result<Fill, Error>)
    ensures
        r == buy_step(amount_out, currency_reserve, total_supply, token_reserve, refund),
{
    if amount_out == 0 {
        return Err(Error::NullTokensBought);
    }
    let cost = match Pallet::get_buy_price(amount_out, currency_reserve, token_reserve) {
        Ok(cost) => cost,
        Err(e) => {
            return Err(e);
        },
    };
    if cost > refund {
        return Err(Error::MaxCurrencyAmountExceeded);
    }
    match currency_reserve.checked_add(cost) {
        Some(raised) => Ok(
            Fill { currency_amount: cost, quantity: amount_out, currency_reserve: raised, total_supply },
        ),
        None => Err(Error::Overflow),
    }
}

/// [`sell_step`], computed.
fn sell_one(
    amount_in: Balance,
    currency_reserve: Balance,
    total_supply: Balance,
    token_reserve: Balance,
) -> (r: Result<Fill, Error>)
    ensures
        r == sell_step(amount_in, currency_reserve, total_supply, token_reserve),
{
    if amount_in == 0 {
        return Err(Error::NullTokensSold);
    }
    let tokens_before = token_reserve.saturating_sub(amount_in);
    let proceeds = match Pallet::get_sell_price(amount_in, tokens_before, currency_reserve) {
        Ok(proceeds) => proceeds,
        Err(e) => {
            return Err(e);
        },
    };
    proof {
        lemma_sell_quotient_bounded(amount_in, tokens_before, currency_reserve);
    }
    Ok(
        Fill {
            currency_amount: proceeds,
            quantity: amount_in,
            currency_reserve: currency_reserve - proceeds,
            total_supply,
        },
    )
}

impl Pallet {
    /// What a purchase from `pool_account` does, given what the vault holds
    /// of each id: the outcome of each id and the refund.
    ///
    /// It fails where no pool is registered under `pool_account`
    /// (`InvalidPoolAccount`), where the ids are not strictly ascending
    /// (`UnsortedOrDuplicateTokenIds`), and where an id fails as [`buy_step`]
    /// says.
    pub open spec fn spec_swap_currency_to_token(
        &self,
        pool_account: AccountId,
        ids: Seq<TokenId>,
        amounts_out: Seq<Balance>,
        max_currency: Balance,
        token_reserves: Seq<Balance>,
    ) -> Result<(Seq<Fill>, Balance), Error> {
        if self.spec_pool(pool_account) is None {
            Err(Error::InvalidPoolAccount)
        } else if !strictly_ascending(ids) {
            Err(Error::UnsortedOrDuplicateTokenIds)
        } else {
            buy_batch(
                amounts_out,
                self.reserves_of(pool_account, ids),
                self.supplies_of(pool_account, ids),
                token_reserves,
                max_currency,
                ids.len() as int,
            )
        }
    }

    /// What a sale to `pool_account` does, given what the vault holds of
    /// each id once the seller's tokens have arrived: the outcome of each id.
    ///
    /// It fails where no pool is registered under `pool_account`
    /// (`InvalidPoolAccount`), where the ids are not strictly ascending
    /// (`UnsortedOrDuplicateTokenIds`), where an id fails as [`sell_step`]
    /// says, and where the proceeds of all ids together are less than
    /// `min_currency` (`InsufficientCurrencyAmount`).
    pub open spec fn spec_swap_token_to_currency(
        &self,
        pool_account: AccountId,
        ids: Seq<TokenId>,
        amounts_in: Seq<Balance>,
        min_currency: Balance,
        token_reserves: Seq<Balance>,
    ) -> Result<Seq<Fill>, Error> {
        if self.spec_pool(pool_account) is None {
            Err(Error::InvalidPoolAccount)
        } else if !strictly_ascending(ids) {
            Err(Error::UnsortedOrDuplicateTokenIds)
        } else {
            match collect(
                sell_steps(
                    amounts_in,
                    self.reserves_of(pool_account, ids),
                    self.supplies_of(pool_account, ids),
                    token_reserves,
                ),
                ids.len() as int,
            ) {
                Err(e) => Err(e),
                Ok(fills) => if saturating_sum(currency_amounts(fills)) < min_currency {
                    Err(Error::InsufficientCurrencyAmount)
                } else {
                    Ok(fills)
                },
            }
        }
    }

    /// First half of a purchase by `who`: `max_currency` goes from the buyer
    /// into the vault, on the pool's currency ledger.
    pub fn swap_currency_to_token(
        &self,
        who: &AccountId,
        pool_account: &AccountId,
        token_ids: &Vec<TokenId>,
        max_currency: Balance,
    ) -> (r: Result<Opening, Error>)
        ensures
            match (r, self.spec_opening(*pool_account, token_ids@)) {
                (Ok(opening), Ok((pool, query))) => {
                    &&& opening.escrow@ == LedgerOpView::TransferCurrency {
                        operator: *who,
                        handle: pool.currency,
                        from: *who,
                        to: pool.vault,
                        amount: max_currency,
                    }
                    &&& opening.query@ == query
                },
                (Err(e), Err(expected)) => e == expected,
                _ => false,
            },
    {
        let pool = match self.pool(pool_account) {
            Some(pool) => pool,
            None => {
                return Err(Error::InvalidPoolAccount);
            },
        };
        let query = match Pallet::get_token_reserves(&pool.vault, &pool.token, token_ids) {
            Ok(query) => query,
            Err(e) => {
                return Err(e);
            },
        };
        let escrow = LedgerOp::TransferCurrency {
            operator: *who,
            handle: pool.currency,
            from: *who,
            to: pool.vault,
            amount: max_currency,
        };
        Ok(Opening { escrow, query })
    }

    /// First half of a sale by `who`: the tokens go from the seller into the
    /// vault, on the pool's token collection.
    pub fn swap_token_to_currency(
        &self,
        who: &AccountId,
        pool_account: &AccountId,
        token_ids: &Vec<TokenId>,
        token_amounts_in: &Vec<Balance>,
    ) -> (r: Result<Opening, Error>)
        ensures
            match (r, self.spec_opening(*pool_account, token_ids@)) {
                (Ok(opening), Ok((pool, query))) => {
                    &&& opening.escrow@ == LedgerOpView::TransferTokens {
                        operator: *who,
                        handle: pool.token,
                        from: *who,
                        to: pool.vault,
                        ids: token_ids@,
                        amounts: token_amounts_in@,
                    }
                    &&& opening.query@ == query
                },
                (Err(e), Err(expected)) => e == expected,
                _ => false,
            },
    {
        let pool = match self.pool(pool_account) {
            Some(pool) => pool,
            None => {
                return Err(Error::InvalidPoolAccount);
            },
        };
        let query = match Pallet::get_token_reserves(&pool.vault, &pool.token, token_ids) {
            Ok(query) => query,
            Err(e) => {
                return Err(e);
            },
        };
        let escrow = LedgerOp::TransferTokens {
            operator: *who,
            handle: pool.token,
            from: *who,
            to: pool.vault,
            ids: copy_of(token_ids),
            amounts: copy_of(token_amounts_in),
        };
        Ok(Opening { escrow, query })
    }

    /// Second half of a purchase: `who` buys `token_amounts_out[i]` of
    /// `token_ids[i]` for every `i`, for at most `max_currency` in all, and
    /// `to` receives the tokens.
    ///
    /// `token_reserves[i]` is what the vault holds of `token_ids[i]`. The
    /// whole of `max_currency` is in the vault already; what the purchase
    /// does not spend goes back to the buyer. On failure the exchange is
    /// left as it was.
    pub fn do_swap_currency_to_token(
        &mut self,
        who: &AccountId,
        pool_account: &AccountId,
        token_ids: Vec<TokenId>,
        token_amounts_out: Vec<Balance>,
        max_currency: Balance,
        to: &AccountId,
        token_reserves: Vec<Balance>,
    ) -> (r: Result<Settlement, Error>)
        requires
            token_ids.len() == token_amounts_out.len(),
            token_ids.len() == token_reserves.len(),
        ensures
            match (
                r,
                old(self).spec_swap_currency_to_token(
                    *pool_account,
                    token_ids@,
                    token_amounts_out@,
                    max_currency,
                    token_reserves@,
                ),
            ) {
                (Ok(settlement), Ok((fills, refund))) => {
                    &&& final(self).books_updated(old(self), *pool_account, token_ids@, fills)
                    &&& old(self).all_backed() ==> final(self).all_backed()
                    &&& settlement.currency_amounts@ == currency_amounts(fills)
                    &&& sum(currency_amounts(fills)) + refund == max_currency
                    &&& ops_view(settlement.transfers@) == buy_transfers(
                        old(self).spec_pool(*pool_account)->0,
                        *who,
                        *to,
                        token_ids@,
                        token_amounts_out@,
                        refund,
                    )
                    &&& settlement.event@ == EventView::SwapCurrencyToToken(
                        *who,
                        *pool_account,
                        token_ids@,
                        token_amounts_out@,
                        (max_currency - refund) as Balance,
                        *to,
                    )
                },
                (Err(e), Err(expected)) => e == expected && *final(self) == *old(self),
                _ => false,
            },
            old(self).spec_pool(*pool_account) is Some && !strictly_ascending(token_ids@) ==> r
                == Err::<Settlement, Error>(Error::UnsortedOrDuplicateTokenIds),
    {
        let pool = match self.pool(pool_account) {
            Some(pool) => pool,
            None => {
                return Err(Error::InvalidPoolAccount);
            },
        };
        if !is_strictly_ascending(&token_ids) {
            return Err(Error::UnsortedOrDuplicateTokenIds);
        }
        let ghost reserves = self.reserves_of(*pool_account, token_ids@);
        let ghost supplies = self.supplies_of(*pool_account, token_ids@);
        let n = token_ids.len();
        let mut fills: Vec<Fill> = Vec::new();
        let mut refund = max_currency;
        let mut i: usize = 0;
        while i < n
            invariant
                i <= n,
                n == token_ids.len(),
                n == token_amounts_out.len(),
                n == token_reserves.len(),
                *self == *old(self),
                self.spec_pool(*pool_account) == Some(pool),
                strictly_ascending(token_ids@),
                fills@.len() == i,
                reserves == self.reserves_of(*pool_account, token_ids@),
                supplies == self.supplies_of(*pool_account, token_ids@),
                buy_batch(
                    token_amounts_out@,
                    reserves,
                    supplies,
                    token_reserves@,
                    max_currency,
                    i as int,
                ) == Ok::<(Seq<Fill>, Balance), Error>((fills@, refund)),
            decreases n - i,
        {
            let (currency_reserve, total_supply) = self.market(pool_account, token_ids[i]);
            match buy_one(
                token_amounts_out[i],
                currency_reserve,
                total_supply,
                token_reserves[i],
                refund,
            ) {
                Ok(fill) => {
                    refund = refund - fill.currency_amount;
                    fills.push(fill);
                },
                Err(e) => {
                    proof {
                        lemma_buy_batch_error_stays(
                            token_amounts_out@,
                            reserves,
                            supplies,
                            token_reserves@,
                            max_currency,
                            i + 1,
                            n as int,
                        );
                    }
                    return Err(e);
                },
            }
            i += 1;
        }
        proof {
            lemma_buy_batch_spends(
                token_amounts_out@,
                reserves,
                supplies,
                token_reserves@,
                max_currency,
                n as int,
            );
        }
        self.commit(pool_account, &token_ids, &fills);
        proof {
            if old(self).all_backed() {
                lemma_swap_currency_to_token_stays_backed(
                    *old(self),
                    *self,
                    *pool_account,
                    token_ids@,
                    token_amounts_out@,
                    max_currency,
                    token_reserves@,
                );
            }
        }
        let mut transfers: Vec<LedgerOp> = Vec::new();
        if refund > 0 {
            transfers.push(
                LedgerOp::TransferCurrency {
                    operator: pool.vault,
                    handle: pool.currency,
                    from: pool.vault,
                    to: *who,
                    amount: refund,
                },
            );
        }
        transfers.push(
            LedgerOp::TransferTokens {
                operator: pool.vault,
                handle: pool.token,
                from: pool.vault,
                to: *to,
                ids: copy_of(&token_ids),
                amounts: copy_of(&token_amounts_out),
            },
        );
        assert(ops_view(transfers@) =~= buy_transfers(
            pool,
            *who,
            *to,
            token_ids@,
            token_amounts_out@,
            refund,
        ));
        let currency_amounts = currency_amounts_of(&fills);
        let event = Event::SwapCurrencyToToken(
            *who,
            *pool_account,
            token_ids,
            token_amounts_out,
            max_currency - refund,
            *to,
        );
        Ok(Settlement { currency_amounts, transfers, event })
    }

    /// Second half of a sale: `who` sells `token_amounts_in[i]` of
    /// `token_ids[i]` for every `i`, for at least `min_currency` in all, and
    /// `to` receives the currency.
    ///
    /// `token_reserves[i]` is what the vault holds of `token_ids[i]` now that
    /// the seller's tokens are in it. On failure the exchange is left as it
    /// was.
    pub fn do_swap_token_to_currency(
        &mut self,
        who: &AccountId,
        pool_account: &AccountId,
        token_ids: Vec<TokenId>,
        token_amounts_in: Vec<Balance>,
        min_currency: Balance,
        to: &AccountId,
        token_reserves: Vec<Balance>,
    ) -> (r: Result<Settlement, Error>)
        requires
            token_ids.len() == token_amounts_in.len(),
            token_ids.len() == token_reserves.len(),
        ensures
            match (
                r,
                old(self).spec_swap_token_to_currency(
                    *pool_account,
                    token_ids@,
                    token_amounts_in@,
                    min_currency,
                    token_reserves@,
                ),
            ) {
                (Ok(settlement), Ok(fills)) => {
                    &&& final(self).books_updated(old(self), *pool_account, token_ids@, fills)
                    &&& old(self).all_backed() ==> final(self).all_backed()
                    &&& settlement.currency_amounts@ == currency_amounts(fills)
                    &&& ops_view(settlement.transfers@) == sell_transfers(
                        old(self).spec_pool(*pool_account)->0,
                        *to,
                        saturating_sum(currency_amounts(fills)),
                    )
                    &&& settlement.event@ == EventView::SwapTokenToCurrency(
                        *who,
                        *pool_account,
                        token_ids@,
                        token_amounts_in@,
                        saturating_sum(currency_amounts(fills)),
                        *to,
                    )
                },
                (Err(e), Err(expected)) => e == expected && *final(self) == *old(self),
                _ => false,
            },
            old(self).spec_pool(*pool_account) is Some && !strictly_ascending(token_ids@) ==> r
                == Err::<Settlement, Error>(Error::UnsortedOrDuplicateTokenIds),
    {
        let pool = match self.pool(pool_account) {
            Some(pool) => pool,
            None => {
                return Err(Error::InvalidPoolAccount);
            },
        };
        if !is_strictly_ascending(&token_ids) {
            return Err(Error::UnsortedOrDuplicateTokenIds);
        }
        let ghost steps = sell_steps(
            token_amounts_in@,
            self.reserves_of(*pool_account, token_ids@),
            self.supplies_of(*pool_account, token_ids@),
            token_reserves@,
        );
        let n = token_ids.len();
        let mut fills: Vec<Fill> = Vec::new();
        let mut total: Balance = 0;
        let mut i: usize = 0;
        assert(currency_amounts(fills@) =~= Seq::<Balance>::empty());
        while i < n
            invariant
                i <= n,
                n == token_ids.len(),
                n == token_amounts_in.len(),
                n == token_reserves.len(),
                *self == *old(self),
                self.spec_pool(*pool_account) == Some(pool),
                strictly_ascending(token_ids@),
                fills@.len() == i,
                steps == sell_steps(
                    token_amounts_in@,
                    self.reserves_of(*pool_account, token_ids@),
                    self.supplies_of(*pool_account, token_ids@),
                    token_reserves@,
                ),
                collect(steps, i as int) == Ok::<Seq<Fill>, Error>(fills@),
                total == saturating_sum(currency_amounts(fills@)),
            decreases n - i,
        {
            let (currency_reserve, total_supply) = self.market(pool_account, token_ids[i]);
            match sell_one(token_amounts_in[i], currency_reserve, total_supply, token_reserves[i]) {
                Ok(fill) => {
                    proof {
                        lemma_saturating_sum_push(currency_amounts(fills@), fill.currency_amount);
                        assert(currency_amounts(fills@.push(fill)) =~= currency_amounts(
                            fills@,
                        ).push(fill.currency_amount));
                    }
                    total = total.saturating_add(fill.currency_amount);
                    fills.push(fill);
                },
                Err(e) => {
                    proof {
                        lemma_collect_error_stays(steps, i + 1, n as int);
                    }
                    return Err(e);
                },
            }
            i += 1;
        }
        if total < min_currency {
            return Err(Error::InsufficientCurrencyAmount);
        }
        self.commit(pool_account, &token_ids, &fills);
        proof {
            if old(self).all_backed() {
                lemma_swap_token_to_currency_stays_backed(
                    *old(self),
                    *self,
                    *pool_account,
                    token_ids@,
                    token_amounts_in@,
                    min_currency,
                    token_reserves@,
                );
            }
        }
        let mut transfers: Vec<LedgerOp> = Vec::new();
        transfers.push(
            LedgerOp::TransferCurrency {
                operator: pool.vault,
                handle: pool.currency,
                from: pool.vault,
                to: *to,
                amount: total,
            },
        );
        assert(ops_view(transfers@) =~= sell_transfers(pool, *to, total));
        let currency_amounts = currency_amounts_of(&fills);
        let event = Event::SwapTokenToCurrency(
            *who,
            *pool_account,
            token_ids,
            token_amounts_in,
            total,
            *to,
        );
        Ok(Settlement { currency_amounts, transfers, event })
    }
}

} // verus!
