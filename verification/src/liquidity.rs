//! The liquidity engine: providers deposit tokens and currency for shares of
//! a market, and hand shares back for their part of both reserves.
//!
//! Like a swap, each operation has two halves: one that checks the request
//! and says what goes into the vault, and one that, given the vault's token
//! balances, does the accounting and says what leaves it.

use vstd::prelude::*;
use crate::batch::{
    collect,
    currency_amounts,
    currency_amounts_of,
    lemma_collect_error_stays,
    lemma_saturating_sum_push,
    quantities,
    quantities_of,
    saturating_sum,
    Fill,
};
use crate::laws::{lemma_add_liquidity_stays_backed, lemma_remove_liquidity_stays_backed};
use crate::ledger::{ops_view, Event, EventView, LedgerOp, LedgerOpView, Opening, Settlement};
use crate::pricing::{ceil_div, div_round, lemma_floor_div_bounds, lemma_product_fits};
use crate::reader::{copy_of, is_strictly_ascending, strictly_ascending};
use crate::store::Pallet;
use crate::types::{AccountId, Balance, Error, Pool, TokenId};
use crate::wide::Wide;

verus! {

/// The least currency that opens a market. With less, rounding on the
/// second deposit could weigh heavily.
pub const MIN_INITIAL_CURRENCY: Balance = 1_000_000_000;

/// Adding `token_amount` tokens of one id, with at most `max_currency`
/// currency, to a market with the given books, where `token_reserve` is what
/// the vault holds of the id once the provider's tokens have arrived.
///
/// The first provider of a market sets its price: `max_currency` becomes the
/// currency reserve and the number of shares. A later provider owes currency
/// in proportion to the tokens deposited,
/// `token_amount * currency_reserve / (token_reserve - token_amount)` rounded
/// up, and receives shares for that quotient rounded down, in proportion to
/// the currency reserve.
///
/// Nothing is added where `max_currency` is 0 (`NullMaxCurrency`), where
/// `token_amount` is 0 (`NullTokensAmount`), where the first deposit is below
/// [`MIN_INITIAL_CURRENCY`] (`InvalidCurrencyAmount`), where a market with
/// shares outstanding held no tokens or no currency before the deposit
/// (`EmptyReserve`), where more than `max_currency` is owed
/// (`MaxCurrencyAmountExceeded`), or where an amount would exceed the largest
/// balance (`Overflow`).
pub open spec fn add_step(
    token_amount: Balance,
    max_currency: Balance,
    currency_reserve: Balance,
    total_supply: Balance,
    token_reserve: Balance,
) -> Result<Fill, Error> {
    if max_currency == 0 {
        Err(Error::NullMaxCurrency)
    } else if token_amount == 0 {
        Err(Error::NullTokensAmount)
    } else if total_supply == 0 {
        if max_currency < MIN_INITIAL_CURRENCY {
            Err(Error::InvalidCurrencyAmount)
        } else {
            Ok(
                Fill {
                    currency_amount: max_currency,
                    quantity: max_currency,
                    currency_reserve: max_currency,
                    total_supply: max_currency,
                },
            )
        }
    } else if token_reserve <= token_amount || currency_reserve == 0 {
        Err(Error::EmptyReserve)
    } else {
        let numerator = token_amount * currency_reserve;
        let denominator = token_reserve - token_amount;
        let owed = ceil_div(numerator, denominator);
        let shares = ((numerator / denominator) * total_supply) / (currency_reserve as int);
        if owed > u128::MAX {
            Err(Error::Overflow)
        } else if max_currency < owed {
            Err(Error::MaxCurrencyAmountExceeded)
        } else if currency_reserve + owed > u128::MAX {
            Err(Error::Overflow)
        } else if total_supply + shares > u128::MAX {
            Err(Error::Overflow)
        } else {
            Ok(
                Fill {
                    currency_amount: owed as Balance,
                    quantity: shares as Balance,
                    currency_reserve: (currency_reserve + owed) as Balance,
                    total_supply: (total_supply + shares) as Balance,
                },
            )
        }
    }
}

/// [`add_step`] for every id of a batch.
pub open spec fn add_steps(
    token_amounts: Seq<Balance>,
    max_currencies: Seq<Balance>,
    reserves: Seq<Balance>,
    supplies: Seq<Balance>,
    tokens: Seq<Balance>,
) -> Seq<Result<Fill, Error>> {
    Seq::new(
        token_amounts.len(),
        |i: int| add_step(token_amounts[i], max_currencies[i], reserves[i], supplies[i], tokens[i]),
    )
}

/// `x` as a balance, or 0 where it exceeds the largest balance.
pub open spec fn narrow_or_zero(x: int) -> Balance {
    if 0 <= x <= u128::MAX {
        x as Balance
    } else {
        0
    }
}

/// Handing back `liquidity` shares of one id of a market with the given
/// books, where `token_reserve` is what the vault holds of the id.
///
/// The provider receives the part of each reserve that the shares stand for,
/// `liquidity * reserve / total_supply` rounded down (0 where that exceeds
/// the largest balance), and the shares cease to exist.
///
/// Nothing is removed where the market has no shares outstanding
/// (`NullTotalLiquidity`), where the currency is less than `min_currency`
/// (`InsufficientCurrencyAmount`), where the tokens are less than
/// `min_tokens` (`InsufficientTokens`), or where more shares are handed back
/// than exist (`Overflow`).
pub open spec fn remove_step(
    liquidity: Balance,
    min_currency: Balance,
    min_tokens: Balance,
    currency_reserve: Balance,
    total_supply: Balance,
    token_reserve: Balance,
) -> Result<Fill, Error> {
    if total_supply == 0 {
        Err(Error::NullTotalLiquidity)
    } else {
        let currency_amount = narrow_or_zero(
            (liquidity * currency_reserve) / (total_supply as int),
        );
        let token_amount = narrow_or_zero((liquidity * token_reserve) / (total_supply as int));
        if currency_amount < min_currency {
            Err(Error::InsufficientCurrencyAmount)
        } else if token_amount < min_tokens {
            Err(Error::InsufficientTokens)
        } else if liquidity > total_supply {
            Err(Error::Overflow)
        } else {
            Ok(
                Fill {
                    currency_amount,
                    quantity: token_amount,
                    currency_reserve: (currency_reserve - currency_amount) as Balance,
                    total_supply: (total_supply - liquidity) as Balance,
                },
            )
        }
    }
}

/// [`remove_step`] for every id of a batch.
pub open spec fn remove_steps(
    liquidities: Seq<Balance>,
    min_currencies: Seq<Balance>,
    min_tokens: Seq<Balance>,
    reserves: Seq<Balance>,
    supplies: Seq<Balance>,
    tokens: Seq<Balance>,
) -> Seq<Result<Fill, Error>> {
    Seq::new(
        liquidities.len(),
        |i: int|
            remove_step(
                liquidities[i],
                min_currencies[i],
                min_tokens[i],
                reserves[i],
                supplies[i],
                tokens[i],
            ),
    )
}

/// The transfers that end a deposit: the shares are minted to the provider,
/// then the currency goes from the provider into the vault.
pub open spec fn add_transfers(
    pool: Pool,
    who: AccountId,
    ids: Seq<TokenId>,
    fills: Seq<Fill>,
) -> Seq<LedgerOpView> {
    seq![
        LedgerOpView::MintTokens {
            operator: pool.vault,
            handle: pool.lp_token,
            to: who,
            ids,
            amounts: quantities(fills),
        },
        LedgerOpView::TransferCurrency {
            operator: who,
            handle: pool.currency,
            from: who,
            to: pool.vault,
            amount: saturating_sum(currency_amounts(fills)),
        },
    ]
}

/// The transfers that end a withdrawal: the shares in the vault are burnt,
/// then the currency and the tokens go from the vault to the provider.
pub open spec fn remove_transfers(
    pool: Pool,
    who: AccountId,
    ids: Seq<TokenId>,
    liquidities: Seq<Balance>,
    fills: Seq<Fill>,
) -> Seq<LedgerOpView> {
    seq![
        LedgerOpView::BurnTokens {
            operator: pool.vault,
            handle: pool.lp_token,
            from: pool.vault,
            ids,
            amounts: liquidities,
        },
        LedgerOpView::TransferCurrency {
            operator: pool.vault,
            handle: pool.currency,
            from: pool.vault,
            to: who,
            amount: saturating_sum(currency_amounts(fills)),
        },
        LedgerOpView::TransferTokens {
            operator: pool.vault,
            handle: pool.token,
            from: pool.vault,
            to: who,
            ids,
            amounts: quantities(fills),
        },
    ]
}

/// The part of a reserve that shares stand for never exceeds the reserve,
/// as long as no more shares are handed back than exist.
pub proof fn lemma_share_bounded(liquidity: Balance, reserve: Balance, total_supply: Balance)
    requires
        0 < total_supply,
        liquidity <= total_supply,
    ensures
        0 <= (liquidity * reserve) / (total_supply as int) <= reserve,
        liquidity == total_supply ==> (liquidity * reserve) / (total_supply as int) == reserve,
        liquidity < total_supply && reserve > 0 ==> (liquidity * reserve) / (total_supply as int)
            < reserve,
{
    let l = liquidity as int;
    let r = reserve as int;
    let s = total_supply as int;
    let n = l * r;
    assert(0 <= n <= s * r && (l == s ==> n == s * r) && (l < s && r > 0 ==> n < s * r))
        by (nonlinear_arith)
        requires
            n == l * r,
            0 <= l <= s,
            0 <= r,
    ;
    lemma_floor_div_bounds(n, s);
    let q = n / s;
    assert(q <= r && (l == s ==> q == r) && (l < s && r > 0 ==> q < r)) by (nonlinear_arith)
        requires
            n - s < q * s <= n,
            0 <= n <= s * r,
            l == s ==> n == s * r,
            l < s && r > 0 ==> n < s * r,
            s > 0,
    ;
}

/// [`add_step`], computed.
fn add_one(
    token_amount: Balance,
    max_currency: Balance,
    currency_reserve: Balance,
    total_supply: Balance,
    token_reserve: Balance,
) -> (r: Result<Fill, Error>)
    ensures
        r == add_step(token_amount, max_currency, currency_reserve, total_supply, token_reserve),
{
    if max_currency == 0 {
        return Err(Error::NullMaxCurrency);
    }
    if token_amount == 0 {
        return Err(Error::NullTokensAmount);
    }
    if total_supply == 0 {
        if max_currency < MIN_INITIAL_CURRENCY {
            return Err(Error::InvalidCurrencyAmount);
        }
        return Ok(
            Fill {
                currency_amount: max_currency,
                quantity: max_currency,
                currency_reserve: max_currency,
                total_supply: max_currency,
            },
        );
    }
    if token_reserve <= token_amount || currency_reserve == 0 {
        return Err(Error::EmptyReserve);
    }
    proof {
        lemma_product_fits(token_amount, currency_reserve);
    }
    let numerator = Wide::from_u128(token_amount).saturating_mul(Wide::from_u128(currency_reserve));
    let denominator = Wide::from_u128(token_reserve).saturating_sub(Wide::from_u128(token_amount));
    let (owed, rounded) = match div_round(numerator, denominator) {
        Ok(quotient) => quotient,
        Err(e) => {
            return Err(e);
        },
    };
    if max_currency < owed {
        return Err(Error::MaxCurrencyAmountExceeded);
    }
    let raised = match currency_reserve.checked_add(owed) {
        Some(raised) => raised,
        None => {
            return Err(Error::Overflow);
        },
    };
    // Shares are counted on the quotient rounded down, in favour of those
    // who provided before.
    let counted = if rounded {
        owed.saturating_sub(1)
    } else {
        owed
    };
    proof {
        lemma_floor_div_bounds(numerator@ as int, denominator@ as int);
        assert(counted == numerator@ as int / denominator@ as int);
        lemma_product_fits(counted, total_supply);
    }
    let minted = match Wide::from_u128(counted).saturating_mul(
        Wide::from_u128(total_supply),
    ).checked_div(Wide::from_u128(currency_reserve)) {
        Some(minted) => minted,
        None => {
            return Err(Error::Overflow);
        },
    };
    let shares = match minted.to_u128() {
        Some(shares) => shares,
        None => {
            return Err(Error::Overflow);
        },
    };
    match total_supply.checked_add(shares) {
        Some(supply) => Ok(
            Fill {
                currency_amount: owed,
                quantity: shares,
                currency_reserve: raised,
                total_supply: supply,
            },
        ),
        None => Err(Error::Overflow),
    }
}

/// The part of `reserve` that `liquidity` shares out of `total_supply` stand
/// for, rounded down; 0 where it exceeds the largest balance.
fn share_of(liquidity: Balance, reserve: Balance, total_supply: Balance) -> (r: Balance)
    requires
        total_supply > 0,
    ensures
        r == narrow_or_zero((liquidity * reserve) / (total_supply as int)),
{
    proof {
        lemma_product_fits(liquidity, reserve);
        lemma_floor_div_bounds(liquidity * reserve, total_supply as int);
    }
    match Wide::from_u128(liquidity).saturating_mul(Wide::from_u128(reserve)).checked_div(
        Wide::from_u128(total_supply),
    ) {
        Some(part) => match part.to_u128() {
            Some(amount) => amount,
            None => 0,
        },
        None => 0,
    }
}

/// [`remove_step`], computed.
fn remove_one(
    liquidity: Balance,
    min_currency: Balance,
    min_tokens: Balance,
    currency_reserve: Balance,
    total_supply: Balance,
    token_reserve: Balance,
) -> (r: Result<Fill, Error>)
    ensures
        r == remove_step(
            liquidity,
            min_currency,
            min_tokens,
            currency_reserve,
            total_supply,
            token_reserve,
        ),
{
    if total_supply == 0 {
        return Err(Error::NullTotalLiquidity);
    }
    let currency_amount = share_of(liquidity, currency_reserve, total_supply);
    let token_amount = share_of(liquidity, token_reserve, total_supply);
    if currency_amount < min_currency {
        return Err(Error::InsufficientCurrencyAmount);
    }
    if token_amount < min_tokens {
        return Err(Error::InsufficientTokens);
    }
    let supply = match total_supply.checked_sub(liquidity) {
        Some(supply) => supply,
        None => {
            return Err(Error::Overflow);
        },
    };
    proof {
        lemma_share_bounded(liquidity, currency_reserve, total_supply);
    }
    Ok(
        Fill {
            currency_amount,
            quantity: token_amount,
            currency_reserve: currency_reserve - currency_amount,
            total_supply: supply,
        },
    )
}

impl Pallet {
    /// What a deposit into `pool_account` does, given what the vault holds
    /// of each id once the provider's tokens have arrived: the outcome of
    /// each id.
    ///
    /// It fails where no pool is registered under `pool_account`
    /// (`InvalidPoolAccount`), where the ids are not strictly ascending
    /// (`UnsortedOrDuplicateTokenIds`), and where an id fails as [`add_step`]
    /// says.
    pub open spec fn spec_add_liquidity(
        &self,
        pool_account: AccountId,
        ids: Seq<TokenId>,
        token_amounts: Seq<Balance>,
        max_currencies: Seq<Balance>,
        token_reserves: Seq<Balance>,
    ) -> Result<Seq<Fill>, Error> {
        if self.spec_pool(pool_account) is None {
            Err(Error::InvalidPoolAccount)
        } else if !strictly_ascending(ids) {
            Err(Error::UnsortedOrDuplicateTokenIds)
        } else {
            collect(
                add_steps(
                    token_amounts,
                    max_currencies,
                    self.reserves_of(pool_account, ids),
                    self.supplies_of(pool_account, ids),
                    token_reserves,
                ),
                ids.len() as int,
            )
        }
    }

    /// What a withdrawal from `pool_account` does, given what the vault
    /// holds of each id: the outcome of each id.
    ///
    /// It fails where no pool is registered under `pool_account`
    /// (`InvalidPoolAccount`), where the ids are not strictly ascending
    /// (`UnsortedOrDuplicateTokenIds`), and where an id fails as
    /// [`remove_step`] says.
    pub open spec fn spec_remove_liquidity(
        &self,
        pool_account: AccountId,
        ids: Seq<TokenId>,
        liquidities: Seq<Balance>,
        min_currencies: Seq<Balance>,
        min_tokens: Seq<Balance>,
        token_reserves: Seq<Balance>,
    ) -> Result<Seq<Fill>, Error> {
        if self.spec_pool(pool_account) is None {
            Err(Error::InvalidPoolAccount)
        } else if !strictly_ascending(ids) {
            Err(Error::UnsortedOrDuplicateTokenIds)
        } else {
            collect(
                remove_steps(
                    liquidities,
                    min_currencies,
                    min_tokens,
                    self.reserves_of(pool_account, ids),
                    self.supplies_of(pool_account, ids),
                    token_reserves,
                ),
                ids.len() as int,
            )
        }
    }

    /// First half of a deposit by `who`: the tokens go from the provider
    /// into the vault, on the pool's token collection.
    pub fn add_liquidity(
        &self,
        who: &AccountId,
        pool_account: &AccountId,
        token_ids: &Vec<TokenId>,
        token_amounts: &Vec<Balance>,
    ) -> (r: Result<Opening, Error>)
        ensures
            match (r, self.spec_opening(*pool_account, token_ids@)) {
                (Ok(opening), Ok((pool, query))) => {
                    &&& opening.escrow@ == LedgerOpView::TransferTokens {
                        operator: *who,
                        handle: pool.token,
                        from: *who,
                        to: pool.vault,
                        ids: token_ids@,
                        amounts: token_amounts@,
                    }
                    &&& opening.query@ == query
                },
                (Err(e), Err(expected)) => e == expected,
                _ => false,
            },
    {
        let pool = match self.pool(pool_account) {
            Some(pool) => pool,
            None => {
                return Err(Error::InvalidPoolAccount);
            },
        };
        let query = match Pallet::get_token_reserves(&pool.vault, &pool.token, token_ids) {
            Ok(query) => query,
            Err(e) => {
                return Err(e);
            },
        };
        let escrow = LedgerOp::TransferTokens {
            operator: *who,
            handle: pool.token,
            from: *who,
            to: pool.vault,
            ids: copy_of(token_ids),
            amounts: copy_of(token_amounts),
        };
        Ok(Opening { escrow, query })
    }

    /// First half of a withdrawal by `who`: the shares go from the provider
    /// into the vault, on the pool's collection of liquidity shares.
    pub fn remove_liquidity(
        &self,
        who: &AccountId,
        pool_account: &AccountId,
        token_ids: &Vec<TokenId>,
        liquidities: &Vec<Balance>,
    ) -> (r: Result<Opening, Error>)
        ensures
            match (r, self.spec_opening(*pool_account, token_ids@)) {
                (Ok(opening), Ok((pool, query))) => {
                    &&& opening.escrow@ == LedgerOpView::TransferTokens {
                        operator: *who,
                        handle: pool.lp_token,
                        from: *who,
                        to: pool.vault,
                        ids: token_ids@,
                        amounts: liquidities@,
                    }
                    &&& opening.query@ == query
                },
                (Err(e), Err(expected)) => e == expected,
                _ => false,
            },
    {
        let pool = match self.pool(pool_account) {
            Some(pool) => pool,
            None => {
                return Err(Error::InvalidPoolAccount);
            },
        };
        let query = match Pallet::get_token_reserves(&pool.vault, &pool.token, token_ids) {
            Ok(query) => query,
            Err(e) => {
                return Err(e);
            },
        };
        let escrow = LedgerOp::TransferTokens {
            operator: *who,
            handle: pool.lp_token,
            from: *who,
            to: pool.vault,
            ids: copy_of(token_ids),
            amounts: copy_of(liquidities),
        };
        Ok(Opening { escrow, query })
    }

    /// Second half of a deposit: `who` provides `token_amounts[i]` of
    /// `token_ids[i]` for every `i`, with at most `max_currencies[i]` of
    /// currency, and receives shares.
    ///
    /// `token_reserves[i]` is what the vault holds of `token_ids[i]` now that
    /// the provider's tokens are in it. On failure the exchange is left as
    /// it was.
    pub fn do_add_liquidity(
        &mut self,
        who: &AccountId,
        pool_account: &AccountId,
        token_ids: Vec<TokenId>,
        token_amounts: Vec<Balance>,
        max_currencies: Vec<Balance>,
        token_reserves: Vec<Balance>,
    ) -> (r: Result<Settlement, Error>)
        requires
            token_ids.len() == token_amounts.len(),
            token_ids.len() == max_currencies.len(),
            token_ids.len() == token_reserves.len(),
        ensures
            match (
                r,
                old(self).spec_add_liquidity(
                    *pool_account,
                    token_ids@,
                    token_amounts@,
                    max_currencies@,
                    token_reserves@,
                ),
            ) {
                (Ok(settlement), Ok(fills)) => {
                    &&& final(self).books_updated(old(self), *pool_account, token_ids@, fills)
                    &&& old(self).all_backed() ==> final(self).all_backed()
                    &&& settlement.currency_amounts@ == currency_amounts(fills)
                    &&& ops_view(settlement.transfers@) == add_transfers(
                        old(self).spec_pool(*pool_account)->0,
                        *who,
                        token_ids@,
                        fills,
                    )
                    &&& settlement.event@ == EventView::LiquidityAdded(
                        *who,
                        *pool_account,
                        token_ids@,
                        token_amounts@,
                        currency_amounts(fills),
                    )
                },
                (Err(e), Err(expected)) => e == expected && *final(self) == *old(self),
                _ => false,
            },
            old(self).spec_pool(*pool_account) is Some && !strictly_ascending(token_ids@) ==> r
                == Err::<Settlement, Error>(Error::UnsortedOrDuplicateTokenIds),
    {
        let pool = match self.pool(pool_account) {
            Some(pool) => pool,
            None => {
                return Err(Error::InvalidPoolAccount);
            },
        };
        if !is_strictly_ascending(&token_ids) {
            return Err(Error::UnsortedOrDuplicateTokenIds);
        }
        let ghost steps = add_steps(
            token_amounts@,
            max_currencies@,
            self.reserves_of(*pool_account, token_ids@),
            self.supplies_of(*pool_account, token_ids@),
            token_reserves@,
        );
        let n = token_ids.len();
        let mut fills: Vec<Fill> = Vec::new();
        let mut total: Balance = 0;
        let mut i: usize = 0;
        assert(currency_amounts(fills@) =~= Seq::<Balance>::empty());
        while i < n
            invariant
                i <= n,
                n == token_ids.len(),
                n == token_amounts.len(),
                n == max_currencies.len(),
                n == token_reserves.len(),
                *self == *old(self),
                self.spec_pool(*pool_account) == Some(pool),
                strictly_ascending(token_ids@),
                fills@.len() == i,
                steps == add_steps(
                    token_amounts@,
                    max_currencies@,
                    self.reserves_of(*pool_account, token_ids@),
                    self.supplies_of(*pool_account, token_ids@),
                    token_reserves@,
                ),
                collect(steps, i as int) == Ok::<Seq<Fill>, Error>(fills@),
                total == saturating_sum(currency_amounts(fills@)),
            decreases n - i,
        {
            let (currency_reserve, total_supply) = self.market(pool_account, token_ids[i]);
            match add_one(
                token_amounts[i],
                max_currencies[i],
                currency_reserve,
                total_supply,
                token_reserves[i],
            ) {
                Ok(fill) => {
                    proof {
                        lemma_saturating_sum_push(currency_amounts(fills@), fill.currency_amount);
                        assert(currency_amounts(fills@.push(fill)) =~= currency_amounts(
                            fills@,
                        ).push(fill.currency_amount));
                    }
                    total = total.saturating_add(fill.currency_amount);
                    fills.push(fill);
                },
                Err(e) => {
                    proof {
                        lemma_collect_error_stays(steps, i + 1, n as int);
                    }
                    return Err(e);
                },
            }
            i += 1;
        }
        self.commit(pool_account, &token_ids, &fills);
        proof {
            if old(self).all_backed() {
                lemma_add_liquidity_stays_backed(
                    *old(self),
                    *self,
                    *pool_account,
                    token_ids@,
                    token_amounts@,
                    max_currencies@,
                    token_reserves@,
                );
            }
        }
        let mut transfers: Vec<LedgerOp> = Vec::new();
        transfers.push(
            LedgerOp::MintTokens {
                operator: pool.vault,
                handle: pool.lp_token,
                to: *who,
                ids: copy_of(&token_ids),
                amounts: quantities_of(&fills),
            },
        );
        transfers.push(
            LedgerOp::TransferCurrency {
                operator: *who,
                handle: pool.currency,
                from: *who,
                to: pool.vault,
                amount: total,
            },
        );
        assert(ops_view(transfers@) =~= add_transfers(pool, *who, token_ids@, fills@));
        let currency_amounts = currency_amounts_of(&fills);
        let event = Event::LiquidityAdded(
            *who,
            *pool_account,
            token_ids,
            token_amounts,
            copy_of(&currency_amounts),
        );
        Ok(Settlement { currency_amounts, transfers, event })
    }

    /// Second half of a withdrawal: `who` hands back `liquidities[i]` shares
    /// of `token_ids[i]` for every `i`, for at least `min_currencies[i]` of
    /// currency and `min_tokens[i]` tokens.
    ///
    /// `token_reserves[i]` is what the vault holds of `token_ids[i]`. The
    /// shares are in the vault already, to be burnt. On failure the exchange
    /// is left as it was.
    pub fn do_remove_liquidity(
        &mut self,
        who: &AccountId,
        pool_account: &AccountId,
        token_ids: Vec<TokenId>,
        liquidities: Vec<Balance>,
        min_currencies: Vec<Balance>,
        min_tokens: Vec<Balance>,
        token_reserves: Vec<Balance>,
    ) -> (r: Result<Settlement, Error>)
        requires
            token_ids.len() == liquidities.len(),
            token_ids.len() == min_currencies.len(),
            token_ids.len() == min_tokens.len(),
            token_ids.len() == token_reserves.len(),
        ensures
            match (
                r,
                old(self).spec_remove_liquidity(
                    *pool_account,
                    token_ids@,
                    liquidities@,
                    min_currencies@,
                    min_tokens@,
                    token_reserves@,
                ),
            ) {
                (Ok(settlement), Ok(fills)) => {
                    &&& final(self).books_updated(old(self), *pool_account, token_ids@, fills)
                    &&& old(self).all_backed() ==> final(self).all_backed()
                    &&& settlement.currency_amounts@ == currency_amounts(fills)
                    &&& ops_view(settlement.transfers@) == remove_transfers(
                        old(self).spec_pool(*pool_account)->0,
                        *who,
                        token_ids@,
                        liquidities@,
                        fills,
                    )
                    &&& settlement.event@ == EventView::LiquidityRemoved(
                        *who,
                        *pool_account,
                        token_ids@,
                        quantities(fills),
                        currency_amounts(fills),
                    )
                },
                (Err(e), Err(expected)) => e == expected && *final(self) == *old(self),
                _ => false,
            },
            old(self).spec_pool(*pool_account) is Some && !strictly_ascending(token_ids@) ==> r
                == Err::<Settlement, Error>(Error::UnsortedOrDuplicateTokenIds),
    {
        let pool = match self.pool(pool_account) {
            Some(pool) => pool,
            None => {
                return Err(Error::InvalidPoolAccount);
            },
        };
        if !is_strictly_ascending(&token_ids) {
            return Err(Error::UnsortedOrDuplicateTokenIds);
        }
        let ghost steps = remove_steps(
            liquidities@,
            min_currencies@,
            min_tokens@,
            self.reserves_of(*pool_account, token_ids@),
            self.supplies_of(*pool_account, token_ids@),
            token_reserves@,
        );
        let n = token_ids.len();
        let mut fills: Vec<Fill> = Vec::new();
        let mut total: Balance = 0;
        let mut i: usize = 0;
        assert(currency_amounts(fills@) =~= Seq::<Balance>::empty());
        while i < n
            invariant
                i <= n,
                n == token_ids.len(),
                n == liquidities.len(),
                n == min_currencies.len(),
                n == min_tokens.len(),
                n == token_reserves.len(),
                *self == *old(self),
                self.spec_pool(*pool_account) == Some(pool),
                strictly_ascending(token_ids@),
                fills@.len() == i,
                steps == remove_steps(
                    liquidities@,
                    min_currencies@,
                    min_tokens@,
                    self.reserves_of(*pool_account, token_ids@),
                    self.supplies_of(*pool_account, token_ids@),
                    token_reserves@,
                ),
                collect(steps, i as int) == Ok::<Seq<Fill>, Error>(fills@),
                total == saturating_sum(currency_amounts(fills@)),
            decreases n - i,
        {
            let (currency_reserve, total_supply) = self.market(pool_account, token_ids[i]);
            match remove_one(
                liquidities[i],
                min_currencies[i],
                min_tokens[i],
                currency_reserve,
                total_supply,
                token_reserves[i],
            ) {
                Ok(fill) => {
                    proof {
                        lemma_saturating_sum_push(currency_amounts(fills@), fill.currency_amount);
                        assert(currency_amounts(fills@.push(fill)) =~= currency_amounts(
                            fills@,
                        ).push(fill.currency_amount));
                    }
                    total = total.saturating_add(fill.currency_amount);
                    fills.push(fill);
                },
                Err(e) => {
                    proof {
                        lemma_collect_error_stays(steps, i + 1, n as int);
                    }
                    return Err(e);
                },
            }
            i += 1;
        }
        self.commit(pool_account, &token_ids, &fills);
        proof {
            if old(self).all_backed() {
                lemma_remove_liquidity_stays_backed(
                    *old(self),
                    *self,
                    *pool_account,
                    token_ids@,
                    liquidities@,
                    min_currencies@,
                    min_tokens@,
                    token_reserves@,
                );
            }
        }
        let token_amounts = quantities_of(&fills);
        let mut transfers: Vec<LedgerOp> = Vec::new();
        transfers.push(
            LedgerOp::BurnTokens {
                operator: pool.vault,
                handle: pool.lp_token,
                from: pool.vault,
                ids: copy_of(&token_ids),
                amounts: liquidities,
            },
        );
        transfers.push(
            LedgerOp::TransferCurrency {
                operator: pool.vault,
                handle: pool.currency,
                from: pool.vault,
                to: *who,
                amount: total,
            },
        );
        transfers.push(
            LedgerOp::TransferTokens {
                operator: pool.vault,
                handle: pool.token,
                from: pool.vault,
                to: *who,
                ids: copy_of(&token_ids),
                amounts: copy_of(&token_amounts),
            },
        );
        assert(ops_view(transfers@) =~= remove_transfers(
            pool,
            *who,
            token_ids@,
            liquidities@,
            fills@,
        ));
        let currency_amounts = currency_amounts_of(&fills);
        let event = Event::LiquidityRemoved(
            *who,
            *pool_account,
            token_ids,
            token_amounts,
            copy_of(&currency_amounts),
        );
        Ok(Settlement { currency_amounts, transfers, event })
    }
}

} // verus!
