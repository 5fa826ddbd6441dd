//! What holds of the exchange whatever is asked of it.
//!
//! Every statement here is about the outcomes that the engines' contracts
//! name, so it holds of every call that succeeds.

use vstd::prelude::*;
use crate::batch::{collect, lemma_collect_ok, Fill};
use crate::liquidity::{
    add_step,
    add_steps,
    lemma_share_bounded,
    remove_step,
    remove_steps,
    MIN_INITIAL_CURRENCY,
};
use crate::pricing::{
    ceil_div,
    lemma_buy_keeps_product,
    lemma_buy_then_sell_loses,
    lemma_ceil_div_bounds,
    lemma_floor_div_bounds,
    lemma_sell_keeps_product,
    lemma_sell_then_buy_loses,
    spec_buy_price,
};
use crate::reader::{lemma_ascending_is_ordered, strictly_ascending};
use crate::store::Pallet;
use crate::swap::{buy_batch, buy_step, lemma_buy_batch_spends, sell_step, sell_steps};
use crate::types::{AccountId, Balance, Error, TokenId};

verus! {

/// A list that names an id twice is not strictly ascending.
pub proof fn lemma_duplicate_is_not_ascending(ids: Seq<TokenId>, a: int, b: int)
    requires
        0 <= a < b < ids.len(),
        ids[a] == ids[b],
    ensures
        !strictly_ascending(ids),
{
    if strictly_ascending(ids) {
        lemma_ascending_is_ordered(ids, a, b);
    }
}

/// A purchase raises the currency reserve of every id it touches and never
/// lowers the product of the id's two reserves.
///
/// `tokens[i]` is what the vault holds of id `i` before the purchase, so it
/// holds `tokens[i] - amounts[i]` after it.
pub proof fn lemma_purchase_keeps_products(
    amounts: Seq<Balance>,
    reserves: Seq<Balance>,
    supplies: Seq<Balance>,
    tokens: Seq<Balance>,
    budget: Balance,
    k: int,
)
    requires
        0 <= k,
        buy_batch(amounts, reserves, supplies, tokens, budget, k) is Ok,
    ensures
        ({
            let (fills, refund) = buy_batch(amounts, reserves, supplies, tokens, budget, k)->Ok_0;
            forall|i: int|
                #![trigger fills[i]]
                #![trigger amounts[i]]
                0 <= i < k ==> {
                    &&& 0 < amounts[i]
                    &&& amounts[i] < tokens[i]
                    &&& fills[i].currency_reserve > reserves[i]
                    &&& fills[i].currency_reserve * (tokens[i] - amounts[i]) > reserves[i]
                        * tokens[i]
                }
        }),
{
    lemma_buy_batch_spends(amounts, reserves, supplies, tokens, budget, k);
    let (fills, refund) = buy_batch(amounts, reserves, supplies, tokens, budget, k)->Ok_0;
    assert forall|i: int| #![trigger fills[i]]
                #![trigger amounts[i]] 0 <= i < k implies {
        &&& 0 < amounts[i]
        &&& amounts[i] < tokens[i]
        &&& fills[i].currency_reserve > reserves[i]
        &&& fills[i].currency_reserve * (tokens[i] - amounts[i]) > reserves[i] * tokens[i]
    } by {
        lemma_buy_keeps_product(amounts[i], reserves[i], tokens[i], fills[i].currency_amount);
    }
}

/// A sale never raises the currency reserve of an id it touches, never
/// empties it, and never lowers the product of the id's two reserves.
///
/// `tokens[i]` is what the vault holds of id `i` once the seller's tokens
/// have arrived, so it held `tokens[i] - amounts[i]` before the sale.
pub proof fn lemma_sale_keeps_products(
    amounts: Seq<Balance>,
    reserves: Seq<Balance>,
    supplies: Seq<Balance>,
    tokens: Seq<Balance>,
    k: int,
)
    requires
        0 <= k <= amounts.len(),
        collect(sell_steps(amounts, reserves, supplies, tokens), k) is Ok,
    ensures
        ({
            let fills = collect(sell_steps(amounts, reserves, supplies, tokens), k)->Ok_0;
            forall|i: int|
                #![trigger fills[i]]
                #![trigger amounts[i]]
                0 <= i < k ==> {
                    &&& 0 < amounts[i]
                    &&& amounts[i] < tokens[i]
                    &&& fills[i].currency_reserve + fills[i].currency_amount == reserves[i]
                    &&& 0 < fills[i].currency_reserve <= reserves[i]
                    &&& fills[i].currency_reserve * tokens[i] > reserves[i] * (tokens[i]
                        - amounts[i])
                }
        }),
{
    let steps = sell_steps(amounts, reserves, supplies, tokens);
    lemma_collect_ok(steps, k);
    let fills = collect(steps, k)->Ok_0;
    assert forall|i: int| #![trigger fills[i]]
                #![trigger amounts[i]] 0 <= i < k implies {
        &&& 0 < amounts[i]
        &&& amounts[i] < tokens[i]
        &&& fills[i].currency_reserve + fills[i].currency_amount == reserves[i]
        &&& 0 < fills[i].currency_reserve <= reserves[i]
        &&& fills[i].currency_reserve * tokens[i] > reserves[i] * (tokens[i] - amounts[i])
    } by {
        assert(steps[i] == Ok::<Fill, Error>(fills[i]));
        assert(steps[i] == sell_step(amounts[i], reserves[i], supplies[i], tokens[i]));
        let before = (tokens[i] - amounts[i]) as Balance;
        lemma_sell_keeps_product(amounts[i], before, reserves[i], fills[i].currency_amount);
    }
}

/// Whoever sells tokens to a market and buys the same amount back pays more
/// than the sale brought in: the fee of both legs stays in the pool.
///
/// `token_reserve` is what the vault holds of the id once the seller's
/// tokens have arrived, which is also what it holds when they are bought
/// back.
pub proof fn lemma_sale_then_purchase_loses(
    amount: Balance,
    currency_reserve: Balance,
    total_supply: Balance,
    token_reserve: Balance,
    budget: Balance,
    sale: Fill,
    purchase: Fill,
)
    requires
        sell_step(amount, currency_reserve, total_supply, token_reserve) == Ok::<Fill, Error>(
            sale,
        ),
        buy_step(amount, sale.currency_reserve, sale.total_supply, token_reserve, budget) == Ok::<
            Fill,
            Error,
        >(purchase),
    ensures
        purchase.currency_amount > sale.currency_amount,
{
    let purchase_price = spec_buy_price(amount, sale.currency_reserve, token_reserve);
    assert(purchase_price is Ok);
    let before = (token_reserve - amount) as Balance;
    lemma_sell_keeps_product(amount, before, currency_reserve, sale.currency_amount);
    lemma_sell_then_buy_loses(
        amount,
        before,
        currency_reserve,
        sale.currency_amount,
        token_reserve,
        sale.currency_reserve,
        purchase.currency_amount,
    );
}

/// Whoever buys tokens from a market and sells the same amount back
/// receives less than the purchase cost.
///
/// `token_reserve` is what the vault holds of the id before the purchase,
/// which is also what it holds once the tokens sold back have arrived.
pub proof fn lemma_purchase_then_sale_loses(
    amount: Balance,
    currency_reserve: Balance,
    total_supply: Balance,
    token_reserve: Balance,
    budget: Balance,
    purchase: Fill,
    sale: Fill,
)
    requires
        buy_step(amount, currency_reserve, total_supply, token_reserve, budget) == Ok::<
            Fill,
            Error,
        >(purchase),
        sell_step(amount, purchase.currency_reserve, purchase.total_supply, token_reserve) == Ok::<
            Fill,
            Error,
        >(sale),
    ensures
        sale.currency_amount < purchase.currency_amount,
{
    assert(spec_buy_price(amount, currency_reserve, token_reserve) is Ok);
    lemma_buy_keeps_product(amount, currency_reserve, token_reserve, purchase.currency_amount);
    let left = (token_reserve - amount) as Balance;
    lemma_buy_then_sell_loses(
        amount,
        currency_reserve,
        token_reserve,
        purchase.currency_amount,
        purchase.currency_reserve,
        left,
        sale.currency_amount,
    );
}

/// A provider never receives more than the shares handed back stand for:
/// of each reserve at most `liquidity / total_supply`, and less than one
/// unit short of it.
pub proof fn lemma_withdrawal_is_proportional(
    liquidity: Balance,
    min_currency: Balance,
    min_tokens: Balance,
    currency_reserve: Balance,
    total_supply: Balance,
    token_reserve: Balance,
    fill: Fill,
)
    requires
        remove_step(
            liquidity,
            min_currency,
            min_tokens,
            currency_reserve,
            total_supply,
            token_reserve,
        ) == Ok::<Fill, Error>(fill),
    ensures
        liquidity <= total_supply,
        fill.currency_amount >= min_currency,
        fill.quantity >= min_tokens,
        fill.currency_amount * total_supply <= liquidity * currency_reserve,
        liquidity * currency_reserve < (fill.currency_amount + 1) * total_supply,
        fill.quantity * total_supply <= liquidity * token_reserve,
        liquidity * token_reserve < (fill.quantity + 1) * total_supply,
        fill.currency_reserve + fill.currency_amount == currency_reserve,
        fill.total_supply + liquidity == total_supply,
{
    let l = liquidity as int;
    let s = total_supply as int;
    let c = currency_reserve as int;
    let t = token_reserve as int;
    lemma_share_bounded(liquidity, currency_reserve, total_supply);
    lemma_share_bounded(liquidity, token_reserve, total_supply);
    assert(l * c >= 0 && l * t >= 0) by (nonlinear_arith)
        requires
            l >= 0,
            c >= 0,
            t >= 0,
    ;
    lemma_floor_div_bounds(l * c, s);
    lemma_floor_div_bounds(l * t, s);
    let qc = (l * c) / s;
    let qt = (l * t) / s;
    assert((qc + 1) * s == qc * s + s && (qt + 1) * s == qt * s + s) by (nonlinear_arith);
}

/// The only provider of a market, handing back every share, receives both
/// reserves whole and leaves the market empty.
pub proof fn lemma_sole_provider_gets_all(
    min_currency: Balance,
    min_tokens: Balance,
    currency_reserve: Balance,
    total_supply: Balance,
    token_reserve: Balance,
)
    requires
        total_supply > 0,
        min_currency <= currency_reserve,
        min_tokens <= token_reserve,
    ensures
        remove_step(
            total_supply,
            min_currency,
            min_tokens,
            currency_reserve,
            total_supply,
            token_reserve,
        ) == Ok::<Fill, Error>(
            Fill {
                currency_amount: currency_reserve,
                quantity: token_reserve,
                currency_reserve: 0,
                total_supply: 0,
            },
        ),
{
    lemma_share_bounded(total_supply, currency_reserve, total_supply);
    lemma_share_bounded(total_supply, token_reserve, total_supply);
}

/// Whoever opens a market and withdraws everything before anyone else has
/// touched it gets back exactly the currency and the tokens provided.
pub proof fn lemma_first_provider_round_trip(
    token_amount: Balance,
    max_currency: Balance,
    provision: Fill,
)
    requires
        add_step(token_amount, max_currency, 0, 0, token_amount) == Ok::<Fill, Error>(provision),
    ensures
        provision.currency_amount == max_currency,
        remove_step(
            provision.quantity,
            0,
            0,
            provision.currency_reserve,
            provision.total_supply,
            token_amount,
        ) == Ok::<Fill, Error>(
            Fill {
                currency_amount: max_currency,
                quantity: token_amount,
                currency_reserve: 0,
                total_supply: 0,
            },
        ),
{
    lemma_sole_provider_gets_all(0, 0, max_currency, max_currency, token_amount);
}

/// A deposit into a market that already has shares brings in at least the
/// currency that matches the tokens deposited, and mints at most the shares
/// that match the currency brought in.
///
/// `token_reserve` is what the vault holds of the id once the provider's
/// tokens have arrived.
pub proof fn lemma_deposit_is_proportional(
    token_amount: Balance,
    max_currency: Balance,
    currency_reserve: Balance,
    total_supply: Balance,
    token_reserve: Balance,
    fill: Fill,
)
    requires
        total_supply > 0,
        add_step(token_amount, max_currency, currency_reserve, total_supply, token_reserve) == Ok::<
            Fill,
            Error,
        >(fill),
    ensures
        token_amount < token_reserve,
        0 < fill.currency_amount <= max_currency,
        fill.currency_amount * (token_reserve - token_amount) >= token_amount * currency_reserve,
        fill.quantity * currency_reserve <= fill.currency_amount * total_supply,
        fill.currency_reserve == currency_reserve + fill.currency_amount,
        fill.total_supply == total_supply + fill.quantity,
{
    let a = token_amount as int;
    let c = currency_reserve as int;
    let s = total_supply as int;
    let n = a * c;
    let d = token_reserve - token_amount;
    assert(n > 0) by (nonlinear_arith)
        requires
            n == a * c,
            a > 0,
            c > 0,
    ;
    lemma_ceil_div_bounds(n, d);
    lemma_floor_div_bounds(n, d);
    let owed = ceil_div(n, d);
    let counted = n / d;
    assert(counted <= owed);
    assert(0 <= counted * s <= owed * s) by (nonlinear_arith)
        requires
            0 <= counted <= owed,
            s > 0,
    ;
    lemma_floor_div_bounds(counted * s, c);
    let shares = (counted * s) / c;
    assert(shares >= 0);
}

/// Every market with shares outstanding has currency behind them.
pub open spec fn backed(currency_reserve: Balance, total_supply: Balance) -> bool {
    total_supply > 0 ==> currency_reserve > 0
}

impl Pallet {
    /// Every market of the exchange with shares outstanding has currency
    /// behind them.
    pub open spec fn all_backed(&self) -> bool {
        forall|pool: AccountId, id: TokenId|
            backed(
                #[trigger] self.spec_currency_reserves(pool, id),
                self.spec_total_supplies(pool, id),
            )
    }
}

/// No operation takes the last currency from behind outstanding shares:
/// where the markets were backed before a batch, they are after it.
pub proof fn lemma_books_stay_backed(
    before: Pallet,
    after: Pallet,
    pool: AccountId,
    ids: Seq<TokenId>,
    fills: Seq<Fill>,
)
    requires
        before.all_backed(),
        after.books_updated(&before, pool, ids, fills),
        forall|i: int|
            0 <= i < ids.len() ==> backed(
                (#[trigger] fills[i]).currency_reserve,
                fills[i].total_supply,
            ),
    ensures
        after.all_backed(),
{
    assert forall|p: AccountId, id: TokenId|
        backed(#[trigger] after.spec_currency_reserves(p, id), after.spec_total_supplies(p, id)) by {
        if p == pool && ids.contains(id) {
            let i = choose|i: int| 0 <= i < ids.len() && ids[i] == id;
            assert(backed(fills[i].currency_reserve, fills[i].total_supply));
            assert(after.spec_currency_reserves(pool, ids[i]) == fills[i].currency_reserve);
        } else {
            assert(backed(before.spec_currency_reserves(p, id), before.spec_total_supplies(p, id)));
        }
    }
}

/// A purchase leaves every market it touches backed.
pub proof fn lemma_purchase_stays_backed(
    amount_out: Balance,
    currency_reserve: Balance,
    total_supply: Balance,
    token_reserve: Balance,
    refund: Balance,
    fill: Fill,
)
    requires
        buy_step(amount_out, currency_reserve, total_supply, token_reserve, refund) == Ok::<
            Fill,
            Error,
        >(fill),
    ensures
        fill.currency_reserve > 0,
        backed(fill.currency_reserve, fill.total_supply),
{
}

/// A sale leaves every market it touches backed.
pub proof fn lemma_sale_stays_backed(
    amount_in: Balance,
    currency_reserve: Balance,
    total_supply: Balance,
    token_reserve: Balance,
    fill: Fill,
)
    requires
        sell_step(amount_in, currency_reserve, total_supply, token_reserve) == Ok::<Fill, Error>(
            fill,
        ),
    ensures
        fill.currency_reserve > 0,
        backed(fill.currency_reserve, fill.total_supply),
{
    let before = if token_reserve >= amount_in {
        (token_reserve - amount_in) as Balance
    } else {
        0
    };
    lemma_sell_keeps_product(amount_in, before, currency_reserve, fill.currency_amount);
}

/// A deposit leaves every market it touches backed, with at least
/// [`MIN_INITIAL_CURRENCY`] behind the shares of a market it opens.
pub proof fn lemma_deposit_stays_backed(
    token_amount: Balance,
    max_currency: Balance,
    currency_reserve: Balance,
    total_supply: Balance,
    token_reserve: Balance,
    fill: Fill,
)
    requires
        add_step(token_amount, max_currency, currency_reserve, total_supply, token_reserve) == Ok::<
            Fill,
            Error,
        >(fill),
    ensures
        fill.currency_reserve > 0,
        fill.total_supply > 0,
        total_supply == 0 ==> fill.currency_reserve >= MIN_INITIAL_CURRENCY,
        backed(fill.currency_reserve, fill.total_supply),
{
    if total_supply > 0 {
        lemma_deposit_is_proportional(
            token_amount,
            max_currency,
            currency_reserve,
            total_supply,
            token_reserve,
            fill,
        );
    }
}

/// A withdrawal leaves a market that was backed, backed.
pub proof fn lemma_withdrawal_stays_backed(
    liquidity: Balance,
    min_currency: Balance,
    min_tokens: Balance,
    currency_reserve: Balance,
    total_supply: Balance,
    token_reserve: Balance,
    fill: Fill,
)
    requires
        backed(currency_reserve, total_supply),
        remove_step(
            liquidity,
            min_currency,
            min_tokens,
            currency_reserve,
            total_supply,
            token_reserve,
        ) == Ok::<Fill, Error>(fill),
    ensures
        backed(fill.currency_reserve, fill.total_supply),
{
    lemma_share_bounded(liquidity, currency_reserve, total_supply);
}

/// A purchase that succeeds leaves an exchange whose markets were backed,
/// backed.
pub proof fn lemma_swap_currency_to_token_stays_backed(
    before: Pallet,
    after: Pallet,
    pool_account: AccountId,
    ids: Seq<TokenId>,
    amounts_out: Seq<Balance>,
    max_currency: Balance,
    token_reserves: Seq<Balance>,
)
    requires
        before.all_backed(),
        before.spec_swap_currency_to_token(
            pool_account,
            ids,
            amounts_out,
            max_currency,
            token_reserves,
        ) matches Ok(outcome) && after.books_updated(&before, pool_account, ids, outcome.0),
    ensures
        after.all_backed(),
{
    let reserves = before.reserves_of(pool_account, ids);
    let supplies = before.supplies_of(pool_account, ids);
    let n = ids.len() as int;
    lemma_purchase_keeps_products(amounts_out, reserves, supplies, token_reserves, max_currency, n);
    let (fills, refund) = buy_batch(
        amounts_out,
        reserves,
        supplies,
        token_reserves,
        max_currency,
        n,
    )->Ok_0;
    lemma_books_stay_backed(before, after, pool_account, ids, fills);
}

/// A sale that succeeds leaves an exchange whose markets were backed,
/// backed.
pub proof fn lemma_swap_token_to_currency_stays_backed(
    before: Pallet,
    after: Pallet,
    pool_account: AccountId,
    ids: Seq<TokenId>,
    amounts_in: Seq<Balance>,
    min_currency: Balance,
    token_reserves: Seq<Balance>,
)
    requires
        before.all_backed(),
        ids.len() == amounts_in.len(),
        before.spec_swap_token_to_currency(
            pool_account,
            ids,
            amounts_in,
            min_currency,
            token_reserves,
        ) matches Ok(fills) && after.books_updated(&before, pool_account, ids, fills),
    ensures
        after.all_backed(),
{
    let reserves = before.reserves_of(pool_account, ids);
    let supplies = before.supplies_of(pool_account, ids);
    let n = ids.len() as int;
    lemma_sale_keeps_products(amounts_in, reserves, supplies, token_reserves, n);
    let fills = collect(sell_steps(amounts_in, reserves, supplies, token_reserves), n)->Ok_0;
    lemma_books_stay_backed(before, after, pool_account, ids, fills);
}

/// A deposit that succeeds leaves an exchange whose markets were backed,
/// backed.
pub proof fn lemma_add_liquidity_stays_backed(
    before: Pallet,
    after: Pallet,
    pool_account: AccountId,
    ids: Seq<TokenId>,
    token_amounts: Seq<Balance>,
    max_currencies: Seq<Balance>,
    token_reserves: Seq<Balance>,
)
    requires
        before.all_backed(),
        ids.len() == token_amounts.len(),
        before.spec_add_liquidity(
            pool_account,
            ids,
            token_amounts,
            max_currencies,
            token_reserves,
        ) matches Ok(fills) && after.books_updated(&before, pool_account, ids, fills),
    ensures
        after.all_backed(),
{
    let reserves = before.reserves_of(pool_account, ids);
    let supplies = before.supplies_of(pool_account, ids);
    let n = ids.len() as int;
    let steps = add_steps(token_amounts, max_currencies, reserves, supplies, token_reserves);
    lemma_collect_ok(steps, n);
    let fills = collect(steps, n)->Ok_0;
    assert forall|i: int| 0 <= i < n implies backed(
        (#[trigger] fills[i]).currency_reserve,
        fills[i].total_supply,
    ) by {
        assert(steps[i] == Ok::<Fill, Error>(fills[i]));
        lemma_deposit_stays_backed(
            token_amounts[i],
            max_currencies[i],
            reserves[i],
            supplies[i],
            token_reserves[i],
            fills[i],
        );
    }
    lemma_books_stay_backed(before, after, pool_account, ids, fills);
}

/// A withdrawal that succeeds leaves an exchange whose markets were backed,
/// backed.
pub proof fn lemma_remove_liquidity_stays_backed(
    before: Pallet,
    after: Pallet,
    pool_account: AccountId,
    ids: Seq<TokenId>,
    liquidities: Seq<Balance>,
    min_currencies: Seq<Balance>,
    min_tokens: Seq<Balance>,
    token_reserves: Seq<Balance>,
)
    requires
        before.all_backed(),
        ids.len() == liquidities.len(),
        before.spec_remove_liquidity(
            pool_account,
            ids,
            liquidities,
            min_currencies,
            min_tokens,
            token_reserves,
        ) matches Ok(fills) && after.books_updated(&before, pool_account, ids, fills),
    ensures
        after.all_backed(),
{
    let reserves = before.reserves_of(pool_account, ids);
    let supplies = before.supplies_of(pool_account, ids);
    let n = ids.len() as int;
    let steps = remove_steps(
        liquidities,
        min_currencies,
        min_tokens,
        reserves,
        supplies,
        token_reserves,
    );
    lemma_collect_ok(steps, n);
    let fills = collect(steps, n)->Ok_0;
    assert forall|i: int| 0 <= i < n implies backed(
        (#[trigger] fills[i]).currency_reserve,
        fills[i].total_supply,
    ) by {
        assert(steps[i] == Ok::<Fill, Error>(fills[i]));
        assert(backed(
            before.spec_currency_reserves(pool_account, ids[i]),
            before.spec_total_supplies(pool_account, ids[i]),
        ));
        lemma_withdrawal_stays_backed(
            liquidities[i],
            min_currencies[i],
            min_tokens[i],
            reserves[i],
            supplies[i],
            token_reserves[i],
            fills[i],
        );
    }
    lemma_books_stay_backed(before, after, pool_account, ids, fills);
}

/// After a purchase that succeeds, every id it touched has a larger
/// currency reserve than before, and the product of its currency reserve
/// and of what the vault holds of it once the tokens bought have left is
/// larger than before.
pub proof fn lemma_swap_currency_to_token_keeps_products(
    before: Pallet,
    after: Pallet,
    pool_account: AccountId,
    ids: Seq<TokenId>,
    amounts_out: Seq<Balance>,
    max_currency: Balance,
    token_reserves: Seq<Balance>,
)
    requires
        before.spec_swap_currency_to_token(
            pool_account,
            ids,
            amounts_out,
            max_currency,
            token_reserves,
        ) matches Ok(outcome) && after.books_updated(&before, pool_account, ids, outcome.0),
    ensures
        forall|i: int|
            #![trigger ids[i]]
            0 <= i < ids.len() ==> {
                &&& 0 < amounts_out[i]
                &&& amounts_out[i] < token_reserves[i]
                &&& after.spec_currency_reserves(pool_account, ids[i])
                    > before.spec_currency_reserves(pool_account, ids[i])
                &&& after.spec_currency_reserves(pool_account, ids[i]) * (token_reserves[i]
                    - amounts_out[i]) > before.spec_currency_reserves(pool_account, ids[i])
                    * token_reserves[i]
                &&& after.spec_total_supplies(pool_account, ids[i]) == before.spec_total_supplies(
                    pool_account,
                    ids[i],
                )
            },
{
    let reserves = before.reserves_of(pool_account, ids);
    let supplies = before.supplies_of(pool_account, ids);
    let n = ids.len() as int;
    lemma_buy_batch_spends(amounts_out, reserves, supplies, token_reserves, max_currency, n);
    lemma_purchase_keeps_products(amounts_out, reserves, supplies, token_reserves, max_currency, n);
    let (fills, refund) = buy_batch(
        amounts_out,
        reserves,
        supplies,
        token_reserves,
        max_currency,
        n,
    )->Ok_0;
    assert forall|i: int| #![trigger ids[i]] 0 <= i < ids.len() implies {
        &&& 0 < amounts_out[i]
        &&& amounts_out[i] < token_reserves[i]
        &&& after.spec_currency_reserves(pool_account, ids[i]) > before.spec_currency_reserves(
            pool_account,
            ids[i],
        )
        &&& after.spec_currency_reserves(pool_account, ids[i]) * (token_reserves[i]
            - amounts_out[i]) > before.spec_currency_reserves(pool_account, ids[i])
            * token_reserves[i]
        &&& after.spec_total_supplies(pool_account, ids[i]) == before.spec_total_supplies(
            pool_account,
            ids[i],
        )
    } by {
        assert(after.spec_currency_reserves(pool_account, ids[i]) == fills[i].currency_reserve);
        assert(reserves[i] == before.spec_currency_reserves(pool_account, ids[i]));
        assert(supplies[i] == before.spec_total_supplies(pool_account, ids[i]));
    }
}

/// After a sale that succeeds, no id it touched has a larger currency
/// reserve than before, none has an empty one, and the product of its
/// currency reserve and of what the vault holds of it, now that the tokens
/// sold are in, is larger than before.
///
/// `token_reserves[i]` is what the vault holds of id `i` once the seller's
/// tokens have arrived.
pub proof fn lemma_swap_token_to_currency_keeps_products(
    before: Pallet,
    after: Pallet,
    pool_account: AccountId,
    ids: Seq<TokenId>,
    amounts_in: Seq<Balance>,
    min_currency: Balance,
    token_reserves: Seq<Balance>,
)
    requires
        ids.len() == amounts_in.len(),
        before.spec_swap_token_to_currency(
            pool_account,
            ids,
            amounts_in,
            min_currency,
            token_reserves,
        ) matches Ok(fills) && after.books_updated(&before, pool_account, ids, fills),
    ensures
        forall|i: int|
            #![trigger ids[i]]
            0 <= i < ids.len() ==> {
                &&& 0 < amounts_in[i]
                &&& amounts_in[i] < token_reserves[i]
                &&& 0 < after.spec_currency_reserves(pool_account, ids[i])
                &&& after.spec_currency_reserves(pool_account, ids[i])
                    <= before.spec_currency_reserves(pool_account, ids[i])
                &&& after.spec_currency_reserves(pool_account, ids[i]) * token_reserves[i]
                    > before.spec_currency_reserves(pool_account, ids[i]) * (token_reserves[i]
                    - amounts_in[i])
                &&& after.spec_total_supplies(pool_account, ids[i]) == before.spec_total_supplies(
                    pool_account,
                    ids[i],
                )
            },
{
    let reserves = before.reserves_of(pool_account, ids);
    let supplies = before.supplies_of(pool_account, ids);
    let n = ids.len() as int;
    let steps = sell_steps(amounts_in, reserves, supplies, token_reserves);
    lemma_collect_ok(steps, n);
    lemma_sale_keeps_products(amounts_in, reserves, supplies, token_reserves, n);
    let fills = collect(steps, n)->Ok_0;
    assert forall|i: int| #![trigger ids[i]] 0 <= i < ids.len() implies {
        &&& 0 < amounts_in[i]
        &&& amounts_in[i] < token_reserves[i]
        &&& 0 < after.spec_currency_reserves(pool_account, ids[i])
        &&& after.spec_currency_reserves(pool_account, ids[i]) <= before.spec_currency_reserves(
            pool_account,
            ids[i],
        )
        &&& after.spec_currency_reserves(pool_account, ids[i]) * token_reserves[i]
            > before.spec_currency_reserves(pool_account, ids[i]) * (token_reserves[i]
            - amounts_in[i])
        &&& after.spec_total_supplies(pool_account, ids[i]) == before.spec_total_supplies(
            pool_account,
            ids[i],
        )
    } by {
        assert(after.spec_currency_reserves(pool_account, ids[i]) == fills[i].currency_reserve);
        assert(reserves[i] == before.spec_currency_reserves(pool_account, ids[i]));
        assert(supplies[i] == before.spec_total_supplies(pool_account, ids[i]));
        assert(steps[i] == Ok::<Fill, Error>(fills[i]));
    }
}

} // verus!
