//! The constant-product price formulas with a fee of 0.5 %, rounded in the
//! pool's favour: a buyer pays the quotient rounded up, a seller receives it
//! rounded down.

use vstd::prelude::*;
use vstd::arithmetic::div_mod::{
    lemma_fundamental_div_mod,
    lemma_fundamental_div_mod_converse,
    lemma_mod_pos_bound,
};
use crate::store::Pallet;
use crate::types::{Balance, Error};
use crate::wide::{wide_limit, Wide};

verus! {

/// Of every 1000 units traded, 995 count towards the price.
pub const FEE_NUMERATOR: Balance = 995;

pub const FEE_DENOMINATOR: Balance = 1000;

/// Quotient of `n` by `d`, rounded up. Meant for `n >= 0` and `d > 0`.
pub open spec fn ceil_div(n: int, d: int) -> int {
    if n % d == 0 {
        n / d
    } else {
        n / d + 1
    }
}

/// Dividend of the buy price: `reserve_in * amount_out * 1000`.
pub open spec fn buy_numerator(amount_out: Balance, reserve_in: Balance) -> int {
    reserve_in * amount_out * 1000
}

/// Divisor of the buy price: `(reserve_out - amount_out) * 995`.
pub open spec fn buy_denominator(amount_out: Balance, reserve_out: Balance) -> int {
    (reserve_out - amount_out) * 995
}

/// What it costs, in units of the input side, to take `amount_out` out of a
/// market with the given reserves.
///
/// The price is `buy_numerator / buy_denominator` rounded up. There is none
/// where a reserve is empty (`EmptyReserve`), and none where the market cannot
/// part with `amount_out` or where the price needs more than 128 bits (both
/// `Overflow`).
pub open spec fn spec_buy_price(
    amount_out: Balance,
    reserve_in: Balance,
    reserve_out: Balance,
) -> Result<Balance, Error> {
    if reserve_in == 0 || reserve_out == 0 {
        Err(Error::EmptyReserve)
    } else if amount_out >= reserve_out {
        Err(Error::Overflow)
    } else if ceil_div(
        buy_numerator(amount_out, reserve_in),
        buy_denominator(amount_out, reserve_out),
    ) > u128::MAX {
        Err(Error::Overflow)
    } else {
        Ok(
            ceil_div(
                buy_numerator(amount_out, reserve_in),
                buy_denominator(amount_out, reserve_out),
            ) as Balance,
        )
    }
}

/// Dividend of the sell price: `amount_in * 995 * reserve_out`.
pub open spec fn sell_numerator(amount_in: Balance, reserve_out: Balance) -> int {
    amount_in * 995 * reserve_out
}

/// Divisor of the sell price: `reserve_in * 1000 + amount_in * 995`.
pub open spec fn sell_denominator(amount_in: Balance, reserve_in: Balance) -> int {
    reserve_in * 1000 + amount_in * 995
}

/// What a seller receives, in units of the output side, for putting
/// `amount_in` into a market with the given reserves.
///
/// The proceeds are `sell_numerator / sell_denominator` rounded down; they
/// never exceed `reserve_out`. There are none where a reserve is empty
/// (`EmptyReserve`).
pub open spec fn spec_sell_price(
    amount_in: Balance,
    reserve_in: Balance,
    reserve_out: Balance,
) -> Result<Balance, Error> {
    if reserve_in == 0 || reserve_out == 0 {
        Err(Error::EmptyReserve)
    } else {
        Ok(
            (sell_numerator(amount_in, reserve_out) / sell_denominator(amount_in, reserve_in))
                as Balance,
        )
    }
}

/// The product of two balances fits in 256 bits.
pub proof fn lemma_product_fits(a: Balance, b: Balance)
    ensures
        0 <= a * b < wide_limit(),
{
    assert(0 <= a * b <= 0xffff_ffff_ffff_ffff_ffff_ffff_ffff_ffff
        * 0xffff_ffff_ffff_ffff_ffff_ffff_ffff_ffffint) by (nonlinear_arith)
        requires
            0 <= a <= 0xffff_ffff_ffff_ffff_ffff_ffff_ffff_ffff,
            0 <= b <= 0xffff_ffff_ffff_ffff_ffff_ffff_ffff_ffff,
    ;
}

/// The proceeds of a sale never exceed the reserve they are paid from.
pub proof fn lemma_sell_quotient_bounded(
    amount_in: Balance,
    reserve_in: Balance,
    reserve_out: Balance,
)
    requires
        reserve_in > 0,
    ensures
        0 <= sell_numerator(amount_in, reserve_out) / sell_denominator(amount_in, reserve_in)
            <= reserve_out,
        amount_in == 0 ==> sell_numerator(amount_in, reserve_out) / sell_denominator(
            amount_in,
            reserve_in,
        ) == 0,
        sell_numerator(amount_in, reserve_out) / sell_denominator(amount_in, reserve_in)
            < reserve_out || reserve_out == 0,
{
    let x = amount_in * 995;
    let d = sell_denominator(amount_in, reserve_in);
    let r = reserve_out as int;
    assert(sell_numerator(amount_in, reserve_out) == x * r);
    assert(d > x);
    assert(0 <= (x * r) / d <= r && ((x * r) / d < r || r == 0)) by (nonlinear_arith)
        requires
            0 <= x < d,
            0 <= r,
    {
        // x * r < d * r whenever r > 0, so the quotient stays below r
        if r > 0 {
            assert(x * r < d * r);
            assert((x * r) / d < r);
        } else {
            assert(x * r == 0);
        }
    }
    if amount_in == 0 {
        assert(x * r == 0) by (nonlinear_arith)
            requires
                x == 0,
        ;
    }
}

/// A quotient rounded up, times the divisor, is at least the dividend and
/// less than the dividend plus the divisor.
pub proof fn lemma_ceil_div_bounds(n: int, d: int)
    requires
        n >= 0,
        d > 0,
    ensures
        n <= ceil_div(n, d) * d < n + d,
        ceil_div(n, d) >= 0,
        n > 0 ==> ceil_div(n, d) >= 1,
{
    lemma_fundamental_div_mod(n, d);
    lemma_mod_pos_bound(n, d);
    let q = n / d;
    let c = ceil_div(n, d);
    assert(c * d == if n % d == 0 {
        d * q
    } else {
        d * q + d
    }) by (nonlinear_arith)
        requires
            c == (if n % d == 0 {
                q
            } else {
                q + 1
            }),
    ;
    assert(c >= 0 && (n > 0 ==> c >= 1)) by (nonlinear_arith)
        requires
            n <= c * d < n + d,
            n >= 0,
            d > 0,
    ;
}

/// A quotient rounded down, times the divisor, is at most the dividend and
/// more than the dividend minus the divisor.
pub proof fn lemma_floor_div_bounds(n: int, d: int)
    requires
        n >= 0,
        d > 0,
    ensures
        n - d < (n / d) * d <= n,
        n / d >= 0,
{
    lemma_fundamental_div_mod(n, d);
    lemma_mod_pos_bound(n, d);
    let q = n / d;
    assert(q * d == d * q) by (nonlinear_arith);
    assert(q >= 0) by (nonlinear_arith)
        requires
            n - d < q * d,
            n >= 0,
            d > 0,
    ;
}

/// A purchase never lowers the product of the two reserves.
///
/// Where `cost` is the price of `amount_out` in a market with currency
/// reserve `reserve_in` and token reserve `reserve_out`, the reserves after
/// the purchase, `reserve_in + cost` and `reserve_out - amount_out`, multiply
/// to at least what they did before. Where anything is bought, the buyer pays
/// at least one unit and the product grows.
pub proof fn lemma_buy_keeps_product(
    amount_out: Balance,
    reserve_in: Balance,
    reserve_out: Balance,
    cost: Balance,
)
    requires
        spec_buy_price(amount_out, reserve_in, reserve_out) == Ok::<Balance, Error>(cost),
    ensures
        amount_out < reserve_out,
        (reserve_in + cost) * (reserve_out - amount_out) >= reserve_in * reserve_out,
        amount_out > 0 ==> cost >= 1,
        amount_out > 0 ==> (reserve_in + cost) * (reserve_out - amount_out) > reserve_in
            * reserve_out,
{
    let a = amount_out as int;
    let c = reserve_in as int;
    let t = reserve_out as int;
    let q = cost as int;
    let n = buy_numerator(amount_out, reserve_in);
    let d = buy_denominator(amount_out, reserve_out);
    assert(n >= 0 && (a > 0 ==> n > 0)) by (nonlinear_arith)
        requires
            n == c * a * 1000,
            c > 0,
            a >= 0,
    ;
    lemma_ceil_div_bounds(n, d);
    let u = q * (t - a);
    let v = c * a;
    assert(q * d == 995 * u) by (nonlinear_arith)
        requires
            d == (t - a) * 995,
            u == q * (t - a),
    ;
    assert(n == 1000 * v) by (nonlinear_arith)
        requires
            n == c * a * 1000,
            v == c * a,
    ;
    assert(v >= 0 && (a > 0 ==> v > 0)) by (nonlinear_arith)
        requires
            v == c * a,
            c > 0,
            a >= 0,
    ;
    assert(u >= v);
    assert((c + q) * (t - a) == c * t - v + u) by (nonlinear_arith)
        requires
            u == q * (t - a),
            v == c * a,
    ;
}

/// A sale never lowers the product of the two reserves.
///
/// Where `proceeds` is what a seller receives for `amount_in` in a market
/// with token reserve `reserve_in` and currency reserve `reserve_out`, the
/// proceeds are less than the currency reserve, and the reserves after the
/// sale, `reserve_in + amount_in` and `reserve_out - proceeds`, multiply to at
/// least what they did before; to more, where anything is sold.
pub proof fn lemma_sell_keeps_product(
    amount_in: Balance,
    reserve_in: Balance,
    reserve_out: Balance,
    proceeds: Balance,
)
    requires
        spec_sell_price(amount_in, reserve_in, reserve_out) == Ok::<Balance, Error>(proceeds),
    ensures
        proceeds < reserve_out,
        (reserve_out - proceeds) * (reserve_in + amount_in) >= reserve_out * reserve_in,
        amount_in > 0 ==> (reserve_out - proceeds) * (reserve_in + amount_in) > reserve_out
            * reserve_in,
{
    let a = amount_in as int;
    let t = reserve_in as int;
    let c = reserve_out as int;
    let p = proceeds as int;
    let n = sell_numerator(amount_in, reserve_out);
    let d = sell_denominator(amount_in, reserve_in);
    lemma_sell_quotient_bounded(amount_in, reserve_in, reserve_out);
    assert(n >= 0) by (nonlinear_arith)
        requires
            n == a * 995 * c,
            a >= 0,
            c >= 0,
    ;
    lemma_floor_div_bounds(n, d);
    let x = p * t;
    let y = p * a;
    let z = a * c;
    assert(p * d == 1000 * x + 995 * y) by (nonlinear_arith)
        requires
            d == t * 1000 + a * 995,
            x == p * t,
            y == p * a,
    ;
    assert(n == 995 * z) by (nonlinear_arith)
        requires
            n == a * 995 * c,
            z == a * c,
    ;
    assert(x >= 0 && (p > 0 ==> x > 0)) by (nonlinear_arith)
        requires
            x == p * t,
            p >= 0,
            t > 0,
    ;
    assert(z >= 0 && (a > 0 ==> z > 0)) by (nonlinear_arith)
        requires
            z == a * c,
            a >= 0,
            c > 0,
    ;
    assert((c - p) * (t + a) == c * t + z - x - y) by (nonlinear_arith)
        requires
            x == p * t,
            y == p * a,
            z == a * c,
    ;
    assert(c * t == reserve_out * reserve_in);
}

/// Selling tokens and buying the same amount back costs more than the sale
/// brought in.
///
/// `proceeds` is what the sale of `amount` pays in a market with token
/// reserve `tokens` and currency reserve `currency`; `cost` is the price of
/// buying `amount` back from the market as the sale left it, with reserves
/// `tokens_after` and `currency_after`.
pub proof fn lemma_sell_then_buy_loses(
    amount: Balance,
    tokens: Balance,
    currency: Balance,
    proceeds: Balance,
    tokens_after: Balance,
    currency_after: Balance,
    cost: Balance,
)
    requires
        amount > 0,
        spec_sell_price(amount, tokens, currency) == Ok::<Balance, Error>(proceeds),
        tokens_after == tokens + amount,
        currency_after == currency - proceeds,
        spec_buy_price(amount, currency_after, tokens_after) == Ok::<Balance, Error>(cost),
    ensures
        cost > proceeds,
{
    let a = amount as int;
    let t = tokens as int;
    let c = currency as int;
    let p = proceeds as int;
    let q = cost as int;
    lemma_sell_keeps_product(amount, tokens, currency, proceeds);
    lemma_sell_quotient_bounded(amount, tokens, currency);
    let left = currency_after;
    let total = tokens_after;
    let sn = sell_numerator(amount, currency);
    let sd = sell_denominator(amount, tokens);
    assert(sn >= 0) by (nonlinear_arith)
        requires
            sn == a * 995 * c,
            a >= 0,
            c >= 0,
    ;
    lemma_floor_div_bounds(sn, sd);
    let bn = buy_numerator(amount, left);
    let bd = buy_denominator(amount, total);
    assert(bn > 0) by (nonlinear_arith)
        requires
            bn == (c - p) * a * 1000,
            c - p > 0,
            a > 0,
    ;
    lemma_ceil_div_bounds(bn, bd);
    let x = p * t;
    let y = a * p;
    let z = a * c;
    let k = q * t;
    assert(p * sd == 1000 * x + 995 * y) by (nonlinear_arith)
        requires
            sd == t * 1000 + a * 995,
            x == p * t,
            y == a * p,
    ;
    assert(sn == 995 * z) by (nonlinear_arith)
        requires
            sn == a * 995 * c,
            z == a * c,
    ;
    assert(q * bd == 995 * k) by (nonlinear_arith)
        requires
            bd == (t + a - a) * 995,
            k == q * t,
    ;
    assert(bn == 1000 * z - 1000 * y) by (nonlinear_arith)
        requires
            bn == (c - p) * a * 1000,
            z == a * c,
            y == a * p,
    ;
    if q <= p {
        assert(k <= x) by (nonlinear_arith)
            requires
                k == q * t,
                x == p * t,
                q <= p,
                t > 0,
        ;
        assert(x >= 0 && (p > 0 ==> x > 0)) by (nonlinear_arith)
            requires
                x == p * t,
                p >= 0,
                t > 0,
        ;
        assert(p * sd <= sn);
        assert(q * bd >= bn);
        assert(995 * k >= 1000 * z - 1000 * y);
        assert(995 * z >= 1000 * x + 995 * y);
        assert(x <= 0);
        assert(q >= 1);
        assert(false);
    }
}

/// Buying tokens and selling the same amount back brings in less than the
/// purchase cost.
///
/// `cost` is the price of `amount` in a market with currency reserve
/// `currency` and token reserve `tokens`; `proceeds` is what selling `amount`
/// back pays in the market as the purchase left it, with reserves
/// `currency_after` and `tokens_after`.
pub proof fn lemma_buy_then_sell_loses(
    amount: Balance,
    currency: Balance,
    tokens: Balance,
    cost: Balance,
    currency_after: Balance,
    tokens_after: Balance,
    proceeds: Balance,
)
    requires
        amount > 0,
        spec_buy_price(amount, currency, tokens) == Ok::<Balance, Error>(cost),
        currency_after == currency + cost,
        tokens_after == tokens - amount,
        spec_sell_price(amount, tokens_after, currency_after) == Ok::<Balance, Error>(proceeds),
    ensures
        proceeds < cost,
{
    let a = amount as int;
    let t = tokens as int;
    let c = currency as int;
    let p = proceeds as int;
    let q = cost as int;
    let left = tokens_after;
    let total = currency_after;
    lemma_sell_quotient_bounded(amount, left, total);
    let bn = buy_numerator(amount, currency);
    let bd = buy_denominator(amount, tokens);
    assert(bn > 0) by (nonlinear_arith)
        requires
            bn == c * a * 1000,
            c > 0,
            a > 0,
    ;
    lemma_ceil_div_bounds(bn, bd);
    let sn = sell_numerator(amount, total);
    let sd = sell_denominator(amount, left);
    assert(sn >= 0) by (nonlinear_arith)
        requires
            sn == a * 995 * (c + q),
            a >= 0,
            c + q >= 0,
    ;
    lemma_floor_div_bounds(sn, sd);
    let u = q * (t - a);
    let v = c * a;
    let w = a * q;
    assert(q * bd == 995 * u) by (nonlinear_arith)
        requires
            bd == (t - a) * 995,
            u == q * (t - a),
    ;
    assert(bn == 1000 * v) by (nonlinear_arith)
        requires
            bn == c * a * 1000,
            v == c * a,
    ;
    assert(sn == 995 * v + 995 * w) by (nonlinear_arith)
        requires
            sn == a * 995 * (c + q),
            v == c * a,
            w == a * q,
    ;
    assert(v > 0) by (nonlinear_arith)
        requires
            v == c * a,
            c > 0,
            a > 0,
    ;
    if p >= q {
        assert(p * sd >= 1000 * u + 995 * w) by (nonlinear_arith)
            requires
                sd == (t - a) * 1000 + a * 995,
                u == q * (t - a),
                w == a * q,
                p >= q,
                q >= 0,
                t - a > 0,
                a > 0,
        ;
        assert(p * sd <= sn);
        assert(q * bd >= bn);
        assert(1000 * u + 995 * w <= 995 * v + 995 * w);
        assert(995 * u >= 1000 * v);
        assert(false);
    }
}

/// A product can be divided factor by factor: the quotient of `n * s` by `d`
/// is `s` times the quotient of `n`, plus the quotient of `s` times the
/// remainder of `n`; and both divisions leave the same remainder.
pub proof fn lemma_scaled_division(n: int, s: int, d: int)
    requires
        n >= 0,
        s >= 0,
        d > 0,
    ensures
        (n * s) / d == (n / d) * s + ((n % d) * s) / d,
        (n * s) % d == ((n % d) * s) % d,
        (n / d) * s >= 0,
        ((n % d) * s) / d >= 0,
        0 <= (n % d) * s <= d * s,
{
    let w = n / d;
    let r = n % d;
    lemma_fundamental_div_mod(n, d);
    lemma_mod_pos_bound(n, d);
    lemma_floor_div_bounds(n, d);
    let x = r * s;
    assert(0 <= x <= d * s) by (nonlinear_arith)
        requires
            x == r * s,
            0 <= r < d,
            s >= 0,
    ;
    lemma_fundamental_div_mod(x, d);
    lemma_mod_pos_bound(x, d);
    lemma_floor_div_bounds(x, d);
    let t = x / d;
    let m = x % d;
    assert(n * s == (w * s + t) * d + m) by (nonlinear_arith)
        requires
            n == d * w + r,
            x == r * s,
            x == d * t + m,
    ;
    assert(w * s >= 0) by (nonlinear_arith)
        requires
            w >= 0,
            s >= 0,
    ;
    lemma_fundamental_div_mod_converse(n * s, d, w * s + t, m);
}

/// Divides a product of three factors that need not fit in 256 bits.
///
/// Returns the quotient of `number * scale` by `denominator`, rounded down,
/// and whether the division left a remainder; `None` where the quotient
/// needs more than 256 bits. The product is never formed: the quotient and
/// the remainder of `number` are scaled apart.
fn scaled_quotient(number: Wide, scale: Balance, denominator: Wide) -> (r: Option<(Wide, bool)>)
    requires
        denominator@ > 0,
        denominator@ * scale < wide_limit(),
    ensures
        match r {
            Some((quotient, inexact)) => {
                &&& quotient@ == (number@ * scale) / (denominator@ as int)
                &&& inexact == ((number@ * scale) % (denominator@ as int) != 0)
            },
            None => (number@ * scale) / (denominator@ as int) >= wide_limit(),
        },
{
    proof {
        lemma_scaled_division(number@ as int, scale as int, denominator@ as int);
    }
    let factor = Wide::from_u128(scale);
    let whole = match number.checked_div(denominator) {
        Some(whole) => whole,
        None => {
            return None;
        },
    };
    let rest = match number.checked_rem(denominator) {
        Some(rest) => rest,
        None => {
            return None;
        },
    };
    let scaled = match whole.checked_mul(factor) {
        Some(scaled) => scaled,
        None => {
            return None;
        },
    };
    let scaled_rest = rest.saturating_mul(factor);
    let tail = match scaled_rest.checked_div(denominator) {
        Some(tail) => tail,
        None => {
            return None;
        },
    };
    let tail_rest = match scaled_rest.checked_rem(denominator) {
        Some(tail_rest) => tail_rest,
        None => {
            return None;
        },
    };
    match scaled.checked_add(tail) {
        Some(quotient) => Some((quotient, !tail_rest.is_zero())),
        None => None,
    }
}

/// Divides and rounds up.
///
/// Returns the quotient of `numerator` by `denominator`, rounded up, and
/// whether the division left a remainder. Fails with `Overflow` where the
/// rounded quotient needs more than 128 bits.
pub(crate) fn div_round(numerator: Wide, denominator: Wide) -> (r: Result<(Balance, bool), Error>)
    requires
        denominator@ > 0,
    ensures
        match r {
            Ok((quotient, rounded)) => {
                &&& quotient == ceil_div(numerator@ as int, denominator@ as int)
                &&& rounded == (numerator@ % denominator@ != 0)
            },
            Err(e) => {
                &&& e == Error::Overflow
                &&& ceil_div(numerator@ as int, denominator@ as int) > u128::MAX
            },
        },
{
    let remainder = match numerator.checked_rem(denominator) {
        Some(remainder) => remainder,
        None => {
            return Err(Error::Overflow);
        },
    };
    let quotient = match numerator.checked_div(denominator) {
        Some(quotient) => quotient,
        None => {
            return Err(Error::Overflow);
        },
    };
    if remainder.is_zero() {
        match quotient.to_u128() {
            Some(q) => Ok((q, false)),
            None => Err(Error::Overflow),
        }
    } else {
        let raised = match quotient.checked_add(Wide::one()) {
            Some(raised) => raised,
            None => {
                return Err(Error::Overflow);
            },
        };
        match raised.to_u128() {
            Some(q) => Ok((q, true)),
            None => Err(Error::Overflow),
        }
    }
}

impl Pallet {
    /// The currency a buyer owes for `amount_out` tokens, given the currency
    /// reserve `reserve_in` and the token reserve `reserve_out` of the market.
    pub fn get_buy_price(amount_out: Balance, reserve_in: Balance, reserve_out: Balance) -> (r:
        Result<Balance, Error>)
        ensures
            r == spec_buy_price(amount_out, reserve_in, reserve_out),
    {
        if reserve_in == 0 || reserve_out == 0 {
            return Err(Error::EmptyReserve);
        }
        if amount_out >= reserve_out {
            return Err(Error::Overflow);
        }
        proof {
            lemma_product_fits(reserve_in, amount_out);
        }
        let product = Wide::from_u128(reserve_in).saturating_mul(Wide::from_u128(amount_out));
        let denominator = Wide::from_u128(reserve_out).saturating_sub(
            Wide::from_u128(amount_out),
        ).saturating_mul(Wide::from_u128(FEE_NUMERATOR));
        let (quotient, inexact) = match scaled_quotient(product, FEE_DENOMINATOR, denominator) {
            Some(division) => division,
            None => {
                return Err(Error::Overflow);
            },
        };
        let rounded_up = if inexact {
            match quotient.checked_add(Wide::one()) {
                Some(raised) => raised,
                None => {
                    return Err(Error::Overflow);
                },
            }
        } else {
            quotient
        };
        match rounded_up.to_u128() {
            Some(amount_in) => Ok(amount_in),
            None => Err(Error::Overflow),
        }
    }

    /// The currency a seller receives for `amount_in` tokens, given the token
    /// reserve `reserve_in` and the currency reserve `reserve_out` of the
    /// market.
    pub fn get_sell_price(amount_in: Balance, reserve_in: Balance, reserve_out: Balance) -> (r:
        Result<Balance, Error>)
        ensures
            r == spec_sell_price(amount_in, reserve_in, reserve_out),
    {
        if reserve_in == 0 || reserve_out == 0 {
            return Err(Error::EmptyReserve);
        }
        proof {
            lemma_product_fits(amount_in, reserve_out);
            lemma_sell_quotient_bounded(amount_in, reserve_in, reserve_out);
            assert(sell_numerator(amount_in, reserve_out) == amount_in * reserve_out * 995)
                by (nonlinear_arith);
        }
        let product = Wide::from_u128(amount_in).saturating_mul(Wide::from_u128(reserve_out));
        let amount_in_with_fee = Wide::from_u128(amount_in).saturating_mul(
            Wide::from_u128(FEE_NUMERATOR),
        );
        let denominator = Wide::from_u128(reserve_in).saturating_mul(
            Wide::from_u128(FEE_DENOMINATOR),
        ).saturating_add(amount_in_with_fee);
        let quotient = match scaled_quotient(product, FEE_NUMERATOR, denominator) {
            Some((quotient, _)) => quotient,
            None => {
                return Err(Error::Overflow);
            },
        };
        match quotient.to_u128() {
            Some(amount_out) => Ok(amount_out),
            None => Err(Error::Overflow),
        }
    }
}

} // verus!
