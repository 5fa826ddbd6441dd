use nft_pool::pricing::{FEE_DENOMINATOR, FEE_NUMERATOR};
use nft_pool::store::Pallet;
use nft_pool::types::Error;

#[test]
fn fee_is_half_a_percent() {
    assert_eq!(FEE_NUMERATOR, 995);
    assert_eq!(FEE_DENOMINATOR, 1000);
}

#[test]
fn buy_price_rounds_up() {
    // 1_000_000_000 * 10 * 1000 / ((1000 - 10) * 995) = 10_151_768.9...
    assert_eq!(Pallet::get_buy_price(10, 1_000_000_000, 1000), Ok(10_151_769));
}

#[test]
fn buy_price_of_an_exact_quotient_is_not_raised() {
    // 199 * 5 * 1000 / ((6 - 5) * 995) = 1000
    assert_eq!(Pallet::get_buy_price(5, 199, 6), Ok(1000));
    // one unit more in the dividend's factor and the quotient is raised
    assert_eq!(Pallet::get_buy_price(5, 200, 6), Ok(1006));
}

#[test]
fn buy_price_of_nothing_is_nothing() {
    assert_eq!(Pallet::get_buy_price(0, 1_000_000_000, 1000), Ok(0));
}

#[test]
fn buy_price_needs_both_reserves() {
    assert_eq!(Pallet::get_buy_price(10, 0, 1000), Err(Error::EmptyReserve));
    assert_eq!(Pallet::get_buy_price(10, 1000, 0), Err(Error::EmptyReserve));
    assert_eq!(Pallet::get_buy_price(0, 0, 0), Err(Error::EmptyReserve));
}

#[test]
fn buy_price_of_the_whole_reserve_overflows() {
    assert_eq!(Pallet::get_buy_price(1000, 1_000_000_000, 1000), Err(Error::Overflow));
    assert_eq!(Pallet::get_buy_price(1001, 1_000_000_000, 1000), Err(Error::Overflow));
    assert_eq!(Pallet::get_buy_price(u128::MAX, 1, 1), Err(Error::Overflow));
}

#[test]
fn buy_price_beyond_128_bits_overflows() {
    // The price would be about 2^128 * 1000 / 995.
    assert_eq!(Pallet::get_buy_price(1, u128::MAX, 2), Err(Error::Overflow));
}

#[test]
fn buy_price_far_beyond_128_bits_overflows() {
    assert_eq!(
        Pallet::get_buy_price(u128::MAX - 1, u128::MAX, u128::MAX),
        Err(Error::Overflow)
    );
}

#[test]
fn buy_price_is_exact_where_the_dividend_exceeds_256_bits() {
    // 2^127 * 2^126 * 1000 is beyond 256 bits; the price is
    // 2^127 * 1000 / 995, rounded up.
    assert_eq!(
        Pallet::get_buy_price(1 << 126, 1 << 127, 1 << 127),
        Ok(170_996_164_281_878_624_855_967_139_412_948_849_978)
    );
}

#[test]
fn buy_price_uses_all_256_bits() {
    // reserve_in * amount_out is 2^192, far beyond 128 bits; the price is
    // 2^192 * 1000 / ((2^127 - 2^64) * 995), rounded up.
    let reserve_in = 1u128 << 96;
    let amount_out = 1u128 << 96;
    let reserve_out = (1u128 << 127) + amount_out - (1u128 << 64);
    assert_eq!(
        Pallet::get_buy_price(amount_out, reserve_in, reserve_out),
        Ok(37_078_882_560_220_204_258)
    );
}

#[test]
fn sell_price_rounds_down() {
    // 10 * 995 * 1_010_151_769 / (990 * 1000 + 10 * 995) = 10_051_512.6...
    assert_eq!(Pallet::get_sell_price(10, 990, 1_010_151_769), Ok(10_051_512));
}

#[test]
fn sell_price_of_an_exact_quotient() {
    // 1000 * 995 * 1995 / (1000 * 1000 + 1000 * 995) = 995
    assert_eq!(Pallet::get_sell_price(1000, 1000, 1995), Ok(995));
}

#[test]
fn sell_price_of_nothing_is_nothing() {
    assert_eq!(Pallet::get_sell_price(0, 990, 1_010_151_769), Ok(0));
}

#[test]
fn sell_price_of_a_crumb_rounds_to_nothing() {
    assert_eq!(Pallet::get_sell_price(1, 1_000_000, 1), Ok(0));
}

#[test]
fn sell_price_needs_both_reserves() {
    assert_eq!(Pallet::get_sell_price(10, 0, 1000), Err(Error::EmptyReserve));
    assert_eq!(Pallet::get_sell_price(10, 1000, 0), Err(Error::EmptyReserve));
}

#[test]
fn sell_price_stays_below_the_reserve() {
    assert_eq!(Pallet::get_sell_price(u128::MAX >> 12, 1, 1000), Ok(999));
}

#[test]
fn sell_price_is_exact_where_the_dividend_exceeds_256_bits() {
    // MAX * 995 * MAX / (1000 + MAX * 995), rounded down
    assert_eq!(Pallet::get_sell_price(u128::MAX, 1, u128::MAX), Ok(u128::MAX - 2));
}

#[test]
fn sell_price_adds_the_fee_weighted_amount_to_the_divisor() {
    // 4 * 995 * 3000 / (2 * 1000 + 4 * 995) = 11_940_000 / 5980 = 1996.6...
    assert_eq!(Pallet::get_sell_price(4, 2, 3000), Ok(1996));
}

#[test]
fn selling_back_brings_less_than_buying_cost() {
    let cost = Pallet::get_buy_price(10, 1_000_000_000, 1000).unwrap();
    let proceeds = Pallet::get_sell_price(10, 990, 1_000_000_000 + cost).unwrap();
    assert!(proceeds < cost);
}

#[test]
fn buying_back_costs_more_than_selling_brought() {
    let proceeds = Pallet::get_sell_price(10, 1000, 1_000_000_000).unwrap();
    let cost = Pallet::get_buy_price(10, 1_000_000_000 - proceeds, 1010).unwrap();
    assert!(cost > proceeds);
}
