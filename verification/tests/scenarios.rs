use nft_pool::ledger::{Event, LedgerOp};
use nft_pool::store::Pallet;
use nft_pool::types::{AccountId, Config, Error};

const ALICE: AccountId = AccountId { bytes: [1; 32] };
const BOB: AccountId = AccountId { bytes: [2; 32] };
const CURRENCY: AccountId = AccountId { bytes: [10; 32] };
const TOKEN: AccountId = AccountId { bytes: [11; 32] };
const SHARES: AccountId = AccountId { bytes: [12; 32] };

fn created() -> (Pallet, AccountId) {
    let mut exchange = Pallet::new(Config { pallet_id: *b"w3g/nftp", create_pool_deposit: 500 });
    exchange.do_create_pool(&ALICE, &CURRENCY, &TOKEN, true, true, &SHARES).unwrap();
    let pool = exchange.pool_account_id(1);
    (exchange, pool)
}

fn seeded() -> (Pallet, AccountId) {
    let (mut exchange, pool) = created();
    exchange
        .do_add_liquidity(&ALICE, &pool, vec![1], vec![1000], vec![1_000_000_000], vec![1000])
        .unwrap();
    (exchange, pool)
}

fn bought() -> (Pallet, AccountId) {
    let (mut exchange, pool) = seeded();
    exchange
        .do_swap_currency_to_token(&BOB, &pool, vec![1], vec![10], 100_000_000, &BOB, vec![1000])
        .unwrap();
    (exchange, pool)
}

fn sold_back() -> (Pallet, AccountId) {
    let (mut exchange, pool) = bought();
    exchange
        .do_swap_token_to_currency(&BOB, &pool, vec![1], vec![10], 1, &BOB, vec![1000])
        .unwrap();
    (exchange, pool)
}

#[test]
fn pool_creation_counts_pays_and_reports() {
    let mut exchange = Pallet::new(Config { pallet_id: *b"w3g/nftp", create_pool_deposit: 500 });
    let vault = exchange.account_id();
    let transfers = exchange.create_pool(&ALICE, true, true).unwrap();
    assert_eq!(transfers[0], LedgerOp::TransferNative { from: ALICE, to: vault, amount: 500 });
    let event = exchange.do_create_pool(&ALICE, &CURRENCY, &TOKEN, true, true, &SHARES).unwrap();
    assert_eq!(exchange.pool_count(), 1);
    assert_eq!(event, Event::PoolCreated(exchange.pool_account_id(1), ALICE));
}

#[test]
fn first_liquidity_for_an_id() {
    let (mut exchange, pool) = created();
    let vault = exchange.account_id();
    let settlement = exchange
        .do_add_liquidity(&ALICE, &pool, vec![1], vec![1000], vec![1_000_000_000], vec![1000])
        .unwrap();
    assert_eq!(exchange.currency_reserves(&pool, 1), 1_000_000_000);
    assert_eq!(exchange.total_supplies(&pool, 1), 1_000_000_000);
    assert_eq!(
        settlement.transfers[0],
        LedgerOp::MintTokens {
            operator: vault,
            handle: SHARES,
            to: ALICE,
            ids: vec![1],
            amounts: vec![1_000_000_000],
        }
    );
}

#[test]
fn first_liquidity_under_the_minimum() {
    let (mut exchange, pool) = seeded();
    let before = exchange.clone();
    assert_eq!(
        exchange.do_add_liquidity(&ALICE, &pool, vec![2], vec![1], vec![999_999_999], vec![1]),
        Err(Error::InvalidCurrencyAmount)
    );
    assert_eq!(exchange, before);
}

#[test]
fn buying_from_the_seeded_pool() {
    let (mut exchange, pool) = seeded();
    let vault = exchange.account_id();
    let settlement = exchange
        .do_swap_currency_to_token(&BOB, &pool, vec![1], vec![10], 100_000_000, &BOB, vec![1000])
        .unwrap();
    assert_eq!(settlement.currency_amounts, vec![10_151_769]);
    assert_eq!(
        settlement.transfers,
        vec![
            LedgerOp::TransferCurrency {
                operator: vault,
                handle: CURRENCY,
                from: vault,
                to: BOB,
                amount: 89_848_231,
            },
            LedgerOp::TransferTokens {
                operator: vault,
                handle: TOKEN,
                from: vault,
                to: BOB,
                ids: vec![1],
                amounts: vec![10],
            },
        ]
    );
    assert_eq!(
        settlement.event,
        Event::SwapCurrencyToToken(BOB, pool, vec![1], vec![10], 10_151_769, BOB)
    );
    assert_eq!(exchange.currency_reserves(&pool, 1), 1_010_151_769);
}

#[test]
fn selling_back_to_the_pool() {
    let (mut exchange, pool) = bought();
    let settlement = exchange
        .do_swap_token_to_currency(&BOB, &pool, vec![1], vec![10], 1, &BOB, vec![1000])
        .unwrap();
    // 9950 * 1_010_151_769 / 999_950, rounded down
    assert_eq!(settlement.currency_amounts, vec![10_051_512]);
    assert!(settlement.currency_amounts[0] < 10_151_769);
    assert_eq!(exchange.currency_reserves(&pool, 1), 1_000_100_257);
}

#[test]
fn descending_ids_in_a_purchase() {
    let (mut exchange, pool) = seeded();
    let before = exchange.clone();
    assert_eq!(
        exchange.swap_currency_to_token(&BOB, &pool, &vec![2, 1], 100_000_000),
        Err(Error::UnsortedOrDuplicateTokenIds)
    );
    assert_eq!(
        exchange.do_swap_currency_to_token(
            &BOB,
            &pool,
            vec![2, 1],
            vec![10, 10],
            100_000_000,
            &BOB,
            vec![1000, 1000]
        ),
        Err(Error::UnsortedOrDuplicateTokenIds)
    );
    assert_eq!(exchange, before);
}

#[test]
fn removing_all_liquidity_after_the_swaps() {
    let (mut exchange, pool) = sold_back();
    let settlement = exchange
        .do_remove_liquidity(
            &ALICE,
            &pool,
            vec![1],
            vec![1_000_000_000],
            vec![1_000_000_000],
            vec![1000],
            vec![1000],
        )
        .unwrap();
    // the fees of both swaps have accrued to the provider
    assert_eq!(
        settlement.event,
        Event::LiquidityRemoved(ALICE, pool, vec![1], vec![1000], vec![1_000_100_257])
    );
    assert_eq!(exchange.currency_reserves(&pool, 1), 0);
    assert_eq!(exchange.total_supplies(&pool, 1), 0);
}

#[test]
fn swaps_never_lower_the_product_of_the_reserves() {
    let (before, pool) = seeded();
    let (after_purchase, _) = bought();
    let (after_sale, _) = sold_back();
    let start = before.currency_reserves(&pool, 1) * 1000;
    let middle = after_purchase.currency_reserves(&pool, 1) * 990;
    let end = after_sale.currency_reserves(&pool, 1) * 1000;
    assert!(middle > start);
    assert!(end > middle);
}

#[test]
fn shares_stay_backed_through_every_operation() {
    for (exchange, pool) in [seeded(), bought(), sold_back()] {
        assert!(exchange.total_supplies(&pool, 1) > 0);
        assert!(exchange.currency_reserves(&pool, 1) > 0);
    }
}

#[test]
fn purchases_raise_and_sales_lower_the_currency_reserve() {
    let (seeded, pool) = seeded();
    let (bought, _) = bought();
    let (sold_back, _) = sold_back();
    assert!(bought.currency_reserves(&pool, 1) > seeded.currency_reserves(&pool, 1));
    assert!(sold_back.currency_reserves(&pool, 1) < bought.currency_reserves(&pool, 1));
    // shares are untouched by swaps
    assert_eq!(bought.total_supplies(&pool, 1), seeded.total_supplies(&pool, 1));
    assert_eq!(sold_back.total_supplies(&pool, 1), seeded.total_supplies(&pool, 1));
}

#[test]
fn purchase_spends_the_sum_of_the_prices_and_refunds_the_rest() {
    let (mut exchange, pool) = seeded();
    exchange
        .do_add_liquidity(&ALICE, &pool, vec![2], vec![500], vec![2_000_000_000], vec![500])
        .unwrap();
    let first = Pallet::get_buy_price(10, 1_000_000_000, 1000).unwrap();
    let second = Pallet::get_buy_price(5, 2_000_000_000, 500).unwrap();
    let settlement = exchange
        .do_swap_currency_to_token(
            &BOB,
            &pool,
            vec![1, 2],
            vec![10, 5],
            100_000_000,
            &BOB,
            vec![1000, 500],
        )
        .unwrap();
    assert_eq!(settlement.currency_amounts, vec![first, second]);
    let spent = first + second;
    assert!(spent <= 100_000_000);
    match (&settlement.transfers[0], &settlement.event) {
        (
            LedgerOp::TransferCurrency { amount, .. },
            Event::SwapCurrencyToToken(_, _, _, _, reported, _),
        ) => {
            assert_eq!(*reported, spent);
            assert_eq!(*amount, 100_000_000 - spent);
        },
        other => panic!("unexpected settlement {:?}", other),
    }
}
