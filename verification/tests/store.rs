use nft_pool::store::{Market, Pallet, PoolEntry};
use nft_pool::types::{AccountId, Config, Pool};

const ALICE: AccountId = AccountId { bytes: [1; 32] };
const BOB: AccountId = AccountId { bytes: [2; 32] };
const CURRENCY: AccountId = AccountId { bytes: [10; 32] };
const TOKEN: AccountId = AccountId { bytes: [11; 32] };
const SHARES: AccountId = AccountId { bytes: [12; 32] };
const VAULT: AccountId = AccountId { bytes: [13; 32] };

fn pool_of(owner: AccountId) -> Pool {
    Pool { owner, currency: CURRENCY, token: TOKEN, lp_token: SHARES, vault: VAULT }
}

fn exchange() -> Pallet {
    Pallet::new(Config { pallet_id: *b"w3g/nftp", create_pool_deposit: 500 })
}

#[test]
fn books_without_a_line_read_as_zero() {
    let mut exchange = exchange();
    exchange.markets.push(Market { pool: ALICE, id: 1, currency_reserve: 7, total_supply: 9 });
    assert_eq!(exchange.currency_reserves(&ALICE, 1), 7);
    assert_eq!(exchange.total_supplies(&ALICE, 1), 9);
    assert_eq!(exchange.currency_reserves(&ALICE, 2), 0);
    assert_eq!(exchange.total_supplies(&ALICE, 2), 0);
    assert_eq!(exchange.currency_reserves(&BOB, 1), 0);
    assert_eq!(exchange.total_supplies(&BOB, 1), 0);
}

#[test]
fn the_first_line_of_a_market_counts() {
    let mut exchange = exchange();
    exchange.markets.push(Market { pool: ALICE, id: 2, currency_reserve: 1, total_supply: 2 });
    exchange.markets.push(Market { pool: ALICE, id: 1, currency_reserve: 7, total_supply: 9 });
    exchange.markets.push(Market { pool: ALICE, id: 1, currency_reserve: 70, total_supply: 90 });
    assert_eq!(exchange.currency_reserves(&ALICE, 1), 7);
    assert_eq!(exchange.total_supplies(&ALICE, 1), 9);
}

#[test]
fn the_first_line_of_a_pool_counts() {
    let mut exchange = exchange();
    assert_eq!(exchange.pool(&ALICE), None);
    exchange.pools.push(PoolEntry { account: BOB, pool: pool_of(BOB) });
    exchange.pools.push(PoolEntry { account: ALICE, pool: pool_of(ALICE) });
    exchange.pools.push(PoolEntry { account: ALICE, pool: pool_of(BOB) });
    assert_eq!(exchange.pool(&ALICE), Some(pool_of(ALICE)));
    assert_eq!(exchange.pool(&BOB), Some(pool_of(BOB)));
    assert_eq!(exchange.pool(&VAULT), None);
}

#[test]
fn operations_rewrite_the_line_that_counts() {
    let mut exchange = exchange();
    exchange.pools.push(PoolEntry { account: ALICE, pool: pool_of(ALICE) });
    exchange.markets.push(Market { pool: ALICE, id: 1, currency_reserve: 1000, total_supply: 300 });
    exchange.markets.push(Market { pool: ALICE, id: 1, currency_reserve: 5, total_supply: 5 });
    exchange
        .do_remove_liquidity(&BOB, &ALICE, vec![1], vec![100], vec![0], vec![0], vec![50])
        .unwrap();
    assert_eq!(exchange.currency_reserves(&ALICE, 1), 667);
    assert_eq!(exchange.total_supplies(&ALICE, 1), 200);
    assert_eq!(
        exchange.markets,
        vec![
            Market { pool: ALICE, id: 1, currency_reserve: 667, total_supply: 200 },
            Market { pool: ALICE, id: 1, currency_reserve: 5, total_supply: 5 },
        ]
    );
}

#[test]
fn operations_add_a_line_where_there_is_none() {
    let mut exchange = exchange();
    exchange.pools.push(PoolEntry { account: ALICE, pool: pool_of(ALICE) });
    exchange
        .do_add_liquidity(&BOB, &ALICE, vec![4], vec![10], vec![1_000_000_000], vec![10])
        .unwrap();
    assert_eq!(
        exchange.markets,
        vec![Market {
            pool: ALICE,
            id: 4,
            currency_reserve: 1_000_000_000,
            total_supply: 1_000_000_000
        }]
    );
}
