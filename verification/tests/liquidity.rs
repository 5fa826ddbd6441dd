use nft_pool::ledger::{BalanceQuery, Event, LedgerOp, Opening, Settlement};
use nft_pool::liquidity::MIN_INITIAL_CURRENCY;
use nft_pool::store::{Market, Pallet};
use nft_pool::types::{AccountId, Config, Error};

const ALICE: AccountId = AccountId { bytes: [1; 32] };
const BOB: AccountId = AccountId { bytes: [2; 32] };
const CURRENCY: AccountId = AccountId { bytes: [10; 32] };
const TOKEN: AccountId = AccountId { bytes: [11; 32] };
const SHARES: AccountId = AccountId { bytes: [12; 32] };

/// An exchange with one pool and the given (id, currency reserve, shares).
fn exchange_with(markets: &[(u128, u128, u128)]) -> (Pallet, AccountId, AccountId) {
    let mut exchange = Pallet::new(Config { pallet_id: *b"w3g/nftp", create_pool_deposit: 500 });
    exchange.do_create_pool(&ALICE, &CURRENCY, &TOKEN, true, true, &SHARES).unwrap();
    let pool = exchange.pool_account_id(1);
    for &(id, currency_reserve, total_supply) in markets {
        exchange.markets.push(Market { pool, id, currency_reserve, total_supply });
    }
    let vault = exchange.account_id();
    (exchange, pool, vault)
}

#[test]
fn least_initial_currency() {
    assert_eq!(MIN_INITIAL_CURRENCY, 1_000_000_000);
}

#[test]
fn deposit_opens_with_the_tokens() {
    let (exchange, pool, vault) = exchange_with(&[]);
    assert_eq!(
        exchange.add_liquidity(&BOB, &pool, &vec![1, 2], &vec![30, 40]),
        Ok(Opening {
            escrow: LedgerOp::TransferTokens {
                operator: BOB,
                handle: TOKEN,
                from: BOB,
                to: vault,
                ids: vec![1, 2],
                amounts: vec![30, 40],
            },
            query: BalanceQuery::Batch {
                handle: TOKEN,
                holders: vec![vault, vault],
                ids: vec![1, 2],
            },
        })
    );
}

#[test]
fn deposit_does_not_open_on_bad_requests() {
    let (exchange, pool, _) = exchange_with(&[]);
    assert_eq!(
        exchange.add_liquidity(&BOB, &BOB, &vec![1], &vec![30]),
        Err(Error::InvalidPoolAccount)
    );
    assert_eq!(
        exchange.add_liquidity(&BOB, &pool, &vec![2, 1], &vec![30, 40]),
        Err(Error::UnsortedOrDuplicateTokenIds)
    );
}

#[test]
fn withdrawal_opens_with_the_shares() {
    let (exchange, pool, vault) = exchange_with(&[]);
    assert_eq!(
        exchange.remove_liquidity(&BOB, &pool, &vec![1], &vec![30]),
        Ok(Opening {
            escrow: LedgerOp::TransferTokens {
                operator: BOB,
                handle: SHARES,
                from: BOB,
                to: vault,
                ids: vec![1],
                amounts: vec![30],
            },
            query: BalanceQuery::Single { holder: vault, handle: TOKEN, id: 1 },
        })
    );
}

#[test]
fn withdrawal_does_not_open_on_bad_requests() {
    let (exchange, pool, _) = exchange_with(&[]);
    assert_eq!(
        exchange.remove_liquidity(&BOB, &BOB, &vec![1], &vec![30]),
        Err(Error::InvalidPoolAccount)
    );
    assert_eq!(
        exchange.remove_liquidity(&BOB, &pool, &vec![1, 1], &vec![30, 40]),
        Err(Error::UnsortedOrDuplicateTokenIds)
    );
}

#[test]
fn first_deposit_sets_reserve_and_shares() {
    let (mut exchange, pool, vault) = exchange_with(&[]);
    let settlement = exchange
        .do_add_liquidity(&BOB, &pool, vec![1], vec![1000], vec![1_000_000_000], vec![1000])
        .unwrap();
    assert_eq!(
        settlement,
        Settlement {
            currency_amounts: vec![1_000_000_000],
            transfers: vec![
                LedgerOp::MintTokens {
                    operator: vault,
                    handle: SHARES,
                    to: BOB,
                    ids: vec![1],
                    amounts: vec![1_000_000_000],
                },
                LedgerOp::TransferCurrency {
                    operator: BOB,
                    handle: CURRENCY,
                    from: BOB,
                    to: vault,
                    amount: 1_000_000_000,
                },
            ],
            event: Event::LiquidityAdded(BOB, pool, vec![1], vec![1000], vec![1_000_000_000]),
        }
    );
    assert_eq!(exchange.currency_reserves(&pool, 1), 1_000_000_000);
    assert_eq!(exchange.total_supplies(&pool, 1), 1_000_000_000);
}

#[test]
fn first_deposit_replaces_a_reserve_without_shares() {
    let (mut exchange, pool, _) = exchange_with(&[(1, 123, 0)]);
    exchange
        .do_add_liquidity(&BOB, &pool, vec![1], vec![1000], vec![2_000_000_000], vec![1000])
        .unwrap();
    assert_eq!(exchange.currency_reserves(&pool, 1), 2_000_000_000);
    assert_eq!(exchange.total_supplies(&pool, 1), 2_000_000_000);
}

#[test]
fn first_deposit_below_the_least_is_refused() {
    let (mut exchange, pool, _) = exchange_with(&[]);
    let before = exchange.clone();
    assert_eq!(
        exchange.do_add_liquidity(&BOB, &pool, vec![2], vec![1], vec![999_999_999], vec![1]),
        Err(Error::InvalidCurrencyAmount)
    );
    assert_eq!(exchange, before);
}

#[test]
fn later_deposit_owes_in_proportion() {
    let (mut exchange, pool, vault) = exchange_with(&[(1, 1_010_151_769, 1_000_000_000)]);
    // 50 tokens join 990: 50 * 1_010_151_769 / 990 = 51_017_766.1..., so
    // 51_017_767 is owed and shares are counted on 51_017_766:
    // 51_017_766 * 1_000_000_000 / 1_010_151_769 = 50_505_050.0...
    let settlement = exchange
        .do_add_liquidity(&BOB, &pool, vec![1], vec![50], vec![51_017_767], vec![1040])
        .unwrap();
    assert_eq!(
        settlement,
        Settlement {
            currency_amounts: vec![51_017_767],
            transfers: vec![
                LedgerOp::MintTokens {
                    operator: vault,
                    handle: SHARES,
                    to: BOB,
                    ids: vec![1],
                    amounts: vec![50_505_050],
                },
                LedgerOp::TransferCurrency {
                    operator: BOB,
                    handle: CURRENCY,
                    from: BOB,
                    to: vault,
                    amount: 51_017_767,
                },
            ],
            event: Event::LiquidityAdded(BOB, pool, vec![1], vec![50], vec![51_017_767]),
        }
    );
    assert_eq!(exchange.currency_reserves(&pool, 1), 1_010_151_769 + 51_017_767);
    assert_eq!(exchange.total_supplies(&pool, 1), 1_000_000_000 + 50_505_050);
}

#[test]
fn later_deposit_with_an_exact_quotient_is_not_shaved() {
    let (mut exchange, pool, _) = exchange_with(&[(1, 2000, 500)]);
    // 10 tokens join 100: 10 * 2000 / 100 = 200 exactly; 200 * 500 / 2000 = 50
    let settlement = exchange
        .do_add_liquidity(&BOB, &pool, vec![1], vec![10], vec![200], vec![110])
        .unwrap();
    assert_eq!(settlement.currency_amounts, vec![200]);
    assert_eq!(exchange.currency_reserves(&pool, 1), 2200);
    assert_eq!(exchange.total_supplies(&pool, 1), 550);
}

#[test]
fn deposit_of_two_ids_adds_up_the_currency() {
    let (mut exchange, pool, vault) = exchange_with(&[(1, 2000, 500)]);
    let settlement = exchange
        .do_add_liquidity(
            &BOB,
            &pool,
            vec![1, 2],
            vec![10, 7],
            vec![300, 3_000_000_000],
            vec![110, 7],
        )
        .unwrap();
    assert_eq!(settlement.currency_amounts, vec![200, 3_000_000_000]);
    assert_eq!(
        settlement.transfers,
        vec![
            LedgerOp::MintTokens {
                operator: vault,
                handle: SHARES,
                to: BOB,
                ids: vec![1, 2],
                amounts: vec![50, 3_000_000_000],
            },
            LedgerOp::TransferCurrency {
                operator: BOB,
                handle: CURRENCY,
                from: BOB,
                to: vault,
                amount: 3_000_000_200,
            },
        ]
    );
    assert_eq!(
        settlement.event,
        Event::LiquidityAdded(BOB, pool, vec![1, 2], vec![10, 7], vec![200, 3_000_000_000])
    );
    assert_eq!(exchange.total_supplies(&pool, 2), 3_000_000_000);
}

#[test]
fn deposit_that_owes_more_than_allowed_is_refused() {
    let (mut exchange, pool, _) = exchange_with(&[(1, 1_010_151_769, 1_000_000_000)]);
    let before = exchange.clone();
    assert_eq!(
        exchange.do_add_liquidity(&BOB, &pool, vec![1], vec![50], vec![51_017_766], vec![1040]),
        Err(Error::MaxCurrencyAmountExceeded)
    );
    assert_eq!(exchange, before);
}

#[test]
fn deposit_without_currency_is_refused() {
    let (mut exchange, pool, _) = exchange_with(&[(1, 2000, 500)]);
    let before = exchange.clone();
    assert_eq!(
        exchange.do_add_liquidity(&BOB, &pool, vec![1], vec![10], vec![0], vec![110]),
        Err(Error::NullMaxCurrency)
    );
    // reported before missing tokens
    assert_eq!(
        exchange.do_add_liquidity(&BOB, &pool, vec![1], vec![0], vec![0], vec![110]),
        Err(Error::NullMaxCurrency)
    );
    assert_eq!(exchange, before);
}

#[test]
fn deposit_without_tokens_is_refused() {
    let (mut exchange, pool, _) = exchange_with(&[(1, 2000, 500)]);
    let before = exchange.clone();
    assert_eq!(
        exchange.do_add_liquidity(&BOB, &pool, vec![1], vec![0], vec![200], vec![110]),
        Err(Error::NullTokensAmount)
    );
    assert_eq!(exchange, before);
}

#[test]
fn deposit_into_a_market_without_reserves_is_refused() {
    let (mut exchange, pool, _) = exchange_with(&[(1, 2000, 500), (2, 0, 500)]);
    let before = exchange.clone();
    // the vault held no tokens of id 1 before the provider's arrived
    assert_eq!(
        exchange.do_add_liquidity(&BOB, &pool, vec![1], vec![10], vec![200], vec![10]),
        Err(Error::EmptyReserve)
    );
    // shares of id 2 are outstanding with no currency behind them
    assert_eq!(
        exchange.do_add_liquidity(&BOB, &pool, vec![2], vec![10], vec![200], vec![110]),
        Err(Error::EmptyReserve)
    );
    assert_eq!(exchange, before);
}

#[test]
fn deposit_that_overflows_is_refused() {
    let (mut exchange, pool, _) = exchange_with(&[(1, u128::MAX, 500), (2, 2, u128::MAX - 1)]);
    let before = exchange.clone();
    // 10 * MAX / 1 is owed
    assert_eq!(
        exchange.do_add_liquidity(&BOB, &pool, vec![1], vec![10], vec![u128::MAX], vec![11]),
        Err(Error::Overflow)
    );
    // 1 is owed, but the reserve is full
    assert_eq!(
        exchange.do_add_liquidity(&BOB, &pool, vec![1], vec![1], vec![u128::MAX], vec![u128::MAX]),
        Err(Error::Overflow)
    );
    // 2 are owed, for which (MAX - 1) shares would be minted
    assert_eq!(
        exchange.do_add_liquidity(&BOB, &pool, vec![2], vec![10], vec![2], vec![20]),
        Err(Error::Overflow)
    );
    assert_eq!(exchange, before);
}

#[test]
fn deposit_on_an_unknown_pool_is_refused() {
    let (mut exchange, _, _) = exchange_with(&[]);
    assert_eq!(
        exchange.do_add_liquidity(&BOB, &BOB, vec![1], vec![1000], vec![1_000_000_000], vec![1000]),
        Err(Error::InvalidPoolAccount)
    );
}

#[test]
fn deposit_with_unsorted_ids_is_refused() {
    let (mut exchange, pool, _) = exchange_with(&[]);
    let before = exchange.clone();
    assert_eq!(
        exchange.do_add_liquidity(
            &BOB,
            &pool,
            vec![2, 1],
            vec![1000, 1000],
            vec![1_000_000_000, 1_000_000_000],
            vec![1000, 1000]
        ),
        Err(Error::UnsortedOrDuplicateTokenIds)
    );
    assert_eq!(exchange, before);
}

#[test]
fn deposit_that_fails_late_changes_nothing() {
    let (mut exchange, pool, _) = exchange_with(&[]);
    let before = exchange.clone();
    assert_eq!(
        exchange.do_add_liquidity(
            &BOB,
            &pool,
            vec![1, 2],
            vec![1000, 1000],
            vec![1_000_000_000, 5],
            vec![1000, 1000]
        ),
        Err(Error::InvalidCurrencyAmount)
    );
    assert_eq!(exchange, before);
}

#[test]
fn withdrawal_pays_in_proportion() {
    let (mut exchange, pool, vault) = exchange_with(&[(1, 1000, 300), (4, 90, 9)]);
    // id 1: 100 of 300 shares: 100 * 1000 / 300 = 333.3..., 100 * 50 / 300 = 16.6...
    // id 4: 9 of 9 shares: everything
    let settlement = exchange
        .do_remove_liquidity(
            &BOB,
            &pool,
            vec![1, 4],
            vec![100, 9],
            vec![333, 90],
            vec![16, 7],
            vec![50, 7],
        )
        .unwrap();
    assert_eq!(
        settlement,
        Settlement {
            currency_amounts: vec![333, 90],
            transfers: vec![
                LedgerOp::BurnTokens {
                    operator: vault,
                    handle: SHARES,
                    from: vault,
                    ids: vec![1, 4],
                    amounts: vec![100, 9],
                },
                LedgerOp::TransferCurrency {
                    operator: vault,
                    handle: CURRENCY,
                    from: vault,
                    to: BOB,
                    amount: 423,
                },
                LedgerOp::TransferTokens {
                    operator: vault,
                    handle: TOKEN,
                    from: vault,
                    to: BOB,
                    ids: vec![1, 4],
                    amounts: vec![16, 7],
                },
            ],
            event: Event::LiquidityRemoved(BOB, pool, vec![1, 4], vec![16, 7], vec![333, 90]),
        }
    );
    assert_eq!(exchange.currency_reserves(&pool, 1), 667);
    assert_eq!(exchange.total_supplies(&pool, 1), 200);
    assert_eq!(exchange.currency_reserves(&pool, 4), 0);
    assert_eq!(exchange.total_supplies(&pool, 4), 0);
}

#[test]
fn withdrawal_from_a_market_without_shares_is_refused() {
    let (mut exchange, pool, _) = exchange_with(&[(1, 1000, 300)]);
    let before = exchange.clone();
    assert_eq!(
        exchange.do_remove_liquidity(&BOB, &pool, vec![2], vec![1], vec![0], vec![0], vec![50]),
        Err(Error::NullTotalLiquidity)
    );
    assert_eq!(exchange, before);
}

#[test]
fn withdrawal_that_pays_too_little_currency_is_refused() {
    let (mut exchange, pool, _) = exchange_with(&[(1, 1000, 300)]);
    let before = exchange.clone();
    assert_eq!(
        exchange.do_remove_liquidity(&BOB, &pool, vec![1], vec![100], vec![334], vec![0], vec![50]),
        Err(Error::InsufficientCurrencyAmount)
    );
    // reported before too few tokens
    assert_eq!(
        exchange.do_remove_liquidity(&BOB, &pool, vec![1], vec![100], vec![334], vec![17], vec![50]),
        Err(Error::InsufficientCurrencyAmount)
    );
    assert_eq!(exchange, before);
}

#[test]
fn withdrawal_that_pays_too_few_tokens_is_refused() {
    let (mut exchange, pool, _) = exchange_with(&[(1, 1000, 300)]);
    let before = exchange.clone();
    assert_eq!(
        exchange.do_remove_liquidity(&BOB, &pool, vec![1], vec![100], vec![333], vec![17], vec![50]),
        Err(Error::InsufficientTokens)
    );
    assert_eq!(exchange, before);
}

#[test]
fn withdrawal_of_more_shares_than_exist_is_refused() {
    let (mut exchange, pool, _) = exchange_with(&[(1, 1000, 300)]);
    let before = exchange.clone();
    assert_eq!(
        exchange.do_remove_liquidity(&BOB, &pool, vec![1], vec![301], vec![0], vec![0], vec![50]),
        Err(Error::Overflow)
    );
    assert_eq!(exchange, before);
}

#[test]
fn withdrawal_share_beyond_128_bits_counts_as_nothing() {
    let (mut exchange, pool, _) = exchange_with(&[(1, u128::MAX, 1)]);
    let before = exchange.clone();
    // 2 * MAX / 1 does not fit: the currency counts as 0, which is below
    // the minimum of 1
    assert_eq!(
        exchange.do_remove_liquidity(&BOB, &pool, vec![1], vec![2], vec![1], vec![0], vec![50]),
        Err(Error::InsufficientCurrencyAmount)
    );
    // with no minimum, the shares are found to be more than exist
    assert_eq!(
        exchange.do_remove_liquidity(&BOB, &pool, vec![1], vec![2], vec![0], vec![0], vec![50]),
        Err(Error::Overflow)
    );
    assert_eq!(exchange, before);
}

#[test]
fn withdrawal_on_an_unknown_pool_is_refused() {
    let (mut exchange, _, _) = exchange_with(&[(1, 1000, 300)]);
    assert_eq!(
        exchange.do_remove_liquidity(&BOB, &BOB, vec![1], vec![100], vec![0], vec![0], vec![50]),
        Err(Error::InvalidPoolAccount)
    );
}

#[test]
fn withdrawal_with_unsorted_ids_is_refused() {
    let (mut exchange, pool, _) = exchange_with(&[(1, 1000, 300), (2, 1000, 300)]);
    let before = exchange.clone();
    assert_eq!(
        exchange.do_remove_liquidity(
            &BOB,
            &pool,
            vec![2, 1],
            vec![1, 1],
            vec![0, 0],
            vec![0, 0],
            vec![50, 50]
        ),
        Err(Error::UnsortedOrDuplicateTokenIds)
    );
    assert_eq!(exchange, before);
}

#[test]
fn sole_provider_gets_everything_back() {
    let (mut exchange, pool, _) = exchange_with(&[]);
    let added = exchange
        .do_add_liquidity(&BOB, &pool, vec![1], vec![1000], vec![1_000_000_000], vec![1000])
        .unwrap();
    let shares = match &added.transfers[0] {
        LedgerOp::MintTokens { amounts, .. } => amounts.clone(),
        other => panic!("unexpected transfer {:?}", other),
    };
    let removed = exchange
        .do_remove_liquidity(&BOB, &pool, vec![1], shares, vec![0], vec![0], vec![1000])
        .unwrap();
    assert_eq!(
        removed.event,
        Event::LiquidityRemoved(BOB, pool, vec![1], vec![1000], vec![1_000_000_000])
    );
    assert_eq!(exchange.currency_reserves(&pool, 1), 0);
    assert_eq!(exchange.total_supplies(&pool, 1), 0);
}
