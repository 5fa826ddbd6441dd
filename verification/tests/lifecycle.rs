use nft_pool::ledger::{Event, LedgerOp};
use nft_pool::store::Pallet;
use nft_pool::types::{AccountId, Config, Error, Pool};

const ALICE: AccountId = AccountId { bytes: [1; 32] };
const CURRENCY: AccountId = AccountId { bytes: [10; 32] };
const TOKEN: AccountId = AccountId { bytes: [11; 32] };
const SHARES: AccountId = AccountId { bytes: [12; 32] };

fn exchange() -> Pallet {
    Pallet::new(Config { pallet_id: *b"w3g/nftp", create_pool_deposit: 500 })
}

#[test]
fn new_exchange_is_empty() {
    let exchange = exchange();
    assert_eq!(exchange.pool_count(), 0);
    assert_eq!(exchange.pool(&exchange.pool_account_id(1)), None);
    assert_eq!(exchange.currency_reserves(&exchange.pool_account_id(1), 1), 0);
    assert_eq!(exchange.total_supplies(&exchange.pool_account_id(1), 1), 0);
}

#[test]
fn create_pool_asks_for_the_deposit_and_a_collection() {
    let exchange = exchange();
    let vault = exchange.account_id();
    assert_eq!(
        exchange.create_pool(&ALICE, true, true),
        Ok(vec![
            LedgerOp::TransferNative { from: ALICE, to: vault, amount: 500 },
            LedgerOp::CreateCollection { owner: vault },
        ])
    );
    assert_eq!(exchange.pool_count(), 0);
}

#[test]
fn create_pool_registers_the_pool() {
    let mut exchange = exchange();
    let vault = exchange.account_id();
    let account = exchange.pool_account_id(1);
    assert_eq!(
        exchange.do_create_pool(&ALICE, &CURRENCY, &TOKEN, true, true, &SHARES),
        Ok(Event::PoolCreated(account, ALICE))
    );
    assert_eq!(exchange.pool_count(), 1);
    assert_eq!(
        exchange.pool(&account),
        Some(Pool { owner: ALICE, currency: CURRENCY, token: TOKEN, lp_token: SHARES, vault })
    );
    assert_eq!(exchange.pool(&exchange.pool_account_id(2)), None);
}

#[test]
fn pools_are_numbered_from_one() {
    let mut exchange = exchange();
    let first = exchange.do_create_pool(&ALICE, &CURRENCY, &TOKEN, true, true, &SHARES);
    let second = exchange.do_create_pool(&ALICE, &TOKEN, &CURRENCY, true, true, &SHARES);
    assert_eq!(first, Ok(Event::PoolCreated(exchange.pool_account_id(1), ALICE)));
    assert_eq!(second, Ok(Event::PoolCreated(exchange.pool_account_id(2), ALICE)));
    assert_eq!(exchange.pool_count(), 2);
    assert_eq!(exchange.pool(&exchange.pool_account_id(1)).unwrap().currency, CURRENCY);
    assert_eq!(exchange.pool(&exchange.pool_account_id(2)).unwrap().currency, TOKEN);
}

#[test]
fn create_pool_needs_the_currency_handle() {
    let mut exchange = exchange();
    let before = exchange.clone();
    assert_eq!(exchange.create_pool(&ALICE, false, true), Err(Error::CurrencyAccountNotFound));
    assert_eq!(exchange.create_pool(&ALICE, false, false), Err(Error::CurrencyAccountNotFound));
    assert_eq!(
        exchange.do_create_pool(&ALICE, &CURRENCY, &TOKEN, false, true, &SHARES),
        Err(Error::CurrencyAccountNotFound)
    );
    assert_eq!(exchange, before);
}

#[test]
fn create_pool_needs_the_token_handle() {
    let mut exchange = exchange();
    let before = exchange.clone();
    assert_eq!(exchange.create_pool(&ALICE, true, false), Err(Error::TokenAccountNotFound));
    assert_eq!(
        exchange.do_create_pool(&ALICE, &CURRENCY, &TOKEN, true, false, &SHARES),
        Err(Error::TokenAccountNotFound)
    );
    assert_eq!(exchange, before);
}

#[test]
fn create_pool_stops_when_pools_cannot_be_counted() {
    let mut exchange = exchange();
    exchange.pool_count = u32::MAX;
    let before = exchange.clone();
    assert_eq!(exchange.create_pool(&ALICE, true, true), Err(Error::Overflow));
    assert_eq!(
        exchange.do_create_pool(&ALICE, &CURRENCY, &TOKEN, true, true, &SHARES),
        Err(Error::Overflow)
    );
    assert_eq!(exchange, before);
}

#[test]
fn last_countable_pool_can_be_created() {
    let mut exchange = exchange();
    exchange.pool_count = u32::MAX - 1;
    assert_eq!(
        exchange.do_create_pool(&ALICE, &CURRENCY, &TOKEN, true, true, &SHARES),
        Ok(Event::PoolCreated(exchange.pool_account_id(u32::MAX), ALICE))
    );
    assert_eq!(exchange.pool_count(), u32::MAX);
}
