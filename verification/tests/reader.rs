use nft_pool::ledger::BalanceQuery;
use nft_pool::reader::is_strictly_ascending;
use nft_pool::store::Pallet;
use nft_pool::types::{AccountId, Error};

const VAULT: AccountId = AccountId { bytes: [9; 32] };
const TOKEN: AccountId = AccountId { bytes: [11; 32] };

#[test]
fn one_id_is_asked_for_alone() {
    assert_eq!(
        Pallet::get_token_reserves(&VAULT, &TOKEN, &vec![7]),
        Ok(BalanceQuery::Single { holder: VAULT, handle: TOKEN, id: 7 })
    );
}

#[test]
fn several_ids_are_asked_for_in_a_batch() {
    assert_eq!(
        Pallet::get_token_reserves(&VAULT, &TOKEN, &vec![1, 2, 5]),
        Ok(BalanceQuery::Batch {
            handle: TOKEN,
            holders: vec![VAULT, VAULT, VAULT],
            ids: vec![1, 2, 5],
        })
    );
}

#[test]
fn no_ids_are_an_empty_batch() {
    assert_eq!(
        Pallet::get_token_reserves(&VAULT, &TOKEN, &vec![]),
        Ok(BalanceQuery::Batch { handle: TOKEN, holders: vec![], ids: vec![] })
    );
}

#[test]
fn descending_ids_are_refused() {
    assert_eq!(
        Pallet::get_token_reserves(&VAULT, &TOKEN, &vec![2, 1]),
        Err(Error::UnsortedOrDuplicateTokenIds)
    );
    assert_eq!(
        Pallet::get_token_reserves(&VAULT, &TOKEN, &vec![1, 3, 2]),
        Err(Error::UnsortedOrDuplicateTokenIds)
    );
}

#[test]
fn repeated_ids_are_refused() {
    assert_eq!(
        Pallet::get_token_reserves(&VAULT, &TOKEN, &vec![1, 1]),
        Err(Error::UnsortedOrDuplicateTokenIds)
    );
    assert_eq!(
        Pallet::get_token_reserves(&VAULT, &TOKEN, &vec![1, 2, 2]),
        Err(Error::UnsortedOrDuplicateTokenIds)
    );
}

#[test]
fn ascending_means_strictly_ascending() {
    assert!(is_strictly_ascending(&vec![]));
    assert!(is_strictly_ascending(&vec![5]));
    assert!(is_strictly_ascending(&vec![0, 1, u128::MAX]));
    assert!(!is_strictly_ascending(&vec![0, 0]));
    assert!(!is_strictly_ascending(&vec![1, 0]));
    assert!(!is_strictly_ascending(&vec![0, 2, 1, 3]));
}
