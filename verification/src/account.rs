//! The accounts of the exchange: one vault that holds every pooled asset, and
//! one account per pool, under which the pool is registered.
//!
//! Both are derived from the exchange's eight-byte seed by `sp_runtime`'s
//! `AccountIdConversion`, as every pallet account is. The bytes it yields are
//! stated here and believed; that no two pools share an account is proved
//! from that statement.

use vstd::prelude::*;
use crate::store::Pallet;
use crate::types::{AccountId, PoolIndex};

verus! {

/// The four bytes `modl`, with which every account derived from a seed
/// begins.
pub open spec fn account_prefix() -> Seq<u8> {
    seq![0x6du8, 0x6fu8, 0x64u8, 0x6cu8]
}

/// The four bytes of `index`, least significant first.
pub open spec fn index_bytes(index: PoolIndex) -> Seq<u8> {
    seq![
        (index % 256) as u8,
        ((index / 0x100) % 256) as u8,
        ((index / 0x1_0000) % 256) as u8,
        ((index / 0x100_0000) % 256) as u8,
    ]
}

/// The account of the vault: the prefix, the seed, and zeros up to 32 bytes.
pub open spec fn spec_vault_account(seed: Seq<u8>) -> Seq<u8> {
    account_prefix() + seed + Seq::new(20, |i: int| 0u8)
}

/// The account of pool number `index`: the prefix, the seed, the bytes of the
/// index, and zeros up to 32 bytes.
pub open spec fn spec_pool_account(seed: Seq<u8>, index: PoolIndex) -> Seq<u8> {
    account_prefix() + seed + index_bytes(index) + Seq::new(16, |i: int| 0u8)
}

/// Two accounts with the same bytes are the same account.
pub proof fn lemma_account_by_bytes(a: AccountId, b: AccountId)
    requires
        a.bytes@ == b.bytes@,
    ensures
        a == b,
{
    assert(a.bytes =~= b.bytes);
}

/// Pool accounts do not collide: two of them are equal only where both the
/// seed and the index are.
pub proof fn lemma_pool_accounts_distinct(
    seed_a: Seq<u8>,
    index_a: PoolIndex,
    seed_b: Seq<u8>,
    index_b: PoolIndex,
)
    requires
        seed_a.len() == 8,
        seed_b.len() == 8,
        spec_pool_account(seed_a, index_a) == spec_pool_account(seed_b, index_b),
    ensures
        seed_a == seed_b,
        index_a == index_b,
{
    let a = spec_pool_account(seed_a, index_a);
    let b = spec_pool_account(seed_b, index_b);
    assert forall|i: int| 0 <= i < 8 implies seed_a[i] == seed_b[i] by {
        assert(a[4 + i] == seed_a[i]);
        assert(b[4 + i] == seed_b[i]);
    }
    assert(seed_a =~= seed_b);
    assert(a[12] == index_bytes(index_a)[0] && b[12] == index_bytes(index_b)[0]);
    assert(a[13] == index_bytes(index_a)[1] && b[13] == index_bytes(index_b)[1]);
    assert(a[14] == index_bytes(index_a)[2] && b[14] == index_bytes(index_b)[2]);
    assert(a[15] == index_bytes(index_a)[3] && b[15] == index_bytes(index_b)[3]);
}

/// No pool shares its account with the vault: pools are numbered from 1, and
/// only index 0 would yield the vault's bytes.
pub proof fn lemma_pool_account_is_not_vault(seed: Seq<u8>, index: PoolIndex)
    requires
        seed.len() == 8,
        index >= 1,
    ensures
        spec_pool_account(seed, index) != spec_vault_account(seed),
{
    let a = spec_pool_account(seed, index);
    let v = spec_vault_account(seed);
    assert(a[12] == index_bytes(index)[0] && v[12] == 0);
    assert(a[13] == index_bytes(index)[1] && v[13] == 0);
    assert(a[14] == index_bytes(index)[2] && v[14] == 0);
    assert(a[15] == index_bytes(index)[3] && v[15] == 0);
}

/// `AccountIdConversion::into_account_truncating` on `PalletId(seed)`, for a
/// 32-byte account: the type id `modl`, the seed, then zeros.
#[verifier::external_body]
fn derive_account(seed: &[u8; 8]) -> (r: AccountId)
    ensures
        r.bytes@ == spec_vault_account(seed@),
{
    let account: sp_core::crypto::AccountId32 =
        sp_runtime::traits::AccountIdConversion::into_account_truncating(
        &frame_support::PalletId(*seed),
    );
    AccountId { bytes: account.into() }
}

/// `AccountIdConversion::into_sub_account_truncating` on `PalletId(seed)`
/// with a `u32` as the sub-seed, for a 32-byte account: the type id `modl`,
/// the seed, the index in its four-byte little-endian encoding, then zeros.
#[verifier::external_body]
fn derive_sub_account(seed: &[u8; 8], index: PoolIndex) -> (r: AccountId)
    ensures
        r.bytes@ == spec_pool_account(seed@, index),
{
    let account: sp_core::crypto::AccountId32 =
        sp_runtime::traits::AccountIdConversion::into_sub_account_truncating(
        &frame_support::PalletId(*seed),
        index,
    );
    AccountId { bytes: account.into() }
}

impl Pallet {
    /// The account of the vault, which all pools share.
    pub fn account_id(&self) -> (r: AccountId)
        ensures
            r.bytes@ == spec_vault_account(self.config.pallet_id@),
    {
        derive_account(&self.config.pallet_id)
    }

    /// The account under which pool number `id` is registered.
    pub fn pool_account_id(&self, id: PoolIndex) -> (r: AccountId)
        ensures
            r.bytes@ == spec_pool_account(self.config.pallet_id@, id),
    {
        derive_sub_account(&self.config.pallet_id, id)
    }
}

} // verus!
