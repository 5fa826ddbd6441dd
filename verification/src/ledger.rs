//! What the engine asks of the ledgers that hold the actual balances, and
//! what it reports to the outside.
//!
//! The engine never touches a ledger. It hands its host the queries to make
//! and the transfers to carry out, in order, and the host hands back what the
//! ledgers answered. A transfer that a ledger refuses fails the whole
//! operation: the host then discards the state that the engine returned.

use vstd::prelude::*;
use crate::types::{AccountId, Balance, TokenId};

verus! {

/// One instruction to a ledger.
#[derive(Clone, Debug, PartialEq, Eq)]
pub enum LedgerOp {
    /// Native currency: move `amount` from `from` to `to`; the sender's
    /// account need not survive.
    TransferNative { from: AccountId, to: AccountId, amount: Balance },
    /// Fungible ledger `handle`: `operator` moves `amount` from `from` to `to`.
    TransferCurrency {
        operator: AccountId,
        handle: AccountId,
        from: AccountId,
        to: AccountId,
        amount: Balance,
    },
    /// Multi-token collection `handle`: `operator` moves `amounts[i]` of
    /// `ids[i]` from `from` to `to`, for every `i`.
    TransferTokens {
        operator: AccountId,
        handle: AccountId,
        from: AccountId,
        to: AccountId,
        ids: Vec<TokenId>,
        amounts: Vec<Balance>,
    },
    /// Multi-token collection `handle`: `operator` mints `amounts[i]` of
    /// `ids[i]` to `to`, for every `i`.
    MintTokens {
        operator: AccountId,
        handle: AccountId,
        to: AccountId,
        ids: Vec<TokenId>,
        amounts: Vec<Balance>,
    },
    /// Multi-token collection `handle`: `operator` burns `amounts[i]` of
    /// `ids[i]` held by `from`, for every `i`.
    BurnTokens {
        operator: AccountId,
        handle: AccountId,
        from: AccountId,
        ids: Vec<TokenId>,
        amounts: Vec<Balance>,
    },
    /// Multi-token ledger: create a collection owned by `owner`, with empty
    /// metadata. The ledger answers with the new collection's handle.
    CreateCollection { owner: AccountId },
}

/// A [`LedgerOp`] as contracts see it.
pub enum LedgerOpView {
    TransferNative { from: AccountId, to: AccountId, amount: Balance },
    TransferCurrency {
        operator: AccountId,
        handle: AccountId,
        from: AccountId,
        to: AccountId,
        amount: Balance,
    },
    TransferTokens {
        operator: AccountId,
        handle: AccountId,
        from: AccountId,
        to: AccountId,
        ids: Seq<TokenId>,
        amounts: Seq<Balance>,
    },
    MintTokens {
        operator: AccountId,
        handle: AccountId,
        to: AccountId,
        ids: Seq<TokenId>,
        amounts: Seq<Balance>,
    },
    BurnTokens {
        operator: AccountId,
        handle: AccountId,
        from: AccountId,
        ids: Seq<TokenId>,
        amounts: Seq<Balance>,
    },
    CreateCollection { owner: AccountId },
}

impl View for LedgerOp {
    type V = LedgerOpView;

    open spec fn view(&self) -> LedgerOpView {
        match *self {
            LedgerOp::TransferNative { from, to, amount } => LedgerOpView::TransferNative {
                from,
                to,
                amount,
            },
            LedgerOp::TransferCurrency {
                operator,
                handle,
                from,
                to,
                amount,
            } => LedgerOpView::TransferCurrency { operator, handle, from, to, amount },
            LedgerOp::TransferTokens {
                operator,
                handle,
                from,
                to,
                ids,
                amounts,
            } => LedgerOpView::TransferTokens {
                operator,
                handle,
                from,
                to,
                ids: ids@,
                amounts: amounts@,
            },
            LedgerOp::MintTokens { operator, handle, to, ids, amounts } => LedgerOpView::MintTokens {
                operator,
                handle,
                to,
                ids: ids@,
                amounts: amounts@,
            },
            LedgerOp::BurnTokens {
                operator,
                handle,
                from,
                ids,
                amounts,
            } => LedgerOpView::BurnTokens { operator, handle, from, ids: ids@, amounts: amounts@ },
            LedgerOp::CreateCollection { owner } => LedgerOpView::CreateCollection { owner },
        }
    }
}

/// The views of a list of instructions, in the same order.
pub open spec fn ops_view(ops: Seq<LedgerOp>) -> Seq<LedgerOpView> {
    Seq::new(ops.len(), |i: int| ops[i]@)
}

/// One question to the multi-token ledger about what the vault holds.
#[derive(Clone, Debug, PartialEq, Eq)]
pub enum BalanceQuery {
    /// The balance of `holder` in token `id` of collection `handle`.
    Single { holder: AccountId, handle: AccountId, id: TokenId },
    /// For every `i`, the balance of `holders[i]` in token `ids[i]` of
    /// collection `handle`.
    Batch { handle: AccountId, holders: Vec<AccountId>, ids: Vec<TokenId> },
}

/// A [`BalanceQuery`] as contracts see it.
pub enum BalanceQueryView {
    Single { holder: AccountId, handle: AccountId, id: TokenId },
    Batch { handle: AccountId, holders: Seq<AccountId>, ids: Seq<TokenId> },
}

impl View for BalanceQuery {
    type V = BalanceQueryView;

    open spec fn view(&self) -> BalanceQueryView {
        match *self {
            BalanceQuery::Single { holder, handle, id } => BalanceQueryView::Single {
                holder,
                handle,
                id,
            },
            BalanceQuery::Batch { handle, holders, ids } => BalanceQueryView::Batch {
                handle,
                holders: holders@,
                ids: ids@,
            },
        }
    }
}

/// What an operation that succeeded lets the outside know.
#[derive(Clone, Debug, PartialEq, Eq)]
pub enum Event {
    /// A pool was created: its account, and who created it.
    PoolCreated(AccountId, AccountId),
    /// Currency was swapped for tokens: the buyer, the pool, the ids, the
    /// amount bought of each, the currency spent in all, and who received
    /// the tokens.
    SwapCurrencyToToken(AccountId, AccountId, Vec<TokenId>, Vec<Balance>, Balance, AccountId),
    /// Tokens were swapped for currency: the seller, the pool, the ids, the
    /// amount sold of each, the currency paid out in all, and who received
    /// it.
    SwapTokenToCurrency(AccountId, AccountId, Vec<TokenId>, Vec<Balance>, Balance, AccountId),
    /// Liquidity was added: the provider, the pool, the ids, the tokens
    /// deposited for each, and the currency deposited for each.
    LiquidityAdded(AccountId, AccountId, Vec<TokenId>, Vec<Balance>, Vec<Balance>),
    /// Liquidity was removed: the provider, the pool, the ids, the tokens
    /// returned for each, and the currency returned for each.
    LiquidityRemoved(AccountId, AccountId, Vec<TokenId>, Vec<Balance>, Vec<Balance>),
}

/// An [`Event`] as contracts see it.
pub enum EventView {
    PoolCreated(AccountId, AccountId),
    SwapCurrencyToToken(AccountId, AccountId, Seq<TokenId>, Seq<Balance>, Balance, AccountId),
    SwapTokenToCurrency(AccountId, AccountId, Seq<TokenId>, Seq<Balance>, Balance, AccountId),
    LiquidityAdded(AccountId, AccountId, Seq<TokenId>, Seq<Balance>, Seq<Balance>),
    LiquidityRemoved(AccountId, AccountId, Seq<TokenId>, Seq<Balance>, Seq<Balance>),
}

impl View for Event {
    type V = EventView;

    open spec fn view(&self) -> EventView {
        match *self {
            Event::PoolCreated(pool, owner) => EventView::PoolCreated(pool, owner),
            Event::SwapCurrencyToToken(
                who,
                pool,
                ids,
                amounts,
                currency,
                to,
            ) => EventView::SwapCurrencyToToken(who, pool, ids@, amounts@, currency, to),
            Event::SwapTokenToCurrency(
                who,
                pool,
                ids,
                amounts,
                currency,
                to,
            ) => EventView::SwapTokenToCurrency(who, pool, ids@, amounts@, currency, to),
            Event::LiquidityAdded(who, pool, ids, tokens, currencies) => EventView::LiquidityAdded(
                who,
                pool,
                ids@,
                tokens@,
                currencies@,
            ),
            Event::LiquidityRemoved(
                who,
                pool,
                ids,
                tokens,
                currencies,
            ) => EventView::LiquidityRemoved(who, pool, ids@, tokens@, currencies@),
        }
    }
}

/// What the first half of an operation asks of the host: the transfer that
/// puts the assets at stake into the vault, and the question that reads the
/// vault's token balances once that transfer is through.
#[derive(Clone, Debug, PartialEq, Eq)]
pub struct Opening {
    pub escrow: LedgerOp,
    pub query: BalanceQuery,
}

/// What one operation on a pool decided: the currency moved for each id,
/// the transfers that the host now has to make, in this order, and the event
/// to publish once they all went through.
#[derive(Clone, Debug, PartialEq, Eq)]
pub struct Settlement {
    pub currency_amounts: Vec<Balance>,
    pub transfers: Vec<LedgerOp>,
    pub event: Event,
}

} // verus!
