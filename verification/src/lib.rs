//! A constant-product market maker that trades one fungible currency against
//! the individual ids of a multi-token collection.
//!
//! The exchange ([`store::Pallet`]) owns the pool registry and, for every
//! pool and token id, the currency reserve and the liquidity shares
//! outstanding. It never touches a ledger: the balances that the ledgers
//! hold are read by the host and handed in, and every transfer that the
//! exchange decides on is handed back as a [`ledger::LedgerOp`] for the host
//! to carry out.
//!
//! Every operation that moves assets therefore has two halves:
//!
//! 1. The function named after the operation (`swap_currency_to_token`,
//!    `add_liquidity`, ...) checks the request and returns what goes into
//!    the vault and which balances to read.
//! 2. Once the host has made that transfer and read those balances, the
//!    function with the prefix `do_` does the accounting, updates the
//!    exchange and returns the transfers that leave the vault and the event
//!    to publish.
//!
//! A half that fails leaves the exchange as it was. A host that cannot
//! complete the transfers of the second half has to put the state of the
//! exchange back to what it was before that half.
//!
//! The modules, from the bottom up: [`types`] and [`ledger`] hold the plain
//! data; [`wide`] the 256-bit arithmetic and [`pricing`] the price formulas;
//! [`account`] the derivation of the vault and pool accounts; [`store`] the
//! state, [`reader`] the balance queries and [`batch`] what all batches
//! share; [`swap`], [`liquidity`] and [`lifecycle`] the operations; and
//! [`laws`] what holds of all of them.

pub mod account;
pub mod batch;
pub mod laws;
pub mod ledger;
pub mod lifecycle;
pub mod liquidity;
pub mod pricing;
pub mod reader;
pub mod store;
pub mod swap;
pub mod types;
pub mod wide;
