//! A two-way-peg side-ledger state machine.
//!
//! The library validates and applies blocks of transactions against a
//! UTXO-style ledger while reconciling value that crosses a trust boundary
//! with an external main chain: deposits move value in, withdrawals move
//! value out, and refunds reclaim the value of withdrawals that failed on
//! the main-chain side.
//!
//! The pieces, leaves first:
//! - [`entity`]: the ledger entity model (outpoints, outputs, deposits,
//!   withdrawals, transactions, block bodies) and the opaque
//!   address/signature capability pair.
//! - [`table`]: association tables over sequences of key/value pairs, the
//!   representation behind the output index and the main-chain oracle.
//! - [`amount`]: exact sums of 64-bit amounts and their overflow guards.
//! - [`projection`]: flattening a block body into the spend, claim, and
//!   new-value views the engines work on.
//! - [`oracle`]: the main-chain state provider, resolving claimed deposits
//!   and refundable withdrawals by reference.
//! - [`state`]: the ledger state with the validation engine
//!   (`validate_block`) and the transition engine (`connect`/`disconnect`).
//! - [`laws`]: the global laws of the design — conservation, round trip,
//!   authorization, outpoint uniqueness, missing references — as proved
//!   theorems.

pub mod amount;
pub mod entity;
pub mod laws;
pub mod oracle;
pub mod projection;
pub mod state;
pub mod table;
