//! Core of an automated-market-maker exchange backend.
//!
//! The library keeps liquidity pools of token pairs, mints and burns LP
//! (liquidity-provider) tokens, prices constant-product swaps, and tracks
//! requests, on-chain transfers, and claims for funds that could not be
//! returned synchronously.  All arithmetic is arbitrary-precision and the
//! pricing, accounting and compensation decisions are verified; the token
//! ledgers themselves are reached only through the outcomes that callers
//! hand in.

pub mod add_liquidity;
pub mod add_pool;
pub mod bignat;
pub mod claim;
pub mod claims;
pub mod error;
pub mod laws;
pub mod lp_token_ledger;
pub mod pool;
pub mod pool_math;
pub mod remove_liquidity;
pub mod replies;
pub mod request;
pub mod settings;
pub mod state;
pub mod swap;
pub mod token;
pub mod transfer;
pub mod tx;
pub mod user;
