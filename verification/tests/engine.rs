//! End-to-end exercises of the exchange engine on concrete values.

use kong_backend::add_liquidity::add_liquidity_transfer_from;
use kong_backend::add_pool::add_pool;
use kong_backend::bignat::{nat_from_u64, nat_to_u128, BigNat};
use kong_backend::claim::{ClaimStatus, StableClaim};
use kong_backend::claims::process_claims;
use kong_backend::error::AmmError;
use kong_backend::remove_liquidity::remove_liquidity;
use kong_backend::request::{AddLiquidityArgs, AddPoolArgs, RemoveLiquidityArgs, SwapArgs};
use kong_backend::state::State;
use kong_backend::swap::swap;
use kong_backend::token::{Token, TokenKind};
use kong_backend::transfer::TxId;

fn n(x: u64) -> BigNat {
    nat_from_u64(x)
}

fn v(x: &BigNat) -> u128 {
    nat_to_u128(x).unwrap()
}

fn ok(x: u64) -> Result<BigNat, String> {
    Ok(n(x))
}

fn fail(m: &str) -> Result<BigNat, String> {
    Err(m.to_string())
}

/// A state with an 8-decimal token and the 6-decimal quote token.
fn two_token_state() -> State {
    let mut state = State::new();
    state.tokens.insert(Token {
        token_id: 0,
        kind: TokenKind::IC,
        chain: "IC".to_string(),
        symbol: "AAA".to_string(),
        address: "aaa-ledger".to_string(),
        decimals: 8,
        fee: n(10_000),
        on_kong: true,
    });
    state.tokens.insert(Token {
        token_id: 0,
        kind: TokenKind::IC,
        chain: "IC".to_string(),
        symbol: "ckUSDT".to_string(),
        address: "usdt-ledger".to_string(),
        decimals: 6,
        fee: n(10_000),
        on_kong: true,
    });
    state
}

fn pool_args(amount_0: u64, amount_1: u64) -> AddPoolArgs {
    AddPoolArgs {
        token_0: "AAA".to_string(),
        amount_0: n(amount_0),
        tx_id_0: None,
        token_1: "ckUSDT".to_string(),
        amount_1: n(amount_1),
        tx_id_1: None,
        lp_fee_bps: Some(30),
        kong_fee_bps: Some(0),
        on_kong: Some(true),
    }
}

/// A state with the standard pool already made: reserves
/// (100_000_000, 100_000_000) and an LP supply of 1_000_000_000.
fn bootstrapped() -> State {
    let mut state = two_token_state();
    let reply = add_pool(
        &mut state,
        "alice".to_string(),
        pool_args(100_000_000, 100_000_000),
        None,
        ok(11),
        Ok(()),
        ok(12),
        Ok(()),
        ok(13),
        ok(14),
        1_000,
    )
    .ok()
    .unwrap();
    assert_eq!(reply.status, "Success");
    state
}

#[test]
fn bootstrap_pool_has_exact_reserves_and_sqrt_supply() {
    let state = bootstrapped();
    assert_eq!(state.pools.pools.len(), 1);
    let p = &state.pools.pools[0];
    assert_eq!(v(&p.balance_0), 100_000_000);
    assert_eq!(v(&p.balance_1), 100_000_000);
    assert_eq!(v(&p.lp_fee_0), 0);
    assert_eq!(v(&p.lp_fee_1), 0);
    // sqrt(10^8 * 10^10) in LP decimals.
    let supply = state.lp_ledger.get_total_supply(p.lp_token_id);
    assert_eq!(v(&supply), 1_000_000_000);
    // The creator holds the whole supply.
    let row = state
        .lp_ledger
        .get_by_token_id_by_user_id(p.lp_token_id, 1)
        .unwrap();
    assert_eq!(v(&row.amount), 1_000_000_000);
}

#[test]
fn bootstrap_with_unit_amounts_mints_one() {
    let mut state = State::new();
    state.tokens.insert(Token {
        token_id: 0,
        kind: TokenKind::IC,
        chain: "IC".to_string(),
        symbol: "AAA".to_string(),
        address: "aaa-ledger".to_string(),
        decimals: 8,
        fee: n(0),
        on_kong: true,
    });
    state.tokens.insert(Token {
        token_id: 0,
        kind: TokenKind::IC,
        chain: "IC".to_string(),
        symbol: "ckUSDT".to_string(),
        address: "usdt-ledger".to_string(),
        decimals: 8,
        fee: n(0),
        on_kong: true,
    });
    let reply = add_pool(
        &mut state,
        "alice".to_string(),
        pool_args(1, 1),
        None,
        ok(11),
        Ok(()),
        ok(12),
        Ok(()),
        ok(13),
        ok(14),
        1_000,
    )
    .ok()
    .unwrap();
    assert_eq!(v(&reply.add_lp_token_amount), 1);
    let p = &state.pools.pools[0];
    assert_eq!(v(&p.balance_0), 1);
    assert_eq!(v(&p.balance_1), 1);
}

fn liquidity_args(amount_0: u64, amount_1: u64) -> AddLiquidityArgs {
    AddLiquidityArgs {
        token_0: "AAA".to_string(),
        amount_0: n(amount_0),
        tx_id_0: None,
        token_1: "ckUSDT".to_string(),
        amount_1: n(amount_1),
        tx_id_1: None,
    }
}

#[test]
fn matched_add_doubles_reserves_and_mints_proportionally() {
    let mut state = bootstrapped();
    let reply = add_liquidity_transfer_from(
        &mut state,
        "bob".to_string(),
        liquidity_args(100_000_000, 100_000_000),
        ok(21),
        ok(22),
        ok(23),
        ok(24),
        2_000,
    )
    .ok()
    .unwrap();
    assert_eq!(reply.status, "Success");
    assert_eq!(v(&reply.amount_0), 100_000_000);
    assert_eq!(v(&reply.amount_1), 100_000_000);
    assert_eq!(v(&reply.add_lp_token_amount), 1_000_000_000);
    let p = &state.pools.pools[0];
    assert_eq!(v(&p.balance_0), 200_000_000);
    assert_eq!(v(&p.balance_1), 200_000_000);
    let supply = state.lp_ledger.get_total_supply(p.lp_token_id);
    assert_eq!(v(&supply), 2_000_000_000);
}

#[test]
fn mismatched_add_shrinks_to_the_pool_ratio() {
    let mut state = bootstrapped();
    let reply = add_liquidity_transfer_from(
        &mut state,
        "bob".to_string(),
        liquidity_args(100_000_000, 200_000_000),
        ok(21),
        ok(22),
        ok(23),
        ok(24),
        2_000,
    )
    .ok()
    .unwrap();
    // Only the ratio-matching token_1 amount is accepted.
    assert_eq!(v(&reply.amount_0), 100_000_000);
    assert_eq!(v(&reply.amount_1), 100_000_000);
    assert_eq!(v(&reply.add_lp_token_amount), 1_000_000_000);
}

#[test]
fn add_liquidity_rejects_zero_amounts() {
    let mut state = bootstrapped();
    let err = add_liquidity_transfer_from(
        &mut state,
        "bob".to_string(),
        liquidity_args(0, 5),
        ok(21),
        ok(22),
        ok(23),
        ok(24),
        2_000,
    )
    .err()
    .unwrap();
    assert!(matches!(err, AmmError::ZeroAmount));
}

#[test]
fn add_liquidity_rejects_unknown_pool() {
    let mut state = two_token_state();
    let err = add_liquidity_transfer_from(
        &mut state,
        "bob".to_string(),
        liquidity_args(5, 5),
        ok(21),
        ok(22),
        ok(23),
        ok(24),
        2_000,
    )
    .err()
    .unwrap();
    assert!(matches!(err, AmmError::PoolNotFound));
}

#[test]
fn failed_second_pull_returns_the_first_deposit() {
    let mut state = bootstrapped();
    let before = state.transfers.transfers.len();
    let err = add_liquidity_transfer_from(
        &mut state,
        "bob".to_string(),
        liquidity_args(100_000_000, 100_000_000),
        ok(21),
        fail("ledger down"),
        ok(23),
        ok(24),
        2_000,
    )
    .err()
    .unwrap();
    assert!(matches!(err, AmmError::TransferFailed { .. }));
    // Pool untouched; the pulled deposit went back out.
    let p = &state.pools.pools[0];
    assert_eq!(v(&p.balance_0), 100_000_000);
    assert_eq!(v(&p.balance_1), 100_000_000);
    // Two transfers: the pull in and the return out.
    assert_eq!(state.transfers.transfers.len(), before + 2);
    assert!(state.claims.claims.is_empty());
}

#[test]
fn failed_return_becomes_a_claim_for_the_full_amount() {
    let mut state = bootstrapped();
    let err = add_liquidity_transfer_from(
        &mut state,
        "bob".to_string(),
        liquidity_args(100_000_000, 100_000_000),
        ok(21),
        fail("ledger down"),
        fail("still down"),
        ok(24),
        2_000,
    )
    .err()
    .unwrap();
    assert!(matches!(err, AmmError::TransferFailed { .. }));
    assert_eq!(state.claims.claims.len(), 1);
    let c = &state.claims.claims[0];
    assert!(matches!(c.status, ClaimStatus::Unclaimed));
    assert_eq!(v(&c.amount), 100_000_000);
}

#[test]
fn duplicate_deposit_block_is_refused() {
    let mut state = bootstrapped();
    // Block 11 was consumed by the bootstrap deposit of the same token.
    let err = add_liquidity_transfer_from(
        &mut state,
        "bob".to_string(),
        liquidity_args(100_000_000, 100_000_000),
        ok(11),
        ok(22),
        ok(23),
        ok(24),
        2_000,
    )
    .err()
    .unwrap();
    assert!(matches!(err, AmmError::DuplicateBlockIndex));
}

fn swap_args(pay: &str, amount: u64, receive: &str, max_slippage_e8: Option<u64>) -> SwapArgs {
    SwapArgs {
        pay_token: pay.to_string(),
        pay_amount: n(amount),
        receive_token: receive.to_string(),
        receive_amount: None,
        max_slippage_e8,
        receive_address: None,
    }
}

#[test]
fn swap_charges_the_fee_and_moves_the_pool() {
    let mut state = bootstrapped();
    let reply = swap(
        &mut state,
        "bob".to_string(),
        swap_args("AAA", 1_000_000, "ckUSDT", Some(100_000_000)),
        ok(31),
        ok(32),
        ok(33),
        3_000,
    )
    .ok()
    .unwrap();
    assert_eq!(reply.status, "Success");
    assert_eq!(v(&reply.receive_amount), 987_158);
    let p = &state.pools.pools[0];
    assert_eq!(v(&p.balance_0), 100_997_000);
    assert_eq!(v(&p.lp_fee_0), 3_000);
    assert_eq!(v(&p.balance_1), 99_012_842);
    assert_eq!(v(&p.lp_fee_1), 0);
}

#[test]
fn swap_slippage_boundary_is_inclusive() {
    // The realised slippage of this trade is 1_284_200 hundred-millionths.
    let mut state = bootstrapped();
    let reply = swap(
        &mut state,
        "bob".to_string(),
        swap_args("AAA", 1_000_000, "ckUSDT", Some(1_284_200)),
        ok(31),
        ok(32),
        ok(33),
        3_000,
    )
    .ok()
    .unwrap();
    assert_eq!(reply.slippage_e8, 1_284_200);

    let mut state = bootstrapped();
    let err = swap(
        &mut state,
        "bob".to_string(),
        swap_args("AAA", 1_000_000, "ckUSDT", Some(1_284_199)),
        ok(31),
        ok(32),
        ok(33),
        3_000,
    )
    .err()
    .unwrap();
    assert!(matches!(err, AmmError::SlippageExceeded));
}

#[test]
fn swap_round_trip_loses_about_two_fees() {
    let mut state = bootstrapped();
    let first = swap(
        &mut state,
        "bob".to_string(),
        swap_args("AAA", 1_000_000, "ckUSDT", Some(100_000_000)),
        ok(31),
        ok(32),
        ok(33),
        3_000,
    )
    .ok()
    .unwrap();
    let got = nat_to_u128(&first.receive_amount).unwrap() as u64;
    let back = swap(
        &mut state,
        "bob".to_string(),
        swap_args("ckUSDT", got, "AAA", Some(100_000_000)),
        ok(41),
        ok(42),
        ok(43),
        4_000,
    )
    .ok()
    .unwrap();
    let returned = v(&back.receive_amount);
    assert_eq!(returned, 994_068);
    // The round trip loses about twice the swap fee (3_000 each way),
    // within rounding.
    assert!(returned < 1_000_000);
    assert!(1_000_000 - returned >= 5_900);
}

#[test]
fn swap_payout_failure_rolls_the_pool_back_and_files_a_claim() {
    let mut state = bootstrapped();
    let err = swap(
        &mut state,
        "bob".to_string(),
        swap_args("AAA", 1_000_000, "ckUSDT", Some(100_000_000)),
        ok(31),
        fail("ledger down"),
        fail("still down"),
        3_000,
    )
    .err()
    .unwrap();
    assert!(matches!(err, AmmError::TransferFailed { .. }));
    let p = &state.pools.pools[0];
    assert_eq!(v(&p.balance_0), 100_000_000);
    assert_eq!(v(&p.balance_1), 100_000_000);
    assert_eq!(v(&p.lp_fee_0), 0);
    assert_eq!(state.claims.claims.len(), 1);
    assert_eq!(v(&state.claims.claims[0].amount), 1_000_000);
}

fn remove_args(amount: u64) -> RemoveLiquidityArgs {
    RemoveLiquidityArgs {
        token_0: "AAA".to_string(),
        token_1: "ckUSDT".to_string(),
        remove_lp_token_amount: n(amount),
    }
}

#[test]
fn remove_half_the_liquidity_pays_half_of_each_side() {
    let mut state = bootstrapped();
    let reply = remove_liquidity(
        &mut state,
        "alice".to_string(),
        remove_args(500_000_000),
        ok(51),
        ok(52),
        2_000,
    )
    .ok()
    .unwrap();
    assert_eq!(reply.status, "Success");
    assert_eq!(v(&reply.amount_0), 50_000_000);
    assert_eq!(v(&reply.amount_1), 50_000_000);
    assert_eq!(v(&reply.remove_lp_token_amount), 500_000_000);
    let p = &state.pools.pools[0];
    assert_eq!(v(&p.balance_0), 50_000_000);
    assert_eq!(v(&p.balance_1), 50_000_000);
    let supply = state.lp_ledger.get_total_supply(p.lp_token_id);
    assert_eq!(v(&supply), 500_000_000);
}

#[test]
fn remove_with_failed_transfer_still_burns_and_files_a_claim() {
    let mut state = bootstrapped();
    let reply = remove_liquidity(
        &mut state,
        "alice".to_string(),
        remove_args(500_000_000),
        ok(51),
        fail("ledger down"),
        2_000,
    )
    .ok()
    .unwrap();
    assert_eq!(reply.status, "Success");
    let p = &state.pools.pools[0];
    assert_eq!(v(&p.balance_0), 50_000_000);
    assert_eq!(v(&p.balance_1), 50_000_000);
    // One outbound transfer made it, the other side is owed as a claim.
    assert_eq!(state.claims.claims.len(), 1);
    let c = &state.claims.claims[0];
    assert!(matches!(c.status, ClaimStatus::Unclaimed));
    assert_eq!(c.token_id, p.token_1_id);
    assert_eq!(v(&c.amount), 50_000_000);
}

#[test]
fn remove_entire_balance_keeps_the_row_at_zero() {
    let mut state = bootstrapped();
    let p_lp = state.pools.pools[0].lp_token_id;
    remove_liquidity(
        &mut state,
        "alice".to_string(),
        remove_args(1_000_000_000),
        ok(51),
        ok(52),
        2_000,
    )
    .ok()
    .unwrap();
    let row = state.lp_ledger.get_by_token_id_by_user_id(p_lp, 1).unwrap();
    assert_eq!(v(&row.amount), 0);
}

#[test]
fn remove_clamps_to_the_callers_balance() {
    let mut state = bootstrapped();
    let reply = remove_liquidity(
        &mut state,
        "alice".to_string(),
        remove_args(5_000_000_000),
        ok(51),
        ok(52),
        2_000,
    )
    .ok()
    .unwrap();
    assert_eq!(v(&reply.remove_lp_token_amount), 1_000_000_000);
}

#[test]
fn remove_by_a_stranger_is_refused() {
    let mut state = bootstrapped();
    let err = remove_liquidity(
        &mut state,
        "mallory".to_string(),
        remove_args(1),
        ok(51),
        ok(52),
        2_000,
    )
    .err()
    .unwrap();
    assert!(matches!(err, AmmError::InsufficientLpBalance));
}

#[test]
fn add_pool_twice_is_refused() {
    let mut state = bootstrapped();
    let err = add_pool(
        &mut state,
        "alice".to_string(),
        pool_args(1_000, 1_000),
        None,
        ok(61),
        Ok(()),
        ok(62),
        Ok(()),
        ok(63),
        ok(64),
        5_000,
    )
    .err()
    .unwrap();
    assert!(matches!(err, AmmError::TokenAlreadyExists | AmmError::PoolAlreadyExists));
}

#[test]
fn add_pool_requires_the_quote_token() {
    let mut state = two_token_state();
    let mut args = pool_args(1_000, 1_000);
    args.token_1 = "AAA".to_string();
    args.token_0 = "ckUSDT".to_string();
    let err = add_pool(
        &mut state,
        "alice".to_string(),
        args,
        None,
        ok(61),
        Ok(()),
        ok(62),
        Ok(()),
        ok(63),
        ok(64),
        5_000,
    )
    .err()
    .unwrap();
    assert!(matches!(err, AmmError::QuoteTokenRequired));
}

#[test]
fn verified_deposit_with_spent_block_is_refused() {
    // A first pool attempt verifies the caller's deposit at block 7, then
    // fails on the other leg; the verified deposit is consumed but not
    // returned, and no pool exists.
    let mut s = two_token_state();
    let mut first = pool_args(100, 100);
    first.tx_id_0 = Some(TxId::BlockIndex(n(7)));
    let err = add_pool(
        &mut s,
        "alice".to_string(),
        first,
        None,
        ok(99),
        Ok(()),
        fail("ledger down"),
        Ok(()),
        ok(9),
        ok(10),
        1_000,
    )
    .err()
    .unwrap();
    assert!(matches!(err, AmmError::TransferFailed { .. }));
    assert!(s.pools.pools.is_empty());
    assert!(s.claims.claims.is_empty());

    // Retrying with the same block index is refused outright: the
    // deposit was already consumed.
    let mut retry = pool_args(100, 100);
    retry.tx_id_0 = Some(TxId::BlockIndex(n(7)));
    let err = add_pool(
        &mut s,
        "alice".to_string(),
        retry,
        None,
        ok(61),
        Ok(()),
        ok(62),
        Ok(()),
        ok(63),
        ok(64),
        2_000,
    )
    .err()
    .unwrap();
    assert!(matches!(err, AmmError::DuplicateBlockIndex));
    assert!(s.pools.pools.is_empty());
}

#[test]
fn claims_processor_settles_or_retries() {
    // Build a claim through a failed remove-liquidity payout.
    let mut state = bootstrapped();
    remove_liquidity(
        &mut state,
        "alice".to_string(),
        remove_args(500_000_000),
        ok(51),
        fail("ledger down"),
        2_000,
    )
    .ok()
    .unwrap();
    assert_eq!(state.claims.claims.len(), 1);

    // A failing retry keeps it unclaimed and records the attempt.
    process_claims(&mut state, false, vec![fail("still down")], 3_000);
    let c = &state.claims.claims[0];
    assert!(matches!(c.status, ClaimStatus::Unclaimed));
    assert_eq!(c.attempt_request_ids.len(), 1);

    // A successful retry settles it.
    process_claims(&mut state, false, vec![ok(71)], 4_000);
    let c = &state.claims.claims[0];
    assert!(matches!(c.status, ClaimStatus::Claimed));

    // A further tick leaves a settled claim alone.
    process_claims(&mut state, false, vec![ok(72)], 5_000);
    let c = &state.claims.claims[0];
    assert!(matches!(c.status, ClaimStatus::Claimed));
}

#[test]
fn maintenance_mode_blocks_the_processor() {
    let mut state = bootstrapped();
    remove_liquidity(
        &mut state,
        "alice".to_string(),
        remove_args(500_000_000),
        ok(51),
        fail("ledger down"),
        2_000,
    )
    .ok()
    .unwrap();
    process_claims(&mut state, true, vec![ok(71)], 3_000);
    assert!(matches!(state.claims.claims[0].status, ClaimStatus::Unclaimed));
}

#[test]
fn add_then_remove_returns_no_more_than_was_deposited() {
    let mut state = bootstrapped();
    let added = add_liquidity_transfer_from(
        &mut state,
        "bob".to_string(),
        liquidity_args(33_333_333, 33_333_333),
        ok(21),
        ok(22),
        ok(23),
        ok(24),
        2_000,
    )
    .ok()
    .unwrap();
    let minted = nat_to_u128(&added.add_lp_token_amount).unwrap() as u64;
    let removed = remove_liquidity(
        &mut state,
        "bob".to_string(),
        remove_args(minted),
        ok(51),
        ok(52),
        3_000,
    )
    .ok()
    .unwrap();
    let got_0 = v(&removed.amount_0) + v(&removed.lp_fee_0);
    let got_1 = v(&removed.amount_1) + v(&removed.lp_fee_1);
    assert!(got_0 <= v(&added.amount_0));
    assert!(got_1 <= v(&added.amount_1));
    // The difference is one unit of rounding at most.
    assert!(v(&added.amount_0) - got_0 <= 1);
    assert!(v(&added.amount_1) - got_1 <= 1);
}

#[test]
fn claims_without_a_destination_are_left_alone() {
    let mut state = bootstrapped();
    // A claim that carries no payout address is never attempted.
    state
        .claims
        .insert(StableClaim::new(1, 1, n(500), None, None, 1_500));
    let attempted = process_claims(&mut state, false, vec![ok(71)], 3_000);
    assert_eq!(attempted, 1);
    let c = &state.claims.claims[0];
    assert!(matches!(c.status, ClaimStatus::Unclaimed));
    assert_eq!(c.attempt_request_ids.len(), 0);
}

#[test]
fn claim_retries_run_under_the_timer_user() {
    let mut state = bootstrapped();
    remove_liquidity(
        &mut state,
        "alice".to_string(),
        remove_args(500_000_000),
        ok(51),
        fail("ledger down"),
        2_000,
    )
    .ok()
    .unwrap();
    let before = state.requests.requests.len();
    process_claims(&mut state, false, vec![ok(71)], 3_000);
    assert_eq!(state.requests.requests.len(), before + 1);
    let retry = &state.requests.requests[before];
    assert_eq!(retry.user_id, 0);
}

#[test]
fn add_pool_registers_an_unknown_token_from_metadata() {
    let mut state = State::new();
    state.tokens.insert(Token {
        token_id: 0,
        kind: TokenKind::IC,
        chain: "IC".to_string(),
        symbol: "ckUSDT".to_string(),
        address: "usdt-ledger".to_string(),
        decimals: 6,
        fee: n(10_000),
        on_kong: true,
    });
    let mut args = pool_args(100, 100);
    args.token_0 = "NEW".to_string();
    let fetched = Token {
        token_id: 0,
        kind: TokenKind::IC,
        chain: "IC".to_string(),
        symbol: "NEW".to_string(),
        address: "new-ledger".to_string(),
        decimals: 8,
        fee: n(0),
        on_kong: true,
    };
    let reply = add_pool(
        &mut state,
        "alice".to_string(),
        args,
        Some(fetched),
        ok(11),
        Ok(()),
        ok(12),
        Ok(()),
        ok(13),
        ok(14),
        1_000,
    )
    .ok()
    .unwrap();
    assert_eq!(reply.status, "Success");
    // The token was registered, then the LP token minted after it.
    assert_eq!(state.tokens.tokens.len(), 3);
    assert_eq!(state.tokens.tokens[1].symbol, "NEW");
    assert_eq!(state.pools.pools.len(), 1);
}

#[test]
fn failed_pool_attempt_stores_a_failed_reply() {
    let mut state = two_token_state();
    let err = add_pool(
        &mut state,
        "alice".to_string(),
        pool_args(100, 100),
        None,
        fail("ledger down"),
        Ok(()),
        ok(12),
        Ok(()),
        ok(13),
        ok(14),
        1_000,
    )
    .err()
    .unwrap();
    assert!(matches!(err, AmmError::TransferFailed { .. }));
    assert!(state.pools.pools.is_empty());
    let req = state.requests.requests.last().unwrap();
    assert!(req.reply.is_some());
    assert!(matches!(
        req.statuses.last().unwrap().status_code,
        kong_backend::request::StatusCode::Failed
    ));
}
