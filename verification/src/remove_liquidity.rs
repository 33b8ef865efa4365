//! The remove-liquidity engine: burn the caller's LP tokens, pay each
//! side's share of the reserves out — accumulated fees first — and file a
//! claim for any side whose outbound transfer fails.  Transfer failures
//! never roll back the burn.

use vstd::prelude::*;

use crate::add_liquidity::{
    lemma_state_log_le, lemma_state_wf_after_insert_request, lemma_state_wf_after_reply,
    lemma_state_wf_after_status, lemma_state_wf_clock, lemma_state_wf_stores, return_token,
    TokenIndex,
};
use crate::bignat::{nat_clone, nat_is_zero, nat_le, nat_subtract, BigNat};
use crate::error::AmmError;
use crate::pool::Pool;
use crate::pool_math::remove_liquidity_amounts;
use crate::replies::{copy_ids, create_remove_liquidity_reply_with_tx_id, Reply};
use crate::request::{requests_log_grew, RequestKind, Status, StatusCode};
use crate::state::State;
use crate::token::find_by_text;
use crate::tx::{RemoveLiquidityTx, StableTx, StatusTx};

verus! {

/// The withdrawal a remove-liquidity request is owed against a given
/// state: the pool's position, the caller's user id, the clamped burn
/// amount, and the two gross withdrawals.
pub open spec fn rl_plan(
    state: State,
    token_0: Seq<char>,
    token_1: Seq<char>,
    requested: nat,
    principal: Seq<char>,
) -> Option<(int, u32, nat, nat, nat)> {
    match find_by_text(state.tokens.tokens@, token_0) {
        Some(tok0) => match find_by_text(state.tokens.tokens@, token_1) {
            Some(tok1) => if state.pools.spec_contains_oriented_pair(
                tok0.token_id,
                tok1.token_id,
            ) && state.users.spec_contains_principal(principal) {
                let i = state.pools.spec_oriented_index(tok0.token_id, tok1.token_id);
                let p = state.pools.pools@[i];
                let uid = state.users.spec_user_id(principal);
                let bal = state.lp_ledger.spec_row_amount(p.lp_token_id, uid);
                let supply = state.lp_ledger.spec_supply(p.lp_token_id);
                if bal > 0 {
                    let remove = if requested <= bal {
                        requested
                    } else {
                        bal
                    };
                    Some(
                        (
                            i,
                            uid,
                            remove,
                            p.reserve_0() * remove / supply,
                            p.reserve_1() * remove / supply,
                        ),
                    )
                } else {
                    None
                }
            } else {
                None
            },
            None => None,
        },
        None => None,
    }
}

/// The part of a withdrawal served from accumulated fees.
pub open spec fn fee_part(withdraw: nat, lp_fee: nat) -> nat {
    if withdraw <= lp_fee {
        withdraw
    } else {
        lp_fee
    }
}

/// Remove liquidity from a pool: burn the caller's LP amount (clamped to
/// their balance), decrement the reserves by each side's share — fees
/// first — and send both sides out; a failed send becomes a claim.
#[verifier::rlimit(100)]
pub fn remove_liquidity(
    state: &mut State,
    caller_principal: String,
    args: crate::request::RemoveLiquidityArgs,
    transfer_0_outcome: Result<BigNat, String>,
    transfer_1_outcome: Result<BigNat, String>,
    ts: u64,
) -> (r: Result<crate::replies::RemoveLiquidityReply, AmmError>)
    requires
        old(state).wf(),
        old(state).can_allocate(),
        ts >= old(state).clock,
    ensures
        final(state).wf(),
        final(state).clock == ts,
        final(state).tokens == old(state).tokens,
        final(state).users == old(state).users,
        ({
            let plan_opt = rl_plan(
                *old(state),
                args.token_0@,
                args.token_1@,
                args.remove_lp_token_amount@,
                caller_principal@,
            );
            let valid = args.remove_lp_token_amount@ > 0 && plan_opt is Some;
            &&& (r is Ok <==> valid)
            &&& (!valid ==> final(state).pools == old(state).pools && final(state).lp_ledger
                == old(state).lp_ledger && final(state).requests == old(state).requests
                && final(state).transfers == old(state).transfers && final(state).txs == old(
                state,
            ).txs && final(state).claims == old(state).claims)
            &&& (valid ==> ({
                let plan = plan_opt->Some_0;
                let i = plan.0;
                let uid = plan.1;
                let remove = plan.2;
                let w0 = plan.3;
                let w1 = plan.4;
                let p = old(state).pools.pools@[i];
                let ff0 = fee_part(w0, p.lp_fee_0@);
                let ff1 = fee_part(w1, p.lp_fee_1@);
                &&& final(state).pools.pools@.len() == old(state).pools.pools@.len()
                &&& (forall|j: int|
                    0 <= j < old(state).pools.pools@.len() && j != i
                        ==> #[trigger] final(state).pools.pools@[j] == old(
                        state,
                    ).pools.pools@[j])
                &&& final(state).pools.pools@[i].pool_id == p.pool_id
                &&& final(state).pools.pools@[i].balance_0@ == p.balance_0@ - (w0 - ff0)
                &&& final(state).pools.pools@[i].balance_1@ == p.balance_1@ - (w1 - ff1)
                &&& final(state).pools.pools@[i].lp_fee_0@ == p.lp_fee_0@ - ff0
                &&& final(state).pools.pools@[i].lp_fee_1@ == p.lp_fee_1@ - ff1
                &&& final(state).lp_ledger.spec_supply(p.lp_token_id) + remove == old(
                    state,
                ).lp_ledger.spec_supply(p.lp_token_id)
                &&& final(state).lp_ledger.spec_row_amount(p.lp_token_id, uid) + remove == old(
                    state,
                ).lp_ledger.spec_row_amount(p.lp_token_id, uid)
                &&& final(state).lp_ledger.spec_has_row(p.lp_token_id, uid)
                &&& final(state).txs.txs@.len() == old(state).txs.txs@.len() + 1
                &&& (final(state).txs.txs@.last() matches StableTx::RemoveLiquidity(tx)
                    && tx.pool_id == p.pool_id && tx.user_id == uid && tx.status is Success
                    && tx.amount_0@ == w0 - ff0 && tx.lp_fee_0@ == ff0 && tx.amount_1@ == w1
                    - ff1 && tx.lp_fee_1@ == ff1 && tx.remove_lp_token_amount@ == remove
                    && tx.ts == ts)
                &&& (transfer_0_outcome is Ok && transfer_1_outcome is Ok
                    ==> final(state).claims == old(state).claims)
                &&& (transfer_0_outcome is Ok && transfer_1_outcome is Err
                    ==> final(state).claims.claims@.len() == old(state).claims.claims@.len() + 1
                    && ({
                    let c = final(state).claims.claims@.last();
                    &&& c.user_id == uid
                    &&& c.status is Unclaimed
                    &&& c.token_id == p.token_1_id
                    &&& c.amount@ == w1
                }))
                &&& (transfer_0_outcome is Err && transfer_1_outcome is Ok
                    ==> final(state).claims.claims@.len() == old(state).claims.claims@.len() + 1
                    && ({
                    let c = final(state).claims.claims@.last();
                    &&& c.user_id == uid
                    &&& c.status is Unclaimed
                    &&& c.token_id == p.token_0_id
                    &&& c.amount@ == w0
                }))
                &&& (transfer_0_outcome is Err && transfer_1_outcome is Err
                    ==> final(state).claims.claims@.len() == old(state).claims.claims@.len() + 2)
                &&& final(state).requests.requests@.len() == old(
                    state,
                ).requests.requests@.len() + 1
                &&& ({
                    let fr = final(state).requests.requests@.last();
                    &&& fr.request_id == old(state).requests.next_request_id
                    &&& fr.user_id == uid
                    &&& fr.request == RequestKind::RemoveLiquidity(args)
                    &&& fr.statuses@.len() > 0
                    &&& fr.statuses@.last().status_code is Success
                    &&& crate::request::terminal_count(fr.statuses@) == 1
                    &&& fr.reply is Some
                })
                &&& (r matches Ok(reply) ==> reply.amount_0@ == w0 - ff0 && reply.lp_fee_0@
                    == ff0 && reply.amount_1@ == w1 - ff1 && reply.lp_fee_1@ == ff1
                    && reply.remove_lp_token_amount@ == remove && reply.status@ == "Success"@
                    && reply.request_id == old(state).requests.next_request_id)
            }))
        }),
{
    let ghost pre = *old(state);
    state.clock = ts;
    proof {
        lemma_state_wf_clock(pre, *state, ts);
    }
    if nat_is_zero(&args.remove_lp_token_amount) {
        return Err(AmmError::ZeroAmount);
    }
    let tok0 = match state.tokens.get_by_text(&args.token_0) {
        Some(t) => t,
        None => {
            return Err(AmmError::TokenNotFound);
        },
    };
    let tok1 = match state.tokens.get_by_text(&args.token_1) {
        Some(t) => t,
        None => {
            return Err(AmmError::TokenNotFound);
        },
    };
    let token_0_id = tok0.token_id;
    let fee_token_0 = nat_clone(&tok0.fee);
    let token_1_id = tok1.token_id;
    let fee_token_1 = nat_clone(&tok1.fee);
    let found = state.pools.index_of_oriented_pair(token_0_id, token_1_id);
    let i = match found {
        Some(i) => i,
        None => {
            return Err(AmmError::PoolNotFound);
        },
    };
    proof {
        state.pools.lemma_oriented_unique(token_0_id, token_1_id, i as int);
        state.pools.lemma_id_unique(state.pools.pools@[i as int].pool_id, i as int);
        assert(state.pools.pools@[i as int].wf());
    }
    let pool_id = state.pools.pools[i].pool_id;
    let lp_token_id = state.pools.pools[i].lp_token_id;
    let user_id = match state.users.get_user_id_by_principal(&caller_principal) {
        Some(u) => u,
        None => {
            return Err(AmmError::InsufficientLpBalance);
        },
    };
    let row_index = match state.lp_ledger.index_of_row(lp_token_id, user_id) {
        Some(k) => k,
        None => {
            proof {
                assert(state.lp_ledger.spec_row_amount(lp_token_id, user_id) == 0);
            }
            return Err(AmmError::InsufficientLpBalance);
        },
    };
    proof {
        state.lp_ledger.lemma_row_unique(lp_token_id, user_id, row_index as int);
    }
    if nat_is_zero(&state.lp_ledger.rows[row_index].amount) {
        return Err(AmmError::InsufficientLpBalance);
    }
    // Clamp the burn to the caller's balance.
    let balance = nat_clone(&state.lp_ledger.rows[row_index].amount);
    let remove_amount = if nat_le(&args.remove_lp_token_amount, &balance) {
        nat_clone(&args.remove_lp_token_amount)
    } else {
        nat_clone(&balance)
    };
    let supply = state.lp_ledger.get_total_supply(lp_token_id);
    proof {
        crate::lp_token_ledger::lemma_row_le_supply(
            state.lp_ledger.rows@,
            row_index as int,
            lp_token_id,
        );
    }
    let reserve_0 = state.pools.pools[i].reserve_0_amount();
    let reserve_1 = state.pools.pools[i].reserve_1_amount();
    let (w0, w1) = remove_liquidity_amounts(&remove_amount, &reserve_0, &reserve_1, &supply);
    proof {
        crate::pool_math::lemma_share_le_reserve(reserve_0@, remove_amount@, supply@);
        crate::pool_math::lemma_share_le_reserve(reserve_1@, remove_amount@, supply@);
    }
    // The fee accumulators are paid out first; the rest comes from the
    // balances.
    let from_fee_0 = if nat_le(&w0, &state.pools.pools[i].lp_fee_0) {
        nat_clone(&w0)
    } else {
        nat_clone(&state.pools.pools[i].lp_fee_0)
    };
    let from_balance_0 = nat_subtract(&w0, &from_fee_0).unwrap();
    let from_fee_1 = if nat_le(&w1, &state.pools.pools[i].lp_fee_1) {
        nat_clone(&w1)
    } else {
        nat_clone(&state.pools.pools[i].lp_fee_1)
    };
    let from_balance_1 = nat_subtract(&w1, &from_fee_1).unwrap();
    let ghost s1 = *state;
    let request_id = state.requests.insert(
        user_id,
        RequestKind::RemoveLiquidity(args),
        ts,
    );
    proof {
        lemma_state_wf_after_insert_request(s1, *state);
    }
    let ghost s2 = *state;
    let ghost e_start = Status { status_code: StatusCode::Start, message: None, ts };
    proof {
        lemma_state_log_le(*state, request_id, ts);
    }
    state.requests.update_status(request_id, StatusCode::Start, None, ts);
    proof {
        lemma_state_wf_after_status(s2, *state, request_id, e_start);
        crate::request::lemma_requests_appended_grew(
            s2.requests,
            state.requests,
            request_id,
            e_start,
        );
    }
    // Burn the caller's LP amount.
    let ghost s3 = *state;
    let ghost e_burn = Status {
        status_code: StatusCode::UpdateUserLPTokenAmount,
        message: None,
        ts,
    };
    proof {
        lemma_state_log_le(*state, request_id, ts);
    }
    state.requests.update_status(request_id, StatusCode::UpdateUserLPTokenAmount, None, ts);
    proof {
        lemma_state_wf_after_status(s3, *state, request_id, e_burn);
        crate::request::lemma_requests_appended_grew(
            s3.requests,
            state.requests,
            request_id,
            e_burn,
        );
    }
    let ghost s4 = *state;
    let row_key = state.lp_ledger.rows[row_index].lp_token_id;
    let burned = nat_subtract(&state.lp_ledger.rows[row_index].amount, &remove_amount).unwrap();
    let new_row = crate::lp_token_ledger::StableLPTokenLedger {
        lp_token_id: row_key,
        user_id,
        token_id: lp_token_id,
        amount: burned,
        ts,
    };
    state.lp_ledger.update(new_row);
    proof {
        let f = state.lp_ledger;
        let o = s4.lp_ledger;
        assert(f.rows@[row_index as int].user_id == user_id && f.rows@[row_index as int].token_id
            == lp_token_id);
        f.lemma_row_unique(lp_token_id, user_id, row_index as int);
        assert forall|t: u32|
            #![trigger f.spec_supply(t)]
            f.spec_supply(t) + crate::lp_token_ledger::supply_part(o.rows@[row_index as int], t)
                == o.spec_supply(t) + crate::lp_token_ledger::supply_part(
                f.rows@[row_index as int],
                t,
            ) by {
            assert(o.rows@[row_index as int].lp_token_id == row_key);
        }
        lemma_state_wf_stores(s4, *state);
    }
    let ghost s5 = *state;
    let ghost e_burn_ok = Status {
        status_code: StatusCode::UpdateUserLPTokenAmountSuccess,
        message: None,
        ts,
    };
    proof {
        lemma_state_log_le(*state, request_id, ts);
    }
    state.requests.update_status(
        request_id,
        StatusCode::UpdateUserLPTokenAmountSuccess,
        None,
        ts,
    );
    proof {
        lemma_state_wf_after_status(s5, *state, request_id, e_burn_ok);
        crate::request::lemma_requests_appended_grew(
            s5.requests,
            state.requests,
            request_id,
            e_burn_ok,
        );
        assert(s5.requests == s4.requests);
        crate::request::lemma_requests_grew_trans(
            s3.requests,
            s4.requests,
            state.requests,
            request_id,
            1,
            1,
            ts,
        );
        crate::request::lemma_requests_grew_trans(
            s2.requests,
            s3.requests,
            state.requests,
            request_id,
            1,
            2,
            ts,
        );
    }
    // Decrement the pool's reserves, fee accumulators first.
    let ghost s6 = *state;
    let ghost e_pool = Status { status_code: StatusCode::UpdatePoolAmounts, message: None, ts };
    proof {
        lemma_state_log_le(*state, request_id, ts);
    }
    state.requests.update_status(request_id, StatusCode::UpdatePoolAmounts, None, ts);
    proof {
        lemma_state_wf_after_status(s6, *state, request_id, e_pool);
        crate::request::lemma_requests_appended_grew(
            s6.requests,
            state.requests,
            request_id,
            e_pool,
        );
        crate::request::lemma_requests_grew_trans(
            s2.requests,
            s6.requests,
            state.requests,
            request_id,
            3,
            1,
            ts,
        );
    }
    let ghost s7 = *state;
    let updated_pool = Pool {
        pool_id: state.pools.pools[i].pool_id,
        token_0_id: state.pools.pools[i].token_0_id,
        token_1_id: state.pools.pools[i].token_1_id,
        balance_0: nat_subtract(&state.pools.pools[i].balance_0, &from_balance_0).unwrap(),
        balance_1: nat_subtract(&state.pools.pools[i].balance_1, &from_balance_1).unwrap(),
        lp_fee_0: nat_subtract(&state.pools.pools[i].lp_fee_0, &from_fee_0).unwrap(),
        lp_fee_1: nat_subtract(&state.pools.pools[i].lp_fee_1, &from_fee_1).unwrap(),
        lp_fee_bps: state.pools.pools[i].lp_fee_bps,
        kong_fee_bps: state.pools.pools[i].kong_fee_bps,
        lp_token_id: state.pools.pools[i].lp_token_id,
        on_kong: state.pools.pools[i].on_kong,
    };
    state.pools.update(updated_pool);
    proof {
        state.pools.lemma_id_unique(pool_id, i as int);
        lemma_state_wf_stores(s7, *state);
    }
    let ghost s8 = *state;
    let ghost e_pool_ok = Status {
        status_code: StatusCode::UpdatePoolAmountsSuccess,
        message: None,
        ts,
    };
    proof {
        lemma_state_log_le(*state, request_id, ts);
    }
    state.requests.update_status(request_id, StatusCode::UpdatePoolAmountsSuccess, None, ts);
    proof {
        lemma_state_wf_after_status(s8, *state, request_id, e_pool_ok);
        crate::request::lemma_requests_appended_grew(
            s8.requests,
            state.requests,
            request_id,
            e_pool_ok,
        );
        assert(s8.requests == s7.requests);
        crate::request::lemma_requests_grew_trans(
            s6.requests,
            s7.requests,
            state.requests,
            request_id,
            1,
            1,
            ts,
        );
        crate::request::lemma_requests_grew_trans(
            s2.requests,
            s6.requests,
            state.requests,
            request_id,
            3,
            2,
            ts,
        );
    }
    // Send both sides out; a failed send is owed as a claim for the full
    // gross amount.
    let mut transfer_ids: Vec<u64> = Vec::new();
    let mut claim_ids: Vec<u64> = Vec::new();
    let ghost s9 = *state;
    return_token(
        state,
        request_id,
        user_id,
        &caller_principal,
        TokenIndex::Token0,
        token_0_id,
        &fee_token_0,
        &w0,
        transfer_0_outcome,
        &mut transfer_ids,
        &mut claim_ids,
        ts,
    );
    let ghost s10 = *state;
    return_token(
        state,
        request_id,
        user_id,
        &caller_principal,
        TokenIndex::Token1,
        token_1_id,
        &fee_token_1,
        &w1,
        transfer_1_outcome,
        &mut transfer_ids,
        &mut claim_ids,
        ts,
    );
    proof {
        crate::request::lemma_requests_grew_trans(
            s9.requests,
            s10.requests,
            state.requests,
            request_id,
            2,
            2,
            ts,
        );
        crate::request::lemma_requests_grew_trans(
            s2.requests,
            s9.requests,
            state.requests,
            request_id,
            5,
            4,
            ts,
        );
    }
    // Record the transaction and store the reply.
    let tx = RemoveLiquidityTx {
        tx_id: 0,
        pool_id,
        user_id,
        request_id,
        status: StatusTx::Success,
        amount_0: nat_clone(&from_balance_0),
        lp_fee_0: nat_clone(&from_fee_0),
        amount_1: nat_clone(&from_balance_1),
        lp_fee_1: nat_clone(&from_fee_1),
        remove_lp_token_amount: nat_clone(&remove_amount),
        transfer_ids: copy_ids(&transfer_ids),
        claim_ids: copy_ids(&claim_ids),
        ts,
    };
    let ghost s11 = *state;
    let tx_id = state.txs.insert(StableTx::RemoveLiquidity(tx));
    proof {
        lemma_state_wf_stores(s11, *state);
    }
    let tx_ref = match &state.txs.txs[state.txs.txs.len() - 1] {
        StableTx::RemoveLiquidity(t) => t,
        _ => {
            proof {
                assert(false);
            }
            return Err(AmmError::StateCorrupted);
        },
    };
    let reply = create_remove_liquidity_reply_with_tx_id(tx_id, tx_ref, &state.pools, &state.tokens);
    let returned = reply.duplicate();
    let ghost s12 = *state;
    state.requests.update_reply(request_id, Reply::RemoveLiquidity(reply));
    proof {
        lemma_state_wf_after_reply(s12, *state, request_id);
        crate::request::lemma_requests_grew_then_reply(
            s2.requests,
            s12.requests,
            state.requests,
            request_id,
            9,
            ts,
        );
    }
    let ghost s13 = *state;
    let ghost e_term = Status { status_code: StatusCode::Success, message: None, ts };
    proof {
        lemma_state_log_le(*state, request_id, ts);
    }
    state.requests.update_status(request_id, StatusCode::Success, None, ts);
    proof {
        lemma_state_wf_after_status(s13, *state, request_id, e_term);
        crate::add_liquidity::lemma_finalized(s2, s13, *state, request_id, e_term, 9, true);
    }
    Ok(returned)
}

} // verus!
