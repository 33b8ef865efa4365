//! The swap engine: price a constant-product swap against the pool that
//! joins the two tokens, refuse it before any transfer when the slippage
//! or minimum-receive bound fails, then pull the pay side, move the pool
//! and send the receive side out; a failed payout rolls the pool back and
//! returns the pay amount, with a claim as the last resort.

use vstd::prelude::*;

use crate::add_liquidity::{
    lemma_state_log_le, lemma_state_wf_after_insert_request, lemma_state_wf_after_reply,
    lemma_state_wf_after_status, lemma_state_wf_clock, lemma_state_wf_stores, return_token,
    transfer_from_token, TokenIndex,
};
use crate::bignat::{nat_add, nat_clone, nat_is_zero, nat_le, nat_subtract, nat_zero, BigNat};
use crate::error::AmmError;
use crate::pool::Pool;
use crate::pool_math::{
    fee_of, spec_receive, spec_slippage_e8, swap_amounts, swap_lp_fee, SwapOutcome,
};
use crate::replies::{copy_ids, Reply, SwapReply};
use crate::request::{requests_log_grew, RequestKind, Status, StatusCode};
use crate::state::State;
use crate::token::find_by_text;
use crate::transfer::{StableTransfer, TxId};
use crate::tx::{StableTx, StatusTx, SwapCalc, SwapTx};

verus! {

/// The slippage bound used when the caller sets none, in
/// hundred-millionths: two percent.
pub const DEFAULT_MAX_SLIPPAGE_E8: u64 = 2_000_000;

/// The pricing decision of a swap against a given state: the pool's
/// position, whether the pay token is the pool's token 1, the gross
/// payout, the LP fee, and the realised slippage.
pub open spec fn swap_plan(
    state: State,
    pay_token: Seq<char>,
    pay_amount: nat,
    receive_token: Seq<char>,
    max_slippage_e8: Option<u64>,
    min_receive: Option<BigNat>,
) -> Option<(int, bool, nat, nat, nat)> {
    match find_by_text(state.tokens.tokens@, pay_token) {
        Some(payt) => match find_by_text(state.tokens.tokens@, receive_token) {
            Some(rect) => {
                let fwd = state.pools.spec_contains_oriented_pair(
                    payt.token_id,
                    rect.token_id,
                );
                let rev = state.pools.spec_contains_oriented_pair(
                    rect.token_id,
                    payt.token_id,
                );
                if pay_amount > 0 && (fwd || rev) {
                    let i = if fwd {
                        state.pools.spec_oriented_index(payt.token_id, rect.token_id)
                    } else {
                        state.pools.spec_oriented_index(rect.token_id, payt.token_id)
                    };
                    let p = state.pools.pools@[i];
                    let reversed = !fwd;
                    let rp = if reversed {
                        p.reserve_1()
                    } else {
                        p.reserve_0()
                    };
                    let rr = if reversed {
                        p.reserve_0()
                    } else {
                        p.reserve_1()
                    };
                    let rbal = if reversed {
                        p.balance_0@
                    } else {
                        p.balance_1@
                    };
                    let receive = spec_receive(
                        pay_amount,
                        payt.decimals as nat,
                        rp,
                        rr,
                        rect.decimals as nat,
                        p.lp_fee_bps,
                    );
                    let slip = spec_slippage_e8(
                        pay_amount,
                        payt.decimals as nat,
                        rp,
                        rr,
                        rect.decimals as nat,
                        p.lp_fee_bps,
                    );
                    let bound = match max_slippage_e8 {
                        Some(b) => b as nat,
                        None => DEFAULT_MAX_SLIPPAGE_E8 as nat,
                    };
                    let net = if receive <= rect.fee@ {
                        0
                    } else {
                        (receive - rect.fee@) as nat
                    };
                    let min_ok = match min_receive {
                        Some(m) => net >= m@,
                        None => true,
                    };
                    if slip <= bound && min_ok && receive <= rbal {
                        Some((i, reversed, receive, swap_lp_fee(pay_amount, p.lp_fee_bps, p.kong_fee_bps), slip))
                    } else {
                        None
                    }
                } else {
                    None
                }
            },
            None => None,
        },
        None => None,
    }
}

/// Send the swapped-for tokens to the caller, net of the ledger fee,
/// recording the transfer.  No claim arises here: a failed payout is
/// rolled back by the caller instead.
pub fn send_receive_token(
    state: &mut State,
    request_id: u64,
    token_id: u32,
    net_amount: &BigNat,
    outcome: Result<BigNat, String>,
    ts: u64,
) -> (r: Result<u64, AmmError>)
    requires
        old(state).wf(),
        old(state).transfers.can_insert(),
        ts == old(state).clock,
    ensures
        final(state).wf(),
        final(state).users == old(state).users,
        final(state).tokens == old(state).tokens,
        final(state).pools == old(state).pools,
        final(state).lp_ledger == old(state).lp_ledger,
        final(state).txs == old(state).txs,
        final(state).claims == old(state).claims,
        final(state).clock == old(state).clock,
        final(state).transfers.next_transfer_id <= old(state).transfers.next_transfer_id + 1,
        r is Ok <==> (outcome matches Ok(b) && !old(state).transfers.spec_contains_block(
            token_id,
            b@,
        )),
        r matches Ok(tid) ==> (outcome matches Ok(b) && ({
            &&& tid == old(state).transfers.next_transfer_id
            &&& final(state).transfers.transfers@.len() == old(state).transfers.transfers@.len()
                + 1
            &&& (forall|k: int|
                0 <= k < old(state).transfers.transfers@.len()
                    ==> #[trigger] final(state).transfers.transfers@[k] == old(
                    state,
                ).transfers.transfers@[k])
            &&& ({
                let t = final(state).transfers.transfers@.last();
                &&& t.transfer_id == tid
                &&& t.request_id == request_id
                &&& t.is_send == false
                &&& t.amount@ == net_amount@
                &&& t.token_id == token_id
                &&& t.tx_id == TxId::BlockIndex(b)
                &&& t.ts == ts
            })
        })),
        r is Err ==> final(state).transfers == old(state).transfers,
        requests_log_grew(old(state).requests, final(state).requests, request_id, 2, ts),
        ({
            let e1 = Status { status_code: StatusCode::SendReceiveToken, message: None, ts };
            &&& (r is Ok ==> crate::request::requests_appended2(
                old(state).requests,
                final(state).requests,
                request_id,
                e1,
                Status { status_code: StatusCode::SendReceiveTokenSuccess, message: None, ts },
            ))
            &&& (outcome matches Err(m) ==> crate::request::requests_appended2(
                old(state).requests,
                final(state).requests,
                request_id,
                e1,
                Status {
                    status_code: StatusCode::SendReceiveTokenFailed,
                    message: Some(m),
                    ts,
                },
            ))
            &&& (r is Err && outcome is Ok ==> crate::request::requests_appended2(
                old(state).requests,
                final(state).requests,
                request_id,
                e1,
                Status { status_code: StatusCode::SendReceiveTokenFailed, message: None, ts },
            ))
        }),
{
    proof {
        lemma_state_log_le(*state, request_id, ts);
    }
    let ghost s0 = *state;
    let ghost e1 = Status { status_code: StatusCode::SendReceiveToken, message: None, ts };
    state.requests.update_status(request_id, StatusCode::SendReceiveToken, None, ts);
    proof {
        lemma_state_wf_after_status(s0, *state, request_id, e1);
        crate::request::lemma_requests_appended_grew(s0.requests, state.requests, request_id, e1);
    }
    let ghost s1 = *state;
    match outcome {
        Ok(block) => {
            if state.transfers.contain(token_id, &block) {
                let ghost e2 = Status {
                    status_code: StatusCode::SendReceiveTokenFailed,
                    message: None,
                    ts,
                };
                proof {
                    lemma_state_log_le(*state, request_id, ts);
                }
                state.requests.update_status(
                    request_id,
                    StatusCode::SendReceiveTokenFailed,
                    None,
                    ts,
                );
                proof {
                    lemma_state_wf_after_status(s1, *state, request_id, e2);
                    crate::request::lemma_requests_appended_grew(
                        s1.requests,
                        state.requests,
                        request_id,
                        e2,
                    );
                    crate::request::lemma_requests_grew_trans(
                        s0.requests,
                        s1.requests,
                        state.requests,
                        request_id,
                        1,
                        1,
                        ts,
                    );
                    crate::request::lemma_requests_appended2(
                        s0.requests,
                        s1.requests,
                        state.requests,
                        request_id,
                        e1,
                        e2,
                    );
                }
                Err(AmmError::DuplicateBlockIndex)
            } else {
                let transfer_id = state.transfers.insert(
                    StableTransfer {
                        transfer_id: 0,
                        request_id,
                        is_send: false,
                        amount: nat_clone(net_amount),
                        token_id,
                        tx_id: TxId::BlockIndex(block),
                        ts,
                    },
                );
                let ghost e2 = Status {
                    status_code: StatusCode::SendReceiveTokenSuccess,
                    message: None,
                    ts,
                };
                proof {
                    lemma_state_log_le(*state, request_id, ts);
                }
                state.requests.update_status(
                    request_id,
                    StatusCode::SendReceiveTokenSuccess,
                    None,
                    ts,
                );
                proof {
                    lemma_state_wf_after_status(s1, *state, request_id, e2);
                    crate::request::lemma_requests_appended_grew(
                        s1.requests,
                        state.requests,
                        request_id,
                        e2,
                    );
                    crate::request::lemma_requests_grew_trans(
                        s0.requests,
                        s1.requests,
                        state.requests,
                        request_id,
                        1,
                        1,
                        ts,
                    );
                    crate::request::lemma_requests_appended2(
                        s0.requests,
                        s1.requests,
                        state.requests,
                        request_id,
                        e1,
                        e2,
                    );
                }
                Ok(transfer_id)
            }
        },
        Err(message) => {
            let ghost e2 = Status {
                status_code: StatusCode::SendReceiveTokenFailed,
                message: Some(message),
                ts,
            };
            proof {
                lemma_state_log_le(*state, request_id, ts);
            }
            state.requests.update_status(
                request_id,
                StatusCode::SendReceiveTokenFailed,
                Some(message.clone()),
                ts,
            );
            proof {
                lemma_state_wf_after_status(s1, *state, request_id, e2);
                crate::request::lemma_requests_appended_grew(
                    s1.requests,
                    state.requests,
                    request_id,
                    e2,
                );
                crate::request::lemma_requests_grew_trans(
                    s0.requests,
                    s1.requests,
                    state.requests,
                    request_id,
                    1,
                    1,
                    ts,
                );
                crate::request::lemma_requests_appended2(
                    s0.requests,
                    s1.requests,
                    state.requests,
                    request_id,
                    e1,
                    e2,
                );
            }
            Err(AmmError::TransferFailed { message })
        },
    }
}

/// Swap one token for another through their pool: refuse the trade before
/// any transfer when a bound fails; otherwise pull the pay amount, move
/// the pool by the constant-product rule and pay out.  If the payout
/// fails, the pool is restored and the pay amount returned, with a claim
/// when even the return fails.  A trade crosses exactly one pool — the
/// pair's own; the transaction record keeps a per-leg shape all the same,
/// so a route of several pools reads as a list of legs.
#[verifier::rlimit(100)]
pub fn swap(
    state: &mut State,
    caller_principal: String,
    args: crate::request::SwapArgs,
    pay_outcome: Result<BigNat, String>,
    send_outcome: Result<BigNat, String>,
    return_outcome: Result<BigNat, String>,
    ts: u64,
) -> (r: Result<SwapReply, AmmError>)
    requires
        old(state).wf(),
        old(state).can_allocate(),
        ts >= old(state).clock,
    ensures
        final(state).wf(),
        final(state).clock == ts,
        final(state).tokens == old(state).tokens,
        final(state).lp_ledger == old(state).lp_ledger,
        ({
            let plan_opt = swap_plan(
                *old(state),
                args.pay_token@,
                args.pay_amount@,
                args.receive_token@,
                args.max_slippage_e8,
                args.receive_amount,
            );
            &&& (plan_opt is None ==> r is Err && final(state).pools == old(state).pools
                && final(state).requests == old(state).requests
                && final(state).transfers == old(state).transfers
                && final(state).txs == old(state).txs
                && final(state).claims == old(state).claims)
            &&& (plan_opt matches Some(plan) ==> ({
                let payt = find_by_text(old(state).tokens.tokens@, args.pay_token@)->Some_0;
                let rect = find_by_text(old(state).tokens.tokens@, args.receive_token@)->Some_0;
                let i = plan.0;
                let reversed = plan.1;
                let receive = plan.2;
                let lp_fee = plan.3;
                let p = old(state).pools.pools@[i];
                let pull = pay_outcome matches Ok(b) && !old(
                    state,
                ).transfers.spec_contains_block(payt.token_id, b@);
                let pay_eff = (args.pay_amount@ - fee_of(args.pay_amount@, p.lp_fee_bps)) as nat;
                &&& (r is Ok <==> pull && (send_outcome matches Ok(b)
                    && !old(state).transfers.spec_contains_block(rect.token_id, b@)))
                &&& (r matches Ok(reply) ==> ({
                    &&& final(state).pools.pools@.len() == old(state).pools.pools@.len()
                    &&& (forall|j: int|
                        0 <= j < old(state).pools.pools@.len() && j != i
                            ==> #[trigger] final(state).pools.pools@[j] == old(
                            state,
                        ).pools.pools@[j])
                    &&& final(state).pools.pools@[i].pool_id == p.pool_id
                    &&& (!reversed ==> final(state).pools.pools@[i].balance_0@ == p.balance_0@
                        + pay_eff && final(state).pools.pools@[i].lp_fee_0@ == p.lp_fee_0@
                        + lp_fee && final(state).pools.pools@[i].balance_1@ == p.balance_1@
                        - receive && final(state).pools.pools@[i].lp_fee_1@ == p.lp_fee_1@)
                    &&& (reversed ==> final(state).pools.pools@[i].balance_1@ == p.balance_1@
                        + pay_eff && final(state).pools.pools@[i].lp_fee_1@ == p.lp_fee_1@
                        + lp_fee && final(state).pools.pools@[i].balance_0@ == p.balance_0@
                        - receive && final(state).pools.pools@[i].lp_fee_0@ == p.lp_fee_0@)
                    &&& final(state).claims == old(state).claims
                    &&& final(state).txs.txs@.len() == old(state).txs.txs@.len() + 1
                    &&& (final(state).txs.txs@.last() matches StableTx::Swap(tx)
                        && tx.pay_token_id == payt.token_id && tx.receive_token_id
                        == rect.token_id && tx.pay_amount@ == args.pay_amount@
                        && tx.receive_amount@ == receive && tx.slippage_e8 == plan.4
                        && tx.status is Success && tx.ts == ts)
                    &&& reply.pay_amount@ == args.pay_amount@
                    &&& reply.receive_amount@ == receive
                    &&& reply.slippage_e8 == plan.4
                    &&& reply.status@ == "Success"@
                    &&& reply.request_id == old(state).requests.next_request_id
                }))
                &&& (r is Err ==> final(state).txs == old(state).txs && ({
                    &&& final(state).pools.pools@.len() == old(state).pools.pools@.len()
                    &&& (forall|j: int|
                        0 <= j < old(state).pools.pools@.len() && j != i
                            ==> #[trigger] final(state).pools.pools@[j] == old(
                            state,
                        ).pools.pools@[j])
                    &&& final(state).pools.pools@[i].pool_id == p.pool_id
                    &&& final(state).pools.pools@[i].balance_0@ == p.balance_0@
                    &&& final(state).pools.pools@[i].balance_1@ == p.balance_1@
                    &&& final(state).pools.pools@[i].lp_fee_0@ == p.lp_fee_0@
                    &&& final(state).pools.pools@[i].lp_fee_1@ == p.lp_fee_1@
                }))
                &&& (!pull ==> final(state).claims == old(state).claims
                    && final(state).transfers == old(state).transfers)
                &&& (pull && r is Err && return_outcome is Err
                    ==> final(state).claims.claims@.len() == old(state).claims.claims@.len() + 1
                    && ({
                    let c = final(state).claims.claims@.last();
                    &&& c.status is Unclaimed
                    &&& c.token_id == payt.token_id
                    &&& c.amount@ == args.pay_amount@
                }))
                &&& (pull && r is Err && return_outcome is Ok
                    ==> final(state).claims == old(state).claims)
                &&& final(state).requests.requests@.len() == old(
                    state,
                ).requests.requests@.len() + 1
                &&& ({
                    let fr = final(state).requests.requests@.last();
                    &&& fr.request_id == old(state).requests.next_request_id
                    &&& fr.request == RequestKind::Swap(args)
                    &&& fr.statuses@.len() > 0
                    &&& crate::request::is_terminal(fr.statuses@.last().status_code)
                    &&& crate::request::terminal_count(fr.statuses@) == 1
                    &&& (r is Ok <==> fr.statuses@.last().status_code is Success)
                })
            }))
        }),
{
    let ghost pre = *old(state);
    state.clock = ts;
    proof {
        lemma_state_wf_clock(pre, *state, ts);
    }
    if nat_is_zero(&args.pay_amount) {
        return Err(AmmError::ZeroAmount);
    }
    let payt = match state.tokens.get_by_text(&args.pay_token) {
        Some(t) => t,
        None => {
            return Err(AmmError::TokenNotFound);
        },
    };
    let rect = match state.tokens.get_by_text(&args.receive_token) {
        Some(t) => t,
        None => {
            return Err(AmmError::TokenNotFound);
        },
    };
    let pay_token_id = payt.token_id;
    let pay_decimals = payt.decimals;
    let pay_fee = nat_clone(&payt.fee);
    let receive_token_id = rect.token_id;
    let receive_decimals = rect.decimals;
    let receive_fee = nat_clone(&rect.fee);
    let (i, reversed) = match state.pools.index_of_oriented_pair(pay_token_id, receive_token_id) {
        Some(i) => (i, false),
        None => match state.pools.index_of_oriented_pair(receive_token_id, pay_token_id) {
            Some(i) => (i, true),
            None => {
                return Err(AmmError::PoolNotFound);
            },
        },
    };
    proof {
        if !reversed {
            state.pools.lemma_oriented_unique(pay_token_id, receive_token_id, i as int);
        } else {
            state.pools.lemma_oriented_unique(receive_token_id, pay_token_id, i as int);
            if state.pools.spec_contains_oriented_pair(pay_token_id, receive_token_id) {
                let k = state.pools.spec_oriented_index(pay_token_id, receive_token_id);
                assert(0 <= k < state.pools.pools@.len()
                    && state.pools.pools@[k].token_0_id == pay_token_id
                    && state.pools.pools@[k].token_1_id == receive_token_id);
                assert(false);
            }
        }
        state.pools.lemma_id_unique(state.pools.pools@[i as int].pool_id, i as int);
        assert(state.pools.pools@[i as int].wf());
    }
    let pool_id = state.pools.pools[i].pool_id;
    let lp_fee_bps = state.pools.pools[i].lp_fee_bps;
    let kong_fee_bps = state.pools.pools[i].kong_fee_bps;
    let (pay_reserve, receive_reserve) = if reversed {
        (state.pools.pools[i].reserve_1_amount(), state.pools.pools[i].reserve_0_amount())
    } else {
        (state.pools.pools[i].reserve_0_amount(), state.pools.pools[i].reserve_1_amount())
    };
    let outcome: SwapOutcome = swap_amounts(
        &args.pay_amount,
        pay_decimals,
        &pay_reserve,
        &receive_reserve,
        receive_decimals,
        lp_fee_bps,
        kong_fee_bps,
    );
    let bound: u64 = match args.max_slippage_e8 {
        Some(b) => b,
        None => DEFAULT_MAX_SLIPPAGE_E8,
    };
    if outcome.slippage_e8 > bound {
        return Err(AmmError::SlippageExceeded);
    }
    let net_receive = match nat_subtract(&outcome.receive_amount, &receive_fee) {
        Some(n) => n,
        None => nat_zero(),
    };
    match &args.receive_amount {
        Some(m) => {
            if nat_lt_helper(&net_receive, m) {
                return Err(AmmError::ReceiveBelowMinimum);
            }
        },
        None => {},
    }
    let receive_balance = if reversed {
        nat_clone(&state.pools.pools[i].balance_0)
    } else {
        nat_clone(&state.pools.pools[i].balance_1)
    };
    if nat_lt_helper(&receive_balance, &outcome.receive_amount) {
        return Err(AmmError::InsufficientPoolBalance);
    }
    let pay_amount = nat_clone(&args.pay_amount);
    let user_id = state.users.insert(caller_principal.clone(), ts);
    proof {
        assert(state.users.wf());
    }
    let ghost s1 = *state;
    let request_id = state.requests.insert(user_id, RequestKind::Swap(args), ts);
    proof {
        lemma_state_wf_after_insert_request(s1, *state);
    }
    let ghost s2 = *state;
    let ghost e_start = Status { status_code: StatusCode::Start, message: None, ts };
    proof {
        lemma_state_log_le(*state, request_id, ts);
    }
    state.requests.update_status(request_id, StatusCode::Start, None, ts);
    proof {
        lemma_state_wf_after_status(s2, *state, request_id, e_start);
        crate::request::lemma_requests_appended_grew(
            s2.requests,
            state.requests,
            request_id,
            e_start,
        );
    }
    let ghost s3 = *state;
    let pulled = transfer_from_token(
        state,
        request_id,
        TokenIndex::PayToken,
        pay_token_id,
        &pay_amount,
        pay_outcome,
        ts,
    );
    proof {
        crate::request::lemma_requests_grew_trans(
            s2.requests,
            s3.requests,
            state.requests,
            request_id,
            1,
            2,
            ts,
        );
    }
    let mut transfer_ids: Vec<u64> = Vec::new();
    match pulled {
        Ok(tid) => {
            transfer_ids.push(tid);
        },
        Err(e) => {
            let ghost s4 = *state;
            let ghost e_term = Status { status_code: StatusCode::Failed, message: None, ts };
            proof {
                lemma_state_log_le(*state, request_id, ts);
            }
            state.requests.update_status(request_id, StatusCode::Failed, None, ts);
            proof {
                lemma_state_wf_after_status(s4, *state, request_id, e_term);
                crate::add_liquidity::lemma_finalized(
                    s2,
                    s4,
                    *state,
                    request_id,
                    e_term,
                    3,
                    false,
                );
            }
            return Err(e);
        },
    };
    // Move the pool: the effective pay joins the pay-side balance, the LP
    // share of the fee joins the pay-side accumulator, and the payout
    // leaves the receive-side balance.
    let ghost s5 = *state;
    let ghost e_pool = Status { status_code: StatusCode::UpdatePoolAmounts, message: None, ts };
    proof {
        lemma_state_log_le(*state, request_id, ts);
    }
    state.requests.update_status(request_id, StatusCode::UpdatePoolAmounts, None, ts);
    proof {
        lemma_state_wf_after_status(s5, *state, request_id, e_pool);
        crate::request::lemma_requests_appended_grew(
            s5.requests,
            state.requests,
            request_id,
            e_pool,
        );
        crate::request::lemma_requests_grew_trans(
            s2.requests,
            s5.requests,
            state.requests,
            request_id,
            3,
            1,
            ts,
        );
    }
    let orig_balance_0 = nat_clone(&state.pools.pools[i].balance_0);
    let orig_balance_1 = nat_clone(&state.pools.pools[i].balance_1);
    let orig_lp_fee_0 = nat_clone(&state.pools.pools[i].lp_fee_0);
    let orig_lp_fee_1 = nat_clone(&state.pools.pools[i].lp_fee_1);
    let fee_total = nat_add(&outcome.lp_fee, &outcome.kong_fee);
    proof {
        crate::pool_math::lemma_fee_lt(pay_amount@, lp_fee_bps);
        crate::pool_math::lemma_fee_split(pay_amount@, lp_fee_bps, kong_fee_bps);
    }
    let pay_effective = nat_subtract(&pay_amount, &fee_total).unwrap();
    let ghost s6 = *state;
    let moved_pool = if reversed {
        Pool {
            pool_id: state.pools.pools[i].pool_id,
            token_0_id: state.pools.pools[i].token_0_id,
            token_1_id: state.pools.pools[i].token_1_id,
            balance_0: nat_subtract(&state.pools.pools[i].balance_0, &outcome.receive_amount).unwrap(),
            balance_1: nat_add(&state.pools.pools[i].balance_1, &pay_effective),
            lp_fee_0: nat_clone(&state.pools.pools[i].lp_fee_0),
            lp_fee_1: nat_add(&state.pools.pools[i].lp_fee_1, &outcome.lp_fee),
            lp_fee_bps: state.pools.pools[i].lp_fee_bps,
            kong_fee_bps: state.pools.pools[i].kong_fee_bps,
            lp_token_id: state.pools.pools[i].lp_token_id,
            on_kong: state.pools.pools[i].on_kong,
        }
    } else {
        Pool {
            pool_id: state.pools.pools[i].pool_id,
            token_0_id: state.pools.pools[i].token_0_id,
            token_1_id: state.pools.pools[i].token_1_id,
            balance_0: nat_add(&state.pools.pools[i].balance_0, &pay_effective),
            balance_1: nat_subtract(&state.pools.pools[i].balance_1, &outcome.receive_amount).unwrap(),
            lp_fee_0: nat_add(&state.pools.pools[i].lp_fee_0, &outcome.lp_fee),
            lp_fee_1: nat_clone(&state.pools.pools[i].lp_fee_1),
            lp_fee_bps: state.pools.pools[i].lp_fee_bps,
            kong_fee_bps: state.pools.pools[i].kong_fee_bps,
            lp_token_id: state.pools.pools[i].lp_token_id,
            on_kong: state.pools.pools[i].on_kong,
        }
    };
    state.pools.update(moved_pool);
    proof {
        state.pools.lemma_id_unique(pool_id, i as int);
        lemma_state_wf_stores(s6, *state);
    }
    let ghost s7 = *state;
    let ghost e_pool_ok = Status {
        status_code: StatusCode::UpdatePoolAmountsSuccess,
        message: None,
        ts,
    };
    proof {
        lemma_state_log_le(*state, request_id, ts);
    }
    state.requests.update_status(request_id, StatusCode::UpdatePoolAmountsSuccess, None, ts);
    proof {
        lemma_state_wf_after_status(s7, *state, request_id, e_pool_ok);
        crate::request::lemma_requests_appended_grew(
            s7.requests,
            state.requests,
            request_id,
            e_pool_ok,
        );
        assert(s7.requests == s6.requests);
        crate::request::lemma_requests_grew_trans(
            s2.requests,
            s6.requests,
            state.requests,
            request_id,
            4,
            1,
            ts,
        );
    }
    let ghost s8 = *state;
    proof {
        assert(pay_token_id != receive_token_id);
        if send_outcome is Ok {
            let rec = state.transfers.transfers@.last();
            assert(rec.token_id == pay_token_id);
            assert(state.transfers.transfers@ =~= s3.transfers.transfers@.push(rec));
            crate::transfer::lemma_contains_block_push(
                s3.transfers,
                state.transfers,
                rec,
                receive_token_id,
                send_outcome->Ok_0@,
            );
        }
    }
    let sent = send_receive_token(
        state,
        request_id,
        receive_token_id,
        &net_receive,
        send_outcome,
        ts,
    );
    proof {
        crate::request::lemma_requests_grew_trans(
            s2.requests,
            s8.requests,
            state.requests,
            request_id,
            5,
            2,
            ts,
        );
    }
    match sent {
        Ok(tid) => {
            transfer_ids.push(tid);
            let tx = SwapTx {
                tx_id: 0,
                user_id,
                request_id,
                status: StatusTx::Success,
                pay_token_id,
                pay_amount: nat_clone(&pay_amount),
                receive_token_id,
                receive_amount: nat_clone(&outcome.receive_amount),
                slippage_e8: outcome.slippage_e8,
                txs: make_single_leg(
                    pool_id,
                    pay_token_id,
                    &pay_amount,
                    receive_token_id,
                    &outcome.receive_amount,
                    &outcome.lp_fee,
                    &receive_fee,
                ),
                transfer_ids: copy_ids(&transfer_ids),
                claim_ids: Vec::new(),
                ts,
            };
            let ghost s9 = *state;
            let tx_id = state.txs.insert(StableTx::Swap(tx));
            proof {
                lemma_state_wf_stores(s9, *state);
            }
            let reply = SwapReply {
                tx_id,
                request_id,
                status: String::from_str("Success"),
                pay_symbol: String::new(),
                pay_amount: nat_clone(&pay_amount),
                receive_symbol: String::new(),
                receive_amount: nat_clone(&outcome.receive_amount),
                slippage_e8: outcome.slippage_e8,
                transfer_ids: copy_ids(&transfer_ids),
                claim_ids: Vec::new(),
                ts,
            };
            let returned = duplicate_swap_reply(&reply);
            let ghost s10 = *state;
            state.requests.update_reply(request_id, Reply::Swap(reply));
            proof {
                lemma_state_wf_after_reply(s10, *state, request_id);
                crate::request::lemma_requests_grew_then_reply(
                    s2.requests,
                    s10.requests,
                    state.requests,
                    request_id,
                    7,
                    ts,
                );
            }
            let ghost s11 = *state;
            let ghost e_term = Status { status_code: StatusCode::Success, message: None, ts };
            proof {
                lemma_state_log_le(*state, request_id, ts);
            }
            state.requests.update_status(request_id, StatusCode::Success, None, ts);
            proof {
                lemma_state_wf_after_status(s11, *state, request_id, e_term);
                crate::add_liquidity::lemma_finalized(
                    s2,
                    s11,
                    *state,
                    request_id,
                    e_term,
                    7,
                    true,
                );
            }
            Ok(returned)
        },
        Err(e) => {
            // The payout failed: restore the pool and give the pay amount
            // back, or owe it as a claim.
            let ghost s12 = *state;
            let restored = Pool {
                pool_id,
                token_0_id: state.pools.pools[i].token_0_id,
                token_1_id: state.pools.pools[i].token_1_id,
                balance_0: orig_balance_0,
                balance_1: orig_balance_1,
                lp_fee_0: orig_lp_fee_0,
                lp_fee_1: orig_lp_fee_1,
                lp_fee_bps: state.pools.pools[i].lp_fee_bps,
                kong_fee_bps: state.pools.pools[i].kong_fee_bps,
                lp_token_id: state.pools.pools[i].lp_token_id,
                on_kong: state.pools.pools[i].on_kong,
            };
            proof {
                assert(state.pools.pools@[i as int].pool_id == pool_id);
            }
            state.pools.update(restored);
            proof {
                state.pools.lemma_id_unique(pool_id, i as int);
                lemma_state_wf_stores(s12, *state);
            }
            let mut claim_ids: Vec<u64> = Vec::new();
            let ghost s13 = *state;
            return_token(
                state,
                request_id,
                user_id,
                &caller_principal,
                TokenIndex::PayToken,
                pay_token_id,
                &pay_fee,
                &pay_amount,
                return_outcome,
                &mut transfer_ids,
                &mut claim_ids,
                ts,
            );
            proof {
                assert(s13.requests == s12.requests);
                crate::request::lemma_requests_grew_trans(
                    s2.requests,
                    s12.requests,
                    state.requests,
                    request_id,
                    7,
                    2,
                    ts,
                );
            }
            let ghost s14 = *state;
            let ghost e_term = Status { status_code: StatusCode::Failed, message: None, ts };
            proof {
                lemma_state_log_le(*state, request_id, ts);
            }
            state.requests.update_status(request_id, StatusCode::Failed, None, ts);
            proof {
                lemma_state_wf_after_status(s14, *state, request_id, e_term);
                crate::add_liquidity::lemma_finalized(
                    s2,
                    s14,
                    *state,
                    request_id,
                    e_term,
                    9,
                    false,
                );
            }
            Err(e)
        },
    }
}

/// The single pricing leg of a one-pool swap.
fn make_single_leg(
    pool_id: u32,
    pay_token_id: u32,
    pay_amount: &BigNat,
    receive_token_id: u32,
    receive_amount: &BigNat,
    lp_fee: &BigNat,
    gas_fee: &BigNat,
) -> (r: Vec<SwapCalc>)
    ensures
        r@.len() == 1,
        r@[0].pool_id == pool_id,
        r@[0].pay_token_id == pay_token_id,
        r@[0].pay_amount@ == pay_amount@,
        r@[0].receive_token_id == receive_token_id,
        r@[0].receive_amount@ == receive_amount@,
        r@[0].lp_fee@ == lp_fee@,
        r@[0].gas_fee@ == gas_fee@,
{
    let mut v: Vec<SwapCalc> = Vec::new();
    v.push(
        SwapCalc {
            pool_id,
            pay_token_id,
            pay_amount: nat_clone(pay_amount),
            receive_token_id,
            receive_amount: nat_clone(receive_amount),
            lp_fee: nat_clone(lp_fee),
            gas_fee: nat_clone(gas_fee),
        },
    );
    v
}

/// An identical reply.
fn duplicate_swap_reply(r: &SwapReply) -> (d: SwapReply)
    ensures
        d.tx_id == r.tx_id,
        d.request_id == r.request_id,
        d.status == r.status,
        d.pay_amount@ == r.pay_amount@,
        d.receive_amount@ == r.receive_amount@,
        d.slippage_e8 == r.slippage_e8,
        d.ts == r.ts,
{
    SwapReply {
        tx_id: r.tx_id,
        request_id: r.request_id,
        status: r.status.clone(),
        pay_symbol: r.pay_symbol.clone(),
        pay_amount: nat_clone(&r.pay_amount),
        receive_symbol: r.receive_symbol.clone(),
        receive_amount: nat_clone(&r.receive_amount),
        slippage_e8: r.slippage_e8,
        transfer_ids: copy_ids(&r.transfer_ids),
        claim_ids: copy_ids(&r.claim_ids),
        ts: r.ts,
    }
}

/// Strict comparison helper.
fn nat_lt_helper(a: &BigNat, b: &BigNat) -> (r: bool)
    ensures
        r == (a@ < b@),
{
    crate::bignat::nat_lt(a, b)
}

} // verus!
