//! The add-liquidity engine: pull both deposits from the caller, re-run
//! the ratio math against the then-current pool, credit the pool and the
//! caller's LP row, and compensate (or file a claim) when a leg fails.
//!
//! The two inbound ledger pulls and the compensating return are external
//! calls; their outcomes are handed in as plain results, and the
//! contracts say what the engine does for every outcome.

use vstd::prelude::*;

use crate::bignat::{nat_clone, nat_is_zero, BigNat};
use crate::claim::Address;
use crate::error::AmmError;
use crate::pool_math::{calculate_liquidity_amounts, spec_liquidity_amounts};
use crate::replies::{copy_ids, create_add_liquidity_reply_failed, Reply};
use crate::request::{
    log_grew_nonterminal, requests_appended, requests_log_grew, Status, StatusCode,
};
use crate::tx::StatusTx;
use crate::pool::Pool;
use crate::state::State;
use crate::token::find_by_text;
use crate::transfer::{StableTransfer, TxId};

verus! {

/// Which leg of the operation a transfer moves.
pub enum TokenIndex {
    Token0,
    Token1,
    PayToken,
}

/// The status code that opens a pull of this leg.
pub open spec fn spec_send_code(token_index: TokenIndex) -> StatusCode {
    match token_index {
        TokenIndex::Token0 => StatusCode::SendToken0,
        TokenIndex::Token1 => StatusCode::SendToken1,
        TokenIndex::PayToken => StatusCode::SendPayToken,
    }
}

/// The status code of a successful pull of this leg.
pub open spec fn spec_send_ok_code(token_index: TokenIndex) -> StatusCode {
    match token_index {
        TokenIndex::Token0 => StatusCode::SendToken0Success,
        TokenIndex::Token1 => StatusCode::SendToken1Success,
        TokenIndex::PayToken => StatusCode::SendPayTokenSuccess,
    }
}

/// The status code of a failed pull of this leg.
pub open spec fn spec_send_fail_code(token_index: TokenIndex) -> StatusCode {
    match token_index {
        TokenIndex::Token0 => StatusCode::SendToken0Failed,
        TokenIndex::Token1 => StatusCode::SendToken1Failed,
        TokenIndex::PayToken => StatusCode::SendPayTokenFailed,
    }
}

/// The status code that opens a return of this leg.
pub open spec fn spec_return_code(token_index: TokenIndex) -> StatusCode {
    match token_index {
        TokenIndex::Token0 => StatusCode::ReturnToken0,
        TokenIndex::Token1 => StatusCode::ReturnToken1,
        TokenIndex::PayToken => StatusCode::ReturnPayToken,
    }
}

/// The status code of a successful return of this leg.
pub open spec fn spec_return_ok_code(token_index: TokenIndex) -> StatusCode {
    match token_index {
        TokenIndex::Token0 => StatusCode::ReturnToken0Success,
        TokenIndex::Token1 => StatusCode::ReturnToken1Success,
        TokenIndex::PayToken => StatusCode::ReturnPayTokenSuccess,
    }
}

/// The status code of a failed return of this leg.
pub open spec fn spec_return_fail_code(token_index: TokenIndex) -> StatusCode {
    match token_index {
        TokenIndex::Token0 => StatusCode::ReturnToken0Failed,
        TokenIndex::Token1 => StatusCode::ReturnToken1Failed,
        TokenIndex::PayToken => StatusCode::ReturnPayTokenFailed,
    }
}

/// The whole validation-and-pricing decision of an add-liquidity call
/// against a given state: the pool's position in the store, the two
/// accepted amounts, and the LP amount to mint.
pub open spec fn al_plan(
    state: State,
    token_0: Seq<char>,
    amount_0: nat,
    token_1: Seq<char>,
    amount_1: nat,
) -> Option<(int, nat, nat, nat)> {
    match find_by_text(state.tokens.tokens@, token_0) {
        Some(tok0) => match find_by_text(state.tokens.tokens@, token_1) {
            Some(tok1) => if state.pools.spec_contains_oriented_pair(
                tok0.token_id,
                tok1.token_id,
            ) {
                let i = state.pools.spec_oriented_index(tok0.token_id, tok1.token_id);
                let pool = state.pools.pools@[i];
                match spec_liquidity_amounts(
                    amount_0,
                    tok0.decimals as nat,
                    amount_1,
                    tok1.decimals as nat,
                    pool.reserve_0(),
                    pool.reserve_1(),
                    state.lp_ledger.spec_supply(pool.lp_token_id),
                ) {
                    Some(t) => Some((i, t.0, t.1, t.2)),
                    None => None,
                }
            } else {
                None
            },
            None => None,
        },
        None => None,
    }
}

/// Price a deposit against the current pool: which pool it lands in,
/// which amounts are accepted, and the LP amount minted.
pub fn calculate_amounts(
    state: &State,
    token_0: &String,
    amount_0: &BigNat,
    token_1: &String,
    amount_1: &BigNat,
) -> (r: Result<(u32, BigNat, BigNat, BigNat), AmmError>)
    requires
        state.wf(),
        amount_0@ > 0,
        amount_1@ > 0,
    ensures
        r is Ok <==> al_plan(*state, token_0@, amount_0@, token_1@, amount_1@) is Some,
        r matches Ok(t) ==> ({
            let plan = al_plan(*state, token_0@, amount_0@, token_1@, amount_1@)->Some_0;
            &&& 0 <= plan.0 < state.pools.pools@.len()
            &&& t.0 == state.pools.pools@[plan.0].pool_id
            &&& t.1@ == plan.1
            &&& t.2@ == plan.2
            &&& t.3@ == plan.3
        }),
        r matches Err(e) ==> !(e is ZeroAmount) && !(e is TxIdNotSupported),
        (find_by_text(state.tokens.tokens@, token_0@) is None || find_by_text(
            state.tokens.tokens@,
            token_1@,
        ) is None) ==> (r matches Err(e) && e is TokenNotFound),
{
    let tok0 = match state.tokens.get_by_text(token_0) {
        Some(t) => t,
        None => {
            return Err(AmmError::TokenNotFound);
        },
    };
    let tok1 = match state.tokens.get_by_text(token_1) {
        Some(t) => t,
        None => {
            return Err(AmmError::TokenNotFound);
        },
    };
    let found = state.pools.index_of_oriented_pair(tok0.token_id, tok1.token_id);
    let i = match found {
        Some(i) => i,
        None => {
            return Err(AmmError::PoolNotFound);
        },
    };
    let pool = &state.pools.pools[i];
    let reserve_0 = pool.reserve_0_amount();
    let reserve_1 = pool.reserve_1_amount();
    let supply = state.lp_ledger.get_total_supply(pool.lp_token_id);
    proof {
        state.pools.lemma_oriented_unique(tok0.token_id, tok1.token_id, i as int);
    }
    match calculate_liquidity_amounts(
        amount_0,
        tok0.decimals,
        amount_1,
        tok1.decimals,
        &reserve_0,
        &reserve_1,
        &supply,
    ) {
        Ok(t) => Ok((pool.pool_id, t.0, t.1, t.2)),
        Err(e) => Err(e),
    }
}

/// In a well-formed state every log entry is at or before the clock.
pub proof fn lemma_state_log_le(state: State, request_id: u64, ts: u64)
    requires
        state.wf(),
        ts == state.clock,
    ensures
        forall|j: int, a: int|
            #![trigger state.requests.requests@[j].statuses@[a]]
            0 <= j < state.requests.requests@.len() && state.requests.requests@[j].request_id
                == request_id && 0 <= a < state.requests.requests@[j].statuses@.len()
                ==> state.requests.requests@[j].statuses@[a].ts <= ts,
{
}

/// A state change that only appended clock-stamped entries to request
/// logs (and possibly touched the well-formed stores) stays well formed.
pub proof fn lemma_state_wf_after_status(before: State, after: State, request_id: u64, entry: Status)
    requires
        before.wf(),
        entry.ts == before.clock,
        after.users == before.users,
        after.tokens == before.tokens,
        after.pools == before.pools,
        after.lp_ledger == before.lp_ledger,
        after.transfers.wf(),
        after.txs == before.txs,
        after.claims == before.claims,
        after.clock == before.clock,
        after.requests.wf(),
        requests_appended(before.requests, after.requests, request_id, entry),
    ensures
        after.wf(),
{
    assert forall|j: int, a: int|
        #![trigger after.requests.requests@[j].statuses@[a]]
        0 <= j < after.requests.requests@.len() && 0 <= a
            < after.requests.requests@[j].statuses@.len()
        implies after.requests.requests@[j].statuses@[a].ts <= after.clock by {
        let br = before.requests.requests@[j];
        let ar = after.requests.requests@[j];
        if br.request_id == request_id {
            assert(ar.statuses@ == br.statuses@.push(entry));
            if a < br.statuses@.len() {
                assert(ar.statuses@[a] == br.statuses@[a]);
                assert(br.statuses@[a].ts <= before.clock);
            }
        } else {
            assert(ar == br);
            assert(br.statuses@[a].ts <= before.clock);
        }
    }
}

/// Storing a reply changes no status log, so the state stays well formed.
pub proof fn lemma_state_wf_after_reply(before: State, after: State, request_id: u64)
    requires
        before.wf(),
        after.users == before.users,
        after.tokens == before.tokens,
        after.pools == before.pools,
        after.lp_ledger == before.lp_ledger,
        after.transfers == before.transfers,
        after.txs == before.txs,
        after.claims == before.claims,
        after.clock == before.clock,
        after.requests.wf(),
        crate::request::requests_reply_set(before.requests, after.requests, request_id),
    ensures
        after.wf(),
{
    assert forall|j: int, a: int|
        #![trigger after.requests.requests@[j].statuses@[a]]
        0 <= j < after.requests.requests@.len() && 0 <= a
            < after.requests.requests@[j].statuses@.len()
        implies after.requests.requests@[j].statuses@[a].ts <= after.clock by {
        let br = before.requests.requests@[j];
        let ar = after.requests.requests@[j];
        if br.request_id == request_id {
            assert(ar.statuses@ == br.statuses@);
            assert(br.statuses@[a].ts <= before.clock);
        } else {
            assert(ar == br);
            assert(br.statuses@[a].ts <= before.clock);
        }
    }
}

/// Pull one leg from the caller through the inbound ledger call whose
/// outcome is given, recording the transfer and the status trail.
/// A block index the ledger already consumed is refused.
pub fn transfer_from_token(
    state: &mut State,
    request_id: u64,
    token_index: TokenIndex,
    token_id: u32,
    amount: &BigNat,
    outcome: Result<BigNat, String>,
    ts: u64,
) -> (r: Result<u64, AmmError>)
    requires
        old(state).wf(),
        old(state).transfers.can_insert(),
        ts == old(state).clock,
    ensures
        final(state).wf(),
        final(state).users == old(state).users,
        final(state).tokens == old(state).tokens,
        final(state).pools == old(state).pools,
        final(state).lp_ledger == old(state).lp_ledger,
        final(state).txs == old(state).txs,
        final(state).claims == old(state).claims,
        final(state).clock == old(state).clock,
        final(state).transfers.next_transfer_id >= old(state).transfers.next_transfer_id,
        final(state).transfers.next_transfer_id <= old(state).transfers.next_transfer_id + 1,
        r is Ok ==> final(state).transfers.next_transfer_id == old(
            state,
        ).transfers.next_transfer_id + 1,
        r is Ok <==> (outcome matches Ok(b) && !old(state).transfers.spec_contains_block(
            token_id,
            b@,
        )),
        r matches Ok(tid) ==> tid == old(state).transfers.next_transfer_id,
        r matches Ok(tid) ==> (outcome matches Ok(b)
            && final(state).transfers.transfers@.len() == old(state).transfers.transfers@.len()
            + 1 && (forall|k: int|
            0 <= k < old(state).transfers.transfers@.len()
                ==> #[trigger] final(state).transfers.transfers@[k] == old(
                state,
            ).transfers.transfers@[k]) && ({
            let last = final(state).transfers.transfers@.last();
            &&& last.transfer_id == tid
            &&& last.request_id == request_id
            &&& last.is_send == true
            &&& last.amount@ == amount@
            &&& last.token_id == token_id
            &&& last.tx_id == TxId::BlockIndex(b)
            &&& last.ts == ts
        })),
        r is Err ==> final(state).transfers == old(state).transfers,
        outcome matches Err(m) ==> (r matches Err(e) && e matches AmmError::TransferFailed {
            message,
        } && message == m),
        (outcome matches Ok(b) && old(state).transfers.spec_contains_block(token_id, b@)) ==> (
        r matches Err(e) && e is DuplicateBlockIndex),
        requests_log_grew(old(state).requests, final(state).requests, request_id, 2, ts),
        ({
            let send_code = spec_send_code(token_index);
            let ok_code = spec_send_ok_code(token_index);
            let fail_code = spec_send_fail_code(token_index);
            let e1 = Status { status_code: send_code, message: None, ts };
            &&& (r is Ok ==> crate::request::requests_appended2(
                old(state).requests,
                final(state).requests,
                request_id,
                e1,
                Status { status_code: ok_code, message: None, ts },
            ))
            &&& (outcome matches Err(m) ==> crate::request::requests_appended2(
                old(state).requests,
                final(state).requests,
                request_id,
                e1,
                Status { status_code: fail_code, message: Some(m), ts },
            ))
            &&& (r is Err && outcome is Ok ==> exists|msg: String|
                msg@ == "Duplicate block id"@ && crate::request::requests_appended2(
                    old(state).requests,
                    final(state).requests,
                    request_id,
                    e1,
                    Status { status_code: fail_code, message: Some(msg), ts },
                ))
        }),
{
    let send_code = match token_index {
        TokenIndex::Token0 => StatusCode::SendToken0,
        TokenIndex::Token1 => StatusCode::SendToken1,
        TokenIndex::PayToken => StatusCode::SendPayToken,
    };
    let ok_code = match token_index {
        TokenIndex::Token0 => StatusCode::SendToken0Success,
        TokenIndex::Token1 => StatusCode::SendToken1Success,
        TokenIndex::PayToken => StatusCode::SendPayTokenSuccess,
    };
    let fail_code = match token_index {
        TokenIndex::Token0 => StatusCode::SendToken0Failed,
        TokenIndex::Token1 => StatusCode::SendToken1Failed,
        TokenIndex::PayToken => StatusCode::SendPayTokenFailed,
    };
    proof {
        lemma_state_log_le(*state, request_id, ts);
    }
    let ghost s0 = *state;
    let ghost e1 = Status { status_code: send_code, message: None, ts };
    state.requests.update_status(request_id, send_code, None, ts);
    proof {
        lemma_state_wf_after_status(s0, *state, request_id, e1);
        crate::request::lemma_requests_appended_grew(s0.requests, state.requests, request_id, e1);
    }
    let ghost s1 = *state;
    match outcome {
        Ok(block) => {
            if state.transfers.contain(token_id, &block) {
                let dup_message = String::from_str("Duplicate block id");
                let ghost e2 = Status {
                    status_code: fail_code,
                    message: Some(dup_message),
                    ts,
                };
                proof {
                    lemma_state_log_le(*state, request_id, ts);
                }
                state.requests.update_status(request_id, fail_code, Some(dup_message), ts);
                proof {
                    lemma_state_wf_after_status(s1, *state, request_id, e2);
                    crate::request::lemma_requests_appended_grew(
                        s1.requests,
                        state.requests,
                        request_id,
                        e2,
                    );
                    crate::request::lemma_requests_grew_trans(
                        s0.requests,
                        s1.requests,
                        state.requests,
                        request_id,
                        1,
                        1,
                        ts,
                    );
                    crate::request::lemma_requests_appended2(
                        s0.requests,
                        s1.requests,
                        state.requests,
                        request_id,
                        e1,
                        e2,
                    );
                    assert(dup_message@ == "Duplicate block id"@);
                    assert(crate::request::requests_appended2(
                        s0.requests,
                        state.requests,
                        request_id,
                        e1,
                        Status { status_code: fail_code, message: Some(dup_message), ts },
                    ));
                }
                Err(AmmError::DuplicateBlockIndex)
            } else {
                let transfer_id = state.transfers.insert(
                    StableTransfer {
                        transfer_id: 0,
                        request_id,
                        is_send: true,
                        amount: nat_clone(amount),
                        token_id,
                        tx_id: TxId::BlockIndex(block),
                        ts,
                    },
                );
                let ghost e2 = Status { status_code: ok_code, message: None, ts };
                proof {
                    lemma_state_log_le(*state, request_id, ts);
                }
                state.requests.update_status(request_id, ok_code, None, ts);
                proof {
                    lemma_state_wf_after_status(s1, *state, request_id, e2);
                    crate::request::lemma_requests_appended_grew(
                        s1.requests,
                        state.requests,
                        request_id,
                        e2,
                    );
                    crate::request::lemma_requests_grew_trans(
                        s0.requests,
                        s1.requests,
                        state.requests,
                        request_id,
                        1,
                        1,
                        ts,
                    );
                    crate::request::lemma_requests_appended2(
                        s0.requests,
                        s1.requests,
                        state.requests,
                        request_id,
                        e1,
                        e2,
                    );
                }
                Ok(transfer_id)
            }
        },
        Err(message) => {
            let ghost e2 = Status { status_code: fail_code, message: Some(message), ts };
            proof {
                lemma_state_log_le(*state, request_id, ts);
            }
            state.requests.update_status(request_id, fail_code, Some(message.clone()), ts);
            proof {
                lemma_state_wf_after_status(s1, *state, request_id, e2);
                crate::request::lemma_requests_appended_grew(
                    s1.requests,
                    state.requests,
                    request_id,
                    e2,
                );
                crate::request::lemma_requests_grew_trans(
                    s0.requests,
                    s1.requests,
                    state.requests,
                    request_id,
                    1,
                    1,
                    ts,
                );
                crate::request::lemma_requests_appended2(
                    s0.requests,
                    s1.requests,
                    state.requests,
                    request_id,
                    e1,
                    e2,
                );
            }
            Err(AmmError::TransferFailed { message })
        },
    }
}

/// A state change that left the request and claim ledgers and the clock
/// alone stays well formed once its stores are.
pub proof fn lemma_state_wf_stores(before: State, after: State)
    requires
        before.wf(),
        after.requests == before.requests,
        after.claims == before.claims,
        after.clock == before.clock,
        after.users.wf(),
        after.tokens.wf(),
        after.pools.wf(),
        after.lp_ledger.wf(),
        after.transfers.wf(),
        after.txs.wf(),
    ensures
        after.wf(),
{
}

/// A ledger change that rewrote or appended only the row at one position
/// leaves every other holding exactly as it was.
pub proof fn lemma_row_frame(
    before: crate::lp_token_ledger::LpTokenLedger,
    after: crate::lp_token_ledger::LpTokenLedger,
    i: int,
    token_id: u32,
    user_id: u32,
)
    requires
        before.wf(),
        after.wf(),
        0 <= i < after.rows@.len(),
        before.rows@.len() <= after.rows@.len(),
        after.rows@.len() <= before.rows@.len() + 1,
        i < before.rows@.len() ==> after.rows@.len() == before.rows@.len(),
        forall|k: int|
            0 <= k < before.rows@.len() && k != i ==> #[trigger] after.rows@[k]
                == before.rows@[k],
        after.rows@[i].token_id == token_id,
        after.rows@[i].user_id == user_id,
        i < before.rows@.len() ==> before.rows@[i].token_id == token_id
            && before.rows@[i].user_id == user_id,
    ensures
        forall|t: u32, u: u32|
            #![trigger after.spec_row_amount(t, u)]
            !(t == token_id && u == user_id) ==> after.spec_row_amount(t, u)
                == before.spec_row_amount(t, u),
{
    assert forall|t: u32, u: u32|
        #![trigger after.spec_row_amount(t, u)]
        !(t == token_id && u == user_id) implies after.spec_row_amount(t, u)
        == before.spec_row_amount(t, u) by {
        if before.spec_has_row(t, u) {
            let w = choose|w: int|
                0 <= w < before.rows@.len() && (#[trigger] before.rows@[w]).user_id == u
                    && before.rows@[w].token_id == t;
            before.lemma_row_unique(t, u, w);
            assert(w != i);
            assert(after.rows@[w] == before.rows@[w]);
            after.lemma_row_unique(t, u, w);
        } else {
            if after.spec_has_row(t, u) {
                let w = choose|w: int|
                    0 <= w < after.rows@.len() && (#[trigger] after.rows@[w]).user_id == u
                        && after.rows@[w].token_id == t;
                assert(w != i);
                assert(w < before.rows@.len());
                assert(before.rows@[w] == after.rows@[w]);
                assert(before.spec_has_row(t, u));
                assert(false);
            }
        }
    }
}

/// Credit freshly minted LP tokens to the caller's row, creating the row
/// on first touch.  The LP token's supply grows by exactly the mint.
pub fn update_lp_token(
    state: &mut State,
    request_id: u64,
    user_id: u32,
    lp_token_id: u32,
    add_lp_token_amount: &BigNat,
    ts: u64,
) -> (r: u64)
    requires
        old(state).wf(),
        old(state).lp_ledger.can_insert(),
        ts == old(state).clock,
    ensures
        final(state).wf(),
        final(state).users == old(state).users,
        final(state).tokens == old(state).tokens,
        final(state).pools == old(state).pools,
        final(state).transfers == old(state).transfers,
        final(state).txs == old(state).txs,
        final(state).claims == old(state).claims,
        final(state).clock == old(state).clock,
        final(state).lp_ledger.next_lp_token_id <= old(state).lp_ledger.next_lp_token_id + 1,
        requests_log_grew(old(state).requests, final(state).requests, request_id, 2, ts),
        final(state).lp_ledger.spec_supply(lp_token_id) == old(state).lp_ledger.spec_supply(
            lp_token_id,
        ) + add_lp_token_amount@,
        forall|t: u32|
            t != lp_token_id ==> final(state).lp_ledger.spec_supply(t) == old(
                state,
            ).lp_ledger.spec_supply(t),
        final(state).lp_ledger.spec_row_amount(lp_token_id, user_id) == old(
            state,
        ).lp_ledger.spec_row_amount(lp_token_id, user_id) + add_lp_token_amount@,
        final(state).lp_ledger.spec_has_row(lp_token_id, user_id),
        final(state).lp_ledger.rows@[final(state).lp_ledger.spec_row_index(
            lp_token_id,
            user_id,
        )].ts == ts,
        forall|t: u32, u: u32|
            #![trigger final(state).lp_ledger.spec_row_amount(t, u)]
            !(t == lp_token_id && u == user_id) ==> final(state).lp_ledger.spec_row_amount(t, u)
                == old(state).lp_ledger.spec_row_amount(t, u),
    {
    let ghost s0 = *state;
    let ghost e1 = Status { status_code: StatusCode::UpdateUserLPTokenAmount, message: None, ts };
    proof {
        lemma_state_log_le(*state, request_id, ts);
    }
    state.requests.update_status(request_id, StatusCode::UpdateUserLPTokenAmount, None, ts);
    proof {
        lemma_state_wf_after_status(s0, *state, request_id, e1);
        crate::request::lemma_requests_appended_grew(s0.requests, state.requests, request_id, e1);
    }
    let ghost s1 = *state;
    let found = state.lp_ledger.index_of_row(lp_token_id, user_id);
    match found {
        Some(i) => {
            proof {
                state.lp_ledger.lemma_row_unique(lp_token_id, user_id, i as int);
            }
            let row_key = state.lp_ledger.rows[i].lp_token_id;
            let new_amount = crate::bignat::nat_add(
                &state.lp_ledger.rows[i].amount,
                add_lp_token_amount,
            );
            let new_row = crate::lp_token_ledger::StableLPTokenLedger {
                lp_token_id: row_key,
                user_id,
                token_id: lp_token_id,
                amount: new_amount,
                ts,
            };
            state.lp_ledger.update(new_row);
            proof {
                let f = state.lp_ledger;
                let o = s1.lp_ledger;
                assert(f.rows@[i as int].user_id == user_id && f.rows@[i as int].token_id
                    == lp_token_id);
                f.lemma_row_unique(lp_token_id, user_id, i as int);
                assert forall|t: u32|
                    #![trigger f.spec_supply(t)]
                    f.spec_supply(t) + crate::lp_token_ledger::supply_part(o.rows@[i as int], t)
                        == o.spec_supply(t) + crate::lp_token_ledger::supply_part(
                        f.rows@[i as int],
                        t,
                    ) by {
                    assert(o.rows@[i as int].lp_token_id == row_key);
                }
                lemma_row_frame(o, f, i as int, lp_token_id, user_id);
                lemma_state_wf_stores(s1, *state);
            }
        },
        None => {
            let fresh = crate::lp_token_ledger::StableLPTokenLedger::new(
                user_id,
                lp_token_id,
                nat_clone(add_lp_token_amount),
                ts,
            );
            let key = state.lp_ledger.insert(fresh);
            proof {
                let f = state.lp_ledger;
                let n = f.rows@.len() - 1;
                assert(f.rows@[n].user_id == user_id && f.rows@[n].token_id == lp_token_id);
                assert(f.rows@[n].amount@ == add_lp_token_amount@);
                f.lemma_row_unique(lp_token_id, user_id, n);
                assert(s1.lp_ledger.spec_row_amount(lp_token_id, user_id) == 0);
                lemma_row_frame(s1.lp_ledger, f, n, lp_token_id, user_id);
                lemma_state_wf_stores(s1, *state);
            }
        },
    }
    let ghost s2 = *state;
    let ghost e2 = Status {
        status_code: StatusCode::UpdateUserLPTokenAmountSuccess,
        message: None,
        ts,
    };
    proof {
        lemma_state_log_le(*state, request_id, ts);
    }
    state.requests.update_status(request_id, StatusCode::UpdateUserLPTokenAmountSuccess, None, ts);
    proof {
        lemma_state_wf_after_status(s2, *state, request_id, e2);
        crate::request::lemma_requests_appended_grew(s2.requests, state.requests, request_id, e2);
        crate::request::lemma_requests_grew_trans(
            s0.requests,
            s1.requests,
            state.requests,
            request_id,
            1,
            1,
            ts,
        );
    }
    0
}

/// Re-run the ratio math against the pool's now-current reserves, then
/// credit the pool and the caller's LP row.  In this sequential model no
/// other operation can interleave, so the decision is the one
/// `spec_liquidity_amounts` makes on the pool as it stands.
pub fn update_liquidity_pool(
    state: &mut State,
    request_id: u64,
    user_id: u32,
    pool_id: u32,
    decimals_0: u8,
    decimals_1: u8,
    add_amount_0: &BigNat,
    add_amount_1: &BigNat,
    ts: u64,
) -> (r: Result<(BigNat, BigNat, BigNat), AmmError>)
    requires
        old(state).wf(),
        old(state).lp_ledger.can_insert(),
        ts == old(state).clock,
        old(state).pools.spec_contains_id(pool_id),
        add_amount_0@ > 0,
        add_amount_1@ > 0,
    ensures
        final(state).wf(),
        final(state).users == old(state).users,
        final(state).tokens == old(state).tokens,
        final(state).transfers == old(state).transfers,
        final(state).txs == old(state).txs,
        final(state).claims == old(state).claims,
        final(state).clock == old(state).clock,
        final(state).lp_ledger.next_lp_token_id <= old(state).lp_ledger.next_lp_token_id + 1,
        ({
            let i = old(state).pools.spec_index_of(pool_id);
            let p = old(state).pools.pools@[i];
            let plan = spec_liquidity_amounts(
                add_amount_0@,
                decimals_0 as nat,
                add_amount_1@,
                decimals_1 as nat,
                p.reserve_0(),
                p.reserve_1(),
                old(state).lp_ledger.spec_supply(p.lp_token_id),
            );
            &&& (r is Ok <==> plan is Some)
            &&& (r matches Ok(t) ==> ({
                let v = plan->Some_0;
                &&& t.0@ == v.0
                &&& t.1@ == v.1
                &&& t.2@ == v.2
                &&& requests_log_grew(
                    old(state).requests,
                    final(state).requests,
                    request_id,
                    6,
                    ts,
                )
                &&& final(state).pools.pools@.len() == old(state).pools.pools@.len()
                &&& (forall|j: int|
                    0 <= j < old(state).pools.pools@.len() && j != i
                        ==> #[trigger] final(state).pools.pools@[j] == old(
                        state,
                    ).pools.pools@[j])
                &&& final(state).pools.pools@[i].pool_id == p.pool_id
                &&& final(state).pools.pools@[i].token_0_id == p.token_0_id
                &&& final(state).pools.pools@[i].token_1_id == p.token_1_id
                &&& final(state).pools.pools@[i].balance_0@ == p.balance_0@ + v.0
                &&& final(state).pools.pools@[i].balance_1@ == p.balance_1@ + v.1
                &&& final(state).pools.pools@[i].lp_fee_0@ == p.lp_fee_0@
                &&& final(state).pools.pools@[i].lp_fee_1@ == p.lp_fee_1@
                &&& final(state).pools.pools@[i].lp_fee_bps == p.lp_fee_bps
                &&& final(state).pools.pools@[i].kong_fee_bps == p.kong_fee_bps
                &&& final(state).pools.pools@[i].lp_token_id == p.lp_token_id
                &&& final(state).pools.pools@[i].on_kong == p.on_kong
                &&& final(state).lp_ledger.spec_supply(p.lp_token_id) == old(
                    state,
                ).lp_ledger.spec_supply(p.lp_token_id) + v.2
                &&& (forall|t: u32|
                    t != p.lp_token_id ==> final(state).lp_ledger.spec_supply(t) == old(
                        state,
                    ).lp_ledger.spec_supply(t))
                &&& final(state).lp_ledger.spec_row_amount(p.lp_token_id, user_id) == old(
                    state,
                ).lp_ledger.spec_row_amount(p.lp_token_id, user_id) + v.2
                &&& final(state).lp_ledger.spec_has_row(p.lp_token_id, user_id)
                &&& final(state).lp_ledger.rows@[final(state).lp_ledger.spec_row_index(
                    p.lp_token_id,
                    user_id,
                )].ts == ts
                &&& (forall|t: u32, u: u32|
                    #![trigger final(state).lp_ledger.spec_row_amount(t, u)]
                    !(t == p.lp_token_id && u == user_id)
                        ==> final(state).lp_ledger.spec_row_amount(t, u) == old(
                        state,
                    ).lp_ledger.spec_row_amount(t, u))
            }))
            &&& (r is Err ==> final(state).pools == old(state).pools && final(state).lp_ledger
                == old(state).lp_ledger && requests_log_grew(
                old(state).requests,
                final(state).requests,
                request_id,
                2,
                ts,
            ))
        }),
{
    let ghost s0 = *state;
    let ghost e1 = Status { status_code: StatusCode::CalculatePoolAmounts, message: None, ts };
    proof {
        lemma_state_log_le(*state, request_id, ts);
    }
    state.requests.update_status(request_id, StatusCode::CalculatePoolAmounts, None, ts);
    proof {
        lemma_state_wf_after_status(s0, *state, request_id, e1);
        crate::request::lemma_requests_appended_grew(s0.requests, state.requests, request_id, e1);
    }
    let ghost s1 = *state;
    let found = state.pools.index_of_pool_id(pool_id);
    let i = match found {
        Some(i) => i,
        None => {
            proof {
                assert(false);
            }
            return Err(AmmError::StateCorrupted);
        },
    };
    proof {
        state.pools.lemma_id_unique(pool_id, i as int);
        assert(s0.pools.spec_index_of(pool_id) == i as int);
    }
    let reserve_0 = state.pools.pools[i].reserve_0_amount();
    let reserve_1 = state.pools.pools[i].reserve_1_amount();
    let lp_token_id = state.pools.pools[i].lp_token_id;
    let supply = state.lp_ledger.get_total_supply(lp_token_id);
    let priced = calculate_liquidity_amounts(
        add_amount_0,
        decimals_0,
        add_amount_1,
        decimals_1,
        &reserve_0,
        &reserve_1,
        &supply,
    );
    let (amount_0, amount_1, add_lp_token_amount) = match priced {
        Ok(t) => t,
        Err(e) => {
            let ghost e2 = Status {
                status_code: StatusCode::CalculatePoolAmountsFailed,
                message: None,
                ts,
            };
            proof {
                lemma_state_log_le(*state, request_id, ts);
            }
            state.requests.update_status(
                request_id,
                StatusCode::CalculatePoolAmountsFailed,
                None,
                ts,
            );
            proof {
                lemma_state_wf_after_status(s1, *state, request_id, e2);
                crate::request::lemma_requests_appended_grew(
                    s1.requests,
                    state.requests,
                    request_id,
                    e2,
                );
                crate::request::lemma_requests_grew_trans(
                    s0.requests,
                    s1.requests,
                    state.requests,
                    request_id,
                    1,
                    1,
                    ts,
                );
            }
            return Err(e);
        },
    };
    let ghost e2 = Status {
        status_code: StatusCode::CalculatePoolAmountsSuccess,
        message: None,
        ts,
    };
    proof {
        lemma_state_log_le(*state, request_id, ts);
    }
    state.requests.update_status(request_id, StatusCode::CalculatePoolAmountsSuccess, None, ts);
    proof {
        lemma_state_wf_after_status(s1, *state, request_id, e2);
        crate::request::lemma_requests_appended_grew(s1.requests, state.requests, request_id, e2);
    }
    let ghost s2 = *state;
    let ghost e3 = Status { status_code: StatusCode::UpdatePoolAmounts, message: None, ts };
    proof {
        lemma_state_log_le(*state, request_id, ts);
    }
    state.requests.update_status(request_id, StatusCode::UpdatePoolAmounts, None, ts);
    proof {
        lemma_state_wf_after_status(s2, *state, request_id, e3);
        crate::request::lemma_requests_appended_grew(s2.requests, state.requests, request_id, e3);
    }
    let ghost s3 = *state;
    let updated_pool = Pool {
        pool_id: state.pools.pools[i].pool_id,
        token_0_id: state.pools.pools[i].token_0_id,
        token_1_id: state.pools.pools[i].token_1_id,
        balance_0: crate::bignat::nat_add(&state.pools.pools[i].balance_0, &amount_0),
        balance_1: crate::bignat::nat_add(&state.pools.pools[i].balance_1, &amount_1),
        lp_fee_0: nat_clone(&state.pools.pools[i].lp_fee_0),
        lp_fee_1: nat_clone(&state.pools.pools[i].lp_fee_1),
        lp_fee_bps: state.pools.pools[i].lp_fee_bps,
        kong_fee_bps: state.pools.pools[i].kong_fee_bps,
        lp_token_id: state.pools.pools[i].lp_token_id,
        on_kong: state.pools.pools[i].on_kong,
    };
    proof {
        assert(state.pools.pools@[i as int].wf());
    }
    state.pools.update(updated_pool);
    proof {
        state.pools.lemma_id_unique(pool_id, i as int);
        lemma_state_wf_stores(s3, *state);
    }
    let ghost s4 = *state;
    let ghost e4 = Status { status_code: StatusCode::UpdatePoolAmountsSuccess, message: None, ts };
    proof {
        lemma_state_log_le(*state, request_id, ts);
    }
    state.requests.update_status(request_id, StatusCode::UpdatePoolAmountsSuccess, None, ts);
    proof {
        lemma_state_wf_after_status(s4, *state, request_id, e4);
        crate::request::lemma_requests_appended_grew(s4.requests, state.requests, request_id, e4);
    }
    let ghost s5 = *state;
    update_lp_token(state, request_id, user_id, lp_token_id, &add_lp_token_amount, ts);
    proof {
        crate::request::lemma_requests_grew_trans(
            s4.requests,
            s5.requests,
            state.requests,
            request_id,
            1,
            2,
            ts,
        );
        assert(s4.requests == s3.requests);
        crate::request::lemma_requests_grew_trans(
            s2.requests,
            s3.requests,
            state.requests,
            request_id,
            1,
            3,
            ts,
        );
        crate::request::lemma_requests_grew_trans(
            s1.requests,
            s2.requests,
            state.requests,
            request_id,
            1,
            4,
            ts,
        );
        crate::request::lemma_requests_grew_trans(
            s0.requests,
            s1.requests,
            state.requests,
            request_id,
            1,
            5,
            ts,
        );
    }
    Ok((amount_0, amount_1, add_lp_token_amount))
}

/// Return one pulled deposit to the caller through the outbound ledger
/// call whose outcome is given; a failed return files a claim for the
/// full amount.
pub fn return_token(
    state: &mut State,
    request_id: u64,
    user_id: u32,
    caller_principal: &String,
    token_index: TokenIndex,
    token_id: u32,
    token_fee: &BigNat,
    amount: &BigNat,
    outcome: Result<BigNat, String>,
    transfer_ids: &mut Vec<u64>,
    claim_ids: &mut Vec<u64>,
    ts: u64,
)
    requires
        old(state).wf(),
        old(state).transfers.can_insert(),
        old(state).claims.can_insert(),
        ts == old(state).clock,
    ensures
        final(state).wf(),
        final(state).users == old(state).users,
        final(state).tokens == old(state).tokens,
        final(state).pools == old(state).pools,
        final(state).lp_ledger == old(state).lp_ledger,
        final(state).txs == old(state).txs,
        final(state).clock == old(state).clock,
        final(state).transfers.next_transfer_id <= old(state).transfers.next_transfer_id + 1,
        final(state).claims.next_claim_id <= old(state).claims.next_claim_id + 1,
        requests_log_grew(old(state).requests, final(state).requests, request_id, 2, ts),
        outcome is Ok ==> final(state).claims == old(state).claims && final(claim_ids)@ == old(
            claim_ids,
        )@,
        outcome matches Ok(b) ==> !old(state).transfers.spec_contains_block(token_id, b@) ==> ({
            &&& final(state).transfers.transfers@.len() == old(state).transfers.transfers@.len()
                + 1
            &&& (forall|k: int|
                0 <= k < old(state).transfers.transfers@.len()
                    ==> #[trigger] final(state).transfers.transfers@[k] == old(
                    state,
                ).transfers.transfers@[k])
            &&& ({
                let t = final(state).transfers.transfers@.last();
                &&& t.transfer_id == old(state).transfers.next_transfer_id
                &&& t.request_id == request_id
                &&& t.is_send == false
                &&& t.amount@ == (if token_fee@ <= amount@ {
                    (amount@ - token_fee@) as nat
                } else {
                    0
                })
                &&& t.token_id == token_id
                &&& t.tx_id == TxId::BlockIndex(b)
                &&& t.ts == ts
            })
            &&& final(transfer_ids)@ == old(transfer_ids)@.push(
                old(state).transfers.next_transfer_id,
            )
        }),
        outcome matches Ok(b) ==> old(state).transfers.spec_contains_block(token_id, b@)
            ==> final(state).transfers == old(state).transfers && final(transfer_ids)@ == old(
            transfer_ids,
        )@,
        outcome is Err ==> ({
            &&& final(state).transfers == old(state).transfers
            &&& final(transfer_ids)@ == old(transfer_ids)@
            &&& final(state).claims.claims@.len() == old(state).claims.claims@.len() + 1
            &&& (forall|k: int|
                0 <= k < old(state).claims.claims@.len()
                    ==> #[trigger] final(state).claims.claims@[k] == old(state).claims.claims@[k])
            &&& ({
                let c = final(state).claims.claims@.last();
                &&& c.claim_id == old(state).claims.next_claim_id
                &&& c.user_id == user_id
                &&& c.status is Unclaimed
                &&& c.token_id == token_id
                &&& c.amount@ == amount@
                &&& c.request_id == Some(request_id)
                &&& (c.to_address matches Some(a) && a matches Address::PrincipalId(p) && p@
                    == caller_principal@)
                &&& c.ts == ts
            })
            &&& final(claim_ids)@ == old(claim_ids)@.push(
                final(state).claims.claims@.last().claim_id,
            )
        }),
        ({
            let e1 = Status { status_code: spec_return_code(token_index), message: None, ts };
            &&& (outcome is Ok ==> crate::request::requests_appended2(
                old(state).requests,
                final(state).requests,
                request_id,
                e1,
                Status { status_code: spec_return_ok_code(token_index), message: None, ts },
            ))
            &&& (outcome matches Err(m) ==> crate::request::requests_appended2(
                old(state).requests,
                final(state).requests,
                request_id,
                e1,
                Status {
                    status_code: spec_return_fail_code(token_index),
                    message: Some(m),
                    ts,
                },
            ))
        }),
{
    let return_code = match token_index {
        TokenIndex::Token0 => StatusCode::ReturnToken0,
        TokenIndex::Token1 => StatusCode::ReturnToken1,
        TokenIndex::PayToken => StatusCode::ReturnPayToken,
    };
    let ok_code = match token_index {
        TokenIndex::Token0 => StatusCode::ReturnToken0Success,
        TokenIndex::Token1 => StatusCode::ReturnToken1Success,
        TokenIndex::PayToken => StatusCode::ReturnPayTokenSuccess,
    };
    let fail_code = match token_index {
        TokenIndex::Token0 => StatusCode::ReturnToken0Failed,
        TokenIndex::Token1 => StatusCode::ReturnToken1Failed,
        TokenIndex::PayToken => StatusCode::ReturnPayTokenFailed,
    };
    let ghost s0 = *state;
    let ghost e1 = Status { status_code: return_code, message: None, ts };
    proof {
        lemma_state_log_le(*state, request_id, ts);
    }
    state.requests.update_status(request_id, return_code, None, ts);
    proof {
        lemma_state_wf_after_status(s0, *state, request_id, e1);
        crate::request::lemma_requests_appended_grew(s0.requests, state.requests, request_id, e1);
    }
    let ghost s1 = *state;
    match outcome {
        Ok(block) => {
            let amount_with_gas = match crate::bignat::nat_subtract(amount, token_fee) {
                Some(a) => a,
                None => crate::bignat::nat_zero(),
            };
            if !state.transfers.contain(token_id, &block) {
                let transfer_id = state.transfers.insert(
                    StableTransfer {
                        transfer_id: 0,
                        request_id,
                        is_send: false,
                        amount: amount_with_gas,
                        token_id,
                        tx_id: TxId::BlockIndex(block),
                        ts,
                    },
                );
                transfer_ids.push(transfer_id);
                proof {
                    lemma_state_wf_stores(s1, *state);
                }
            }
            let ghost s2 = *state;
            let ghost e2 = Status { status_code: ok_code, message: None, ts };
            proof {
                lemma_state_log_le(*state, request_id, ts);
            }
            state.requests.update_status(request_id, ok_code, None, ts);
            proof {
                lemma_state_wf_after_status(s2, *state, request_id, e2);
                crate::request::lemma_requests_appended_grew(
                    s2.requests,
                    state.requests,
                    request_id,
                    e2,
                );
                assert(s2.requests == s1.requests);
                crate::request::lemma_requests_grew_trans(
                    s0.requests,
                    s1.requests,
                    state.requests,
                    request_id,
                    1,
                    1,
                    ts,
                );
                crate::request::lemma_requests_appended2(
                    s0.requests,
                    s1.requests,
                    state.requests,
                    request_id,
                    e1,
                    e2,
                );
            }
        },
        Err(message) => {
            let claim = crate::claim::StableClaim::new(
                user_id,
                token_id,
                nat_clone(amount),
                Some(request_id),
                Some(Address::PrincipalId(caller_principal.clone())),
                ts,
            );
            let claim_id = state.claims.insert(claim);
            claim_ids.push(claim_id);
            proof {
                assert(state.claims.claims@.last().claim_id == claim_id);
                lemma_state_wf_claims(s1, *state);
            }
            let ghost s2 = *state;
            let ghost e2 = Status { status_code: fail_code, message: Some(message), ts };
            proof {
                lemma_state_log_le(*state, request_id, ts);
            }
            state.requests.update_status(request_id, fail_code, Some(message.clone()), ts);
            proof {
                lemma_state_wf_after_status(s2, *state, request_id, e2);
                crate::request::lemma_requests_appended_grew(
                    s2.requests,
                    state.requests,
                    request_id,
                    e2,
                );
                assert(s2.requests == s1.requests);
                crate::request::lemma_requests_grew_trans(
                    s0.requests,
                    s1.requests,
                    state.requests,
                    request_id,
                    1,
                    1,
                    ts,
                );
                crate::request::lemma_requests_appended2(
                    s0.requests,
                    s1.requests,
                    state.requests,
                    request_id,
                    e1,
                    e2,
                );
            }
        },
    }
}

/// A state change that only filed clock-stamped claims stays well formed.
pub proof fn lemma_state_wf_claims(before: State, after: State)
    requires
        before.wf(),
        after.users == before.users,
        after.tokens == before.tokens,
        after.pools == before.pools,
        after.lp_ledger == before.lp_ledger,
        after.transfers == before.transfers,
        after.txs == before.txs,
        after.requests == before.requests,
        after.clock == before.clock,
        after.claims.wf(),
        after.claims.claims@.len() >= before.claims.claims@.len(),
        forall|k: int|
            0 <= k < before.claims.claims@.len() ==> #[trigger] after.claims.claims@[k]
                == before.claims.claims@[k],
        forall|k: int|
            before.claims.claims@.len() <= k < after.claims.claims@.len() ==> (
            #[trigger] after.claims.claims@[k]).ts <= after.clock,
    ensures
        after.wf(),
{
    assert forall|i: int|
        0 <= i < after.claims.claims@.len() implies (#[trigger] after.claims.claims@[i]).ts
        <= after.clock by {
        if i < before.claims.claims@.len() {
            assert(after.claims.claims@[i] == before.claims.claims@[i]);
            assert(before.claims.claims@[i].ts <= before.clock);
        }
    }
}

/// Whether the compensating return of the first deposit lands as a fresh
/// outbound record: the ledger returned a block index that neither the
/// earlier ledger history nor this request's own pull already holds.
pub open spec fn return_token_recorded(
    state: State,
    checked: CheckedAddLiquidity,
    transfer_0_outcome: Result<BigNat, String>,
    return_0_outcome: Result<BigNat, String>,
) -> bool {
    &&& return_0_outcome matches Ok(b) && !state.transfers.spec_contains_block(
        checked.token_0_id,
        b@,
    ) && (transfer_0_outcome matches Ok(pb) && pb@ != b@)
}

/// Everything an accepted add-liquidity request has settled before any
/// ledger call is made.
pub struct CheckedAddLiquidity {
    pub user_id: u32,
    pub pool_id: u32,
    pub token_0_id: u32,
    pub decimals_0: u8,
    pub fee_0: BigNat,
    pub token_1_id: u32,
    pub decimals_1: u8,
    pub fee_1: BigNat,
    pub add_amount_0: BigNat,
    pub add_amount_1: BigNat,
    pub add_lp_token_amount: BigNat,
}

/// Validate an add-liquidity request and price it; registers the caller
/// as a user on success.
#[verifier::rlimit(50)]
pub fn check_arguments(
    state: &mut State,
    caller_principal: String,
    args: &crate::request::AddLiquidityArgs,
) -> (r: Result<CheckedAddLiquidity, AmmError>)
    requires
        old(state).wf(),
        old(state).users.can_insert(),
    ensures
        final(state).wf(),
        final(state).tokens == old(state).tokens,
        final(state).pools == old(state).pools,
        final(state).lp_ledger == old(state).lp_ledger,
        final(state).requests == old(state).requests,
        final(state).transfers == old(state).transfers,
        final(state).txs == old(state).txs,
        final(state).claims == old(state).claims,
        final(state).clock == old(state).clock,
        r is Err ==> final(state).users == old(state).users,
        r is Ok <==> args.amount_0@ > 0 && args.amount_1@ > 0 && args.tx_id_0 is None
            && args.tx_id_1 is None && al_plan(
            *old(state),
            args.token_0@,
            args.amount_0@,
            args.token_1@,
            args.amount_1@,
        ) is Some,
        (args.amount_0@ == 0 || args.amount_1@ == 0) ==> (r matches Err(e) && e is ZeroAmount),
        args.amount_0@ > 0 && args.amount_1@ > 0 && (args.tx_id_0 is Some
            || args.tx_id_1 is Some) ==> (r matches Err(e) && e is TxIdNotSupported),
        r matches Ok(c) ==> ({
            let plan = al_plan(
                *old(state),
                args.token_0@,
                args.amount_0@,
                args.token_1@,
                args.amount_1@,
            )->Some_0;
            let tok0 = find_by_text(old(state).tokens.tokens@, args.token_0@)->Some_0;
            let tok1 = find_by_text(old(state).tokens.tokens@, args.token_1@)->Some_0;
            &&& 0 <= plan.0 < old(state).pools.pools@.len()
            &&& c.pool_id == old(state).pools.pools@[plan.0].pool_id
            &&& old(state).pools.spec_index_of(c.pool_id) == plan.0
            &&& c.token_0_id == old(state).pools.pools@[plan.0].token_0_id
            &&& c.token_1_id == old(state).pools.pools@[plan.0].token_1_id
            &&& c.token_0_id == tok0.token_id
            &&& c.token_1_id == tok1.token_id
            &&& c.decimals_0 == tok0.decimals
            &&& c.decimals_1 == tok1.decimals
            &&& c.fee_0@ == tok0.fee@
            &&& c.fee_1@ == tok1.fee@
            &&& c.add_amount_0@ == plan.1
            &&& c.add_amount_1@ == plan.2
            &&& c.add_lp_token_amount@ == plan.3
            &&& c.add_amount_0@ > 0
            &&& c.add_amount_1@ > 0
            &&& exists|k: int|
                0 <= k < final(state).users.users@.len()
                    && (#[trigger] final(state).users.users@[k]).user_id == c.user_id
                    && final(state).users.users@[k].principal_id@ == caller_principal@
        }),
{
    if nat_is_zero(&args.amount_0) || nat_is_zero(&args.amount_1) {
        return Err(AmmError::ZeroAmount);
    }
    if args.tx_id_0.is_some() || args.tx_id_1.is_some() {
        return Err(AmmError::TxIdNotSupported);
    }
    let tok0 = match state.tokens.get_by_text(&args.token_0) {
        Some(t) => t,
        None => {
            return Err(AmmError::TokenNotFound);
        },
    };
    let tok1 = match state.tokens.get_by_text(&args.token_1) {
        Some(t) => t,
        None => {
            return Err(AmmError::TokenNotFound);
        },
    };
    let token_0_id = tok0.token_id;
    let decimals_0 = tok0.decimals;
    let fee_0 = nat_clone(&tok0.fee);
    let token_1_id = tok1.token_id;
    let decimals_1 = tok1.decimals;
    let fee_1 = nat_clone(&tok1.fee);
    let found = state.pools.index_of_oriented_pair(token_0_id, token_1_id);
    let i = match found {
        Some(i) => i,
        None => {
            return Err(AmmError::PoolNotFound);
        },
    };
    proof {
        state.pools.lemma_oriented_unique(token_0_id, token_1_id, i as int);
        state.pools.lemma_id_unique(state.pools.pools@[i as int].pool_id, i as int);
    }
    let pool_id = state.pools.pools[i].pool_id;
    let lp_token_id = state.pools.pools[i].lp_token_id;
    let reserve_0 = state.pools.pools[i].reserve_0_amount();
    let reserve_1 = state.pools.pools[i].reserve_1_amount();
    let supply = state.lp_ledger.get_total_supply(lp_token_id);
    let priced = calculate_liquidity_amounts(
        &args.amount_0,
        decimals_0,
        &args.amount_1,
        decimals_1,
        &reserve_0,
        &reserve_1,
        &supply,
    );
    let (add_amount_0, add_amount_1, add_lp_token_amount) = match priced {
        Ok(t) => t,
        Err(e) => {
            return Err(e);
        },
    };
    proof {
        crate::pool_math::lemma_liquidity_amounts_pos(
            args.amount_0@,
            decimals_0 as nat,
            args.amount_1@,
            decimals_1 as nat,
            reserve_0@,
            reserve_1@,
            supply@,
        );
    }
    let ghost principal_view = caller_principal@;
    let now = state.clock;
    let user_id = state.users.insert(caller_principal, now);
    proof {
        assert(state.users.wf());
        assert(exists|k: int|
            0 <= k < state.users.users@.len() && (#[trigger] state.users.users@[k]).user_id
                == user_id && state.users.users@[k].principal_id@ == principal_view);
        let os = *old(state);
        let plan_opt = al_plan(os, args.token_0@, args.amount_0@, args.token_1@, args.amount_1@);
        assert(plan_opt is Some);
        let plan = plan_opt->Some_0;
        assert(plan.0 == i as int);
        assert(pool_id == os.pools.pools@[plan.0].pool_id);
        assert(os.pools.spec_index_of(pool_id) == plan.0);
        assert(token_0_id == os.pools.pools@[plan.0].token_0_id);
        assert(token_1_id == os.pools.pools@[plan.0].token_1_id);
        assert(add_amount_0@ == plan.1 && add_amount_1@ == plan.2 && add_lp_token_amount@
            == plan.3);
        assert(add_amount_0@ > 0 && add_amount_1@ > 0);
        assert(exists|k: int|
            0 <= k < state.users.users@.len() && (#[trigger] state.users.users@[k]).user_id
                == user_id && state.users.users@[k].principal_id@ == caller_principal@);
    }
    Ok(
        CheckedAddLiquidity {
            user_id,
            pool_id,
            token_0_id,
            decimals_0,
            fee_0,
            token_1_id,
            decimals_1,
            fee_1,
            add_amount_0,
            add_amount_1,
            add_lp_token_amount,
        },
    )
}

/// Run the pulls, the re-pricing and the credits of an accepted
/// add-liquidity request, compensating on partial failure.  The pool,
/// token and amount arguments are the ones `check_arguments` settled.
#[verifier::rlimit(100)]
pub fn process_add_liquidity(
    state: &mut State,
    request_id: u64,
    user_id: u32,
    caller_principal: &String,
    checked: &CheckedAddLiquidity,
    transfer_0_outcome: Result<BigNat, String>,
    transfer_1_outcome: Result<BigNat, String>,
    return_0_outcome: Result<BigNat, String>,
    return_1_outcome: Result<BigNat, String>,
    ts: u64,
) -> (r: Result<crate::replies::AddLiquidityReply, AmmError>)
    requires
        old(state).wf(),
        old(state).transfers.next_transfer_id + 4 < u64::MAX,
        old(state).claims.next_claim_id + 2 < u64::MAX,
        old(state).lp_ledger.can_insert(),
        old(state).txs.can_insert(),
        ts == old(state).clock,
        old(state).requests.requests@.len() > 0,
        old(state).requests.requests@.last().request_id == request_id,
        old(state).pools.spec_contains_id(checked.pool_id),
        old(state).pools.pools@[old(state).pools.spec_index_of(checked.pool_id)].token_0_id
            == checked.token_0_id,
        old(state).pools.pools@[old(state).pools.spec_index_of(checked.pool_id)].token_1_id
            == checked.token_1_id,
        checked.add_amount_0@ > 0,
        checked.add_amount_1@ > 0,
    ensures
        final(state).wf(),
        final(state).users == old(state).users,
        final(state).tokens == old(state).tokens,
        final(state).clock == old(state).clock,
        ({
            let i = old(state).pools.spec_index_of(checked.pool_id);
            let p = old(state).pools.pools@[i];
            let plan2 = spec_liquidity_amounts(
                checked.add_amount_0@,
                checked.decimals_0 as nat,
                checked.add_amount_1@,
                checked.decimals_1 as nat,
                p.reserve_0(),
                p.reserve_1(),
                old(state).lp_ledger.spec_supply(p.lp_token_id),
            );
            let pull0 = transfer_0_outcome matches Ok(b) && !old(
                state,
            ).transfers.spec_contains_block(checked.token_0_id, b@);
            let pull1 = transfer_1_outcome matches Ok(b) && !old(
                state,
            ).transfers.spec_contains_block(checked.token_1_id, b@);
            &&& (r is Ok <==> pull0 && pull1 && plan2 is Some)
            &&& (r matches Ok(reply) ==> ({
                let v = plan2->Some_0;
                &&& final(state).pools.pools@.len() == old(state).pools.pools@.len()
                &&& (forall|j: int|
                    0 <= j < old(state).pools.pools@.len() && j != i
                        ==> #[trigger] final(state).pools.pools@[j] == old(
                        state,
                    ).pools.pools@[j])
                &&& final(state).pools.pools@[i].pool_id == p.pool_id
                &&& final(state).pools.pools@[i].balance_0@ == p.balance_0@ + v.0
                &&& final(state).pools.pools@[i].balance_1@ == p.balance_1@ + v.1
                &&& final(state).pools.pools@[i].lp_fee_0@ == p.lp_fee_0@
                &&& final(state).pools.pools@[i].lp_fee_1@ == p.lp_fee_1@
                &&& final(state).lp_ledger.spec_supply(p.lp_token_id) == old(
                    state,
                ).lp_ledger.spec_supply(p.lp_token_id) + v.2
                &&& final(state).lp_ledger.spec_row_amount(p.lp_token_id, user_id) == old(
                    state,
                ).lp_ledger.spec_row_amount(p.lp_token_id, user_id) + v.2
                &&& final(state).claims == old(state).claims
                &&& final(state).txs.txs@.len() == old(state).txs.txs@.len() + 1
                &&& (final(state).txs.txs@.last() matches crate::tx::StableTx::AddLiquidity(tx)
                    && tx.pool_id == checked.pool_id && tx.user_id == user_id && tx.request_id
                    == request_id && tx.status is Success && tx.amount_0@ == v.0 && tx.amount_1@
                    == v.1 && tx.add_lp_token_amount@ == v.2 && tx.ts == ts
                    && tx.transfer_ids@.len() == 2 && tx.transfer_ids@[0] == old(
                    state,
                ).transfers.next_transfer_id && tx.transfer_ids@[1] == old(
                    state,
                ).transfers.next_transfer_id + 1 && tx.claim_ids@.len() == 0)
                &&& reply.amount_0@ == v.0
                &&& reply.amount_1@ == v.1
                &&& reply.add_lp_token_amount@ == v.2
                &&& reply.request_id == request_id
                &&& reply.status@ == "Success"@
                &&& reply.ts == ts
                &&& crate::request::requests_log_grew_with_reply(
                    old(state).requests,
                    final(state).requests,
                    request_id,
                    11,
                    ts,
                )
            }))
            &&& (r is Err ==> final(state).pools == old(state).pools && final(state).lp_ledger
                == old(state).lp_ledger && final(state).txs == old(state).txs)
            &&& (!pull0 ==> final(state).claims == old(state).claims && final(state).transfers
                == old(state).transfers && requests_log_grew(
                old(state).requests,
                final(state).requests,
                request_id,
                3,
                ts,
            ))
            &&& (transfer_0_outcome matches Err(m) ==> crate::request::requests_appended3(
                old(state).requests,
                final(state).requests,
                request_id,
                Status { status_code: StatusCode::Start, message: None, ts },
                Status { status_code: StatusCode::SendToken0, message: None, ts },
                Status { status_code: StatusCode::SendToken0Failed, message: Some(m), ts },
            ))
            &&& (!pull0 && transfer_0_outcome is Ok ==> exists|msg: String|
                msg@ == "Duplicate block id"@ && crate::request::requests_appended3(
                    old(state).requests,
                    final(state).requests,
                    request_id,
                    Status { status_code: StatusCode::Start, message: None, ts },
                    Status { status_code: StatusCode::SendToken0, message: None, ts },
                    Status { status_code: StatusCode::SendToken0Failed, message: Some(msg), ts },
                ))
            &&& (pull0 && !pull1 ==> final(state).transfers.transfers@.len() == old(
                state,
            ).transfers.transfers@.len() + (if return_token_recorded(
                *old(state),
                *checked,
                transfer_0_outcome,
                return_0_outcome,
            ) {
                2int
            } else {
                1int
            }))
            &&& (pull0 && !pull1 && return_token_recorded(
                *old(state),
                *checked,
                transfer_0_outcome,
                return_0_outcome,
            ) ==> ({
                let t = final(state).transfers.transfers@.last();
                &&& t.request_id == request_id
                &&& t.is_send == false
                &&& t.amount@ == (if checked.fee_0@ <= checked.add_amount_0@ {
                    (checked.add_amount_0@ - checked.fee_0@) as nat
                } else {
                    0
                })
                &&& t.token_id == checked.token_0_id
                &&& t.tx_id == TxId::BlockIndex(return_0_outcome->Ok_0)
                &&& t.ts == ts
            }))
            &&& (pull0 && !pull1 ==> crate::request::requests_log_grew_with_reply(
                old(state).requests,
                final(state).requests,
                request_id,
                7,
                ts,
            ))
            &&& (pull0 && pull1 && plan2 is None ==> crate::request::requests_log_grew_with_reply(
                old(state).requests,
                final(state).requests,
                request_id,
                11,
                ts,
            ))
            &&& (pull0 && !pull1 && return_0_outcome is Err
                ==> final(state).claims.claims@.len() == old(state).claims.claims@.len() + 1
                && ({
                let c = final(state).claims.claims@.last();
                &&& c.user_id == user_id
                &&& c.status is Unclaimed
                &&& c.token_id == checked.token_0_id
                &&& c.amount@ == checked.add_amount_0@
                &&& c.request_id == Some(request_id)
            }))
            &&& (pull0 && !pull1 && return_0_outcome is Ok ==> final(state).claims == old(
                state,
            ).claims)
            &&& (pull0 && !pull1 ==> ({
                let stored = final(state).requests.requests@.last().reply;
                &&& (stored matches Some(rep) && rep matches Reply::AddLiquidity(rp) && ({
                    &&& rp.status@ == "Failed"@
                    &&& rp.request_id == request_id
                    &&& (return_token_recorded(*old(state), *checked, transfer_0_outcome,
                    return_0_outcome) ==> rp.transfer_ids@ == seq![
                        old(state).transfers.next_transfer_id,
                        (old(state).transfers.next_transfer_id + 1) as u64,
                    ] && rp.claim_ids@.len() == 0)
                    &&& (return_0_outcome is Err ==> rp.transfer_ids@ == seq![
                        old(state).transfers.next_transfer_id,
                    ] && rp.claim_ids@ == seq![old(state).claims.next_claim_id])
                }))
            }))
        }),
{
    let ghost o0 = transfer_0_outcome;
    let ghost r0 = return_0_outcome;
    let ghost s0 = *state;
    let ghost e_start = Status { status_code: StatusCode::Start, message: None, ts };
    proof {
        lemma_state_log_le(*state, request_id, ts);
    }
    state.requests.update_status(request_id, StatusCode::Start, None, ts);
    proof {
        lemma_state_wf_after_status(s0, *state, request_id, e_start);
        crate::request::lemma_requests_appended_grew(
            s0.requests,
            state.requests,
            request_id,
            e_start,
        );
    }
    let ghost s1 = *state;
    let pulled_0 = transfer_from_token(
        state,
        request_id,
        TokenIndex::Token0,
        checked.token_0_id,
        &checked.add_amount_0,
        transfer_0_outcome,
        ts,
    );
    proof {
        crate::request::lemma_requests_grew_trans(
            s0.requests,
            s1.requests,
            state.requests,
            request_id,
            1,
            2,
            ts,
        );
    }
    let token_0_transfer_id = match pulled_0 {
        Ok(tid) => tid,
        Err(e) => {
            proof {
                let e1 = Status { status_code: StatusCode::SendToken0, message: None, ts };
                match o0 {
                    Err(m) => {
                        crate::request::lemma_requests_appended3(
                            s0.requests,
                            s1.requests,
                            state.requests,
                            request_id,
                            e_start,
                            e1,
                            Status {
                                status_code: StatusCode::SendToken0Failed,
                                message: Some(m),
                                ts,
                            },
                        );
                    },
                    Ok(_) => {
                        let msg = choose|msg: String|
                            msg@ == "Duplicate block id"@ && crate::request::requests_appended2(
                                s1.requests,
                                state.requests,
                                request_id,
                                Status {
                                    status_code: spec_send_code(TokenIndex::Token0),
                                    message: None,
                                    ts,
                                },
                                Status {
                                    status_code: spec_send_fail_code(TokenIndex::Token0),
                                    message: Some(msg),
                                    ts,
                                },
                            );
                        crate::request::lemma_requests_appended3(
                            s0.requests,
                            s1.requests,
                            state.requests,
                            request_id,
                            e_start,
                            e1,
                            Status {
                                status_code: StatusCode::SendToken0Failed,
                                message: Some(msg),
                                ts,
                            },
                        );
                    },
                }
            }
            return Err(e);
        },
    };
    let mut transfer_ids: Vec<u64> = Vec::new();
    transfer_ids.push(token_0_transfer_id);
    let ghost s2 = *state;
    let pulled_1 = transfer_from_token(
        state,
        request_id,
        TokenIndex::Token1,
        checked.token_1_id,
        &checked.add_amount_1,
        transfer_1_outcome,
        ts,
    );
    proof {
        crate::request::lemma_requests_grew_trans(
            s0.requests,
            s2.requests,
            state.requests,
            request_id,
            3,
            2,
            ts,
        );
        let i = old(state).pools.spec_index_of(checked.pool_id);
        assert(old(state).pools.pools@[i].wf());
        assert(checked.token_0_id != checked.token_1_id);
        if transfer_1_outcome is Ok {
            let rec = s2.transfers.transfers@.last();
            assert(rec.token_id == checked.token_0_id);
            assert(s2.transfers.transfers@ =~= s1.transfers.transfers@.push(rec));
            crate::transfer::lemma_contains_block_push(
                s1.transfers,
                s2.transfers,
                rec,
                checked.token_1_id,
                transfer_1_outcome->Ok_0@,
            );
        }
    }
    match pulled_1 {
        Ok(tid) => {
            transfer_ids.push(tid);
        },
        Err(e) => {
            // The first deposit is in but the second failed: give the
            // first back, or owe it as a claim.
            let mut claim_ids: Vec<u64> = Vec::new();
            let ghost s3 = *state;
            proof {
                let pullrec = s3.transfers.transfers@.last();
                assert(s3.transfers.transfers@ =~= old(state).transfers.transfers@.push(pullrec));
                if r0 is Ok {
                    crate::transfer::lemma_contains_block_push_any(
                        old(state).transfers,
                        s3.transfers,
                        pullrec,
                        checked.token_0_id,
                        r0->Ok_0@,
                    );
                }
            }
            return_token(
                state,
                request_id,
                user_id,
                caller_principal,
                TokenIndex::Token0,
                checked.token_0_id,
                &checked.fee_0,
                &checked.add_amount_0,
                return_0_outcome,
                &mut transfer_ids,
                &mut claim_ids,
                ts,
            );
            proof {
                crate::request::lemma_requests_grew_trans(
                    s0.requests,
                    s3.requests,
                    state.requests,
                    request_id,
                    5,
                    2,
                    ts,
                );
            }
            proof {
                if return_token_recorded(*old(state), *checked, o0, r0) {
                    assert(transfer_ids@ =~= seq![
                        old(state).transfers.next_transfer_id,
                        (old(state).transfers.next_transfer_id + 1) as u64,
                    ]);
                    assert(claim_ids@ =~= Seq::<u64>::empty());
                }
                if r0 is Err {
                    assert(token_0_transfer_id == old(state).transfers.next_transfer_id);
                    assert(transfer_ids@ == Seq::<u64>::empty().push(token_0_transfer_id));
                    assert(transfer_ids@ =~= seq![old(state).transfers.next_transfer_id]);
                    assert(state.claims.claims@.last().claim_id == old(
                        state,
                    ).claims.next_claim_id);
                    assert(claim_ids@ =~= seq![old(state).claims.next_claim_id]);
                }
            }
            let reply = create_add_liquidity_reply_failed(
                checked.pool_id,
                request_id,
                &transfer_ids,
                &claim_ids,
                ts,
                &state.pools,
                &state.tokens,
            );
            let ghost stored = Reply::AddLiquidity(reply);
            let ghost s4 = *state;
            state.requests.update_reply(request_id, Reply::AddLiquidity(reply));
            proof {
                lemma_state_wf_after_reply(s4, *state, request_id);
                crate::request::lemma_requests_grew_then_reply(
                    s0.requests,
                    s4.requests,
                    state.requests,
                    request_id,
                    7,
                    ts,
                );
                let li = old(state).requests.requests@.len() - 1;
                assert(s4.requests.requests@[li].request_id == request_id);
                assert(state.requests.requests@[li].reply == Some(stored));
            }
            return Err(e);
        },
    };
    let ghost s5 = *state;
    let updated = update_liquidity_pool(
        state,
        request_id,
        user_id,
        checked.pool_id,
        checked.decimals_0,
        checked.decimals_1,
        &checked.add_amount_0,
        &checked.add_amount_1,
        ts,
    );
    proof {
        s5.pools.lemma_id_unique(
            checked.pool_id,
            old(state).pools.spec_index_of(checked.pool_id),
        );
    }
    match updated {
        Ok((amount_0, amount_1, add_lp_token_amount)) => {
            proof {
                crate::request::lemma_requests_grew_trans(
                    s0.requests,
                    s5.requests,
                    state.requests,
                    request_id,
                    5,
                    6,
                    ts,
                );
            }
            let tx = crate::tx::AddLiquidityTx {
                tx_id: 0,
                pool_id: checked.pool_id,
                user_id,
                request_id,
                status: StatusTx::Success,
                amount_0: nat_clone(&amount_0),
                amount_1: nat_clone(&amount_1),
                add_lp_token_amount: nat_clone(&add_lp_token_amount),
                transfer_ids: copy_ids(&transfer_ids),
                claim_ids: Vec::new(),
                ts,
            };
            let ghost s6 = *state;
            let tx_id = state.txs.insert(crate::tx::StableTx::AddLiquidity(tx));
            proof {
                lemma_state_wf_stores(s6, *state);
            }
            let tx_ref = match &state.txs.txs[state.txs.txs.len() - 1] {
                crate::tx::StableTx::AddLiquidity(t) => t,
                _ => {
                    proof {
                        assert(false);
                    }
                    return Err(AmmError::StateCorrupted);
                },
            };
            let reply = crate::replies::create_add_liquidity_reply_with_tx_id(
                tx_id,
                tx_ref,
                &state.pools,
                &state.tokens,
            );
            let returned = reply.duplicate();
            let ghost s7 = *state;
            state.requests.update_reply(request_id, Reply::AddLiquidity(reply));
            proof {
                lemma_state_wf_after_reply(s7, *state, request_id);
                crate::request::lemma_requests_grew_then_reply(
                    s0.requests,
                    s7.requests,
                    state.requests,
                    request_id,
                    11,
                    ts,
                );
            }
            Ok(returned)
        },
        Err(e) => {
            // The ratio moved between the two pulls: return both legs.
            let mut claim_ids: Vec<u64> = Vec::new();
            let ghost s8 = *state;
            return_token(
                state,
                request_id,
                user_id,
                caller_principal,
                TokenIndex::Token0,
                checked.token_0_id,
                &checked.fee_0,
                &checked.add_amount_0,
                return_0_outcome,
                &mut transfer_ids,
                &mut claim_ids,
                ts,
            );
            let ghost s9 = *state;
            return_token(
                state,
                request_id,
                user_id,
                caller_principal,
                TokenIndex::Token1,
                checked.token_1_id,
                &checked.fee_1,
                &checked.add_amount_1,
                return_1_outcome,
                &mut transfer_ids,
                &mut claim_ids,
                ts,
            );
            proof {
                crate::request::lemma_requests_grew_trans(
                    s8.requests,
                    s9.requests,
                    state.requests,
                    request_id,
                    2,
                    2,
                    ts,
                );
                crate::request::lemma_requests_grew_trans(
                    s5.requests,
                    s8.requests,
                    state.requests,
                    request_id,
                    2,
                    4,
                    ts,
                );
                crate::request::lemma_requests_grew_trans(
                    s0.requests,
                    s5.requests,
                    state.requests,
                    request_id,
                    5,
                    6,
                    ts,
                );
            }
            let reply = create_add_liquidity_reply_failed(
                checked.pool_id,
                request_id,
                &transfer_ids,
                &claim_ids,
                ts,
                &state.pools,
                &state.tokens,
            );
            let ghost s10 = *state;
            state.requests.update_reply(request_id, Reply::AddLiquidity(reply));
            proof {
                lemma_state_wf_after_reply(s10, *state, request_id);
                crate::request::lemma_requests_grew_then_reply(
                    s0.requests,
                    s10.requests,
                    state.requests,
                    request_id,
                    11,
                    ts,
                );
            }
            Err(e)
        },
    }
}

/// Advancing the clock preserves well-formedness.
pub proof fn lemma_state_wf_clock(before: State, after: State, ts: u64)
    requires
        before.wf(),
        ts >= before.clock,
        after == (State { clock: ts, ..before }),
    ensures
        after.wf(),
{
}

/// The request ledger stays well formed when a fresh empty request comes
/// in: nothing stamped later than the clock enters.
pub proof fn lemma_state_wf_after_insert_request(before: State, after: State)
    requires
        before.wf(),
        after.users == before.users,
        after.tokens == before.tokens,
        after.pools == before.pools,
        after.lp_ledger == before.lp_ledger,
        after.transfers == before.transfers,
        after.txs == before.txs,
        after.claims == before.claims,
        after.clock == before.clock,
        after.requests.wf(),
        after.requests.requests@.len() == before.requests.requests@.len() + 1,
        forall|i: int|
            0 <= i < before.requests.requests@.len() ==> #[trigger] after.requests.requests@[i]
                == before.requests.requests@[i],
        after.requests.requests@.last().statuses@.len() == 0,
    ensures
        after.wf(),
{
    assert forall|j: int, a: int|
        #![trigger after.requests.requests@[j].statuses@[a]]
        0 <= j < after.requests.requests@.len() && 0 <= a
            < after.requests.requests@[j].statuses@.len()
        implies after.requests.requests@[j].statuses@[a].ts <= after.clock by {
        if j < before.requests.requests@.len() {
            assert(after.requests.requests@[j] == before.requests.requests@[j]);
            assert(before.requests.requests@[j].statuses@[a].ts <= before.clock);
        }
    }
}

/// Add liquidity to an existing pool: validate and price the deposit,
/// pull both legs from the caller, re-price against the then-current
/// reserves, and credit the pool and the caller's LP row; a failed leg is
/// compensated, and a failed compensation becomes a claim.
#[verifier::rlimit(100)]
pub fn add_liquidity_transfer_from(
    state: &mut State,
    caller_principal: String,
    args: crate::request::AddLiquidityArgs,
    transfer_0_outcome: Result<BigNat, String>,
    transfer_1_outcome: Result<BigNat, String>,
    return_0_outcome: Result<BigNat, String>,
    return_1_outcome: Result<BigNat, String>,
    ts: u64,
) -> (r: Result<crate::replies::AddLiquidityReply, AmmError>)
    requires
        old(state).wf(),
        old(state).can_allocate(),
        ts >= old(state).clock,
    ensures
        final(state).wf(),
        final(state).clock == ts,
        final(state).tokens == old(state).tokens,
        ({
            let plan_opt = al_plan(
                *old(state),
                args.token_0@,
                args.amount_0@,
                args.token_1@,
                args.amount_1@,
            );
            let valid = args.amount_0@ > 0 && args.amount_1@ > 0 && args.tx_id_0 is None
                && args.tx_id_1 is None && plan_opt is Some;
            &&& (!valid ==> r is Err && final(state).users == old(state).users
                && final(state).pools == old(state).pools
                && final(state).lp_ledger == old(state).lp_ledger
                && final(state).requests == old(state).requests
                && final(state).transfers == old(state).transfers
                && final(state).txs == old(state).txs
                && final(state).claims == old(state).claims)
            &&& (valid ==> ({
                let plan = plan_opt->Some_0;
                let tok0 = find_by_text(old(state).tokens.tokens@, args.token_0@)->Some_0;
                let tok1 = find_by_text(old(state).tokens.tokens@, args.token_1@)->Some_0;
                let p = old(state).pools.pools@[plan.0];
                let plan2 = spec_liquidity_amounts(
                    plan.1,
                    tok0.decimals as nat,
                    plan.2,
                    tok1.decimals as nat,
                    p.reserve_0(),
                    p.reserve_1(),
                    old(state).lp_ledger.spec_supply(p.lp_token_id),
                );
                let pull0 = transfer_0_outcome matches Ok(b) && !old(
                    state,
                ).transfers.spec_contains_block(tok0.token_id, b@);
                let pull1 = transfer_1_outcome matches Ok(b) && !old(
                    state,
                ).transfers.spec_contains_block(tok1.token_id, b@);
                &&& (r is Ok <==> pull0 && pull1 && plan2 is Some)
                &&& final(state).requests.requests@.len() == old(
                    state,
                ).requests.requests@.len() + 1
                &&& ({
                    let fr = final(state).requests.requests@.last();
                    &&& fr.request_id == old(state).requests.next_request_id
                    &&& fr.request == crate::request::RequestKind::AddLiquidity(args)
                    &&& fr.ts == ts
                    &&& fr.statuses@.len() > 0
                    &&& crate::request::is_terminal(fr.statuses@.last().status_code)
                    &&& crate::request::terminal_count(fr.statuses@) == 1
                    &&& (r is Ok ==> fr.statuses@.last().status_code is Success
                        && fr.reply is Some)
                    &&& (r is Err ==> fr.statuses@.last().status_code is Failed)
                })
                &&& (r matches Ok(reply) ==> ({
                    let v = plan2->Some_0;
                    &&& final(state).pools.pools@.len() == old(state).pools.pools@.len()
                    &&& (forall|j: int|
                        0 <= j < old(state).pools.pools@.len() && j != plan.0
                            ==> #[trigger] final(state).pools.pools@[j] == old(
                            state,
                        ).pools.pools@[j])
                    &&& final(state).pools.pools@[plan.0].pool_id == p.pool_id
                    &&& final(state).pools.pools@[plan.0].balance_0@ == p.balance_0@ + v.0
                    &&& final(state).pools.pools@[plan.0].balance_1@ == p.balance_1@ + v.1
                    &&& final(state).pools.pools@[plan.0].lp_fee_0@ == p.lp_fee_0@
                    &&& final(state).pools.pools@[plan.0].lp_fee_1@ == p.lp_fee_1@
                    &&& final(state).lp_ledger.spec_supply(p.lp_token_id) == old(
                        state,
                    ).lp_ledger.spec_supply(p.lp_token_id) + v.2
                    &&& final(state).claims == old(state).claims
                    &&& final(state).txs.txs@.len() == old(state).txs.txs@.len() + 1
                    &&& reply.amount_0@ == v.0
                    &&& reply.amount_1@ == v.1
                    &&& reply.add_lp_token_amount@ == v.2
                    &&& reply.status@ == "Success"@
                    &&& reply.request_id == old(state).requests.next_request_id
                }))
                &&& (r is Err ==> final(state).pools == old(state).pools
                    && final(state).lp_ledger == old(state).lp_ledger
                    && final(state).txs == old(state).txs)
                &&& (!pull0 ==> final(state).claims == old(state).claims
                    && final(state).transfers == old(state).transfers)
                &&& (pull0 && !pull1 && return_0_outcome is Err
                    ==> final(state).claims.claims@.len() == old(state).claims.claims@.len() + 1
                    && ({
                    let c = final(state).claims.claims@.last();
                    &&& c.user_id == final(state).requests.requests@.last().user_id
                    &&& c.status is Unclaimed
                    &&& c.token_id == tok0.token_id
                    &&& c.amount@ == plan.1
                    &&& c.request_id == Some(old(state).requests.next_request_id)
                }))
                &&& (pull0 && !pull1 && return_0_outcome is Ok ==> final(state).claims == old(
                    state,
                ).claims)
            }))
        }),
{
    let ghost pre = *old(state);
    state.clock = ts;
    proof {
        lemma_state_wf_clock(pre, *state, ts);
    }
    let ghost s0 = *state;
    let checked = match check_arguments(state, caller_principal, &args) {
        Ok(c) => c,
        Err(e) => {
            return Err(e);
        },
    };
    let caller_for_claims = match state.users.get_principal(checked.user_id) {
        Some(p) => p,
        None => String::new(),
    };
    let ghost s1 = *state;
    let request_id = state.requests.insert(
        checked.user_id,
        crate::request::RequestKind::AddLiquidity(args),
        ts,
    );
    proof {
        lemma_state_wf_after_insert_request(s1, *state);
    }
    let ghost s2 = *state;
    let ghost o0 = transfer_0_outcome;
    let ghost o1 = transfer_1_outcome;
    let processed = process_add_liquidity(
        state,
        request_id,
        checked.user_id,
        &caller_for_claims,
        &checked,
        transfer_0_outcome,
        transfer_1_outcome,
        return_0_outcome,
        return_1_outcome,
        ts,
    );
    proof {
        s2.pools.lemma_id_unique(checked.pool_id, pre.pools.spec_index_of(checked.pool_id));
    }
    let ghost s3 = *state;
    match processed {
        Ok(reply) => {
            let ghost e_term = Status { status_code: StatusCode::Success, message: None, ts };
            proof {
                lemma_state_log_le(*state, request_id, ts);
            }
            state.requests.update_status(request_id, StatusCode::Success, None, ts);
            proof {
                lemma_state_wf_after_status(s3, *state, request_id, e_term);
                lemma_finalized(s2, s3, *state, request_id, e_term, 11, true);
            }
            Ok(reply)
        },
        Err(e) => {
            let ghost e_term = Status { status_code: StatusCode::Failed, message: None, ts };
            proof {
                lemma_state_log_le(*state, request_id, ts);
            }
            state.requests.update_status(request_id, StatusCode::Failed, None, ts);
            proof {
                lemma_state_wf_after_status(s3, *state, request_id, e_term);
                if !(o0 matches Ok(b) && !s2.transfers.spec_contains_block(
                    checked.token_0_id,
                    b@,
                )) {
                    lemma_finalized(s2, s3, *state, request_id, e_term, 3, false);
                } else if !(o1 matches Ok(b) && !s2.transfers.spec_contains_block(
                    checked.token_1_id,
                    b@,
                )) {
                    lemma_finalized(s2, s3, *state, request_id, e_term, 7, true);
                } else {
                    lemma_finalized(s2, s3, *state, request_id, e_term, 11, true);
                }
            }
            Err(e)
        },
    }
}

/// After growth and one terminal append, the fresh request (created last,
/// with an empty log) is finished: one terminal code at the end.
pub proof fn lemma_finalized(
    created: State,
    grown: State,
    done: State,
    request_id: u64,
    entry: Status,
    n: nat,
    with_reply: bool,
)
    requires
        created.requests.requests@.len() > 0,
        created.requests.requests@.last().request_id == request_id,
        created.requests.requests@.last().statuses@.len() == 0,
        crate::request::terminal_count(created.requests.requests@.last().statuses@) == 0,
        with_reply ==> crate::request::requests_log_grew_with_reply(
            created.requests,
            grown.requests,
            request_id,
            n,
            entry.ts,
        ),
        !with_reply ==> requests_log_grew(
            created.requests,
            grown.requests,
            request_id,
            n,
            entry.ts,
        ) || crate::request::requests_log_grew_with_reply(
            created.requests,
            grown.requests,
            request_id,
            n,
            entry.ts,
        ),
        requests_appended(grown.requests, done.requests, request_id, entry),
        crate::request::is_terminal(entry.status_code),
    ensures
        done.requests.requests@.len() == created.requests.requests@.len(),
        ({
            let fr = done.requests.requests@.last();
            &&& fr.request_id == request_id
            &&& fr.statuses@.len() == n + 1
            &&& fr.statuses@.last() == entry
            &&& crate::request::is_terminal(fr.statuses@.last().status_code)
            &&& crate::request::terminal_count(fr.statuses@) == 1
            &&& (with_reply ==> fr.reply is Some)
            &&& fr.request == created.requests.requests@.last().request
            &&& fr.user_id == created.requests.requests@.last().user_id
            &&& fr.ts == created.requests.requests@.last().ts
        }),
{
    let li = created.requests.requests@.len() - 1;
    let r0 = created.requests.requests@[li];
    let r1 = grown.requests.requests@[li];
    let r2 = done.requests.requests@[li];
    assert(crate::request::status_appended(r1, r2, entry));
    assert(r2.statuses@ == r1.statuses@.push(entry));
    assert(r2.statuses@.last() == entry);
}

} // verus!
