//! The claims processor: the periodic retry of unclaimed claims.  Each
//! claim is locked by moving it to `Claiming` before its ledger call, and
//! either settles as `Claimed` or reverts to `Unclaimed` with the attempt
//! on record.  A run gives up after four consecutive failures, and a
//! claim over the attempt limit is parked as `TooManyAttempts`.

use vstd::prelude::*;

use crate::add_liquidity::{
    lemma_state_log_le, lemma_state_wf_after_insert_request, lemma_state_wf_after_reply,
    lemma_state_wf_after_status, lemma_state_wf_clock, lemma_state_wf_stores,
};
use crate::bignat::{nat_clone, nat_subtract, nat_zero, BigNat};
use crate::claim::{claim_step_ok, ClaimStatus};
use crate::error::AmmError;
use crate::replies::{copy_ids, ClaimReply, Reply};
use crate::request::{RequestKind, Status, StatusCode};
use crate::state::State;
use crate::transfer::{StableTransfer, TxId};

verus! {

/// How many failed attempts park a claim for good.
pub const MAX_CLAIM_ATTEMPTS: usize = 50;

/// The pseudo-user the processor's retry requests run under: the timer,
/// not the claim's owner, asks for them.
pub const CLAIMS_TIMER_USER_ID: u32 = 0;

/// How a whole processor run may move one claim: left alone, or lawfully
/// on from `Unclaimed`.
pub open spec fn claim_processed_ok(
    before: crate::claim::StableClaim,
    after: crate::claim::StableClaim,
) -> bool {
    &&& after.claim_id == before.claim_id
    &&& after.user_id == before.user_id
    &&& after.token_id == before.token_id
    &&& after.amount@ == before.amount@
    &&& after.ts == before.ts
    &&& (after.status == before.status || (before.status is Unclaimed && (
    after.status is Claimed || after.status is Unclaimed || after.status is TooManyAttempts)))
}

/// What a locked claim's payout needs from the driver: which token to
/// move, how much net of the ledger fee, where to, and under which
/// request the attempt runs.
pub struct ClaimPayout {
    pub request_id: u64,
    pub token_id: u32,
    pub amount_with_gas: BigNat,
    pub to_address: crate::claim::Address,
}

/// Lock one claim for payment *before* any external call: move it from
/// `Unclaimed` to `Claiming` (the reentrancy lock), open its request, and
/// hand the driver what the transfer needs.  A claim over the attempt
/// limit is parked as `TooManyAttempts` instead.
#[verifier::rlimit(100)]
pub fn claim_lock(state: &mut State, claim_id: u64, ts: u64) -> (r: Result<ClaimPayout, AmmError>)
    requires
        old(state).wf(),
        old(state).can_allocate(),
        ts == old(state).clock,
    ensures
        final(state).wf(),
        final(state).users == old(state).users,
        final(state).tokens == old(state).tokens,
        final(state).pools == old(state).pools,
        final(state).lp_ledger == old(state).lp_ledger,
        final(state).txs == old(state).txs,
        final(state).transfers == old(state).transfers,
        final(state).clock == old(state).clock,
        final(state).claims.claims@.len() == old(state).claims.claims@.len(),
        final(state).claims.next_claim_id == old(state).claims.next_claim_id,
        final(state).requests.next_request_id <= old(state).requests.next_request_id + 1,
        final(state).requests.requests@.len() == old(state).requests.requests@.len() + (
        if r is Ok {
            1int
        } else {
            0int
        }),
        forall|k: int|
            0 <= k < old(state).requests.requests@.len()
                ==> #[trigger] final(state).requests.requests@[k] == old(
                state,
            ).requests.requests@[k],
        ({
            let present = old(state).claims.spec_contains_id(claim_id);
            let j = old(state).claims.spec_id_index(claim_id);
            let c = old(state).claims.claims@[j];
            &&& (r is Ok <==> present && c.status is Unclaimed && c.to_address is Some && old(
                state,
            ).tokens.spec_contains_id(c.token_id) && c.attempt_request_ids@.len()
                < MAX_CLAIM_ATTEMPTS)
            &&& (!present ==> (r matches Err(e) && e is ClaimNotFound) && *final(state) == *old(
                state,
            ))
            &&& (present && !(c.status is Unclaimed) ==> (r matches Err(e)
                && e is ClaimNotClaimable) && *final(state) == *old(state))
            &&& (present && c.status is Unclaimed && c.to_address is None ==> (r matches Err(e)
                && e is ClaimNotClaimable) && *final(state) == *old(state))
            &&& (present && c.status is Unclaimed && c.to_address is Some && !old(
                state,
            ).tokens.spec_contains_id(c.token_id) ==> (r matches Err(e) && e is TokenNotFound)
                && *final(state) == *old(state))
            &&& (present && c.status is Unclaimed && c.to_address is Some && old(
                state,
            ).tokens.spec_contains_id(c.token_id) && c.attempt_request_ids@.len()
                >= MAX_CLAIM_ATTEMPTS ==> (r matches Err(e)
                && e is ClaimNotClaimable) && final(state).requests == old(state).requests
                && crate::claim::stepped(
                c,
                final(state).claims.claims@[j],
                ClaimStatus::TooManyAttempts,
                None,
                None,
            ) && (forall|k: int|
                0 <= k < old(state).claims.claims@.len() && k != j
                    ==> #[trigger] final(state).claims.claims@[k] == old(
                    state,
                ).claims.claims@[k]))
            &&& (r matches Ok(p) ==> ({
                let tokj = old(state).tokens.spec_id_index(c.token_id);
                let fee = old(state).tokens.tokens@[tokj].fee@;
                &&& p.request_id == old(state).requests.next_request_id
                &&& p.token_id == c.token_id
                &&& p.amount_with_gas@ == (if fee <= c.amount@ {
                    (c.amount@ - fee) as nat
                } else {
                    0
                })
                &&& (c.to_address matches Some(a) && p.to_address == a)
                &&& crate::claim::stepped(
                    c,
                    final(state).claims.claims@[j],
                    ClaimStatus::Claiming,
                    None,
                    None,
                )
                &&& (forall|k: int|
                    0 <= k < old(state).claims.claims@.len() && k != j
                        ==> #[trigger] final(state).claims.claims@[k] == old(
                        state,
                    ).claims.claims@[k])
                &&& final(state).requests.requests@.len() == old(
                    state,
                ).requests.requests@.len() + 1
                &&& ({
                    let fr = final(state).requests.requests@.last();
                    &&& fr.request_id == p.request_id
                    &&& fr.user_id == CLAIMS_TIMER_USER_ID
                    &&& fr.request == RequestKind::Claim(claim_id)
                    &&& fr.statuses@.len() == 2
                    &&& fr.statuses@[0].status_code is Start
                    &&& fr.statuses@[1].status_code is ClaimToken
                    &&& fr.reply is None
                })
            }))
        }),
{
    let found = state.claims.index_of_claim_id(claim_id);
    let ci = match found {
        Some(ci) => ci,
        None => {
            return Err(AmmError::ClaimNotFound);
        },
    };
    proof {
        state.claims.lemma_id_unique(claim_id, ci as int);
    }
    let is_unclaimed = match state.claims.claims[ci].status {
        ClaimStatus::Unclaimed => true,
        _ => false,
    };
    if !is_unclaimed {
        return Err(AmmError::ClaimNotClaimable);
    }
    // A claim with no destination is never attempted.
    let to_address = match &state.claims.claims[ci].to_address {
        Some(addr) => addr.duplicate(),
        None => {
            return Err(AmmError::ClaimNotClaimable);
        },
    };
    let token_id = state.claims.claims[ci].token_id;
    let fee = match state.tokens.get_by_token_id(token_id) {
        Some(t) => {
            proof {
                let w = choose|w: int|
                    0 <= w < state.tokens.tokens@.len() && state.tokens.tokens@[w] == *t
                        && t.token_id == token_id;
                state.tokens.lemma_id_unique(token_id, w);
            }
            nat_clone(&t.fee)
        },
        None => {
            return Err(AmmError::TokenNotFound);
        },
    };
    let amount = nat_clone(&state.claims.claims[ci].amount);
    // Too many failed attempts park the claim for good.
    if state.claims.claims[ci].attempt_request_ids.len() >= MAX_CLAIM_ATTEMPTS {
        let ghost s0 = *state;
        state.claims.step(claim_id, ClaimStatus::TooManyAttempts, None, None);
        proof {
            lemma_claims_wf(s0, *state);
        }
        return Err(AmmError::ClaimNotClaimable);
    }
    let ghost s1 = *state;
    let request_id = state.requests.insert(
        CLAIMS_TIMER_USER_ID,
        RequestKind::Claim(claim_id),
        ts,
    );
    proof {
        lemma_state_wf_after_insert_request(s1, *state);
    }
    let ghost s2 = *state;
    let ghost e_start = Status { status_code: StatusCode::Start, message: None, ts };
    proof {
        lemma_state_log_le(*state, request_id, ts);
    }
    state.requests.update_status(request_id, StatusCode::Start, None, ts);
    proof {
        lemma_state_wf_after_status(s2, *state, request_id, e_start);
    }
    // The lock itself, set strictly before any external transfer runs.
    let ghost s3 = *state;
    state.claims.step(claim_id, ClaimStatus::Claiming, None, None);
    proof {
        lemma_claims_wf(s3, *state);
    }
    let ghost s4 = *state;
    let ghost e_claim = Status { status_code: StatusCode::ClaimToken, message: None, ts };
    proof {
        lemma_state_log_le(*state, request_id, ts);
    }
    state.requests.update_status(request_id, StatusCode::ClaimToken, None, ts);
    proof {
        lemma_state_wf_after_status(s4, *state, request_id, e_claim);
        assert(state.requests.requests@.last().statuses@
            =~= Seq::<Status>::empty().push(e_start).push(e_claim));
    }
    let amount_with_gas = match nat_subtract(&amount, &fee) {
        Some(a) => a,
        None => nat_zero(),
    };
    proof {
        assert forall|k: int|
            0 <= k < old(state).requests.requests@.len()
            implies #[trigger] state.requests.requests@[k] == old(
            state,
        ).requests.requests@[k] by {
            assert(old(state).requests.requests@[k].request_id < old(
                state,
            ).requests.next_request_id);
            assert(s2.requests.requests@[k] == old(state).requests.requests@[k]);
            assert(s2.requests.requests@[k].request_id != request_id);
            assert(s4.requests.requests@[k] == s2.requests.requests@[k]);
            assert(state.requests.requests@[k] == s4.requests.requests@[k]);
        }
    }
    Ok(ClaimPayout { request_id, token_id, amount_with_gas, to_address })
}

/// Settle a locked claim with its transfer's outcome: a successful
/// payment makes it `Claimed` with the request and transfer on record; a
/// failure records the attempt and releases the lock back to
/// `Unclaimed`.  A claim that is not locked is left alone.
#[verifier::rlimit(100)]
pub fn claim_settle(
    state: &mut State,
    claim_id: u64,
    request_id: u64,
    outcome: Result<BigNat, String>,
    ts: u64,
) -> (r: bool)
    requires
        old(state).wf(),
        old(state).transfers.can_insert(),
        ts == old(state).clock,
    ensures
        final(state).wf(),
        final(state).users == old(state).users,
        final(state).tokens == old(state).tokens,
        final(state).pools == old(state).pools,
        final(state).lp_ledger == old(state).lp_ledger,
        final(state).txs == old(state).txs,
        final(state).clock == old(state).clock,
        final(state).claims.claims@.len() == old(state).claims.claims@.len(),
        final(state).claims.next_claim_id == old(state).claims.next_claim_id,
        final(state).requests.requests@.len() == old(state).requests.requests@.len(),
        final(state).requests.next_request_id == old(state).requests.next_request_id,
        forall|k: int|
            0 <= k < old(state).requests.requests@.len() && old(
                state,
            ).requests.requests@[k].request_id != request_id
                ==> #[trigger] final(state).requests.requests@[k] == old(
                state,
            ).requests.requests@[k],
        forall|k: int|
            0 <= k < old(state).requests.requests@.len()
                ==> (#[trigger] final(state).requests.requests@[k]).request == old(
                state,
            ).requests.requests@[k].request && final(state).requests.requests@[k].user_id == old(
                state,
            ).requests.requests@[k].user_id && final(state).requests.requests@[k].request_id
                == old(state).requests.requests@[k].request_id,
        final(state).transfers.next_transfer_id <= old(state).transfers.next_transfer_id + 1,
        old(state).transfers.transfers@.len() <= final(state).transfers.transfers@.len(),
        final(state).transfers.transfers@.len() <= old(state).transfers.transfers@.len() + 1,
        forall|k: int|
            0 <= k < old(state).transfers.transfers@.len()
                ==> #[trigger] final(state).transfers.transfers@[k] == old(
                state,
            ).transfers.transfers@[k],
        forall|k: int|
            old(state).transfers.transfers@.len() <= k < final(state).transfers.transfers@.len()
                ==> (#[trigger] final(state).transfers.transfers@[k]).is_send == false,
        r ==> outcome is Ok,
        ({
            let present = old(state).claims.spec_contains_id(claim_id);
            let j = old(state).claims.spec_id_index(claim_id);
            let c = old(state).claims.claims@[j];
            &&& (!(present && c.status is Claiming && old(state).tokens.spec_contains_id(c.token_id))
                ==> *final(state) == *old(state) && r == false)
            &&& (present && c.status is Claiming && old(state).tokens.spec_contains_id(c.token_id)
                ==> ({
                let tokj = old(state).tokens.spec_id_index(c.token_id);
                let fee = old(state).tokens.tokens@[tokj].fee@;
                &&& (forall|k: int|
                    0 <= k < old(state).claims.claims@.len() && k != j
                        ==> #[trigger] final(state).claims.claims@[k] == old(
                        state,
                    ).claims.claims@[k])
                &&& (outcome matches Ok(b) ==> ({
                    &&& r == true
                    &&& final(state).claims.claims@[j].status is Claimed
                    &&& final(state).claims.claims@[j].request_id == Some(request_id)
                    &&& final(state).claims.claims@[j].claim_id == c.claim_id
                    &&& final(state).claims.claims@[j].amount@ == c.amount@
                    &&& final(state).claims.claims@[j].user_id == c.user_id
                    &&& final(state).claims.claims@[j].token_id == c.token_id
                    &&& final(state).claims.claims@[j].ts == c.ts
                    &&& (!old(state).transfers.spec_contains_block(c.token_id, b@) ==> ({
                        &&& final(state).transfers.transfers@.len() == old(
                            state,
                        ).transfers.transfers@.len() + 1
                        &&& ({
                            let t = final(state).transfers.transfers@.last();
                            &&& t.transfer_id == old(state).transfers.next_transfer_id
                            &&& t.request_id == request_id
                            &&& t.is_send == false
                            &&& t.amount@ == (if fee <= c.amount@ {
                                (c.amount@ - fee) as nat
                            } else {
                                0
                            })
                            &&& t.token_id == c.token_id
                            &&& t.tx_id == TxId::BlockIndex(b)
                            &&& t.ts == ts
                        })
                        &&& final(state).claims.claims@[j].transfer_ids@
                            == c.transfer_ids@.push(old(state).transfers.next_transfer_id)
                    }))
                    &&& (old(state).transfers.spec_contains_block(c.token_id, b@)
                        ==> final(state).transfers == old(state).transfers)
                }))
                &&& (outcome matches Err(m) ==> ({
                    &&& r == false
                    &&& final(state).transfers == old(state).transfers
                    &&& crate::claim::stepped(
                        c,
                        final(state).claims.claims@[j],
                        ClaimStatus::Unclaimed,
                        None,
                        Some(request_id),
                    )
                }))
            }))
        }),
{
    let found = state.claims.index_of_claim_id(claim_id);
    let ci = match found {
        Some(ci) => ci,
        None => {
            return false;
        },
    };
    proof {
        state.claims.lemma_id_unique(claim_id, ci as int);
    }
    let is_claiming = match state.claims.claims[ci].status {
        ClaimStatus::Claiming => true,
        _ => false,
    };
    if !is_claiming {
        return false;
    }
    let token_id = state.claims.claims[ci].token_id;
    let fee = match state.tokens.get_by_token_id(token_id) {
        Some(t) => {
            proof {
                let w = choose|w: int|
                    0 <= w < state.tokens.tokens@.len() && state.tokens.tokens@[w] == *t
                        && t.token_id == token_id;
                state.tokens.lemma_id_unique(token_id, w);
            }
            nat_clone(&t.fee)
        },
        None => {
            return false;
        },
    };
    let amount = nat_clone(&state.claims.claims[ci].amount);
    let amount_with_gas = match nat_subtract(&amount, &fee) {
        Some(a) => a,
        None => nat_zero(),
    };
    match outcome {
        Ok(block) => {
            let fresh = !state.transfers.contain(token_id, &block);
            let mut transfer_id: u64 = 0;
            let ghost s5 = *state;
            if fresh {
                transfer_id = state.transfers.insert(
                    StableTransfer {
                        transfer_id: 0,
                        request_id,
                        is_send: false,
                        amount: amount_with_gas,
                        token_id,
                        tx_id: TxId::BlockIndex(block),
                        ts,
                    },
                );
                proof {
                    lemma_state_wf_stores(s5, *state);
                }
            }
            let ghost s6 = *state;
            if fresh {
                state.claims.step(
                    claim_id,
                    ClaimStatus::Claimed,
                    Some((request_id, transfer_id)),
                    None,
                );
            } else {
                state.claims.step(claim_id, ClaimStatus::Claimed, Some((request_id, 0)), None);
            }
            proof {
                lemma_claims_wf(s6, *state);
            }
            let ghost s7 = *state;
            let ghost e_ok = Status {
                status_code: StatusCode::ClaimTokenSuccess,
                message: None,
                ts,
            };
            proof {
                lemma_state_log_le(*state, request_id, ts);
            }
            state.requests.update_status(request_id, StatusCode::ClaimTokenSuccess, None, ts);
            proof {
                lemma_state_wf_after_status(s7, *state, request_id, e_ok);
            }
            let mut transfer_ids: Vec<u64> = Vec::new();
            if fresh {
                transfer_ids.push(transfer_id);
            }
            let reply = ClaimReply {
                claim_id,
                status: String::from_str("Success"),
                symbol: String::new(),
                amount,
                fee,
                transfer_ids,
                ts,
            };
            let ghost s8 = *state;
            state.requests.update_reply(request_id, Reply::Claim(reply));
            proof {
                lemma_state_wf_after_reply(s8, *state, request_id);
            }
            let ghost s9 = *state;
            let ghost e_term = Status { status_code: StatusCode::Success, message: None, ts };
            proof {
                lemma_state_log_le(*state, request_id, ts);
            }
            state.requests.update_status(request_id, StatusCode::Success, None, ts);
            proof {
                lemma_state_wf_after_status(s9, *state, request_id, e_term);
            }
            true
        },
        Err(message) => {
            // Record the failed attempt and release the lock.
            let ghost s10 = *state;
            state.claims.step(claim_id, ClaimStatus::Unclaimed, None, Some(request_id));
            proof {
                lemma_claims_wf(s10, *state);
            }
            let ghost s11 = *state;
            let ghost e_fail = Status {
                status_code: StatusCode::ClaimTokenFailed,
                message: Some(message),
                ts,
            };
            proof {
                lemma_state_log_le(*state, request_id, ts);
            }
            state.requests.update_status(
                request_id,
                StatusCode::ClaimTokenFailed,
                Some(message.clone()),
                ts,
            );
            proof {
                lemma_state_wf_after_status(s11, *state, request_id, e_fail);
            }
            let ghost s12 = *state;
            let ghost e_term = Status { status_code: StatusCode::Failed, message: None, ts };
            proof {
                lemma_state_log_le(*state, request_id, ts);
            }
            state.requests.update_status(request_id, StatusCode::Failed, None, ts);
            proof {
                lemma_state_wf_after_status(s12, *state, request_id, e_term);
            }
            false
        },
    }
}

/// Retry one claim in a single stroke: lock it, then settle it with the
/// transfer's outcome.  A driver that performs the transfer itself calls
/// `claim_lock` and `claim_settle` around its ledger call instead, so the
/// lock is set before the call, as reentrancy demands.
#[verifier::rlimit(100)]
pub fn process_claim(
    state: &mut State,
    claim_id: u64,
    outcome: Result<BigNat, String>,
    ts: u64,
) -> (r: bool)
    requires
        old(state).wf(),
        old(state).can_allocate(),
        ts == old(state).clock,
    ensures
        final(state).wf(),
        final(state).users == old(state).users,
        final(state).tokens == old(state).tokens,
        final(state).pools == old(state).pools,
        final(state).lp_ledger == old(state).lp_ledger,
        final(state).txs == old(state).txs,
        final(state).clock == old(state).clock,
        final(state).claims.claims@.len() == old(state).claims.claims@.len(),
        final(state).claims.next_claim_id == old(state).claims.next_claim_id,
        final(state).requests.next_request_id <= old(state).requests.next_request_id + 1,
        final(state).transfers.next_transfer_id <= old(state).transfers.next_transfer_id + 1,
        old(state).requests.requests@.len() <= final(state).requests.requests@.len(),
        final(state).requests.requests@.len() <= old(state).requests.requests@.len() + 1,
        old(state).requests.next_request_id <= final(state).requests.next_request_id,
        old(state).transfers.next_transfer_id <= final(state).transfers.next_transfer_id,
        forall|k: int|
            0 <= k < old(state).requests.requests@.len()
                ==> #[trigger] final(state).requests.requests@[k] == old(
                state,
            ).requests.requests@[k],
        final(state).requests.requests@.len() == old(state).requests.requests@.len() + 1 ==> ({
            let fr = final(state).requests.requests@.last();
            &&& fr.request == RequestKind::Claim(claim_id)
            &&& fr.user_id == CLAIMS_TIMER_USER_ID
        }),
        old(state).transfers.transfers@.len() <= final(state).transfers.transfers@.len(),
        final(state).transfers.transfers@.len() <= old(state).transfers.transfers@.len() + 1,
        forall|k: int|
            0 <= k < old(state).transfers.transfers@.len()
                ==> #[trigger] final(state).transfers.transfers@[k] == old(
                state,
            ).transfers.transfers@[k],
        forall|k: int|
            old(state).transfers.transfers@.len() <= k < final(state).transfers.transfers@.len()
                ==> (#[trigger] final(state).transfers.transfers@[k]).is_send == false,
        forall|j: int|
            #![trigger final(state).claims.claims@[j]]
            0 <= j < old(state).claims.claims@.len() ==> claim_processed_ok(
                old(state).claims.claims@[j],
                final(state).claims.claims@[j],
            ),
        r ==> (outcome is Ok),
        ({
            let present = old(state).claims.spec_contains_id(claim_id);
            let j = old(state).claims.spec_id_index(claim_id);
            let c = old(state).claims.claims@[j];
            let ready = present && c.status is Unclaimed && c.to_address is Some && old(
                state,
            ).tokens.spec_contains_id(c.token_id);
            &&& (forall|k: int|
                0 <= k < old(state).claims.claims@.len() && (!present || k != j)
                    ==> #[trigger] final(state).claims.claims@[k] == old(
                    state,
                ).claims.claims@[k])
            &&& (ready && c.attempt_request_ids@.len() >= MAX_CLAIM_ATTEMPTS
                ==> final(state).claims.claims@[j].status is TooManyAttempts && r == false)
            &&& (ready && c.attempt_request_ids@.len() < MAX_CLAIM_ATTEMPTS ==> ({
                &&& (outcome is Ok ==> r == true && final(state).claims.claims@[j].status
                    is Claimed && final(state).claims.claims@[j].request_id == Some(
                    old(state).requests.next_request_id,
                ))
                &&& (outcome is Err ==> r == false
                    && final(state).claims.claims@[j].status is Unclaimed
                    && final(state).claims.claims@[j].attempt_request_ids@.len()
                    == c.attempt_request_ids@.len() + 1)
            }))
            &&& (!ready && !(present && c.status is Unclaimed) ==> final(state).claims == old(
                state,
            ).claims)
            &&& (present && c.status is Unclaimed && !old(state).tokens.spec_contains_id(
                c.token_id,
            ) ==> final(state).claims == old(state).claims)
            &&& (present && c.status is Unclaimed && c.to_address is None ==> final(state).claims
                == old(state).claims)
        }),
{
    let ghost os = *old(state);
    let locked = claim_lock(state, claim_id, ts);
    match locked {
        Ok(payout) => {
            let ghost mid = *state;
            let r = claim_settle(state, claim_id, payout.request_id, outcome, ts);
            proof {
                assert forall|k: int|
                    0 <= k < os.requests.requests@.len()
                    implies #[trigger] state.requests.requests@[k] == os.requests.requests@[k] by {
                    assert(os.requests.requests@[k].request_id < os.requests.next_request_id);
                    assert(mid.requests.requests@[k] == os.requests.requests@[k]);
                    assert(mid.requests.requests@[k].request_id != payout.request_id);
                }
                assert(state.requests.requests@.last().request
                    == mid.requests.requests@.last().request);
                assert(state.requests.requests@.last().user_id
                    == mid.requests.requests@.last().user_id);
                assert(os.claims.spec_contains_id(claim_id));
                let j = os.claims.spec_id_index(claim_id);
                assert(0 <= j < os.claims.claims@.len() && os.claims.claims@[j].claim_id
                    == claim_id) by {
                    let w = choose|w: int|
                        0 <= w < os.claims.claims@.len()
                            && #[trigger] os.claims.claims@[w].claim_id == claim_id;
                    assert(os.claims.claims@[w].claim_id == claim_id);
                }
                assert(mid.claims.claims@[j].claim_id == claim_id);
                mid.claims.lemma_id_unique(claim_id, j);
                assert forall|k: int|
                    #![trigger state.claims.claims@[k]]
                    0 <= k < os.claims.claims@.len() implies claim_processed_ok(
                    os.claims.claims@[k],
                    state.claims.claims@[k],
                ) by {
                    if k != j {
                        assert(state.claims.claims@[k] == mid.claims.claims@[k]);
                        assert(mid.claims.claims@[k] == os.claims.claims@[k]);
                    }
                }
            }
            r
        },
        Err(_) => {
            proof {
                assert forall|k: int|
                    #![trigger state.claims.claims@[k]]
                    0 <= k < os.claims.claims@.len() implies claim_processed_ok(
                    os.claims.claims@[k],
                    state.claims.claims@[k],
                ) by {}
            }
            false
        },
    }
}

/// A lawful claim step leaves the state well formed.
pub proof fn lemma_claims_wf(before: State, after: State)
    requires
        before.wf(),
        after.users == before.users,
        after.tokens == before.tokens,
        after.pools == before.pools,
        after.lp_ledger == before.lp_ledger,
        after.transfers == before.transfers,
        after.txs == before.txs,
        after.requests == before.requests,
        after.clock == before.clock,
        after.claims.wf(),
        after.claims.claims@.len() == before.claims.claims@.len(),
        forall|j: int|
            #![trigger after.claims.claims@[j]]
            0 <= j < before.claims.claims@.len() ==> after.claims.claims@[j].ts
                == before.claims.claims@[j].ts,
    ensures
        after.wf(),
{
    assert forall|i: int|
        0 <= i < after.claims.claims@.len() implies (#[trigger] after.claims.claims@[i]).ts
        <= after.clock by {
        assert(before.claims.claims@[i].ts <= before.clock);
    }
}

/// Where a tick stops, given its outcomes alone: after the attempt that
/// completes four consecutive failures, or at the end of the listed work.
pub open spec fn tick_cutoff(
    outcomes: Seq<Result<BigNat, String>>,
    n: int,
    k: int,
    consec: int,
) -> int
    decreases n - k,
{
    if k >= n {
        k
    } else if outcomes[k] is Err {
        if consec >= 3 {
            k + 1
        } else {
            tick_cutoff(outcomes, n, k + 1, consec + 1)
        }
    } else {
        tick_cutoff(outcomes, n, k + 1, 0)
    }
}

/// What one attempted claim looks like afterwards, given its outcome: an
/// unknown token leaves it alone, too many past attempts park it, and
/// otherwise it settles as `Claimed` or reverts to `Unclaimed` with the
/// attempt on record.
pub open spec fn claim_attempt_settled(
    tokens: crate::token::TokenRegistry,
    before: crate::claim::StableClaim,
    after: crate::claim::StableClaim,
    outcome: Result<BigNat, String>,
) -> bool {
    if !tokens.spec_contains_id(before.token_id) || before.to_address is None {
        after == before
    } else if before.attempt_request_ids@.len() >= MAX_CLAIM_ATTEMPTS as nat {
        after.status is TooManyAttempts
    } else if outcome is Ok {
        after.status is Claimed && after.request_id is Some
    } else {
        after.status is Unclaimed && after.attempt_request_ids@.len()
            == before.attempt_request_ids@.len() + 1
    }
}

/// One processor tick: walk the unclaimed claims of the snapshot in
/// store (and so time) order, retrying the claim at each position with
/// the outcome at the same position, and stop after four consecutive
/// failed outcomes.  In maintenance mode the tick does nothing.  The
/// result is how many claims were reached.
#[verifier::rlimit(100)]
pub fn process_claims(
    state: &mut State,
    in_maintenance_mode: bool,
    outcomes: Vec<Result<BigNat, String>>,
    ts: u64,
) -> (attempted: usize)
    requires
        old(state).wf(),
        old(state).can_allocate(),
        ts >= old(state).clock,
        old(state).requests.next_request_id + old(state).claims.claims@.len() + 8 < u64::MAX,
        old(state).transfers.next_transfer_id + old(state).claims.claims@.len() + 8 < u64::MAX,
    ensures
        final(state).wf(),
        final(state).users == old(state).users,
        final(state).tokens == old(state).tokens,
        final(state).pools == old(state).pools,
        final(state).lp_ledger == old(state).lp_ledger,
        final(state).txs == old(state).txs,
        in_maintenance_mode ==> *final(state) == *old(state) && attempted == 0,
        forall|k: int|
            0 <= k < old(state).requests.requests@.len()
                ==> #[trigger] final(state).requests.requests@[k] == old(
                state,
            ).requests.requests@[k],
        old(state).requests.requests@.len() <= final(state).requests.requests@.len(),
        final(state).requests.requests@.len() <= old(state).requests.requests@.len()
            + attempted,
        forall|k: int|
            old(state).requests.requests@.len() <= k < final(state).requests.requests@.len()
                ==> ((#[trigger] final(state).requests.requests@[k]).request matches
                RequestKind::Claim(cid) && final(state).requests.requests@[k].user_id
                == CLAIMS_TIMER_USER_ID),
        forall|k: int|
            0 <= k < old(state).transfers.transfers@.len()
                ==> #[trigger] final(state).transfers.transfers@[k] == old(
                state,
            ).transfers.transfers@[k],
        old(state).transfers.transfers@.len() <= final(state).transfers.transfers@.len(),
        final(state).transfers.transfers@.len() <= old(state).transfers.transfers@.len()
            + attempted,
        forall|k: int|
            old(state).transfers.transfers@.len() <= k < final(state).transfers.transfers@.len()
                ==> (#[trigger] final(state).transfers.transfers@[k]).is_send == false,
        attempted == 0 ==> final(state).requests.requests@ == old(state).requests.requests@
            && final(state).requests.next_request_id == old(state).requests.next_request_id
            && final(state).transfers.transfers@ == old(state).transfers.transfers@
            && final(state).transfers.next_transfer_id == old(
            state,
        ).transfers.next_transfer_id,
        final(state).claims.claims@.len() == old(state).claims.claims@.len(),
        forall|j: int|
            #![trigger final(state).claims.claims@[j]]
            0 <= j < old(state).claims.claims@.len() ==> claim_processed_ok(
                old(state).claims.claims@[j],
                final(state).claims.claims@[j],
            ),
        !in_maintenance_mode ==> ({
            let ids = crate::claim::unclaimed_ids(old(state).claims.claims@);
            let n = if ids.len() <= outcomes@.len() {
                ids.len() as int
            } else {
                outcomes@.len() as int
            };
            &&& attempted == tick_cutoff(outcomes@, n, 0, 0)
            &&& (forall|j: int|
                #![trigger final(state).claims.claims@[j]]
                0 <= j < old(state).claims.claims@.len() && !(old(
                    state,
                ).claims.claims@[j].status is Unclaimed) ==> final(state).claims.claims@[j]
                    == old(state).claims.claims@[j])
            &&& (forall|p: int|
                #![trigger ids[p]]
                0 <= p < attempted ==> claim_attempt_settled(
                    old(state).tokens,
                    old(state).claims.claims@[old(state).claims.spec_id_index(ids[p])],
                    final(state).claims.claims@[old(state).claims.spec_id_index(ids[p])],
                    outcomes@[p],
                ))
            &&& (forall|p: int|
                #![trigger ids[p]]
                attempted <= p < ids.len()
                    ==> final(state).claims.claims@[old(state).claims.spec_id_index(ids[p])]
                    == old(state).claims.claims@[old(state).claims.spec_id_index(ids[p])])
        }),
{
    if in_maintenance_mode {
        return 0;
    }
    let ghost pre = *old(state);
    state.clock = ts;
    proof {
        lemma_state_wf_clock(pre, *state, ts);
    }
    let ids = state.claims.get_unclaimed_ids();
    proof {
        crate::claim::lemma_unclaimed_ids_len(state.claims.claims@);
        assert forall|p: int|
            #![trigger ids@[p]]
            0 <= p < ids@.len() implies ({
            let j = pre.claims.spec_id_index(ids@[p]);
            &&& 0 <= j < pre.claims.claims@.len()
            &&& pre.claims.claims@[j].claim_id == ids@[p]
            &&& pre.claims.claims@[j].status is Unclaimed
        }) by {
            crate::claim::lemma_unclaimed_ids_member(pre.claims.claims@, p);
            let w = choose|w: int|
                0 <= w < pre.claims.claims@.len() && (#[trigger] pre.claims.claims@[w]).claim_id
                    == ids@[p] && pre.claims.claims@[w].status is Unclaimed;
            pre.claims.lemma_id_unique(ids@[p], w);
        }
        assert forall|p: int, q: int|
            #![trigger ids@[p], ids@[q]]
            0 <= p < q < ids@.len() implies ids@[p] != ids@[q] by {
            crate::claim::lemma_unclaimed_ids_distinct(pre.claims.claims@, p, q);
        }
    }
    let n = if ids.len() <= outcomes.len() {
        ids.len()
    } else {
        outcomes.len()
    };
    let mut consec: u8 = 0;
    let mut k: usize = 0;
    while k < n
        invariant
            state.wf(),
            ts == state.clock,
            state.users == pre.users,
            state.tokens == pre.tokens,
            state.pools == pre.pools,
            state.lp_ledger == pre.lp_ledger,
            state.txs == pre.txs,
            state.claims.claims@.len() == pre.claims.claims@.len(),
            state.claims.next_claim_id == pre.claims.next_claim_id,
            state.requests.next_request_id <= pre.requests.next_request_id + k,
            state.transfers.next_transfer_id <= pre.transfers.next_transfer_id + k,
            pre.requests.next_request_id <= state.requests.next_request_id,
            pre.transfers.next_transfer_id <= state.transfers.next_transfer_id,
            forall|q: int|
                0 <= q < pre.requests.requests@.len()
                    ==> #[trigger] state.requests.requests@[q] == pre.requests.requests@[q],
            pre.requests.requests@.len() <= state.requests.requests@.len(),
            state.requests.requests@.len() <= pre.requests.requests@.len() + k,
            forall|q: int|
                pre.requests.requests@.len() <= q < state.requests.requests@.len()
                    ==> ((#[trigger] state.requests.requests@[q]).request matches
                    RequestKind::Claim(cid) && state.requests.requests@[q].user_id
                    == CLAIMS_TIMER_USER_ID),
            forall|q: int|
                0 <= q < pre.transfers.transfers@.len()
                    ==> #[trigger] state.transfers.transfers@[q] == pre.transfers.transfers@[q],
            pre.transfers.transfers@.len() <= state.transfers.transfers@.len(),
            state.transfers.transfers@.len() <= pre.transfers.transfers@.len() + k,
            forall|q: int|
                pre.transfers.transfers@.len() <= q < state.transfers.transfers@.len()
                    ==> (#[trigger] state.transfers.transfers@[q]).is_send == false,
            pre.requests.next_request_id + pre.claims.claims@.len() + 8 < u64::MAX,
            pre.transfers.next_transfer_id + pre.claims.claims@.len() + 8 < u64::MAX,
            pre == *old(state),
            pre.can_allocate(),
            !in_maintenance_mode,
            k <= n,
            consec <= 3,
            n == if ids@.len() <= outcomes@.len() {
                ids@.len() as int
            } else {
                outcomes@.len() as int
            },
            ids@ == crate::claim::unclaimed_ids(pre.claims.claims@),
            ids@.len() <= pre.claims.claims@.len(),
            tick_cutoff(outcomes@, n as int, k as int, consec as int) == tick_cutoff(
                outcomes@,
                n as int,
                0,
                0,
            ),
            forall|p: int|
                #![trigger ids@[p]]
                0 <= p < ids@.len() ==> ({
                    let j = pre.claims.spec_id_index(ids@[p]);
                    &&& 0 <= j < pre.claims.claims@.len()
                    &&& pre.claims.claims@[j].claim_id == ids@[p]
                    &&& pre.claims.claims@[j].status is Unclaimed
                }),
            forall|p: int, q: int|
                #![trigger ids@[p], ids@[q]]
                0 <= p < q < ids@.len() ==> ids@[p] != ids@[q],
            forall|j: int|
                #![trigger state.claims.claims@[j]]
                0 <= j < pre.claims.claims@.len() ==> claim_processed_ok(
                    pre.claims.claims@[j],
                    state.claims.claims@[j],
                ),
            forall|j: int|
                #![trigger state.claims.claims@[j]]
                0 <= j < pre.claims.claims@.len() && !(pre.claims.claims@[j].status
                    is Unclaimed) ==> state.claims.claims@[j] == pre.claims.claims@[j],
            forall|p: int|
                #![trigger ids@[p]]
                0 <= p < k ==> claim_attempt_settled(
                    pre.tokens,
                    pre.claims.claims@[pre.claims.spec_id_index(ids@[p])],
                    state.claims.claims@[pre.claims.spec_id_index(ids@[p])],
                    outcomes@[p],
                ),
            forall|p: int|
                #![trigger ids@[p]]
                k <= p < ids@.len() ==> state.claims.claims@[pre.claims.spec_id_index(ids@[p])]
                    == pre.claims.claims@[pre.claims.spec_id_index(ids@[p])],
        decreases n - k,
    {
        let outcome = match &outcomes[k] {
            Ok(b) => Ok(nat_clone(b)),
            Err(m) => Err(m.clone()),
        };
        let ghost mid = *state;
        let ghost j = pre.claims.spec_id_index(ids@[k as int]);
        proof {
            assert(mid.claims.claims@[j] == pre.claims.claims@[j]);
            assert(mid.claims.claims@[j].claim_id == ids@[k as int]);
            mid.claims.lemma_id_unique(ids@[k as int], j);
        }
        let _ = process_claim(state, ids[k], outcome, ts);
        proof {
            assert forall|jj: int|
                #![trigger state.claims.claims@[jj]]
                0 <= jj < pre.claims.claims@.len() implies claim_processed_ok(
                pre.claims.claims@[jj],
                state.claims.claims@[jj],
            ) by {
                assert(claim_processed_ok(mid.claims.claims@[jj], state.claims.claims@[jj]));
                assert(claim_processed_ok(pre.claims.claims@[jj], mid.claims.claims@[jj]));
            }
            assert forall|p: int|
                #![trigger ids@[p]]
                k as int + 1 <= p < ids@.len()
                implies state.claims.claims@[pre.claims.spec_id_index(ids@[p])]
                == pre.claims.claims@[pre.claims.spec_id_index(ids@[p])] by {
                let jp = pre.claims.spec_id_index(ids@[p]);
                assert(ids@[p] != ids@[k as int]);
                assert(pre.claims.claims@[jp].claim_id == ids@[p]);
                assert(jp != j);
                assert(state.claims.claims@[jp] == mid.claims.claims@[jp]);
            }
            assert(claim_attempt_settled(
                pre.tokens,
                pre.claims.claims@[j],
                state.claims.claims@[j],
                outcomes@[k as int],
            ));
            assert forall|p: int|
                #![trigger ids@[p]]
                0 <= p < k as int + 1 implies claim_attempt_settled(
                pre.tokens,
                pre.claims.claims@[pre.claims.spec_id_index(ids@[p])],
                state.claims.claims@[pre.claims.spec_id_index(ids@[p])],
                outcomes@[p],
            ) by {
                if p < k as int {
                    let jp = pre.claims.spec_id_index(ids@[p]);
                    assert(ids@[p] != ids@[k as int]);
                    assert(pre.claims.claims@[jp].claim_id == ids@[p]);
                    assert(jp != j);
                    assert(state.claims.claims@[jp] == mid.claims.claims@[jp]);
                }
            }
        }
        let failed = match &outcomes[k] {
            Ok(_) => false,
            Err(_) => true,
        };
        if failed {
            if consec >= 3 {
                return k + 1;
            }
            consec = consec + 1;
        } else {
            consec = 0;
        }
        k = k + 1;
    }
    proof {
        if k == 0 {
            assert(state.requests.requests@ =~= pre.requests.requests@);
            assert(state.transfers.transfers@ =~= pre.transfers.transfers@);
        }
    }
    k
}

} // verus!