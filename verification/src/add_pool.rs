//! The add-pool engine: take the initial deposit of both sides — by a
//! fresh pull or by verifying a block index the caller already paid —
//! then mint the pool, its LP token and the creator's LP row.  A leg that
//! was verified rather than pulled is never returned on failure of the
//! other: the engine cannot know the deposit was its own to give back.

use vstd::prelude::*;
use vstd::string::StringExecFns;
use vstd::string::StringExecFnsIsAscii;

use crate::add_liquidity::{
    lemma_state_log_le, lemma_state_wf_after_insert_request, lemma_state_wf_after_reply,
    lemma_state_wf_after_status, lemma_state_wf_clock, lemma_state_wf_stores, return_token,
    transfer_from_token, update_lp_token, TokenIndex,
};
use crate::bignat::{nat_clone, nat_is_zero, nat_multiply, nat_sqrt, nat_to_decimal_precision, BigNat};
use crate::error::AmmError;
use crate::lp_token_ledger::LP_DECIMALS;
use crate::pool::Pool;
use crate::pool_math::is_isqrt;
use crate::replies::{copy_ids, AddPoolReply, Reply};
use crate::request::{AddPoolArgs, RequestKind, Status, StatusCode};
use crate::state::State;
use crate::token::{find_by_text, Token, TokenKind};
use crate::transfer::{block_index_of, StableTransfer, TxId};
use crate::tx::{AddPoolTx, StableTx, StatusTx};

verus! {

/// The default swap fee of a new pool, in basis points.
pub const DEFAULT_LP_FEE_BPS: u8 = 30;

/// The default protocol cut of a new pool, in basis points.
pub const DEFAULT_KONG_FEE_BPS: u8 = 0;

/// The initial LP supply of a new pool: the floor square root of the
/// product of the two deposits, both in LP decimals.
pub fn calculate_amounts(
    amount_0: &BigNat,
    decimals_0: u8,
    amount_1: &BigNat,
    decimals_1: u8,
) -> (r: BigNat)
    ensures
        is_isqrt(
            r@,
            crate::bignat::rescaled(amount_0@, decimals_0 as nat, LP_DECIMALS as nat)
                * crate::bignat::rescaled(amount_1@, decimals_1 as nat, LP_DECIMALS as nat),
        ),
{
    let a0_lp = nat_to_decimal_precision(amount_0, decimals_0, LP_DECIMALS);
    let a1_lp = nat_to_decimal_precision(amount_1, decimals_1, LP_DECIMALS);
    nat_sqrt(&nat_multiply(&a0_lp, &a1_lp))
}

/// How `token_0` resolves: a registered token wins; otherwise metadata
/// the driver fetched from the token's own ledger stands in, under the
/// id the registry will assign it.
pub open spec fn ap_token_0(
    state: State,
    args: AddPoolArgs,
    token_0_metadata: Option<Token>,
) -> Option<Token> {
    match find_by_text(state.tokens.tokens@, args.token_0@) {
        Some(t) => Some(t),
        None => match token_0_metadata {
            Some(m) => if m.kind is IC {
                Some(Token { token_id: state.tokens.next_token_id, ..m })
            } else {
                None
            },
            None => None,
        },
    }
}

/// Everything an add-pool request must satisfy before any deposit is
/// taken: positive amounts, a lawful fee schedule, block-index
/// transaction ids only, the designated quote token as `token_1`, a
/// known distinct `token_0`, and a fresh LP symbol and pool pair.
pub open spec fn ap_valid(
    state: State,
    args: AddPoolArgs,
    token_0_metadata: Option<Token>,
) -> bool {
    let tok0_opt = ap_token_0(state, args, token_0_metadata);
    let tok1_opt = find_by_text(state.tokens.tokens@, args.token_1@);
    &&& args.amount_0@ > 0
    &&& args.amount_1@ > 0
    &&& (match args.kong_fee_bps {
        Some(b) => b,
        None => DEFAULT_KONG_FEE_BPS,
    }) <= (match args.lp_fee_bps {
        Some(b) => b,
        None => DEFAULT_LP_FEE_BPS,
    })
    &&& (args.tx_id_0 matches Some(t) ==> t is BlockIndex)
    &&& (args.tx_id_1 matches Some(t) ==> t is BlockIndex)
    &&& tok1_opt is Some
    &&& tok1_opt->Some_0.symbol@ == state.quote_symbol@
    &&& tok0_opt is Some
    &&& tok0_opt->Some_0.token_id != tok1_opt->Some_0.token_id
    &&& !(exists|i: int|
        0 <= i < state.tokens.tokens@.len() && ((#[trigger] state.tokens.tokens@[i]).symbol@
            == tok0_opt->Some_0.symbol@ + "_"@ + tok1_opt->Some_0.symbol@
            || state.tokens.tokens@[i].address@ == tok0_opt->Some_0.symbol@ + "_"@
            + tok1_opt->Some_0.symbol@))
    &&& !state.pools.spec_contains_pair(tok0_opt->Some_0.token_id, tok1_opt->Some_0.token_id)
}

/// Whether the deposit of `token_0` comes in: the verify outcome on a
/// caller-supplied block index that was never spent, or a fresh pull.
pub open spec fn ap_leg_0_ok(
    state: State,
    args: AddPoolArgs,
    token_0_metadata: Option<Token>,
    leg_0_outcome: Result<BigNat, String>,
    verify_0_outcome: Result<(), String>,
) -> bool {
    let tok0 = ap_token_0(state, args, token_0_metadata)->Some_0;
    match args.tx_id_0 {
        Some(t) => match t {
            TxId::BlockIndex(b) => verify_0_outcome is Ok
                && !state.transfers.spec_contains_block(tok0.token_id, b@),
            TxId::TransactionHash(_) => false,
        },
        None => leg_0_outcome matches Ok(b) && !state.transfers.spec_contains_block(
            tok0.token_id,
            b@,
        ),
    }
}

/// Whether the deposit of `token_1` comes in, under the same rule.
pub open spec fn ap_leg_1_ok(
    state: State,
    args: AddPoolArgs,
    leg_1_outcome: Result<BigNat, String>,
    verify_1_outcome: Result<(), String>,
) -> bool {
    let tok1 = find_by_text(state.tokens.tokens@, args.token_1@)->Some_0;
    match args.tx_id_1 {
        Some(t) => match t {
            TxId::BlockIndex(b) => verify_1_outcome is Ok
                && !state.transfers.spec_contains_block(tok1.token_id, b@),
            TxId::TransactionHash(_) => false,
        },
        None => leg_1_outcome matches Ok(b) && !state.transfers.spec_contains_block(
            tok1.token_id,
            b@,
        ),
    }
}

/// The status code that opens a deposit verification of this leg.
pub open spec fn spec_verify_code(token_index: TokenIndex) -> StatusCode {
    match token_index {
        TokenIndex::Token0 => StatusCode::VerifyToken0,
        TokenIndex::Token1 => StatusCode::VerifyToken1,
        TokenIndex::PayToken => StatusCode::VerifyToken0,
    }
}

/// The status code of a successful deposit verification of this leg.
pub open spec fn spec_verify_ok_code(token_index: TokenIndex) -> StatusCode {
    match token_index {
        TokenIndex::Token0 => StatusCode::VerifyToken0Success,
        TokenIndex::Token1 => StatusCode::VerifyToken1Success,
        TokenIndex::PayToken => StatusCode::VerifyToken0Success,
    }
}

/// The status code of a failed deposit verification of this leg.
pub open spec fn spec_verify_fail_code(token_index: TokenIndex) -> StatusCode {
    match token_index {
        TokenIndex::Token0 => StatusCode::VerifyToken0Failed,
        TokenIndex::Token1 => StatusCode::VerifyToken1Failed,
        TokenIndex::PayToken => StatusCode::VerifyToken0Failed,
    }
}

/// Consume a deposit the caller already made on chain, after checking
/// the ledger confirmed it and its block index was never spent before.
/// The outcome must come from the ledger's verify call with a freshness
/// floor of one hour before now, so stale deposits are refused there.
pub fn verify_transfer_token(
    state: &mut State,
    request_id: u64,
    token_index: TokenIndex,
    token_id: u32,
    block: &BigNat,
    amount: &BigNat,
    outcome: Result<(), String>,
    ts: u64,
) -> (r: Result<u64, AmmError>)
    requires
        old(state).wf(),
        old(state).transfers.can_insert(),
        ts == old(state).clock,
    ensures
        final(state).wf(),
        final(state).users == old(state).users,
        final(state).tokens == old(state).tokens,
        final(state).pools == old(state).pools,
        final(state).lp_ledger == old(state).lp_ledger,
        final(state).txs == old(state).txs,
        final(state).claims == old(state).claims,
        final(state).clock == old(state).clock,
        final(state).requests.requests@.len() == old(state).requests.requests@.len(),
        final(state).transfers.next_transfer_id <= old(state).transfers.next_transfer_id + 1,
        r is Ok <==> (outcome is Ok && !old(state).transfers.spec_contains_block(
            token_id,
            block@,
        )),
        r matches Ok(tid) ==> ({
            &&& tid == old(state).transfers.next_transfer_id
            &&& final(state).transfers.transfers@.len() == old(state).transfers.transfers@.len()
                + 1
            &&& (forall|k: int|
                0 <= k < old(state).transfers.transfers@.len()
                    ==> #[trigger] final(state).transfers.transfers@[k] == old(
                    state,
                ).transfers.transfers@[k])
            &&& ({
                let t = final(state).transfers.transfers@.last();
                &&& t.transfer_id == tid
                &&& t.request_id == request_id
                &&& t.is_send == true
                &&& t.amount@ == amount@
                &&& t.token_id == token_id
                &&& crate::transfer::block_index_of(t.tx_id) == Some(block@)
                &&& t.ts == ts
            })
        }),
        r is Err ==> final(state).transfers == old(state).transfers,
        (outcome is Ok && old(state).transfers.spec_contains_block(token_id, block@)) ==> (
        r matches Err(e) && e is DuplicateBlockIndex),
        outcome matches Err(m) ==> (r matches Err(e) && e matches AmmError::TransferFailed {
            message,
        } && message == m),
        ({
            let e1 = Status { status_code: spec_verify_code(token_index), message: None, ts };
            &&& (r is Ok ==> crate::request::requests_appended2(
                old(state).requests,
                final(state).requests,
                request_id,
                e1,
                Status { status_code: spec_verify_ok_code(token_index), message: None, ts },
            ))
            &&& (outcome matches Err(m) ==> crate::request::requests_appended2(
                old(state).requests,
                final(state).requests,
                request_id,
                e1,
                Status {
                    status_code: spec_verify_fail_code(token_index),
                    message: Some(m),
                    ts,
                },
            ))
            &&& (r is Err && outcome is Ok ==> exists|msg: String|
                msg@ == "Duplicate block id"@ && crate::request::requests_appended2(
                    old(state).requests,
                    final(state).requests,
                    request_id,
                    e1,
                    Status {
                        status_code: spec_verify_fail_code(token_index),
                        message: Some(msg),
                        ts,
                    },
                ))
        }),
{
    let verify_code = match token_index {
        TokenIndex::Token0 => StatusCode::VerifyToken0,
        TokenIndex::Token1 => StatusCode::VerifyToken1,
        TokenIndex::PayToken => StatusCode::VerifyToken0,
    };
    let ok_code = match token_index {
        TokenIndex::Token0 => StatusCode::VerifyToken0Success,
        TokenIndex::Token1 => StatusCode::VerifyToken1Success,
        TokenIndex::PayToken => StatusCode::VerifyToken0Success,
    };
    let fail_code = match token_index {
        TokenIndex::Token0 => StatusCode::VerifyToken0Failed,
        TokenIndex::Token1 => StatusCode::VerifyToken1Failed,
        TokenIndex::PayToken => StatusCode::VerifyToken0Failed,
    };
    proof {
        lemma_state_log_le(*state, request_id, ts);
    }
    let ghost s0 = *state;
    let ghost e1 = Status { status_code: verify_code, message: None, ts };
    state.requests.update_status(request_id, verify_code, None, ts);
    proof {
        lemma_state_wf_after_status(s0, *state, request_id, e1);
    }
    let ghost s1 = *state;
    match outcome {
        Ok(_) => {
            if state.transfers.contain(token_id, block) {
                let dup_message = String::from_str("Duplicate block id");
                let ghost e2 = Status {
                    status_code: fail_code,
                    message: Some(dup_message),
                    ts,
                };
                proof {
                    lemma_state_log_le(*state, request_id, ts);
                }
                state.requests.update_status(request_id, fail_code, Some(dup_message), ts);
                proof {
                    lemma_state_wf_after_status(s1, *state, request_id, e2);
                    crate::request::lemma_requests_appended2(
                        s0.requests,
                        s1.requests,
                        state.requests,
                        request_id,
                        e1,
                        e2,
                    );
                    assert(dup_message@ == "Duplicate block id"@);
                    assert(crate::request::requests_appended2(
                        s0.requests,
                        state.requests,
                        request_id,
                        e1,
                        Status { status_code: fail_code, message: Some(dup_message), ts },
                    ));
                }
                Err(AmmError::DuplicateBlockIndex)
            } else {
                let transfer_id = state.transfers.insert(
                    StableTransfer {
                        transfer_id: 0,
                        request_id,
                        is_send: true,
                        amount: nat_clone(amount),
                        token_id,
                        tx_id: TxId::BlockIndex(nat_clone(block)),
                        ts,
                    },
                );
                let ghost e2 = Status { status_code: ok_code, message: None, ts };
                proof {
                    lemma_state_log_le(*state, request_id, ts);
                }
                state.requests.update_status(request_id, ok_code, None, ts);
                proof {
                    lemma_state_wf_after_status(s1, *state, request_id, e2);
                    crate::request::lemma_requests_appended2(
                        s0.requests,
                        s1.requests,
                        state.requests,
                        request_id,
                        e1,
                        e2,
                    );
                }
                Ok(transfer_id)
            }
        },
        Err(message) => {
            let ghost e2 = Status { status_code: fail_code, message: Some(message), ts };
            proof {
                lemma_state_log_le(*state, request_id, ts);
            }
            state.requests.update_status(request_id, fail_code, Some(message.clone()), ts);
            proof {
                lemma_state_wf_after_status(s1, *state, request_id, e2);
                crate::request::lemma_requests_appended2(
                    s0.requests,
                    s1.requests,
                    state.requests,
                    request_id,
                    e1,
                    e2,
                );
            }
            Err(AmmError::TransferFailed { message })
        },
    }
}

/// What a successful add-pool leaves behind: the freshly registered
/// `token_0` when it was new, the LP token, the pool with the deposits
/// as its balances, and the creator's supply at the geometric-mean mint.
pub open spec fn ap_success_effects(
    pre: State,
    post: State,
    args: AddPoolArgs,
    token_0_metadata: Option<Token>,
) -> bool {
    let tok0 = ap_token_0(pre, args, token_0_metadata)->Some_0;
    let tok1 = find_by_text(pre.tokens.tokens@, args.token_1@)->Some_0;
    let registered = find_by_text(pre.tokens.tokens@, args.token_0@) is None;
    let lp_token_id = if registered {
        (pre.tokens.next_token_id + 1) as u32
    } else {
        pre.tokens.next_token_id
    };
    &&& post.tokens.tokens@.len() == pre.tokens.tokens@.len() + (
    if registered {
        2int
    } else {
        1int
    })
    &&& (registered ==> ({
        let nt = post.tokens.tokens@[pre.tokens.tokens@.len() as int];
        &&& nt.token_id == tok0.token_id
        &&& nt.symbol@ == tok0.symbol@
        &&& nt.decimals == tok0.decimals
        &&& nt.kind is IC
    }))
    &&& post.tokens.tokens@.last().token_id == lp_token_id
    &&& post.tokens.tokens@.last().kind == (TokenKind::LP {
        token_0_id: tok0.token_id,
        token_1_id: tok1.token_id,
    })
    &&& post.pools.pools@.len() == pre.pools.pools@.len() + 1
    &&& ({
        let p = post.pools.pools@.last();
        &&& p.token_0_id == tok0.token_id
        &&& p.token_1_id == tok1.token_id
        &&& p.balance_0@ == args.amount_0@
        &&& p.balance_1@ == args.amount_1@
        &&& p.lp_fee_0@ == 0
        &&& p.lp_fee_1@ == 0
        &&& p.lp_token_id == lp_token_id
        &&& p.kong_fee_bps <= p.lp_fee_bps
    })
    &&& is_isqrt(
        (post.lp_ledger.spec_supply(lp_token_id) - pre.lp_ledger.spec_supply(lp_token_id)) as nat,
        crate::bignat::rescaled(args.amount_0@, tok0.decimals as nat, LP_DECIMALS as nat)
            * crate::bignat::rescaled(args.amount_1@, tok1.decimals as nat, LP_DECIMALS as nat),
    )
    &&& post.txs.txs@.len() == pre.txs.txs@.len() + 1
    &&& post.claims == pre.claims
}

/// Add a brand-new pool: both deposits come in — each either pulled or
/// verified against a caller-supplied block index — then the LP token,
/// the pool and the creator's LP row are created in one stroke.  A
/// verified leg is never returned when the other leg fails.
#[verifier::rlimit(100)]
pub fn add_pool(
    state: &mut State,
    caller_principal: String,
    args: crate::request::AddPoolArgs,
    token_0_metadata: Option<Token>,
    leg_0_outcome: Result<BigNat, String>,
    verify_0_outcome: Result<(), String>,
    leg_1_outcome: Result<BigNat, String>,
    verify_1_outcome: Result<(), String>,
    return_0_outcome: Result<BigNat, String>,
    return_1_outcome: Result<BigNat, String>,
    ts: u64,
) -> (r: Result<AddPoolReply, AmmError>)
    requires
        old(state).wf(),
        old(state).can_allocate(),
        ts >= old(state).clock,
    ensures
        final(state).wf(),
        final(state).clock == ts,
        r is Ok <==> ap_valid(*old(state), args, token_0_metadata) && ap_leg_0_ok(
            *old(state),
            args,
            token_0_metadata,
            leg_0_outcome,
            verify_0_outcome,
        ) && ap_leg_1_ok(*old(state), args, leg_1_outcome, verify_1_outcome),
        r is Ok ==> ap_success_effects(*old(state), *final(state), args, token_0_metadata),
        r is Err ==> final(state).pools.pools@.len() == old(state).pools.pools@.len()
            && final(state).lp_ledger == old(state).lp_ledger
            && final(state).txs == old(state).txs
            && final(state).tokens == old(state).tokens,
        r is Err ==> ({
            &&& final(state).claims.claims@.len() <= old(state).claims.claims@.len() + 2
            &&& (forall|k: int|
                0 <= k < old(state).claims.claims@.len()
                    ==> #[trigger] final(state).claims.claims@[k] == old(state).claims.claims@[k])
            &&& final(state).transfers.transfers@.len() <= old(
                state,
            ).transfers.transfers@.len() + 3
            &&& (forall|k: int|
                0 <= k < old(state).transfers.transfers@.len()
                    ==> #[trigger] final(state).transfers.transfers@[k] == old(
                    state,
                ).transfers.transfers@[k])
        }),
        r is Err && args.tx_id_0 is Some ==> ({
            let tok0 = ap_token_0(*old(state), args, token_0_metadata)->Some_0;
            &&& (forall|k: int|
                old(state).claims.claims@.len() <= k < final(state).claims.claims@.len()
                    ==> (#[trigger] final(state).claims.claims@[k]).token_id != tok0.token_id)
            &&& (forall|k: int|
                old(state).transfers.transfers@.len() <= k
                    < final(state).transfers.transfers@.len()
                    ==> !((#[trigger] final(state).transfers.transfers@[k]).is_send == false
                    && final(state).transfers.transfers@[k].token_id == tok0.token_id))
        }),
        r is Err && args.tx_id_1 is Some ==> ({
            let tok1 = find_by_text(old(state).tokens.tokens@, args.token_1@)->Some_0;
            &&& (forall|k: int|
                old(state).claims.claims@.len() <= k < final(state).claims.claims@.len()
                    ==> (#[trigger] final(state).claims.claims@[k]).token_id != tok1.token_id)
            &&& (forall|k: int|
                old(state).transfers.transfers@.len() <= k
                    < final(state).transfers.transfers@.len()
                    ==> !((#[trigger] final(state).transfers.transfers@[k]).is_send == false
                    && final(state).transfers.transfers@[k].token_id == tok1.token_id))
        }),
        (args.tx_id_0 matches Some(t) && block_index_of(t) matches Some(b) && ap_token_0(
            *old(state),
            args,
            token_0_metadata,
        ) matches Some(tok0) && old(state).transfers.spec_contains_block(tok0.token_id, b)
            && args.amount_0@ > 0 && args.amount_1@ > 0 && verify_0_outcome is Ok) ==> r is Err,
        (ap_valid(*old(state), args, token_0_metadata) && !ap_leg_0_ok(
            *old(state),
            args,
            token_0_metadata,
            leg_0_outcome,
            verify_0_outcome,
        ) && args.tx_id_0 is Some && args.tx_id_1 is None) ==> ({
            &&& final(state).transfers == old(state).transfers
            &&& final(state).claims == old(state).claims
            &&& final(state).requests.requests@.len() == old(state).requests.requests@.len() + 1
            &&& final(state).requests.requests@.last().reply is Some
            &&& final(state).requests.requests@.last().statuses@.len() > 0
            &&& final(state).requests.requests@.last().statuses@.last().status_code is Failed
        }),
{
    let ghost pre = *old(state);
    state.clock = ts;
    proof {
        lemma_state_wf_clock(pre, *state, ts);
    }
    // Validation: amounts, fee schedule, transaction-id kinds, the quote
    // token, freshness of the LP token and of the pool.
    if nat_is_zero(&args.amount_0) || nat_is_zero(&args.amount_1) {
        return Err(AmmError::ZeroAmount);
    }
    let lp_fee_bps = match args.lp_fee_bps {
        Some(b) => b,
        None => DEFAULT_LP_FEE_BPS,
    };
    let kong_fee_bps = match args.kong_fee_bps {
        Some(b) => b,
        None => DEFAULT_KONG_FEE_BPS,
    };
    if kong_fee_bps > lp_fee_bps {
        return Err(AmmError::KongFeeTooHigh);
    }
    let on_kong = match args.on_kong {
        Some(b) => b,
        None => false,
    };
    let block_0 = match &args.tx_id_0 {
        Some(TxId::BlockIndex(b)) => Some(nat_clone(b)),
        Some(TxId::TransactionHash(_)) => {
            return Err(AmmError::TxIdNotSupported);
        },
        None => None,
    };
    let block_1 = match &args.tx_id_1 {
        Some(TxId::BlockIndex(b)) => Some(nat_clone(b)),
        Some(TxId::TransactionHash(_)) => {
            return Err(AmmError::TxIdNotSupported);
        },
        None => None,
    };
    let tok1 = match state.tokens.get_by_text(&args.token_1) {
        Some(t) => t,
        None => {
            return Err(AmmError::TokenNotFound);
        },
    };
    if !(tok1.symbol == state.quote_symbol) {
        return Err(AmmError::QuoteTokenRequired);
    }
    // Resolve `token_0`: a registered token, or the metadata the driver
    // fetched from the token's own ledger; the registry row itself is
    // written only once both deposits are in.
    let known_0 = state.tokens.get_by_text(&args.token_0);
    let (token_0_id, decimals_0, fee_0, symbol_0, pending_token_0): (
        u32,
        u8,
        BigNat,
        String,
        Option<Token>,
    ) = match known_0 {
        Some(t) => (t.token_id, t.decimals, nat_clone(&t.fee), t.symbol.clone(), None),
        None => match token_0_metadata {
            Some(m) => {
                let is_ic = match m.kind {
                    TokenKind::IC => true,
                    TokenKind::LP { .. } => false,
                };
                if !is_ic {
                    return Err(AmmError::TokenNotFound);
                }
                let id = state.tokens.next_token_id;
                let d = m.decimals;
                let f = nat_clone(&m.fee);
                let sym = m.symbol.clone();
                (id, d, f, sym, Some(m))
            },
            None => {
                return Err(AmmError::TokenNotFound);
            },
        },
    };
    let token_1_id = tok1.token_id;
    let decimals_1 = tok1.decimals;
    let fee_1 = nat_clone(&tok1.fee);
    let symbol_1 = tok1.symbol.clone();
    if token_0_id == token_1_id {
        return Err(AmmError::PoolAlreadyExists);
    }
    let mut lp_symbol = symbol_0.clone();
    lp_symbol.append("_");
    lp_symbol.append(symbol_1.as_str());
    if state.tokens.exists_by_text(&lp_symbol) {
        return Err(AmmError::TokenAlreadyExists);
    }
    match state.pools.get_by_token_ids(token_0_id, token_1_id) {
        Some(_) => {
            return Err(AmmError::PoolAlreadyExists);
        },
        None => {},
    }
    let add_lp_token_amount = calculate_amounts(
        &args.amount_0,
        decimals_0,
        &args.amount_1,
        decimals_1,
    );
    let amount_0 = nat_clone(&args.amount_0);
    let amount_1 = nat_clone(&args.amount_1);
    let ghost a = args;
    let ghost meta0 = token_0_metadata;
    let ghost o0 = leg_0_outcome;
    let ghost v0 = verify_0_outcome;
    let ghost o1 = leg_1_outcome;
    let ghost v1 = verify_1_outcome;
    let user_id = state.users.insert(caller_principal.clone(), ts);
    proof {
        assert(state.users.wf());
    }
    let ghost s1 = *state;
    let request_id = state.requests.insert(user_id, RequestKind::AddPool(args), ts);
    proof {
        lemma_state_wf_after_insert_request(s1, *state);
    }
    let ghost s2 = *state;
    let ghost e_start = Status { status_code: StatusCode::Start, message: None, ts };
    proof {
        lemma_state_log_le(*state, request_id, ts);
    }
    state.requests.update_status(request_id, StatusCode::Start, None, ts);
    proof {
        lemma_state_wf_after_status(s2, *state, request_id, e_start);
    }
    // Leg 0: verify the caller's own deposit, or pull a fresh one.
    let ghost s_leg0 = *state;
    let leg_0 = match &block_0 {
        Some(b) => verify_transfer_token(
            state,
            request_id,
            TokenIndex::Token0,
            token_0_id,
            b,
            &amount_0,
            verify_0_outcome,
            ts,
        ),
        None => transfer_from_token(
            state,
            request_id,
            TokenIndex::Token0,
            token_0_id,
            &amount_0,
            leg_0_outcome,
            ts,
        ),
    };
    let mut transfer_ids: Vec<u64> = Vec::new();
    let leg_0_ok = match &leg_0 {
        Ok(tid) => {
            transfer_ids.push(*tid);
            true
        },
        Err(_) => false,
    };
    // Leg 1: a verify always runs; a pull runs only when leg 0 is in.
    let ghost s_leg1 = *state;
    let leg_1 = match &block_1 {
        Some(b) => verify_transfer_token(
            state,
            request_id,
            TokenIndex::Token1,
            token_1_id,
            b,
            &amount_1,
            verify_1_outcome,
            ts,
        ),
        None => {
            if !leg_0_ok {
                Err(AmmError::TransferFailed {
                    message: String::from_str("Token_0 transfer failed"),
                })
            } else {
                transfer_from_token(
                    state,
                    request_id,
                    TokenIndex::Token1,
                    token_1_id,
                    &amount_1,
                    leg_1_outcome,
                    ts,
                )
            }
        },
    };
    let leg_1_ok = match &leg_1 {
        Ok(tid) => {
            transfer_ids.push(*tid);
            true
        },
        Err(_) => false,
    };
    proof {
        let os = *old(state);
        assert(s_leg0.transfers == os.transfers);
        assert(leg_0_ok == ap_leg_0_ok(os, a, meta0, o0, v0));
        if leg_0_ok {
            if s_leg1.transfers.transfers@.len() > os.transfers.transfers@.len() {
                let rec = s_leg1.transfers.transfers@.last();
                assert(rec.token_id == token_0_id);
                assert(s_leg1.transfers.transfers@ =~= os.transfers.transfers@.push(rec));
                match a.tx_id_1 {
                    Some(t) => match t {
                        TxId::BlockIndex(b) => {
                            crate::transfer::lemma_contains_block_push(
                                os.transfers,
                                s_leg1.transfers,
                                rec,
                                token_1_id,
                                b@,
                            );
                        },
                        TxId::TransactionHash(_) => {},
                    },
                    None => {
                        if o1 is Ok {
                            crate::transfer::lemma_contains_block_push(
                                os.transfers,
                                s_leg1.transfers,
                                rec,
                                token_1_id,
                                o1->Ok_0@,
                            );
                        }
                    },
                }
            }
            assert(leg_1_ok == ap_leg_1_ok(os, a, o1, v1));
        }
        assert((leg_0_ok && leg_1_ok) == (ap_leg_0_ok(os, a, meta0, o0, v0) && ap_leg_1_ok(
            os,
            a,
            o1,
            v1,
        )));
    }
    if leg_0_ok && leg_1_ok {
        // Mint the LP token, the pool and the creator's LP row.
        let ghost s3 = *state;
        let ghost e_lp = Status { status_code: StatusCode::AddLPToken, message: None, ts };
        proof {
            lemma_state_log_le(*state, request_id, ts);
        }
        state.requests.update_status(request_id, StatusCode::AddLPToken, None, ts);
        proof {
            lemma_state_wf_after_status(s3, *state, request_id, e_lp);
        }
        match pending_token_0 {
            Some(m) => {
                let ghost s_reg = *state;
                let new_id = state.tokens.insert(m);
                proof {
                    lemma_state_wf_stores(s_reg, *state);
                    assert(new_id == token_0_id);
                }
            },
            None => {},
        }
        let lp_token = Token {
            token_id: 0,
            kind: TokenKind::LP { token_0_id, token_1_id },
            chain: String::from_str("LP"),
            symbol: lp_symbol.clone(),
            address: lp_symbol.clone(),
            decimals: LP_DECIMALS,
            fee: crate::bignat::nat_zero(),
            on_kong,
        };
        let ghost s4 = *state;
        let lp_token_id = state.tokens.insert(lp_token);
        proof {
            lemma_state_wf_stores(s4, *state);
        }
        let ghost s5 = *state;
        let ghost e_lp_ok = Status {
            status_code: StatusCode::AddLPTokenSuccess,
            message: None,
            ts,
        };
        proof {
            lemma_state_log_le(*state, request_id, ts);
        }
        state.requests.update_status(request_id, StatusCode::AddLPTokenSuccess, None, ts);
        proof {
            lemma_state_wf_after_status(s5, *state, request_id, e_lp_ok);
        }
        let ghost s6 = *state;
        let ghost e_pool = Status { status_code: StatusCode::AddPool, message: None, ts };
        proof {
            lemma_state_log_le(*state, request_id, ts);
        }
        state.requests.update_status(request_id, StatusCode::AddPool, None, ts);
        proof {
            lemma_state_wf_after_status(s6, *state, request_id, e_pool);
        }
        let pool = Pool {
            pool_id: 0,
            token_0_id,
            token_1_id,
            balance_0: nat_clone(&amount_0),
            balance_1: nat_clone(&amount_1),
            lp_fee_0: crate::bignat::nat_zero(),
            lp_fee_1: crate::bignat::nat_zero(),
            lp_fee_bps,
            kong_fee_bps,
            lp_token_id,
            on_kong,
        };
        let ghost s7 = *state;
        let pool_id = state.pools.insert(pool);
        proof {
            lemma_state_wf_stores(s7, *state);
        }
        let ghost s8 = *state;
        let ghost e_pool_ok = Status {
            status_code: StatusCode::AddPoolSuccess,
            message: None,
            ts,
        };
        proof {
            lemma_state_log_le(*state, request_id, ts);
        }
        state.requests.update_status(request_id, StatusCode::AddPoolSuccess, None, ts);
        proof {
            lemma_state_wf_after_status(s8, *state, request_id, e_pool_ok);
        }
        update_lp_token(state, request_id, user_id, lp_token_id, &add_lp_token_amount, ts);
        let tx = AddPoolTx {
            tx_id: 0,
            pool_id,
            user_id,
            request_id,
            status: StatusTx::Success,
            amount_0: nat_clone(&amount_0),
            amount_1: nat_clone(&amount_1),
            add_lp_token_amount: nat_clone(&add_lp_token_amount),
            transfer_ids: copy_ids(&transfer_ids),
            claim_ids: Vec::new(),
            on_kong,
            ts,
        };
        let ghost s9 = *state;
        let tx_id = state.txs.insert(StableTx::AddPool(tx));
        proof {
            lemma_state_wf_stores(s9, *state);
        }
        let reply = AddPoolReply {
            tx_id,
            pool_id,
            request_id,
            status: String::from_str("Success"),
            chain_0: String::from_str("IC"),
            symbol_0,
            amount_0: nat_clone(&amount_0),
            chain_1: String::from_str("IC"),
            symbol_1,
            amount_1: nat_clone(&amount_1),
            add_lp_token_amount: nat_clone(&add_lp_token_amount),
            on_kong,
            transfer_ids: copy_ids(&transfer_ids),
            claim_ids: Vec::new(),
            ts,
        };
        let returned = duplicate_add_pool_reply(&reply);
        let ghost s10 = *state;
        state.requests.update_reply(request_id, Reply::AddPool(reply));
        proof {
            lemma_state_wf_after_reply(s10, *state, request_id);
        }
        let ghost s11 = *state;
        let ghost e_term = Status { status_code: StatusCode::Success, message: None, ts };
        proof {
            lemma_state_log_le(*state, request_id, ts);
        }
        state.requests.update_status(request_id, StatusCode::Success, None, ts);
        proof {
            lemma_state_wf_after_status(s11, *state, request_id, e_term);
            let os = *old(state);
            if find_by_text(os.tokens.tokens@, a.token_0@) is None {
                let nt = state.tokens.tokens@[os.tokens.tokens@.len() as int];
                assert(state.tokens.tokens@.len() == os.tokens.tokens@.len() + 2);
                assert(nt.token_id == token_0_id);
                assert(nt.symbol@ == ap_token_0(os, a, meta0)->Some_0.symbol@);
                assert(nt.decimals == ap_token_0(os, a, meta0)->Some_0.decimals);
                assert(nt.kind is IC);
            } else {
                assert(state.tokens.tokens@.len() == os.tokens.tokens@.len() + 1);
            }
            assert(state.tokens.tokens@.last().token_id == lp_token_id);
            assert(ap_success_effects(os, *state, a, meta0));
            let tok0s = ap_token_0(os, a, meta0);
            assert(tok0s is Some);
            assert(tok0s->Some_0.token_id == token_0_id);
            assert(tok0s->Some_0.symbol@ == symbol_0@);
            let tok1s = find_by_text(os.tokens.tokens@, a.token_1@);
            assert(tok1s is Some && tok1s->Some_0.symbol@ == os.quote_symbol@);
            assert(lp_symbol@ == tok0s->Some_0.symbol@ + "_"@ + tok1s->Some_0.symbol@);
            assert(!(exists|i: int|
                0 <= i < os.tokens.tokens@.len() && ((#[trigger] os.tokens.tokens@[i]).symbol@
                    == tok0s->Some_0.symbol@ + "_"@ + tok1s->Some_0.symbol@
                    || os.tokens.tokens@[i].address@ == tok0s->Some_0.symbol@ + "_"@
                    + tok1s->Some_0.symbol@)));
            assert(ap_valid(os, a, meta0));
        }
        return Ok(returned);
    }
    // Compensation: only a pulled leg comes back; a verified leg stays,
    // for the engine cannot know that deposit was its own to return.
    let mut claim_ids: Vec<u64> = Vec::new();
    let ghost s_comp0 = *state;
    if leg_0_ok && block_0.is_none() {
        return_token(
            state,
            request_id,
            user_id,
            &caller_principal,
            TokenIndex::Token0,
            token_0_id,
            &fee_0,
            &amount_0,
            return_0_outcome,
            &mut transfer_ids,
            &mut claim_ids,
            ts,
        );
    }
    let ghost s_comp1 = *state;
    if leg_1_ok && block_1.is_none() {
        return_token(
            state,
            request_id,
            user_id,
            &caller_principal,
            TokenIndex::Token1,
            token_1_id,
            &fee_1,
            &amount_1,
            return_1_outcome,
            &mut transfer_ids,
            &mut claim_ids,
            ts,
        );
    }
    proof {
        let os = *old(state);
        assert forall|k: int|
            os.claims.claims@.len() <= k < state.claims.claims@.len() implies ((
        #[trigger] state.claims.claims@[k]).token_id == token_0_id
            || state.claims.claims@[k].token_id == token_1_id) by {
            if k < s_comp1.claims.claims@.len() {
                assert(state.claims.claims@[k] == s_comp1.claims.claims@[k]);
                assert(s_comp1.claims.claims@[k].token_id == token_0_id);
            } else {
                assert(state.claims.claims@[k].token_id == token_1_id);
            }
        }
        assert forall|k: int|
            os.claims.claims@.len() <= k < state.claims.claims@.len() && block_0 is Some
            implies (#[trigger] state.claims.claims@[k]).token_id != token_0_id by {}
        assert forall|k: int|
            os.claims.claims@.len() <= k < state.claims.claims@.len() && block_1 is Some
            implies (#[trigger] state.claims.claims@[k]).token_id != token_1_id by {}
        assert forall|k: int|
            os.transfers.transfers@.len() <= k < state.transfers.transfers@.len() implies !((
        #[trigger] state.transfers.transfers@[k]).is_send == false
            && (block_0 is Some && state.transfers.transfers@[k].token_id == token_0_id)) by {
            if k < s_comp0.transfers.transfers@.len() {
                assert(state.transfers.transfers@[k] == s_comp0.transfers.transfers@[k]);
                assert(s_comp0.transfers.transfers@[k].is_send == true);
            } else if k < s_comp1.transfers.transfers@.len() {
                assert(state.transfers.transfers@[k] == s_comp1.transfers.transfers@[k]);
            }
        }
        assert forall|k: int|
            os.transfers.transfers@.len() <= k < state.transfers.transfers@.len() implies !((
        #[trigger] state.transfers.transfers@[k]).is_send == false
            && (block_1 is Some && state.transfers.transfers@[k].token_id == token_1_id)) by {
            if k < s_comp0.transfers.transfers@.len() {
                assert(state.transfers.transfers@[k] == s_comp0.transfers.transfers@[k]);
                assert(s_comp0.transfers.transfers@[k].is_send == true);
            } else if k < s_comp1.transfers.transfers@.len() {
                assert(state.transfers.transfers@[k] == s_comp1.transfers.transfers@[k]);
                assert(s_comp1.transfers.transfers@[k].token_id == token_0_id);
            }
        }
    }
    let failed_reply = AddPoolReply {
        tx_id: 0,
        pool_id: 0,
        request_id,
        status: String::from_str("Failed"),
        chain_0: String::from_str("IC"),
        symbol_0,
        amount_0: crate::bignat::nat_zero(),
        chain_1: String::from_str("IC"),
        symbol_1,
        amount_1: crate::bignat::nat_zero(),
        add_lp_token_amount: crate::bignat::nat_zero(),
        on_kong,
        transfer_ids: copy_ids(&transfer_ids),
        claim_ids: copy_ids(&claim_ids),
        ts,
    };
    let ghost s_rep = *state;
    state.requests.update_reply(request_id, Reply::AddPool(failed_reply));
    proof {
        lemma_state_wf_after_reply(s_rep, *state, request_id);
        let li = old(state).requests.requests@.len() as int;
        assert(state.requests.requests@.len() == li + 1);
    }
    let ghost s12 = *state;
    let ghost e_term = Status { status_code: StatusCode::Failed, message: None, ts };
    proof {
        lemma_state_log_le(*state, request_id, ts);
    }
    state.requests.update_status(request_id, StatusCode::Failed, None, ts);
    proof {
        lemma_state_wf_after_status(s12, *state, request_id, e_term);
    }
    match leg_0 {
        Err(e) => Err(e),
        Ok(_) => match leg_1 {
            Err(e) => Err(e),
            Ok(_) => {
                proof {
                    assert(false);
                }
                Err(AmmError::StateCorrupted)
            },
        },
    }
}

/// An identical reply.
fn duplicate_add_pool_reply(r: &AddPoolReply) -> (d: AddPoolReply)
    ensures
        d.tx_id == r.tx_id,
        d.pool_id == r.pool_id,
        d.request_id == r.request_id,
        d.status == r.status,
        d.amount_0@ == r.amount_0@,
        d.amount_1@ == r.amount_1@,
        d.add_lp_token_amount@ == r.add_lp_token_amount@,
        d.ts == r.ts,
{
    AddPoolReply {
        tx_id: r.tx_id,
        pool_id: r.pool_id,
        request_id: r.request_id,
        status: r.status.clone(),
        chain_0: r.chain_0.clone(),
        symbol_0: r.symbol_0.clone(),
        amount_0: nat_clone(&r.amount_0),
        chain_1: r.chain_1.clone(),
        symbol_1: r.symbol_1.clone(),
        amount_1: nat_clone(&r.amount_1),
        add_lp_token_amount: nat_clone(&r.add_lp_token_amount),
        on_kong: r.on_kong,
        transfer_ids: copy_ids(&r.transfer_ids),
        claim_ids: copy_ids(&r.claim_ids),
        ts: r.ts,
    }
}

} // verus!
