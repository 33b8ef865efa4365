//! Request ledger: one record per user-visible operation, with an
//! append-only status log and, once the operation finishes, its reply.

use vstd::prelude::*;

use crate::bignat::BigNat;
use crate::replies::Reply;
use crate::transfer::TxId;

verus! {

pub struct AddPoolArgs {
    pub token_0: String,
    pub amount_0: BigNat,
    pub tx_id_0: Option<TxId>,
    pub token_1: String,
    pub amount_1: BigNat,
    pub tx_id_1: Option<TxId>,
    pub lp_fee_bps: Option<u8>,
    pub kong_fee_bps: Option<u8>,
    pub on_kong: Option<bool>,
}

pub struct AddLiquidityArgs {
    pub token_0: String,
    pub amount_0: BigNat,
    pub tx_id_0: Option<TxId>,
    pub token_1: String,
    pub amount_1: BigNat,
    pub tx_id_1: Option<TxId>,
}

pub struct RemoveLiquidityArgs {
    pub token_0: String,
    pub token_1: String,
    pub remove_lp_token_amount: BigNat,
}

pub struct SwapArgs {
    pub pay_token: String,
    pub pay_amount: BigNat,
    pub receive_token: String,
    /// Least acceptable net amount, if the caller sets one.
    pub receive_amount: Option<BigNat>,
    /// Largest acceptable slippage, in hundred-millionths.
    pub max_slippage_e8: Option<u64>,
    pub receive_address: Option<String>,
}

/// What a request asked for.
pub enum RequestKind {
    AddPool(AddPoolArgs),
    AddLiquidity(AddLiquidityArgs),
    RemoveLiquidity(RemoveLiquidityArgs),
    Swap(SwapArgs),
    Claim(u64),
}

#[derive(Clone, Copy, PartialEq, Eq, Structural, Debug)]
pub enum StatusCode {
    Start,
    SendToken0,
    SendToken0Success,
    SendToken0Failed,
    SendToken1,
    SendToken1Success,
    SendToken1Failed,
    VerifyToken0,
    VerifyToken0Success,
    VerifyToken0Failed,
    VerifyToken1,
    VerifyToken1Success,
    VerifyToken1Failed,
    CalculatePoolAmounts,
    CalculatePoolAmountsSuccess,
    CalculatePoolAmountsFailed,
    UpdatePoolAmounts,
    UpdatePoolAmountsSuccess,
    UpdatePoolAmountsFailed,
    AddLPToken,
    AddLPTokenSuccess,
    AddLPTokenFailed,
    AddPool,
    AddPoolSuccess,
    AddPoolFailed,
    UpdateUserLPTokenAmount,
    UpdateUserLPTokenAmountSuccess,
    UpdateUserLPTokenAmountFailed,
    ReturnToken0,
    ReturnToken0Success,
    ReturnToken0Failed,
    ReturnToken1,
    ReturnToken1Success,
    ReturnToken1Failed,
    SendPayToken,
    SendPayTokenSuccess,
    SendPayTokenFailed,
    SendReceiveToken,
    SendReceiveTokenSuccess,
    SendReceiveTokenFailed,
    ReturnPayToken,
    ReturnPayTokenSuccess,
    ReturnPayTokenFailed,
    ClaimToken,
    ClaimTokenSuccess,
    ClaimTokenFailed,
    Success,
    Failed,
}

/// The two codes that end a request.
pub open spec fn is_terminal(code: StatusCode) -> bool {
    code is Success || code is Failed
}

/// One entry of a status log.
pub struct Status {
    pub status_code: StatusCode,
    pub message: Option<String>,
    pub ts: u64,
}

/// How many terminal codes a log holds.
pub open spec fn terminal_count(log: Seq<Status>) -> nat
    decreases log.len(),
{
    if log.len() == 0 {
        0
    } else {
        terminal_count(log.drop_last()) + if is_terminal(log.last().status_code) {
            1nat
        } else {
            0nat
        }
    }
}

/// One request.
pub struct StableRequest {
    pub request_id: u64,
    pub user_id: u32,
    pub request: RequestKind,
    pub reply: Option<Reply>,
    pub statuses: Vec<Status>,
    pub ts: u64,
}

/// A finished request: its log closes with its one terminal code and its
/// reply is stored.
pub open spec fn request_finalized(req: StableRequest) -> bool {
    &&& req.statuses@.len() > 0
    &&& is_terminal(req.statuses@.last().status_code)
    &&& terminal_count(req.statuses@) == 1
    &&& req.reply is Some
}

/// The ledger of all requests.
pub struct RequestLedger {
    pub requests: Vec<StableRequest>,
    pub next_request_id: u64,
}

impl RequestLedger {
    /// Ids are unique and below the counter, and every status log is
    /// monotone in time.
    pub open spec fn wf(self) -> bool {
        &&& self.next_request_id >= 1
        &&& forall|i: int|
            0 <= i < self.requests@.len() ==> 0 < #[trigger] self.requests@[i].request_id
                < self.next_request_id
        &&& forall|i: int, j: int|
            0 <= i < j < self.requests@.len() ==> self.requests@[i].request_id
                != self.requests@[j].request_id
        &&& forall|i: int, a: int, b: int|
            #![trigger self.requests@[i].statuses@[a], self.requests@[i].statuses@[b]]
            0 <= i < self.requests@.len() && 0 <= a <= b < self.requests@[i].statuses@.len()
                ==> self.requests@[i].statuses@[a].ts <= self.requests@[i].statuses@[b].ts
    }

    pub open spec fn spec_contains_id(self, request_id: u64) -> bool {
        exists|i: int|
            0 <= i < self.requests@.len() && #[trigger] self.requests@[i].request_id == request_id
    }

    pub open spec fn can_insert(self) -> bool {
        self.next_request_id < u64::MAX
    }

    pub fn new() -> (r: RequestLedger)
        ensures
            r.wf(),
            r.requests@.len() == 0,
            r.next_request_id == 1,
    {
        RequestLedger { requests: Vec::new(), next_request_id: 1 }
    }

    /// Open a request with an empty status log and no reply.
    pub fn insert(&mut self, user_id: u32, request: RequestKind, ts: u64) -> (r: u64)
        requires
            old(self).wf(),
            old(self).can_insert(),
        ensures
            final(self).wf(),
            r == old(self).next_request_id,
            final(self).next_request_id == old(self).next_request_id + 1,
            final(self).requests@.len() == old(self).requests@.len() + 1,
            forall|i: int|
                0 <= i < old(self).requests@.len() ==> final(self).requests@[i] == old(
                    self,
                ).requests@[i],
            final(self).requests@.last().request_id == r,
            final(self).requests@.last().user_id == user_id,
            final(self).requests@.last().request == request,
            final(self).requests@.last().reply is None,
            final(self).requests@.last().statuses@.len() == 0,
            final(self).requests@.last().ts == ts,
            final(self).spec_contains_id(r),
    {
        let request_id = self.next_request_id;
        let req = StableRequest {
            request_id,
            user_id,
            request,
            reply: None,
            statuses: Vec::new(),
            ts,
        };
        self.requests.push(req);
        self.next_request_id = request_id + 1;
        proof {
            let s = self.requests@;
            let o = old(self).requests@;
            assert(s[s.len() - 1].request_id == request_id);
            assert forall|a: int, b: int|
                0 <= a < b < s.len() implies s[a].request_id != s[b].request_id by {
                assert(s[a] == o[a]);
                if b < s.len() - 1 {
                    assert(s[b] == o[b]);
                } else {
                    assert(0 < o[a].request_id < request_id);
                }
            }
            assert forall|a: int|
                0 <= a < s.len() implies 0 < #[trigger] s[a].request_id
                    < self.next_request_id by {
                if a < s.len() - 1 {
                    assert(s[a] == o[a]);
                    assert(0 < o[a].request_id < request_id);
                }
            }
            assert forall|i: int, a: int, b: int|
                #![trigger s[i].statuses@[a], s[i].statuses@[b]]
                0 <= i < s.len() && 0 <= a <= b < s[i].statuses@.len() implies s[i].statuses@[a].ts
                <= s[i].statuses@[b].ts by {
                if i < s.len() - 1 {
                    assert(s[i] == o[i]);
                    assert(o[i].statuses@[a].ts <= o[i].statuses@[b].ts);
                }
            }
        }
        request_id
    }

    /// The position of a request id in the store.
    pub fn index_of_request_id(&self, request_id: u64) -> (r: Option<usize>)
        ensures
            r is Some <==> self.spec_contains_id(request_id),
            r matches Some(i) ==> 0 <= i < self.requests@.len()
                && self.requests@[i as int].request_id == request_id,
    {
        let mut i: usize = 0;
        while i < self.requests.len()
            invariant
                i <= self.requests@.len(),
                forall|j: int|
                    0 <= j < i ==> #[trigger] self.requests@[j].request_id != request_id,
            decreases self.requests@.len() - i,
        {
            if self.requests[i].request_id == request_id {
                return Some(i);
            }
            i = i + 1;
        }
        None
    }

    /// Append one status entry to a request's log.
    pub fn update_status(
        &mut self,
        request_id: u64,
        status_code: StatusCode,
        message: Option<String>,
        ts: u64,
    )
        requires
            old(self).wf(),
            forall|j: int, a: int|
                #![trigger old(self).requests@[j].statuses@[a]]
                0 <= j < old(self).requests@.len() && old(self).requests@[j].request_id
                    == request_id && 0 <= a < old(self).requests@[j].statuses@.len() ==> old(
                    self,
                ).requests@[j].statuses@[a].ts <= ts,
        ensures
            final(self).wf(),
            final(self).next_request_id == old(self).next_request_id,
            requests_appended(
                *old(self),
                *final(self),
                request_id,
                Status { status_code, message, ts },
            ),
    {
        let found = self.index_of_request_id(request_id);
        let i = match found {
            Some(i) => i,
            None => {
                return ;
            },
        };
        let ghost o = self.requests@;
        let req = self.requests.remove(i);
        let mut statuses = req.statuses;
        statuses.push(Status { status_code, message, ts });
        let updated = StableRequest {
            request_id: req.request_id,
            user_id: req.user_id,
            request: req.request,
            reply: req.reply,
            statuses,
            ts: req.ts,
        };
        self.requests.insert(i, updated);
        proof {
            let s = self.requests@;
            assert(s =~= o.update(i as int, updated));
            assert(terminal_count(updated.statuses@) == terminal_count(o[i as int].statuses@)
                + if is_terminal(status_code) {
                1nat
            } else {
                0nat
            }) by {
                assert(updated.statuses@.drop_last() =~= o[i as int].statuses@);
            }
            assert forall|a: int, b: int|
                0 <= a < b < s.len() implies s[a].request_id != s[b].request_id by {
                assert(o[a].request_id != o[b].request_id);
                assert(s[a].request_id == o[a].request_id && s[b].request_id == o[b].request_id);
            }
            assert forall|a: int|
                0 <= a < s.len() implies 0 < #[trigger] s[a].request_id
                    < self.next_request_id by {
                assert(0 < o[a].request_id < old(self).next_request_id);
                assert(s[a].request_id == o[a].request_id);
            }
            assert forall|j: int, a: int, b: int|
                #![trigger s[j].statuses@[a], s[j].statuses@[b]]
                0 <= j < s.len() && 0 <= a <= b < s[j].statuses@.len() implies s[j].statuses@[a].ts
                <= s[j].statuses@[b].ts by {
                if j != i as int {
                    assert(s[j] == o[j]);
                    assert(o[j].statuses@[a].ts <= o[j].statuses@[b].ts);
                } else {
                    let olog = o[i as int].statuses@;
                    assert(s[j].statuses@ == olog.push(Status { status_code, message, ts }));
                    if b < olog.len() {
                        assert(olog[a].ts <= olog[b].ts);
                    } else if a < olog.len() {
                        assert(olog[a].ts <= ts);
                    }
                }
            }
            assert forall|j: int|
                #![trigger s[j]]
                0 <= j < o.len() implies if o[j].request_id == request_id {
                status_appended(o[j], s[j], Status { status_code, message, ts })
            } else {
                s[j] == o[j]
            } by {
                if j != i as int {
                    assert(s[j] == o[j]);
                    if o[j].request_id == request_id {
                        let a: int = if j < i as int {
                            j
                        } else {
                            i as int
                        };
                        let b: int = if j < i as int {
                            i as int
                        } else {
                            j
                        };
                        assert(o[a].request_id != o[b].request_id);
                    }
                }
            }
        }
    }

    /// Store (or replace) a request's reply.
    pub fn update_reply(&mut self, request_id: u64, reply: Reply)
        requires
            old(self).wf(),
        ensures
            final(self).wf(),
            final(self).next_request_id == old(self).next_request_id,
            requests_reply_set(*old(self), *final(self), request_id),
            requests_reply_value(*old(self), *final(self), request_id, reply),
    {
        let found = self.index_of_request_id(request_id);
        let i = match found {
            Some(i) => i,
            None => {
                return ;
            },
        };
        let ghost o = self.requests@;
        let req = self.requests.remove(i);
        let updated = StableRequest {
            request_id: req.request_id,
            user_id: req.user_id,
            request: req.request,
            reply: Some(reply),
            statuses: req.statuses,
            ts: req.ts,
        };
        self.requests.insert(i, updated);
        proof {
            let s = self.requests@;
            assert(s =~= o.update(i as int, updated));
            assert forall|a: int, b: int|
                0 <= a < b < s.len() implies s[a].request_id != s[b].request_id by {
                assert(o[a].request_id != o[b].request_id);
                assert(s[a].request_id == o[a].request_id && s[b].request_id == o[b].request_id);
            }
            assert forall|a: int|
                0 <= a < s.len() implies 0 < #[trigger] s[a].request_id
                    < self.next_request_id by {
                assert(0 < o[a].request_id < old(self).next_request_id);
                assert(s[a].request_id == o[a].request_id);
            }
            assert forall|j: int, a: int, b: int|
                #![trigger s[j].statuses@[a], s[j].statuses@[b]]
                0 <= j < s.len() && 0 <= a <= b < s[j].statuses@.len() implies s[j].statuses@[a].ts
                <= s[j].statuses@[b].ts by {
                if j != i as int {
                    assert(s[j] == o[j]);
                    assert(o[j].statuses@[a].ts <= o[j].statuses@[b].ts);
                } else {
                    assert(s[j].statuses@ == o[j].statuses@);
                    assert(o[j].statuses@[a].ts <= o[j].statuses@[b].ts);
                }
            }
            assert forall|j: int|
                #![trigger s[j]]
                0 <= j < o.len() implies if o[j].request_id == request_id {
                reply_stored(o[j], s[j])
            } else {
                s[j] == o[j]
            } by {
                if j != i as int {
                    assert(s[j] == o[j]);
                    if o[j].request_id == request_id {
                        let a: int = if j < i as int {
                            j
                        } else {
                            i as int
                        };
                        let b: int = if j < i as int {
                            i as int
                        } else {
                            j
                        };
                        assert(o[a].request_id != o[b].request_id);
                    }
                }
            }
        }
    }
}

/// How appending one status entry rewrites a request.
pub open spec fn status_appended(before: StableRequest, after: StableRequest, entry: Status) -> bool {
    &&& after.request_id == before.request_id
    &&& after.user_id == before.user_id
    &&& after.request == before.request
    &&& after.reply == before.reply
    &&& after.ts == before.ts
    &&& after.statuses@ == before.statuses@.push(entry)
    &&& terminal_count(after.statuses@) == terminal_count(before.statuses@) + if is_terminal(
        entry.status_code,
    ) {
        1nat
    } else {
        0nat
    }
}

/// A ledger to which one entry was appended on one request's log, all
/// else untouched.
pub open spec fn requests_appended(
    before: RequestLedger,
    after: RequestLedger,
    request_id: u64,
    entry: Status,
) -> bool {
    &&& after.requests@.len() == before.requests@.len()
    &&& forall|j: int|
        #![trigger after.requests@[j]]
        0 <= j < before.requests@.len() ==> if before.requests@[j].request_id == request_id {
            status_appended(before.requests@[j], after.requests@[j], entry)
        } else {
            after.requests@[j] == before.requests@[j]
        }
}

/// A request to whose log exactly three entries were appended, all else
/// untouched.
pub open spec fn status_appended3(
    before: StableRequest,
    after: StableRequest,
    e1: Status,
    e2: Status,
    e3: Status,
) -> bool {
    &&& after.request_id == before.request_id
    &&& after.user_id == before.user_id
    &&& after.request == before.request
    &&& after.reply == before.reply
    &&& after.ts == before.ts
    &&& after.statuses@ == before.statuses@.push(e1).push(e2).push(e3)
}

/// A ledger on which one request's log gained exactly the three named
/// entries, all else untouched.
pub open spec fn requests_appended3(
    before: RequestLedger,
    after: RequestLedger,
    request_id: u64,
    e1: Status,
    e2: Status,
    e3: Status,
) -> bool {
    &&& after.requests@.len() == before.requests@.len()
    &&& forall|j: int|
        #![trigger after.requests@[j]]
        0 <= j < before.requests@.len() ==> if before.requests@[j].request_id == request_id {
            status_appended3(before.requests@[j], after.requests@[j], e1, e2, e3)
        } else {
            after.requests@[j] == before.requests@[j]
        }
}

/// A single append followed by a two-entry append composes into a named
/// three-entry append.
pub proof fn lemma_requests_appended3(
    first: RequestLedger,
    second: RequestLedger,
    third: RequestLedger,
    request_id: u64,
    e1: Status,
    e2: Status,
    e3: Status,
)
    requires
        requests_appended(first, second, request_id, e1),
        requests_appended2(second, third, request_id, e2, e3),
    ensures
        requests_appended3(first, third, request_id, e1, e2, e3),
{
    assert forall|j: int|
        #![trigger third.requests@[j]]
        0 <= j < first.requests@.len() implies if first.requests@[j].request_id == request_id {
        status_appended3(first.requests@[j], third.requests@[j], e1, e2, e3)
    } else {
        third.requests@[j] == first.requests@[j]
    } by {
        let r0 = first.requests@[j];
        let r1 = second.requests@[j];
        let r2 = third.requests@[j];
        assert(0 <= j < second.requests@.len());
        if r0.request_id == request_id {
            assert(status_appended(r0, r1, e1));
            assert(r1.request_id == request_id);
            assert(status_appended2(r1, r2, e2, e3));
        } else {
            assert(r1 == r0);
            assert(r2 == r1);
        }
    }
}

/// A ledger on which one request's log grew by `n` non-terminal entries
/// stamped `ts`, all else untouched.
pub open spec fn requests_log_grew(
    before: RequestLedger,
    after: RequestLedger,
    request_id: u64,
    n: nat,
    ts: u64,
) -> bool {
    &&& after.requests@.len() == before.requests@.len()
    &&& forall|j: int|
        #![trigger after.requests@[j]]
        0 <= j < before.requests@.len() ==> if before.requests@[j].request_id == request_id {
            log_grew_nonterminal(before.requests@[j], after.requests@[j], n, ts)
        } else {
            after.requests@[j] == before.requests@[j]
        }
}

/// One non-terminal append is log growth by one.
pub proof fn lemma_requests_appended_grew(
    before: RequestLedger,
    after: RequestLedger,
    request_id: u64,
    entry: Status,
)
    requires
        requests_appended(before, after, request_id, entry),
        !is_terminal(entry.status_code),
    ensures
        requests_log_grew(before, after, request_id, 1, entry.ts),
{
    assert forall|j: int|
        #![trigger after.requests@[j]]
        0 <= j < before.requests@.len() implies if before.requests@[j].request_id == request_id {
        log_grew_nonterminal(before.requests@[j], after.requests@[j], 1, entry.ts)
    } else {
        after.requests@[j] == before.requests@[j]
    } by {
        let br = before.requests@[j];
        let ar = after.requests@[j];
        if br.request_id == request_id {
            assert(status_appended(br, ar, entry));
            assert(ar.statuses@ == br.statuses@.push(entry));
            assert(ar.statuses@.take(br.statuses@.len() as int) =~= br.statuses@);
        }
    }
}

/// Log growth composes across two steps.
pub proof fn lemma_requests_grew_trans(
    first: RequestLedger,
    second: RequestLedger,
    third: RequestLedger,
    request_id: u64,
    n1: nat,
    n2: nat,
    ts: u64,
)
    requires
        requests_log_grew(first, second, request_id, n1, ts),
        requests_log_grew(second, third, request_id, n2, ts),
    ensures
        requests_log_grew(first, third, request_id, n1 + n2, ts),
{
    assert forall|j: int|
        #![trigger third.requests@[j]]
        0 <= j < first.requests@.len() implies if first.requests@[j].request_id == request_id {
        log_grew_nonterminal(first.requests@[j], third.requests@[j], n1 + n2, ts)
    } else {
        third.requests@[j] == first.requests@[j]
    } by {
        let r0 = first.requests@[j];
        let r1 = second.requests@[j];
        let r2 = third.requests@[j];
        assert(0 <= j < second.requests@.len());
        if r0.request_id == request_id {
            assert(log_grew_nonterminal(r0, r1, n1, ts));
            assert(r1.request_id == request_id);
            assert(log_grew_nonterminal(r1, r2, n2, ts));
            lemma_log_grew_trans(r0, r1, r2, n1, n2, ts);
        } else {
            assert(r1 == r0);
            assert(r1.request_id != request_id);
            assert(r2 == r1);
        }
    }
}

/// A ledger on which one request's reply was stored, all else untouched.
pub open spec fn requests_reply_set(
    before: RequestLedger,
    after: RequestLedger,
    request_id: u64,
) -> bool {
    &&& after.requests@.len() == before.requests@.len()
    &&& forall|j: int|
        #![trigger after.requests@[j]]
        0 <= j < before.requests@.len() ==> if before.requests@[j].request_id == request_id {
            reply_stored(before.requests@[j], after.requests@[j])
        } else {
            after.requests@[j] == before.requests@[j]
        }
}

/// A ledger on which one request's reply was set to exactly the given
/// value, all else untouched.
pub open spec fn requests_reply_value(
    before: RequestLedger,
    after: RequestLedger,
    request_id: u64,
    reply: Reply,
) -> bool {
    &&& after.requests@.len() == before.requests@.len()
    &&& forall|j: int|
        #![trigger after.requests@[j]]
        0 <= j < before.requests@.len() ==> if before.requests@[j].request_id == request_id {
            reply_stored(before.requests@[j], after.requests@[j]) && after.requests@[j].reply
                == Some(reply)
        } else {
            after.requests@[j] == before.requests@[j]
        }
}

/// Like `log_grew_nonterminal`, with a reply stored along the way.
pub open spec fn log_grew_with_reply(
    before: StableRequest,
    after: StableRequest,
    n: nat,
    ts: u64,
) -> bool {
    &&& after.request_id == before.request_id
    &&& after.user_id == before.user_id
    &&& after.request == before.request
    &&& after.reply is Some
    &&& after.ts == before.ts
    &&& after.statuses@.len() == before.statuses@.len() + n
    &&& after.statuses@.take(before.statuses@.len() as int) == before.statuses@
    &&& terminal_count(after.statuses@) == terminal_count(before.statuses@)
    &&& forall|a: int|
        before.statuses@.len() <= a < after.statuses@.len()
            ==> (#[trigger] after.statuses@[a]).ts == ts
}

/// A ledger on which one request's log grew non-terminally and its reply
/// was stored, all else untouched.
pub open spec fn requests_log_grew_with_reply(
    before: RequestLedger,
    after: RequestLedger,
    request_id: u64,
    n: nat,
    ts: u64,
) -> bool {
    &&& after.requests@.len() == before.requests@.len()
    &&& forall|j: int|
        #![trigger after.requests@[j]]
        0 <= j < before.requests@.len() ==> if before.requests@[j].request_id == request_id {
            log_grew_with_reply(before.requests@[j], after.requests@[j], n, ts)
        } else {
            after.requests@[j] == before.requests@[j]
        }
}

/// Growth then a stored reply is growth with a reply.
pub proof fn lemma_requests_grew_then_reply(
    first: RequestLedger,
    second: RequestLedger,
    third: RequestLedger,
    request_id: u64,
    n: nat,
    ts: u64,
)
    requires
        requests_log_grew(first, second, request_id, n, ts),
        requests_reply_set(second, third, request_id),
    ensures
        requests_log_grew_with_reply(first, third, request_id, n, ts),
{
    assert forall|j: int|
        #![trigger third.requests@[j]]
        0 <= j < first.requests@.len() implies if first.requests@[j].request_id == request_id {
        log_grew_with_reply(first.requests@[j], third.requests@[j], n, ts)
    } else {
        third.requests@[j] == first.requests@[j]
    } by {
        let r0 = first.requests@[j];
        let r1 = second.requests@[j];
        let r2 = third.requests@[j];
        assert(0 <= j < second.requests@.len());
        if r0.request_id == request_id {
            assert(log_grew_nonterminal(r0, r1, n, ts));
            assert(r1.request_id == request_id);
            assert(reply_stored(r1, r2));
        } else {
            assert(r1 == r0);
            assert(r2 == r1);
        }
    }
}

/// Growth with a reply followed by more growth keeps the reply.
pub proof fn lemma_requests_grew_reply_then_grew(
    first: RequestLedger,
    second: RequestLedger,
    third: RequestLedger,
    request_id: u64,
    n1: nat,
    n2: nat,
    ts: u64,
)
    requires
        requests_log_grew_with_reply(first, second, request_id, n1, ts),
        requests_log_grew(second, third, request_id, n2, ts),
    ensures
        requests_log_grew_with_reply(first, third, request_id, n1 + n2, ts),
{
    assert forall|j: int|
        #![trigger third.requests@[j]]
        0 <= j < first.requests@.len() implies if first.requests@[j].request_id == request_id {
        log_grew_with_reply(first.requests@[j], third.requests@[j], n1 + n2, ts)
    } else {
        third.requests@[j] == first.requests@[j]
    } by {
        let r0 = first.requests@[j];
        let r1 = second.requests@[j];
        let r2 = third.requests@[j];
        assert(0 <= j < second.requests@.len());
        if r0.request_id == request_id {
            assert(log_grew_with_reply(r0, r1, n1, ts));
            assert(r1.request_id == request_id);
            assert(log_grew_nonterminal(r1, r2, n2, ts));
            let l1 = r0.statuses@.len() as int;
            assert forall|k: int|
                0 <= k < l1 implies r2.statuses@.take(l1)[k] == r0.statuses@[k] by {
                assert(r2.statuses@.take(r1.statuses@.len() as int)[k] == r1.statuses@[k]);
                assert(r1.statuses@.take(l1)[k] == r0.statuses@[k]);
            }
            assert(r2.statuses@.take(l1) =~= r0.statuses@);
            assert forall|a: int|
                l1 <= a < r2.statuses@.len() implies (#[trigger] r2.statuses@[a]).ts == ts by {
                if a < r1.statuses@.len() {
                    assert(r2.statuses@.take(r1.statuses@.len() as int)[a] == r1.statuses@[a]);
                    assert(r1.statuses@[a].ts == ts);
                }
            }
        } else {
            assert(r1 == r0);
            assert(r2 == r1);
        }
    }
}

/// A request to whose log exactly two entries were appended, all else
/// untouched.
pub open spec fn status_appended2(
    before: StableRequest,
    after: StableRequest,
    e1: Status,
    e2: Status,
) -> bool {
    &&& after.request_id == before.request_id
    &&& after.user_id == before.user_id
    &&& after.request == before.request
    &&& after.reply == before.reply
    &&& after.ts == before.ts
    &&& after.statuses@ == before.statuses@.push(e1).push(e2)
}

/// A ledger on which one request's log gained exactly the two named
/// entries, all else untouched.
pub open spec fn requests_appended2(
    before: RequestLedger,
    after: RequestLedger,
    request_id: u64,
    e1: Status,
    e2: Status,
) -> bool {
    &&& after.requests@.len() == before.requests@.len()
    &&& forall|j: int|
        #![trigger after.requests@[j]]
        0 <= j < before.requests@.len() ==> if before.requests@[j].request_id == request_id {
            status_appended2(before.requests@[j], after.requests@[j], e1, e2)
        } else {
            after.requests@[j] == before.requests@[j]
        }
}

/// Two single appends compose into a named two-entry append.
pub proof fn lemma_requests_appended2(
    first: RequestLedger,
    second: RequestLedger,
    third: RequestLedger,
    request_id: u64,
    e1: Status,
    e2: Status,
)
    requires
        requests_appended(first, second, request_id, e1),
        requests_appended(second, third, request_id, e2),
    ensures
        requests_appended2(first, third, request_id, e1, e2),
{
    assert forall|j: int|
        #![trigger third.requests@[j]]
        0 <= j < first.requests@.len() implies if first.requests@[j].request_id == request_id {
        status_appended2(first.requests@[j], third.requests@[j], e1, e2)
    } else {
        third.requests@[j] == first.requests@[j]
    } by {
        let r0 = first.requests@[j];
        let r1 = second.requests@[j];
        let r2 = third.requests@[j];
        assert(0 <= j < second.requests@.len());
        if r0.request_id == request_id {
            assert(status_appended(r0, r1, e1));
            assert(r1.request_id == request_id);
            assert(status_appended(r1, r2, e2));
        } else {
            assert(r1 == r0);
            assert(r2 == r1);
        }
    }
}

/// A request whose log grew by `n` entries, all stamped `ts` and none
/// terminal, with everything else untouched.
pub open spec fn log_grew_nonterminal(
    before: StableRequest,
    after: StableRequest,
    n: nat,
    ts: u64,
) -> bool {
    &&& after.request_id == before.request_id
    &&& after.user_id == before.user_id
    &&& after.request == before.request
    &&& after.reply == before.reply
    &&& after.ts == before.ts
    &&& after.statuses@.len() == before.statuses@.len() + n
    &&& after.statuses@.take(before.statuses@.len() as int) == before.statuses@
    &&& terminal_count(after.statuses@) == terminal_count(before.statuses@)
    &&& forall|a: int|
        before.statuses@.len() <= a < after.statuses@.len()
            ==> (#[trigger] after.statuses@[a]).ts == ts
}

/// Non-terminal log growth composes.
pub proof fn lemma_log_grew_trans(
    first: StableRequest,
    second: StableRequest,
    third: StableRequest,
    n1: nat,
    n2: nat,
    ts: u64,
)
    requires
        log_grew_nonterminal(first, second, n1, ts),
        log_grew_nonterminal(second, third, n2, ts),
    ensures
        log_grew_nonterminal(first, third, n1 + n2, ts),
{
    let l1 = first.statuses@.len() as int;
    assert forall|k: int|
        0 <= k < l1 implies third.statuses@.take(l1)[k] == first.statuses@[k] by {
        assert(third.statuses@.take(second.statuses@.len() as int)[k] == second.statuses@[k]);
        assert(second.statuses@.take(l1)[k] == first.statuses@[k]);
    }
    assert(third.statuses@.take(l1) =~= first.statuses@);
    assert forall|a: int|
        l1 <= a < third.statuses@.len() implies (#[trigger] third.statuses@[a]).ts == ts by {
        if a < second.statuses@.len() {
            assert(third.statuses@.take(second.statuses@.len() as int)[a] == second.statuses@[a]);
            assert(second.statuses@[a].ts == ts);
        }
    }
}

/// How storing a reply rewrites a request.
pub open spec fn reply_stored(before: StableRequest, after: StableRequest) -> bool {
    &&& after.request_id == before.request_id
    &&& after.user_id == before.user_id
    &&& after.request == before.request
    &&& after.reply is Some
    &&& after.ts == before.ts
    &&& after.statuses@ == before.statuses@
}

} // verus!
