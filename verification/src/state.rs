//! The engine's whole state: every store, handed explicitly to each
//! operation, plus the clock the operations advance.

use vstd::prelude::*;
use vstd::string::StringExecFns;

use crate::claim::ClaimLedger;
use crate::lp_token_ledger::LpTokenLedger;
use crate::pool::PoolRegistry;
use crate::request::RequestLedger;
use crate::token::TokenRegistry;
use crate::transfer::TransferLedger;
use crate::tx::TxLedger;
use crate::user::UserRegistry;

verus! {

pub struct State {
    pub users: UserRegistry,
    pub tokens: TokenRegistry,
    pub pools: PoolRegistry,
    pub lp_ledger: LpTokenLedger,
    pub requests: RequestLedger,
    pub transfers: TransferLedger,
    pub txs: TxLedger,
    pub claims: ClaimLedger,
    /// The time of the latest operation; the runtime's clock is monotone.
    pub clock: u64,
    /// The symbol of the designated quote token: `token_1` of every pool.
    pub quote_symbol: String,
}

impl State {
    /// Every store is well formed, and the request status logs and the
    /// claims carry stamps no later than the clock.
    pub open spec fn wf(self) -> bool {
        &&& self.users.wf()
        &&& self.tokens.wf()
        &&& self.pools.wf()
        &&& self.lp_ledger.wf()
        &&& self.requests.wf()
        &&& self.transfers.wf()
        &&& self.txs.wf()
        &&& self.claims.wf()
        &&& forall|i: int, a: int|
            #![trigger self.requests.requests@[i].statuses@[a]]
            0 <= i < self.requests.requests@.len() && 0 <= a
                < self.requests.requests@[i].statuses@.len()
                ==> self.requests.requests@[i].statuses@[a].ts <= self.clock
        &&& forall|i: int|
            0 <= i < self.claims.claims@.len() ==> (#[trigger] self.claims.claims@[i]).ts
                <= self.clock
    }

    /// Room for what one operation can allocate.
    pub open spec fn can_allocate(self) -> bool {
        &&& self.users.next_user_id + 8 < u32::MAX
        &&& self.tokens.next_token_id + 8 < u32::MAX
        &&& self.pools.next_pool_id + 8 < u32::MAX
        &&& self.lp_ledger.next_lp_token_id + 8 < u64::MAX
        &&& self.requests.next_request_id + 8 < u64::MAX
        &&& self.transfers.next_transfer_id + 8 < u64::MAX
        &&& self.txs.next_tx_id + 8 < u64::MAX
        &&& self.claims.next_claim_id + 8 < u64::MAX
    }

    /// An empty exchange.
    pub fn new() -> (r: State)
        ensures
            r.wf(),
            r.can_allocate(),
            r.tokens.tokens@.len() == 0,
            r.pools.pools@.len() == 0,
            r.lp_ledger.rows@.len() == 0,
            r.claims.claims@.len() == 0,
            r.clock == 0,
            r.quote_symbol@ == "ckUSDT"@,
    {
        State {
            users: UserRegistry::new(),
            tokens: TokenRegistry::new(),
            pools: PoolRegistry::new(),
            lp_ledger: LpTokenLedger::new(),
            requests: RequestLedger::new(),
            transfers: TransferLedger::new(),
            txs: TxLedger::new(),
            claims: ClaimLedger::new(),
            clock: 0,
            quote_symbol: String::from_str("ckUSDT"),
        }
    }
}

} // verus!
