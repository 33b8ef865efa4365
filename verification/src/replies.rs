//! Reply records: what an operation hands back to its caller, and the
//! helpers that build them from transaction records.

use vstd::prelude::*;

use crate::bignat::{nat_clone, nat_zero, BigNat};
use crate::pool::PoolRegistry;
use crate::token::TokenRegistry;
use crate::tx::{AddLiquidityTx, RemoveLiquidityTx, StatusTx};

verus! {

pub struct AddPoolReply {
    pub tx_id: u64,
    pub pool_id: u32,
    pub request_id: u64,
    pub status: String,
    pub chain_0: String,
    pub symbol_0: String,
    pub amount_0: BigNat,
    pub chain_1: String,
    pub symbol_1: String,
    pub amount_1: BigNat,
    pub add_lp_token_amount: BigNat,
    pub on_kong: bool,
    pub transfer_ids: Vec<u64>,
    pub claim_ids: Vec<u64>,
    pub ts: u64,
}

pub struct AddLiquidityReply {
    pub tx_id: u64,
    pub symbol: String,
    pub request_id: u64,
    pub status: String,
    pub chain_0: String,
    pub address_0: String,
    pub symbol_0: String,
    pub amount_0: BigNat,
    pub chain_1: String,
    pub address_1: String,
    pub symbol_1: String,
    pub amount_1: BigNat,
    pub add_lp_token_amount: BigNat,
    pub transfer_ids: Vec<u64>,
    pub claim_ids: Vec<u64>,
    pub ts: u64,
}

pub struct RemoveLiquidityReply {
    pub tx_id: u64,
    pub symbol: String,
    pub request_id: u64,
    pub status: String,
    pub chain_0: String,
    pub symbol_0: String,
    pub amount_0: BigNat,
    pub lp_fee_0: BigNat,
    pub chain_1: String,
    pub symbol_1: String,
    pub amount_1: BigNat,
    pub lp_fee_1: BigNat,
    pub remove_lp_token_amount: BigNat,
    pub transfer_ids: Vec<u64>,
    pub claim_ids: Vec<u64>,
    pub ts: u64,
}

pub struct SwapReply {
    pub tx_id: u64,
    pub request_id: u64,
    pub status: String,
    pub pay_symbol: String,
    pub pay_amount: BigNat,
    pub receive_symbol: String,
    pub receive_amount: BigNat,
    /// Realised slippage, in hundred-millionths.
    pub slippage_e8: u64,
    pub transfer_ids: Vec<u64>,
    pub claim_ids: Vec<u64>,
    pub ts: u64,
}

pub struct ClaimReply {
    pub claim_id: u64,
    pub status: String,
    pub symbol: String,
    pub amount: BigNat,
    pub fee: BigNat,
    pub transfer_ids: Vec<u64>,
    pub ts: u64,
}

/// The reply stored on a finished request.
pub enum Reply {
    AddPool(AddPoolReply),
    AddLiquidity(AddLiquidityReply),
    RemoveLiquidity(RemoveLiquidityReply),
    Swap(SwapReply),
    Claim(ClaimReply),
}

/// Copy a `u64` id list.
pub fn copy_ids(ids: &Vec<u64>) -> (r: Vec<u64>)
    ensures
        r@ == ids@,
{
    let mut out: Vec<u64> = Vec::new();
    let mut i: usize = 0;
    while i < ids.len()
        invariant
            i <= ids@.len(),
            out@ == ids@.take(i as int),
        decreases ids@.len() - i,
    {
        out.push(ids[i]);
        proof {
            assert(ids@.take(i + 1) =~= ids@.take(i as int).push(ids@[i as int]));
        }
        i = i + 1;
    }
    proof {
        assert(ids@.take(ids@.len() as int) =~= ids@);
    }
    out
}

impl AddLiquidityReply {
    /// An identical reply.
    pub fn duplicate(&self) -> (r: AddLiquidityReply)
        ensures
            r.tx_id == self.tx_id,
            r.request_id == self.request_id,
            r.status == self.status,
            r.amount_0@ == self.amount_0@,
            r.amount_1@ == self.amount_1@,
            r.add_lp_token_amount@ == self.add_lp_token_amount@,
            r.transfer_ids@ == self.transfer_ids@,
            r.claim_ids@ == self.claim_ids@,
            r.ts == self.ts,
    {
        AddLiquidityReply {
            tx_id: self.tx_id,
            symbol: self.symbol.clone(),
            request_id: self.request_id,
            status: self.status.clone(),
            chain_0: self.chain_0.clone(),
            address_0: self.address_0.clone(),
            symbol_0: self.symbol_0.clone(),
            amount_0: nat_clone(&self.amount_0),
            chain_1: self.chain_1.clone(),
            address_1: self.address_1.clone(),
            symbol_1: self.symbol_1.clone(),
            amount_1: nat_clone(&self.amount_1),
            add_lp_token_amount: nat_clone(&self.add_lp_token_amount),
            transfer_ids: copy_ids(&self.transfer_ids),
            claim_ids: copy_ids(&self.claim_ids),
            ts: self.ts,
        }
    }
}

impl RemoveLiquidityReply {
    /// An identical reply.
    pub fn duplicate(&self) -> (r: RemoveLiquidityReply)
        ensures
            r.tx_id == self.tx_id,
            r.request_id == self.request_id,
            r.status == self.status,
            r.amount_0@ == self.amount_0@,
            r.lp_fee_0@ == self.lp_fee_0@,
            r.amount_1@ == self.amount_1@,
            r.lp_fee_1@ == self.lp_fee_1@,
            r.remove_lp_token_amount@ == self.remove_lp_token_amount@,
            r.transfer_ids@ == self.transfer_ids@,
            r.claim_ids@ == self.claim_ids@,
            r.ts == self.ts,
    {
        RemoveLiquidityReply {
            tx_id: self.tx_id,
            symbol: self.symbol.clone(),
            request_id: self.request_id,
            status: self.status.clone(),
            chain_0: self.chain_0.clone(),
            symbol_0: self.symbol_0.clone(),
            amount_0: nat_clone(&self.amount_0),
            lp_fee_0: nat_clone(&self.lp_fee_0),
            chain_1: self.chain_1.clone(),
            symbol_1: self.symbol_1.clone(),
            amount_1: nat_clone(&self.amount_1),
            lp_fee_1: nat_clone(&self.lp_fee_1),
            remove_lp_token_amount: nat_clone(&self.remove_lp_token_amount),
            transfer_ids: copy_ids(&self.transfer_ids),
            claim_ids: copy_ids(&self.claim_ids),
            ts: self.ts,
        }
    }
}

/// The reply of an add-liquidity request that failed: zero amounts, the
/// transfers and claims that the compensation made, and status `Failed`.
pub fn create_add_liquidity_reply_failed(
    pool_id: u32,
    request_id: u64,
    transfer_ids: &Vec<u64>,
    claim_ids: &Vec<u64>,
    ts: u64,
    pools: &PoolRegistry,
    tokens: &TokenRegistry,
) -> (r: AddLiquidityReply)
    requires
        pools.wf(),
        tokens.wf(),
    ensures
        r.tx_id == 0,
        r.request_id == request_id,
        r.amount_0@ == 0,
        r.amount_1@ == 0,
        r.add_lp_token_amount@ == 0,
        r.transfer_ids@ == transfer_ids@,
        r.claim_ids@ == claim_ids@,
        r.ts == ts,
        r.status@ == "Failed"@,
{
    let tx = AddLiquidityTx {
        tx_id: 0,
        pool_id,
        user_id: 0,
        request_id,
        status: StatusTx::Failed,
        amount_0: nat_zero(),
        amount_1: nat_zero(),
        add_lp_token_amount: nat_zero(),
        transfer_ids: copy_ids(transfer_ids),
        claim_ids: copy_ids(claim_ids),
        ts,
    };
    create_add_liquidity_reply_with_tx_id(0, &tx, pools, tokens)
}

/// The reply for an add-liquidity transaction, under the record's own id.
pub fn create_add_liquidity_reply(
    add_liquidity_tx: &AddLiquidityTx,
    pools: &PoolRegistry,
    tokens: &TokenRegistry,
) -> (r: AddLiquidityReply)
    requires
        pools.wf(),
        tokens.wf(),
    ensures
        r.tx_id == add_liquidity_tx.tx_id,
        r.request_id == add_liquidity_tx.request_id,
        r.amount_0@ == add_liquidity_tx.amount_0@,
        r.amount_1@ == add_liquidity_tx.amount_1@,
        r.add_lp_token_amount@ == add_liquidity_tx.add_lp_token_amount@,
        r.transfer_ids@ == add_liquidity_tx.transfer_ids@,
        r.claim_ids@ == add_liquidity_tx.claim_ids@,
        r.ts == add_liquidity_tx.ts,
        add_liquidity_tx.status is Success ==> r.status@ == "Success"@,
        add_liquidity_tx.status is Failed ==> r.status@ == "Failed"@,
{
    create_add_liquidity_reply_with_tx_id(add_liquidity_tx.tx_id, add_liquidity_tx, pools, tokens)
}

/// The reply for an add-liquidity transaction, under a caller-given id.
pub fn create_add_liquidity_reply_with_tx_id(
    tx_id: u64,
    add_liquidity_tx: &AddLiquidityTx,
    pools: &PoolRegistry,
    tokens: &TokenRegistry,
) -> (r: AddLiquidityReply)
    requires
        pools.wf(),
        tokens.wf(),
    ensures
        r.tx_id == tx_id,
        r.request_id == add_liquidity_tx.request_id,
        r.amount_0@ == add_liquidity_tx.amount_0@,
        r.amount_1@ == add_liquidity_tx.amount_1@,
        r.add_lp_token_amount@ == add_liquidity_tx.add_lp_token_amount@,
        r.transfer_ids@ == add_liquidity_tx.transfer_ids@,
        r.claim_ids@ == add_liquidity_tx.claim_ids@,
        r.ts == add_liquidity_tx.ts,
        add_liquidity_tx.status is Success ==> r.status@ == "Success"@,
        add_liquidity_tx.status is Failed ==> r.status@ == "Failed"@,
        ({
            let found = pools.spec_contains_id(add_liquidity_tx.pool_id);
            let p = pools.pools@[pools.spec_index_of(add_liquidity_tx.pool_id)];
            &&& (found && tokens.spec_contains_id(p.token_0_id) ==> r.symbol_0@
                == tokens.tokens@[tokens.spec_id_index(p.token_0_id)].symbol@ && r.chain_0@
                == tokens.tokens@[tokens.spec_id_index(p.token_0_id)].chain@)
            &&& (found && tokens.spec_contains_id(p.token_1_id) ==> r.symbol_1@
                == tokens.tokens@[tokens.spec_id_index(p.token_1_id)].symbol@ && r.chain_1@
                == tokens.tokens@[tokens.spec_id_index(p.token_1_id)].chain@)
            &&& (found && tokens.spec_contains_id(p.lp_token_id) ==> r.symbol@
                == tokens.tokens@[tokens.spec_id_index(p.lp_token_id)].symbol@)
            &&& (!found ==> r.symbol@ == "Pool symbol not found"@ && r.chain_0@
                == "Pool chain_0 not found"@ && r.address_0@ == "Pool address_0 not found"@
                && r.symbol_0@ == "Pool symbol_0 not found"@ && r.chain_1@
                == "Pool chain_1 not found"@ && r.address_1@ == "Pool address_1 not found"@
                && r.symbol_1@ == "Pool symbol_1 not found"@)
            &&& (found && !tokens.spec_contains_id(p.token_0_id) ==> r.chain_0@
                == "Pool chain_0 not found"@ && r.address_0@ == "Pool address_0 not found"@
                && r.symbol_0@ == "Pool symbol_0 not found"@)
            &&& (found && !tokens.spec_contains_id(p.token_1_id) ==> r.chain_1@
                == "Pool chain_1 not found"@ && r.address_1@ == "Pool address_1 not found"@
                && r.symbol_1@ == "Pool symbol_1 not found"@)
            &&& (found && !tokens.spec_contains_id(p.lp_token_id) ==> r.symbol@
                == "Pool symbol not found"@)
        }),
{
    let mut symbol = String::from_str("Pool symbol not found");
    let mut chain_0 = String::from_str("Pool chain_0 not found");
    let mut address_0 = String::from_str("Pool address_0 not found");
    let mut symbol_0 = String::from_str("Pool symbol_0 not found");
    let mut chain_1 = String::from_str("Pool chain_1 not found");
    let mut address_1 = String::from_str("Pool address_1 not found");
    let mut symbol_1 = String::from_str("Pool symbol_1 not found");
    let pool = pools.get_by_pool_id(add_liquidity_tx.pool_id);
    match pool {
        Some(pool) => {
            proof {
                let w = choose|w: int|
                    0 <= w < pools.pools@.len() && pools.pools@[w] == *pool && pool.pool_id
                        == add_liquidity_tx.pool_id;
                pools.lemma_id_unique(add_liquidity_tx.pool_id, w);
            }
            let token_0 = tokens.get_by_token_id(pool.token_0_id);
            match token_0 {
                Some(t) => {
                    proof {
                        let w = choose|w: int|
                            0 <= w < tokens.tokens@.len() && tokens.tokens@[w] == *t
                                && t.token_id == pool.token_0_id;
                        tokens.lemma_id_unique(pool.token_0_id, w);
                    }
                    chain_0 = t.chain.clone();
                    address_0 = t.address.clone();
                    symbol_0 = t.symbol.clone();
                },
                None => {},
            }
            let token_1 = tokens.get_by_token_id(pool.token_1_id);
            match token_1 {
                Some(t) => {
                    proof {
                        let w = choose|w: int|
                            0 <= w < tokens.tokens@.len() && tokens.tokens@[w] == *t
                                && t.token_id == pool.token_1_id;
                        tokens.lemma_id_unique(pool.token_1_id, w);
                    }
                    chain_1 = t.chain.clone();
                    address_1 = t.address.clone();
                    symbol_1 = t.symbol.clone();
                },
                None => {},
            }
            let lp = tokens.get_by_token_id(pool.lp_token_id);
            match lp {
                Some(t) => {
                    proof {
                        let w = choose|w: int|
                            0 <= w < tokens.tokens@.len() && tokens.tokens@[w] == *t
                                && t.token_id == pool.lp_token_id;
                        tokens.lemma_id_unique(pool.lp_token_id, w);
                    }
                    symbol = t.symbol.clone();
                },
                None => {},
            }
        },
        None => {},
    }
    let status = match add_liquidity_tx.status {
        StatusTx::Success => String::from_str("Success"),
        StatusTx::Failed => String::from_str("Failed"),
    };
    AddLiquidityReply {
        tx_id,
        symbol,
        request_id: add_liquidity_tx.request_id,
        status,
        chain_0,
        address_0,
        symbol_0,
        amount_0: nat_clone(&add_liquidity_tx.amount_0),
        chain_1,
        address_1,
        symbol_1,
        amount_1: nat_clone(&add_liquidity_tx.amount_1),
        add_lp_token_amount: nat_clone(&add_liquidity_tx.add_lp_token_amount),
        transfer_ids: copy_ids(&add_liquidity_tx.transfer_ids),
        claim_ids: copy_ids(&add_liquidity_tx.claim_ids),
        ts: add_liquidity_tx.ts,
    }
}

/// The reply for a remove-liquidity transaction, under the record's own id.
pub fn create_remove_liquidity_reply(
    remove_liquidity_tx: &RemoveLiquidityTx,
    pools: &PoolRegistry,
    tokens: &TokenRegistry,
) -> (r: RemoveLiquidityReply)
    requires
        pools.wf(),
        tokens.wf(),
    ensures
        r.tx_id == remove_liquidity_tx.tx_id,
        r.request_id == remove_liquidity_tx.request_id,
        r.amount_0@ == remove_liquidity_tx.amount_0@,
        r.lp_fee_0@ == remove_liquidity_tx.lp_fee_0@,
        r.amount_1@ == remove_liquidity_tx.amount_1@,
        r.lp_fee_1@ == remove_liquidity_tx.lp_fee_1@,
        r.remove_lp_token_amount@ == remove_liquidity_tx.remove_lp_token_amount@,
        r.transfer_ids@ == remove_liquidity_tx.transfer_ids@,
        r.claim_ids@ == remove_liquidity_tx.claim_ids@,
        r.ts == remove_liquidity_tx.ts,
        remove_liquidity_tx.status is Success ==> r.status@ == "Success"@,
        remove_liquidity_tx.status is Failed ==> r.status@ == "Failed"@,
{
    create_remove_liquidity_reply_with_tx_id(
        remove_liquidity_tx.tx_id,
        remove_liquidity_tx,
        pools,
        tokens,
    )
}

/// The reply for a remove-liquidity transaction, under a caller-given id.
pub fn create_remove_liquidity_reply_with_tx_id(
    tx_id: u64,
    remove_liquidity_tx: &RemoveLiquidityTx,
    pools: &PoolRegistry,
    tokens: &TokenRegistry,
) -> (r: RemoveLiquidityReply)
    requires
        pools.wf(),
        tokens.wf(),
    ensures
        r.tx_id == tx_id,
        r.request_id == remove_liquidity_tx.request_id,
        r.amount_0@ == remove_liquidity_tx.amount_0@,
        r.lp_fee_0@ == remove_liquidity_tx.lp_fee_0@,
        r.amount_1@ == remove_liquidity_tx.amount_1@,
        r.lp_fee_1@ == remove_liquidity_tx.lp_fee_1@,
        r.remove_lp_token_amount@ == remove_liquidity_tx.remove_lp_token_amount@,
        r.transfer_ids@ == remove_liquidity_tx.transfer_ids@,
        r.claim_ids@ == remove_liquidity_tx.claim_ids@,
        r.ts == remove_liquidity_tx.ts,
        remove_liquidity_tx.status is Success ==> r.status@ == "Success"@,
        remove_liquidity_tx.status is Failed ==> r.status@ == "Failed"@,
        ({
            let found = pools.spec_contains_id(remove_liquidity_tx.pool_id);
            let p = pools.pools@[pools.spec_index_of(remove_liquidity_tx.pool_id)];
            &&& (found && tokens.spec_contains_id(p.token_0_id) ==> r.symbol_0@
                == tokens.tokens@[tokens.spec_id_index(p.token_0_id)].symbol@ && r.chain_0@
                == tokens.tokens@[tokens.spec_id_index(p.token_0_id)].chain@)
            &&& (found && tokens.spec_contains_id(p.token_1_id) ==> r.symbol_1@
                == tokens.tokens@[tokens.spec_id_index(p.token_1_id)].symbol@ && r.chain_1@
                == tokens.tokens@[tokens.spec_id_index(p.token_1_id)].chain@)
            &&& (found && tokens.spec_contains_id(p.lp_token_id) ==> r.symbol@
                == tokens.tokens@[tokens.spec_id_index(p.lp_token_id)].symbol@)
            &&& (!found ==> r.symbol@ == "Pool symbol not found"@ && r.chain_0@
                == "Pool chain_0 not found"@ && r.symbol_0@ == "Pool symbol_0 not found"@
                && r.chain_1@ == "Pool chain_1 not found"@ && r.symbol_1@
                == "Pool symbol_1 not found"@)
            &&& (found && !tokens.spec_contains_id(p.token_0_id) ==> r.chain_0@
                == "Pool chain_0 not found"@ && r.symbol_0@ == "Pool symbol_0 not found"@)
            &&& (found && !tokens.spec_contains_id(p.token_1_id) ==> r.chain_1@
                == "Pool chain_1 not found"@ && r.symbol_1@ == "Pool symbol_1 not found"@)
            &&& (found && !tokens.spec_contains_id(p.lp_token_id) ==> r.symbol@
                == "Pool symbol not found"@)
        }),
{
    let mut symbol = String::from_str("Pool symbol not found");
    let mut chain_0 = String::from_str("Pool chain_0 not found");
    let mut symbol_0 = String::from_str("Pool symbol_0 not found");
    let mut chain_1 = String::from_str("Pool chain_1 not found");
    let mut symbol_1 = String::from_str("Pool symbol_1 not found");
    let pool = pools.get_by_pool_id(remove_liquidity_tx.pool_id);
    match pool {
        Some(pool) => {
            proof {
                let w = choose|w: int|
                    0 <= w < pools.pools@.len() && pools.pools@[w] == *pool && pool.pool_id
                        == remove_liquidity_tx.pool_id;
                pools.lemma_id_unique(remove_liquidity_tx.pool_id, w);
            }
            let token_0 = tokens.get_by_token_id(pool.token_0_id);
            match token_0 {
                Some(t) => {
                    proof {
                        let w = choose|w: int|
                            0 <= w < tokens.tokens@.len() && tokens.tokens@[w] == *t
                                && t.token_id == pool.token_0_id;
                        tokens.lemma_id_unique(pool.token_0_id, w);
                    }
                    chain_0 = t.chain.clone();
                    symbol_0 = t.symbol.clone();
                },
                None => {},
            }
            let token_1 = tokens.get_by_token_id(pool.token_1_id);
            match token_1 {
                Some(t) => {
                    proof {
                        let w = choose|w: int|
                            0 <= w < tokens.tokens@.len() && tokens.tokens@[w] == *t
                                && t.token_id == pool.token_1_id;
                        tokens.lemma_id_unique(pool.token_1_id, w);
                    }
                    chain_1 = t.chain.clone();
                    symbol_1 = t.symbol.clone();
                },
                None => {},
            }
            let lp = tokens.get_by_token_id(pool.lp_token_id);
            match lp {
                Some(t) => {
                    proof {
                        let w = choose|w: int|
                            0 <= w < tokens.tokens@.len() && tokens.tokens@[w] == *t
                                && t.token_id == pool.lp_token_id;
                        tokens.lemma_id_unique(pool.lp_token_id, w);
                    }
                    symbol = t.symbol.clone();
                },
                None => {},
            }
        },
        None => {},
    }
    let status = match remove_liquidity_tx.status {
        StatusTx::Success => String::from_str("Success"),
        StatusTx::Failed => String::from_str("Failed"),
    };
    RemoveLiquidityReply {
        tx_id,
        symbol,
        request_id: remove_liquidity_tx.request_id,
        status,
        chain_0,
        symbol_0,
        amount_0: nat_clone(&remove_liquidity_tx.amount_0),
        lp_fee_0: nat_clone(&remove_liquidity_tx.lp_fee_0),
        chain_1,
        symbol_1,
        amount_1: nat_clone(&remove_liquidity_tx.amount_1),
        lp_fee_1: nat_clone(&remove_liquidity_tx.lp_fee_1),
        remove_lp_token_amount: nat_clone(&remove_liquidity_tx.remove_lp_token_amount),
        transfer_ids: copy_ids(&remove_liquidity_tx.transfer_ids),
        claim_ids: copy_ids(&remove_liquidity_tx.claim_ids),
        ts: remove_liquidity_tx.ts,
    }
}

} // verus!
