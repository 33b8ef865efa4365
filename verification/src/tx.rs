//! Transaction records: one per successful (or compensated) operation,
//! written only after the operation's effects are in the stores.

use vstd::prelude::*;

use crate::bignat::BigNat;

verus! {

#[derive(Clone, Copy, PartialEq, Eq, Structural, Debug)]
pub enum StatusTx {
    Success,
    Failed,
}

pub struct AddPoolTx {
    pub tx_id: u64,
    pub pool_id: u32,
    pub user_id: u32,
    pub request_id: u64,
    pub status: StatusTx,
    pub amount_0: BigNat,
    pub amount_1: BigNat,
    pub add_lp_token_amount: BigNat,
    pub transfer_ids: Vec<u64>,
    pub claim_ids: Vec<u64>,
    pub on_kong: bool,
    pub ts: u64,
}

pub struct AddLiquidityTx {
    pub tx_id: u64,
    pub pool_id: u32,
    pub user_id: u32,
    pub request_id: u64,
    pub status: StatusTx,
    pub amount_0: BigNat,
    pub amount_1: BigNat,
    pub add_lp_token_amount: BigNat,
    pub transfer_ids: Vec<u64>,
    pub claim_ids: Vec<u64>,
    pub ts: u64,
}

pub struct RemoveLiquidityTx {
    pub tx_id: u64,
    pub pool_id: u32,
    pub user_id: u32,
    pub request_id: u64,
    pub status: StatusTx,
    pub amount_0: BigNat,
    pub lp_fee_0: BigNat,
    pub amount_1: BigNat,
    pub lp_fee_1: BigNat,
    pub remove_lp_token_amount: BigNat,
    pub transfer_ids: Vec<u64>,
    pub claim_ids: Vec<u64>,
    pub ts: u64,
}

/// One leg of a swap, in the order the pools were crossed.
pub struct SwapCalc {
    pub pool_id: u32,
    pub pay_token_id: u32,
    pub pay_amount: BigNat,
    pub receive_token_id: u32,
    pub receive_amount: BigNat,
    pub lp_fee: BigNat,
    pub gas_fee: BigNat,
}

pub struct SwapTx {
    pub tx_id: u64,
    pub user_id: u32,
    pub request_id: u64,
    pub status: StatusTx,
    pub pay_token_id: u32,
    pub pay_amount: BigNat,
    pub receive_token_id: u32,
    pub receive_amount: BigNat,
    /// Realised slippage, in hundred-millionths.
    pub slippage_e8: u64,
    pub txs: Vec<SwapCalc>,
    pub transfer_ids: Vec<u64>,
    pub claim_ids: Vec<u64>,
    pub ts: u64,
}

pub struct SendTx {
    pub tx_id: u64,
    pub token_id: u32,
    pub request_id: u64,
    pub user_id: u32,
    pub status: StatusTx,
    pub amount: BigNat,
    pub to_user_id: u32,
    pub ts: u64,
}

pub enum StableTx {
    AddPool(AddPoolTx),
    AddLiquidity(AddLiquidityTx),
    RemoveLiquidity(RemoveLiquidityTx),
    Swap(SwapTx),
    Send(SendTx),
}

pub open spec fn spec_tx_id(tx: StableTx) -> u64 {
    match tx {
        StableTx::AddPool(t) => t.tx_id,
        StableTx::AddLiquidity(t) => t.tx_id,
        StableTx::RemoveLiquidity(t) => t.tx_id,
        StableTx::Swap(t) => t.tx_id,
        StableTx::Send(t) => t.tx_id,
    }
}

/// The same record under a given key.
pub open spec fn with_tx_id(tx: StableTx, tx_id: u64) -> StableTx {
    match tx {
        StableTx::AddPool(t) => StableTx::AddPool(AddPoolTx { tx_id, ..t }),
        StableTx::AddLiquidity(t) => StableTx::AddLiquidity(AddLiquidityTx { tx_id, ..t }),
        StableTx::RemoveLiquidity(t) => StableTx::RemoveLiquidity(
            RemoveLiquidityTx { tx_id, ..t },
        ),
        StableTx::Swap(t) => StableTx::Swap(SwapTx { tx_id, ..t }),
        StableTx::Send(t) => StableTx::Send(SendTx { tx_id, ..t }),
    }
}

/// The ledger of all transaction records.
pub struct TxLedger {
    pub txs: Vec<StableTx>,
    pub next_tx_id: u64,
}

impl TxLedger {
    pub open spec fn wf(self) -> bool {
        &&& self.next_tx_id >= 1
        &&& forall|i: int|
            0 <= i < self.txs@.len() ==> 0 < spec_tx_id(#[trigger] self.txs@[i]) < self.next_tx_id
        &&& forall|i: int, j: int|
            #![trigger self.txs@[i], self.txs@[j]]
            0 <= i < j < self.txs@.len() ==> spec_tx_id(self.txs@[i]) != spec_tx_id(self.txs@[j])
    }

    pub open spec fn can_insert(self) -> bool {
        self.next_tx_id < u64::MAX
    }

    pub fn new() -> (r: TxLedger)
        ensures
            r.wf(),
            r.txs@.len() == 0,
            r.next_tx_id == 1,
    {
        TxLedger { txs: Vec::new(), next_tx_id: 1 }
    }

    /// Record a transaction under a fresh id; the record's own `tx_id`
    /// field is overwritten.
    pub fn insert(&mut self, tx: StableTx) -> (r: u64)
        requires
            old(self).wf(),
            old(self).can_insert(),
        ensures
            final(self).wf(),
            r == old(self).next_tx_id,
            final(self).next_tx_id == old(self).next_tx_id + 1,
            final(self).txs@ == old(self).txs@.push(with_tx_id(tx, r)),
    {
        let tx_id = self.next_tx_id;
        let inserted = match tx {
            StableTx::AddPool(t) => StableTx::AddPool(AddPoolTx { tx_id, ..t }),
            StableTx::AddLiquidity(t) => StableTx::AddLiquidity(AddLiquidityTx { tx_id, ..t }),
            StableTx::RemoveLiquidity(t) => StableTx::RemoveLiquidity(
                RemoveLiquidityTx { tx_id, ..t },
            ),
            StableTx::Swap(t) => StableTx::Swap(SwapTx { tx_id, ..t }),
            StableTx::Send(t) => StableTx::Send(SendTx { tx_id, ..t }),
        };
        self.txs.push(inserted);
        self.next_tx_id = tx_id + 1;
        proof {
            let s = self.txs@;
            let o = old(self).txs@;
            assert(spec_tx_id(s[s.len() - 1]) == tx_id);
            assert forall|a: int, b: int|
                #![trigger s[a], s[b]]
                0 <= a < b < s.len() implies spec_tx_id(s[a]) != spec_tx_id(s[b]) by {
                assert(s[a] == o[a]);
                if b < s.len() - 1 {
                    assert(s[b] == o[b]);
                } else {
                    assert(0 < spec_tx_id(o[a]) < tx_id);
                }
            }
            assert forall|a: int|
                0 <= a < s.len() implies 0 < spec_tx_id(#[trigger] s[a]) < self.next_tx_id by {
                if a < s.len() - 1 {
                    assert(s[a] == o[a]);
                    assert(0 < spec_tx_id(o[a]) < tx_id);
                }
            }
        }
        tx_id
    }
}

} // verus!
