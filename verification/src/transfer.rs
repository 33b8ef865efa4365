//! Transfer ledger: one record per on-chain transfer seen or made by the
//! engine, keyed by `(token, block index)` for deposit deduplication.

use vstd::prelude::*;

use crate::bignat::{nat_eq, BigNat};

verus! {

/// The on-chain position of a transfer.
pub enum TxId {
    BlockIndex(BigNat),
    TransactionHash(String),
}

/// The block index carried by a transaction id, if it is one.
pub open spec fn block_index_of(tx_id: TxId) -> Option<nat> {
    match tx_id {
        TxId::BlockIndex(b) => Some(b@),
        TxId::TransactionHash(_) => None,
    }
}

/// One recorded transfer.  `is_send` is true when the tokens moved from
/// the user to the engine.
pub struct StableTransfer {
    pub transfer_id: u64,
    pub request_id: u64,
    pub is_send: bool,
    pub amount: BigNat,
    pub token_id: u32,
    pub tx_id: TxId,
    pub ts: u64,
}

/// Whether two records would collide on the dedup key.
pub open spec fn same_deposit(a: StableTransfer, b: StableTransfer) -> bool {
    &&& a.token_id == b.token_id
    &&& block_index_of(a.tx_id) is Some
    &&& block_index_of(a.tx_id) == block_index_of(b.tx_id)
}

/// The ledger of all transfers.
pub struct TransferLedger {
    pub transfers: Vec<StableTransfer>,
    pub next_transfer_id: u64,
}

impl TransferLedger {
    /// Ids are unique and below the counter, and no two records share a
    /// `(token, block index)` pair.
    pub open spec fn wf(self) -> bool {
        &&& self.next_transfer_id >= 1
        &&& forall|i: int|
            0 <= i < self.transfers@.len() ==> 0 < #[trigger] self.transfers@[i].transfer_id
                < self.next_transfer_id
        &&& forall|i: int, j: int|
            0 <= i < j < self.transfers@.len() ==> self.transfers@[i].transfer_id
                != self.transfers@[j].transfer_id
        &&& forall|i: int, j: int|
            #![trigger self.transfers@[i], self.transfers@[j]]
            0 <= i < j < self.transfers@.len() ==> !same_deposit(
                self.transfers@[i],
                self.transfers@[j],
            )
    }

    /// Whether a deposit with this `(token, block index)` was already seen.
    pub open spec fn spec_contains_block(self, token_id: u32, block: nat) -> bool {
        exists|i: int|
            0 <= i < self.transfers@.len() && (#[trigger] self.transfers@[i]).token_id == token_id
                && block_index_of(self.transfers@[i].tx_id) == Some(block)
    }

    pub open spec fn can_insert(self) -> bool {
        self.next_transfer_id < u64::MAX
    }

    pub fn new() -> (r: TransferLedger)
        ensures
            r.wf(),
            r.transfers@.len() == 0,
            r.next_transfer_id == 1,
    {
        TransferLedger { transfers: Vec::new(), next_transfer_id: 1 }
    }

    /// The dedup check: has this `(token, block index)` been consumed?
    pub fn contain(&self, token_id: u32, block: &BigNat) -> (r: bool)
        ensures
            r == self.spec_contains_block(token_id, block@),
    {
        let mut i: usize = 0;
        while i < self.transfers.len()
            invariant
                i <= self.transfers@.len(),
                forall|j: int|
                    0 <= j < i ==> !((#[trigger] self.transfers@[j]).token_id == token_id
                        && block_index_of(self.transfers@[j].tx_id) == Some(block@)),
            decreases self.transfers@.len() - i,
        {
            if self.transfers[i].token_id == token_id {
                match &self.transfers[i].tx_id {
                    TxId::BlockIndex(b) => {
                        if nat_eq(b, block) {
                            return true;
                        }
                    },
                    TxId::TransactionHash(_) => {},
                }
            }
            i = i + 1;
        }
        false
    }

    /// Record a transfer under a fresh id.  A deposit key may enter the
    /// ledger only once; the caller checks first.
    pub fn insert(&mut self, transfer: StableTransfer) -> (r: u64)
        requires
            old(self).wf(),
            old(self).can_insert(),
            block_index_of(transfer.tx_id) matches Some(b) ==> !old(self).spec_contains_block(
                transfer.token_id,
                b,
            ),
        ensures
            final(self).wf(),
            r == old(self).next_transfer_id,
            final(self).next_transfer_id == old(self).next_transfer_id + 1,
            final(self).transfers@ == old(self).transfers@.push(
                StableTransfer { transfer_id: r, ..transfer },
            ),
    {
        let transfer_id = self.next_transfer_id;
        let inserted = StableTransfer { transfer_id, ..transfer };
        self.transfers.push(inserted);
        self.next_transfer_id = transfer_id + 1;
        proof {
            let s = self.transfers@;
            let o = old(self).transfers@;
            assert(s[s.len() - 1].transfer_id == transfer_id);
            assert forall|a: int, b: int|
                0 <= a < b < s.len() implies s[a].transfer_id != s[b].transfer_id by {
                assert(s[a] == o[a]);
                if b < s.len() - 1 {
                    assert(s[b] == o[b]);
                } else {
                    assert(0 < o[a].transfer_id < transfer_id);
                }
            }
            assert forall|a: int|
                0 <= a < s.len() implies 0 < #[trigger] s[a].transfer_id
                    < self.next_transfer_id by {
                if a < s.len() - 1 {
                    assert(s[a] == o[a]);
                    assert(0 < o[a].transfer_id < transfer_id);
                }
            }
            assert forall|a: int, b: int|
                #![trigger s[a], s[b]]
                0 <= a < b < s.len() implies !same_deposit(s[a], s[b]) by {
                assert(s[a] == o[a]);
                if b < s.len() - 1 {
                    assert(s[b] == o[b]);
                } else {
                    if same_deposit(o[a], s[b]) {
                        assert(o[a].token_id == transfer.token_id);
                        assert(block_index_of(o[a].tx_id) == block_index_of(transfer.tx_id));
                        assert(false);
                    }
                }
            }
        }
        transfer_id
    }
}

/// What one appended record adds to the dedup set, exactly.
pub proof fn lemma_contains_block_push_any(
    before: TransferLedger,
    after: TransferLedger,
    rec: StableTransfer,
    token_id: u32,
    block: nat,
)
    requires
        after.transfers@ == before.transfers@.push(rec),
    ensures
        after.spec_contains_block(token_id, block) <==> (before.spec_contains_block(
            token_id,
            block,
        ) || (rec.token_id == token_id && block_index_of(rec.tx_id) == Some(block))),
{
    if after.spec_contains_block(token_id, block) {
        let i = choose|i: int|
            0 <= i < after.transfers@.len() && (#[trigger] after.transfers@[i]).token_id
                == token_id && block_index_of(after.transfers@[i].tx_id) == Some(block);
        if i < before.transfers@.len() {
            assert(before.transfers@[i] == after.transfers@[i]);
            assert(before.spec_contains_block(token_id, block));
        } else {
            assert(after.transfers@[i] == rec);
        }
    }
    if before.spec_contains_block(token_id, block) {
        let i = choose|i: int|
            0 <= i < before.transfers@.len() && (#[trigger] before.transfers@[i]).token_id
                == token_id && block_index_of(before.transfers@[i].tx_id) == Some(block);
        assert(after.transfers@[i] == before.transfers@[i]);
        assert(after.spec_contains_block(token_id, block));
    }
    if rec.token_id == token_id && block_index_of(rec.tx_id) == Some(block) {
        assert(after.transfers@[after.transfers@.len() - 1] == rec);
        assert(after.spec_contains_block(token_id, block));
    }
}

/// Recording a transfer of one token leaves every other token's dedup
/// set as it was.
pub proof fn lemma_contains_block_push(
    before: TransferLedger,
    after: TransferLedger,
    rec: StableTransfer,
    token_id: u32,
    block: nat,
)
    requires
        after.transfers@ == before.transfers@.push(rec),
        rec.token_id != token_id,
    ensures
        after.spec_contains_block(token_id, block) <==> before.spec_contains_block(
            token_id,
            block,
        ),
{
    if after.spec_contains_block(token_id, block) {
        let i = choose|i: int|
            0 <= i < after.transfers@.len() && (#[trigger] after.transfers@[i]).token_id
                == token_id && block_index_of(after.transfers@[i].tx_id) == Some(block);
        assert(i < before.transfers@.len());
        assert(before.transfers@[i] == after.transfers@[i]);
        assert(before.spec_contains_block(token_id, block));
    }
    if before.spec_contains_block(token_id, block) {
        let i = choose|i: int|
            0 <= i < before.transfers@.len() && (#[trigger] before.transfers@[i]).token_id
                == token_id && block_index_of(before.transfers@[i].tx_id) == Some(block);
        assert(after.transfers@[i] == before.transfers@[i]);
        assert(after.spec_contains_block(token_id, block));
    }
}

} // verus!
