//! Pool registry: one liquidity pool per unordered pair of distinct
//! tokens, with its reserves, accumulated LP fees and fee schedule.

use vstd::prelude::*;

use crate::bignat::{nat_add, nat_clone, BigNat};

verus! {

/// One liquidity pool.  The effective reserve used by constant-product
/// pricing is `balance_i + lp_fee_i`: accumulated LP fees are reinvested
/// liquidity.
pub struct Pool {
    pub pool_id: u32,
    pub token_0_id: u32,
    pub token_1_id: u32,
    pub balance_0: BigNat,
    pub balance_1: BigNat,
    pub lp_fee_0: BigNat,
    pub lp_fee_1: BigNat,
    pub lp_fee_bps: u8,
    pub kong_fee_bps: u8,
    pub lp_token_id: u32,
    pub on_kong: bool,
}

impl Pool {
    /// The protocol's cut never exceeds the total swap fee.
    pub open spec fn wf(self) -> bool {
        &&& self.kong_fee_bps <= self.lp_fee_bps
        &&& self.token_0_id != self.token_1_id
    }

    pub open spec fn reserve_0(self) -> nat {
        self.balance_0@ + self.lp_fee_0@
    }

    pub open spec fn reserve_1(self) -> nat {
        self.balance_1@ + self.lp_fee_1@
    }

    /// Whether this pool is the pool of the unordered pair `(a, b)`.
    pub open spec fn is_pair(self, a: u32, b: u32) -> bool {
        (self.token_0_id == a && self.token_1_id == b) || (self.token_0_id == b
            && self.token_1_id == a)
    }

    /// The effective reserve of token 0, as a value.
    pub fn reserve_0_amount(&self) -> (r: BigNat)
        ensures
            r@ == self.reserve_0(),
    {
        nat_add(&self.balance_0, &self.lp_fee_0)
    }

    /// The effective reserve of token 1, as a value.
    pub fn reserve_1_amount(&self) -> (r: BigNat)
        ensures
            r@ == self.reserve_1(),
    {
        nat_add(&self.balance_1, &self.lp_fee_1)
    }

    /// An identical pool record.
    pub fn duplicate(&self) -> (r: Pool)
        ensures
            r.pool_id == self.pool_id,
            r.token_0_id == self.token_0_id,
            r.token_1_id == self.token_1_id,
            r.balance_0@ == self.balance_0@,
            r.balance_1@ == self.balance_1@,
            r.lp_fee_0@ == self.lp_fee_0@,
            r.lp_fee_1@ == self.lp_fee_1@,
            r.lp_fee_bps == self.lp_fee_bps,
            r.kong_fee_bps == self.kong_fee_bps,
            r.lp_token_id == self.lp_token_id,
            r.on_kong == self.on_kong,
    {
        Pool {
            pool_id: self.pool_id,
            token_0_id: self.token_0_id,
            token_1_id: self.token_1_id,
            balance_0: nat_clone(&self.balance_0),
            balance_1: nat_clone(&self.balance_1),
            lp_fee_0: nat_clone(&self.lp_fee_0),
            lp_fee_1: nat_clone(&self.lp_fee_1),
            lp_fee_bps: self.lp_fee_bps,
            kong_fee_bps: self.kong_fee_bps,
            lp_token_id: self.lp_token_id,
            on_kong: self.on_kong,
        }
    }
}

/// The registry of all pools.
pub struct PoolRegistry {
    pub pools: Vec<Pool>,
    pub next_pool_id: u32,
}

impl PoolRegistry {
    /// Ids are unique and below the counter, every pool is well formed,
    /// and no unordered token pair has two pools.
    pub open spec fn wf(self) -> bool {
        &&& self.next_pool_id >= 1
        &&& forall|i: int|
            0 <= i < self.pools@.len() ==> (#[trigger] self.pools@[i]).wf()
        &&& forall|i: int|
            0 <= i < self.pools@.len() ==> 0 < #[trigger] self.pools@[i].pool_id
                < self.next_pool_id
        &&& forall|i: int, j: int|
            0 <= i < j < self.pools@.len() ==> self.pools@[i].pool_id != self.pools@[j].pool_id
        &&& forall|i: int, j: int|
            #![trigger self.pools@[i], self.pools@[j]]
            0 <= i < j < self.pools@.len() ==> !self.pools@[i].is_pair(
                self.pools@[j].token_0_id,
                self.pools@[j].token_1_id,
            )
    }

    pub open spec fn spec_contains_id(self, pool_id: u32) -> bool {
        exists|i: int| 0 <= i < self.pools@.len() && #[trigger] self.pools@[i].pool_id == pool_id
    }

    pub open spec fn spec_contains_pair(self, a: u32, b: u32) -> bool {
        exists|i: int| 0 <= i < self.pools@.len() && (#[trigger] self.pools@[i]).is_pair(a, b)
    }

    pub open spec fn spec_index_of(self, pool_id: u32) -> int {
        choose|i: int| 0 <= i < self.pools@.len() && #[trigger] self.pools@[i].pool_id == pool_id
    }

    pub fn new() -> (r: PoolRegistry)
        ensures
            r.wf(),
            r.pools@.len() == 0,
            r.next_pool_id == 1,
    {
        PoolRegistry { pools: Vec::new(), next_pool_id: 1 }
    }

    pub fn get_by_pool_id(&self, pool_id: u32) -> (r: Option<&Pool>)
        ensures
            r is Some <==> self.spec_contains_id(pool_id),
            r matches Some(p) ==> exists|i: int|
                0 <= i < self.pools@.len() && self.pools@[i] == *p && p.pool_id == pool_id,
    {
        let mut i: usize = 0;
        while i < self.pools.len()
            invariant
                i <= self.pools@.len(),
                forall|j: int| 0 <= j < i ==> #[trigger] self.pools@[j].pool_id != pool_id,
            decreases self.pools@.len() - i,
        {
            if self.pools[i].pool_id == pool_id {
                return Some(&self.pools[i]);
            }
            i = i + 1;
        }
        None
    }

    /// Find the pool of the unordered pair `(a, b)`.  The second result is
    /// true when the pool is stored with `a` as its token 1, i.e. the
    /// caller's orientation is reversed.
    pub fn get_by_token_ids(&self, a: u32, b: u32) -> (r: Option<(&Pool, bool)>)
        ensures
            r is Some <==> self.spec_contains_pair(a, b),
            r matches Some((p, reversed)) ==> exists|i: int|
                0 <= i < self.pools@.len() && self.pools@[i] == *p,
            r matches Some((p, reversed)) ==> if reversed {
                p.token_0_id == b && p.token_1_id == a
            } else {
                p.token_0_id == a && p.token_1_id == b
            },
    {
        let mut i: usize = 0;
        while i < self.pools.len()
            invariant
                i <= self.pools@.len(),
                forall|j: int| 0 <= j < i ==> !(#[trigger] self.pools@[j]).is_pair(a, b),
            decreases self.pools@.len() - i,
        {
            let p = &self.pools[i];
            if p.token_0_id == a && p.token_1_id == b {
                return Some((p, false));
            }
            if p.token_0_id == b && p.token_1_id == a {
                return Some((p, true));
            }
            i = i + 1;
        }
        None
    }

    /// In a well-formed registry a matching pool id pins down its index.
    pub proof fn lemma_id_unique(self, pool_id: u32, i: int)
        requires
            self.wf(),
            0 <= i < self.pools@.len(),
            self.pools@[i].pool_id == pool_id,
        ensures
            self.spec_contains_id(pool_id),
            self.spec_index_of(pool_id) == i,
    {
        assert(self.spec_contains_id(pool_id));
        let k = self.spec_index_of(pool_id);
        assert(0 <= k < self.pools@.len() && self.pools@[k].pool_id == pool_id);
        if k != i {
            let x: int = if k < i {
                k
            } else {
                i
            };
            let y: int = if k < i {
                i
            } else {
                k
            };
            assert(self.pools@[x].pool_id != self.pools@[y].pool_id);
            assert(false);
        }
    }

    pub open spec fn spec_contains_oriented_pair(self, a: u32, b: u32) -> bool {
        exists|i: int|
            0 <= i < self.pools@.len() && (#[trigger] self.pools@[i]).token_0_id == a
                && self.pools@[i].token_1_id == b
    }

    pub open spec fn spec_oriented_index(self, a: u32, b: u32) -> int {
        choose|i: int|
            0 <= i < self.pools@.len() && (#[trigger] self.pools@[i]).token_0_id == a
                && self.pools@[i].token_1_id == b
    }

    /// In a well-formed registry an oriented match pins down its index.
    pub proof fn lemma_oriented_unique(self, a: u32, b: u32, i: int)
        requires
            self.wf(),
            0 <= i < self.pools@.len(),
            self.pools@[i].token_0_id == a,
            self.pools@[i].token_1_id == b,
        ensures
            self.spec_contains_oriented_pair(a, b),
            self.spec_oriented_index(a, b) == i,
    {
        assert(self.spec_contains_oriented_pair(a, b));
        let k = self.spec_oriented_index(a, b);
        assert(0 <= k < self.pools@.len() && self.pools@[k].token_0_id == a
            && self.pools@[k].token_1_id == b);
        if k != i {
            let x: int = if k < i {
                k
            } else {
                i
            };
            let y: int = if k < i {
                i
            } else {
                k
            };
            assert(!self.pools@[x].is_pair(self.pools@[y].token_0_id, self.pools@[y].token_1_id));
            assert(false);
        }
    }

    /// The position of the pool stored as exactly `(a, b)`, if any.
    pub fn index_of_oriented_pair(&self, a: u32, b: u32) -> (r: Option<usize>)
        ensures
            r is Some <==> self.spec_contains_oriented_pair(a, b),
            r matches Some(i) ==> 0 <= i < self.pools@.len() && self.pools@[i as int].token_0_id
                == a && self.pools@[i as int].token_1_id == b,
    {
        let mut i: usize = 0;
        while i < self.pools.len()
            invariant
                i <= self.pools@.len(),
                forall|j: int|
                    0 <= j < i ==> !((#[trigger] self.pools@[j]).token_0_id == a
                        && self.pools@[j].token_1_id == b),
            decreases self.pools@.len() - i,
        {
            if self.pools[i].token_0_id == a && self.pools[i].token_1_id == b {
                return Some(i);
            }
            i = i + 1;
        }
        None
    }

    /// Register a pool, assigning it the next id.  The caller's `pool_id`
    /// field is overwritten.
    pub fn insert(&mut self, pool: Pool) -> (r: u32)
        requires
            old(self).wf(),
            old(self).next_pool_id < u32::MAX,
            pool.wf(),
            !old(self).spec_contains_pair(pool.token_0_id, pool.token_1_id),
        ensures
            final(self).wf(),
            r == old(self).next_pool_id,
            final(self).next_pool_id == old(self).next_pool_id + 1,
            final(self).pools@.len() == old(self).pools@.len() + 1,
            forall|i: int|
                0 <= i < old(self).pools@.len() ==> final(self).pools@[i] == old(self).pools@[i],
            final(self).pools@.last() == (Pool { pool_id: r, ..pool }),
            final(self).spec_contains_id(r),
    {
        let pool_id = self.next_pool_id;
        let inserted = Pool { pool_id, ..pool };
        self.pools.push(inserted);
        self.next_pool_id = pool_id + 1;
        proof {
            let s = self.pools@;
            assert(s[s.len() - 1].pool_id == pool_id);
            assert forall|i: int, j: int|
                0 <= i < j < s.len() implies s[i].pool_id != s[j].pool_id by {
                assert(s[i] == old(self).pools@[i]);
                if j < s.len() - 1 {
                    assert(s[j] == old(self).pools@[j]);
                } else {
                    assert(old(self).pools@[i].pool_id < pool_id);
                }
            }
            assert forall|i: int|
                0 <= i < s.len() implies 0 < #[trigger] s[i].pool_id < self.next_pool_id by {
                if i < s.len() - 1 {
                    assert(s[i] == old(self).pools@[i]);
                    assert(0 < old(self).pools@[i].pool_id < pool_id);
                }
            }
            assert forall|i: int|
                0 <= i < s.len() implies (#[trigger] s[i]).wf() by {
                if i < s.len() - 1 {
                    assert(s[i] == old(self).pools@[i]);
                    assert(old(self).pools@[i].wf());
                }
            }
            assert forall|i: int, j: int|
                #![trigger s[i], s[j]]
                0 <= i < j < s.len() implies !s[i].is_pair(
                s[j].token_0_id,
                s[j].token_1_id,
            ) by {
                assert(s[i] == old(self).pools@[i]);
                if j < s.len() - 1 {
                    assert(s[j] == old(self).pools@[j]);
                } else {
                    assert(!old(self).spec_contains_pair(pool.token_0_id, pool.token_1_id));
                }
            }
        }
        pool_id
    }

    /// The position of a pool id in the store, scanning from the front.
    pub fn index_of_pool_id(&self, pool_id: u32) -> (r: Option<usize>)
        ensures
            r is Some <==> self.spec_contains_id(pool_id),
            r matches Some(i) ==> 0 <= i < self.pools@.len() && self.pools@[i as int].pool_id
                == pool_id,
    {
        let mut i: usize = 0;
        while i < self.pools.len()
            invariant
                i <= self.pools@.len(),
                forall|j: int| 0 <= j < i ==> #[trigger] self.pools@[j].pool_id != pool_id,
            decreases self.pools@.len() - i,
        {
            if self.pools[i].pool_id == pool_id {
                return Some(i);
            }
            i = i + 1;
        }
        None
    }

    /// Replace the stored record of a pool, keeping its identity: only the
    /// balances, fees and flags may differ.
    pub fn update(&mut self, pool: Pool)
        requires
            old(self).wf(),
            pool.wf(),
            old(self).spec_contains_id(pool.pool_id),
            forall|j: int|
                0 <= j < old(self).pools@.len() && #[trigger] old(self).pools@[j].pool_id
                    == pool.pool_id ==> old(self).pools@[j].token_0_id == pool.token_0_id
                    && old(self).pools@[j].token_1_id == pool.token_1_id,
        ensures
            final(self).wf(),
            final(self).next_pool_id == old(self).next_pool_id,
            final(self).pools@.len() == old(self).pools@.len(),
            forall|j: int|
                #![trigger final(self).pools@[j]]
                0 <= j < old(self).pools@.len() ==> final(self).pools@[j] == if old(
                    self,
                ).pools@[j].pool_id == pool.pool_id {
                    pool
                } else {
                    old(self).pools@[j]
                },
    {
        let found = self.index_of_pool_id(pool.pool_id);
        match found {
            Some(i) => {
                self.pools.set(i, pool);
                proof {
                    let s = self.pools@;
                    let o = old(self).pools@;
                    assert forall|j: int|
                        #![trigger s[j]]
                        0 <= j < o.len() implies s[j] == if o[j].pool_id == pool.pool_id {
                        pool
                    } else {
                        o[j]
                    } by {
                        if j != i as int {
                            assert(s[j] == o[j]);
                            if o[j].pool_id == pool.pool_id {
                                let a: int = if j < i as int {
                                    j
                                } else {
                                    i as int
                                };
                                let b: int = if j < i as int {
                                    i as int
                                } else {
                                    j
                                };
                                assert(o[a].pool_id != o[b].pool_id);
                            }
                        }
                    }
                    assert forall|a: int, b: int|
                        0 <= a < b < s.len() implies s[a].pool_id != s[b].pool_id by {
                        assert(o[a].pool_id != o[b].pool_id);
                    }
                    assert forall|a: int|
                        0 <= a < s.len() implies 0 < #[trigger] s[a].pool_id
                        < self.next_pool_id by {
                        assert(0 < o[a].pool_id < old(self).next_pool_id);
                    }
                    assert forall|a: int| 0 <= a < s.len() implies (#[trigger] s[a]).wf() by {
                        assert(o[a].wf());
                    }
                    assert forall|a: int, b: int|
                        #![trigger s[a], s[b]]
                        0 <= a < b < s.len() implies !s[a].is_pair(
                        s[b].token_0_id,
                        s[b].token_1_id,
                    ) by {
                        assert(!o[a].is_pair(o[b].token_0_id, o[b].token_1_id));
                        assert(s[a].token_0_id == o[a].token_0_id && s[a].token_1_id
                            == o[a].token_1_id);
                        assert(s[b].token_0_id == o[b].token_0_id && s[b].token_1_id
                            == o[b].token_1_id);
                    }
                }
            },
            None => {
                proof {
                    assert(false);
                }
            },
        }
    }
}

} // verus!
