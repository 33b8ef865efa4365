//! The LP token ledger: one row per `(user, LP token)` holding, with the
//! total supply of an LP token defined as the sum over its rows.

use vstd::prelude::*;

use crate::bignat::{nat_add, nat_clone, nat_lt, nat_subtract, nat_zero, BigNat};
use crate::error::AmmError;

verus! {

/// Decimal places of every LP token.
pub const LP_DECIMALS: u8 = 8;

/// The key of an LP ledger row.
#[derive(Clone, Copy, PartialEq, Eq, Structural, Debug)]
pub struct StableLPTokenLedgerId(pub u64);

/// One holding: `user_id` owns `amount` of LP token `token_id`.
pub struct StableLPTokenLedger {
    pub lp_token_id: u64,
    pub user_id: u32,
    pub token_id: u32,
    pub amount: BigNat,
    pub ts: u64,
}

impl StableLPTokenLedger {
    /// A fresh row; the ledger assigns `lp_token_id` on insertion.
    pub fn new(user_id: u32, token_id: u32, amount: BigNat, ts: u64) -> (r:
        StableLPTokenLedger)
        ensures
            r.lp_token_id == 0,
            r.user_id == user_id,
            r.token_id == token_id,
            r.amount == amount,
            r.ts == ts,
    {
        StableLPTokenLedger { lp_token_id: 0, user_id, token_id, amount, ts }
    }

    /// An identical row.
    pub fn duplicate(&self) -> (r: StableLPTokenLedger)
        ensures
            r.lp_token_id == self.lp_token_id,
            r.user_id == self.user_id,
            r.token_id == self.token_id,
            r.amount@ == self.amount@,
            r.ts == self.ts,
    {
        StableLPTokenLedger {
            lp_token_id: self.lp_token_id,
            user_id: self.user_id,
            token_id: self.token_id,
            amount: nat_clone(&self.amount),
            ts: self.ts,
        }
    }
}

/// What a row adds to the supply of `token_id`.
pub open spec fn supply_part(row: StableLPTokenLedger, token_id: u32) -> nat {
    if row.token_id == token_id {
        row.amount@
    } else {
        0
    }
}

/// The total supply of LP token `token_id`: the sum of all its rows.
pub open spec fn supply_of(rows: Seq<StableLPTokenLedger>, token_id: u32) -> nat
    decreases rows.len(),
{
    if rows.len() == 0 {
        0
    } else {
        supply_of(rows.drop_last(), token_id) + supply_part(rows.last(), token_id)
    }
}

/// Appending a row adds its part to the supply.
pub proof fn lemma_supply_push(rows: Seq<StableLPTokenLedger>, row: StableLPTokenLedger, token_id: u32)
    ensures
        supply_of(rows.push(row), token_id) == supply_of(rows, token_id) + supply_part(
            row,
            token_id,
        ),
{
    assert(rows.push(row).drop_last() =~= rows);
    assert(rows.push(row).last() == row);
}

/// Replacing a row swaps its part of the supply for the new row's part.
pub proof fn lemma_supply_update(
    rows: Seq<StableLPTokenLedger>,
    i: int,
    row: StableLPTokenLedger,
    token_id: u32,
)
    requires
        0 <= i < rows.len(),
    ensures
        supply_of(rows.update(i, row), token_id) + supply_part(rows[i], token_id) == supply_of(
            rows,
            token_id,
        ) + supply_part(row, token_id),
    decreases rows.len(),
{
    let updated = rows.update(i, row);
    if i == rows.len() - 1 {
        assert(updated.drop_last() =~= rows.drop_last());
        assert(updated.last() == row);
    } else {
        assert(updated.drop_last() =~= rows.drop_last().update(i, row));
        assert(updated.last() == rows.last());
        lemma_supply_update(rows.drop_last(), i, row, token_id);
    }
}

/// The ledger of all LP token holdings.
pub struct LpTokenLedger {
    pub rows: Vec<StableLPTokenLedger>,
    pub next_lp_token_id: u64,
}

impl LpTokenLedger {
    /// Row keys are unique and below the counter, and no `(user, token)`
    /// pair has two rows.
    pub open spec fn wf(self) -> bool {
        &&& self.next_lp_token_id >= 1
        &&& forall|i: int|
            0 <= i < self.rows@.len() ==> 0 < #[trigger] self.rows@[i].lp_token_id
                < self.next_lp_token_id
        &&& forall|i: int, j: int|
            0 <= i < j < self.rows@.len() ==> self.rows@[i].lp_token_id
                != self.rows@[j].lp_token_id
        &&& forall|i: int, j: int|
            #![trigger self.rows@[i], self.rows@[j]]
            0 <= i < j < self.rows@.len() ==> !(self.rows@[i].user_id == self.rows@[j].user_id
                && self.rows@[i].token_id == self.rows@[j].token_id)
    }

    /// Whether `user_id` has a row for LP token `token_id`.
    pub open spec fn spec_has_row(self, token_id: u32, user_id: u32) -> bool {
        exists|i: int|
            0 <= i < self.rows@.len() && (#[trigger] self.rows@[i]).user_id == user_id
                && self.rows@[i].token_id == token_id
    }

    pub open spec fn spec_supply(self, token_id: u32) -> nat {
        supply_of(self.rows@, token_id)
    }

    pub fn new() -> (r: LpTokenLedger)
        ensures
            r.wf(),
            r.rows@.len() == 0,
            r.next_lp_token_id == 1,
    {
        LpTokenLedger { rows: Vec::new(), next_lp_token_id: 1 }
    }

    /// The position of the row of `(user_id, token_id)`, if any.
    pub fn index_of_row(&self, token_id: u32, user_id: u32) -> (r: Option<usize>)
        ensures
            r is Some <==> self.spec_has_row(token_id, user_id),
            r matches Some(i) ==> 0 <= i < self.rows@.len() && self.rows@[i as int].user_id
                == user_id && self.rows@[i as int].token_id == token_id,
    {
        let mut i: usize = 0;
        while i < self.rows.len()
            invariant
                i <= self.rows@.len(),
                forall|j: int|
                    0 <= j < i ==> !((#[trigger] self.rows@[j]).user_id == user_id
                        && self.rows@[j].token_id == token_id),
            decreases self.rows@.len() - i,
        {
            if self.rows[i].user_id == user_id && self.rows[i].token_id == token_id {
                return Some(i);
            }
            i = i + 1;
        }
        None
    }

    /// The holding of one user in one LP token.
    pub fn get_by_token_id_by_user_id(&self, token_id: u32, user_id: u32) -> (r: Option<
        &StableLPTokenLedger,
    >)
        ensures
            r is Some <==> self.spec_has_row(token_id, user_id),
            r matches Some(row) ==> exists|i: int|
                0 <= i < self.rows@.len() && self.rows@[i] == *row,
            r matches Some(row) ==> row.user_id == user_id && row.token_id == token_id,
    {
        let found = self.index_of_row(token_id, user_id);
        match found {
            Some(i) => Some(&self.rows[i]),
            None => None,
        }
    }

    /// The holding of the calling user in one LP token.
    pub fn get_by_token_id(&self, token_id: u32, caller_user_id: u32) -> (r: Option<
        &StableLPTokenLedger,
    >)
        ensures
            r is Some <==> self.spec_has_row(token_id, caller_user_id),
            r matches Some(row) ==> exists|i: int|
                0 <= i < self.rows@.len() && self.rows@[i] == *row,
            r matches Some(row) ==> row.user_id == caller_user_id && row.token_id == token_id,
    {
        self.get_by_token_id_by_user_id(token_id, caller_user_id)
    }

    /// All holdings of one user.
    pub fn get(&self, user_id: u32) -> (r: Vec<StableLPTokenLedger>)
        ensures
            forall|k: int|
                0 <= k < r@.len() ==> (#[trigger] r@[k]).user_id == user_id,
    {
        let mut out: Vec<StableLPTokenLedger> = Vec::new();
        let mut i: usize = 0;
        while i < self.rows.len()
            invariant
                i <= self.rows@.len(),
                forall|k: int| 0 <= k < out@.len() ==> (#[trigger] out@[k]).user_id == user_id,
            decreases self.rows@.len() - i,
        {
            if self.rows[i].user_id == user_id {
                out.push(self.rows[i].duplicate());
            }
            i = i + 1;
        }
        out
    }

    /// The total supply of an LP token.
    pub fn get_total_supply(&self, token_id: u32) -> (r: BigNat)
        ensures
            r@ == self.spec_supply(token_id),
    {
        let mut acc = nat_zero();
        let mut i: usize = 0;
        while i < self.rows.len()
            invariant
                i <= self.rows@.len(),
                acc@ == supply_of(self.rows@.take(i as int), token_id),
            decreases self.rows@.len() - i,
        {
            proof {
                assert(self.rows@.take(i + 1).drop_last() =~= self.rows@.take(i as int));
                assert(self.rows@.take(i + 1).last() == self.rows@[i as int]);
            }
            if self.rows[i].token_id == token_id {
                acc = nat_add(&acc, &self.rows[i].amount);
            }
            i = i + 1;
        }
        proof {
            assert(self.rows@.take(self.rows@.len() as int) =~= self.rows@);
        }
        acc
    }

    /// Whether another row can still be keyed.
    pub open spec fn can_insert(self) -> bool {
        self.next_lp_token_id < u64::MAX
    }

    /// Add a holding under a fresh key; the row's `lp_token_id` field is
    /// overwritten.  The supply of its token grows by its amount.
    pub fn insert(&mut self, row: StableLPTokenLedger) -> (r: u64)
        requires
            old(self).wf(),
            old(self).can_insert(),
            !old(self).spec_has_row(row.token_id, row.user_id),
        ensures
            final(self).wf(),
            r == old(self).next_lp_token_id,
            final(self).next_lp_token_id == old(self).next_lp_token_id + 1,
            final(self).rows@ == old(self).rows@.push(
                StableLPTokenLedger { lp_token_id: r, ..row },
            ),
            forall|t: u32|
                final(self).spec_supply(t) == old(self).spec_supply(t) + supply_part(
                    StableLPTokenLedger { lp_token_id: r, ..row },
                    t,
                ),
            final(self).spec_has_row(row.token_id, row.user_id),
    {
        let lp_token_id = self.next_lp_token_id;
        let inserted = StableLPTokenLedger { lp_token_id, ..row };
        self.rows.push(inserted);
        self.next_lp_token_id = lp_token_id + 1;
        proof {
            let s = self.rows@;
            let o = old(self).rows@;
            assert(s[s.len() - 1].lp_token_id == lp_token_id);
            assert(s[s.len() - 1].user_id == row.user_id && s[s.len() - 1].token_id
                == row.token_id);
            assert forall|i: int, j: int|
                0 <= i < j < s.len() implies s[i].lp_token_id != s[j].lp_token_id by {
                assert(s[i] == o[i]);
                if j < s.len() - 1 {
                    assert(s[j] == o[j]);
                } else {
                    assert(0 < o[i].lp_token_id < lp_token_id);
                }
            }
            assert forall|i: int|
                0 <= i < s.len() implies 0 < #[trigger] s[i].lp_token_id
                    < self.next_lp_token_id by {
                if i < s.len() - 1 {
                    assert(s[i] == o[i]);
                    assert(0 < o[i].lp_token_id < lp_token_id);
                }
            }
            assert forall|i: int, j: int|
                #![trigger s[i], s[j]]
                0 <= i < j < s.len() implies !(s[i].user_id == s[j].user_id && s[i].token_id
                == s[j].token_id) by {
                assert(s[i] == o[i]);
                if j < s.len() - 1 {
                    assert(s[j] == o[j]);
                } else {
                    assert(!old(self).spec_has_row(row.token_id, row.user_id));
                }
            }
            assert forall|t: u32|
                final(self).spec_supply(t) == old(self).spec_supply(t) + supply_part(
                    StableLPTokenLedger { lp_token_id: lp_token_id, ..row },
                    t,
                ) by {
                lemma_supply_push(o, StableLPTokenLedger { lp_token_id: lp_token_id, ..row }, t);
            }
        }
        lp_token_id
    }

    /// The position of a row key in the store.
    pub fn index_of_key(&self, lp_token_id: u64) -> (r: Option<usize>)
        ensures
            r is Some <==> exists|i: int|
                0 <= i < self.rows@.len() && #[trigger] self.rows@[i].lp_token_id == lp_token_id,
            r matches Some(i) ==> 0 <= i < self.rows@.len() && self.rows@[i as int].lp_token_id
                == lp_token_id,
    {
        let mut i: usize = 0;
        while i < self.rows.len()
            invariant
                i <= self.rows@.len(),
                forall|j: int|
                    0 <= j < i ==> #[trigger] self.rows@[j].lp_token_id != lp_token_id,
            decreases self.rows@.len() - i,
        {
            if self.rows[i].lp_token_id == lp_token_id {
                return Some(i);
            }
            i = i + 1;
        }
        None
    }

    /// Replace a row, keyed by its `lp_token_id`; the row's owner and
    /// token must stay what they were.  The supply of the token moves by
    /// the difference of the amounts.
    pub fn update(&mut self, row: StableLPTokenLedger)
        requires
            old(self).wf(),
            exists|i: int|
                0 <= i < old(self).rows@.len() && (#[trigger] old(self).rows@[i]).lp_token_id
                    == row.lp_token_id && old(self).rows@[i].user_id == row.user_id && old(
                    self,
                ).rows@[i].token_id == row.token_id,
        ensures
            final(self).wf(),
            final(self).next_lp_token_id == old(self).next_lp_token_id,
            final(self).rows@.len() == old(self).rows@.len(),
            forall|j: int|
                #![trigger final(self).rows@[j]]
                0 <= j < old(self).rows@.len() ==> final(self).rows@[j] == if old(
                    self,
                ).rows@[j].lp_token_id == row.lp_token_id {
                    row
                } else {
                    old(self).rows@[j]
                },
            forall|t: u32, j: int|
                #![trigger final(self).spec_supply(t), old(self).rows@[j]]
                0 <= j < old(self).rows@.len() && old(self).rows@[j].lp_token_id
                    == row.lp_token_id ==> final(self).spec_supply(t) + supply_part(
                    old(self).rows@[j],
                    t,
                ) == old(self).spec_supply(t) + supply_part(row, t),
    {
        let ghost o = self.rows@;
        let ghost w = choose|w: int|
            0 <= w < o.len() && (#[trigger] o[w]).lp_token_id == row.lp_token_id
                && o[w].user_id == row.user_id && o[w].token_id == row.token_id;
        let found = self.index_of_key(row.lp_token_id);
        match found {
            Some(i) => {
                proof {
                    if w != i as int {
                        let a: int = if w < i as int {
                            w
                        } else {
                            i as int
                        };
                        let b: int = if w < i as int {
                            i as int
                        } else {
                            w
                        };
                        assert(o[a].lp_token_id != o[b].lp_token_id);
                    }
                    assert(o[i as int].user_id == row.user_id && o[i as int].token_id
                        == row.token_id);
                }
                self.rows.set(i, row);
                proof {
                    let s = self.rows@;
                    assert forall|j: int|
                        #![trigger s[j]]
                        0 <= j < o.len() implies s[j] == if o[j].lp_token_id == row.lp_token_id {
                        row
                    } else {
                        o[j]
                    } by {
                        if j != i as int {
                            assert(s[j] == o[j]);
                            if o[j].lp_token_id == row.lp_token_id {
                                let a: int = if j < i as int {
                                    j
                                } else {
                                    i as int
                                };
                                let b: int = if j < i as int {
                                    i as int
                                } else {
                                    j
                                };
                                assert(o[a].lp_token_id != o[b].lp_token_id);
                            }
                        }
                    }
                    assert forall|a: int, b: int|
                        0 <= a < b < s.len() implies s[a].lp_token_id != s[b].lp_token_id by {
                        assert(o[a].lp_token_id != o[b].lp_token_id);
                    }
                    assert forall|a: int|
                        0 <= a < s.len() implies 0 < #[trigger] s[a].lp_token_id
                        < self.next_lp_token_id by {
                        assert(0 < o[a].lp_token_id < old(self).next_lp_token_id);
                    }
                    assert forall|a: int, b: int|
                        #![trigger s[a], s[b]]
                        0 <= a < b < s.len() implies !(s[a].user_id == s[b].user_id
                        && s[a].token_id == s[b].token_id) by {
                        assert(!(o[a].user_id == o[b].user_id && o[a].token_id == o[b].token_id));
                        assert(s[a].user_id == o[a].user_id && s[a].token_id == o[a].token_id);
                        assert(s[b].user_id == o[b].user_id && s[b].token_id == o[b].token_id);
                    }
                    assert forall|t: u32, j: int|
                        #![trigger final(self).spec_supply(t), o[j]]
                        0 <= j < o.len() && o[j].lp_token_id == row.lp_token_id
                        implies final(self).spec_supply(t) + supply_part(o[j], t) == old(
                        self,
                    ).spec_supply(t) + supply_part(row, t) by {
                        assert(j == i as int) by {
                            if j != i as int {
                                let a: int = if j < i as int {
                                    j
                                } else {
                                    i as int
                                };
                                let b: int = if j < i as int {
                                    i as int
                                } else {
                                    j
                                };
                                assert(o[a].lp_token_id != o[b].lp_token_id);
                            }
                        }
                        assert(s =~= o.update(i as int, row));
                        lemma_supply_update(o, i as int, row, t);
                    }
                }
            },
            None => {
                proof {
                    assert(false);
                }
            },
        }
    }

    /// The position of the row of `(user_id, token_id)`; meaningful only
    /// when such a row exists.
    pub open spec fn spec_row_index(self, token_id: u32, user_id: u32) -> int {
        choose|i: int|
            0 <= i < self.rows@.len() && (#[trigger] self.rows@[i]).user_id == user_id
                && self.rows@[i].token_id == token_id
    }

    /// How much of LP token `token_id` the user holds: the amount of their
    /// row, or zero without one.
    pub open spec fn spec_row_amount(self, token_id: u32, user_id: u32) -> nat {
        if self.spec_has_row(token_id, user_id) {
            self.rows@[self.spec_row_index(token_id, user_id)].amount@
        } else {
            0
        }
    }

    /// In a well-formed ledger a matching row pins down `spec_row_index`.
    pub proof fn lemma_row_unique(self, token_id: u32, user_id: u32, i: int)
        requires
            self.wf(),
            0 <= i < self.rows@.len(),
            self.rows@[i].user_id == user_id,
            self.rows@[i].token_id == token_id,
        ensures
            self.spec_has_row(token_id, user_id),
            self.spec_row_index(token_id, user_id) == i,
            self.spec_row_amount(token_id, user_id) == self.rows@[i].amount@,
    {
        assert(self.rows@[i].user_id == user_id && self.rows@[i].token_id == token_id);
        assert(self.spec_has_row(token_id, user_id));
        let k = self.spec_row_index(token_id, user_id);
        assert(0 <= k < self.rows@.len() && self.rows@[k].user_id == user_id
            && self.rows@[k].token_id == token_id);
        if k != i {
            let a: int = if k < i {
                k
            } else {
                i
            };
            let b: int = if k < i {
                i
            } else {
                k
            };
            assert(!(self.rows@[a].user_id == self.rows@[b].user_id && self.rows@[a].token_id
                == self.rows@[b].token_id));
            assert(false);
        }
    }

    /// Move `amount` of LP token `token_id` from one user to another.
    /// Succeeds exactly when the sender holds at least `amount`; the total
    /// supply of every token is unchanged.
    pub fn transfer(
        &mut self,
        token_id: u32,
        from_user_id: u32,
        to_user_id: u32,
        amount: &BigNat,
        ts: u64,
    ) -> (r: Result<StableLPTokenLedger, AmmError>)
        requires
            old(self).wf(),
            old(self).can_insert(),
        ensures
            final(self).wf(),
            r is Ok <==> old(self).spec_has_row(token_id, from_user_id) && amount@ <= old(
                self,
            ).spec_row_amount(token_id, from_user_id),
            r is Err ==> *final(self) == *old(self),
            r matches Err(e) ==> e is InsufficientLpBalance,
            r is Ok ==> forall|t: u32|
                final(self).spec_supply(t) == old(self).spec_supply(t),
            r matches Ok(row) ==> row.user_id == from_user_id && row.token_id == token_id
                && row.ts == ts && row.amount@ + amount@ == old(self).spec_row_amount(
                token_id,
                from_user_id,
            ),
            r is Ok && from_user_id != to_user_id ==> final(self).spec_row_amount(
                token_id,
                from_user_id,
            ) + amount@ == old(self).spec_row_amount(token_id, from_user_id)
                && final(self).spec_row_amount(token_id, to_user_id) == old(
                self,
            ).spec_row_amount(token_id, to_user_id) + amount@,
            r is Ok && from_user_id == to_user_id ==> final(self).spec_row_amount(
                token_id,
                from_user_id,
            ) == old(self).spec_row_amount(token_id, from_user_id),
    {
        let found = self.index_of_row(token_id, from_user_id);
        let i = match found {
            Some(i) => i,
            None => {
                return Err(AmmError::InsufficientLpBalance);
            },
        };
        proof {
            self.lemma_row_unique(token_id, from_user_id, i as int);
        }
        if nat_lt(&self.rows[i].amount, amount) {
            return Err(AmmError::InsufficientLpBalance);
        }
        let diff = nat_subtract(&self.rows[i].amount, amount).unwrap();
        let new_from = StableLPTokenLedger {
            lp_token_id: self.rows[i].lp_token_id,
            user_id: from_user_id,
            token_id,
            amount: diff,
            ts,
        };
        let returned = new_from.duplicate();
        let ghost o = *self;
        let ghost key_from = self.rows@[i as int].lp_token_id;
        self.update(new_from);
        let ghost mid = *self;
        proof {
            assert(mid.rows@[i as int].user_id == from_user_id && mid.rows@[i as int].token_id
                == token_id);
            assert(mid.rows@[i as int].amount@ + amount@ == o.spec_row_amount(
                token_id,
                from_user_id,
            ));
            mid.lemma_row_unique(token_id, from_user_id, i as int);
            assert forall|t: u32|
                mid.spec_supply(t) + supply_part(o.rows@[i as int], t) == o.spec_supply(t)
                    + supply_part(mid.rows@[i as int], t) by {}
        }
        let found_to = self.index_of_row(token_id, to_user_id);
        match found_to {
            Some(k) => {
                proof {
                    mid.lemma_row_unique(token_id, to_user_id, k as int);
                    if from_user_id == to_user_id {
                        assert(k as int == i as int);
                    } else {
                        assert(k as int != i as int);
                        assert(mid.rows@[k as int] == o.rows@[k as int]);
                        o.lemma_row_unique(token_id, to_user_id, k as int);
                    }
                }
                let new_to = StableLPTokenLedger {
                    lp_token_id: self.rows[k].lp_token_id,
                    user_id: to_user_id,
                    token_id,
                    amount: nat_add(&self.rows[k].amount, amount),
                    ts,
                };
                self.update(new_to);
                proof {
                    let f = *self;
                    assert(f.rows@[k as int].amount@ == mid.rows@[k as int].amount@ + amount@);
                    f.lemma_row_unique(token_id, to_user_id, k as int);
                    if from_user_id != to_user_id {
                        assert(f.rows@[i as int] == mid.rows@[i as int]);
                        f.lemma_row_unique(token_id, from_user_id, i as int);
                        assert(f.spec_row_amount(token_id, to_user_id) == o.spec_row_amount(
                            token_id,
                            to_user_id,
                        ) + amount@);
                    } else {
                        assert(f.spec_row_amount(token_id, from_user_id) == o.spec_row_amount(
                            token_id,
                            from_user_id,
                        ));
                    }
                    assert forall|t: u32| f.spec_supply(t) == o.spec_supply(t) by {
                        assert(f.spec_supply(t) + supply_part(mid.rows@[k as int], t)
                            == mid.spec_supply(t) + supply_part(f.rows@[k as int], t));
                        assert(mid.spec_supply(t) + supply_part(o.rows@[i as int], t)
                            == o.spec_supply(t) + supply_part(mid.rows@[i as int], t));
                    }
                }
                Ok(returned)
            },
            None => {
                proof {
                    assert(mid.rows@[i as int].user_id == from_user_id);
                    if from_user_id == to_user_id {
                        assert(mid.spec_has_row(token_id, to_user_id));
                        assert(false);
                    }
                }
                let fresh = StableLPTokenLedger::new(to_user_id, token_id, nat_clone(amount), ts);
                let key = self.insert(fresh);
                proof {
                    let f = *self;
                    let n = f.rows@.len() - 1;
                    assert(f.rows@[n].user_id == to_user_id && f.rows@[n].token_id == token_id);
                    assert(f.rows@[n].amount@ == amount@);
                    f.lemma_row_unique(token_id, to_user_id, n);
                    assert(f.rows@[i as int] == mid.rows@[i as int]);
                    f.lemma_row_unique(token_id, from_user_id, i as int);
                    if o.spec_has_row(token_id, to_user_id) {
                        let j = choose|j: int|
                            0 <= j < o.rows@.len() && (#[trigger] o.rows@[j]).user_id
                                == to_user_id && o.rows@[j].token_id == token_id;
                        assert(j != i as int);
                        let a: int = if j < i as int {
                            j
                        } else {
                            i as int
                        };
                        let b: int = if j < i as int {
                            i as int
                        } else {
                            j
                        };
                        assert(o.rows@[a].lp_token_id != o.rows@[b].lp_token_id);
                        assert(mid.rows@[j] == o.rows@[j]);
                        assert(mid.spec_has_row(token_id, to_user_id));
                        assert(false);
                    }
                    assert(o.spec_row_amount(token_id, to_user_id) == 0);
                    assert forall|t: u32| f.spec_supply(t) == o.spec_supply(t) by {
                        assert(f.spec_supply(t) == mid.spec_supply(t) + supply_part(f.rows@[n], t));
                        assert(mid.spec_supply(t) + supply_part(o.rows@[i as int], t)
                            == o.spec_supply(t) + supply_part(mid.rows@[i as int], t));
                    }
                }
                Ok(returned)
            },
        }
    }

    /// Remove every row of one LP token; used only when its pool goes.
    pub fn remove(&mut self, token_id: u32)
        requires
            old(self).wf(),
        ensures
            final(self).wf(),
            final(self).next_lp_token_id == old(self).next_lp_token_id,
            final(self).rows@ == old(self).rows@.filter(
                |r: StableLPTokenLedger| r.token_id != token_id,
            ),
            final(self).spec_supply(token_id) == 0,
    {
        let ghost o = self.rows@;
        let ghost pred = |r: StableLPTokenLedger| r.token_id != token_id;
        let mut i: usize = 0;
        let ghost mut j: int = 0;
        while i < self.rows.len()
            invariant
                old(self).wf(),
                self.next_lp_token_id == old(self).next_lp_token_id,
                o == old(self).rows@,
                pred == (|r: StableLPTokenLedger| r.token_id != token_id),
                0 <= j <= o.len(),
                i <= self.rows@.len(),
                self.rows@.take(i as int) == o.take(j).filter(pred),
                self.rows@.skip(i as int) == o.skip(j),
                forall|k: int|
                    0 <= k < i ==> (#[trigger] self.rows@[k]).token_id != token_id,
            decreases o.len() - j,
        {
            proof {
                assert(self.rows@.skip(i as int).len() == o.skip(j).len());
                assert(j < o.len());
                assert(self.rows@[i as int] == self.rows@.skip(i as int)[0]);
                assert(o.skip(j)[0] == o[j]);
                assert(o.take(j + 1).drop_last() =~= o.take(j));
                assert(o.take(j + 1).last() == o[j]);
                reveal_with_fuel(Seq::filter, 2);
            }
            if self.rows[i].token_id != token_id {
                proof {
                    assert(o.take(j + 1).filter(pred) == o.take(j).filter(pred).push(o[j]));
                    assert(self.rows@.take(i + 1) =~= self.rows@.take(i as int).push(
                        self.rows@[i as int],
                    ));
                    self.rows@.lemma_seq_skip_skip(i as int);
                    o.lemma_seq_skip_skip(j);
                    assert(self.rows@.skip(i as int).skip(1) == o.skip(j).skip(1));
                    assert(self.rows@.skip(i + 1) == o.skip(j + 1));
                    j = j + 1;
                }
                i = i + 1;
            } else {
                let ghost before = self.rows@;
                self.rows.remove(i);
                proof {
                    assert(o.take(j + 1).filter(pred) == o.take(j).filter(pred));
                    assert(self.rows@ == before.remove(i as int));
                    before.remove_ensures(i as int);
                    assert(self.rows@.take(i as int) =~= before.take(i as int));
                    before.lemma_seq_skip_skip(i as int);
                    o.lemma_seq_skip_skip(j);
                    assert(self.rows@.skip(i as int) =~= before.skip(i as int).skip(1));
                    assert(self.rows@.skip(i as int) == o.skip(j + 1));
                    j = j + 1;
                }
            }
        }
        proof {
            assert(self.rows@.skip(i as int).len() == o.skip(j).len());
            assert(j == o.len());
            assert(o.take(j) =~= o);
            assert(self.rows@.take(i as int) =~= self.rows@);
            assert(self.rows@ == o.filter(pred));
            let s = self.rows@;
            assert forall|a: int, b: int|
                0 <= a < b < s.len() implies s[a].lp_token_id != s[b].lp_token_id by {
                lemma_filter_keeps_distinct_keys(o, pred, a, b);
            }
            assert forall|a: int, b: int|
                #![trigger s[a], s[b]]
                0 <= a < b < s.len() implies !(s[a].user_id == s[b].user_id && s[a].token_id
                == s[b].token_id) by {
                lemma_filter_keeps_distinct_keys(o, pred, a, b);
            }
            assert forall|a: int|
                0 <= a < s.len() implies 0 < #[trigger] s[a].lp_token_id
                    < self.next_lp_token_id by {
                lemma_filter_element_position(o, pred, a);
                let x = choose|x: int| 0 <= x < o.len() && o[x] == o.filter(pred)[a];
                assert(0 < o[x].lp_token_id < old(self).next_lp_token_id);
            }
            lemma_supply_zero_when_absent(s, token_id);
        }
    }
}

/// Two distinct positions of a filtered sequence come from two distinct
/// positions of the unfiltered sequence, in order.
pub proof fn lemma_filter_keeps_distinct_keys(
    o: Seq<StableLPTokenLedger>,
    pred: spec_fn(StableLPTokenLedger) -> bool,
    a: int,
    b: int,
)
    requires
        0 <= a < b < o.filter(pred).len(),
    ensures
        exists|x: int, y: int|
            0 <= x < y < o.len() && o[x] == o.filter(pred)[a] && o[y] == o.filter(pred)[b],
    decreases o.len(),
{
    reveal_with_fuel(Seq::filter, 2);
    if o.len() == 0 {
    } else {
        let f = o.filter(pred);
        let fd = o.drop_last().filter(pred);
        if pred(o.last()) {
            assert(f == fd.push(o.last()));
            if b < f.len() - 1 {
                lemma_filter_keeps_distinct_keys(o.drop_last(), pred, a, b);
                let (x, y): (int, int) = choose|x: int, y: int|
                    0 <= x < y < o.drop_last().len() && o.drop_last()[x] == fd[a]
                        && o.drop_last()[y] == fd[b];
                assert(o[x] == f[a] && o[y] == f[b]);
            } else {
                assert(f[b] == o.last());
                lemma_filter_element_position(o.drop_last(), pred, a);
                let x = choose|x: int|
                    0 <= x < o.drop_last().len() && o.drop_last()[x] == fd[a];
                assert(o[x] == f[a]);
                assert(o[o.len() - 1] == f[b]);
            }
        } else {
            assert(f == fd);
            lemma_filter_keeps_distinct_keys(o.drop_last(), pred, a, b);
            let (x, y): (int, int) = choose|x: int, y: int|
                0 <= x < y < o.drop_last().len() && o.drop_last()[x] == fd[a]
                    && o.drop_last()[y] == fd[b];
            assert(o[x] == f[a] && o[y] == f[b]);
        }
    }
}

/// Every element of a filtered sequence stands somewhere in the
/// unfiltered one.
pub proof fn lemma_filter_element_position(
    o: Seq<StableLPTokenLedger>,
    pred: spec_fn(StableLPTokenLedger) -> bool,
    a: int,
)
    requires
        0 <= a < o.filter(pred).len(),
    ensures
        exists|x: int| 0 <= x < o.len() && o[x] == o.filter(pred)[a],
    decreases o.len(),
{
    reveal_with_fuel(Seq::filter, 2);
    if o.len() == 0 {
    } else {
        let f = o.filter(pred);
        let fd = o.drop_last().filter(pred);
        if pred(o.last()) && a == f.len() - 1 {
            assert(o[o.len() - 1] == f[a]);
        } else {
            lemma_filter_element_position(o.drop_last(), pred, a);
            let x = choose|x: int| 0 <= x < o.drop_last().len() && o.drop_last()[x] == fd[a];
            assert(o[x] == f[a]);
        }
    }
}

/// No single row holds more than the token's total supply.
pub proof fn lemma_row_le_supply(rows: Seq<StableLPTokenLedger>, i: int, token_id: u32)
    requires
        0 <= i < rows.len(),
        rows[i].token_id == token_id,
    ensures
        rows[i].amount@ <= supply_of(rows, token_id),
    decreases rows.len(),
{
    if i == rows.len() - 1 {
    } else {
        lemma_row_le_supply(rows.drop_last(), i, token_id);
    }
}

/// A ledger with no row of a token holds none of its supply.
pub proof fn lemma_supply_zero_when_absent(rows: Seq<StableLPTokenLedger>, token_id: u32)
    requires
        forall|k: int| 0 <= k < rows.len() ==> (#[trigger] rows[k]).token_id != token_id,
    ensures
        supply_of(rows, token_id) == 0,
    decreases rows.len(),
{
    if rows.len() > 0 {
        lemma_supply_zero_when_absent(rows.drop_last(), token_id);
    }
}

} // verus!
