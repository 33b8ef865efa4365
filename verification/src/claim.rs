//! Claim ledger: IOUs for tokens the engine owes a user after a return
//! transfer failed.  Claims move through a small state machine whose
//! `Claiming` state serves as a reentrancy lock.

use vstd::prelude::*;

use crate::bignat::BigNat;

verus! {

/// Where a claim pays out to.
pub enum Address {
    AccountId(String),
    PrincipalId(String),
}

impl Address {
    /// An identical address.
    pub fn duplicate(&self) -> (r: Address)
        ensures
            r == *self,
    {
        match self {
            Address::AccountId(a) => Address::AccountId(a.clone()),
            Address::PrincipalId(p) => Address::PrincipalId(p.clone()),
        }
    }
}

#[derive(Clone, Copy, PartialEq, Eq, Structural, Debug)]
pub enum ClaimStatus {
    Unclaimed,
    Claiming,
    Claimed,
    TooManyAttempts,
}

/// The only lawful moves of the claim state machine.
pub open spec fn claim_step_ok(from: ClaimStatus, to: ClaimStatus) -> bool {
    ||| (from is Unclaimed && to is Claiming)
    ||| (from is Claiming && to is Unclaimed)
    ||| (from is Claiming && to is Claimed)
    ||| (from is Unclaimed && to is TooManyAttempts)
}

/// One claim.
pub struct StableClaim {
    pub claim_id: u64,
    pub user_id: u32,
    pub status: ClaimStatus,
    pub token_id: u32,
    pub amount: BigNat,
    pub request_id: Option<u64>,
    pub to_address: Option<Address>,
    pub attempt_request_ids: Vec<u64>,
    pub transfer_ids: Vec<u64>,
    pub ts: u64,
}

impl StableClaim {
    /// A fresh, unclaimed claim; the ledger assigns `claim_id`.
    pub fn new(
        user_id: u32,
        token_id: u32,
        amount: BigNat,
        request_id: Option<u64>,
        to_address: Option<Address>,
        ts: u64,
    ) -> (r: StableClaim)
        ensures
            r.claim_id == 0,
            r.user_id == user_id,
            r.status is Unclaimed,
            r.token_id == token_id,
            r.amount == amount,
            r.request_id == request_id,
            r.to_address == to_address,
            r.attempt_request_ids@.len() == 0,
            r.transfer_ids@.len() == 0,
            r.ts == ts,
    {
        StableClaim {
            claim_id: 0,
            user_id,
            status: ClaimStatus::Unclaimed,
            token_id,
            amount,
            request_id,
            to_address,
            attempt_request_ids: Vec::new(),
            transfer_ids: Vec::new(),
            ts,
        }
    }
}

/// The ledger of all claims.
pub struct ClaimLedger {
    pub claims: Vec<StableClaim>,
    pub next_claim_id: u64,
}

impl ClaimLedger {
    /// Ids are unique and below the counter, and claims sit in creation
    /// order, so their timestamps ascend.
    pub open spec fn wf(self) -> bool {
        &&& self.next_claim_id >= 1
        &&& forall|i: int|
            0 <= i < self.claims@.len() ==> 0 < #[trigger] self.claims@[i].claim_id
                < self.next_claim_id
        &&& forall|i: int, j: int|
            0 <= i < j < self.claims@.len() ==> self.claims@[i].claim_id
                != self.claims@[j].claim_id
        &&& forall|i: int, j: int|
            #![trigger self.claims@[i], self.claims@[j]]
            0 <= i < j < self.claims@.len() ==> self.claims@[i].ts <= self.claims@[j].ts
    }

    pub open spec fn spec_contains_id(self, claim_id: u64) -> bool {
        exists|i: int| 0 <= i < self.claims@.len() && #[trigger] self.claims@[i].claim_id == claim_id
    }

    pub open spec fn can_insert(self) -> bool {
        self.next_claim_id < u64::MAX
    }

    pub fn new() -> (r: ClaimLedger)
        ensures
            r.wf(),
            r.claims@.len() == 0,
            r.next_claim_id == 1,
    {
        ClaimLedger { claims: Vec::new(), next_claim_id: 1 }
    }

    /// File a claim under a fresh id.  New claims are always unclaimed and
    /// enter at the end of time order.
    pub fn insert(&mut self, claim: StableClaim) -> (r: u64)
        requires
            old(self).wf(),
            old(self).can_insert(),
            claim.status is Unclaimed,
            forall|k: int|
                0 <= k < old(self).claims@.len() ==> (#[trigger] old(self).claims@[k]).ts
                    <= claim.ts,
        ensures
            final(self).wf(),
            r == old(self).next_claim_id,
            final(self).next_claim_id == old(self).next_claim_id + 1,
            final(self).claims@ == old(self).claims@.push(StableClaim { claim_id: r, ..claim }),
    {
        let claim_id = self.next_claim_id;
        let inserted = StableClaim { claim_id, ..claim };
        self.claims.push(inserted);
        self.next_claim_id = claim_id + 1;
        proof {
            let s = self.claims@;
            let o = old(self).claims@;
            assert(s[s.len() - 1].claim_id == claim_id);
            assert forall|a: int, b: int|
                0 <= a < b < s.len() implies s[a].claim_id != s[b].claim_id by {
                assert(s[a] == o[a]);
                if b < s.len() - 1 {
                    assert(s[b] == o[b]);
                } else {
                    assert(0 < o[a].claim_id < claim_id);
                }
            }
            assert forall|a: int|
                0 <= a < s.len() implies 0 < #[trigger] s[a].claim_id < self.next_claim_id by {
                if a < s.len() - 1 {
                    assert(s[a] == o[a]);
                    assert(0 < o[a].claim_id < claim_id);
                }
            }
            assert forall|a: int, b: int|
                #![trigger s[a], s[b]]
                0 <= a < b < s.len() implies s[a].ts <= s[b].ts by {
                assert(s[a] == o[a]);
                if b < s.len() - 1 {
                    assert(s[b] == o[b]);
                }
            }
        }
        claim_id
    }

    /// The position of a claim id in the store.
    pub fn index_of_claim_id(&self, claim_id: u64) -> (r: Option<usize>)
        ensures
            r is Some <==> self.spec_contains_id(claim_id),
            r matches Some(i) ==> 0 <= i < self.claims@.len() && self.claims@[i as int].claim_id
                == claim_id,
    {
        let mut i: usize = 0;
        while i < self.claims.len()
            invariant
                i <= self.claims@.len(),
                forall|j: int| 0 <= j < i ==> #[trigger] self.claims@[j].claim_id != claim_id,
            decreases self.claims@.len() - i,
        {
            if self.claims[i].claim_id == claim_id {
                return Some(i);
            }
            i = i + 1;
        }
        None
    }

    pub open spec fn spec_id_index(self, claim_id: u64) -> int {
        choose|i: int| 0 <= i < self.claims@.len() && #[trigger] self.claims@[i].claim_id == claim_id
    }

    /// In a well-formed ledger a matching claim id pins down its index.
    pub proof fn lemma_id_unique(self, claim_id: u64, i: int)
        requires
            self.wf(),
            0 <= i < self.claims@.len(),
            self.claims@[i].claim_id == claim_id,
        ensures
            self.spec_contains_id(claim_id),
            self.spec_id_index(claim_id) == i,
    {
        assert(self.spec_contains_id(claim_id));
        let k = self.spec_id_index(claim_id);
        assert(0 <= k < self.claims@.len() && self.claims@[k].claim_id == claim_id);
        if k != i {
            let x: int = if k < i {
                k
            } else {
                i
            };
            let y: int = if k < i {
                i
            } else {
                k
            };
            assert(self.claims@[x].claim_id != self.claims@[y].claim_id);
            assert(false);
        }
    }

    /// The claim ids that are waiting to be paid, in time order.
    pub fn get_unclaimed_ids(&self) -> (r: Vec<u64>)
        ensures
            r@ == unclaimed_ids(self.claims@),
    {
        let mut out: Vec<u64> = Vec::new();
        let mut i: usize = 0;
        while i < self.claims.len()
            invariant
                i <= self.claims@.len(),
                out@ == unclaimed_ids(self.claims@.take(i as int)),
            decreases self.claims@.len() - i,
        {
            proof {
                assert(self.claims@.take(i + 1).drop_last() =~= self.claims@.take(i as int));
                assert(self.claims@.take(i + 1).last() == self.claims@[i as int]);
            }
            match self.claims[i].status {
                ClaimStatus::Unclaimed => {
                    out.push(self.claims[i].claim_id);
                },
                _ => {},
            }
            i = i + 1;
        }
        proof {
            assert(self.claims@.take(self.claims@.len() as int) =~= self.claims@);
        }
        out
    }

    /// Move one claim to a new status, along the lawful transitions; on
    /// success to `Claimed` the request and transfer are recorded, on a
    /// failed attempt the request id joins the attempt list.
    pub fn step(
        &mut self,
        claim_id: u64,
        new_status: ClaimStatus,
        done: Option<(u64, u64)>,
        attempt_request_id: Option<u64>,
    ) -> (r: bool)
        requires
            old(self).wf(),
            forall|j: int|
                0 <= j < old(self).claims@.len() && (#[trigger] old(self).claims@[j]).claim_id
                    == claim_id ==> claim_step_ok(old(self).claims@[j].status, new_status),
        ensures
            final(self).wf(),
            r == old(self).spec_contains_id(claim_id),
            final(self).next_claim_id == old(self).next_claim_id,
            final(self).claims@.len() == old(self).claims@.len(),
            forall|j: int|
                #![trigger final(self).claims@[j]]
                0 <= j < old(self).claims@.len() ==> if old(self).claims@[j].claim_id
                    == claim_id {
                    stepped(old(self).claims@[j], final(self).claims@[j], new_status, done,
                    attempt_request_id)
                } else {
                    final(self).claims@[j] == old(self).claims@[j]
                },
    {
        let found = self.index_of_claim_id(claim_id);
        let i = match found {
            Some(i) => i,
            None => {
                return false;
            },
        };
        let ghost o = self.claims@;
        let c = self.claims.remove(i);
        let mut attempt_request_ids = c.attempt_request_ids;
        if let Some(a) = attempt_request_id {
            attempt_request_ids.push(a);
        }
        let mut transfer_ids = c.transfer_ids;
        let request_id = match done {
            Some((rq, tr)) => {
                transfer_ids.push(tr);
                Some(rq)
            },
            None => c.request_id,
        };
        let stepped_claim = StableClaim {
            claim_id: c.claim_id,
            user_id: c.user_id,
            status: new_status,
            token_id: c.token_id,
            amount: c.amount,
            request_id,
            to_address: c.to_address,
            attempt_request_ids,
            transfer_ids,
            ts: c.ts,
        };
        self.claims.insert(i, stepped_claim);
        proof {
            let s = self.claims@;
            assert(s =~= o.update(i as int, stepped_claim));
            assert forall|a: int, b: int|
                0 <= a < b < s.len() implies s[a].claim_id != s[b].claim_id by {
                assert(o[a].claim_id != o[b].claim_id);
                assert(s[a].claim_id == o[a].claim_id && s[b].claim_id == o[b].claim_id);
            }
            assert forall|a: int|
                0 <= a < s.len() implies 0 < #[trigger] s[a].claim_id < self.next_claim_id by {
                assert(0 < o[a].claim_id < old(self).next_claim_id);
                assert(s[a].claim_id == o[a].claim_id);
            }
            assert forall|a: int, b: int|
                #![trigger s[a], s[b]]
                0 <= a < b < s.len() implies s[a].ts <= s[b].ts by {
                assert(o[a].ts <= o[b].ts);
                assert(s[a].ts == o[a].ts && s[b].ts == o[b].ts);
            }
            assert forall|j: int|
                #![trigger s[j]]
                0 <= j < o.len() implies if o[j].claim_id == claim_id {
                stepped(o[j], s[j], new_status, done, attempt_request_id)
            } else {
                s[j] == o[j]
            } by {
                if j != i as int {
                    assert(s[j] == o[j]);
                    if o[j].claim_id == claim_id {
                        let a: int = if j < i as int {
                            j
                        } else {
                            i as int
                        };
                        let b: int = if j < i as int {
                            i as int
                        } else {
                            j
                        };
                        assert(o[a].claim_id != o[b].claim_id);
                    }
                }
            }
        }
        true
    }
}

/// How one transition rewrites a claim record.
pub open spec fn stepped(
    before: StableClaim,
    after: StableClaim,
    new_status: ClaimStatus,
    done: Option<(u64, u64)>,
    attempt_request_id: Option<u64>,
) -> bool {
    &&& after.claim_id == before.claim_id
    &&& after.user_id == before.user_id
    &&& after.status == new_status
    &&& claim_step_ok(before.status, new_status)
    &&& after.token_id == before.token_id
    &&& after.amount == before.amount
    &&& after.to_address == before.to_address
    &&& after.ts == before.ts
    &&& (match done {
        Some((rq, tr)) => after.request_id == Some(rq) && after.transfer_ids@
            == before.transfer_ids@.push(tr),
        None => after.request_id == before.request_id && after.transfer_ids@
            == before.transfer_ids@,
    })
    &&& (match attempt_request_id {
        Some(a) => after.attempt_request_ids@ == before.attempt_request_ids@.push(a),
        None => after.attempt_request_ids@ == before.attempt_request_ids@,
    })
}

/// The ids of the unclaimed claims, in store (and so time) order.
pub open spec fn unclaimed_ids(claims: Seq<StableClaim>) -> Seq<u64>
    decreases claims.len(),
{
    if claims.len() == 0 {
        Seq::empty()
    } else if claims.last().status is Unclaimed {
        unclaimed_ids(claims.drop_last()).push(claims.last().claim_id)
    } else {
        unclaimed_ids(claims.drop_last())
    }
}

/// Every listed id names an unclaimed claim of the snapshot.
pub proof fn lemma_unclaimed_ids_member(claims: Seq<StableClaim>, p: int)
    requires
        0 <= p < unclaimed_ids(claims).len(),
    ensures
        exists|j: int|
            0 <= j < claims.len() && (#[trigger] claims[j]).claim_id == unclaimed_ids(claims)[p]
                && claims[j].status is Unclaimed,
    decreases claims.len(),
{
    if claims.len() > 0 {
        let ids = unclaimed_ids(claims);
        let idsd = unclaimed_ids(claims.drop_last());
        if claims.last().status is Unclaimed && p == ids.len() - 1 {
            assert(claims[claims.len() - 1].claim_id == ids[p]);
        } else {
            lemma_unclaimed_ids_member(claims.drop_last(), p);
            let j = choose|j: int|
                0 <= j < claims.drop_last().len() && (#[trigger] claims.drop_last()[j]).claim_id
                    == idsd[p] && claims.drop_last()[j].status is Unclaimed;
            assert(claims[j].claim_id == ids[p] && claims[j].status is Unclaimed);
        }
    }
}

/// With pairwise-distinct claim ids, the listed ids are distinct too.
pub proof fn lemma_unclaimed_ids_distinct(claims: Seq<StableClaim>, p: int, q: int)
    requires
        forall|a: int, b: int|
            0 <= a < b < claims.len() ==> claims[a].claim_id != claims[b].claim_id,
        0 <= p < q < unclaimed_ids(claims).len(),
    ensures
        unclaimed_ids(claims)[p] != unclaimed_ids(claims)[q],
    decreases claims.len(),
{
    if claims.len() > 0 {
        let ids = unclaimed_ids(claims);
        let idsd = unclaimed_ids(claims.drop_last());
        if claims.last().status is Unclaimed && q == ids.len() - 1 {
            lemma_unclaimed_ids_member(claims.drop_last(), p);
            let j = choose|j: int|
                0 <= j < claims.drop_last().len() && (#[trigger] claims.drop_last()[j]).claim_id
                    == idsd[p] && claims.drop_last()[j].status is Unclaimed;
            assert(claims[j].claim_id != claims[claims.len() - 1].claim_id);
        } else {
            lemma_unclaimed_ids_distinct(claims.drop_last(), p, q);
        }
    }
}

/// There are no more unclaimed ids than claims.
pub proof fn lemma_unclaimed_ids_len(claims: Seq<StableClaim>)
    ensures
        unclaimed_ids(claims).len() <= claims.len(),
    decreases claims.len(),
{
    if claims.len() > 0 {
        lemma_unclaimed_ids_len(claims.drop_last());
    }
}

} // verus!
