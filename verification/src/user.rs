//! User registry: users are created lazily on their first operation and
//! never deleted by the engine.

use vstd::prelude::*;

verus! {

/// One registered user.
pub struct StableUser {
    pub user_id: u32,
    pub principal_id: String,
    pub ts: u64,
}

/// The registry of all users.
pub struct UserRegistry {
    pub users: Vec<StableUser>,
    pub next_user_id: u32,
}

impl UserRegistry {
    pub open spec fn wf(self) -> bool {
        &&& self.next_user_id >= 1
        &&& forall|i: int|
            0 <= i < self.users@.len() ==> 0 < #[trigger] self.users@[i].user_id
                < self.next_user_id
        &&& forall|i: int, j: int|
            0 <= i < j < self.users@.len() ==> self.users@[i].user_id != self.users@[j].user_id
        &&& forall|i: int, j: int|
            #![trigger self.users@[i], self.users@[j]]
            0 <= i < j < self.users@.len() ==> self.users@[i].principal_id@
                != self.users@[j].principal_id@
    }

    /// The position of a principal in the registry; meaningful only when
    /// the principal is known.
    pub open spec fn spec_principal_index(self, principal: Seq<char>) -> int {
        choose|i: int|
            0 <= i < self.users@.len() && (#[trigger] self.users@[i]).principal_id@ == principal
    }

    /// The user id of a known principal.
    pub open spec fn spec_user_id(self, principal: Seq<char>) -> u32 {
        self.users@[self.spec_principal_index(principal)].user_id
    }

    /// In a well-formed registry a matching principal pins down its index.
    pub proof fn lemma_principal_unique(self, principal: Seq<char>, i: int)
        requires
            self.wf(),
            0 <= i < self.users@.len(),
            self.users@[i].principal_id@ == principal,
        ensures
            self.spec_contains_principal(principal),
            self.spec_principal_index(principal) == i,
            self.spec_user_id(principal) == self.users@[i].user_id,
    {
        assert(self.spec_contains_principal(principal));
        let k = self.spec_principal_index(principal);
        assert(0 <= k < self.users@.len() && self.users@[k].principal_id@ == principal);
        if k != i {
            let x: int = if k < i {
                k
            } else {
                i
            };
            let y: int = if k < i {
                i
            } else {
                k
            };
            assert(self.users@[x].principal_id@ != self.users@[y].principal_id@);
            assert(false);
        }
    }

    pub open spec fn spec_contains_principal(self, principal: Seq<char>) -> bool {
        exists|i: int|
            0 <= i < self.users@.len() && (#[trigger] self.users@[i]).principal_id@ == principal
    }

    pub open spec fn can_insert(self) -> bool {
        self.next_user_id < u32::MAX
    }

    pub fn new() -> (r: UserRegistry)
        ensures
            r.wf(),
            r.users@.len() == 0,
            r.next_user_id == 1,
    {
        UserRegistry { users: Vec::new(), next_user_id: 1 }
    }

    /// The user id of a principal, if the principal is registered.
    pub fn get_user_id_by_principal(&self, principal: &String) -> (r: Option<u32>)
        requires
            self.wf(),
        ensures
            r is Some <==> self.spec_contains_principal(principal@),
            r matches Some(id) ==> id == self.spec_user_id(principal@),
    {
        let mut i: usize = 0;
        while i < self.users.len()
            invariant
                self.wf(),
                i <= self.users@.len(),
                forall|j: int|
                    0 <= j < i ==> (#[trigger] self.users@[j]).principal_id@ != principal@,
            decreases self.users@.len() - i,
        {
            if self.users[i].principal_id == *principal {
                proof {
                    self.lemma_principal_unique(principal@, i as int);
                }
                return Some(self.users[i].user_id);
            }
            proof {
                assert(self.users@[i as int].principal_id@ != principal@);
            }
            i = i + 1;
        }
        None
    }

    /// The stored principal of a user id.
    pub fn get_principal(&self, user_id: u32) -> (r: Option<String>)
        ensures
            r matches Some(p) ==> exists|i: int|
                0 <= i < self.users@.len() && (#[trigger] self.users@[i]).user_id == user_id
                    && self.users@[i].principal_id@ == p@,
    {
        let mut i: usize = 0;
        while i < self.users.len()
            invariant
                i <= self.users@.len(),
            decreases self.users@.len() - i,
        {
            if self.users[i].user_id == user_id {
                proof {
                    assert(self.users@[i as int].user_id == user_id);
                }
                return Some(self.users[i].principal_id.clone());
            }
            i = i + 1;
        }
        None
    }

    /// The id of the caller's user record, created now if this principal
    /// was never seen.
    pub fn insert(&mut self, principal_id: String, ts: u64) -> (r: u32)
        requires
            old(self).wf(),
            old(self).can_insert(),
        ensures
            final(self).wf(),
            exists|i: int|
                0 <= i < final(self).users@.len() && (#[trigger] final(self).users@[i]).user_id
                    == r && final(self).users@[i].principal_id@ == principal_id@,
            old(self).spec_contains_principal(principal_id@) ==> *final(self) == *old(self),
            !old(self).spec_contains_principal(principal_id@) ==> final(self).users@.len() == old(
                self,
            ).users@.len() + 1 && r == old(self).next_user_id,
    {
        let mut i: usize = 0;
        while i < self.users.len()
            invariant
                *self == *old(self),
                old(self).wf(),
                old(self).can_insert(),
                i <= self.users@.len(),
                forall|j: int|
                    0 <= j < i ==> (#[trigger] self.users@[j]).principal_id@ != principal_id@,
            decreases self.users@.len() - i,
        {
            if self.users[i].principal_id == principal_id {
                proof {
                    assert(self.users@[i as int].principal_id@ == principal_id@);
                }
                return self.users[i].user_id;
            }
            proof {
                assert(self.users@[i as int].principal_id@ != principal_id@);
            }
            i = i + 1;
        }
        let user_id = self.next_user_id;
        let user = StableUser { user_id, principal_id, ts };
        self.users.push(user);
        self.next_user_id = user_id + 1;
        proof {
            let s = self.users@;
            assert(s[s.len() - 1].user_id == user_id);
            assert(s[s.len() - 1].principal_id@ == principal_id@);
            assert forall|a: int, b: int|
                0 <= a < b < s.len() implies s[a].user_id != s[b].user_id by {
                assert(s[a] == old(self).users@[a]);
                if b < s.len() - 1 {
                    assert(s[b] == old(self).users@[b]);
                } else {
                    assert(0 < old(self).users@[a].user_id < user_id);
                }
            }
            assert forall|a: int|
                0 <= a < s.len() implies 0 < #[trigger] s[a].user_id < self.next_user_id by {
                if a < s.len() - 1 {
                    assert(s[a] == old(self).users@[a]);
                    assert(0 < old(self).users@[a].user_id < user_id);
                }
            }
            assert forall|a: int, b: int|
                #![trigger s[a], s[b]]
                0 <= a < b < s.len() implies s[a].principal_id@ != s[b].principal_id@ by {
                assert(s[a] == old(self).users@[a]);
                if b < s.len() - 1 {
                    assert(s[b] == old(self).users@[b]);
                }
            }
        }
        user_id
    }
}

} // verus!
