//! The in-memory user store: a keyed collection of records with a
//! next-id counter, enforcing id uniqueness, email uniqueness, record
//! validity, and a fixed capacity.

use vstd::prelude::*;
use crate::chars::str_eq;
use crate::user::{User, UserError, UserView};

verus! {

/// Upper bound on how many records the store holds at once.
pub const MAX_USERS: usize = 1000;

/// Whether some record in the sequence carries the given id.
spec fn has_id(s: Seq<User>, id: u32) -> bool {
    exists|i: int| 0 <= i < s.len() && s[i]@.id == id
}

/// The index of the record with the given id, when one exists.
spec fn idx_of(s: Seq<User>, id: u32) -> int {
    choose|i: int| 0 <= i < s.len() && s[i]@.id == id
}

/// Whether the ids of the sequence are pairwise distinct.
spec fn unique_ids(s: Seq<User>) -> bool {
    forall|i: int, j: int| 0 <= i < j < s.len() ==> s[i]@.id != s[j]@.id
}

/// Whether some stored record carries the given email.
pub open spec fn has_email(m: Map<u32, UserView>, email: Seq<char>) -> bool {
    exists|id: u32| m.contains_key(id) && m[id].email == email
}

/// In a sequence of pairwise-distinct ids, the index found for the id
/// of position `i` is `i` itself.
proof fn lemma_idx_at(s: Seq<User>, i: int)
    requires
        unique_ids(s),
        0 <= i < s.len(),
    ensures
        has_id(s, s[i]@.id),
        idx_of(s, s[i]@.id) == i,
{
    assert(has_id(s, s[i]@.id));
    let j = idx_of(s, s[i]@.id);
    assert(0 <= j < s.len() && s[j]@.id == s[i]@.id);
    if j < i {
        assert(s[j]@.id != s[i]@.id);
        assert(false);
    } else if i < j {
        assert(s[i]@.id != s[j]@.id);
        assert(false);
    }
}

/// An in-memory keyed collection of user records and the next-id
/// counter.
pub struct UserService {
    users: Vec<User>,
    next_id: u32,
}

impl UserService {
    /// The stored records, keyed by id.
    pub closed spec fn contents(self) -> Map<u32, UserView> {
        Map::new(
            |id: u32| has_id(self.users@, id),
            |id: u32| self.users@[idx_of(self.users@, id)]@,
        )
    }

    /// How many records the store holds.
    pub closed spec fn size(self) -> nat {
        self.users@.len()
    }

    /// The value the next generated id will take.
    pub closed spec fn counter(self) -> u32 {
        self.next_id
    }

    /// Well-formedness: ids and emails are pairwise distinct, every
    /// stored record is valid, and the size stays within capacity.
    pub closed spec fn wf(self) -> bool {
        &&& unique_ids(self.users@)
        &&& forall|i: int, j: int|
            0 <= i < j < self.users@.len() ==> self.users@[i]@.email != self.users@[j]@.email
        &&& forall|i: int| 0 <= i < self.users@.len() ==> (#[trigger] self.users@[i]).valid()
        &&& self.users@.len() <= MAX_USERS
    }

    /// Creates an empty store whose counter starts at one.
    pub fn new() -> (s: UserService)
        ensures
            s.wf(),
            s.contents() == Map::<u32, UserView>::empty(),
            s.size() == 0,
            s.counter() == 1,
    {
        let s = UserService { users: Vec::new(), next_id: 1 };
        proof {
            assert(s.contents() =~= Map::<u32, UserView>::empty());
        }
        s
    }

    /// Returns the counter and advances it by one; ids are handed out
    /// in increasing order and never reused.
    pub fn generate_id(&mut self) -> (id: u32)
        requires
            old(self).counter() < u32::MAX,
        ensures
            id == old(self).counter(),
            final(self).counter() == old(self).counter() + 1,
            final(self).contents() == old(self).contents(),
            final(self).size() == old(self).size(),
            final(self).wf() == old(self).wf(),
    {
        let id = self.next_id;
        self.next_id = self.next_id + 1;
        proof {
            assert(self.contents() =~= old(self).contents());
        }
        id
    }

    /// The number of records currently stored.
    pub fn len(&self) -> (n: usize)
        ensures
            n == self.size(),
    {
        self.users.len()
    }

    /// Looks a record up by id; returns it exactly when the id is
    /// present.
    pub fn find_by_id(&self, id: u32) -> (r: Option<&User>)
        requires
            self.wf(),
        ensures
            r matches Some(u) ==> self.contents().contains_key(id) && u@ == self.contents()[id]
                && u@.id == id,
            r is None ==> !self.contents().contains_key(id),
    {
        let mut i: usize = 0;
        while i < self.users.len()
            invariant
                self.wf(),
                i <= self.users@.len(),
                forall|j: int| 0 <= j < i ==> self.users@[j]@.id != id,
            decreases self.users@.len() - i,
        {
            if self.users[i].id == id {
                proof {
                    lemma_idx_at(self.users@, i as int);
                }
                return Some(&self.users[i]);
            }
            i = i + 1;
        }
        None
    }

    /// Looks a record up by email: returns a stored record with that
    /// email exactly when one exists.
    pub fn find_by_email(&self, email: &str) -> (r: Option<&User>)
        requires
            self.wf(),
        ensures
            r is Some <==> has_email(self.contents(), email@),
            r matches Some(u) ==> self.contents().contains_key(u@.id) && self.contents()[u@.id]
                == u@ && u@.email == email@,
    {
        let mut i: usize = 0;
        while i < self.users.len()
            invariant
                self.wf(),
                i <= self.users@.len(),
                forall|j: int| 0 <= j < i ==> self.users@[j]@.email != email@,
            decreases self.users@.len() - i,
        {
            if str_eq(self.users[i].email.as_str(), email) {
                proof {
                    lemma_idx_at(self.users@, i as int);
                    assert(self.contents().contains_key(self.users@[i as int]@.id));
                    assert(self.contents()[self.users@[i as int]@.id].email == email@);
                    assert(has_email(self.contents(), email@));
                }
                return Some(&self.users[i]);
            }
            i = i + 1;
        }
        proof {
            assert forall|id: u32| self.contents().contains_key(id) implies (self.contents()[id].email
                != email@) by {
                let j = idx_of(self.users@, id);
                assert(0 <= j < self.users@.len() && self.users@[j]@.id == id);
            }
        }
        None
    }

    /// Inserts the record under its id. Fails with `CapacityExceeded`
    /// when the store is full and with `AlreadyExists` when a stored
    /// record already carries the same email; otherwise it succeeds,
    /// silently replacing any record that carried the same id.
    pub fn save(&mut self, user: User) -> (r: Result<(), UserError>)
        requires
            old(self).wf(),
            user.valid(),
        ensures
            final(self).wf(),
            final(self).counter() == old(self).counter(),
            old(self).size() >= MAX_USERS ==> (r matches Err(e) && e == UserError::CapacityExceeded
                && final(self).contents() == old(self).contents() && final(self).size() == old(
                self,
            ).size()),
            old(self).size() < MAX_USERS && has_email(old(self).contents(), user@.email) ==> (
            r matches Err(e) && e == UserError::AlreadyExists && final(self).contents() == old(
                self,
            ).contents() && final(self).size() == old(self).size()),
            old(self).size() < MAX_USERS && !has_email(old(self).contents(), user@.email) ==> (
            r is Ok && final(self).contents() == old(self).contents().insert(user@.id, user@)
                && final(self).size() == old(self).size() + (if old(self).contents().contains_key(
                user@.id,
            ) {
                0int
            } else {
                1int
            })),
    {
        if self.users.len() >= MAX_USERS {
            return Err(UserError::CapacityExceeded);
        }
        if self.find_by_email(user.email.as_str()).is_some() {
            return Err(UserError::AlreadyExists);
        }
        proof {
            assert forall|k: int| 0 <= k < self.users@.len() implies self.users@[k]@.email
                != user@.email by {
                lemma_idx_at(self.users@, k);
                assert(self.contents().contains_key(self.users@[k]@.id));
                assert(self.contents()[self.users@[k]@.id] == self.users@[k]@);
            }
        }
        let ghost pre = *self;
        let mut i: usize = 0;
        while i < self.users.len()
            invariant
                *self == pre,
                pre == *old(self),
                pre.wf(),
                user.valid(),
                pre.users@.len() < MAX_USERS,
                forall|k: int| 0 <= k < pre.users@.len() ==> pre.users@[k]@.email != user@.email,
                i <= pre.users@.len(),
                forall|j: int| 0 <= j < i ==> pre.users@[j]@.id != user@.id,
            decreases pre.users@.len() - i,
        {
            if self.users[i].id == user.id {
                proof {
                    lemma_idx_at(pre.users@, i as int);
                }
                self.users.set(i, user);
                proof {
                    let new = self.users@;
                    let target = pre.contents().insert(new[i as int]@.id, new[i as int]@);
                    assert forall|k: int| 0 <= k < new.len() implies new[k]@.id
                        == pre.users@[k]@.id by {}
                    assert forall|a: int, b: int| 0 <= a < b < new.len() implies new[a]@.id
                        != new[b]@.id by {
                        assert(new[a]@.id == pre.users@[a]@.id);
                        assert(new[b]@.id == pre.users@[b]@.id);
                    }
                    assert forall|a: int, b: int| 0 <= a < b < new.len() implies new[a]@.email
                        != new[b]@.email by {
                        if a != i && b != i {
                            assert(new[a] == pre.users@[a]);
                            assert(new[b] == pre.users@[b]);
                        }
                    }
                    assert forall|a: int| 0 <= a < new.len() implies (#[trigger] new[a]).valid()
                        by {
                        if a != i {
                            assert(new[a] == pre.users@[a]);
                        }
                    }
                    assert(self.wf());
                    lemma_idx_at(new, i as int);
                    assert forall|k: u32| has_id(new, k) <==> has_id(pre.users@, k) by {
                        if has_id(new, k) {
                            let j = choose|j: int| 0 <= j < new.len() && new[j]@.id == k;
                            assert(pre.users@[j]@.id == k);
                        }
                        if has_id(pre.users@, k) {
                            let j = choose|j: int|
                                0 <= j < pre.users@.len() && pre.users@[j]@.id == k;
                            assert(new[j]@.id == k);
                        }
                    }
                    assert forall|k: u32| self.contents().dom().contains(k) implies (self.contents()[k]
                        == target[k]) by {
                        if k == new[i as int]@.id {
                            assert(self.contents()[k] == new[i as int]@);
                        } else {
                            let j = idx_of(new, k);
                            assert(0 <= j < new.len() && new[j]@.id == k);
                            assert(j != i);
                            assert(new[j] == pre.users@[j]);
                            lemma_idx_at(pre.users@, j);
                            assert(target[k] == pre.contents()[k]);
                        }
                    }
                    assert(self.contents().dom() =~= target.dom());
                    assert(self.contents() =~= target);
                }
                return Ok(());
            }
            i = i + 1;
        }
        proof {
            assert(!has_id(pre.users@, user@.id));
        }
        self.users.push(user);
        proof {
            let new = self.users@;
            let target = pre.contents().insert(new[new.len() - 1]@.id, new[new.len() - 1]@);
            let n = pre.users@.len() as int;
            assert(new[n]@ == user@);
            assert(self.wf());
            lemma_idx_at(new, n);
            assert forall|k: u32| has_id(new, k) <==> (has_id(pre.users@, k) || k == user@.id) by {
                if has_id(new, k) {
                    let j = choose|j: int| 0 <= j < new.len() && new[j]@.id == k;
                    if j < n {
                        assert(pre.users@[j]@.id == k);
                    }
                }
                if has_id(pre.users@, k) {
                    let j = choose|j: int| 0 <= j < pre.users@.len() && pre.users@[j]@.id == k;
                    assert(new[j]@.id == k);
                }
            }
            assert forall|k: u32| self.contents().dom().contains(k) implies self.contents()[k]
                == target[k] by {
                if k == user@.id {
                    assert(self.contents()[k] == new[n]@);
                } else {
                    let j = idx_of(new, k);
                    assert(0 <= j < new.len() && new[j]@.id == k);
                    assert(j != n);
                    assert(new[j] == pre.users@[j]);
                    lemma_idx_at(pre.users@, j);
                    assert(target[k] == pre.contents()[k]);
                }
            }
            assert(self.contents().dom() =~= target.dom());
            assert(self.contents() =~= target);
        }
        Ok(())
    }

    /// Removes the record with the given id, failing with `NotFound`
    /// when the id is absent.
    pub fn delete(&mut self, id: u32) -> (r: Result<(), UserError>)
        requires
            old(self).wf(),
        ensures
            final(self).wf(),
            final(self).counter() == old(self).counter(),
            old(self).contents().contains_key(id) ==> (r is Ok && final(self).contents() == old(
                self,
            ).contents().remove(id) && final(self).size() == old(self).size() - 1),
            !old(self).contents().contains_key(id) ==> (r matches Err(e) && e == UserError::NotFound
                && final(self).contents() == old(self).contents() && final(self).size() == old(
                self,
            ).size()),
    {
        let ghost pre = *self;
        let mut i: usize = 0;
        while i < self.users.len()
            invariant
                *self == pre,
                pre == *old(self),
                pre.wf(),
                i <= pre.users@.len(),
                forall|j: int| 0 <= j < i ==> pre.users@[j]@.id != id,
            decreases pre.users@.len() - i,
        {
            if self.users[i].id == id {
                proof {
                    lemma_idx_at(pre.users@, i as int);
                }
                let _removed = self.users.remove(i);
                proof {
                    let new = self.users@;
                    let target = pre.contents().remove(id);
                    pre.users@.remove_ensures(i as int);
                    assert(new == pre.users@.remove(i as int));
                    assert forall|a: int, b: int| 0 <= a < b < new.len() implies new[a]@.id
                        != new[b]@.id && new[a]@.email != new[b]@.email by {
                        let a0 = if a < i { a } else { a + 1 };
                        let b0 = if b < i { b } else { b + 1 };
                        assert(new[a] == pre.users@[a0]);
                        assert(new[b] == pre.users@[b0]);
                    }
                    assert forall|a: int| 0 <= a < new.len() implies (#[trigger] new[a]).valid() by {
                        let a0 = if a < i { a } else { a + 1 };
                        assert(new[a] == pre.users@[a0]);
                    }
                    assert(self.wf());
                    assert forall|k: u32| has_id(new, k) <==> (has_id(pre.users@, k) && k != id) by {
                        if has_id(new, k) {
                            let j = choose|j: int| 0 <= j < new.len() && new[j]@.id == k;
                            let j0 = if j < i { j } else { j + 1 };
                            assert(pre.users@[j0]@.id == k);
                            if k == id {
                                lemma_idx_at(pre.users@, j0);
                                lemma_idx_at(pre.users@, i as int);
                                assert(false);
                            }
                        }
                        if has_id(pre.users@, k) && k != id {
                            let j = choose|j: int|
                                0 <= j < pre.users@.len() && pre.users@[j]@.id == k;
                            assert(j != i);
                            if j < i {
                                assert(new[j]@.id == k);
                            } else {
                                assert(new[j - 1]@.id == k);
                            }
                        }
                    }
                    assert forall|k: u32| self.contents().dom().contains(k) implies (self.contents()[k]
                        == target[k]) by {
                        let j = idx_of(new, k);
                        assert(0 <= j < new.len() && new[j]@.id == k);
                        let j0 = if j < i { j } else { j + 1 };
                        assert(new[j] == pre.users@[j0]);
                        lemma_idx_at(pre.users@, j0);
                        assert(target[k] == pre.contents()[k]);
                    }
                    assert(self.contents().dom() =~= target.dom());
                    assert(self.contents() =~= target);
                }
                return Ok(());
            }
            i = i + 1;
        }
        proof {
            assert(!has_id(pre.users@, id));
        }
        Err(UserError::NotFound)
    }
}

/// No two simultaneously-stored records share an email: in a
/// well-formed store, two stored keys carrying the same email are the
/// same key.
pub proof fn lemma_emails_unique(s: UserService, id1: u32, id2: u32)
    requires
        s.wf(),
        s.contents().contains_key(id1),
        s.contents().contains_key(id2),
        s.contents()[id1].email == s.contents()[id2].email,
    ensures
        id1 == id2,
{
    let j1 = idx_of(s.users@, id1);
    assert(0 <= j1 < s.users@.len() && s.users@[j1]@.id == id1);
    let j2 = idx_of(s.users@, id2);
    assert(0 <= j2 < s.users@.len() && s.users@[j2]@.id == id2);
    assert(s.contents()[id1] == s.users@[j1]@);
    assert(s.contents()[id2] == s.users@[j2]@);
    if j1 < j2 {
        assert(s.users@[j1]@.email != s.users@[j2]@.email);
        assert(false);
    } else if j2 < j1 {
        assert(s.users@[j2]@.email != s.users@[j1]@.email);
        assert(false);
    }
}

/// Every stored record is keyed by its own id.
pub proof fn lemma_key_matches_id(s: UserService, id: u32)
    requires
        s.wf(),
        s.contents().contains_key(id),
    ensures
        s.contents()[id].id == id,
{
    let j = idx_of(s.users@, id);
    assert(0 <= j < s.users@.len() && s.users@[j]@.id == id);
}

/// After a successful save of a record, lookup by its id finds an
/// equal record, and lookup by its email finds a record with that
/// email: a successful `save` leaves the contents at
/// `pre.insert(u.id, u)`, which `find_by_id` and `find_by_email` read
/// back.
pub proof fn lemma_lookup_after_save(pre: Map<u32, UserView>, u: UserView)
    ensures
        pre.insert(u.id, u).contains_key(u.id),
        pre.insert(u.id, u)[u.id] == u,
        has_email(pre.insert(u.id, u), u.email),
{
    let post = pre.insert(u.id, u);
    assert(post.contains_key(u.id) && post[u.id].email == u.email);
    assert(has_email(post, u.email));
}

} // verus!
