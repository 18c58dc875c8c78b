use vstd::prelude::*;
use vstd::pervasive::VecAdditionalExecFns;
use vstd::string::StringExecFns;
use crate::error::CoreError;

verus! {

/// The grant table: identity key to number of grants currently held.
#[derive(Debug, PartialEq, Eq)]
pub struct LimiterControllerInner {
    pub state: Vec<(String, u64)>,
}

/// The mathematical image of the grant table.
pub open spec fn spec_grant_entries(state: Seq<(String, u64)>) -> Seq<(Seq<char>, u64)> {
    Seq::new(state.len(), |i: int| (state[i].0@, state[i].1))
}

/// Whether some entry carries `key`.
pub open spec fn spec_has_key(entries: Seq<(Seq<char>, u64)>, key: Seq<char>) -> bool {
    exists|i: int| 0 <= i < entries.len() && (#[trigger] entries[i]).0 == key
}

/// The number of grants `key` currently holds: its entry's count, or
/// zero without one.
pub open spec fn spec_grants(entries: Seq<(Seq<char>, u64)>, key: Seq<char>) -> u64 {
    if spec_has_key(entries, key) {
        entries[choose|i: int| 0 <= i < entries.len() && (#[trigger] entries[i]).0 == key].1
    } else {
        0
    }
}

/// Whether no two entries carry the same key.
pub open spec fn spec_keys_unique(entries: Seq<(Seq<char>, u64)>) -> bool {
    forall|i: int, j: int|
        0 <= i < j < entries.len() ==> (#[trigger] entries[i]).0 != (#[trigger] entries[j]).0
}

/// In a table without duplicate keys, the entry at `i` decides the
/// count of its key.
proof fn lemma_grants_at(entries: Seq<(Seq<char>, u64)>, i: int)
    requires
        spec_keys_unique(entries),
        0 <= i < entries.len(),
    ensures
        spec_grants(entries, entries[i].0) == entries[i].1,
        spec_has_key(entries, entries[i].0),
{
    let key = entries[i].0;
    assert(spec_has_key(entries, key));
    let j = choose|j: int| 0 <= j < entries.len() && (#[trigger] entries[j]).0 == key;
    if i != j {
        assert(false);
    }
}

/// Updating the count at `i` changes only that key's count.
proof fn lemma_grants_update(entries: Seq<(Seq<char>, u64)>, i: int, count: u64, q: Seq<char>)
    requires
        spec_keys_unique(entries),
        0 <= i < entries.len(),
    ensures
        spec_keys_unique(entries.update(i, (entries[i].0, count))),
        q == entries[i].0 ==> spec_grants(entries.update(i, (entries[i].0, count)), q) == count,
        q != entries[i].0 ==> spec_grants(entries.update(i, (entries[i].0, count)), q)
            == spec_grants(entries, q),
{
    let updated = entries.update(i, (entries[i].0, count));
    assert forall|x: int, y: int| 0 <= x < y < updated.len() implies (#[trigger] updated[x]).0
        != (#[trigger] updated[y]).0 by {
        assert(updated[x].0 == entries[x].0 && updated[y].0 == entries[y].0);
    }
    if q == entries[i].0 {
        lemma_grants_at(updated, i);
    } else {
        if spec_has_key(entries, q) {
            let j = choose|j: int| 0 <= j < entries.len() && (#[trigger] entries[j]).0 == q;
            assert(updated[j].0 == q);
            lemma_grants_at(updated, j);
            lemma_grants_at(entries, j);
        } else {
            if spec_has_key(updated, q) {
                let j = choose|j: int|
                    0 <= j < updated.len() && (#[trigger] updated[j]).0 == q;
                assert(entries[j].0 == q);
                assert(false);
            }
        }
    }
}

/// Removing the entry at `i` zeroes its key and touches no other.
proof fn lemma_grants_remove(entries: Seq<(Seq<char>, u64)>, i: int, q: Seq<char>)
    requires
        spec_keys_unique(entries),
        0 <= i < entries.len(),
    ensures
        spec_keys_unique(entries.remove(i)),
        q == entries[i].0 ==> spec_grants(entries.remove(i), q) == 0,
        q != entries[i].0 ==> spec_grants(entries.remove(i), q) == spec_grants(entries, q),
{
    let removed = entries.remove(i);
    assert forall|x: int, y: int| 0 <= x < y < removed.len() implies (#[trigger] removed[x]).0
        != (#[trigger] removed[y]).0 by {
        let xo = if x < i {
            x
        } else {
            x + 1
        };
        let yo = if y < i {
            y
        } else {
            y + 1
        };
        assert(removed[x] == entries[xo] && removed[y] == entries[yo]);
    }
    if q == entries[i].0 {
        if spec_has_key(removed, q) {
            let j = choose|j: int| 0 <= j < removed.len() && (#[trigger] removed[j]).0 == q;
            let jo = if j < i {
                j
            } else {
                j + 1
            };
            assert(removed[j] == entries[jo]);
            assert(false);
        }
    } else {
        if spec_has_key(entries, q) {
            let j = choose|j: int| 0 <= j < entries.len() && (#[trigger] entries[j]).0 == q;
            let jr = if j < i {
                j
            } else {
                j - 1
            };
            assert(removed[jr] == entries[j]);
            lemma_grants_at(removed, jr);
            lemma_grants_at(entries, j);
        } else {
            if spec_has_key(removed, q) {
                let j = choose|j: int|
                    0 <= j < removed.len() && (#[trigger] removed[j]).0 == q;
                let jo = if j < i {
                    j
                } else {
                    j + 1
                };
                assert(removed[j] == entries[jo]);
                assert(false);
            }
        }
    }
}

/// Appending a fresh key leaves every other count unchanged.
proof fn lemma_grants_push(entries: Seq<(Seq<char>, u64)>, key: Seq<char>, count: u64, q: Seq<char>)
    requires
        spec_keys_unique(entries),
        !spec_has_key(entries, key),
    ensures
        spec_keys_unique(entries.push((key, count))),
        q == key ==> spec_grants(entries.push((key, count)), q) == count,
        q != key ==> spec_grants(entries.push((key, count)), q) == spec_grants(entries, q),
{
    let extended = entries.push((key, count));
    assert forall|x: int, y: int| 0 <= x < y < extended.len() implies (#[trigger] extended[x]).0
        != (#[trigger] extended[y]).0 by {
        if y == entries.len() as int {
            assert(extended[x] == entries[x]);
        } else {
            assert(extended[x] == entries[x] && extended[y] == entries[y]);
        }
    }
    if q == key {
        assert(extended[entries.len() as int].0 == key);
        lemma_grants_at(extended, entries.len() as int);
    } else {
        if spec_has_key(entries, q) {
            let j = choose|j: int| 0 <= j < entries.len() && (#[trigger] entries[j]).0 == q;
            assert(extended[j].0 == q);
            lemma_grants_at(extended, j);
            lemma_grants_at(entries, j);
        } else {
            if spec_has_key(extended, q) {
                let j = choose|j: int|
                    0 <= j < extended.len() && (#[trigger] extended[j]).0 == q;
                assert(j < entries.len() ==> entries[j].0 == q);
                assert(j == entries.len() ==> extended[j].0 == key);
                assert(false);
            }
        }
    }
}

/// Bounds how many long-running exports one identity may hold at
/// once.  Acquisition and release mutate the table under one
/// exclusive borrow, so the cap is a hard invariant of the table; the
/// caller serialises access with whatever lock it wraps the controller
/// in.
#[derive(Debug, PartialEq, Eq)]
pub struct LimitController {
    pub max_grants_per_user: u64,
    pub inner: LimiterControllerInner,
}

/// A held grant: dropping it back into `release_grant` frees one slot
/// for its key.
#[derive(Debug, PartialEq, Eq)]
pub struct LimitGrant {
    pub key: String,
}

impl LimitController {
    /// Every key's count is positive, at most the cap, and keyed once.
    pub open spec fn wf(&self) -> bool {
        &&& spec_keys_unique(spec_grant_entries(self.inner.state@))
        &&& forall|i: int|
            0 <= i < self.inner.state@.len() ==> 0 < (#[trigger] spec_grant_entries(
                self.inner.state@,
            )[i]).1 <= self.max_grants_per_user
    }

    /// The number of grants `key` holds.
    pub open spec fn spec_grants_for(&self, key: Seq<char>) -> u64 {
        spec_grants(spec_grant_entries(self.inner.state@), key)
    }

    /// An empty controller with the given cap.
    pub fn new(max_grants_per_user: u64) -> (r: LimitController)
        ensures
            r.wf(),
            r.max_grants_per_user == max_grants_per_user,
            forall|key: Seq<char>| r.spec_grants_for(key) == 0,
    {
        let r = LimitController {
            max_grants_per_user,
            inner: LimiterControllerInner { state: Vec::new() },
        };
        proof {
            assert(spec_grant_entries(r.inner.state@) =~= Seq::<(Seq<char>, u64)>::empty());
            assert forall|key: Seq<char>| r.spec_grants_for(key) == 0 by {
                assert(!spec_has_key(spec_grant_entries(r.inner.state@), key));
            }
        }
        r
    }

    /// Try to take one more grant for `key`.  An identity already at
    /// the cap is rejected with `GrantError`; otherwise its count goes
    /// up by one and a grant handle comes back.  No other key's count
    /// moves either way.
    pub fn new_grant_for_key(&mut self, key: &String) -> (r: Result<LimitGrant, CoreError>)
        requires
            old(self).wf(),
            old(self).max_grants_per_user >= 1,
        ensures
            final(self).wf(),
            final(self).max_grants_per_user == old(self).max_grants_per_user,
            r is Ok <==> old(self).spec_grants_for(key@) < old(self).max_grants_per_user,
            r matches Ok(grant) ==> grant.key@ == key@ && final(self).spec_grants_for(key@)
                == old(self).spec_grants_for(key@) + 1,
            r matches Err(e) ==> (e matches CoreError::GrantError(_, _) && *final(self) == *old(
                self,
            )),
            r matches Err(CoreError::GrantError(k, held)) ==> k@ == key@ && held == old(
                self,
            ).spec_grants_for(key@),
            forall|other: Seq<char>|
                other != key@ ==> final(self).spec_grants_for(other) == old(
                    self,
                ).spec_grants_for(other),
    {
        let ghost entries = spec_grant_entries(self.inner.state@);
        let n: usize = self.inner.state.len();
        let mut i: usize = 0;
        while i < n
            invariant
                i <= n,
                *self == *old(self),
                n == self.inner.state@.len(),
                entries == spec_grant_entries(self.inner.state@),
                forall|k: int| 0 <= k < i ==> (#[trigger] entries[k]).0 != key@,
            decreases n - i,
        {
            if self.inner.state[i].0 == *key {
                assert(entries[i as int].0 == key@);
                proof {
                    lemma_grants_at(entries, i as int);
                }
                let count = self.inner.state[i].1;
                if count >= self.max_grants_per_user {
                    return Err(CoreError::GrantError(key.clone(), count));
                }
                self.inner.state.set(i, (key.clone(), count + 1));
                proof {
                    assert(spec_grant_entries(self.inner.state@) =~= entries.update(
                        i as int,
                        (key@, (count + 1) as u64),
                    ));
                    assert forall|q: Seq<char>| true implies (if q == key@ {
                        spec_grants(spec_grant_entries(self.inner.state@), q) == count + 1
                    } else {
                        spec_grants(spec_grant_entries(self.inner.state@), q) == spec_grants(
                            entries,
                            q,
                        )
                    }) by {
                        lemma_grants_update(entries, i as int, (count + 1) as u64, q);
                    }
                    assert forall|k: int|
                        0 <= k < self.inner.state@.len() implies 0 < (
                    #[trigger] spec_grant_entries(self.inner.state@)[k]).1
                        <= self.max_grants_per_user by {
                        if k != i {
                            assert(spec_grant_entries(self.inner.state@)[k] == entries[k]);
                        }
                    }
                }
                return Ok(LimitGrant { key: key.clone() });
            }
            assert(entries[i as int].0 != key@);
            i = i + 1;
        }
        assert(!spec_has_key(entries, key@));
        assert(self.spec_grants_for(key@) == 0);
        self.inner.state.push((key.clone(), 1));
        proof {
            assert(spec_grant_entries(self.inner.state@) =~= entries.push((key@, 1u64)));
            assert forall|q: Seq<char>| true implies (if q == key@ {
                spec_grants(spec_grant_entries(self.inner.state@), q) == 1
            } else {
                spec_grants(spec_grant_entries(self.inner.state@), q) == spec_grants(entries, q)
            }) by {
                lemma_grants_push(entries, key@, 1u64, q);
            }
            assert forall|k: int|
                0 <= k < self.inner.state@.len() implies 0 < (#[trigger] spec_grant_entries(
                self.inner.state@,
            )[k]).1 <= self.max_grants_per_user by {
                if k != self.inner.state@.len() - 1 {
                    assert(spec_grant_entries(self.inner.state@)[k] == entries[k]);
                }
            }
        }
        Ok(LimitGrant { key: key.clone() })
    }

    /// Hand a grant back: its key's count goes down by one, and the
    /// key leaves the table when the last grant goes.  No other key's
    /// count moves.
    pub fn release_grant(&mut self, grant: LimitGrant)
        requires
            old(self).wf(),
        ensures
            final(self).wf(),
            final(self).max_grants_per_user == old(self).max_grants_per_user,
            old(self).spec_grants_for(grant.key@) > 0 ==> final(self).spec_grants_for(grant.key@)
                == old(self).spec_grants_for(grant.key@) - 1,
            old(self).spec_grants_for(grant.key@) == 0 ==> *final(self) == *old(self),
            forall|other: Seq<char>|
                other != grant.key@ ==> final(self).spec_grants_for(other) == old(
                    self,
                ).spec_grants_for(other),
    {
        let ghost entries = spec_grant_entries(self.inner.state@);
        let n: usize = self.inner.state.len();
        let mut i: usize = 0;
        while i < n
            invariant
                i <= n,
                *self == *old(self),
                n == self.inner.state@.len(),
                entries == spec_grant_entries(self.inner.state@),
                forall|k: int| 0 <= k < i ==> (#[trigger] entries[k]).0 != grant.key@,
            decreases n - i,
        {
            if self.inner.state[i].0 == grant.key {
                assert(entries[i as int].0 == grant.key@);
                proof {
                    lemma_grants_at(entries, i as int);
                }
                let count = self.inner.state[i].1;
                if count == 1 {
                    self.inner.state.remove(i);
                    proof {
                        assert(spec_grant_entries(self.inner.state@) =~= entries.remove(
                            i as int,
                        ));
                        assert forall|q: Seq<char>| true implies (if q == grant.key@ {
                            spec_grants(spec_grant_entries(self.inner.state@), q) == 0
                        } else {
                            spec_grants(spec_grant_entries(self.inner.state@), q)
                                == spec_grants(entries, q)
                        }) by {
                            lemma_grants_remove(entries, i as int, q);
                        }
                        assert forall|k: int|
                            0 <= k < self.inner.state@.len() implies 0 < (
                        #[trigger] spec_grant_entries(self.inner.state@)[k]).1
                            <= self.max_grants_per_user by {
                            let ko = if k < i {
                                k
                            } else {
                                k + 1
                            };
                            assert(spec_grant_entries(self.inner.state@)[k] == entries[ko]);
                        }
                    }
                } else {
                    self.inner.state.set(i, (grant.key, count - 1));
                    proof {
                        assert(spec_grant_entries(self.inner.state@) =~= entries.update(
                            i as int,
                            (grant.key@, (count - 1) as u64),
                        ));
                        assert forall|q: Seq<char>| true implies (if q == grant.key@ {
                            spec_grants(spec_grant_entries(self.inner.state@), q) == count - 1
                        } else {
                            spec_grants(spec_grant_entries(self.inner.state@), q)
                                == spec_grants(entries, q)
                        }) by {
                            lemma_grants_update(entries, i as int, (count - 1) as u64, q);
                        }
                        assert forall|k: int|
                            0 <= k < self.inner.state@.len() implies 0 < (
                        #[trigger] spec_grant_entries(self.inner.state@)[k]).1
                            <= self.max_grants_per_user by {
                            if k != i {
                                assert(spec_grant_entries(self.inner.state@)[k] == entries[k]);
                            }
                        }
                    }
                }
                return ;
            }
            assert(entries[i as int].0 != grant.key@);
            i = i + 1;
        }
        assert(!spec_has_key(entries, grant.key@));
    }
}

} // verus!
