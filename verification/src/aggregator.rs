//! The counter map one consumer group shares between its receive loop and
//! its periodic reporter.
//!
//! The aggregator owns the association from user identifier to a
//! monotonically growing event count.  Its model is the map the entry
//! list denotes; every mutation is stated against that map.  Mutual
//! exclusion between the receive loop and the reporter is the shell's
//! duty (a lock around the whole aggregator); the contracts here say what
//! each serialized operation does, so that no serialized increment is
//! ever lost.

use vstd::prelude::*;

verus! {

/// The count an entry list associates with `u`: the latest entry wins.
pub open spec fn lookup(s: Seq<(u32, u64)>, u: u32) -> Option<u64>
    decreases s.len(),
{
    if s.len() == 0 {
        None
    } else if s.last().0 == u {
        Some(s.last().1)
    } else {
        lookup(s.drop_last(), u)
    }
}

/// Entry lists with pairwise distinct keys.
pub open spec fn distinct_keys(s: Seq<(u32, u64)>) -> bool {
    forall|i: int, j: int| 0 <= i < j < s.len() ==> (#[trigger] s[i]).0 != (#[trigger] s[j]).0
}

/// The count a map records for `u`; zero for a user never seen.
pub open spec fn count_of(m: Map<u32, u64>, u: u32) -> u64 {
    if m.contains_key(u) {
        m[u]
    } else {
        0
    }
}

/// One more event for a user: counts grow monotonically and saturate at
/// the top of the counter range instead of wrapping.
pub open spec fn bump(c: u64) -> u64 {
    if c == u64::MAX {
        c
    } else {
        (c + 1) as u64
    }
}

/// In a list with distinct keys, the entry at `i` is what lookup finds.
proof fn lemma_lookup_found(s: Seq<(u32, u64)>, i: int)
    requires
        distinct_keys(s),
        0 <= i < s.len(),
    ensures
        lookup(s, s[i].0) == Some(s[i].1),
    decreases s.len(),
{
    if i == s.len() - 1 {
    } else {
        assert(s.last().0 != s[i].0);
        assert(s.drop_last()[i] == s[i]);
        lemma_lookup_found(s.drop_last(), i);
    }
}

/// A key under no entry has no count.
proof fn lemma_lookup_absent(s: Seq<(u32, u64)>, u: u32)
    requires
        forall|i: int| 0 <= i < s.len() ==> (#[trigger] s[i]).0 != u,
    ensures
        lookup(s, u) == None::<u64>,
    decreases s.len(),
{
    if s.len() > 0 {
        lemma_lookup_absent(s.drop_last(), u);
    }
}

/// Updating the entry at `i` in place changes exactly that key's count.
proof fn lemma_lookup_update(s: Seq<(u32, u64)>, i: int, c: u64, v: u32)
    requires
        distinct_keys(s),
        0 <= i < s.len(),
    ensures
        lookup(s.update(i, (s[i].0, c)), v) == if v == s[i].0 {
            Some(c)
        } else {
            lookup(s, v)
        },
    decreases s.len(),
{
    let t = s.update(i, (s[i].0, c));
    if i == s.len() - 1 {
        assert(t.last() == (s[i].0, c));
        assert(t.drop_last() =~= s.drop_last());
    } else {
        assert(t.last() == s.last());
        assert(s.last().0 != s[i].0);
        assert(t.drop_last() =~= s.drop_last().update(i, (s[i].0, c)));
        assert(s.drop_last()[i] == s[i]);
        lemma_lookup_update(s.drop_last(), i, c, v);
    }
}

/// Appending a fresh entry changes exactly that key's count.
proof fn lemma_lookup_push(s: Seq<(u32, u64)>, u: u32, c: u64, v: u32)
    ensures
        lookup(s.push((u, c)), v) == if v == u {
            Some(c)
        } else {
            lookup(s, v)
        },
{
    assert(s.push((u, c)).last() == (u, c));
    assert(s.push((u, c)).drop_last() =~= s);
}

/// The map an entry list denotes.
pub open spec fn entries_view(s: Seq<(u32, u64)>) -> Map<u32, u64> {
    Map::new(
        |u: u32| lookup(s, u) is Some,
        |u: u32|
            match lookup(s, u) {
                Some(c) => c,
                None => 0,
            },
    )
}

/// The concurrency-safe counter map of one consumer group.
pub struct Aggregator {
    entries: Vec<(u32, u64)>,
}

impl View for Aggregator {
    type V = Map<u32, u64>;

    closed spec fn view(&self) -> Map<u32, u64> {
        entries_view(self.entries@)
    }
}

impl Aggregator {
    /// Each user has at most one entry.
    pub closed spec fn wf(&self) -> bool {
        distinct_keys(self.entries@)
    }

    /// A fresh aggregator: no user has been counted.
    pub fn new() -> (a: Aggregator)
        ensures
            a.wf(),
            a@ == Map::<u32, u64>::empty(),
    {
        let a = Aggregator { entries: Vec::new() };
        proof {
            assert(a@ =~= Map::<u32, u64>::empty());
        }
        a
    }

    /// Serialized read-modify-write of one user's count.
    pub fn increment(&mut self, user_id: u32)
        requires
            old(self).wf(),
        ensures
            final(self).wf(),
            final(self)@ == old(self)@.insert(user_id, bump(count_of(old(self)@, user_id))),
    {
        let ghost s0 = self.entries@;
        let n = self.entries.len();
        let mut i: usize = 0;
        while i < n
            invariant
                n == self.entries@.len(),
                0 <= i <= n,
                forall|j: int| 0 <= j < i ==> (#[trigger] self.entries@[j]).0 != user_id,
                self.entries@ == s0,
                old(self).entries@ == s0,
                distinct_keys(s0),
            decreases n - i,
        {
            if self.entries[i].0 == user_id {
                let c = self.entries[i].1;
                let nc = if c == u64::MAX {
                    c
                } else {
                    c + 1
                };
                self.entries.set(i, (user_id, nc));
                proof {
                    lemma_lookup_found(s0, i as int);
                    assert(self.entries@ =~= s0.update(i as int, (s0[i as int].0, nc)));
                    lemma_lookup_update(s0, i as int, nc, user_id);
                    assert(lookup(self.entries@, user_id) == Some(nc));
                    assert forall|v: u32| v != user_id implies lookup(self.entries@, v) == lookup(
                        s0,
                        v,
                    ) by {
                        lemma_lookup_update(s0, i as int, nc, v);
                    }
                    assert(distinct_keys(self.entries@));
                    assert(lookup(s0, user_id) == Some(c));
                    assert(old(self)@.contains_key(user_id));
                    assert(count_of(old(self)@, user_id) == c);
                    assert(nc == bump(count_of(old(self)@, user_id)));
                    let m1 = old(self)@.insert(user_id, nc);
                    assert forall|v: u32| self@.contains_key(v) implies m1.contains_key(v) by {}
                    assert forall|v: u32| m1.contains_key(v) implies self@.contains_key(v) by {}
                    assert forall|v: u32| m1.contains_key(v) implies self@[v] == m1[v] by {}
                    assert(self@ =~= m1);
                }
                return ;
            }
            i = i + 1;
        }
        self.entries.push((user_id, 1));
        proof {
            lemma_lookup_absent(s0, user_id);
            assert(forall|v: u32| v != user_id ==> lookup(self.entries@, v) == lookup(s0, v)) by {
                assert forall|v: u32| v != user_id implies lookup(self.entries@, v) == lookup(
                    s0,
                    v,
                ) by {
                    lemma_lookup_push(s0, user_id, 1, v);
                }
            }
            lemma_lookup_push(s0, user_id, 1, user_id);
            assert(distinct_keys(self.entries@));
            assert(self@ =~= old(self)@.insert(user_id, bump(count_of(old(self)@, user_id))));
        }
    }

    /// The count recorded for one user.
    pub fn count(&self, user_id: u32) -> (c: u64)
        requires
            self.wf(),
        ensures
            c == count_of(self@, user_id),
    {
        let n = self.entries.len();
        let mut i: usize = 0;
        while i < n
            invariant
                n == self.entries@.len(),
                0 <= i <= n,
                forall|j: int| 0 <= j < i ==> (#[trigger] self.entries@[j]).0 != user_id,
                self.wf(),
            decreases n - i,
        {
            if self.entries[i].0 == user_id {
                proof {
                    lemma_lookup_found(self.entries@, i as int);
                }
                return self.entries[i].1;
            }
            i = i + 1;
        }
        proof {
            lemma_lookup_absent(self.entries@, user_id);
        }
        0
    }

    /// A point-in-time copy of the counts: the snapshot's entry list
    /// denotes exactly the aggregator's map at the moment of the call.
    pub fn snapshot(&self) -> (r: Vec<(u32, u64)>)
        requires
            self.wf(),
        ensures
            entries_view(r@) == self@,
            distinct_keys(r@),
    {
        let n = self.entries.len();
        let mut r: Vec<(u32, u64)> = Vec::new();
        let mut i: usize = 0;
        while i < n
            invariant
                n == self.entries@.len(),
                0 <= i <= n,
                r@ == self.entries@.subrange(0, i as int),
            decreases n - i,
        {
            r.push(self.entries[i]);
            proof {
                assert(r@ =~= self.entries@.subrange(0, i as int + 1));
            }
            i = i + 1;
        }
        proof {
            assert(r@ =~= self.entries@);
            assert(entries_view(r@) =~= self@);
        }
        r
    }
}

/// The counts after `n_evts` serialized increments for one user.
pub open spec fn apply_increments(m: Map<u32, u64>, u: u32, n_evts: nat) -> Map<u32, u64>
    decreases n_evts,
{
    if n_evts == 0 {
        m
    } else {
        let m1 = apply_increments(m, u, (n_evts - 1) as nat);
        m1.insert(u, bump(count_of(m1, u)))
    }
}

/// No lost updates: as long as every increment is serialized — which the
/// contract of `Aggregator::increment` states of each single call — a run
/// of `n_evts` increments for one user raises that user's count by
/// exactly `n_evts` (below the counter's saturation point) and leaves
/// every other user's count untouched.
pub proof fn lemma_no_lost_updates(m: Map<u32, u64>, u: u32, n_evts: nat)
    requires
        count_of(m, u) + n_evts <= u64::MAX,
    ensures
        count_of(apply_increments(m, u, n_evts), u) == count_of(m, u) + n_evts,
        forall|v: u32| v != u ==> count_of(apply_increments(m, u, n_evts), v) == count_of(m, v),
    decreases n_evts,
{
    if n_evts > 0 {
        lemma_no_lost_updates(m, u, (n_evts - 1) as nat);
    }
}

} // verus!
