//! Expiry of time-limited penalties.
use vstd::prelude::*;
use crate::entries::{assoc_map, keys_unique, lemma_assoc_map};
use crate::state::GameState;

verus! {

/// Whether an entry's penalty has run out at time `now`.
pub open spec fn expired_at(e: (u64, u64), now: u64) -> bool {
    e.1 <= now
}

/// The users of `entries` whose penalties have run out at `now`, in table
/// order.
pub open spec fn expired_users(entries: Seq<(u64, u64)>, now: u64) -> Seq<u64> {
    entries.filter(|e: (u64, u64)| expired_at(e, now)).map_values(|e: (u64, u64)| e.0)
}

/// The penalties of `m` still running at `now`.
pub open spec fn still_running(m: Map<u64, u64>, now: u64) -> Map<u64, u64> {
    Map::new(|k: u64| m.dom().contains(k) && m[k] > now, |k: u64| m[k])
}

impl GameState {
    /// One pass of the penalty scheduler at time `now`: drops every penalty
    /// whose expiry time is at most `now` and returns the users it dropped, in
    /// table order, whose penalty markers are then to be revoked. When nothing
    /// has expired the state is left exactly as it was and nothing need be
    /// written back.
    pub fn expire_penalties(&mut self, now: u64) -> (expired: Vec<u64>)
        requires
            old(self).wf(),
        ensures
            final(self).wf(),
            expired@ == expired_users(old(self).penalty_expirations@, now),
            final(self).penalty_map() == still_running(old(self).penalty_map(), now),
            final(self).last_number == old(self).last_number,
            final(self).last_contributor == old(self).last_contributor,
            final(self).high_score == old(self).high_score,
            final(self).leaderboard == old(self).leaderboard,
            expired@.len() == 0 ==> *final(self) == *old(self),
            (forall|j: int|
                0 <= j < old(self).penalty_expirations@.len() ==> !expired_at(
                    #[trigger] old(self).penalty_expirations@[j],
                    now,
                )) ==> expired@.len() == 0,
    {
        let ghost s = self.penalty_expirations@;
        let n = self.penalty_expirations.len();
        let mut kept: Vec<(u64, u64)> = Vec::new();
        let mut expired: Vec<u64> = Vec::new();
        let mut i: usize = 0;
        proof {
            lemma_assoc_map(s);
        }
        while i < n
            invariant
                s == self.penalty_expirations@,
                n == s.len(),
                i <= n,
                keys_unique(s),
                keys_unique(kept@),
                forall|j: int|
                    0 <= j < kept@.len() ==> #[trigger] assoc_map(s.take(i as int)).dom().contains(
                        kept@[j].0,
                    ),
                assoc_map(kept@) == still_running(assoc_map(s.take(i as int)), now),
                expired@ == expired_users(s.take(i as int), now),
                expired@.len() == 0 ==> kept@ == s.take(i as int),
            decreases n - i,
        {
            let e = self.penalty_expirations[i];
            proof {
                let t = s.take(i as int);
                assert(s.take(i + 1) == t.push(e));
                assert(t.push(e).drop_last() == t);
                lemma_assoc_map(t);
                lemma_assoc_map(t.push(e));
                t.lemma_filter_push(e, |e: (u64, u64)| expired_at(e, now));
                assert(!assoc_map(t).dom().contains(e.0)) by {
                    if assoc_map(t).dom().contains(e.0) {
                        let m = choose|m: int| 0 <= m < t.len() && t[m].0 == e.0;
                        assert(s[m].0 == s[i as int].0);
                    }
                }
            }
            if e.1 <= now {
                expired.push(e.0);
                proof {
                    let t = s.take(i as int);
                    let p = |e: (u64, u64)| expired_at(e, now);
                    assert(t.push(e).filter(p) == t.filter(p).push(e));
                    assert(t.push(e).filter(p).map_values(|e: (u64, u64)| e.0) =~= t.filter(
                        p,
                    ).map_values(|e: (u64, u64)| e.0).push(e.0));
                    assert(assoc_map(kept@) =~= still_running(assoc_map(t.push(e)), now));
                }
            } else {
                let ghost k0 = kept@;
                kept.push((e.0, e.1));
                proof {
                    let t = s.take(i as int);
                    assert(kept@.drop_last() =~= k0);
                    assert(assoc_map(kept@) == assoc_map(k0).insert(e.0, e.1));
                    assert(assoc_map(kept@) =~= still_running(assoc_map(t.push(e)), now));
                    assert forall|j: int| 0 <= j < kept@.len() implies #[trigger] assoc_map(
                        t.push(e),
                    ).dom().contains(kept@[j].0) by {
                        if j < kept@.len() - 1 {
                            assert(kept@[j] == k0[j]);
                            assert(assoc_map(t).dom().contains(k0[j].0));
                        }
                    }
                    assert(keys_unique(kept@)) by {
                        assert forall|a: int, b: int|
                            0 <= a < kept@.len() && 0 <= b < kept@.len() && a != b implies kept@[a].0
                            != kept@[b].0 by {
                            if a < kept@.len() - 1 && b < kept@.len() - 1 {
                                assert(kept@[a] == k0[a] && kept@[b] == k0[b]);
                            } else if a < kept@.len() - 1 {
                                assert(kept@[a] == k0[a]);
                                assert(assoc_map(t).dom().contains(k0[a].0));
                            } else {
                                assert(kept@[b] == k0[b]);
                                assert(assoc_map(t).dom().contains(k0[b].0));
                            }
                        }
                    }
                }
            }
            i = i + 1;
        }
        proof {
            assert(s.take(n as int) =~= s);
            if forall|j: int| 0 <= j < s.len() ==> !expired_at(#[trigger] s[j], now) {
                let p = |e: (u64, u64)| expired_at(e, now);
                assert(s.all(|x: (u64, u64)| !p(x)));
                s.lemma_all_neg_filter_empty(p);
            }
        }
        if expired.len() > 0 {
            self.penalty_expirations = kept;
        }
        expired
    }
}

} // verus!
