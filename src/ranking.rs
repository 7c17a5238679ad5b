//! The leaderboard as a ranked list.
use vstd::prelude::*;
use crate::state::GameState;

verus! {

/// Whether an entry's count is `c`.
pub open spec fn has_count(c: u64) -> spec_fn((u64, u64)) -> bool {
    |e: (u64, u64)| e.1 == c
}

/// The entries of `s` whose count is `c`, in order.
pub open spec fn with_count(s: Seq<(u64, u64)>, c: u64) -> Seq<(u64, u64)> {
    s.filter(has_count(c))
}

/// Counts never increase along `s`.
pub open spec fn counts_descending(s: Seq<(u64, u64)>) -> bool {
    forall|i: int, j: int| 0 <= i < j < s.len() ==> s[i].1 >= s[j].1
}

/// `r` is `s` ordered by count, highest first, with entries of equal count
/// in the order they have in `s`: a stable sort of `s` by descending count.
pub open spec fn is_ranking_of(r: Seq<(u64, u64)>, s: Seq<(u64, u64)>) -> bool {
    &&& counts_descending(r)
    &&& forall|c: u64| #[trigger] with_count(r, c) == with_count(s, c)
}

/// The entries with count `c` of `a + seq![e] + b`, where `b` holds only
/// counts below `e`'s.
proof fn lemma_with_count_insert(a: Seq<(u64, u64)>, e: (u64, u64), b: Seq<(u64, u64)>, c: u64)
    requires
        forall|j: int| 0 <= j < b.len() ==> #[trigger] b[j].1 < e.1,
    ensures
        with_count(a + seq![e] + b, c) == if c == e.1 {
            with_count(a + b, c).push(e)
        } else {
            with_count(a + b, c)
        },
{
    let p = has_count(c);
    Seq::filter_distributes_over_add(a + seq![e], b, p);
    Seq::filter_distributes_over_add(a, b, p);
    a.lemma_filter_push(e, p);
    assert(a + seq![e] =~= a.push(e));
    if c == e.1 {
        assert(b.all(|x: (u64, u64)| !p(x)));
        b.lemma_all_neg_filter_empty(p);
        assert(b.filter(p) =~= Seq::<(u64, u64)>::empty());
        assert(a.filter(p).push(e) + b.filter(p) =~= (a.filter(p) + b.filter(p)).push(e));
    }
}

impl GameState {
    /// The leaderboard as shown to participants: every `(user, count)` entry,
    /// highest count first, ties in table order.
    pub fn leaderboard_ranking(&self) -> (r: Vec<(u64, u64)>)
        ensures
            is_ranking_of(r@, self.leaderboard@),
    {
        let ghost s = self.leaderboard@;
        let n = self.leaderboard.len();
        let mut r: Vec<(u64, u64)> = Vec::new();
        let mut i: usize = 0;
        while i < n
            invariant
                s == self.leaderboard@,
                n == s.len(),
                i <= n,
                counts_descending(r@),
                forall|c: u64| #[trigger] with_count(r@, c) == with_count(s.take(i as int), c),
            decreases n - i,
        {
            let e = self.leaderboard[i];
            let mut p: usize = 0;
            while p < r.len() && r[p].1 >= e.1
                invariant
                    p <= r@.len(),
                    forall|q: int| 0 <= q < p ==> #[trigger] r@[q].1 >= e.1,
                decreases r@.len() - p,
            {
                p = p + 1;
            }
            let ghost r0 = r@;
            r.insert(p, (e.0, e.1));
            proof {
                let a = r0.subrange(0, p as int);
                let b = r0.subrange(p as int, r0.len() as int);
                assert(r@ =~= a + seq![e] + b);
                assert(r0 =~= a + b);
                assert forall|j: int| 0 <= j < b.len() implies #[trigger] b[j].1 < e.1 by {
                    assert(b[j] == r0[p + j]);
                    assert(r0[p as int].1 < e.1);
                }
                let t = s.take(i as int);
                assert(s.take(i + 1) =~= t.push(e));
                assert forall|c: u64| #[trigger]
                    with_count(r@, c) == with_count(s.take(i + 1), c) by {
                    lemma_with_count_insert(a, e, b, c);
                    t.lemma_filter_push(e, has_count(c));
                    assert(with_count(r0, c) == with_count(t, c));
                }
                assert(counts_descending(r@)) by {
                    assert forall|x: int, y: int| 0 <= x < y < r@.len() implies r@[x].1
                        >= r@[y].1 by {
                        if y < p {
                            assert(r@[x] == r0[x] && r@[y] == r0[y]);
                        } else if y == p {
                            assert(r@[x] == r0[x]);
                        } else if x == p {
                            assert(r@[y] == b[y - p - 1]);
                        } else if x < p {
                            assert(r@[x] == r0[x] && r@[y] == b[y - p - 1]);
                        } else {
                            assert(r@[x] == r0[x - 1] && r@[y] == r0[y - 1]);
                        }
                    }
                }
            }
            i = i + 1;
        }
        proof {
            assert(s.take(n as int) =~= s);
        }
        r
    }
}

} // verus!
