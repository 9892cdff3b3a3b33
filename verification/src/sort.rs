//! Ordering entries by a numeric key.

use vstd::prelude::*;

verus! {

/// Keys strictly increase along the sequence.
pub open spec fn strictly_sorted<T>(s: Seq<(u64, T)>) -> bool {
    forall|i: int, j: int| 0 <= i < j < s.len() ==> s[i].0 < s[j].0
}

/// No two entries share a key.
pub open spec fn distinct_keys<T>(s: Seq<(u64, T)>) -> bool {
    forall|i: int, j: int| 0 <= i < s.len() && 0 <= j < s.len() && i != j ==> s[i].0 != s[j].0
}

/// The entries of `v` in increasing key order.
pub fn sort_by_key<T>(v: Vec<(u64, T)>) -> (r: Vec<(u64, T)>)
    requires
        distinct_keys(v@),
    ensures
        strictly_sorted(r@),
        r@.len() == v@.len(),
        forall|x: (u64, T)| r@.contains(x) <==> v@.contains(x),
{
    let mut v = v;
    let ghost v0 = v@;
    let mut r: Vec<(u64, T)> = Vec::new();
    while v.len() > 0
        invariant
            strictly_sorted(r@),
            distinct_keys(v0),
            r@.len() + v@.len() == v0.len(),
            v@ == v0.take(v@.len() as int),
            forall|x: (u64, T)| r@.contains(x) <==> v0.skip(v@.len() as int).contains(x),
        decreases v@.len(),
    {
        let ghost n = v@.len();
        let x = v.pop().unwrap();
        assert(x == v0[n - 1]);
        assert(v@ =~= v0.take(n - 1));
        let mut p: usize = 0;
        while p < r.len() && r[p].0 < x.0
            invariant
                p <= r@.len(),
                forall|i: int| 0 <= i < p ==> r@[i].0 < x.0,
            decreases r@.len() - p,
        {
            p = p + 1;
        }
        proof {
            // x's key differs from every key already placed
            assert forall|i: int| 0 <= i < r@.len() implies r@[i].0 != x.0 by {
                assert(r@.contains(r@[i]));
                assert(v0.skip(n as int).contains(r@[i]));
                let k = choose|k: int| #![trigger v0.skip(n as int)[k]] 0 <= k < v0.skip(n as int).len() && v0.skip(n as int)[k] == r@[i];
                assert(v0[n + k] == r@[i]);
                assert(n - 1 != n + k);
            }
        }
        let ghost r_old = r@;
        r.insert(p, x);
        proof {
            assert(r@ =~= r_old.insert(p as int, x));
            assert forall|i: int, j: int| 0 <= i < j < r@.len() implies r@[i].0 < r@[j].0 by {
                if j < p {
                } else if j == p {
                } else if i < p {
                    assert(r_old[j - 1].0 != x.0);
                    if p < r_old.len() {
                        assert(r_old[p as int].0 >= x.0);
                        assert(r_old[p as int].0 != x.0);
                    }
                } else if i == p {
                    assert(r_old[p as int].0 >= x.0);
                    assert(r_old[p as int].0 != x.0);
                } else {
                }
            }
            assert(v0.skip(n - 1) =~= seq![x] + v0.skip(n as int));
            assert forall|y: (u64, T)| r@.contains(y) <==> v0.skip(n - 1).contains(y) by {
                if r@.contains(y) {
                    let k = choose|k: int| 0 <= k < r@.len() && r@[k] == y;
                    if k != p {
                        let kk = if k < p { k } else { k - 1 };
                        assert(r_old[kk] == y);
                        assert(r_old.contains(y));
                        assert(v0.skip(n as int).contains(y));
                        let m = choose|m: int| #![trigger v0.skip(n as int)[m]] 0 <= m < v0.skip(n as int).len() && v0.skip(n as int)[m] == y;
                        assert(v0.skip(n - 1)[m + 1] == y);
                    } else {
                        assert(v0.skip(n - 1)[0] == y);
                    }
                }
                if v0.skip(n - 1).contains(y) {
                    let m = choose|m: int| #![trigger v0.skip(n - 1)[m]] 0 <= m < v0.skip(n - 1).len() && v0.skip(n - 1)[m] == y;
                    if m == 0 {
                        assert(r@[p as int] == y);
                    } else {
                        assert(v0.skip(n as int)[m - 1] == y);
                        assert(r_old.contains(y));
                        let k = choose|k: int| 0 <= k < r_old.len() && r_old[k] == y;
                        if k < p {
                            assert(r@[k] == y);
                        } else {
                            assert(r@[k + 1] == y);
                        }
                    }
                }
            }
        }
    }
    assert(v0.skip(0) =~= v0);
    r
}

} // verus!
