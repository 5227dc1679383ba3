//! Chunk indices held in ascending order, each at most once.

use vstd::prelude::*;

verus! {

/// Whether every entry of `s` is below all that follow it.
pub open spec fn ascending(s: Seq<usize>) -> bool {
    forall|i: int, j: int| 0 <= i < j < s.len() ==> s[i] < s[j]
}

/// Two ascending runs with the same entries are one run.
pub proof fn lemma_ascending_unique(a: Seq<usize>, b: Seq<usize>)
    requires
        ascending(a),
        ascending(b),
        forall|x: usize| a.contains(x) <==> b.contains(x),
    ensures
        a == b,
    decreases a.len(),
{
    if a.len() == 0 {
        if b.len() > 0 {
            assert(b.contains(b[0]));
        }
        assert(a =~= b);
    } else {
        assert(a.contains(a.last()));
        assert(b.len() > 0);
        assert(b.contains(b.last()));
        let i = choose|i: int| 0 <= i < b.len() && b[i] == a.last();
        let j = choose|j: int| 0 <= j < a.len() && a[j] == b.last();
        assert(a.last() == b.last()) by {
            if i < b.len() - 1 {
                assert(b[i] < b.last());
            }
            if j < a.len() - 1 {
                assert(a[j] < a.last());
            }
        }
        let a0 = a.drop_last();
        let b0 = b.drop_last();
        assert forall|x: usize| a0.contains(x) <==> b0.contains(x) by {
            if a0.contains(x) {
                let k = choose|k: int| 0 <= k < a0.len() && a0[k] == x;
                assert(a[k] == x && a[k] < a.last());
                assert(a.contains(x));
                let m = choose|m: int| 0 <= m < b.len() && b[m] == x;
                assert(m < b.len() - 1);
                assert(b0[m] == x);
            }
            if b0.contains(x) {
                let k = choose|k: int| 0 <= k < b0.len() && b0[k] == x;
                assert(b[k] == x && b[k] < b.last());
                assert(b.contains(x));
                let m = choose|m: int| 0 <= m < a.len() && a[m] == x;
                assert(m < a.len() - 1);
                assert(a0[m] == x);
            }
        }
        assert(ascending(a0)) by {
            assert forall|i: int, j: int| 0 <= i < j < a0.len() implies a0[i] < a0[j] by {
                assert(a[i] < a[j]);
            }
        }
        assert(ascending(b0)) by {
            assert forall|i: int, j: int| 0 <= i < j < b0.len() implies b0[i] < b0[j] by {
                assert(b[i] < b[j]);
            }
        }
        lemma_ascending_unique(a0, b0);
        assert(a =~= a0.push(a.last()));
        assert(b =~= b0.push(b.last()));
    }
}

/// An ascending run with one more entry: for every ascending run and every
/// key there is the ascending run of the old entries and the key.
pub proof fn lemma_ascending_with(order: Seq<usize>, key: usize) -> (r: Seq<usize>)
    requires
        ascending(order),
    ensures
        ascending(r),
        forall|x: usize| r.contains(x) <==> (order.contains(x) || x == key),
    decreases order.len(),
{
    if order.len() == 0 {
        let r = seq![key];
        assert(r[0] == key);
        r
    } else if order.last() < key {
        let r = order.push(key);
        assert forall|i: int, j: int| 0 <= i < j < r.len() implies r[i] < r[j] by {
            if j == order.len() {
                if i < order.len() - 1 {
                    assert(order[i] < order.last());
                }
            } else {
                assert(order[i] < order[j]);
            }
        }
        assert forall|x: usize| r.contains(x) <==> (order.contains(x) || x == key) by {
            if r.contains(x) {
                let k = choose|k: int| 0 <= k < r.len() && r[k] == x;
                if k < order.len() {
                    assert(order[k] == x);
                }
            }
            if order.contains(x) {
                let k = choose|k: int| 0 <= k < order.len() && order[k] == x;
                assert(r[k] == x);
            }
            if x == key {
                assert(r[order.len() as int] == x);
            }
        }
        r
    } else if order.last() == key {
        assert(order.contains(order.last()));
        order
    } else {
        let rest = order.drop_last();
        let top = order.last();
        assert(ascending(rest)) by {
            assert forall|i: int, j: int| 0 <= i < j < rest.len() implies rest[i] < rest[j] by {
                assert(order[i] < order[j]);
            }
        }
        let below = lemma_ascending_with(rest, key);
        let r = below.push(top);
        assert forall|k: int| 0 <= k < below.len() implies below[k] < top by {
            assert(below.contains(below[k]));
            if rest.contains(below[k]) {
                let m = choose|m: int| 0 <= m < rest.len() && rest[m] == below[k];
                assert(order[m] < order.last());
            }
        }
        assert forall|i: int, j: int| 0 <= i < j < r.len() implies r[i] < r[j] by {
            if j < below.len() {
                assert(below[i] < below[j]);
            }
        }
        assert forall|x: usize| r.contains(x) <==> (order.contains(x) || x == key) by {
            if r.contains(x) {
                let k = choose|k: int| 0 <= k < r.len() && r[k] == x;
                if k < below.len() {
                    assert(below.contains(x));
                    if rest.contains(x) {
                        let m = choose|m: int| 0 <= m < rest.len() && rest[m] == x;
                        assert(order[m] == x);
                    }
                } else {
                    assert(order[order.len() - 1] == x);
                }
            }
            if order.contains(x) {
                let m = choose|m: int| 0 <= m < order.len() && order[m] == x;
                if m < rest.len() {
                    assert(rest[m] == x);
                    assert(rest.contains(x));
                    assert(below.contains(x));
                    let k = choose|k: int| 0 <= k < below.len() && below[k] == x;
                    assert(r[k] == x);
                } else {
                    assert(r[below.len() as int] == x);
                }
            }
            if x == key {
                assert(below.contains(x));
                let k = choose|k: int| 0 <= k < below.len() && below[k] == x;
                assert(r[k] == x);
            }
        }
        r
    }
}

/// The number of entries of an ascending run that are below `key`: the place
/// where `key` stands, or where it would have to be put.
pub fn insertion_point(v: &Vec<usize>, key: usize) -> (p: usize)
    requires
        ascending(v@),
    ensures
        p <= v.len(),
        forall|i: int| 0 <= i < p ==> v@[i] < key,
        forall|i: int| p <= i < v.len() ==> key <= v@[i],
{
    let mut lo: usize = 0;
    let mut hi: usize = v.len();
    while lo < hi
        invariant
            lo <= hi <= v.len(),
            ascending(v@),
            forall|i: int| 0 <= i < lo ==> v@[i] < key,
            forall|i: int| hi <= i < v.len() ==> key <= v@[i],
        decreases hi - lo,
    {
        let mid = lo + (hi - lo) / 2;
        if v[mid] < key {
            lo = mid + 1;
        } else {
            hi = mid;
        }
    }
    lo
}

/// Puts `key` at its place in an ascending run, unless it is there already.
pub fn insert_ascending(v: &mut Vec<usize>, key: usize)
    requires
        ascending(old(v)@),
    ensures
        ascending(final(v)@),
        forall|x: usize| final(v)@.contains(x) <==> (old(v)@.contains(x) || x == key),
{
    let p = insertion_point(v, key);
    if p < v.len() && v[p] == key {
        assert(v@.contains(key));
        return ;
    }
    let ghost before = v@;
    v.insert(p, key);
    proof {
        let after = v@;
        assert(after =~= before.insert(p as int, key));
        assert forall|i: int, j: int| 0 <= i < j < after.len() implies after[i] < after[j] by {
            if j < p {
                assert(after[i] == before[i] && after[j] == before[j]);
            } else if j == p {
                assert(after[i] == before[i]);
            } else if i < p {
                assert(after[i] == before[i] && after[j] == before[j - 1]);
            } else if i == p {
                assert(after[j] == before[j - 1]);
            } else {
                assert(after[i] == before[i - 1] && after[j] == before[j - 1]);
            }
        }
        assert forall|x: usize| after.contains(x) <==> (before.contains(x) || x == key) by {
            if after.contains(x) {
                let k = choose|k: int| 0 <= k < after.len() && after[k] == x;
                if k < p {
                    assert(before[k] == x);
                } else if k > p {
                    assert(before[k - 1] == x);
                }
            }
            if before.contains(x) {
                let k = choose|k: int| 0 <= k < before.len() && before[k] == x;
                if k < p {
                    assert(after[k] == x);
                } else {
                    assert(after[k + 1] == x);
                }
            }
            if x == key {
                assert(after[p as int] == x);
            }
        }
    }
}

} // verus!
