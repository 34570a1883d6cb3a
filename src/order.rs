//! Stable ordering of records by an integer key.
use vstd::prelude::*;

verus! {

/// Whether index `a` comes before index `b` when ordering by `keys`
/// (ascending, or descending), equal keys keeping their index order.
pub open spec fn precedes(keys: Seq<u32>, a: int, b: int, descending: bool) -> bool {
    if keys[a] == keys[b] {
        a < b
    } else if descending {
        keys[a] > keys[b]
    } else {
        keys[a] < keys[b]
    }
}

/// `o` lists the indices of `keys`, each once, in the order of a stable sort by key.
pub open spec fn is_stable_order(keys: Seq<u32>, o: Seq<usize>, descending: bool) -> bool {
    &&& o.len() == keys.len()
    &&& forall|k: int| 0 <= k < o.len() ==> #[trigger] o[k] < keys.len()
    &&& forall|k: int, l: int|
        0 <= k < l < o.len() ==> precedes(keys, #[trigger] o[k] as int, #[trigger] o[l] as int, descending)
}

/// Whether a record keyed `b` must come after every earlier record keyed `a`.
fn key_after(a: u32, b: u32, descending: bool) -> (r: bool)
    ensures
        r == (if descending { b < a } else { b > a }),
{
    if descending {
        b < a
    } else {
        b > a
    }
}

/// Computes the stable sort order of `keys`, ascending or descending.
pub fn stable_order(keys: &Vec<u32>, descending: bool) -> (o: Vec<usize>)
    ensures
        is_stable_order(keys@, o@, descending),
{
    let mut o: Vec<usize> = Vec::new();
    let n = keys.len();
    let mut i: usize = 0;
    while i < n
        invariant
            n == keys.len(),
            i <= n,
            o.len() == i,
            forall|k: int| 0 <= k < o.len() ==> #[trigger] o[k] < i,
            forall|k: int, l: int|
                0 <= k < l < o.len() ==> precedes(keys@, #[trigger] o[k] as int, #[trigger] o[l] as int, descending),
        decreases n - i,
    {
        let key = keys[i];
        // the first position holding an index that must come after `i`
        let mut p: usize = 0;
        while p < o.len() && !key_after(key, keys[o[p]], descending)
            invariant
                n == keys.len(),
                i < n,
                key == keys@[i as int],
                p <= o.len(),
                forall|k: int| 0 <= k < o.len() ==> #[trigger] o[k] < i,
                forall|k: int| 0 <= k < p ==> !precedes(keys@, i as int, #[trigger] o[k] as int, descending),
            decreases o.len() - p,
        {
            p = p + 1;
        }
        proof {
            assert forall|k: int| p <= k < o.len() implies precedes(keys@, i as int, #[trigger] o[k] as int, descending) by {
                if k > p {
                    assert(precedes(keys@, o[p as int] as int, o[k] as int, descending));
                }
            }
        }
        let ghost prev = o@;
        o.insert(p, i);
        proof {
            assert forall|k: int, l: int|
                0 <= k < l < o.len() implies precedes(keys@, #[trigger] o[k] as int, #[trigger] o[l] as int, descending) by {
                if l < p {
                    assert(o[k] == prev[k] && o[l] == prev[l]);
                } else if l == p {
                    assert(o[k] == prev[k]);
                    assert(!precedes(keys@, i as int, prev[k] as int, descending));
                } else if k < p {
                    assert(o[k] == prev[k] && o[l] == prev[l - 1]);
                } else if k == p {
                    assert(o[l] == prev[l - 1]);
                } else {
                    assert(o[k] == prev[k - 1] && o[l] == prev[l - 1]);
                    assert(precedes(keys@, prev[k - 1] as int, prev[l - 1] as int, descending));
                }
            }
        }
        i = i + 1;
    }
    o
}

} // verus!
