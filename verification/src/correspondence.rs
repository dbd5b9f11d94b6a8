use vstd::prelude::*;

verus! {

/// Source point `j` has a usable correspondence: the search found a target
/// point for it (a non-negative index) and that point is within range.
pub open spec fn is_valid_pair(indices: Seq<i32>, within_range: Seq<bool>, j: int) -> bool {
    indices[j] >= 0 && within_range[j]
}

/// The source points `0..n` whose correspondence is usable, in increasing order.
pub open spec fn valid_pairs_upto(indices: Seq<i32>, within_range: Seq<bool>, n: int) -> Seq<usize>
    decreases n,
{
    if n <= 0 {
        Seq::empty()
    } else if is_valid_pair(indices, within_range, n - 1) {
        valid_pairs_upto(indices, within_range, n - 1).push((n - 1) as usize)
    } else {
        valid_pairs_upto(indices, within_range, n - 1)
    }
}

/// The source points whose nearest-neighbour result is kept for the error
/// estimate: those with a found target (`indices[j] >= 0`) that lies within
/// the distance bound (`within_range[j]`), in increasing order.
pub fn valid_correspondences(indices: &Vec<i32>, within_range: &Vec<bool>) -> (kept: Vec<usize>)
    requires
        indices.len() == within_range.len(),
    ensures
        kept@ == valid_pairs_upto(indices@, within_range@, indices.len() as int),
        forall|k: int|
            0 <= k < kept.len() ==> {
                let j = #[trigger] kept@[k];
                &&& j < indices.len()
                &&& indices@[j as int] >= 0
                &&& within_range@[j as int]
            },
        forall|a: int, b: int| 0 <= a < b < kept.len() ==> #[trigger] kept@[a] < #[trigger] kept@[b],
        forall|j: int|
            0 <= j < indices.len() && indices@[j] >= 0 && #[trigger] within_range@[j] ==> kept@.contains(
                j as usize,
            ),
{
    let mut kept: Vec<usize> = Vec::new();
    for j in 0..indices.len()
        invariant
            indices.len() == within_range.len(),
            kept@ == valid_pairs_upto(indices@, within_range@, j as int),
    {
        if indices[j] >= 0 && within_range[j] {
            kept.push(j);
        }
    }
    proof {
        lemma_valid_pairs_exact(indices@, within_range@, indices.len() as int);
    }
    kept
}

/// The kept source points are exactly those `j < n` with `indices[j] >= 0` and
/// `within_range[j]`, each once, in increasing order: whether `j` is kept
/// depends on `indices[j]` and `within_range[j]` alone.
pub proof fn lemma_valid_pairs_exact(indices: Seq<i32>, within_range: Seq<bool>, n: int)
    requires
        0 <= n <= indices.len(),
        indices.len() == within_range.len(),
        n <= usize::MAX,
    ensures
        forall|k: int|
            0 <= k < valid_pairs_upto(indices, within_range, n).len() ==> {
                let j = #[trigger] valid_pairs_upto(indices, within_range, n)[k];
                &&& j < n
                &&& indices[j as int] >= 0
                &&& within_range[j as int]
            },
        forall|a: int, b: int|
            0 <= a < b < valid_pairs_upto(indices, within_range, n).len() ==>
                #[trigger] valid_pairs_upto(indices, within_range, n)[a]
                    < #[trigger] valid_pairs_upto(indices, within_range, n)[b],
        forall|j: int|
            0 <= j < n && indices[j] >= 0 && #[trigger] within_range[j] ==>
                valid_pairs_upto(indices, within_range, n).contains(j as usize),
    decreases n,
{
    if n > 0 {
        lemma_valid_pairs_exact(indices, within_range, n - 1);
        let prev = valid_pairs_upto(indices, within_range, n - 1);
        let cur = valid_pairs_upto(indices, within_range, n);
        if indices[n - 1] >= 0 && within_range[n - 1] {
            assert(cur == prev.push((n - 1) as usize));
            assert forall|j: int| 0 <= j < n && indices[j] >= 0 && #[trigger] within_range[j] implies cur.contains(
                j as usize,
            ) by {
                if j < n - 1 {
                    let k = choose|k: int| 0 <= k < prev.len() && prev[k] == j as usize;
                    assert(cur[k] == j as usize);
                } else {
                    assert(cur[prev.len() as int] == j as usize);
                }
            }
        } else {
            assert(cur == prev);
            assert forall|j: int| 0 <= j < n && indices[j] >= 0 && #[trigger] within_range[j] implies cur.contains(
                j as usize,
            ) by {
                assert(j < n - 1);
            }
        }
    }
}

/// Whether a source point is kept depends on its own entries alone: a point
/// is kept exactly when its target index is non-negative and it is within
/// range, whatever the other entries hold.
pub proof fn lemma_kept_iff_own_entries(indices: Seq<i32>, within_range: Seq<bool>, j: int)
    requires
        0 <= j < indices.len(),
        indices.len() == within_range.len(),
        indices.len() <= usize::MAX,
    ensures
        valid_pairs_upto(indices, within_range, indices.len() as int).contains(j as usize)
            <==> (indices[j] >= 0 && within_range[j]),
{
    let n = indices.len() as int;
    lemma_valid_pairs_exact(indices, within_range, n);
    let kept = valid_pairs_upto(indices, within_range, n);
    if kept.contains(j as usize) {
        let k = choose|k: int| 0 <= k < kept.len() && kept[k] == j as usize;
        assert(kept[k] as int == j);
    }
    if indices[j] >= 0 && within_range[j] {
        assert(within_range[j]);
    }
}

} // verus!
