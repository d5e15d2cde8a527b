//! How the rays of a run are enumerated and split into work chunks.
//!
//! Rays are enumerated azimuth-major: ray `a * n_elev + e` uses launch azimuth
//! `a` and launch elevation `e`. The rays are handed out in chunks of equal
//! size (the last one possibly shorter), about two chunks per worker thread,
//! and stored ray paths are put back in ray order.
use vstd::prelude::*;
use vstd::arithmetic::div_mod::lemma_fundamental_div_mod;
use vstd::arithmetic::div_mod::lemma_mod_bound;
use vstd::set_lib::set_int_range;
use vstd::set_lib::lemma_int_range;
use vstd::set_lib::lemma_len_subset;

verus! {

/// The launch angle index pairs `(azimuth, elevation)` of every ray, azimuth-major.
pub fn angle_index_pairs(n_azim: usize, n_elev: usize) -> (pairs: Vec<(usize, usize)>)
    requires
        n_azim * n_elev <= usize::MAX,
    ensures
        pairs@.len() == n_azim * n_elev,
        forall|a: int, e: int|
            0 <= a < n_azim && 0 <= e < n_elev ==> #[trigger] pairs@[a * n_elev + e] == (a as usize, e as usize),
{
    let mut pairs: Vec<(usize, usize)> = Vec::new();
    let mut a: usize = 0;
    while a < n_azim
        invariant
            a <= n_azim,
            n_azim * n_elev <= usize::MAX,
            pairs@.len() == a * n_elev,
            forall|a2: int, e: int|
                0 <= a2 < a && 0 <= e < n_elev ==> #[trigger] pairs@[a2 * n_elev + e] == (a2 as usize, e as usize),
        decreases n_azim - a,
    {
        let ghost before = pairs@;
        let mut e: usize = 0;
        while e < n_elev
            invariant
                a < n_azim,
                e <= n_elev,
                pairs@.len() == a * n_elev + e,
                pairs@.subrange(0, a * n_elev) == before.subrange(0, a * n_elev),
                before.len() == a * n_elev,
                forall|e2: int| 0 <= e2 < e ==> #[trigger] pairs@[a * n_elev + e2] == (a, e2 as usize),
            decreases n_elev - e,
        {
            pairs.push((a, e));
            e = e + 1;
        }
        proof {
            assert forall|a2: int, e2: int|
                0 <= a2 < a + 1 && 0 <= e2 < n_elev implies #[trigger] pairs@[a2 * n_elev + e2] == (a2 as usize, e2 as usize) by {
                if a2 < a {
                    assert(a2 * n_elev + e2 < a * n_elev) by (nonlinear_arith)
                        requires
                            0 <= a2 < a,
                            0 <= e2 < n_elev,
                    ;
                    assert(0 <= a2 * n_elev) by (nonlinear_arith)
                        requires
                            0 <= a2,
                            0 <= n_elev,
                    ;
                    assert(pairs@[a2 * n_elev + e2] == pairs@.subrange(0, a * n_elev)[a2 * n_elev + e2]);
                    assert(before[a2 * n_elev + e2] == before.subrange(0, a * n_elev)[a2 * n_elev + e2]);
                }
            }
            assert((a + 1) * n_elev == a * n_elev + n_elev) by (nonlinear_arith);
        }
        a = a + 1;
    }
    pairs
}

/// The number of chunks aimed at: two per worker thread, and at least one.
pub open spec fn target_chunks(n_threads: int) -> int {
    if 2 * n_threads >= 1 {
        2 * n_threads
    } else {
        1
    }
}

/// Two chunks are aimed at for each worker thread; with no worker thread, one.
pub proof fn lemma_two_chunks_per_thread(n_threads: int)
    requires
        n_threads >= 0,
    ensures
        n_threads >= 1 ==> target_chunks(n_threads) == 2 * n_threads,
        n_threads == 0 ==> target_chunks(n_threads) == 1,
{
}

/// Chunk size for `n_rays` rays on `n_threads` worker threads: the rays spread
/// over the target number of chunks, rounded up; `1` when there is no ray.
pub fn ray_chunk_size(n_rays: usize, n_threads: usize) -> (size: usize)
    requires
        2 * n_threads <= usize::MAX,
        n_rays + target_chunks(n_threads as int) <= usize::MAX,
    ensures
        n_rays == 0 ==> size == 1,
        n_rays > 0 ==> size == (n_rays + target_chunks(n_threads as int) - 1) / target_chunks(n_threads as int),
{
    let doubled = n_threads * 2;
    let target = if doubled >= 1 {
        doubled
    } else {
        1
    };
    assert(target == target_chunks(n_threads as int));
    if n_rays == 0 {
        1
    } else {
        (n_rays + target - 1) / target
    }
}

/// The chunks cover every ray and there are no more of them than the target:
/// a chunk holds at least one ray, `size * target >= n_rays`, and a chunk one
/// ray shorter would not do (`(size - 1) * target < n_rays`).
pub proof fn lemma_chunks_cover_rays(n_rays: int, n_threads: int, size: int)
    requires
        n_rays > 0,
        n_threads >= 0,
        size == (n_rays + target_chunks(n_threads) - 1) / target_chunks(n_threads),
    ensures
        size >= 1,
        size * target_chunks(n_threads) >= n_rays,
        (size - 1) * target_chunks(n_threads) < n_rays,
{
    let t = target_chunks(n_threads);
    let x = n_rays + t - 1;
    lemma_fundamental_div_mod(x, t);
    lemma_mod_bound(x, t);
    assert(t * size == size * t) by (nonlinear_arith);
    assert((size - 1) * t == size * t - t) by (nonlinear_arith);
    if size < 1 {
        assert(t * size <= 0) by (nonlinear_arith)
            requires
                size < 1,
                t >= 1,
                x == t * size + x % t,
                x >= t,
        ;
    }
}

/// Every ray `idx < n_rays` lies in exactly one chunk: chunk `idx / size` at
/// offset `idx % size`, and that chunk index is below the target count.
pub proof fn lemma_ray_in_one_chunk(n_rays: int, n_threads: int, size: int, idx: int)
    requires
        n_rays > 0,
        n_threads >= 0,
        size == (n_rays + target_chunks(n_threads) - 1) / target_chunks(n_threads),
        0 <= idx < n_rays,
    ensures
        idx == (idx / size) * size + idx % size,
        0 <= idx % size < size,
        0 <= idx / size < target_chunks(n_threads),
{
    lemma_chunks_cover_rays(n_rays, n_threads, size);
    lemma_fundamental_div_mod(idx, size);
    lemma_mod_bound(idx, size);
    let t = target_chunks(n_threads);
    let c = idx / size;
    assert(c * size == size * c) by (nonlinear_arith);
    assert(0 <= c) by (nonlinear_arith)
        requires
            idx == size * c + idx % size,
            0 <= idx % size < size,
            0 <= idx,
            size >= 1,
    ;
    assert(c < t) by (nonlinear_arith)
        requires
            idx == size * c + idx % size,
            0 <= idx % size < size,
            idx < n_rays,
            size * t >= n_rays,
            size >= 1,
    ;
}

// ----- putting results back in ray order -----

/// The keys of indexed items.
pub open spec fn index_keys<T>(indexed: Seq<(usize, T)>) -> Seq<usize> {
    indexed.map_values(|p: (usize, T)| p.0)
}

/// The indices are `0..n` each once, where `n` is the number of items.
pub open spec fn indices_cover_once<T>(indexed: Seq<(usize, T)>) -> bool {
    &&& forall|i: int| 0 <= i < indexed.len() ==> (#[trigger] indexed[i]).0 < indexed.len()
    &&& forall|i: int, j: int|
        0 <= i < j < indexed.len() ==> (#[trigger] indexed[i]).0 != (#[trigger] indexed[j]).0
}

/// Items whose indices are `0..n` each once have an item at every index.
proof fn lemma_every_index_taken<T>(indexed: Seq<(usize, T)>, k: int)
    requires
        indices_cover_once(indexed),
        0 <= k < indexed.len(),
    ensures
        exists|i: int| 0 <= i < indexed.len() && (#[trigger] indexed[i]).0 == k,
{
    let n = indexed.len() as int;
    let keys = indexed.map_values(|p: (usize, T)| p.0 as int);
    assert(keys.no_duplicates()) by {
        assert forall|i: int, j: int| 0 <= i < keys.len() && 0 <= j < keys.len() && i != j implies keys[i] != keys[j] by {
            if i < j {
                assert(indexed[i].0 != indexed[j].0);
            } else {
                assert(indexed[j].0 != indexed[i].0);
            }
        }
    }
    keys.unique_seq_to_set();
    if !(exists|i: int| 0 <= i < indexed.len() && (#[trigger] indexed[i]).0 == k) {
        let range = set_int_range(0, n).remove(k);
        lemma_int_range(0, n);
        assert forall|x: int| keys.to_set().contains(x) implies range.contains(x) by {
            let i = choose|i: int| 0 <= i < keys.len() && keys[i] == x;
            assert(indexed[i].0 == x);
        }
        lemma_len_subset(keys.to_set(), range);
    }
}

/// Put indexed items in the order of their indices, as stored ray paths are
/// put back in ray order. When the indices are `0..n` each once (`n` items),
/// the result holds at position `k` the item of index `k`; otherwise it is
/// `None`.
pub fn order_by_index<T>(indexed: Vec<(usize, T)>) -> (r: Option<Vec<T>>)
    ensures
        r is Some <==> indices_cover_once(indexed@),
        r matches Some(v) ==> {
            &&& v@.len() == indexed@.len()
            &&& forall|i: int| 0 <= i < indexed@.len() ==> v@[(#[trigger] indexed@[i]).0 as int] == indexed@[i].1
        },
{
    let ghost orig = indexed@;
    let n = indexed.len();
    let mut slots: Vec<Option<T>> = Vec::new();
    let mut k: usize = 0;
    while k < n
        invariant
            k <= n,
            slots@.len() == k,
            forall|j: int| 0 <= j < k ==> (#[trigger] slots@[j]) is None,
        decreases n - k,
    {
        slots.push(None);
        k = k + 1;
    }
    let mut items = indexed;
    while items.len() > 0
        invariant
            orig == indexed@,
            n == orig.len(),
            slots@.len() == n,
            items@.len() <= n,
            items@ == orig.subrange(0, items@.len() as int),
            forall|j: int| items@.len() <= j < n ==> (#[trigger] orig[j]).0 < n,
            forall|j: int| items@.len() <= j < n ==> slots@[(#[trigger] orig[j]).0 as int] == Some(orig[j].1),
            forall|i: int, j: int| items@.len() <= i < j < n ==> (#[trigger] orig[i]).0 != (#[trigger] orig[j]).0,
            forall|q: int| 0 <= q < n && (#[trigger] slots@[q]) is Some ==> exists|j: int| items@.len() <= j < n && (#[trigger] orig[j]).0 == q,
        decreases items@.len(),
    {
        let ghost m = items@.len() - 1;
        let (idx, item) = match items.pop() {
            Some(p) => p,
            None => {
                return None;
            },
        };
        assert(orig[m] == (idx, item));
        if idx >= n {
            assert(!indices_cover_once(orig)) by {
                assert(orig[m].0 >= orig.len());
            }
            return None;
        }
        if slots[idx].is_some() {
            proof {
                let j = choose|j: int| m + 1 <= j < n && (#[trigger] orig[j]).0 == idx;
                assert(orig[m].0 == orig[j].0);
                assert(!indices_cover_once(orig)) by {
                    assert(0 <= m < j < orig.len());
                }
            }
            return None;
        }
        slots.set(idx, Some(item));
    }
    assert(orig.subrange(0, 0) =~= Seq::<(usize, T)>::empty());
    assert(indices_cover_once(orig));
    assert forall|q: int| 0 <= q < n implies (#[trigger] slots@[q]) is Some by {
        lemma_every_index_taken(orig, q);
        let i = choose|i: int| 0 <= i < orig.len() && (#[trigger] orig[i]).0 == q;
        assert(slots@[orig[i].0 as int] == Some(orig[i].1));
    }
    // empty the slots from the back into `reversed`, then `reversed` into `ordered`
    let ghost full = slots@;
    let mut reversed: Vec<T> = Vec::new();
    while slots.len() > 0
        invariant
            full.len() == n,
            forall|q: int| 0 <= q < n ==> (#[trigger] full[q]) is Some,
            slots@ == full.subrange(0, slots@.len() as int),
            reversed@.len() == n - slots@.len(),
            forall|t: int| 0 <= t < reversed@.len() ==> Some(#[trigger] reversed@[t]) == full[n - 1 - t],
        decreases slots@.len(),
    {
        let ghost q = slots@.len() - 1;
        match slots.pop() {
            Some(Some(item)) => {
                reversed.push(item);
            },
            _ => {
                assert(full[q] is Some);
                return None;
            },
        }
    }
    let mut ordered: Vec<T> = Vec::new();
    while reversed.len() > 0
        invariant
            full.len() == n,
            reversed@.len() + ordered@.len() == n,
            forall|t: int| 0 <= t < reversed@.len() ==> Some(#[trigger] reversed@[t]) == full[n - 1 - t],
            forall|t: int| 0 <= t < ordered@.len() ==> Some(#[trigger] ordered@[t]) == full[t],
        decreases reversed@.len(),
    {
        let ghost t0 = reversed@.len() - 1;
        match reversed.pop() {
            Some(item) => {
                assert(Some(item) == full[n - 1 - t0]);
                ordered.push(item);
            },
            None => {
                return None;
            },
        }
    }
    assert forall|i: int| 0 <= i < orig.len() implies ordered@[(#[trigger] orig[i]).0 as int] == orig[i].1 by {
        assert(full[orig[i].0 as int] == Some(orig[i].1));
        assert(Some(ordered@[orig[i].0 as int]) == full[orig[i].0 as int]);
    }
    Some(ordered)
}

} // verus!
