//! Cell search on monotone coordinate axes.
//!
//! A grid axis is a sequence of coordinates. Cell `i` of an axis with `n`
//! points spans `[arr[i], arr[i + 1]]`, for `0 <= i <= n - 2`. Positions below
//! the first point fall in cell `0` and positions above the last point in cell
//! `n - 2`.
//!
//! An `(nx, ny, nz)` array is flattened row-major (the last index fastest):
//! entry `(ix, iy, iz)` is at `(ix * ny + iy) * nz + iz`.
use vstd::prelude::*;
use crate::binary32::Binary32;

verus! {

/// No coordinate of the axis is a NaN.
pub open spec fn no_nan(arr: Seq<Binary32>) -> bool {
    forall|i: int| 0 <= i < arr.len() ==> !(#[trigger] arr[i]).spec_is_nan()
}

/// The axis is free of NaN and its coordinates strictly increase.
pub open spec fn strictly_increasing(arr: Seq<Binary32>) -> bool {
    &&& no_nan(arr)
    &&& forall|i: int, j: int|
        0 <= i < j < arr.len() ==> (#[trigger] arr[i]).order_key() < (#[trigger] arr[j]).order_key()
}

/// The comparator of the search: `probe` compares `Less` than `target`.
pub open spec fn compares_less(probe: Binary32, target: Binary32) -> bool {
    probe.spec_lt(target)
}

/// The comparator of the search: `probe` compares `Greater` than `target`.
pub open spec fn compares_greater(probe: Binary32, target: Binary32) -> bool {
    target.spec_lt(probe)
}

/// What a binary search returns for `target` in a strictly increasing axis:
/// `Ok(i)` with the index of the equal coordinate, or `Err(i)` with the number
/// of coordinates below the target.
pub open spec fn search_result_sorted(arr: Seq<Binary32>, target: Binary32, r: Result<usize, usize>) -> bool {
    match r {
        Ok(i) => i < arr.len() && arr[i as int].spec_eq(target),
        Err(i) => {
            &&& i <= arr.len()
            &&& forall|j: int| 0 <= j < i ==> (#[trigger] arr[j]).spec_lt(target)
            &&& forall|j: int| i <= j < arr.len() ==> target.spec_lt(#[trigger] arr[j])
        },
    }
}

/// Binary search of `target` in `arr`, with the comparator
/// `probe.partial_cmp(target)` where an unordered pair compares `Equal`.
///
/// `Ok(i)`: `arr[i]` compares `Equal`. `Err(i)`: the coordinates on each side
/// of `i` compare `Less` and `Greater`. On a strictly increasing axis and a
/// non-NaN target the result is the one that `slice::binary_search_by` documents.
pub fn binary_search(arr: &Vec<Binary32>, target: Binary32) -> (r: Result<usize, usize>)
    ensures
        r matches Ok(i) ==> i < arr.len() && !compares_less(arr@[i as int], target) && !compares_greater(arr@[i as int], target),
        r matches Err(i) ==> {
            &&& i <= arr.len()
            &&& (i == 0 || compares_less(arr@[i - 1], target))
            &&& (i == arr.len() || compares_greater(arr@[i as int], target))
        },
        strictly_increasing(arr@) && !target.spec_is_nan() ==> search_result_sorted(arr@, target, r),
{
    let mut lo: usize = 0;
    let mut hi: usize = arr.len();
    while lo < hi
        invariant
            lo <= hi <= arr.len(),
            lo == 0 || compares_less(arr@[lo - 1], target),
            hi == arr.len() || compares_greater(arr@[hi as int], target),
        decreases hi - lo,
    {
        let mid = lo + (hi - lo) / 2;
        if arr[mid].less_than(&target) {
            lo = mid + 1;
        } else if target.less_than(&arr[mid]) {
            hi = mid;
        } else {
            return Ok(mid);
        }
    }
    proof {
        if strictly_increasing(arr@) && !target.spec_is_nan() {
            assert forall|j: int| 0 <= j < lo implies (#[trigger] arr@[j]).spec_lt(target) by {
                assert(arr@[j].order_key() <= arr@[lo - 1].order_key());
            }
            assert forall|j: int| lo <= j < arr.len() implies target.spec_lt(#[trigger] arr@[j]) by {
                assert(arr@[lo as int].order_key() <= arr@[j].order_key());
            }
        }
    }
    Err(lo)
}

/// `r` is the cell of a strictly increasing axis that holds `val`: the last
/// cell whose lower end is at or below `val`, and cell `0` below the axis.
pub open spec fn is_cell_of(arr: Seq<Binary32>, val: Binary32, r: int) -> bool {
    &&& 0 <= r <= arr.len() - 2
    &&& (r == 0 || arr[r].spec_le(val))
    &&& (r == arr.len() - 2 || val.spec_lt(arr[r + 1]))
}

/// Index of the cell that holds `val`, found by binary search.
pub fn find_cell_index(arr: &Vec<Binary32>, val: Binary32) -> (r: usize)
    requires
        arr.len() >= 2,
        no_nan(arr@),
        !val.spec_is_nan(),
    ensures
        r <= arr.len() - 2,
        strictly_increasing(arr@) ==> is_cell_of(arr@, val, r as int),
{
    let last_cell = arr.len() - 2;
    match binary_search(arr, val) {
        Ok(i) => {
            if i < last_cell {
                i
            } else {
                last_cell
            }
        },
        Err(i) => {
            let below = if i == 0 {
                0
            } else {
                i - 1
            };
            if below < last_cell {
                below
            } else {
                last_cell
            }
        },
    }
}

/// `val` lies strictly inside the span of the axis, as the `<=` and `>=` tests
/// of `march_cell_index` decide it (a NaN is inside).
pub open spec fn marches_inside(arr: Seq<Binary32>, val: Binary32) -> bool {
    arr.len() >= 2 && !val.spec_le(arr[0]) && !arr[arr.len() - 1].spec_le(val)
}

/// `march_cell_index` can run from `idx` without indexing out of bounds.
pub open spec fn march_start_ok(arr: Seq<Binary32>, val: Binary32, idx: int) -> bool {
    marches_inside(arr, val) ==> 0 <= idx < arr.len()
}

/// `r` is where `march_cell_index` leaves a cursor that started at `start`.
pub open spec fn march_result(arr: Seq<Binary32>, val: Binary32, start: int, r: int) -> bool {
    let n = arr.len();
    let last_cell = n - 2;
    &&& n < 2 ==> r == 0
    &&& n >= 2 && val.spec_le(arr[0]) ==> r == 0
    &&& n >= 2 && !val.spec_le(arr[0]) && arr[n - 1].spec_le(val) ==> r == last_cell
    &&& marches_inside(arr, val) ==> {
        // the march stops on a cell whose ends do not exclude `val`
        &&& 0 <= r < n
        &&& (r == 0 || !val.spec_lt(arr[r]))
        &&& (r >= last_cell || !arr[r + 1].spec_lt(val))
        &&& (r <= last_cell || r == start)
        // a position on a grid point keeps the side the cursor came from
        &&& (r + 1 < n && val.spec_eq(arr[r + 1]) ==> start <= r)
        &&& (r > 0 && val.spec_eq(arr[r]) ==> start >= r)
        // a NaN position does not move the cursor
        &&& (val.spec_is_nan() ==> r == start)
        // a cursor already on such a cell stays
        &&& (0 <= start < n && (start == 0 || !val.spec_lt(arr[start])) && (start >= last_cell
            || !arr[start + 1].spec_lt(val)) ==> r == start)
    }
}

/// Move the cell index `idx` step by step to the cell that holds `val`.
pub fn march_cell_index(arr: &Vec<Binary32>, val: Binary32, idx: &mut usize)
    requires
        march_start_ok(arr@, val, *old(idx) as int),
    ensures
        march_result(arr@, val, *old(idx) as int, *final(idx) as int),
{
    let n = arr.len();
    if n < 2 {
        *idx = 0;
        return;
    }
    let max_idx = n - 2;
    if val.less_or_equal(&arr[0]) {
        *idx = 0;
        return;
    }
    if arr[n - 1].less_or_equal(&val) {
        *idx = max_idx;
        return;
    }
    let ghost start = *idx as int;
    while *idx < max_idx && arr[*idx + 1].less_than(&val)
        invariant
            n == arr.len(),
            max_idx == n - 2,
            marches_inside(arr@, val),
            0 <= start < n,
            start <= *idx < n,
            *idx > start ==> *idx <= max_idx,
            forall|k: int| start < k <= *idx ==> (#[trigger] arr@[k]).spec_lt(val),
        decreases max_idx - *idx,
    {
        *idx = *idx + 1;
    }
    let ghost top = *idx as int;
    while *idx > 0 && val.less_than(&arr[*idx])
        invariant
            n == arr.len(),
            max_idx == n - 2,
            marches_inside(arr@, val),
            0 <= start < n,
            start <= top < n,
            top > start ==> top <= max_idx,
            forall|k: int| start < k <= top ==> (#[trigger] arr@[k]).spec_lt(val),
            top == max_idx || top > max_idx || !arr@[top + 1].spec_lt(val),
            *idx <= top,
            *idx < top ==> val.spec_lt(arr@[*idx + 1]),
            *idx < top ==> val.spec_lt(arr@[top]),
        decreases *idx,
    {
        *idx = *idx - 1;
    }
}

/// Index range `(lo, hi)` of the coordinates of `arr` that lie in `[min_v, max_v]`,
/// found by two binary searches; `None` when the range is empty.
pub fn find_index_range(arr: &Vec<Binary32>, min_v: Binary32, max_v: Binary32) -> (r: Option<(usize, usize)>)
    ensures
        r matches Some((lo, hi)) ==> lo <= hi < arr.len(),
        max_v.spec_lt(min_v) ==> r is None,
        strictly_increasing(arr@) && !min_v.spec_is_nan() && !max_v.spec_is_nan() ==> {
            &&& (r is Some <==> exists|i: int| 0 <= i < arr.len() && min_v.spec_le(#[trigger] arr@[i]) && arr@[i].spec_le(max_v))
            &&& (r matches Some((lo, hi)) ==> forall|i: int| 0 <= i < arr.len() ==>
                ((lo <= i <= hi) <==> (min_v.spec_le(#[trigger] arr@[i]) && arr@[i].spec_le(max_v))))
        },
{
    if max_v.less_than(&min_v) {
        return None;
    }
    let lo = match binary_search(arr, min_v) {
        Ok(i) => i,
        Err(i) => i,
    };
    let hi = match binary_search(arr, max_v) {
        Ok(i) => i,
        Err(i) => {
            if i == 0 {
                return None;
            } else {
                i - 1
            }
        },
    };
    if lo > hi || lo >= arr.len() {
        return None;
    }
    Some((lo, hi))
}

/// Marching is idempotent: marching again from where a march stopped, to the
/// same position, does not move the cursor.
pub proof fn lemma_march_idempotent(arr: Seq<Binary32>, val: Binary32, start: int, r: int, r2: int)
    requires
        march_start_ok(arr, val, start),
        march_result(arr, val, start, r),
        march_result(arr, val, r, r2),
    ensures
        march_start_ok(arr, val, r),
        r2 == r,
{
}

/// On a strictly increasing axis a march ends on a cell that holds the
/// position: below or on the upper end, and above or on the lower end.
pub proof fn lemma_march_finds_cell(arr: Seq<Binary32>, val: Binary32, start: int, r: int)
    requires
        strictly_increasing(arr),
        arr.len() >= 2,
        !val.spec_is_nan(),
        march_start_ok(arr, val, start),
        march_result(arr, val, start, r),
    ensures
        0 <= r <= arr.len() - 2,
        r == 0 || arr[r].spec_le(val),
        r == arr.len() - 2 || val.spec_le(arr[r + 1]),
{
}

/// On a strictly increasing axis a cursor that already holds the position,
/// as `find_cell_index` leaves it, is not moved by a march to that position.
pub proof fn lemma_march_keeps_found_cell(arr: Seq<Binary32>, val: Binary32, c: int, r: int)
    requires
        strictly_increasing(arr),
        is_cell_of(arr, val, c),
        march_result(arr, val, c, r),
    ensures
        r == c,
{
    let n = arr.len();
    if val.spec_le(arr[0]) {
        if c > 0 {
            assert(arr[0].order_key() < arr[c].order_key());
        }
    } else if arr[n - 1].spec_le(val) {
        if c < n - 2 {
            assert(arr[c + 1].order_key() <= arr[n - 1].order_key());
        }
    }
}

/// A march leaves the index inside the axis (for an axis of two or more
/// points), so the next march, to any position, can start from it.
pub proof fn lemma_march_result_reusable(arr: Seq<Binary32>, val: Binary32, start: int, r: int, next: Binary32)
    requires
        march_result(arr, val, start, r),
    ensures
        arr.len() >= 2 ==> 0 <= r < arr.len(),
        march_start_ok(arr, next, r),
{
}

/// On a strictly increasing axis, a sorted search result for a number says,
/// in the numeric order: `Ok(i)` for an entry equal to the target, `Err(i)`
/// for the count of entries below it with all others above it, and `Ok`
/// exactly when some entry equals the target.
pub proof fn lemma_sorted_search_in_numbers(arr: Seq<Binary32>, target: Binary32, r: Result<usize, usize>)
    requires
        strictly_increasing(arr),
        !target.spec_is_nan(),
        search_result_sorted(arr, target, r),
    ensures
        r matches Ok(i) ==> i < arr.len() && arr[i as int].order_key() == target.order_key(),
        r matches Err(i) ==> {
            &&& i <= arr.len()
            &&& forall|j: int| 0 <= j < i ==> (#[trigger] arr[j]).order_key() < target.order_key()
            &&& forall|j: int| i <= j < arr.len() ==> target.order_key() < (#[trigger] arr[j]).order_key()
        },
        r is Ok <==> exists|j: int| 0 <= j < arr.len() && (#[trigger] arr[j]).order_key() == target.order_key(),
{
    if let Err(i) = r {
        if exists|j: int| 0 <= j < arr.len() && (#[trigger] arr[j]).order_key() == target.order_key() {
            let j = choose|j: int| 0 <= j < arr.len() && (#[trigger] arr[j]).order_key() == target.order_key();
            if j < i {
                assert(arr[j].spec_lt(target));
            } else {
                assert(target.spec_lt(arr[j]));
            }
        }
    }
}

/// On a strictly increasing axis a number has one cell: the cell whose ends
/// bracket it when it lies within the axis, the first cell below the axis
/// and the last cell above it.
pub proof fn lemma_cell_brackets_number(arr: Seq<Binary32>, val: Binary32, r: int, other: int)
    requires
        strictly_increasing(arr),
        !val.spec_is_nan(),
        is_cell_of(arr, val, r),
        is_cell_of(arr, val, other),
    ensures
        0 <= r <= arr.len() - 2,
        arr[0].order_key() <= val.order_key() <= arr[arr.len() - 1].order_key() ==> arr[r].order_key()
            <= val.order_key() <= arr[r + 1].order_key(),
        val.order_key() < arr[0].order_key() ==> r == 0,
        arr[arr.len() - 1].order_key() < val.order_key() ==> r == arr.len() - 2,
        other == r,
{
    let n = arr.len();
    if r > 0 && val.order_key() < arr[0].order_key() {
        assert(arr[0].order_key() < arr[r].order_key());
    }
    if r < n - 2 && arr[n - 1].order_key() < val.order_key() {
        assert(arr[r + 1].order_key() < arr[n - 1].order_key());
    }
    if other < r {
        assert(arr[other + 1].order_key() <= arr[r].order_key());
    }
    if r < other {
        assert(arr[r + 1].order_key() <= arr[other].order_key());
    }
}

/// A copy of an axis.
pub fn copy_axis(v: &Vec<Binary32>) -> (r: Vec<Binary32>)
    ensures
        r@ == v@,
{
    let mut r: Vec<Binary32> = Vec::new();
    let mut i: usize = 0;
    while i < v.len()
        invariant
            i <= v.len(),
            r@ == v@.subrange(0, i as int),
        decreases v.len() - i,
    {
        r.push(v[i]);
        i = i + 1;
    }
    assert(v@.subrange(0, v@.len() as int) =~= v@);
    r
}

// ----- row-major flattening -----

/// With a non-empty last axis, the product of the first two lengths is at most the product of all three.
pub proof fn lemma_prefix_product_bounded(nx: int, ny: int, nz: int)
    requires
        0 <= nx,
        0 <= ny,
        1 <= nz,
    ensures
        0 <= nx * ny,
        nx * ny <= nx * ny * nz,
{
    assert(0 <= nx * ny) by (nonlinear_arith)
        requires
            0 <= nx,
            0 <= ny,
    ;
    assert(nx * ny <= (nx * ny) * nz) by (nonlinear_arith)
        requires
            0 <= nx * ny,
            1 <= nz,
    ;
    assert(nx * ny * nz == (nx * ny) * nz);
}

/// The flat index of an entry of an `(nx, ny, nz)` array is below `nx * ny * nz`.
pub proof fn lemma_index_in_range(ix: int, iy: int, iz: int, nx: int, ny: int, nz: int)
    requires
        0 <= ix < nx,
        0 <= iy < ny,
        0 <= iz < nz,
    ensures
        0 <= ix * ny + iy,
        ix * ny + iy < nx * ny,
        0 <= (ix * ny + iy) * nz + iz,
        (ix * ny + iy) * nz + iz < nx * ny * nz,
{
    assert(ix * ny + iy < nx * ny) by (nonlinear_arith)
        requires
            0 <= ix < nx,
            0 <= iy < ny,
    ;
    assert(0 <= ix * ny) by (nonlinear_arith)
        requires
            0 <= ix,
            0 <= ny,
    ;
    let p = ix * ny + iy;
    assert(p * nz + iz < (nx * ny) * nz) by (nonlinear_arith)
        requires
            0 <= p < nx * ny,
            0 <= iz < nz,
    ;
    assert(0 <= p * nz) by (nonlinear_arith)
        requires
            0 <= p,
            0 <= nz,
    ;
    assert(nx * ny * nz == (nx * ny) * nz);
}

/// `a * n + b == c * n + d` with `b, d < n` forces `a == c` and `b == d`.
pub proof fn lemma_digit_unique(a: int, b: int, c: int, d: int, n: int)
    requires
        0 <= a,
        0 <= c,
        0 <= b < n,
        0 <= d < n,
        a * n + b == c * n + d,
    ensures
        a == c,
        b == d,
{
    if a < c {
        assert(a * n + n <= c * n) by (nonlinear_arith)
            requires
                a < c,
                0 <= n,
        ;
    } else if c < a {
        assert(c * n + n <= a * n) by (nonlinear_arith)
            requires
                c < a,
                0 <= n,
        ;
    }
}

/// Distinct entries of an `(nx, ny, nz)` array have distinct flat indices
/// `(ix * ny + iy) * nz + iz`: the row-major flattening is one to one.
pub proof fn lemma_row_major_index_injective(
    ix: int,
    iy: int,
    iz: int,
    jx: int,
    jy: int,
    jz: int,
    nx: int,
    ny: int,
    nz: int,
)
    requires
        0 <= ix < nx,
        0 <= iy < ny,
        0 <= iz < nz,
        0 <= jx < nx,
        0 <= jy < ny,
        0 <= jz < nz,
        (ix * ny + iy) * nz + iz == (jx * ny + jy) * nz + jz,
    ensures
        ix == jx,
        iy == jy,
        iz == jz,
{
    lemma_index_in_range(ix, iy, iz, nx, ny, nz);
    lemma_index_in_range(jx, jy, jz, nx, ny, nz);
    assert(0 <= ix * ny) by (nonlinear_arith)
        requires
            0 <= ix,
            0 <= ny,
    ;
    assert(0 <= jx * ny) by (nonlinear_arith)
        requires
            0 <= jx,
            0 <= ny,
    ;
    lemma_digit_unique(ix * ny + iy, iz, jx * ny + jy, jz, nz);
    lemma_digit_unique(ix, iy, jx, jy, ny);
}

} // verus!
