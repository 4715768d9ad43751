//! Reshaping of a flat, row-major buffer of samples into one row per sample.

use vstd::prelude::*;

verus! {

/// The contents of each row.
pub open spec fn row_views<T>(rows: Seq<Vec<T>>) -> Seq<Seq<T>> {
    rows.map_values(|row: Vec<T>| row@)
}

/// The smaller of two integers.
pub open spec fn min_int(a: int, b: int) -> int {
    if a <= b {
        a
    } else {
        b
    }
}

/// A copy of `flat[start..end]`.
fn copy_range<T: Copy>(flat: &[T], start: usize, end: usize) -> (part: Vec<T>)
    requires
        start <= end <= flat@.len(),
    ensures
        part@ == flat@.subrange(start as int, end as int),
{
    let mut part: Vec<T> = Vec::new();
    let mut i: usize = start;
    while i < end
        invariant
            start <= i <= end,
            end <= flat@.len(),
            part@ == flat@.subrange(start as int, i as int),
        decreases end - i,
    {
        part.push(flat[i]);
        assert(flat@.subrange(start as int, i + 1) =~= flat@.subrange(start as int, i as int).push(flat@[i as int]));
        i = i + 1;
    }
    part
}

/// The rows of `flat` taken `width` values at a time, the last row holding
/// what remains when `width` does not divide the length (as `chunks` does).
pub fn rows<T: Copy>(flat: &[T], width: usize) -> (rows: Vec<Vec<T>>)
    requires
        width > 0,
    ensures
        rows@.len() == (flat@.len() + width - 1) / (width as int),
        forall|r: int| 0 <= r < rows@.len() ==> #[trigger] rows@[r]@ == flat@.subrange(
            r * width,
            min_int((r + 1) * width, flat@.len() as int),
        ),
        row_views(rows@).flatten() == flat@,
{
    let n = flat.len();
    let mut rows: Vec<Vec<T>> = Vec::new();
    let mut start: usize = 0;
    proof {
        assert(row_views(rows@) =~= Seq::<Seq<T>>::empty());
        assert(flat@.subrange(0, 0) =~= Seq::<T>::empty());
    }
    while start < n
        invariant
            n == flat@.len(),
            width > 0,
            start <= n,
            start == min_int(rows@.len() * width, n as int),
            rows@.len() == 0 || (rows@.len() - 1) * width < n,
            forall|r: int| 0 <= r < rows@.len() ==> #[trigger] rows@[r]@ == flat@.subrange(
                r * width,
                min_int((r + 1) * width, n as int),
            ),
            row_views(rows@).flatten() == flat@.subrange(0, start as int),
        decreases n - start,
    {
        let end = if n - start < width { n } else { start + width };
        let row = copy_range(flat, start, end);
        let ghost before = rows@;
        proof {
            row_views(before).lemma_flatten_push(row@);
            assert(row_views(before.push(row)) =~= row_views(before).push(row@));
            assert(flat@.subrange(0, start as int) + flat@.subrange(start as int, end as int)
                =~= flat@.subrange(0, end as int));
            assert((before.len() + 1) * width == start + width) by (nonlinear_arith)
                requires
                    start == before.len() * width,
            ;
            assert(end == min_int((before.len() + 1) * width, n as int));
        }
        rows.push(row);
        start = end;
    }
    proof {
        let r = rows@.len() as int;
        let w = width as int;
        assert(flat@.subrange(0, n as int) =~= flat@);
        assert(n <= r * w);
        if r > 0 {
            assert((n + w - 1) / w == r) by (nonlinear_arith)
                requires
                    (r - 1) * w < n,
                    n <= r * w,
                    w > 0,
            ;
        } else {
            assert((n + w - 1) / w == 0) by (nonlinear_arith)
                requires
                    n == 0,
                    w > 0,
            ;
        }
    }
    rows
}

/// The full rows of `flat` taken `width` values at a time; values left over
/// after the last full row are dropped (as `chunks_exact` does).
pub fn rows_exact<T: Copy>(flat: &[T], width: usize) -> (rows: Vec<Vec<T>>)
    requires
        width > 0,
    ensures
        rows@.len() == (flat@.len() as int) / (width as int),
        forall|r: int| 0 <= r < rows@.len() ==> #[trigger] rows@[r]@ == flat@.subrange(
            r * width,
            (r + 1) * width,
        ),
        row_views(rows@).flatten() == flat@.subrange(0, rows@.len() * width),
{
    let n = flat.len();
    let mut rows: Vec<Vec<T>> = Vec::new();
    let mut start: usize = 0;
    proof {
        assert(row_views(rows@) =~= Seq::<Seq<T>>::empty());
        assert(flat@.subrange(0, 0) =~= Seq::<T>::empty());
    }
    while n - start >= width
        invariant
            n == flat@.len(),
            width > 0,
            start <= n,
            start == rows@.len() * width,
            forall|r: int| 0 <= r < rows@.len() ==> #[trigger] rows@[r]@ == flat@.subrange(
                r * width,
                (r + 1) * width,
            ),
            row_views(rows@).flatten() == flat@.subrange(0, start as int),
        decreases n - start,
    {
        let end = start + width;
        let row = copy_range(flat, start, end);
        let ghost before = rows@;
        proof {
            row_views(before).lemma_flatten_push(row@);
            assert(row_views(before.push(row)) =~= row_views(before).push(row@));
            assert(flat@.subrange(0, start as int) + flat@.subrange(start as int, end as int)
                =~= flat@.subrange(0, end as int));
            assert((before.len() + 1) * width == start + width) by (nonlinear_arith)
                requires
                    start == before.len() * width,
            ;
        }
        rows.push(row);
        start = end;
    }
    proof {
        let r = rows@.len() as int;
        let w = width as int;
        assert((n as int) / w == r) by (nonlinear_arith)
            requires
                r * w <= n,
                n - r * w < w,
                w > 0,
        ;
    }
    rows
}

} // verus!
