//! Scanline filling of a polygon given by integer screen points: for every
//! pixel row between the lowest and highest vertex, the crossings of the
//! polygon's edges with the row are sorted and paired into horizontal spans.

use vstd::prelude::*;
use vstd::relations::{sorted_by, total_ordering};

verus! {

/// The edge from `a` to `b` crosses row `y`: one end at or above the row,
/// the other strictly below it.
pub open spec fn crosses(a: (i32, i32), b: (i32, i32), y: int) -> bool {
    (a.1 <= y && b.1 > y) || (b.1 <= y && a.1 > y)
}

/// Integer division rounding towards zero, as machine division does.
pub open spec fn tdiv(n: int, d: int) -> int {
    let nn = if d < 0 { -n } else { n };
    let dd = if d < 0 { -d } else { d };
    if nn >= 0 { nn / dd } else { -((-nn) / dd) }
}

/// Where the edge from `a` to `b` crosses row `y`.
pub open spec fn cross_x(a: (i32, i32), b: (i32, i32), y: int) -> int {
    a.0 + tdiv((y - a.1) * (b.0 - a.0), b.1 - a.1)
}

/// The crossings with row `y` of the first `k` edges of the polygon `pts`
/// (edge `e` runs from `pts[e]` to the next point, wrapping around).
pub open spec fn crossings(pts: Seq<(i32, i32)>, y: int, k: int) -> Seq<i32>
    decreases k,
{
    if k <= 0 {
        Seq::empty()
    } else {
        let r = crossings(pts, y, k - 1);
        let a = pts[k - 1];
        let b = pts[k % (pts.len() as int)];
        if crosses(a, b, y) { r.push(cross_x(a, b, y) as i32) } else { r }
    }
}

pub open spec fn leq_i32() -> spec_fn(i32, i32) -> bool {
    |a: i32, b: i32| a <= b
}

/// The spans `(y, x, width)` of row `y` from the sorted crossings `xs`,
/// pairing them from index `i` on; empty pairs are skipped.
pub open spec fn row_spans(xs: Seq<i32>, y: int, i: int) -> Seq<(int, int, int)>
    decreases xs.len() - i,
{
    if i < 0 || i + 1 >= xs.len() {
        Seq::empty()
    } else {
        (if xs[i + 1] > xs[i] { seq![(y, xs[i] as int, xs[i + 1] - xs[i])] } else { Seq::empty() })
            + row_spans(xs, y, i + 2)
    }
}

/// The spans of rows `y` through `y1`.
pub open spec fn rows_from(pts: Seq<(i32, i32)>, y: int, y1: int) -> Seq<(int, int, int)>
    decreases y1 + 1 - y,
{
    if y > y1 {
        Seq::empty()
    } else {
        row_spans(crossings(pts, y, pts.len() as int).sort_by(leq_i32()), y, 0) + rows_from(pts, y + 1, y1)
    }
}

/// The lowest row of the first `k` points.
pub open spec fn min_y(pts: Seq<(i32, i32)>, k: int) -> int
    decreases k,
{
    if k <= 1 {
        pts[0].1 as int
    } else if (pts[k - 1].1 as int) < min_y(pts, k - 1) {
        pts[k - 1].1 as int
    } else {
        min_y(pts, k - 1)
    }
}

/// The highest row of the first `k` points.
pub open spec fn max_y(pts: Seq<(i32, i32)>, k: int) -> int
    decreases k,
{
    if k <= 1 {
        pts[0].1 as int
    } else if (pts[k - 1].1 as int) > max_y(pts, k - 1) {
        pts[k - 1].1 as int
    } else {
        max_y(pts, k - 1)
    }
}

/// The spans filling the polygon `pts`; nothing for fewer than three points.
pub open spec fn fill_spans_spec(pts: Seq<(i32, i32)>) -> Seq<(int, int, int)> {
    if pts.len() < 3 {
        Seq::empty()
    } else {
        rows_from(pts, min_y(pts, pts.len() as int), max_y(pts, pts.len() as int))
    }
}

/// The spans as plain integers.
pub open spec fn span_ints(s: Seq<(i32, i32, u32)>) -> Seq<(int, int, int)> {
    s.map_values(|t: (i32, i32, u32)| (t.0 as int, t.1 as int, t.2 as int))
}

/// Calls `slice::sort_unstable` on `v`. Claimed, as its documentation says:
/// afterwards `v` holds the same elements in ascending order.
#[verifier::external_body]
fn sort_i32(v: &mut Vec<i32>)
    ensures
        sorted_by(final(v)@, leq_i32()),
        final(v)@.to_multiset() == old(v)@.to_multiset(),
{
    v.sort_unstable();
}

proof fn lemma_leq_total()
    ensures
        total_ordering(leq_i32()),
{
}

proof fn lemma_min_max_bounds(pts: Seq<(i32, i32)>, k: int)
    requires
        1 <= k <= pts.len(),
    ensures
        i32::MIN <= min_y(pts, k) <= max_y(pts, k) <= i32::MAX,
        forall|i: int| 0 <= i < k ==> min_y(pts, k) <= (#[trigger] pts[i]).1 <= max_y(pts, k),
    decreases k,
{
    if k > 1 {
        lemma_min_max_bounds(pts, k - 1);
    }
}

/// Where an edge crosses a row, the crossing lies between the edge's ends,
/// and the product in the interpolation is below 2^64 in size.
proof fn lemma_cross_between(a: (i32, i32), b: (i32, i32), y: int)
    requires
        crosses(a, b, y),
    ensures
        -0x1_0000_0000_0000_0000 <= (y - a.1) * (b.0 - a.0) <= 0x1_0000_0000_0000_0000,
        (if a.0 <= b.0 { a.0 as int } else { b.0 as int }) <= cross_x(a, b, y)
            <= (if a.0 <= b.0 { b.0 as int } else { a.0 as int }),
{
    let dy = y - a.1;
    let dx = b.0 - a.0;
    let d = b.1 - a.1;
    let n = dy * dx;
    assert(-0x1_0000_0000_0000_0000 <= dy * dx <= 0x1_0000_0000_0000_0000) by (nonlinear_arith)
        requires -0x1_0000_0000 <= dy <= 0x1_0000_0000, -0x1_0000_0000 <= dx <= 0x1_0000_0000;
    if d > 0 {
        assert(0 <= dy < d);
        if dx >= 0 {
            assert(0 <= n <= d * dx) by (nonlinear_arith) requires n == dy * dx, 0 <= dy < d, dx >= 0;
            assert(0 <= n / d <= dx) by (nonlinear_arith) requires 0 <= n <= d * dx, d > 0;
        } else {
            assert(0 <= -n <= d * (-dx)) by (nonlinear_arith) requires n == dy * dx, 0 <= dy < d, dx < 0;
            assert(0 <= (-n) / d <= -dx) by (nonlinear_arith) requires 0 <= -n <= d * (-dx), d > 0;
        }
    } else {
        assert(d < 0 && d <= dy < 0);
        if dx >= 0 {
            assert(0 <= -n <= (-d) * dx) by (nonlinear_arith) requires n == dy * dx, d <= dy < 0, dx >= 0;
            assert(0 <= (-n) / (-d) <= dx) by (nonlinear_arith) requires 0 <= -n <= (-d) * dx, d < 0;
        } else {
            assert(0 <= n <= (-d) * (-dx)) by (nonlinear_arith) requires n == dy * dx, d <= dy < 0, dx < 0;
            assert(0 <= n / (-d) <= -dx) by (nonlinear_arith) requires 0 <= n <= (-d) * (-dx), d < 0;
        }
    }
}

/// No edge crosses the row of the highest vertex: nothing lies below it.
proof fn lemma_top_row_empty(pts: Seq<(i32, i32)>, k: int)
    requires
        pts.len() >= 1,
        0 <= k <= pts.len(),
    ensures
        crossings(pts, max_y(pts, pts.len() as int), k) =~= Seq::<i32>::empty(),
    decreases k,
{
    lemma_min_max_bounds(pts, pts.len() as int);
    if k > 0 {
        lemma_top_row_empty(pts, k - 1);
        let a = pts[k - 1];
        let b = pts[k % (pts.len() as int)];
        assert(a.1 <= max_y(pts, pts.len() as int));
        assert(b.1 <= max_y(pts, pts.len() as int));
    }
}

proof fn lemma_sort_empty(xs: Seq<i32>)
    requires
        xs.len() == 0,
        total_ordering(leq_i32()),
    ensures
        xs.sort_by(leq_i32()).len() == 0,
{
    broadcast use vstd::seq_lib::group_to_multiset_ensures;
    xs.lemma_sort_by_ensures(leq_i32());
    assert(xs.to_multiset().len() == 0);
}

proof fn lemma_row_spans_shape(xs: Seq<i32>, y: int, i: int)
    ensures
        forall|k: int| 0 <= k < row_spans(xs, y, i).len() ==>
            (#[trigger] row_spans(xs, y, i)[k]).0 == y && row_spans(xs, y, i)[k].2 > 0,
    decreases xs.len() - i,
{
    if !(i < 0 || i + 1 >= xs.len()) {
        lemma_row_spans_shape(xs, y, i + 2);
        let head = if xs[i + 1] > xs[i] { seq![(y, xs[i] as int, xs[i + 1] - xs[i])] } else { Seq::empty() };
        let r = row_spans(xs, y, i);
        assert(r =~= head + row_spans(xs, y, i + 2));
        assert forall|k: int| 0 <= k < r.len() implies (#[trigger] r[k]).0 == y && r[k].2 > 0 by {
            if k >= head.len() {
                assert(r[k] == row_spans(xs, y, i + 2)[k - head.len()]);
            }
        }
    }
}

proof fn lemma_rows_from_shape(pts: Seq<(i32, i32)>, y: int, y1: int)
    requires
        row_spans(crossings(pts, y1, pts.len() as int).sort_by(leq_i32()), y1, 0).len() == 0,
    ensures
        forall|k: int| 0 <= k < rows_from(pts, y, y1).len() ==>
            y <= (#[trigger] rows_from(pts, y, y1)[k]).0 < y1 && rows_from(pts, y, y1)[k].2 > 0,
    decreases y1 + 1 - y,
{
    if y <= y1 {
        let row = row_spans(crossings(pts, y, pts.len() as int).sort_by(leq_i32()), y, 0);
        lemma_row_spans_shape(crossings(pts, y, pts.len() as int).sort_by(leq_i32()), y, 0);
        lemma_rows_from_shape(pts, y + 1, y1);
        let r = rows_from(pts, y, y1);
        assert(r =~= row + rows_from(pts, y + 1, y1));
        assert forall|k: int| 0 <= k < r.len() implies y <= (#[trigger] r[k]).0 < y1 && r[k].2 > 0 by {
            if k >= row.len() {
                assert(r[k] == rows_from(pts, y + 1, y1)[k - row.len()]);
            } else {
                assert(y < y1);
            }
        }
    }
}

/// Every span has a positive width and lies on a row from the lowest vertex
/// up to, but not including, the highest vertex of the polygon.
pub proof fn lemma_spans_within_rows(pts: Seq<(i32, i32)>)
    requires
        pts.len() >= 3,
    ensures
        forall|k: int| 0 <= k < fill_spans_spec(pts).len() ==>
            min_y(pts, pts.len() as int) <= (#[trigger] fill_spans_spec(pts)[k]).0 < max_y(pts, pts.len() as int)
            && fill_spans_spec(pts)[k].2 > 0,
{
    let top = max_y(pts, pts.len() as int);
    lemma_top_row_empty(pts, pts.len() as int);
    lemma_leq_total();
    lemma_sort_empty(crossings(pts, top, pts.len() as int));
    lemma_rows_from_shape(pts, min_y(pts, pts.len() as int), top);
}

/// The leftmost column of the first `k` points.
pub open spec fn min_x(pts: Seq<(i32, i32)>, k: int) -> int
    decreases k,
{
    if k <= 1 {
        pts[0].0 as int
    } else if (pts[k - 1].0 as int) < min_x(pts, k - 1) {
        pts[k - 1].0 as int
    } else {
        min_x(pts, k - 1)
    }
}

/// The rightmost column of the first `k` points.
pub open spec fn max_x(pts: Seq<(i32, i32)>, k: int) -> int
    decreases k,
{
    if k <= 1 {
        pts[0].0 as int
    } else if (pts[k - 1].0 as int) > max_x(pts, k - 1) {
        pts[k - 1].0 as int
    } else {
        max_x(pts, k - 1)
    }
}

proof fn lemma_min_max_x_bounds(pts: Seq<(i32, i32)>, k: int)
    requires
        1 <= k <= pts.len(),
    ensures
        forall|i: int| 0 <= i < k ==> min_x(pts, k) <= (#[trigger] pts[i]).0 <= max_x(pts, k),
    decreases k,
{
    if k > 1 {
        lemma_min_max_x_bounds(pts, k - 1);
    }
}

/// Every crossing of the first `k` edges with any row lies between the
/// leftmost and the rightmost vertex.
proof fn lemma_crossings_in_columns(pts: Seq<(i32, i32)>, y: int, k: int)
    requires
        pts.len() >= 1,
        0 <= k <= pts.len(),
    ensures
        forall|j: int| 0 <= j < crossings(pts, y, k).len() ==>
            min_x(pts, pts.len() as int) <= #[trigger] crossings(pts, y, k)[j] <= max_x(pts, pts.len() as int),
    decreases k,
{
    lemma_min_max_x_bounds(pts, pts.len() as int);
    if k > 0 {
        lemma_crossings_in_columns(pts, y, k - 1);
        let a = pts[k - 1];
        let b = pts[k % (pts.len() as int)];
        assert(min_x(pts, pts.len() as int) <= a.0 <= max_x(pts, pts.len() as int));
        assert(min_x(pts, pts.len() as int) <= b.0 <= max_x(pts, pts.len() as int));
        let r = crossings(pts, y, k - 1);
        let c = crossings(pts, y, k);
        if crosses(a, b, y) {
            lemma_cross_between(a, b, y);
            assert(c == r.push(cross_x(a, b, y) as i32));
            assert forall|j: int| 0 <= j < c.len() implies
                min_x(pts, pts.len() as int) <= #[trigger] c[j] <= max_x(pts, pts.len() as int) by {
                if j < r.len() {
                    assert(c[j] == r[j]);
                }
            }
        } else {
            assert(c == r);
        }
    }
}

proof fn lemma_row_spans_columns(xs: Seq<i32>, y: int, i: int, lo: int, hi: int)
    requires
        forall|j: int| 0 <= j < xs.len() ==> lo <= #[trigger] xs[j] <= hi,
    ensures
        forall|k: int| 0 <= k < row_spans(xs, y, i).len() ==>
            lo <= (#[trigger] row_spans(xs, y, i)[k]).1 && row_spans(xs, y, i)[k].1 + row_spans(xs, y, i)[k].2 <= hi,
    decreases xs.len() - i,
{
    if !(i < 0 || i + 1 >= xs.len()) {
        lemma_row_spans_columns(xs, y, i + 2, lo, hi);
        let head = if xs[i + 1] > xs[i] { seq![(y, xs[i] as int, xs[i + 1] - xs[i])] } else { Seq::empty() };
        let r = row_spans(xs, y, i);
        assert(r =~= head + row_spans(xs, y, i + 2));
        assert forall|k: int| 0 <= k < r.len() implies lo <= (#[trigger] r[k]).1 && r[k].1 + r[k].2 <= hi by {
            if k >= head.len() {
                assert(r[k] == row_spans(xs, y, i + 2)[k - head.len()]);
            } else {
                assert(lo <= xs[i] && xs[i + 1] <= hi);
            }
        }
    }
}

proof fn lemma_rows_from_columns(pts: Seq<(i32, i32)>, y: int, y1: int)
    requires
        pts.len() >= 1,
    ensures
        forall|k: int| 0 <= k < rows_from(pts, y, y1).len() ==>
            min_x(pts, pts.len() as int) <= (#[trigger] rows_from(pts, y, y1)[k]).1
            && rows_from(pts, y, y1)[k].1 + rows_from(pts, y, y1)[k].2 <= max_x(pts, pts.len() as int),
    decreases y1 + 1 - y,
{
    if y <= y1 {
        let lo = min_x(pts, pts.len() as int);
        let hi = max_x(pts, pts.len() as int);
        let xs = crossings(pts, y, pts.len() as int);
        lemma_crossings_in_columns(pts, y, pts.len() as int);
        lemma_leq_total();
        xs.lemma_sort_by_ensures(leq_i32());
        let sorted = xs.sort_by(leq_i32());
        assert forall|j: int| 0 <= j < sorted.len() implies lo <= #[trigger] sorted[j] <= hi by {
            assert(sorted.contains(sorted[j]));
            assert(xs.contains(sorted[j]));
            let t = choose|t: int| 0 <= t < xs.len() && xs[t] == sorted[j];
            assert(lo <= xs[t] <= hi);
        }
        lemma_row_spans_columns(sorted, y, 0, lo, hi);
        lemma_rows_from_columns(pts, y + 1, y1);
        let row = row_spans(sorted, y, 0);
        let r = rows_from(pts, y, y1);
        assert(r =~= row + rows_from(pts, y + 1, y1));
        assert forall|k: int| 0 <= k < r.len() implies lo <= (#[trigger] r[k]).1 && r[k].1 + r[k].2 <= hi by {
            if k >= row.len() {
                assert(r[k] == rows_from(pts, y + 1, y1)[k - row.len()]);
            }
        }
    }
}

/// Every span runs between the leftmost and the rightmost vertex of the
/// polygon: the fill never leaves the polygon's bounding box.
pub proof fn lemma_spans_within_columns(pts: Seq<(i32, i32)>)
    requires
        pts.len() >= 3,
    ensures
        forall|k: int| 0 <= k < fill_spans_spec(pts).len() ==>
            min_x(pts, pts.len() as int) <= (#[trigger] fill_spans_spec(pts)[k]).1
            && fill_spans_spec(pts)[k].1 + fill_spans_spec(pts)[k].2 <= max_x(pts, pts.len() as int),
{
    lemma_rows_from_columns(pts, min_y(pts, pts.len() as int), max_y(pts, pts.len() as int));
}

/// The horizontal spans `(y, x, width)` that fill the polygon `pts`, row
/// by row from the lowest to the highest vertex.
pub fn fill_spans(pts: &Vec<(i32, i32)>) -> (spans: Vec<(i32, i32, u32)>)
    ensures
        span_ints(spans@) == fill_spans_spec(pts@),
{
    let mut spans: Vec<(i32, i32, u32)> = Vec::new();
    let n = pts.len();
    if n < 3 {
        proof {
            assert(span_ints(spans@) =~= Seq::empty());
        }
        return spans;
    }
    let mut y0 = pts[0].1;
    let mut y1 = pts[0].1;
    let mut k: usize = 1;
    while k < n
        invariant
            1 <= k <= n,
            n == pts.len(),
            y0 == min_y(pts@, k as int),
            y1 == max_y(pts@, k as int),
        decreases n - k,
    {
        if pts[k].1 < y0 {
            y0 = pts[k].1;
        }
        if pts[k].1 > y1 {
            y1 = pts[k].1;
        }
        k = k + 1;
    }
    proof {
        lemma_min_max_bounds(pts@, n as int);
        lemma_leq_total();
        assert(span_ints(spans@) =~= Seq::empty());
    }
    let ghost total = rows_from(pts@, y0 as int, y1 as int);
    let mut y: i64 = y0 as i64;
    while y <= y1 as i64
        invariant
            n == pts.len(),
            n >= 3,
            y0 <= y1,
            y0 as i64 <= y <= y1 as i64 + 1,
            total_ordering(leq_i32()),
            span_ints(spans@) + rows_from(pts@, y as int, y1 as int) == total,
        decreases y1 as i64 + 1 - y,
    {
        let mut xs: Vec<i32> = Vec::new();
        let mut e: usize = 0;
        while e < n
            invariant
                n == pts.len(),
                n >= 3,
                i32::MIN <= y <= i32::MAX,
                e <= n,
                xs@ == crossings(pts@, y as int, e as int),
            decreases n - e,
        {
            let a = pts[e];
            let b = pts[(e + 1) % n];
            let ay = a.1 as i64;
            let by = b.1 as i64;
            if (ay <= y && by > y) || (by <= y && ay > y) {
                proof {
                    lemma_cross_between(a, b, y as int);
                }
                let num: i128 = (y as i128 - a.1 as i128) * (b.0 as i128 - a.0 as i128);
                let den: i128 = b.1 as i128 - a.1 as i128;
                let t: i128 = if den < 0 { (-num) / (-den) } else { num / den };
                let x = a.0 as i128 + t;
                assert(x as int == cross_x(a, b, y as int));
                xs.push(x as i32);
            }
            e = e + 1;
        }
        let ghost unsorted = xs@;
        sort_i32(&mut xs);
        proof {
            unsorted.lemma_sort_by_ensures(leq_i32());
            vstd::seq_lib::lemma_sorted_unique(xs@, unsorted.sort_by(leq_i32()), leq_i32());
        }
        let ghost row = row_spans(xs@, y as int, 0);
        let ghost before = span_ints(spans@);
        let mut i: usize = 0;
        while i + 1 < xs.len()
            invariant
                i32::MIN <= y <= i32::MAX,
                i % 2 == 0,
                i <= xs.len() + 1,
                span_ints(spans@) + row_spans(xs@, y as int, i as int) == before + row,
            decreases xs.len() + 2 - i,
        {
            let ghost rest = row_spans(xs@, y as int, i as int);
            if xs[i + 1] > xs[i] {
                let w = (xs[i + 1] as i64 - xs[i] as i64) as u32;
                let ghost old_spans = spans@;
                spans.push((y as i32, xs[i], w));
                proof {
                    assert(span_ints(spans@) =~= span_ints(old_spans).push((y as int, xs@[i as int] as int, w as int)));
                    assert(rest =~= seq![(y as int, xs@[i as int] as int, xs@[i + 1] - xs@[i as int])]
                        + row_spans(xs@, y as int, i + 2));
                }
            } else {
                assert(rest =~= row_spans(xs@, y as int, i + 2));
            }
            i = i + 2;
        }
        proof {
            assert(row_spans(xs@, y as int, i as int) =~= Seq::empty());
            assert(rows_from(pts@, y as int, y1 as int) =~= row + rows_from(pts@, y + 1, y1 as int));
        }
        y = y + 1;
    }
    proof {
        assert(rows_from(pts@, y as int, y1 as int) =~= Seq::empty());
    }
    spans
}

} // verus!
