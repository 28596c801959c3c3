use vstd::prelude::*;

use crate::geometrify::Triangle;
use crate::raster::Color;
use crate::BoundingBox;
use crate::Point;

verus! {

/// A row-major pixel index stays inside the buffer.
pub proof fn lemma_row_major_index(x: int, y: int, w: int, h: int) by (nonlinear_arith)
    requires
        0 <= x < w,
        0 <= y < h,
    ensures
        0 <= y * w + x < w * h,
{
}

/// The product of two differences of `i32`-ranged values fits in `i128`,
/// with room to subtract another such product.
pub proof fn lemma_i32_diff_product_fits(p: int, q: int, r: int, s: int) by (nonlinear_arith)
    requires
        -0x8000_0000 <= p <= 0x7fff_ffff,
        -0x8000_0000 <= q <= 0x7fff_ffff,
        -0x8000_0000 <= r <= 0x7fff_ffff,
        -0x8000_0000 <= s <= 0x7fff_ffff,
    ensures
        -0x1_0000_0000_0000_0000 <= (p - q) * (r - s) <= 0x1_0000_0000_0000_0000,
{
}

/// Absolute difference of two channel values.
pub open spec fn abs_diff(a: int, b: int) -> int {
    if a >= b {
        a - b
    } else {
        b - a
    }
}

/// L1 distance of two colors: the channel differences summed; at most 1020.
pub open spec fn pixel_diff_spec(c1: Color, c2: Color) -> int {
    abs_diff(c1.r as int, c2.r as int) + abs_diff(c1.g as int, c2.g as int) + abs_diff(
        c1.b as int,
        c2.b as int,
    ) + abs_diff(c1.a as int, c2.a as int)
}

pub proof fn lemma_pixel_diff_bounds(c1: Color, c2: Color)
    ensures
        0 <= pixel_diff_spec(c1, c2) <= 1020,
{
}

/// 50% flat composite: each channel is the floor of the mean of the inputs.
pub open spec fn blend_spec(existing: Color, new: Color) -> Color {
    Color {
        r: (((existing.r + new.r) as int) / 2) as u8,
        g: (((existing.g + new.g) as int) / 2) as u8,
        b: (((existing.b + new.b) as int) / 2) as u8,
        a: (((existing.a + new.a) as int) / 2) as u8,
    }
}

pub open spec fn min3_spec(a: int, b: int, c: int) -> int {
    if a <= b && a <= c {
        a
    } else if b <= c {
        b
    } else {
        c
    }
}

pub open spec fn max3_spec(a: int, b: int, c: int) -> int {
    if a >= b && a >= c {
        a
    } else if b >= c {
        b
    } else {
        c
    }
}

/// The fill color of a candidate; black for a candidate that has not been
/// colored yet.
pub open spec fn fill_of(t: Triangle) -> Color {
    match t.color {
        Some(c) => c,
        None => Color::black_spec(),
    }
}

/// Distinct pixel coordinates have distinct row-major indices.
pub proof fn lemma_row_major_injective(
    w: int,
    h: int,
    x1: int,
    y1: int,
    x2: int,
    y2: int,
) by (nonlinear_arith)
    requires
        0 <= x1 < w,
        0 <= y1 < h,
        0 <= x2 < w,
        0 <= y2 < h,
        !(x1 == x2 && y1 == y2),
    ensures
        y1 * w + x1 != y2 * w + x2,
{
}

/// The point lies inside an image of dimensions `w` x `h`.
pub open spec fn point_in_dims(p: Point, w: int, h: int) -> bool {
    &&& 0 <= p.x < w
    &&& 0 <= p.y < h
}

/// All three vertices lie inside an image of dimensions `w` x `h`.
pub open spec fn tri_in_dims(t: Triangle, w: int, h: int) -> bool {
    &&& point_in_dims(t.a, w, h)
    &&& point_in_dims(t.b, w, h)
    &&& point_in_dims(t.c, w, h)
}

/// The axis-aligned bounding box of a triangle: componentwise minimum and
/// maximum of its three vertices.
pub open spec fn bbox_spec(t: Triangle) -> BoundingBox {
    BoundingBox {
        top_left: Point {
            x: min3_spec(t.a.x as int, t.b.x as int, t.c.x as int) as i32,
            y: min3_spec(t.a.y as int, t.b.y as int, t.c.y as int) as i32,
        },
        bottom_right: Point {
            x: max3_spec(t.a.x as int, t.b.x as int, t.c.x as int) as i32,
            y: max3_spec(t.a.y as int, t.b.y as int, t.c.y as int) as i32,
        },
    }
}

/// Numerator of the first barycentric coordinate: `cross(p - a, c - a)`.
pub open spec fn s_num_spec(t: Triangle, px: int, py: int) -> int {
    (px - t.a.x) * (t.c.y - t.a.y) - (py - t.a.y) * (t.c.x - t.a.x)
}

/// Numerator of the second barycentric coordinate: `cross(b - a, p - a)`.
pub open spec fn t_num_spec(t: Triangle, px: int, py: int) -> int {
    (t.b.x - t.a.x) * (py - t.a.y) - (t.b.y - t.a.y) * (px - t.a.x)
}

/// Barycentric containment with boundary points included: with `d` the signed
/// double area, the point is inside iff `s >= 0`, `t >= 0` and `s + t <= 1`
/// where `s` and `t` are the numerators above divided by `d`. The divisions
/// are carried out as sign-aware comparisons, so the test is exact. A
/// degenerate triangle (`d == 0`) contains nothing.
pub open spec fn inside_spec(t: Triangle, px: int, py: int) -> bool {
    let d = t.double_area_spec();
    let sn = s_num_spec(t, px, py);
    let tn = t_num_spec(t, px, py);
    if d > 0 {
        sn >= 0 && tn >= 0 && sn + tn <= d
    } else if d < 0 {
        sn <= 0 && tn <= 0 && sn + tn >= d
    } else {
        false
    }
}

/// A pixel is painted iff it lies in the half-open bounding-box rectangle
/// that the commit loop walks and passes the containment test.
pub open spec fn covered_spec(t: Triangle, x: int, y: int) -> bool {
    let bb = bbox_spec(t);
    &&& bb.top_left.x <= x < bb.bottom_right.x
    &&& bb.top_left.y <= y < bb.bottom_right.y
    &&& inside_spec(t, x, y)
}

/// The canvas pixel at `(x, y)` after committing the triangle.
pub open spec fn committed_pixel_spec(
    cur: Seq<Color>,
    w: int,
    t: Triangle,
    col: Color,
    x: int,
    y: int,
) -> Color {
    if covered_spec(t, x, y) {
        blend_spec(cur[y * w + x], col)
    } else {
        cur[y * w + x]
    }
}

/// The part of the bounding-box rectangle `[x0, x1) x [y0, ..)` that a
/// row-major walk has already visited when it stands at column `xcur` of row
/// `ycur`.
pub open spec fn in_walked_region(
    x0: int,
    x1: int,
    y0: int,
    xcur: int,
    ycur: int,
    xx: int,
    yy: int,
) -> bool {
    ||| (y0 <= yy < ycur && x0 <= xx < x1)
    ||| (yy == ycur && x0 <= xx < xcur)
}

/// What a pixel holds in the middle of a commit walk: already-visited pixels
/// show the committed value, the rest still show the original canvas.
pub open spec fn walked_pixel_spec(
    orig: Seq<Color>,
    w: int,
    t: Triangle,
    col: Color,
    x0: int,
    x1: int,
    y0: int,
    xcur: int,
    ycur: int,
    xx: int,
    yy: int,
) -> Color {
    if in_walked_region(x0, x1, y0, xcur, ycur, xx, yy) {
        committed_pixel_spec(orig, w, t, col, xx, yy)
    } else {
        orig[yy * w + xx]
    }
}

/// L1 difference summed over columns `[0, x)` of row `y`.
pub open spec fn row_diff(src: Seq<Color>, cur: Seq<Color>, w: int, y: int, x: int) -> int
    decreases x,
{
    if x <= 0 {
        0
    } else {
        row_diff(src, cur, w, y, x - 1) + pixel_diff_spec(
            src[y * w + (x - 1)],
            cur[y * w + (x - 1)],
        )
    }
}

/// L1 difference summed over the full rows `[0, y)`.
pub open spec fn grid_diff(src: Seq<Color>, cur: Seq<Color>, w: int, y: int) -> int
    decreases y,
{
    if y <= 0 {
        0
    } else {
        grid_diff(src, cur, w, y - 1) + row_diff(src, cur, w, y - 1, w)
    }
}

/// The total difference between a source and a canvas of dimensions `w` x `h`.
pub open spec fn image_diff(src: Seq<Color>, cur: Seq<Color>, w: int, h: int) -> int {
    grid_diff(src, cur, w, h)
}

pub proof fn lemma_row_diff_bounds(src: Seq<Color>, cur: Seq<Color>, w: int, y: int, x: int)
    requires
        x >= 0,
    ensures
        0 <= row_diff(src, cur, w, y, x) <= 1020 * x,
    decreases x,
{
    if x > 0 {
        lemma_row_diff_bounds(src, cur, w, y, x - 1);
    }
}

pub proof fn lemma_grid_diff_bounds(src: Seq<Color>, cur: Seq<Color>, w: int, y: int)
    requires
        y >= 0,
        w >= 0,
    ensures
        0 <= grid_diff(src, cur, w, y) <= 1020 * w * y,
    decreases y,
{
    if y > 0 {
        lemma_grid_diff_bounds(src, cur, w, y - 1);
        lemma_row_diff_bounds(src, cur, w, y - 1, w);
        assert(1020 * w * (y - 1) + 1020 * w == 1020 * w * y) by (nonlinear_arith);
    }
}

/// The change in the pixel's contribution to the total difference if the
/// triangle were committed.
pub open spec fn pixel_delta(
    src: Seq<Color>,
    cur: Seq<Color>,
    w: int,
    t: Triangle,
    col: Color,
    x: int,
    y: int,
) -> int {
    if covered_spec(t, x, y) {
        pixel_diff_spec(src[y * w + x], blend_spec(cur[y * w + x], col)) - pixel_diff_spec(
            src[y * w + x],
            cur[y * w + x],
        )
    } else {
        0
    }
}

/// Score delta summed over columns `[0, x)` of row `y`.
pub open spec fn row_delta(
    src: Seq<Color>,
    cur: Seq<Color>,
    w: int,
    t: Triangle,
    col: Color,
    y: int,
    x: int,
) -> int
    decreases x,
{
    if x <= 0 {
        0
    } else {
        row_delta(src, cur, w, t, col, y, x - 1) + pixel_delta(src, cur, w, t, col, x - 1, y)
    }
}

/// Score delta summed over the full rows `[0, y)`.
pub open spec fn grid_delta(
    src: Seq<Color>,
    cur: Seq<Color>,
    w: int,
    t: Triangle,
    col: Color,
    y: int,
) -> int
    decreases y,
{
    if y <= 0 {
        0
    } else {
        grid_delta(src, cur, w, t, col, y - 1) + row_delta(src, cur, w, t, col, y - 1, w)
    }
}

/// The score a candidate triangle earns against a canvas whose total
/// difference is `total`: the running total adjusted by the delta of every
/// pixel the commit would repaint.
pub open spec fn candidate_score_spec(
    total: int,
    src: Seq<Color>,
    cur: Seq<Color>,
    w: int,
    h: int,
    t: Triangle,
    col: Color,
) -> int {
    total + grid_delta(src, cur, w, t, col, h)
}

pub proof fn lemma_row_delta_bounds(
    src: Seq<Color>,
    cur: Seq<Color>,
    w: int,
    t: Triangle,
    col: Color,
    y: int,
    x: int,
)
    requires
        x >= 0,
    ensures
        -1020 * x <= row_delta(src, cur, w, t, col, y, x) <= 1020 * x,
    decreases x,
{
    if x > 0 {
        lemma_row_delta_bounds(src, cur, w, t, col, y, x - 1);
        lemma_pixel_delta_bounds(src, cur, w, t, col, x - 1, y);
    }
}

pub proof fn lemma_pixel_delta_bounds(
    src: Seq<Color>,
    cur: Seq<Color>,
    w: int,
    t: Triangle,
    col: Color,
    x: int,
    y: int,
)
    ensures
        -1020 <= pixel_delta(src, cur, w, t, col, x, y) <= 1020,
{
    if covered_spec(t, x, y) {
        lemma_pixel_diff_bounds(src[y * w + x], blend_spec(cur[y * w + x], col));
        lemma_pixel_diff_bounds(src[y * w + x], cur[y * w + x]);
    }
}

pub proof fn lemma_grid_delta_bounds(
    src: Seq<Color>,
    cur: Seq<Color>,
    w: int,
    t: Triangle,
    col: Color,
    y: int,
)
    requires
        y >= 0,
        w >= 0,
    ensures
        -(1020 * w * y) <= grid_delta(src, cur, w, t, col, y) <= 1020 * w * y,
    decreases y,
{
    if y > 0 {
        lemma_grid_delta_bounds(src, cur, w, t, col, y - 1);
        lemma_row_delta_bounds(src, cur, w, t, col, y - 1, w);
        assert(1020 * w * (y - 1) + 1020 * w == 1020 * w * y) by (nonlinear_arith);
    }
}

/// One row of the incremental-score theorem: if row `y` of `q` is the
/// committed image of row `y` of `cur`, the row difference moves by exactly
/// the row delta.
pub proof fn lemma_row_commit(
    src: Seq<Color>,
    cur: Seq<Color>,
    q: Seq<Color>,
    w: int,
    t: Triangle,
    col: Color,
    y: int,
    x: int,
)
    requires
        forall|xx: int|
            0 <= xx < x ==> q[y * w + xx] == committed_pixel_spec(cur, w, t, col, xx, y),
    ensures
        row_diff(src, q, w, y, x) == row_diff(src, cur, w, y, x) + row_delta(
            src,
            cur,
            w,
            t,
            col,
            y,
            x,
        ),
    decreases x,
{
    if x > 0 {
        lemma_row_commit(src, cur, q, w, t, col, y, x - 1);
        assert(q[y * w + (x - 1)] == committed_pixel_spec(cur, w, t, col, x - 1, y));
    }
}

/// The incremental-score theorem over the first `y` rows.
pub proof fn lemma_grid_commit(
    src: Seq<Color>,
    cur: Seq<Color>,
    q: Seq<Color>,
    w: int,
    t: Triangle,
    col: Color,
    y: int,
)
    requires
        forall|xx: int, yy: int|
            0 <= xx < w && 0 <= yy < y ==> q[yy * w + xx] == committed_pixel_spec(
                cur,
                w,
                t,
                col,
                xx,
                yy,
            ),
    ensures
        grid_diff(src, q, w, y) == grid_diff(src, cur, w, y) + grid_delta(src, cur, w, t, col, y),
    decreases y,
{
    if y > 0 {
        lemma_grid_commit(src, cur, q, w, t, col, y - 1);
        assert forall|xx: int|
            0 <= xx < w implies q[(y - 1) * w + xx] == #[trigger] committed_pixel_spec(
            cur,
            w,
            t,
            col,
            xx,
            y - 1,
        ) by {}
        lemma_row_commit(src, cur, q, w, t, col, y - 1, w);
    }
}

/// The candidate score really is the recomputed total difference: committing
/// a triangle onto `cur` yields `q`, and the full-image difference of `q`
/// equals the score the incremental scoring gave the candidate against `cur`.
pub proof fn lemma_score_is_recomputed_difference(
    src: Seq<Color>,
    cur: Seq<Color>,
    q: Seq<Color>,
    w: int,
    h: int,
    t: Triangle,
    col: Color,
)
    requires
        forall|xx: int, yy: int|
            0 <= xx < w && 0 <= yy < h ==> q[yy * w + xx] == committed_pixel_spec(
                cur,
                w,
                t,
                col,
                xx,
                yy,
            ),
    ensures
        image_diff(src, q, w, h) == candidate_score_spec(
            image_diff(src, cur, w, h),
            src,
            cur,
            w,
            h,
            t,
            col,
        ),
{
    lemma_grid_commit(src, cur, q, w, t, col, h);
}

/// Columns left of the bounding box contribute nothing to a row delta.
pub proof fn lemma_row_delta_zero_prefix(
    src: Seq<Color>,
    cur: Seq<Color>,
    w: int,
    t: Triangle,
    col: Color,
    y: int,
    x: int,
)
    requires
        x <= bbox_spec(t).top_left.x as int,
    ensures
        row_delta(src, cur, w, t, col, y, x) == 0,
    decreases x,
{
    if x > 0 {
        lemma_row_delta_zero_prefix(src, cur, w, t, col, y, x - 1);
        assert(!covered_spec(t, x - 1, y));
    }
}

/// Columns right of the bounding box leave a row delta unchanged.
pub proof fn lemma_row_delta_const_suffix(
    src: Seq<Color>,
    cur: Seq<Color>,
    w: int,
    t: Triangle,
    col: Color,
    y: int,
    x: int,
)
    requires
        bbox_spec(t).bottom_right.x as int <= x,
    ensures
        row_delta(src, cur, w, t, col, y, x) == row_delta(
            src,
            cur,
            w,
            t,
            col,
            y,
            bbox_spec(t).bottom_right.x as int,
        ),
    decreases x - bbox_spec(t).bottom_right.x as int,
{
    if x > bbox_spec(t).bottom_right.x as int {
        lemma_row_delta_const_suffix(src, cur, w, t, col, y, x - 1);
        assert(!covered_spec(t, x - 1, y));
    }
}

/// Rows outside the bounding box have a zero row delta.
pub proof fn lemma_row_delta_zero_row(
    src: Seq<Color>,
    cur: Seq<Color>,
    w: int,
    t: Triangle,
    col: Color,
    y: int,
    x: int,
)
    requires
        y < bbox_spec(t).top_left.y as int || bbox_spec(t).bottom_right.y as int <= y,
    ensures
        row_delta(src, cur, w, t, col, y, x) == 0,
    decreases x,
{
    if x > 0 {
        lemma_row_delta_zero_row(src, cur, w, t, col, y, x - 1);
        assert(!covered_spec(t, x - 1, y));
    }
}

/// Rows above the bounding box contribute nothing to the grid delta.
pub proof fn lemma_grid_delta_zero_prefix(
    src: Seq<Color>,
    cur: Seq<Color>,
    w: int,
    t: Triangle,
    col: Color,
    y: int,
)
    requires
        y <= bbox_spec(t).top_left.y as int,
    ensures
        grid_delta(src, cur, w, t, col, y) == 0,
    decreases y,
{
    if y > 0 {
        lemma_grid_delta_zero_prefix(src, cur, w, t, col, y - 1);
        lemma_row_delta_zero_row(src, cur, w, t, col, y - 1, w);
    }
}

/// Rows below the bounding box leave the grid delta unchanged.
pub proof fn lemma_grid_delta_const_suffix(
    src: Seq<Color>,
    cur: Seq<Color>,
    w: int,
    t: Triangle,
    col: Color,
    y: int,
)
    requires
        bbox_spec(t).bottom_right.y as int <= y,
    ensures
        grid_delta(src, cur, w, t, col, y) == grid_delta(
            src,
            cur,
            w,
            t,
            col,
            bbox_spec(t).bottom_right.y as int,
        ),
    decreases y - bbox_spec(t).bottom_right.y as int,
{
    if y > bbox_spec(t).bottom_right.y as int {
        lemma_grid_delta_const_suffix(src, cur, w, t, col, y - 1);
        lemma_row_delta_zero_row(src, cur, w, t, col, y - 1, w);
    }
}

/// A score can never drop below zero: the difference plus the delta of a row
/// stays non-negative.
pub proof fn lemma_row_score_nonneg(
    src: Seq<Color>,
    cur: Seq<Color>,
    w: int,
    t: Triangle,
    col: Color,
    y: int,
    x: int,
)
    requires
        x >= 0,
    ensures
        row_diff(src, cur, w, y, x) + row_delta(src, cur, w, t, col, y, x) >= 0,
    decreases x,
{
    if x > 0 {
        lemma_row_score_nonneg(src, cur, w, t, col, y, x - 1);
        if covered_spec(t, x - 1, y) {
            lemma_pixel_diff_bounds(
                src[y * w + (x - 1)],
                blend_spec(cur[y * w + (x - 1)], col),
            );
        } else {
            lemma_pixel_diff_bounds(src[y * w + (x - 1)], cur[y * w + (x - 1)]);
        }
    }
}

/// A candidate score is non-negative when the running total is the true
/// difference.
pub proof fn lemma_grid_score_nonneg(
    src: Seq<Color>,
    cur: Seq<Color>,
    w: int,
    t: Triangle,
    col: Color,
    y: int,
)
    requires
        y >= 0,
        w >= 0,
    ensures
        grid_diff(src, cur, w, y) + grid_delta(src, cur, w, t, col, y) >= 0,
    decreases y,
{
    if y > 0 {
        lemma_grid_score_nonneg(src, cur, w, t, col, y - 1);
        lemma_row_score_nonneg(src, cur, w, t, col, y - 1, w);
    }
}

/// Bound used while accumulating a total difference: the partial sums stay
/// far below the width of the accumulator.
pub proof fn lemma_partial_diff_bound(
    w: int,
    h: int,
    y: int,
    x: int,
    g: int,
    r: int,
) by (nonlinear_arith)
    requires
        0 <= x < w,
        0 <= y < h,
        w * h <= 0x4000_0000,
        0 <= g <= 1020 * w * y,
        0 <= r <= 1020 * x,
    ensures
        g + r + 1020 <= 1020 * 0x4000_0000,
{
}

/// Bound used while accumulating a score delta: the running score stays far
/// inside `i64`.
pub proof fn lemma_partial_delta_bound(
    w: int,
    h: int,
    y: int,
    x: int,
    total: int,
    g: int,
    r: int,
) by (nonlinear_arith)
    requires
        0 <= x <= w,
        0 <= y <= h,
        w <= 0x4000_0000,
        w * h <= 0x4000_0000,
        0 <= total <= 1020 * w * h,
        -(1020 * w * y) <= g <= 1020 * w * y,
        -(1020 * x) <= r <= 1020 * x,
    ensures
        -0x1_0000_0000_0000 <= total + g + r - 1020,
        total + g + r + 1020 <= 0x1_0000_0000_0000,
{
}

/// The number of pixels a bounding-box walk has visited never exceeds the
/// pixel count of the image.
pub proof fn lemma_rect_count_bound(
    x0: int,
    x1: int,
    y0: int,
    y1: int,
    w: int,
    h: int,
    y: int,
    x: int,
) by (nonlinear_arith)
    requires
        0 <= x0 <= x1 <= w,
        0 <= y0 <= y1 <= h,
        y0 <= y < y1,
        x0 <= x <= x1,
        w * h <= 0x4000_0000,
    ensures
        0 <= (y - y0) * (x1 - x0) + (x - x0),
        (y - y0) * (x1 - x0) + (x - x0) <= (y1 - y0) * (x1 - x0),
        (y1 - y0) * (x1 - x0) <= w * h,
{
}

/// One channel of the source summed over columns `[x0, x)` of row `y`.
pub open spec fn chan_row_sum(src: Seq<Color>, w: int, k: int, y: int, x0: int, x: int) -> int
    decreases x - x0,
{
    if x <= x0 {
        0
    } else {
        chan_row_sum(src, w, k, y, x0, x - 1) + src[y * w + (x - 1)].channel(k)
    }
}

/// One channel of the source summed over the rectangle
/// `[x0, x1) x [y0, y)`.
pub open spec fn chan_rect_sum(
    src: Seq<Color>,
    w: int,
    k: int,
    x0: int,
    x1: int,
    y0: int,
    y: int,
) -> int
    decreases y - y0,
{
    if y <= y0 {
        0
    } else {
        chan_rect_sum(src, w, k, x0, x1, y0, y - 1) + chan_row_sum(src, w, k, y - 1, x0, x1)
    }
}

pub proof fn lemma_chan_row_sum_bounds(
    src: Seq<Color>,
    w: int,
    k: int,
    y: int,
    x0: int,
    x: int,
)
    requires
        x0 <= x,
    ensures
        0 <= chan_row_sum(src, w, k, y, x0, x) <= 255 * (x - x0),
    decreases x - x0,
{
    if x > x0 {
        lemma_chan_row_sum_bounds(src, w, k, y, x0, x - 1);
    }
}

pub proof fn lemma_chan_rect_sum_bounds(
    src: Seq<Color>,
    w: int,
    k: int,
    x0: int,
    x1: int,
    y0: int,
    y: int,
)
    requires
        y0 <= y,
        x0 <= x1,
    ensures
        0 <= chan_rect_sum(src, w, k, x0, x1, y0, y) <= 255 * (x1 - x0) * (y - y0),
    decreases y - y0,
{
    if y > y0 {
        lemma_chan_rect_sum_bounds(src, w, k, x0, x1, y0, y - 1);
        lemma_chan_row_sum_bounds(src, w, k, y - 1, x0, x1);
        assert(255 * (x1 - x0) * (y - 1 - y0) + 255 * (x1 - x0) == 255 * (x1 - x0) * (y - y0))
            by (nonlinear_arith);
    }
}

/// The fill color a candidate receives: the channelwise mean of the source
/// over the candidate's bounding-box rectangle (the whole rectangle, not just
/// the triangle's interior), or opaque white when the rectangle is empty.
pub open spec fn fill_color_spec(src: Seq<Color>, w: int, t: Triangle) -> Color {
    let bb = bbox_spec(t);
    let x0 = bb.top_left.x as int;
    let x1 = bb.bottom_right.x as int;
    let y0 = bb.top_left.y as int;
    let y1 = bb.bottom_right.y as int;
    let count = (x1 - x0) * (y1 - y0);
    if count <= 0 {
        Color::white_spec()
    } else {
        Color {
            r: (chan_rect_sum(src, w, 0, x0, x1, y0, y1) / count) as u8,
            g: (chan_rect_sum(src, w, 1, x0, x1, y0, y1) / count) as u8,
            b: (chan_rect_sum(src, w, 2, x0, x1, y0, y1) / count) as u8,
            a: (chan_rect_sum(src, w, 3, x0, x1, y0, y1) / count) as u8,
        }
    }
}

/// The three point indices of a candidate stay inside the drawn point
/// sequence.
pub proof fn lemma_candidate_index(it: int, s: int, iter: int, j: int) by (nonlinear_arith)
    requires
        0 <= iter < it,
        0 <= j < s,
    ensures
        0 <= iter * s + j,
        iter * s + j < it * s,
        3 * (iter * s + j) + 2 < 3 * it * s,
        3 * (iter * s + j) == 3 * (iter * s) + 3 * j,
{
}

/// The candidate triangle with (candidate) index `j`: its vertices are the
/// points `3j`, `3j + 1` and `3j + 2` of the drawn point sequence, its double
/// area already cached, no color yet.
pub open spec fn cand_tri_spec(pts: Seq<Point>, j: int) -> Triangle {
    let base = Triangle {
        a: pts[3 * j],
        b: pts[3 * j + 1],
        c: pts[3 * j + 2],
        color: None,
        double_area: None,
    };
    Triangle { double_area: Some(base.double_area_spec() as i128), ..base }
}

/// Evaluating a candidate: it is colored with the bounding-box mean of the
/// source and scored against the current canvas.
pub open spec fn eval_pair_spec(
    src: Seq<Color>,
    cur: Seq<Color>,
    w: int,
    h: int,
    total: int,
    t: Triangle,
) -> (Triangle, int) {
    let col = fill_color_spec(src, w, t);
    let tc = Triangle { color: Some(col), ..t };
    (tc, candidate_score_spec(total, src, cur, w, h, tc, col))
}

/// The evaluated candidate with index `j` of the drawn point sequence.
pub open spec fn cand_eval_spec(
    src: Seq<Color>,
    cur: Seq<Color>,
    w: int,
    h: int,
    total: int,
    pts: Seq<Point>,
    j: int,
) -> (Triangle, int) {
    eval_pair_spec(src, cur, w, h, total, cand_tri_spec(pts, j))
}

/// The local index (below `n`) of the first candidate with minimal score
/// among the candidates `base`, `base + 1`, ..., `base + n - 1`.
pub open spec fn best_local_spec(
    src: Seq<Color>,
    cur: Seq<Color>,
    w: int,
    h: int,
    total: int,
    pts: Seq<Point>,
    base: int,
    n: int,
) -> int
    decreases n,
{
    if n <= 1 {
        0
    } else {
        let prev = best_local_spec(src, cur, w, h, total, pts, base, n - 1);
        if cand_eval_spec(src, cur, w, h, total, pts, base + n - 1).1 < cand_eval_spec(
            src,
            cur,
            w,
            h,
            total,
            pts,
            base + prev,
        ).1 {
            n - 1
        } else {
            prev
        }
    }
}

pub proof fn lemma_best_local_in_range(
    src: Seq<Color>,
    cur: Seq<Color>,
    w: int,
    h: int,
    total: int,
    pts: Seq<Point>,
    base: int,
    n: int,
)
    requires
        n >= 1,
    ensures
        0 <= best_local_spec(src, cur, w, h, total, pts, base, n) < n,
    decreases n,
{
    if n > 1 {
        lemma_best_local_in_range(src, cur, w, h, total, pts, base, n - 1);
    }
}

/// The selected candidate really scores no worse than any sampled candidate.
pub proof fn lemma_best_local_is_min(
    src: Seq<Color>,
    cur: Seq<Color>,
    w: int,
    h: int,
    total: int,
    pts: Seq<Point>,
    base: int,
    n: int,
)
    requires
        n >= 1,
    ensures
        forall|j: int|
            0 <= j < n ==> cand_eval_spec(
                src,
                cur,
                w,
                h,
                total,
                pts,
                base + best_local_spec(src, cur, w, h, total, pts, base, n),
            ).1 <= #[trigger] cand_eval_spec(src, cur, w, h, total, pts, base + j).1,
    decreases n,
{
    if n > 1 {
        lemma_best_local_is_min(src, cur, w, h, total, pts, base, n - 1);
    }
}

/// A fresh canvas as a pixel sequence: all zero-valued pixels.
pub open spec fn blank_canvas_spec(len: nat) -> Seq<Color> {
    Seq::new(len, |i: int| Color::black_spec())
}

/// The whole canvas after committing a triangle, as a pixel sequence.
pub open spec fn commit_seq(cur: Seq<Color>, w: int, t: Triangle, col: Color) -> Seq<Color> {
    Seq::new(cur.len(), |i: int| committed_pixel_spec(cur, w, t, col, i % w, i / w))
}

/// A sequence that pointwise holds the committed pixels is the committed
/// canvas.
pub proof fn lemma_commit_seq_pointwise(
    cur: Seq<Color>,
    q: Seq<Color>,
    w: int,
    h: int,
    t: Triangle,
    col: Color,
)
    requires
        w >= 1,
        h >= 0,
        cur.len() == w * h,
        q.len() == w * h,
        forall|xx: int, yy: int|
            0 <= xx < w && 0 <= yy < h ==> q[yy * w + xx] == #[trigger] committed_pixel_spec(
                cur,
                w,
                t,
                col,
                xx,
                yy,
            ),
    ensures
        q == commit_seq(cur, w, t, col),
{
    assert forall|i: int| 0 <= i < q.len() implies q[i] == commit_seq(cur, w, t, col)[i] by {
        let xx = i % w;
        let yy = i / w;
        vstd::arithmetic::div_mod::lemma_fundamental_div_mod(i, w);
        assert(0 <= xx < w && 0 <= yy < h && yy * w + xx == i) by (nonlinear_arith)
            requires
                w >= 1,
                0 <= i < w * h,
                i == w * yy + xx,
                xx == i % w,
                0 <= i % w < w,
        ;
        assert(q[yy * w + xx] == committed_pixel_spec(cur, w, t, col, xx, yy));
    }
    assert(q =~= commit_seq(cur, w, t, col));
}

/// One greedy iteration: evaluate the `samples` candidates starting at
/// candidate index `base`, pick the first minimum, commit it, and adopt its
/// score as the new running total.
pub open spec fn iterate_spec(
    src: Seq<Color>,
    w: int,
    h: int,
    cur: Seq<Color>,
    total: int,
    pts: Seq<Point>,
    base: int,
    samples: int,
) -> (Seq<Color>, int) {
    let j = best_local_spec(src, cur, w, h, total, pts, base, samples);
    let pair = cand_eval_spec(src, cur, w, h, total, pts, base + j);
    (commit_seq(cur, w, pair.0, fill_of(pair.0)), pair.1)
}

/// The whole greedy run: starting from a blank canvas and its true
/// difference, fold `iters` iterations, each consuming `samples` candidates
/// (three points per candidate) from the drawn point sequence.
pub open spec fn run_spec(
    src: Seq<Color>,
    w: int,
    h: int,
    pts: Seq<Point>,
    samples: int,
    iters: int,
) -> (Seq<Color>, int)
    decreases iters,
{
    if iters <= 0 {
        (blank_canvas_spec(src.len()), grid_diff(src, blank_canvas_spec(src.len()), w, h))
    } else {
        let prev = run_spec(src, w, h, pts, samples, iters - 1);
        iterate_spec(src, w, h, prev.0, prev.1, pts, (iters - 1) * samples, samples)
    }
}

/// A degenerate (collinear) triangle contains no point at all.
pub proof fn lemma_degenerate_no_interior(t: Triangle, px: int, py: int)
    requires
        t.double_area_spec() == 0,
    ensures
        !inside_spec(t, px, py),
{
}

/// A degenerate candidate repaints nothing, so its row deltas vanish ...
proof fn lemma_degenerate_row_delta(
    src: Seq<Color>,
    cur: Seq<Color>,
    w: int,
    t: Triangle,
    col: Color,
    y: int,
    x: int,
)
    requires
        t.double_area_spec() == 0,
    ensures
        row_delta(src, cur, w, t, col, y, x) == 0,
    decreases x,
{
    if x > 0 {
        lemma_degenerate_row_delta(src, cur, w, t, col, y, x - 1);
        assert(!covered_spec(t, x - 1, y));
    }
}

/// ... and so do its grid deltas: its score is exactly the running total.
pub proof fn lemma_degenerate_scores_total(
    src: Seq<Color>,
    cur: Seq<Color>,
    w: int,
    h: int,
    total: int,
    t: Triangle,
    col: Color,
)
    requires
        t.double_area_spec() == 0,
    ensures
        candidate_score_spec(total, src, cur, w, h, t, col) == total,
{
    lemma_degenerate_grid_delta(src, cur, w, t, col, h);
}

proof fn lemma_degenerate_grid_delta(
    src: Seq<Color>,
    cur: Seq<Color>,
    w: int,
    t: Triangle,
    col: Color,
    y: int,
)
    requires
        t.double_area_spec() == 0,
    ensures
        grid_delta(src, cur, w, t, col, y) == 0,
    decreases y,
{
    if y > 0 {
        lemma_degenerate_grid_delta(src, cur, w, t, col, y - 1);
        lemma_degenerate_row_delta(src, cur, w, t, col, y - 1, w);
    }
}

/// Committing a degenerate candidate leaves the canvas untouched.
pub proof fn lemma_degenerate_commit_noop(cur: Seq<Color>, w: int, t: Triangle, col: Color)
    requires
        t.double_area_spec() == 0,
        w >= 1,
    ensures
        commit_seq(cur, w, t, col) == cur,
{
    assert forall|i: int| 0 <= i < cur.len() implies commit_seq(cur, w, t, col)[i] == cur[i] by {
        vstd::arithmetic::div_mod::lemma_fundamental_div_mod(i, w);
        assert(!covered_spec(t, i % w, i / w));
        assert((i / w) * w + i % w == i) by (nonlinear_arith)
            requires
                i == w * (i / w) + i % w,
        ;
    }
    assert(commit_seq(cur, w, t, col) =~= cur);
}

/// The score an iteration commits is a true minimum: no sampled candidate of
/// that iteration scores lower.
pub proof fn lemma_iterate_is_min(
    src: Seq<Color>,
    cur: Seq<Color>,
    w: int,
    h: int,
    total: int,
    pts: Seq<Point>,
    base: int,
    samples: int,
)
    requires
        samples >= 1,
    ensures
        forall|j: int|
            0 <= j < samples ==> iterate_spec(src, w, h, cur, total, pts, base, samples).1
                <= #[trigger] cand_eval_spec(src, cur, w, h, total, pts, base + j).1,
{
    lemma_best_local_is_min(src, cur, w, h, total, pts, base, samples);
}

/// Monotonicity of the running total: as long as one sampled candidate of
/// the iteration is degenerate (it repaints nothing and therefore scores
/// exactly the running total), the committed score cannot exceed the total
/// the iteration started from.
pub proof fn lemma_monotone_with_degenerate(
    src: Seq<Color>,
    cur: Seq<Color>,
    w: int,
    h: int,
    total: int,
    pts: Seq<Point>,
    base: int,
    samples: int,
    j: int,
)
    requires
        samples >= 1,
        0 <= j < samples,
        cand_tri_spec(pts, base + j).double_area_spec() == 0,
    ensures
        iterate_spec(src, w, h, cur, total, pts, base, samples).1 <= total,
{
    lemma_iterate_is_min(src, cur, w, h, total, pts, base, samples);
    let t = cand_tri_spec(pts, base + j);
    let col = fill_color_spec(src, w, t);
    let tc = Triangle { color: Some(col), ..t };
    assert(tc.double_area_spec() == 0);
    lemma_degenerate_scores_total(src, cur, w, h, total, tc, col);
    assert(cand_eval_spec(src, cur, w, h, total, pts, base + j).1 == total);
}

/// Two runs from the same source, the same drawn points and the same
/// parameters commit byte-identical canvases with identical totals: the
/// greedy run is a function of its inputs.
pub proof fn lemma_rerun_identical(
    src: Seq<Color>,
    w: int,
    h: int,
    pts1: Seq<Point>,
    pts2: Seq<Point>,
    samples: int,
    iters: int,
)
    requires
        pts1 == pts2,
    ensures
        run_spec(src, w, h, pts1, samples, iters) == run_spec(src, w, h, pts2, samples, iters),
{
}

} // verus!
