use vstd::prelude::*;

use rayon::iter::IntoParallelRefIterator;
use rayon::iter::ParallelIterator;

use crate::model;
use crate::raster::Color;
use crate::raster::Image;
use crate::BoundingBox;
use crate::Filter;
use crate::Point;
use crate::PointGenerator;
use crate::ProgressReporter;

verus! {

/// The failures a run can report.
#[derive(Clone, Copy, Debug, PartialEq, Eq, Structural)]
pub enum FilterError {
    /// The configuration asks for zero candidates per iteration, so no
    /// primitive could ever be selected.
    NoCandidateAvailable,
}

/// A flat-colored triangle candidate.
///
/// The signed double area `cross(b - a, c - a)` is computed once and cached;
/// the containment test divides by it only implicitly, through sign-aware
/// comparisons, so the test is exact. A triangle with double area zero is
/// degenerate and contains no pixel.
#[derive(Debug, Copy, Clone)]
pub struct Triangle {
    pub a: Point,
    pub b: Point,
    pub c: Point,
    pub color: Option<Color>,
    pub double_area: Option<i128>,
}

impl Triangle {
    /// The signed double area of the triangle: `cross(b - a, c - a)`.
    pub open spec fn double_area_spec(self) -> int {
        (self.b.x - self.a.x) * (self.c.y - self.a.y) - (self.b.y - self.a.y) * (self.c.x
            - self.a.x)
    }

    /// A cached double area, when present, is the true one.
    pub open spec fn wf(self) -> bool {
        self.double_area matches Some(d) ==> d == self.double_area_spec()
    }

    pub fn new(a: Point, b: Point, c: Point) -> (t: Triangle)
        ensures
            t == (Triangle { a, b, c, color: None::<Color>, double_area: None::<i128> }),
            t.wf(),
    {
        Triangle { a, b, c, color: None, double_area: None }
    }

    /// The signed double area, read from the cache when one is present.
    pub fn double_area(&self) -> (d: i128)
        requires
            self.wf(),
        ensures
            d == self.double_area_spec(),
    {
        match self.double_area {
            Some(d) => d,
            None => {
                proof {
                    model::lemma_i32_diff_product_fits(self.b.x as int, self.a.x as int,
                        self.c.y as int, self.a.y as int);
                    model::lemma_i32_diff_product_fits(self.b.y as int, self.a.y as int,
                        self.c.x as int, self.a.x as int);
                }
                let sax: i128 = (self.b.x as i128) - (self.a.x as i128);
                let say: i128 = (self.b.y as i128) - (self.a.y as i128);
                let sbx: i128 = (self.c.x as i128) - (self.a.x as i128);
                let sby: i128 = (self.c.y as i128) - (self.a.y as i128);
                sax * sby - say * sbx
            },
        }
    }

    /// Barycentric containment test with edge pixels included; a degenerate
    /// (collinear) triangle contains no point at all.
    pub fn is_inside(&self, p: Point) -> (r: bool)
        requires
            self.wf(),
        ensures
            r == model::inside_spec(*self, p.x as int, p.y as int),
    {
        let d: i128 = self.double_area();
        if d == 0 {
            return false;
        }
        proof {
            model::lemma_i32_diff_product_fits(p.x as int, self.a.x as int, self.c.y as int,
                self.a.y as int);
            model::lemma_i32_diff_product_fits(p.y as int, self.a.y as int, self.c.x as int,
                self.a.x as int);
            model::lemma_i32_diff_product_fits(self.b.x as int, self.a.x as int, p.y as int,
                self.a.y as int);
            model::lemma_i32_diff_product_fits(self.b.y as int, self.a.y as int, p.x as int,
                self.a.x as int);
        }
        let sn: i128 = (p.x as i128 - self.a.x as i128) * (self.c.y as i128 - self.a.y as i128)
            - (p.y as i128 - self.a.y as i128) * (self.c.x as i128 - self.a.x as i128);
        let tn: i128 = (self.b.x as i128 - self.a.x as i128) * (p.y as i128 - self.a.y as i128)
            - (self.b.y as i128 - self.a.y as i128) * (p.x as i128 - self.a.x as i128);
        if d > 0 {
            sn >= 0 && tn >= 0 && sn + tn <= d
        } else {
            sn <= 0 && tn <= 0 && sn + tn >= d
        }
    }

    /// The axis-aligned bounding box of the three vertices.
    pub fn bounding_box(&self) -> (bb: BoundingBox)
        ensures
            bb == model::bbox_spec(*self),
    {
        let min_x: i32 = if self.a.x <= self.b.x && self.a.x <= self.c.x {
            self.a.x
        } else if self.b.x <= self.c.x {
            self.b.x
        } else {
            self.c.x
        };
        let min_y: i32 = if self.a.y <= self.b.y && self.a.y <= self.c.y {
            self.a.y
        } else if self.b.y <= self.c.y {
            self.b.y
        } else {
            self.c.y
        };
        let max_x: i32 = if self.a.x >= self.b.x && self.a.x >= self.c.x {
            self.a.x
        } else if self.b.x >= self.c.x {
            self.b.x
        } else {
            self.c.x
        };
        let max_y: i32 = if self.a.y >= self.b.y && self.a.y >= self.c.y {
            self.a.y
        } else if self.b.y >= self.c.y {
            self.b.y
        } else {
            self.c.y
        };
        BoundingBox {
            top_left: Point { x: min_x, y: min_y },
            bottom_right: Point { x: max_x, y: max_y },
        }
    }

    pub fn get_color(&self) -> (c: Option<Color>)
        ensures
            c == self.color,
    {
        self.color
    }

    pub fn set_color(&mut self, color: Color)
        ensures
            *final(self) == (Triangle { color: Some(color), ..*old(self) }),
    {
        self.color = Some(color);
    }

    /// Compute the double area once and remember it for later containment
    /// queries.
    pub fn cache_double_area(&mut self)
        requires
            old(self).wf(),
        ensures
            *final(self) == (Triangle {
                double_area: Some(old(self).double_area_spec() as i128),
                ..*old(self)
            }),
            final(self).wf(),
    {
        let d: i128 = self.double_area();
        self.double_area = Some(d);
    }
}

/// The 50% flat composite of two colors: each channel the floor of the mean.
/// The operation is symmetric in its arguments.
pub fn mix_color(first: Color, second: Color) -> (r: Color)
    ensures
        r == model::blend_spec(first, second),
{
    Color {
        r: (((first.r as u32) + (second.r as u32)) / 2) as u8,
        g: (((first.g as u32) + (second.g as u32)) / 2) as u8,
        b: (((first.b as u32) + (second.b as u32)) / 2) as u8,
        a: (((first.a as u32) + (second.a as u32)) / 2) as u8,
    }
}

/// L1 color distance: the four channel differences summed, at most 1020.
pub fn difference(first: Color, second: Color) -> (d: u32)
    ensures
        d == model::pixel_diff_spec(first, second),
{
    let dr: u32 = if first.r >= second.r {
        (first.r - second.r) as u32
    } else {
        (second.r - first.r) as u32
    };
    let dg: u32 = if first.g >= second.g {
        (first.g - second.g) as u32
    } else {
        (second.g - first.g) as u32
    };
    let db: u32 = if first.b >= second.b {
        (first.b - second.b) as u32
    } else {
        (second.b - first.b) as u32
    };
    let da: u32 = if first.a >= second.a {
        (first.a - second.a) as u32
    } else {
        (second.a - first.a) as u32
    };
    dr + dg + db + da
}

/// The total difference between two images of equal dimensions, recomputed
/// from scratch pixel by pixel.
pub fn calculate_difference_image(a: &Image, b: &Image) -> (d: u64)
    requires
        a.wf(),
        b.wf(),
        a.width == b.width,
        a.height == b.height,
    ensures
        d as int == model::image_diff(a.pixels@, b.pixels@, a.width as int, a.height as int),
{
    let w: u32 = a.width;
    let h: u32 = a.height;
    let mut total: u64 = 0;
    let mut y: u32 = 0;
    while y < h
        invariant
            y <= h,
            a.wf(),
            b.wf(),
            a.width == w,
            a.height == h,
            b.width == w,
            b.height == h,
            total as int == model::grid_diff(a.pixels@, b.pixels@, w as int, y as int),
            total <= 1020 * 0x4000_0000,
        decreases h - y,
    {
        let mut x: u32 = 0;
        while x < w
            invariant
                x <= w,
                y < h,
                a.wf(),
                b.wf(),
                a.width == w,
                a.height == h,
                b.width == w,
                b.height == h,
                total as int == model::grid_diff(a.pixels@, b.pixels@, w as int, y as int)
                    + model::row_diff(a.pixels@, b.pixels@, w as int, y as int, x as int),
                total <= 1020 * 0x4000_0000,
            decreases w - x,
        {
            let pd: u32 = difference(a.get_pixel(x, y), b.get_pixel(x, y));
            proof {
                model::lemma_grid_diff_bounds(a.pixels@, b.pixels@, w as int, y as int);
                model::lemma_row_diff_bounds(a.pixels@, b.pixels@, w as int, y as int, x as int);
                model::lemma_partial_diff_bound(
                    w as int,
                    h as int,
                    y as int,
                    x as int,
                    model::grid_diff(a.pixels@, b.pixels@, w as int, y as int),
                    model::row_diff(a.pixels@, b.pixels@, w as int, y as int, x as int),
                );
            }
            total = total + (pd as u64);
            x = x + 1;
        }
        y = y + 1;
    }
    total
}

/// The mean source color over the candidate's bounding-box rectangle (the
/// whole rectangle, deliberately not masked to the triangle's interior), or
/// opaque white when the rectangle is empty.
pub fn calculate_color(image: &Image, primitive: &Triangle) -> (c: Color)
    requires
        image.wf(),
        model::tri_in_dims(*primitive, image.width as int, image.height as int),
    ensures
        c == model::fill_color_spec(image.pixels@, image.width as int, *primitive),
{
    let w: u32 = image.width;
    let h: u32 = image.height;
    let bb = primitive.bounding_box();
    let x0: u32 = bb.top_left.x as u32;
    let x1: u32 = bb.bottom_right.x as u32;
    let y0: u32 = bb.top_left.y as u32;
    let y1: u32 = bb.bottom_right.y as u32;
    let ghost src = image.pixels@;
    let ghost t = *primitive;

    let mut count: u64 = 0;
    let mut cr: u64 = 0;
    let mut cg: u64 = 0;
    let mut cb: u64 = 0;
    let mut ca: u64 = 0;

    let mut y: u32 = y0;
    while y < y1
        invariant
            image.wf(),
            image.width == w,
            image.height == h,
            src == image.pixels@,
            x0 as int == model::bbox_spec(t).top_left.x as int,
            x1 as int == model::bbox_spec(t).bottom_right.x as int,
            y0 as int == model::bbox_spec(t).top_left.y as int,
            y1 as int == model::bbox_spec(t).bottom_right.y as int,
            0 <= x0 <= x1 < w,
            0 <= y0 <= y <= y1 < h,
            count as int == (y - y0) * (x1 - x0),
            count as int <= (w as int) * (h as int),
            cr as int == model::chan_rect_sum(src, w as int, 0, x0 as int, x1 as int, y0 as int, y as int),
            cg as int == model::chan_rect_sum(src, w as int, 1, x0 as int, x1 as int, y0 as int, y as int),
            cb as int == model::chan_rect_sum(src, w as int, 2, x0 as int, x1 as int, y0 as int, y as int),
            ca as int == model::chan_rect_sum(src, w as int, 3, x0 as int, x1 as int, y0 as int, y as int),
            cr <= 255 * count,
            cg <= 255 * count,
            cb <= 255 * count,
            ca <= 255 * count,
        decreases y1 - y,
    {
        let mut x: u32 = x0;
        while x < x1
            invariant
                image.wf(),
                image.width == w,
                image.height == h,
                src == image.pixels@,
                x0 as int == model::bbox_spec(t).top_left.x as int,
                x1 as int == model::bbox_spec(t).bottom_right.x as int,
                y0 as int == model::bbox_spec(t).top_left.y as int,
                y1 as int == model::bbox_spec(t).bottom_right.y as int,
                0 <= x0 <= x <= x1 < w,
                0 <= y0 <= y < y1 < h,
                count as int == (y - y0) * (x1 - x0) + (x - x0),
                count as int <= (w as int) * (h as int),
                cr as int == model::chan_rect_sum(src, w as int, 0, x0 as int, x1 as int, y0 as int, y as int)
                    + model::chan_row_sum(src, w as int, 0, y as int, x0 as int, x as int),
                cg as int == model::chan_rect_sum(src, w as int, 1, x0 as int, x1 as int, y0 as int, y as int)
                    + model::chan_row_sum(src, w as int, 1, y as int, x0 as int, x as int),
                cb as int == model::chan_rect_sum(src, w as int, 2, x0 as int, x1 as int, y0 as int, y as int)
                    + model::chan_row_sum(src, w as int, 2, y as int, x0 as int, x as int),
                ca as int == model::chan_rect_sum(src, w as int, 3, x0 as int, x1 as int, y0 as int, y as int)
                    + model::chan_row_sum(src, w as int, 3, y as int, x0 as int, x as int),
                cr <= 255 * count,
                cg <= 255 * count,
                cb <= 255 * count,
                ca <= 255 * count,
            decreases x1 - x,
        {
            let px: Color = image.get_pixel(x, y);
            proof {
                model::lemma_rect_count_bound(x0 as int, x1 as int, y0 as int, y1 as int,
                    w as int, h as int, y as int, x as int + 1);
            }
            cr = cr + (px.r as u64);
            cg = cg + (px.g as u64);
            cb = cb + (px.b as u64);
            ca = ca + (px.a as u64);
            count = count + 1;
            x = x + 1;
        }
        proof {
            assert((y as int + 1 - y0) * (x1 - x0) == (y - y0) * (x1 - x0) + (x1 - x0))
                by (nonlinear_arith);
        }
        y = y + 1;
    }

    if count == 0 {
        proof {
            assert((x1 as int - x0 as int) * (y1 as int - y0 as int) == (y1 as int - y0 as int) * (
            x1 as int - x0 as int)) by (nonlinear_arith);
        }
        Color::white()
    } else {
        proof {
            assert((x1 as int - x0 as int) * (y1 as int - y0 as int) == (y1 as int - y0 as int) * (
            x1 as int - x0 as int)) by (nonlinear_arith);
            vstd::arithmetic::div_mod::lemma_multiply_divide_le(cr as int, count as int, 255);
            vstd::arithmetic::div_mod::lemma_multiply_divide_le(cg as int, count as int, 255);
            vstd::arithmetic::div_mod::lemma_multiply_divide_le(cb as int, count as int, 255);
            vstd::arithmetic::div_mod::lemma_multiply_divide_le(ca as int, count as int, 255);
        }
        Color { r: (cr / count) as u8, g: (cg / count) as u8, b: (cb / count) as u8, a: (ca
            / count) as u8 }
    }
}

/// Commit a colored triangle onto the image: every pixel of the bounding-box
/// rectangle that passes the containment test is blended with the fill
/// color; every other pixel is untouched.
pub fn add_to_image(image: &mut Image, primitive: &Triangle)
    requires
        old(image).wf(),
        primitive.wf(),
        primitive.color is Some,
        model::tri_in_dims(*primitive, old(image).width as int, old(image).height as int),
    ensures
        final(image).wf(),
        final(image).width == old(image).width,
        final(image).height == old(image).height,
        forall|xx: int, yy: int|
            0 <= xx < old(image).width && 0 <= yy < old(image).height ==> final(
                image
            ).pixels@[yy * (old(image).width as int) + xx] == #[trigger] model::committed_pixel_spec(
                old(image).pixels@,
                old(image).width as int,
                *primitive,
                model::fill_of(*primitive),
                xx,
                yy,
            ),
{
    let w: u32 = image.width;
    let h: u32 = image.height;
    let bb = primitive.bounding_box();
    let x0: u32 = bb.top_left.x as u32;
    let x1: u32 = bb.bottom_right.x as u32;
    let y0: u32 = bb.top_left.y as u32;
    let y1: u32 = bb.bottom_right.y as u32;
    let fill: Color = match primitive.get_color() {
        Some(c) => c,
        None => Color::black(),
    };
    let ghost orig = old(image).pixels@;
    let ghost t = *primitive;
    let ghost col = model::fill_of(*primitive);

    let mut y: u32 = y0;
    while y < y1
        invariant
            image.wf(),
            image.width == w,
            image.height == h,
            image.pixels@.len() == orig.len(),
            primitive.wf(),
            t == *primitive,
            primitive.color == Some(fill),
            col == fill,
            model::tri_in_dims(t, w as int, h as int),
            x0 as int == model::bbox_spec(t).top_left.x as int,
            x1 as int == model::bbox_spec(t).bottom_right.x as int,
            y0 as int == model::bbox_spec(t).top_left.y as int,
            y1 as int == model::bbox_spec(t).bottom_right.y as int,
            0 <= x0 <= x1 < w,
            0 <= y0 <= y <= y1 < h,
            forall|xx: int, yy: int|
                0 <= xx < w && 0 <= yy < h ==> image.pixels@[yy * (w as int) + xx]
                    == #[trigger] model::walked_pixel_spec(
                    orig,
                    w as int,
                    t,
                    col,
                    x0 as int,
                    x1 as int,
                    y0 as int,
                    x0 as int,
                    y as int,
                    xx,
                    yy,
                ),
        decreases y1 - y,
    {
        let mut x: u32 = x0;
        while x < x1
            invariant
                image.wf(),
                image.width == w,
                image.height == h,
                image.pixels@.len() == orig.len(),
                primitive.wf(),
                t == *primitive,
                primitive.color == Some(fill),
                col == fill,
                model::tri_in_dims(t, w as int, h as int),
                x0 as int == model::bbox_spec(t).top_left.x as int,
                x1 as int == model::bbox_spec(t).bottom_right.x as int,
                y0 as int == model::bbox_spec(t).top_left.y as int,
                y1 as int == model::bbox_spec(t).bottom_right.y as int,
                0 <= x0 <= x <= x1 < w,
                0 <= y0 <= y < y1 < h,
                forall|xx: int, yy: int|
                    0 <= xx < w && 0 <= yy < h ==> image.pixels@[yy * (w as int) + xx]
                        == #[trigger] model::walked_pixel_spec(
                        orig,
                        w as int,
                        t,
                        col,
                        x0 as int,
                        x1 as int,
                        y0 as int,
                        x as int,
                        y as int,
                        xx,
                        yy,
                    ),
            decreases x1 - x,
        {
            let p = Point { x: x as i32, y: y as i32 };
            let ghost before = image.pixels@;
            if primitive.is_inside(p) {
                let cur: Color = image.get_pixel(x, y);
                let blended: Color = mix_color(fill, cur);
                image.set_pixel(x, y, blended);
            }
            proof {
                assert forall|xx: int, yy: int|
                    0 <= xx < w && 0 <= yy < h implies image.pixels@[yy * (w as int) + xx]
                    == #[trigger] model::walked_pixel_spec(
                    orig,
                    w as int,
                    t,
                    col,
                    x0 as int,
                    x1 as int,
                    y0 as int,
                    x as int + 1,
                    y as int,
                    xx,
                    yy,
                ) by {
                    let wi = w as int;
                    model::lemma_row_major_index(xx, yy, wi, h as int);
                    model::lemma_row_major_index(x as int, y as int, wi, h as int);
                    if xx == x as int && yy == y as int {
                        assert(before[yy * wi + xx] == model::walked_pixel_spec(
                            orig,
                            wi,
                            t,
                            col,
                            x0 as int,
                            x1 as int,
                            y0 as int,
                            x as int,
                            y as int,
                            xx,
                            yy,
                        ));
                        assert(before[yy * wi + xx] == orig[yy * wi + xx]);
                    } else {
                        model::lemma_row_major_injective(
                            wi,
                            h as int,
                            xx,
                            yy,
                            x as int,
                            y as int,
                        );
                        assert(image.pixels@[yy * wi + xx] == before[yy * wi + xx]);
                        assert(before[yy * wi + xx] == model::walked_pixel_spec(
                            orig,
                            wi,
                            t,
                            col,
                            x0 as int,
                            x1 as int,
                            y0 as int,
                            x as int,
                            y as int,
                            xx,
                            yy,
                        ));
                    }
                }
            }
            x = x + 1;
        }
        proof {
            assert forall|xx: int, yy: int|
                0 <= xx < w && 0 <= yy < h implies image.pixels@[yy * (w as int) + xx]
                == #[trigger] model::walked_pixel_spec(
                orig,
                w as int,
                t,
                col,
                x0 as int,
                x1 as int,
                y0 as int,
                x0 as int,
                y as int + 1,
                xx,
                yy,
            ) by {
                model::lemma_row_major_index(xx, yy, w as int, h as int);
                assert(image.pixels@[yy * (w as int) + xx] == model::walked_pixel_spec(
                    orig,
                    w as int,
                    t,
                    col,
                    x0 as int,
                    x1 as int,
                    y0 as int,
                    x1 as int,
                    y as int,
                    xx,
                    yy,
                ));
            }
        }
        y = y + 1;
    }
    proof {
        assert forall|xx: int, yy: int|
            0 <= xx < w && 0 <= yy < h implies image.pixels@[yy * (w as int) + xx]
            == #[trigger] model::committed_pixel_spec(orig, w as int, t, col, xx, yy) by {
            model::lemma_row_major_index(xx, yy, w as int, h as int);
            assert(image.pixels@[yy * (w as int) + xx] == model::walked_pixel_spec(
                orig,
                w as int,
                t,
                col,
                x0 as int,
                x1 as int,
                y0 as int,
                x0 as int,
                y1 as int,
                xx,
                yy,
            ));
        }
    }
}

/// Score a colored candidate against the current canvas: starting from the
/// running total, subtract the current contribution and add the would-be
/// contribution of every pixel the candidate would repaint. Only the
/// bounding-box rectangle is visited, yet the result equals the full-image
/// difference the canvas would have after committing the candidate.
pub fn calculate_difference(
    original: &Image,
    current: &Image,
    total_difference: u64,
    primitive: &Triangle,
) -> (score: u64)
    requires
        original.wf(),
        current.wf(),
        original.width == current.width,
        original.height == current.height,
        primitive.wf(),
        primitive.color is Some,
        model::tri_in_dims(*primitive, original.width as int, original.height as int),
        total_difference as int == model::image_diff(
            original.pixels@,
            current.pixels@,
            original.width as int,
            original.height as int,
        ),
    ensures
        score as int == model::candidate_score_spec(
            total_difference as int,
            original.pixels@,
            current.pixels@,
            original.width as int,
            original.height as int,
            *primitive,
            model::fill_of(*primitive),
        ),
{
    let w: u32 = original.width;
    let h: u32 = original.height;
    let bb = primitive.bounding_box();
    let x0: u32 = bb.top_left.x as u32;
    let x1: u32 = bb.bottom_right.x as u32;
    let y0: u32 = bb.top_left.y as u32;
    let y1: u32 = bb.bottom_right.y as u32;
    let fill: Color = match primitive.get_color() {
        Some(c) => c,
        None => Color::black(),
    };
    let ghost src = original.pixels@;
    let ghost cur = current.pixels@;
    let ghost t = *primitive;
    let ghost col = model::fill_of(*primitive);
    let ghost wi = w as int;
    let ghost hi = h as int;
    let ghost total = total_difference as int;

    proof {
        model::lemma_grid_diff_bounds(src, cur, wi, hi);
        model::lemma_grid_delta_zero_prefix(src, cur, wi, t, col, y0 as int);
        assert(1020 * wi * hi == 1020 * (wi * hi)) by (nonlinear_arith);
    }

    let mut d: i64 = total_difference as i64;
    let mut y: u32 = y0;
    while y < y1
        invariant
            original.wf(),
            current.wf(),
            original.width == w,
            original.height == h,
            current.width == w,
            current.height == h,
            src == original.pixels@,
            cur == current.pixels@,
            t == *primitive,
            primitive.wf(),
            primitive.color == Some(fill),
            col == fill,
            wi == w as int,
            hi == h as int,
            total == total_difference as int,
            model::tri_in_dims(t, wi, hi),
            x0 as int == model::bbox_spec(t).top_left.x as int,
            x1 as int == model::bbox_spec(t).bottom_right.x as int,
            y0 as int == model::bbox_spec(t).top_left.y as int,
            y1 as int == model::bbox_spec(t).bottom_right.y as int,
            0 <= x0 <= x1 < w,
            0 <= y0 <= y <= y1 < h,
            0 <= total <= 1020 * wi * hi,
            total == model::image_diff(src, cur, wi, hi),
            d as int == total + model::grid_delta(src, cur, wi, t, col, y as int),
        decreases y1 - y,
    {
        proof {
            model::lemma_row_delta_zero_prefix(src, cur, wi, t, col, y as int, x0 as int);
        }
        let mut x: u32 = x0;
        while x < x1
            invariant
                original.wf(),
                current.wf(),
                original.width == w,
                original.height == h,
                current.width == w,
                current.height == h,
                src == original.pixels@,
                cur == current.pixels@,
                t == *primitive,
                primitive.wf(),
                primitive.color == Some(fill),
                col == fill,
                wi == w as int,
                hi == h as int,
                total == total_difference as int,
                model::tri_in_dims(t, wi, hi),
                x0 as int == model::bbox_spec(t).top_left.x as int,
                x1 as int == model::bbox_spec(t).bottom_right.x as int,
                y0 as int == model::bbox_spec(t).top_left.y as int,
                y1 as int == model::bbox_spec(t).bottom_right.y as int,
                0 <= x0 <= x <= x1 < w,
                0 <= y0 <= y < y1 < h,
                0 <= total <= 1020 * wi * hi,
                total == model::image_diff(src, cur, wi, hi),
                d as int == total + model::grid_delta(src, cur, wi, t, col, y as int)
                    + model::row_delta(src, cur, wi, t, col, y as int, x as int),
            decreases x1 - x,
        {
            let source_color: Color = original.get_pixel(x, y);
            let current_color: Color = current.get_pixel(x, y);
            let p = Point { x: x as i32, y: y as i32 };
            proof {
                model::lemma_grid_delta_bounds(src, cur, wi, t, col, y as int);
                model::lemma_row_delta_bounds(src, cur, wi, t, col, y as int, x as int);
                model::lemma_partial_delta_bound(
                    wi,
                    hi,
                    y as int,
                    x as int,
                    total,
                    model::grid_delta(src, cur, wi, t, col, y as int),
                    model::row_delta(src, cur, wi, t, col, y as int, x as int),
                );
                model::lemma_row_major_index(x as int, y as int, wi, hi);
            }
            if primitive.is_inside(p) {
                let old_difference: u32 = difference(source_color, current_color);
                proof {
                    model::lemma_pixel_diff_bounds(src[y as int * wi + x as int],
                        cur[y as int * wi + x as int]);
                }
                d = d - (old_difference as i64);
                let new_color: Color = mix_color(current_color, fill);
                let new_difference: u32 = difference(source_color, new_color);
                proof {
                    model::lemma_pixel_diff_bounds(src[y as int * wi + x as int],
                        model::blend_spec(cur[y as int * wi + x as int], col));
                }
                d = d + (new_difference as i64);
            }
            x = x + 1;
        }
        proof {
            model::lemma_row_delta_const_suffix(src, cur, wi, t, col, y as int, wi);
        }
        y = y + 1;
    }
    proof {
        model::lemma_grid_delta_const_suffix(src, cur, wi, t, col, hi);
        model::lemma_grid_score_nonneg(src, cur, wi, t, col, hi);
        model::lemma_grid_delta_bounds(src, cur, wi, t, col, hi);
        model::lemma_partial_delta_bound(
            wi,
            hi,
            hi,
            0,
            total,
            model::grid_delta(src, cur, wi, t, col, hi),
            0,
        );
    }
    d as u64
}

/// Color a candidate with the bounding-box mean of the source and score it
/// against the current canvas, leaving both images untouched.
pub fn evaluate_candidate(source: &Image, canvas: &Image, total: u64, tri: &Triangle) -> (r: (
    Triangle,
    u64,
))
    requires
        source.wf(),
        canvas.wf(),
        source.width == canvas.width,
        source.height == canvas.height,
        tri.wf(),
        model::tri_in_dims(*tri, source.width as int, source.height as int),
        total as int == model::image_diff(
            source.pixels@,
            canvas.pixels@,
            source.width as int,
            source.height as int,
        ),
    ensures
        r.0 == model::eval_pair_spec(
            source.pixels@,
            canvas.pixels@,
            source.width as int,
            source.height as int,
            total as int,
            *tri,
        ).0,
        r.1 as int == model::eval_pair_spec(
            source.pixels@,
            canvas.pixels@,
            source.width as int,
            source.height as int,
            total as int,
            *tri,
        ).1,
{
    let mut prim: Triangle = *tri;
    let col: Color = calculate_color(source, &prim);
    prim.set_color(col);
    let score: u64 = calculate_difference(source, canvas, total, &prim);
    (prim, score)
}

/// Relies on rayon's `par_iter().map(..).collect::<Vec<_>>()` over a slice:
/// an indexed parallel iterator collected into a `Vec` keeps the order of
/// the underlying slice, so element `j` of the result is the closure applied
/// to element `j` of the input; the closure only calls the verified
/// `evaluate_candidate`.
#[verifier::external_body]
fn par_evaluate(source: &Image, canvas: &Image, total: u64, cands: &Vec<Triangle>) -> (r: Vec<
    (Triangle, u64),
>)
    requires
        source.wf(),
        canvas.wf(),
        source.width == canvas.width,
        source.height == canvas.height,
        forall|j: int|
            0 <= j < cands@.len() ==> (#[trigger] cands@[j]).wf() && model::tri_in_dims(
                cands@[j],
                source.width as int,
                source.height as int,
            ),
        total as int == model::image_diff(
            source.pixels@,
            canvas.pixels@,
            source.width as int,
            source.height as int,
        ),
    ensures
        r@.len() == cands@.len(),
        forall|j: int|
            0 <= j < r@.len() ==> (#[trigger] r@[j]).0 == model::eval_pair_spec(
                source.pixels@,
                canvas.pixels@,
                source.width as int,
                source.height as int,
                total as int,
                cands@[j],
            ).0 && r@[j].1 as int == model::eval_pair_spec(
                source.pixels@,
                canvas.pixels@,
                source.width as int,
                source.height as int,
                total as int,
                cands@[j],
            ).1,
{
    cands.par_iter().map(|t: &Triangle| evaluate_candidate(source, canvas, total, t)).collect()
}

/// Draw `n` points from the generator, all inside the given bounds.
fn draw_points<G: PointGenerator>(gen: &mut G, width: u32, height: u32, n: u32) -> (pts: Vec<
    Point,
>)
    requires
        width <= 0x4000_0000,
        height <= 0x4000_0000,
        n >= 1 ==> width >= 1 && height >= 1,
    ensures
        pts@.len() == n,
        forall|i: int|
            0 <= i < pts@.len() ==> model::point_in_dims(
                #[trigger] pts@[i],
                width as int,
                height as int,
            ),
{
    let mut pts: Vec<Point> = Vec::new();
    let mut i: u32 = 0;
    while i < n
        invariant
            i <= n,
            pts@.len() == i,
            n >= 1 ==> width >= 1 && height >= 1,
            width <= 0x4000_0000,
            height <= 0x4000_0000,
            forall|k: int|
                0 <= k < pts@.len() ==> model::point_in_dims(
                    #[trigger] pts@[k],
                    width as int,
                    height as int,
                ),
        decreases n - i,
    {
        let p: Point = gen.next_point(width, height);
        pts.push(p);
        i = i + 1;
    }
    pts
}

/// The deterministic core of a run: starting from a fresh canvas, fold
/// `iterations` greedy iterations over the already-drawn point sequence
/// (three points per candidate, `samples` candidates per iteration). Returns
/// the finished canvas together with its total difference from the source;
/// the result is a function of the arguments alone.
pub fn apply_points<P: ProgressReporter>(
    source: &Image,
    points: &Vec<Point>,
    iterations: u32,
    samples: u32,
    progress: &mut P,
) -> (r: (Image, u64))
    requires
        source.wf(),
        samples >= 1,
        3 * (iterations as int) * (samples as int) <= 0x7fff_ffff,
        points@.len() == 3 * (iterations as int) * (samples as int),
        forall|i: int|
            0 <= i < points@.len() ==> model::point_in_dims(
                #[trigger] points@[i],
                source.width as int,
                source.height as int,
            ),
        old(progress).counted() ==> old(progress).steps() + iterations
            < 0xffff_ffff_ffff_ffff,
    ensures
        r.0.wf(),
        r.0.width == source.width,
        r.0.height == source.height,
        r.0.pixels@ == model::run_spec(
            source.pixels@,
            source.width as int,
            source.height as int,
            points@,
            samples as int,
            iterations as int,
        ).0,
        r.1 as int == model::run_spec(
            source.pixels@,
            source.width as int,
            source.height as int,
            points@,
            samples as int,
            iterations as int,
        ).1,
        r.1 as int == model::image_diff(
            source.pixels@,
            r.0.pixels@,
            source.width as int,
            source.height as int,
        ),
        final(progress).counted() == old(progress).counted(),
        old(progress).counted() ==> final(progress).steps() == old(progress).steps() + iterations
            && final(progress).inits() == old(progress).inits() && final(progress).finishes()
            == old(progress).finishes(),
{
    let w: u32 = source.width;
    let h: u32 = source.height;
    let ghost src = source.pixels@;
    let ghost pts = points@;
    let ghost wi = w as int;
    let ghost hi = h as int;

    let mut destination: Image = Image::new(w, h);
    proof {
        assert(destination.pixels@ =~= model::blank_canvas_spec(src.len()));
    }
    let mut total_difference: u64 = calculate_difference_image(source, &destination);

    let mut iter: u32 = 0;
    while iter < iterations
        invariant
            iter <= iterations,
            source.wf(),
            destination.wf(),
            source.width == w,
            source.height == h,
            destination.width == w,
            destination.height == h,
            src == source.pixels@,
            pts == points@,
            wi == w as int,
            hi == h as int,
            samples >= 1,
            3 * (iterations as int) * (samples as int) <= 0x7fff_ffff,
            pts.len() == 3 * (iterations as int) * (samples as int),
            forall|i: int|
                0 <= i < pts.len() ==> model::point_in_dims(#[trigger] pts[i], wi, hi),
            destination.pixels@ == model::run_spec(
                src,
                wi,
                hi,
                pts,
                samples as int,
                iter as int,
            ).0,
            total_difference as int == model::run_spec(
                src,
                wi,
                hi,
                pts,
                samples as int,
                iter as int,
            ).1,
            total_difference as int == model::image_diff(src, destination.pixels@, wi, hi),
            progress.counted() == old(progress).counted(),
            old(progress).counted() ==> progress.steps() == old(progress).steps() + iter
                && progress.inits() == old(progress).inits() && progress.finishes() == old(
                progress
            ).finishes(),
            old(progress).counted() ==> old(progress).steps() + iterations
                < 0xffff_ffff_ffff_ffff,
        decreases iterations - iter,
    {
        let ghost base = (iter as int) * (samples as int);
        let ghost cur = destination.pixels@;
        let ghost total = total_difference as int;

        let mut cands: Vec<Triangle> = Vec::new();
        let mut j: u32 = 0;
        while j < samples
            invariant
                j <= samples,
                iter < iterations,
                samples >= 1,
                3 * (iterations as int) * (samples as int) <= 0x7fff_ffff,
                pts.len() == 3 * (iterations as int) * (samples as int),
                pts == points@,
                wi == w as int,
                hi == h as int,
                base == (iter as int) * (samples as int),
                forall|i: int|
                    0 <= i < pts.len() ==> model::point_in_dims(#[trigger] pts[i], wi, hi),
                cands@.len() == j,
                forall|jj: int|
                    0 <= jj < cands@.len() ==> #[trigger] cands@[jj] == model::cand_tri_spec(
                        pts,
                        base + jj,
                    ) && cands@[jj].wf() && model::tri_in_dims(cands@[jj], wi, hi),
            decreases samples - j,
        {
            proof {
                model::lemma_candidate_index(
                    iterations as int,
                    samples as int,
                    iter as int,
                    j as int,
                );
            }
            let idx: usize = 3 * ((iter as usize) * (samples as usize) + (j as usize));
            let p0: Point = points[idx];
            let p1: Point = points[idx + 1];
            let p2: Point = points[idx + 2];
            let mut t: Triangle = Triangle::new(p0, p1, p2);
            t.cache_double_area();
            cands.push(t);
            j = j + 1;
        }

        let scored: Vec<(Triangle, u64)> = par_evaluate(
            source,
            &destination,
            total_difference,
            &cands,
        );
        proof {
            assert forall|jj: int| 0 <= jj < samples implies {
                &&& (#[trigger] scored@[jj]).0 == model::cand_eval_spec(
                    src,
                    cur,
                    wi,
                    hi,
                    total,
                    pts,
                    base + jj,
                ).0
                &&& scored@[jj].1 as int == model::cand_eval_spec(
                    src,
                    cur,
                    wi,
                    hi,
                    total,
                    pts,
                    base + jj,
                ).1
                &&& scored@[jj].0.wf()
                &&& model::tri_in_dims(scored@[jj].0, wi, hi)
                &&& scored@[jj].0.color is Some
            } by {
                assert(cands@[jj] == model::cand_tri_spec(pts, base + jj));
            }
        }

        let mut best: (Triangle, u64) = (scored[0].0, scored[0].1);
        let mut k: u32 = 1;
        while k < samples
            invariant
                1 <= k <= samples,
                scored@.len() == samples,
                samples >= 1,
                forall|jj: int| 0 <= jj < samples ==> {
                    &&& (#[trigger] scored@[jj]).0 == model::cand_eval_spec(
                        src,
                        cur,
                        wi,
                        hi,
                        total,
                        pts,
                        base + jj,
                    ).0
                    &&& scored@[jj].1 as int == model::cand_eval_spec(
                        src,
                        cur,
                        wi,
                        hi,
                        total,
                        pts,
                        base + jj,
                    ).1
                    &&& scored@[jj].0.wf()
                    &&& model::tri_in_dims(scored@[jj].0, wi, hi)
                    &&& scored@[jj].0.color is Some
                },
                best.0 == model::cand_eval_spec(
                    src,
                    cur,
                    wi,
                    hi,
                    total,
                    pts,
                    base + model::best_local_spec(src, cur, wi, hi, total, pts, base, k as int),
                ).0,
                best.1 as int == model::cand_eval_spec(
                    src,
                    cur,
                    wi,
                    hi,
                    total,
                    pts,
                    base + model::best_local_spec(src, cur, wi, hi, total, pts, base, k as int),
                ).1,
            decreases samples - k,
        {
            proof {
                model::lemma_best_local_in_range(src, cur, wi, hi, total, pts, base, k as int);
            }
            if scored[k as usize].1 < best.1 {
                best = (scored[k as usize].0, scored[k as usize].1);
            }
            k = k + 1;
        }

        proof {
            model::lemma_best_local_in_range(src, cur, wi, hi, total, pts, base, samples as int);
            let bl = model::best_local_spec(src, cur, wi, hi, total, pts, base, samples as int);
            assert(scored@[bl].0.wf() && model::tri_in_dims(scored@[bl].0, wi, hi)
                && scored@[bl].0.color is Some);
        }
        let ghost prev_pixels = destination.pixels@;
        add_to_image(&mut destination, &best.0);
        proof {
            model::lemma_commit_seq_pointwise(
                prev_pixels,
                destination.pixels@,
                wi,
                hi,
                best.0,
                model::fill_of(best.0),
            );
            model::lemma_score_is_recomputed_difference(
                src,
                prev_pixels,
                destination.pixels@,
                wi,
                hi,
                best.0,
                model::fill_of(best.0),
            );
        }
        total_difference = best.1;
        progress.step();
        iter = iter + 1;
    }
    (destination, total_difference)
}

/// The greedy triangle-approximation engine: a point source plus the two
/// run parameters.
pub struct Geometrify<G: PointGenerator> {
    pub point_gen: G,
    pub iterations: u32,
    pub samples: u32,
}

impl<G: PointGenerator> Geometrify<G> {
    pub fn new(point_gen: G, iterations: u32, samples: u32) -> (r: Geometrify<G>)
        ensures
            r.point_gen == point_gen,
            r.iterations == iterations,
            r.samples == samples,
    {
        Geometrify { point_gen, iterations, samples }
    }

    pub fn set_iterations(&mut self, iterations: u32)
        ensures
            final(self).iterations == iterations,
            final(self).samples == old(self).samples,
            final(self).point_gen == old(self).point_gen,
    {
        self.iterations = iterations
    }

    pub fn set_samples(&mut self, samples: u32)
        ensures
            final(self).samples == samples,
            final(self).iterations == old(self).iterations,
            final(self).point_gen == old(self).point_gen,
    {
        self.samples = samples
    }

    /// One fresh candidate: a triangle on three points from the source,
    /// uncolored and with nothing cached yet.
    pub fn generate_primitive(&mut self, width: u32, height: u32) -> (t: Triangle)
        requires
            1 <= width <= 0x4000_0000,
            1 <= height <= 0x4000_0000,
        ensures
            t.color is None,
            t.double_area is None,
            t.wf(),
            model::tri_in_dims(t, width as int, height as int),
    {
        Triangle::new(
            self.point_gen.next_point(width, height),
            self.point_gen.next_point(width, height),
            self.point_gen.next_point(width, height),
        )
    }

    /// Run the engine, or report the one configuration that can never
    /// produce a candidate: `samples == 0`. On success the canvas is a
    /// greedy run over some point sequence drawn from the generator, and
    /// the progress reporter has seen one `init`, one `step` per iteration
    /// and one `finish`; on failure nothing has happened at all.
    pub fn try_apply<P: ProgressReporter>(&mut self, image: &Image, progress: &mut P) -> (r:
        Result<Image, FilterError>)
        requires
            image.wf(),
            3 * (old(self).iterations as int) * (old(self).samples as int) <= 0x7fff_ffff,
            old(self).iterations >= 1 ==> image.width >= 1 && image.height >= 1,
            old(progress).counted() ==> old(progress).inits() < 0xffff_ffff_ffff_ffff
                && old(progress).finishes() < 0xffff_ffff_ffff_ffff,
        ensures
            r is Err <==> old(self).samples == 0,
            r is Err ==> r == Result::<Image, FilterError>::Err(FilterError::NoCandidateAvailable)
                && *final(progress) == *old(progress) && *final(self) == *old(self),
            final(progress).counted() == old(progress).counted(),
            r matches Ok(out) ==> {
                &&& out.wf()
                &&& out.width == image.width
                &&& out.height == image.height
                &&& (old(progress).counted() ==> final(progress).inits() == old(
                    progress
                ).inits() + 1 && final(progress).steps() == old(self).iterations as nat && final(
                    progress
                ).finishes() == old(progress).finishes() + 1)
                &&& final(self).iterations == old(self).iterations
                &&& final(self).samples == old(self).samples
                &&& exists|drawn: Seq<Point>|
                    {
                        &&& drawn.len() == 3 * (old(self).iterations as int) * (old(
                            self
                        ).samples as int)
                        &&& (forall|i: int|
                            0 <= i < drawn.len() ==> model::point_in_dims(
                                #[trigger] drawn[i],
                                image.width as int,
                                image.height as int,
                            ))
                        &&& out.pixels@ == model::run_spec(
                            image.pixels@,
                            image.width as int,
                            image.height as int,
                            drawn,
                            old(self).samples as int,
                            old(self).iterations as int,
                        ).0
                        &&& model::image_diff(image.pixels@, out.pixels@, image.width as int, image.height as int)
                            == model::run_spec(
                            image.pixels@,
                            image.width as int,
                            image.height as int,
                            drawn,
                            old(self).samples as int,
                            old(self).iterations as int,
                        ).1
                    }
            },
    {
        if self.samples == 0 {
            return Err(FilterError::NoCandidateAvailable);
        }
        progress.init(self.iterations as u64);
        let n64: u64 = 3 * (self.iterations as u64) * (self.samples as u64);
        let n: u32 = n64 as u32;
        proof {
            assert(self.iterations == 0 ==> n64 == 0) by (nonlinear_arith)
                requires
                    n64 == 3 * (self.iterations as int) * (self.samples as int),
            ;
        }
        let pts: Vec<Point> = draw_points(&mut self.point_gen, image.width, image.height, n);
        let pair: (Image, u64) = apply_points(image, &pts, self.iterations, self.samples,
            progress);
        progress.finish();
        proof {
            assert(pts@.len() == 3 * (old(self).iterations as int) * (old(self).samples as int));
        }
        Ok(pair.0)
    }
}

impl<G: PointGenerator> Filter for Geometrify<G> {
    /// A run needs at least one candidate per iteration, index arithmetic
    /// that fits, and a non-empty image whenever points must be drawn.
    open spec fn apply_req(&self, image: &Image) -> bool {
        &&& self.samples >= 1
        &&& 3 * (self.iterations as int) * (self.samples as int) <= 0x7fff_ffff
        &&& (self.iterations >= 1 ==> image.width >= 1 && image.height >= 1)
    }

    open spec fn step_count(&self) -> nat {
        self.iterations as nat
    }

    /// The output is a greedy run over some in-bounds point sequence drawn
    /// from the generator, and the run's committed score is the true total
    /// difference between the source and the output.
    open spec fn applied(&self, image: &Image, out: &Image) -> bool {
        exists|drawn: Seq<Point>|
            {
                &&& drawn.len() == 3 * (self.iterations as int) * (self.samples as int)
                &&& (forall|i: int|
                    0 <= i < drawn.len() ==> model::point_in_dims(
                        #[trigger] drawn[i],
                        image.width as int,
                        image.height as int,
                    ))
                &&& out.pixels@ == model::run_spec(
                    image.pixels@,
                    image.width as int,
                    image.height as int,
                    drawn,
                    self.samples as int,
                    self.iterations as int,
                ).0
                &&& model::image_diff(
                    image.pixels@,
                    out.pixels@,
                    image.width as int,
                    image.height as int,
                ) == model::run_spec(
                    image.pixels@,
                    image.width as int,
                    image.height as int,
                    drawn,
                    self.samples as int,
                    self.iterations as int,
                ).1
            }
    }

    fn apply<P: ProgressReporter>(&mut self, image: &Image, progress: &mut P) -> (out: Image) {
        let r: Result<Image, FilterError> = self.try_apply(image, progress);
        match r {
            Ok(out) => out,
            Err(_) => vstd::pervasive::unreached(),
        }
    }
}

} // verus!
