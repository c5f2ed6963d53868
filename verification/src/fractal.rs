//! The fractal renderer: per-pixel escape-time pass, histogram
//! accumulation, colour banding, and production of the file bytes.
//!
//! Colour-range thresholds are given in thousandths of the logical unit
//! (so the logical 0.3 is passed as 300) and stored offset by
//! `1000 * max_iterations`; iteration counts, scaled by 1000, are compared
//! against the stored values, which keeps every comparison well-ordered
//! and exact.

use vstd::prelude::*;
use crate::bitmap::{Image, bmp_bytes, HEADER_BYTES, MAX_DIMENSION};
use crate::error::RenderError;
use crate::fixed::{FP, tdiv, tdiv_i64};
use crate::mandelbrot::{iterations_spec, get_iterations};
use crate::rgb::{Rgb, rgb_le};

verus! {

/// Thousandths per logical threshold unit.
pub const MILLI: u64 = 1000;

/// How far a render has progressed; each operation requires the stage
/// the previous one established.
#[derive(Clone, Copy, Debug, PartialEq, Eq, Structural)]
pub enum Stage {
    Configured,
    IterationsComputed,
    RangeTotalsComputed,
    Rendered,
}

/// Sum of a sequence of counters.
pub open spec fn seq_sum(s: Seq<u64>) -> int
    decreases s.len(),
{
    if s.len() == 0 {
        0
    } else {
        seq_sum(s.drop_last()) + s.last()
    }
}

/// How often the value `v` occurs in `s`.
pub open spec fn occ(s: Seq<u32>, v: int) -> int
    decreases s.len(),
{
    if s.len() == 0 {
        0
    } else {
        occ(s.drop_last(), v) + if s.last() == v {
            1int
        } else {
            0int
        }
    }
}

/// Replacing one element changes the sum by the difference.
pub proof fn lemma_seq_sum_update(s: Seq<u64>, i: int, v: u64)
    requires
        0 <= i < s.len(),
    ensures
        seq_sum(s.update(i, v)) == seq_sum(s) - s[i] + v,
    decreases s.len(),
{
    if i == s.len() - 1 {
        assert(s.update(i, v).drop_last() =~= s.drop_last());
    } else {
        assert(s.update(i, v).drop_last() =~= s.drop_last().update(i, v));
        lemma_seq_sum_update(s.drop_last(), i, v);
    }
}

/// A sum of counters is never negative.
pub proof fn lemma_seq_sum_nonneg(s: Seq<u64>)
    ensures
        seq_sum(s) >= 0,
    decreases s.len(),
{
    if s.len() > 0 {
        lemma_seq_sum_nonneg(s.drop_last());
    }
}

/// The sum splits at any cut point.
pub proof fn lemma_seq_sum_split(s: Seq<u64>, k: int)
    requires
        0 <= k <= s.len(),
    ensures
        seq_sum(s) == seq_sum(s.subrange(0, k)) + seq_sum(s.subrange(k, s.len() as int)),
    decreases s.len(),
{
    if k == s.len() {
        assert(s.subrange(0, k) =~= s);
        assert(s.subrange(k, s.len() as int) =~= Seq::<u64>::empty());
    } else {
        lemma_seq_sum_split(s.drop_last(), k);
        assert(s.drop_last().subrange(0, k) =~= s.subrange(0, k));
        assert(s.subrange(k, s.len() as int).drop_last() =~= s.drop_last().subrange(
            k,
            s.len() - 1,
        ));
        assert(seq_sum(s.subrange(k, s.len() as int)) == seq_sum(
            s.subrange(k, s.len() as int).drop_last(),
        ) + s.last());
    }
}

/// No element exceeds the whole sum.
pub proof fn lemma_seq_sum_elem(s: Seq<u64>, i: int)
    requires
        0 <= i < s.len(),
    ensures
        s[i] <= seq_sum(s),
{
    lemma_seq_sum_split(s, i);
    let t = s.subrange(i, s.len() as int);
    assert(t.subrange(1, t.len() as int) =~= s.subrange(i + 1, s.len() as int));
    lemma_seq_sum_split(t, 1);
    assert(t.subrange(0, 1).drop_last() =~= Seq::<u64>::empty());
    assert(t.subrange(0, 1).len() == 1 && t.subrange(0, 1).last() == t[0]);
    assert(seq_sum(t.subrange(0, 1).drop_last()) == 0);
    assert(seq_sum(t.subrange(0, 1)) == t[0]);
    lemma_seq_sum_nonneg(s.subrange(0, i));
    lemma_seq_sum_nonneg(t.subrange(1, t.len() as int));
}

/// A sequence of zeroed counters sums to zero.
pub proof fn lemma_seq_sum_zero(s: Seq<u64>)
    requires
        forall|i: int| 0 <= i < s.len() ==> s[i] == 0,
    ensures
        seq_sum(s) == 0,
    decreases s.len(),
{
    if s.len() > 0 {
        lemma_seq_sum_zero(s.drop_last());
    }
}

/// Appending an element adds its occurrence.
pub proof fn lemma_occ_push(s: Seq<u32>, e: u32, v: int)
    ensures
        occ(s.push(e), v) == occ(s, v) + if e == v {
            1int
        } else {
            0int
        },
{
    assert(s.push(e).drop_last() =~= s);
}

/// Stored colour-range thresholds are strictly increasing.
pub open spec fn ranges_strictly_increasing(ranges: Seq<u64>) -> bool {
    forall|i: int, j: int| 0 <= i < j < ranges.len() ==> ranges[i] < ranges[j]
}

/// Band lookup, scanning from band `i`: the first band index `b >= i`
/// whose upper threshold exceeds the scaled iteration count, or the last
/// band when none does.
pub open spec fn band_scan(ranges: Seq<u64>, it: int, i: nat) -> nat
    recommends
        ranges.len() >= 2,
        i + 2 <= ranges.len(),
    decreases ranges.len() - i,
{
    if i + 2 >= ranges.len() {
        i
    } else if 1000 * it < ranges[i as int + 1] {
        i
    } else {
        band_scan(ranges, it, i + 1)
    }
}

/// The band an iteration count falls into: the first index `b` with
/// `1000 * it < ranges[b + 1]`.
pub open spec fn band_of_spec(ranges: Seq<u64>, it: int) -> nat {
    band_scan(ranges, it, 0)
}

/// What the scan guarantees: the result is a real band, every earlier
/// band was rejected, and the result's upper threshold covers the count
/// unless the scan ran off the end.
pub proof fn lemma_band_scan_props(ranges: Seq<u64>, it: int, i: nat)
    requires
        ranges.len() >= 2,
        i + 2 <= ranges.len(),
    ensures
        i <= band_scan(ranges, it, i),
        band_scan(ranges, it, i) + 2 <= ranges.len(),
        forall|j: int|
            i <= j < band_scan(ranges, it, i) ==> 1000 * it >= #[trigger] ranges[j + 1],
        band_scan(ranges, it, i) + 2 < ranges.len() ==> 1000 * it < ranges[
            band_scan(ranges, it, i) as int + 1
        ],
    decreases ranges.len() - i,
{
    if i + 2 >= ranges.len() {
    } else if 1000 * it < ranges[i as int + 1] {
    } else {
        lemma_band_scan_props(ranges, it, i + 1);
    }
}

/// When the last stored threshold covers the scaled count, the scan's
/// result always satisfies the band condition.
pub proof fn lemma_band_covered(ranges: Seq<u64>, it: int)
    requires
        ranges.len() >= 2,
        1000 * it < ranges[ranges.len() - 1],
    ensures
        band_of_spec(ranges, it) + 2 <= ranges.len(),
        1000 * it < ranges[band_of_spec(ranges, it) as int + 1],
{
    lemma_band_scan_props(ranges, it, 0);
}

/// The band index is monotonic, non-decreasing in the iteration count.
pub proof fn lemma_band_monotonic(ranges: Seq<u64>, a: int, b: int)
    requires
        ranges.len() >= 2,
        a <= b,
    ensures
        band_of_spec(ranges, a) <= band_of_spec(ranges, b),
{
    let ra = band_of_spec(ranges, a);
    let rb = band_of_spec(ranges, b);
    lemma_band_scan_props(ranges, a, 0);
    lemma_band_scan_props(ranges, b, 0);
    if rb < ra {
        assert(1000 * a >= ranges[rb as int + 1]);
        assert(rb + 2 < ranges.len());
        assert(1000 * b < ranges[rb as int + 1]);
        assert(1000 * a <= 1000 * b);
    }
}

/// Histogram entries of counts `0 .. k` assigned to band `b` by the
/// threshold-crossing rule, summed.
pub open spec fn band_sum(hist: Seq<u64>, ranges: Seq<u64>, b: int, k: int) -> int
    decreases k,
{
    if k <= 0 {
        0
    } else {
        band_sum(hist, ranges, b, k - 1) + if band_of_spec(ranges, k - 1) == b {
            hist[k - 1] as int
        } else {
            0int
        }
    }
}

/// Plane x-coordinate of a pixel column: the zoom transform
/// `(x - width/2 - width/4) / scale + (zoom_x - width/2) / original_scale`
/// carried out exactly in fixed point (numerators are kept integral by
/// scaling both sides of each division).
pub open spec fn map_x_spec(x: int, width: int, scale: int, zoom_x: int, original_scale: int) -> int {
    tdiv((4 * x - 3 * width) * FP, 4 * scale) + tdiv((2 * zoom_x - width) * FP, 2 * original_scale)
}

/// Plane y-coordinate of a pixel row: `(y - height/2) / scale
/// + (zoom_y - height/2) / original_scale` in fixed point.
pub open spec fn map_y_spec(y: int, height: int, scale: int, zoom_y: int, original_scale: int) -> int {
    tdiv((2 * y - height) * FP, 2 * scale) + tdiv((2 * zoom_y - height) * FP, 2 * original_scale)
}

/// The zoom transform is a pure affine map: the pixel at
/// (width/2 + width/4, height/2), with the zoom centre at the image
/// centre and equal scales, lands exactly on the plane origin.
pub proof fn lemma_map_center(width: int, height: int, scale: int, original_scale: int)
    requires
        width % 4 == 0,
        height % 2 == 0,
        width >= 0,
        height >= 0,
        scale >= 1,
        original_scale >= 1,
    ensures
        map_x_spec(width / 2 + width / 4, width, scale, width / 2, original_scale) == 0,
        map_y_spec(height / 2, height, scale, height / 2, original_scale) == 0,
{
    assert(4 * (width / 2 + width / 4) - 3 * width == 0);
    assert(2 * (width / 2) - width == 0);
    assert(2 * (height / 2) - height == 0);
}

/// One colour channel of the gradient: the start channel plus the
/// delta scaled by the pixel's cumulative density over the band total,
/// truncated, and capped at 255.  A band nobody landed in (total 0)
/// yields the start channel unchanged.
pub open spec fn interp_channel(s: int, e: int, tp: int, rt: int) -> int {
    if rt == 0 {
        s
    } else {
        let v = s + (e - s) * tp / rt;
        if v > 255 {
            255
        } else {
            v
        }
    }
}

/// Linear interpolation of a whole colour, channel by channel.
pub open spec fn interp_color_spec(start: Rgb, end: Rgb, tp: int, rt: int) -> Rgb {
    Rgb {
        red: interp_channel(start.red as int, end.red as int, tp, rt) as u8,
        green: interp_channel(start.green as int, end.green as int, tp, rt) as u8,
        blue: interp_channel(start.blue as int, end.blue as int, tp, rt) as u8,
    }
}

/// The colour a pixel receives: solid black for capped, presumed-inside
/// points; otherwise the gradient of the pixel's band, placed by the
/// cumulative density below the pixel's iteration count.
pub open spec fn pixel_color_spec(
    it: int,
    max: int,
    hist: Seq<u64>,
    ranges: Seq<u64>,
    totals: Seq<u64>,
    colors: Seq<Rgb>,
) -> Rgb {
    if it == max {
        Rgb { red: 0, green: 0, blue: 0 }
    } else {
        let b = band_of_spec(ranges, it) as int;
        interp_color_spec(colors[b], colors[b + 1], seq_sum(hist.subrange(0, it)), totals[b] as int)
    }
}

/// One interpolated colour channel.
fn interp_channel_u8(s: u8, e: u8, tp: u64, rt: u64) -> (r: u8)
    requires
        s <= e,
        tp <= 0x1_0000_0000_0000,
    ensures
        r == interp_channel(s as int, e as int, tp as int, rt as int),
{
    if rt == 0 {
        return s;
    }
    let d: u64 = (e - s) as u64;
    proof {
        assert(d * tp <= 255 * 0x1_0000_0000_0000) by (nonlinear_arith)
            requires
                0 <= d <= 255,
                0 <= tp <= 0x1_0000_0000_0000,
        ;
    }
    let v: u64 = (s as u64) + d * tp / rt;
    if v > 255 {
        255u8
    } else {
        v as u8
    }
}

/// Interpolate between two colours: each channel moves from `start`
/// toward `end` by the fraction `total_pixels / range_total`, truncated.
/// A zero `range_total` returns the start colour unchanged, so an empty
/// band can never divide by zero.
pub fn interp_color(start: Rgb, end: Rgb, total_pixels: u64, range_total: u64) -> (r: Rgb)
    requires
        rgb_le(start, end),
        total_pixels <= 0x1_0000_0000_0000,
    ensures
        r == interp_color_spec(start, end, total_pixels as int, range_total as int),
        range_total == 0 ==> r == start,
{
    let r = Rgb {
        red: interp_channel_u8(start.red, end.red, total_pixels, range_total),
        green: interp_channel_u8(start.green, end.green, total_pixels, range_total),
        blue: interp_channel_u8(start.blue, end.blue, total_pixels, range_total),
    };
    r
}

/// The renderer: owns the raster, the iteration buffer, the histogram,
/// and the colour-band configuration.
pub struct Creator {
    pub width: usize,
    pub height: usize,
    pub image: Image,
    pub original_scale: u64,
    pub scale: u64,
    pub position_to_zoom: (i64, i64),
    pub max_iterations: u32,
    pub color_ranges: Vec<u64>,
    pub colors: Vec<Rgb>,
    pub range_totals: Vec<u64>,
    pub got_first_range: bool,
    pub histogram: Vec<u64>,
    pub fractal: Vec<u32>,
    pub stage: Stage,
}

impl Creator {
    /// Internal consistency of a renderer: buffer lengths match the
    /// configuration, thresholds are strictly increasing and sit above
    /// the scaled iteration cap, colours never step down, every recorded
    /// iteration count respects the cap, and the histogram total stays
    /// clear of overflow.
    pub open spec fn wf(&self) -> bool {
        &&& self.image.wf()
        &&& self.image.width == self.width
        &&& self.image.height == self.height
        &&& self.width <= MAX_DIMENSION
        &&& self.height <= MAX_DIMENSION
        &&& 1 <= self.max_iterations <= 1000000
        &&& 1 <= self.original_scale <= 1000000000000
        &&& 1 <= self.scale <= 1000000000000
        &&& -100000000 <= self.position_to_zoom.0 <= 100000000
        &&& -100000000 <= self.position_to_zoom.1 <= 100000000
        &&& self.histogram@.len() == self.max_iterations
        &&& self.fractal@.len() == self.width * self.height
        &&& self.colors@.len() == self.color_ranges@.len()
        &&& (self.got_first_range <==> self.color_ranges@.len() >= 1)
        &&& self.range_totals@.len() == (if self.color_ranges@.len() >= 1 {
            self.color_ranges@.len() - 1
        } else {
            0int
        })
        &&& ranges_strictly_increasing(self.color_ranges@)
        &&& (forall|i: int|
            0 <= i < self.color_ranges@.len() ==> 1000 * self.max_iterations <= #[trigger] self.color_ranges@[i])
        &&& (forall|i: int|
            0 <= i && i + 1 < self.colors@.len() ==> rgb_le(
                #[trigger] self.colors@[i],
                self.colors@[i + 1],
            ))
        &&& (forall|p: int|
            0 <= p < self.fractal@.len() ==> #[trigger] self.fractal@[p] <= self.max_iterations)
        &&& seq_sum(self.histogram@) <= 0x1_0000_0000_0000
    }

    /// A fresh renderer: zeroed raster, iteration buffer and histogram,
    /// and no colour ranges yet.
    pub fn new(
        width: usize,
        height: usize,
        original_scale: u64,
        scale: u64,
        position_to_zoom: (i64, i64),
        max_iterations: u32,
    ) -> (r: Creator)
        requires
            width <= MAX_DIMENSION,
            height <= MAX_DIMENSION,
            1 <= max_iterations <= 1000000,
            1 <= original_scale <= 1000000000000,
            1 <= scale <= 1000000000000,
            -100000000 <= position_to_zoom.0 <= 100000000,
            -100000000 <= position_to_zoom.1 <= 100000000,
        ensures
            r.wf(),
            r.width == width,
            r.height == height,
            r.original_scale == original_scale,
            r.scale == scale,
            r.position_to_zoom == position_to_zoom,
            r.max_iterations == max_iterations,
            r.stage == Stage::Configured,
            r.color_ranges@.len() == 0,
            r.colors@.len() == 0,
            r.range_totals@.len() == 0,
            !r.got_first_range,
            forall|i: int| 0 <= i < r.histogram@.len() ==> r.histogram@[i] == 0,
            forall|p: int| 0 <= p < r.fractal@.len() ==> r.fractal@[p] == 0,
            forall|i: int| 0 <= i < r.image.pixels@.len() ==> r.image.pixels@[i] == 0,
    {
        proof {
            assert(width * height <= MAX_DIMENSION * MAX_DIMENSION) by (nonlinear_arith)
                requires
                    0 <= width <= MAX_DIMENSION,
                    0 <= height <= MAX_DIMENSION,
            ;
        }
        let histogram: Vec<u64> = vec![0u64; max_iterations as usize];
        let fractal: Vec<u32> = vec![0u32; width * height];
        let r = Creator {
            width,
            height,
            image: Image::new(width, height),
            original_scale,
            scale,
            position_to_zoom,
            max_iterations,
            color_ranges: Vec::new(),
            colors: Vec::new(),
            range_totals: Vec::new(),
            got_first_range: false,
            histogram,
            fractal,
            stage: Stage::Configured,
        };
        proof {
            lemma_seq_sum_zero(r.histogram@);
        }
        r
    }

    /// Add one colour-range control point: the threshold, in thousandths
    /// of the logical unit, is stored offset by `1000 * max_iterations`;
    /// from the second point on, each call closes one band and opens its
    /// zero-initialised range-total slot.  Thresholds must arrive in
    /// strictly increasing order and colours must never step down.
    pub fn add_color_range(&mut self, range_milli: u64, color: Rgb)
        requires
            old(self).wf(),
            old(self).stage == Stage::Configured,
            range_milli <= 1000000000,
            old(self).got_first_range ==> old(self).color_ranges@.last() < range_milli + 1000 * old(
                self,
            ).max_iterations,
            old(self).got_first_range ==> rgb_le(old(self).colors@.last(), color),
        ensures
            final(self).wf(),
            final(self).color_ranges@ == old(self).color_ranges@.push(
                (range_milli + MILLI * old(self).max_iterations as u64) as u64,
            ),
            final(self).colors@ == old(self).colors@.push(color),
            final(self).range_totals@ == (if old(self).got_first_range {
                old(self).range_totals@.push(0u64)
            } else {
                old(self).range_totals@
            }),
            final(self).got_first_range,
            final(self).width == old(self).width,
            final(self).height == old(self).height,
            final(self).image == old(self).image,
            final(self).original_scale == old(self).original_scale,
            final(self).scale == old(self).scale,
            final(self).position_to_zoom == old(self).position_to_zoom,
            final(self).max_iterations == old(self).max_iterations,
            final(self).histogram@ == old(self).histogram@,
            final(self).fractal@ == old(self).fractal@,
            final(self).stage == Stage::Configured,
    {
        let stored: u64 = range_milli + MILLI * (self.max_iterations as u64);
        self.color_ranges.push(stored);
        self.colors.push(color);
        if self.got_first_range {
            self.range_totals.push(0);
        }
        self.got_first_range = true;
        proof {
            let r = self.color_ranges@;
            assert forall|i: int, j: int| 0 <= i < j < r.len() implies r[i] < r[j] by {
                if j < r.len() - 1 {
                    assert(old(self).color_ranges@[i] < old(self).color_ranges@[j]);
                } else if i < r.len() - 1 {
                    if i < r.len() - 2 {
                        assert(old(self).color_ranges@[i] < old(self).color_ranges@[r.len() - 2]);
                    }
                }
            }
            let c = self.colors@;
            assert forall|i: int| 0 <= i && i + 1 < c.len() implies rgb_le(
                #[trigger] c[i],
                c[i + 1],
            ) by {
                if i + 2 < c.len() {
                    assert(rgb_le(old(self).colors@[i], old(self).colors@[i + 1]));
                }
            }
        }
    }

    /// Record one pixel's iteration count in the histogram, unless it
    /// equals the cap: capped, presumed-inside points carry no weight in
    /// the density normalisation.
    pub fn record(&mut self, iteration_count: u32)
        requires
            old(self).wf(),
            iteration_count <= old(self).max_iterations,
            seq_sum(old(self).histogram@) < 0x1_0000_0000_0000,
        ensures
            final(self).wf(),
            iteration_count < old(self).max_iterations ==> final(self).histogram@ == old(
                self,
            ).histogram@.update(
                iteration_count as int,
                (old(self).histogram@[iteration_count as int] + 1) as u64,
            ),
            iteration_count == old(self).max_iterations ==> final(self).histogram@ == old(
                self,
            ).histogram@,
            seq_sum(final(self).histogram@) <= seq_sum(old(self).histogram@) + 1,
            final(self).width == old(self).width,
            final(self).height == old(self).height,
            final(self).image == old(self).image,
            final(self).original_scale == old(self).original_scale,
            final(self).scale == old(self).scale,
            final(self).position_to_zoom == old(self).position_to_zoom,
            final(self).max_iterations == old(self).max_iterations,
            final(self).color_ranges@ == old(self).color_ranges@,
            final(self).colors@ == old(self).colors@,
            final(self).range_totals@ == old(self).range_totals@,
            final(self).got_first_range == old(self).got_first_range,
            final(self).fractal@ == old(self).fractal@,
            final(self).stage == old(self).stage,
    {
        if iteration_count < self.max_iterations {
            let idx: usize = iteration_count as usize;
            proof {
                lemma_seq_sum_elem(self.histogram@, idx as int);
            }
            let h: u64 = self.histogram[idx];
            self.histogram[idx] = h + 1;
            proof {
                lemma_seq_sum_update(old(self).histogram@, idx as int, (h + 1) as u64);
            }
        }
    }

    /// The cumulative density below an iteration count: how many recorded
    /// pixels finished in strictly fewer than `up_to` iterations.
    pub fn cumulative_density(&self, up_to: u32) -> (r: u64)
        requires
            self.wf(),
            up_to <= self.max_iterations,
        ensures
            r == seq_sum(self.histogram@.subrange(0, up_to as int)),
    {
        let mut total: u64 = 0;
        let mut i: usize = 0;
        while i < up_to as usize
            invariant
                self.wf(),
                i <= up_to <= self.max_iterations,
                total == seq_sum(self.histogram@.subrange(0, i as int)),
            decreases up_to - i,
        {
            proof {
                lemma_seq_sum_split(self.histogram@, i + 1);
                lemma_seq_sum_nonneg(self.histogram@.subrange(i + 1, self.histogram@.len() as int));
                assert(self.histogram@.subrange(0, i + 1).drop_last() =~= self.histogram@.subrange(
                    0,
                    i as int,
                ));
                assert(seq_sum(self.histogram@.subrange(0, i + 1)) == seq_sum(
                    self.histogram@.subrange(0, i as int),
                ) + self.histogram@[i as int]);
            }
            total = total + self.histogram[i];
            i = i + 1;
        }
        total
    }

    /// Map a pixel position to its plane coordinate, applying the
    /// pan/zoom transform.  The quarter-width offset in the x formula
    /// shifts the visible frame left so the set's silhouette is centred.
    pub fn do_zoom(
        x: usize,
        y: usize,
        width: usize,
        height: usize,
        original_scale: u64,
        scale: u64,
        position_to_zoom: (i64, i64),
    ) -> (r: (i64, i64))
        requires
            x < width <= MAX_DIMENSION,
            y < height <= MAX_DIMENSION,
            1 <= original_scale <= 1000000000000,
            1 <= scale <= 1000000000000,
            -100000000 <= position_to_zoom.0 <= 100000000,
            -100000000 <= position_to_zoom.1 <= 100000000,
        ensures
            r.0 == map_x_spec(
                x as int,
                width as int,
                scale as int,
                position_to_zoom.0 as int,
                original_scale as int,
            ),
            r.1 == map_y_spec(
                y as int,
                height as int,
                scale as int,
                position_to_zoom.1 as int,
                original_scale as int,
            ),
    {
        let a1: i64 = (4 * (x as i64) - 3 * (width as i64)) * FP;
        let q1: i64 = tdiv_i64(a1, 4 * (scale as i64));
        let a2: i64 = (2 * position_to_zoom.0 - (width as i64)) * FP;
        let q2: i64 = tdiv_i64(a2, 2 * (original_scale as i64));
        let cx: i64 = q1 + q2;
        let a3: i64 = (2 * (y as i64) - (height as i64)) * FP;
        let q3: i64 = tdiv_i64(a3, 2 * (scale as i64));
        let a4: i64 = (2 * position_to_zoom.1 - (height as i64)) * FP;
        let q4: i64 = tdiv_i64(a4, 2 * (original_scale as i64));
        let cy: i64 = q3 + q4;
        (cx, cy)
    }

    /// The band an iteration count falls into: the first index whose
    /// upper threshold exceeds the scaled count.  The stored offset
    /// guarantees such an index exists for every count up to the cap.
    pub fn get_range(&self, iterations: u32) -> (r: usize)
        requires
            self.wf(),
            self.color_ranges@.len() >= 2,
            iterations <= self.max_iterations,
        ensures
            r == band_of_spec(self.color_ranges@, iterations as int),
            r + 2 <= self.color_ranges@.len(),
            1000 * iterations < self.color_ranges@[r as int + 1],
    {
        proof {
            assert(self.color_ranges@[0] < self.color_ranges@[self.color_ranges@.len() - 1]);
            assert(1000 * iterations < self.color_ranges@[self.color_ranges@.len() - 1]);
            lemma_band_covered(self.color_ranges@, iterations as int);
        }
        let scaled: u64 = MILLI * (iterations as u64);
        let mut i: usize = 0;
        while i < self.color_ranges.len() - 2
            invariant
                self.wf(),
                self.color_ranges@.len() >= 2,
                i + 2 <= self.color_ranges@.len(),
                scaled == 1000 * iterations,
                band_of_spec(self.color_ranges@, iterations as int) == band_scan(
                    self.color_ranges@,
                    iterations as int,
                    i as nat,
                ),
            decreases self.color_ranges@.len() - i,
        {
            if scaled < self.color_ranges[i + 1] {
                return i;
            }
            i = i + 1;
        }
        i
    }

    /// The per-pixel escape-time pass: map every pixel to its plane
    /// coordinate, evaluate its escape count, store it in the iteration
    /// buffer (row-major), and record every non-capped count in the
    /// histogram, so that afterwards `histogram[i]` is exactly the number
    /// of pixels whose count is `i`.
    pub fn calculate_iterations(&mut self)
        requires
            old(self).wf(),
            old(self).stage == Stage::Configured,
            forall|i: int| 0 <= i < old(self).histogram@.len() ==> old(self).histogram@[i] == 0,
        ensures
            final(self).wf(),
            final(self).stage == Stage::IterationsComputed,
            final(self).width == old(self).width,
            final(self).height == old(self).height,
            final(self).image == old(self).image,
            final(self).original_scale == old(self).original_scale,
            final(self).scale == old(self).scale,
            final(self).position_to_zoom == old(self).position_to_zoom,
            final(self).max_iterations == old(self).max_iterations,
            final(self).color_ranges@ == old(self).color_ranges@,
            final(self).colors@ == old(self).colors@,
            final(self).range_totals@ == old(self).range_totals@,
            final(self).got_first_range == old(self).got_first_range,
            forall|xx: int, yy: int|
                0 <= xx < old(self).width && 0 <= yy < old(self).height
                    ==> #[trigger] final(self).fractal@[yy * old(self).width + xx]
                    == iterations_spec(
                    map_x_spec(
                        xx,
                        old(self).width as int,
                        old(self).scale as int,
                        old(self).position_to_zoom.0 as int,
                        old(self).original_scale as int,
                    ),
                    map_y_spec(
                        yy,
                        old(self).height as int,
                        old(self).scale as int,
                        old(self).position_to_zoom.1 as int,
                        old(self).original_scale as int,
                    ),
                    old(self).max_iterations as nat,
                ),
            forall|i: int|
                0 <= i < old(self).max_iterations ==> #[trigger] final(self).histogram@[i] == occ(
                    final(self).fractal@,
                    i,
                ),
            seq_sum(final(self).histogram@) <= old(self).width * old(self).height,
    {
        let width = self.width;
        let height = self.height;
        proof {
            assert(width * height <= MAX_DIMENSION * MAX_DIMENSION) by (nonlinear_arith)
                requires
                    0 <= width <= MAX_DIMENSION,
                    0 <= height <= MAX_DIMENSION,
            ;
            lemma_seq_sum_zero(self.histogram@);
            assert(self.fractal@.subrange(0, 0) =~= Seq::<u32>::empty());
        }
        let mut y: usize = 0;
        while y < height
            invariant
                self.wf(),
                y <= height,
                width == self.width,
                height == self.height,
                self.width == old(self).width,
                self.height == old(self).height,
                self.image == old(self).image,
                self.original_scale == old(self).original_scale,
                self.scale == old(self).scale,
                self.position_to_zoom == old(self).position_to_zoom,
                self.max_iterations == old(self).max_iterations,
                self.color_ranges@ == old(self).color_ranges@,
                self.colors@ == old(self).colors@,
                self.range_totals@ == old(self).range_totals@,
                self.got_first_range == old(self).got_first_range,
                self.stage == old(self).stage,
                forall|xx: int, yy: int|
                    0 <= xx < width && 0 <= yy < y ==> #[trigger] self.fractal@[yy * width + xx]
                        == iterations_spec(
                        map_x_spec(
                            xx,
                            width as int,
                            self.scale as int,
                            self.position_to_zoom.0 as int,
                            self.original_scale as int,
                        ),
                        map_y_spec(
                            yy,
                            height as int,
                            self.scale as int,
                            self.position_to_zoom.1 as int,
                            self.original_scale as int,
                        ),
                        self.max_iterations as nat,
                    ),
                forall|i: int|
                    0 <= i < self.max_iterations ==> #[trigger] self.histogram@[i] == occ(
                        self.fractal@.subrange(0, y * width),
                        i,
                    ),
                seq_sum(self.histogram@) <= y * width,
            decreases height - y,
        {
            proof {
                assert(y * width + width <= height * width && height * width == width * height)
                    by (nonlinear_arith)
                    requires
                        y < height,
                        0 <= width,
                        0 <= height,
                ;
            }
            let mut x: usize = 0;
            while x < width
                invariant
                    self.wf(),
                    x <= width,
                    y < height,
                    width == self.width,
                    height == self.height,
                    self.width == old(self).width,
                    self.height == old(self).height,
                    self.image == old(self).image,
                    self.original_scale == old(self).original_scale,
                    self.scale == old(self).scale,
                    self.position_to_zoom == old(self).position_to_zoom,
                    self.max_iterations == old(self).max_iterations,
                    self.color_ranges@ == old(self).color_ranges@,
                    self.colors@ == old(self).colors@,
                    self.range_totals@ == old(self).range_totals@,
                    self.got_first_range == old(self).got_first_range,
                    self.stage == old(self).stage,
                    y * width + x <= width * height,
                    forall|xx: int, yy: int|
                        (0 <= xx < width && 0 <= yy < y) || (0 <= xx < x && yy == y)
                            ==> #[trigger] self.fractal@[yy * width + xx] == iterations_spec(
                            map_x_spec(
                                xx,
                                width as int,
                                self.scale as int,
                                self.position_to_zoom.0 as int,
                                self.original_scale as int,
                            ),
                            map_y_spec(
                                yy,
                                height as int,
                                self.scale as int,
                                self.position_to_zoom.1 as int,
                                self.original_scale as int,
                            ),
                            self.max_iterations as nat,
                        ),
                    forall|i: int|
                        0 <= i < self.max_iterations ==> #[trigger] self.histogram@[i] == occ(
                            self.fractal@.subrange(0, y * width + x),
                            i,
                        ),
                    seq_sum(self.histogram@) <= y * width + x,
                decreases width - x,
            {
                proof {
                    assert(y * width + x < width * height && y * width + x + 1 <= width * height
                        && y * width + x < y * width + width && width * height <= MAX_DIMENSION
                        * MAX_DIMENSION) by (nonlinear_arith)
                        requires
                            x < width,
                            y < height,
                            0 <= width <= MAX_DIMENSION,
                            0 <= height <= MAX_DIMENSION,
                    ;
                }
                let cart = Self::do_zoom(
                    x,
                    y,
                    width,
                    height,
                    self.original_scale,
                    self.scale,
                    self.position_to_zoom,
                );
                let iters = get_iterations(cart.0, cart.1, self.max_iterations);
                let idx: usize = y * width + x;
                let ghost pre_fractal = self.fractal@;
                self.fractal[idx] = iters;
                proof {
                    assert(self.fractal@.subrange(0, idx as int) =~= pre_fractal.subrange(
                        0,
                        idx as int,
                    ));
                    assert(self.fractal@.subrange(0, idx + 1) =~= pre_fractal.subrange(
                        0,
                        idx as int,
                    ).push(iters));
                }
                let ghost pre_hist = self.histogram@;
                self.record(iters);
                proof {
                    let prefix = pre_fractal.subrange(0, idx as int);
                    assert forall|i: int| 0 <= i < self.max_iterations implies #[trigger] self.histogram@[i]
                        == occ(self.fractal@.subrange(0, y * width + x + 1), i) by {
                        lemma_occ_push(prefix, iters, i);
                        assert(self.fractal@.subrange(0, y * width + x + 1) =~= prefix.push(
                            iters,
                        ));
                        assert(occ(self.fractal@.subrange(0, y * width + x + 1), i) == occ(
                            prefix,
                            i,
                        ) + if iters == i {
                            1int
                        } else {
                            0int
                        });
                        assert(pre_hist[i] == occ(prefix, i));
                        if iters < self.max_iterations {
                            lemma_seq_sum_elem(pre_hist, iters as int);
                            assert(pre_hist[iters as int] + 1 <= u64::MAX);
                            assert(self.histogram@ == pre_hist.update(
                                iters as int,
                                (pre_hist[iters as int] + 1) as u64,
                            ));
                            assert(self.histogram@[i] == pre_hist[i] + if iters == i {
                                1int
                            } else {
                                0int
                            });
                        } else {
                            assert(self.histogram@ == pre_hist);
                            assert(iters != i);
                        }
                    }
                    assert forall|xx: int, yy: int|
                        (0 <= xx < width && 0 <= yy < y) || (0 <= xx < x + 1 && yy == y)
                            implies #[trigger] self.fractal@[yy * width + xx] == iterations_spec(
                        map_x_spec(
                            xx,
                            width as int,
                            self.scale as int,
                            self.position_to_zoom.0 as int,
                            self.original_scale as int,
                        ),
                        map_y_spec(
                            yy,
                            height as int,
                            self.scale as int,
                            self.position_to_zoom.1 as int,
                            self.original_scale as int,
                        ),
                        self.max_iterations as nat,
                    ) by {
                        if 0 <= yy < y {
                            assert(yy * width + xx < y * width + x) by (nonlinear_arith)
                                requires
                                    0 <= xx < width,
                                    0 <= yy,
                                    yy + 1 <= y,
                                    0 <= x,
                            ;
                            assert(self.fractal@[yy * width + xx] == pre_fractal[yy * width + xx]);
                        } else if xx < x {
                            assert(self.fractal@[yy * width + xx] == pre_fractal[yy * width + xx]);
                        }
                    }
                }
                x = x + 1;
            }
            y = y + 1;
            proof {
                assert(y * width == (y - 1) * width + width) by (nonlinear_arith)
                    requires
                        1 <= y,
                        0 <= width,
                ;
            }
        }
        self.stage = Stage::IterationsComputed;
        proof {
            assert(height * width == width * height) by (nonlinear_arith);
            assert(self.fractal@.subrange(0, height * width) =~= self.fractal@);
        }
    }

    /// One pass over the iteration counts `0 .. max_iterations`, adding
    /// each histogram bucket to the total of the band the count falls
    /// into.  Afterwards the band totals sum to exactly the histogram's
    /// own sum: every recorded pixel is counted in exactly one band.
    pub fn calculate_range_totals(&mut self)
        requires
            old(self).wf(),
            old(self).stage == Stage::IterationsComputed,
            old(self).color_ranges@.len() >= 2,
            forall|b: int|
                0 <= b < old(self).range_totals@.len() ==> old(self).range_totals@[b] == 0,
        ensures
            final(self).wf(),
            final(self).stage == Stage::RangeTotalsComputed,
            final(self).width == old(self).width,
            final(self).height == old(self).height,
            final(self).image == old(self).image,
            final(self).original_scale == old(self).original_scale,
            final(self).scale == old(self).scale,
            final(self).position_to_zoom == old(self).position_to_zoom,
            final(self).max_iterations == old(self).max_iterations,
            final(self).color_ranges@ == old(self).color_ranges@,
            final(self).colors@ == old(self).colors@,
            final(self).got_first_range == old(self).got_first_range,
            final(self).histogram@ == old(self).histogram@,
            final(self).fractal@ == old(self).fractal@,
            final(self).range_totals@.len() == old(self).range_totals@.len(),
            forall|b: int|
                0 <= b < final(self).range_totals@.len()
                    ==> #[trigger] final(self).range_totals@[b] == band_sum(
                    old(self).histogram@,
                    old(self).color_ranges@,
                    b,
                    old(self).max_iterations as int,
                ),
            seq_sum(final(self).range_totals@) == seq_sum(old(self).histogram@),
    {
        let max = self.max_iterations;
        proof {
            lemma_seq_sum_zero(self.range_totals@);
            assert(self.histogram@.subrange(0, 0) =~= Seq::<u64>::empty());
        }
        let mut i: u32 = 0;
        while i < max
            invariant
                self.wf(),
                i <= max,
                max == self.max_iterations,
                self.color_ranges@.len() >= 2,
                self.width == old(self).width,
                self.height == old(self).height,
                self.image == old(self).image,
                self.original_scale == old(self).original_scale,
                self.scale == old(self).scale,
                self.position_to_zoom == old(self).position_to_zoom,
                self.max_iterations == old(self).max_iterations,
                self.color_ranges@ == old(self).color_ranges@,
                self.colors@ == old(self).colors@,
                self.got_first_range == old(self).got_first_range,
                self.histogram@ == old(self).histogram@,
                self.fractal@ == old(self).fractal@,
                self.stage == old(self).stage,
                self.range_totals@.len() == old(self).range_totals@.len(),
                forall|b: int|
                    0 <= b < self.range_totals@.len() ==> #[trigger] self.range_totals@[b]
                        == band_sum(self.histogram@, self.color_ranges@, b, i as int),
                seq_sum(self.range_totals@) == seq_sum(self.histogram@.subrange(0, i as int)),
            decreases max - i,
        {
            let b = self.get_range(i);
            let pixels: u64 = self.histogram[i as usize];
            let t: u64 = self.range_totals[b];
            proof {
                lemma_seq_sum_elem(self.range_totals@, b as int);
                lemma_seq_sum_elem(self.histogram@, i as int);
                lemma_seq_sum_split(self.histogram@, i as int);
                lemma_seq_sum_nonneg(self.histogram@.subrange(0, i as int));
                lemma_seq_sum_nonneg(
                    self.histogram@.subrange(i as int, self.histogram@.len() as int),
                );
            }
            let ghost pre_totals = self.range_totals@;
            self.range_totals[b] = t + pixels;
            proof {
                lemma_seq_sum_update(pre_totals, b as int, (t + pixels) as u64);
                assert(self.histogram@.subrange(0, i + 1).drop_last() =~= self.histogram@.subrange(
                    0,
                    i as int,
                ));
            }
            i = i + 1;
        }
        self.stage = Stage::RangeTotalsComputed;
        proof {
            assert(self.histogram@.subrange(0, max as int) =~= self.histogram@);
        }
    }

    /// Paint every pixel: capped points become solid black; every other
    /// point gets its band's gradient colour, placed by the cumulative
    /// density below its iteration count.
    pub fn draw_fractal(&mut self)
        requires
            old(self).wf(),
            old(self).stage == Stage::RangeTotalsComputed,
            old(self).color_ranges@.len() >= 2,
        ensures
            final(self).wf(),
            final(self).stage == Stage::Rendered,
            final(self).width == old(self).width,
            final(self).height == old(self).height,
            final(self).original_scale == old(self).original_scale,
            final(self).scale == old(self).scale,
            final(self).position_to_zoom == old(self).position_to_zoom,
            final(self).max_iterations == old(self).max_iterations,
            final(self).color_ranges@ == old(self).color_ranges@,
            final(self).colors@ == old(self).colors@,
            final(self).range_totals@ == old(self).range_totals@,
            final(self).got_first_range == old(self).got_first_range,
            final(self).histogram@ == old(self).histogram@,
            final(self).fractal@ == old(self).fractal@,
            final(self).image.width == old(self).image.width,
            final(self).image.height == old(self).image.height,
            forall|p: int|
                0 <= p < old(self).width * old(self).height ==> {
                    let c = pixel_color_spec(
                        old(self).fractal@[p] as int,
                        old(self).max_iterations as int,
                        old(self).histogram@,
                        old(self).color_ranges@,
                        old(self).range_totals@,
                        old(self).colors@,
                    );
                    &&& #[trigger] final(self).image.pixels@[3 * p] == c.blue
                    &&& final(self).image.pixels@[3 * p + 1] == c.green
                    &&& final(self).image.pixels@[3 * p + 2] == c.red
                },
    {
        let width = self.width;
        let height = self.height;
        let mut y: usize = 0;
        while y < height
            invariant
                self.wf(),
                y <= height,
                width == self.width,
                height == self.height,
                self.color_ranges@.len() >= 2,
                self.width == old(self).width,
                self.height == old(self).height,
                self.original_scale == old(self).original_scale,
                self.scale == old(self).scale,
                self.position_to_zoom == old(self).position_to_zoom,
                self.max_iterations == old(self).max_iterations,
                self.color_ranges@ == old(self).color_ranges@,
                self.colors@ == old(self).colors@,
                self.range_totals@ == old(self).range_totals@,
                self.got_first_range == old(self).got_first_range,
                self.histogram@ == old(self).histogram@,
                self.fractal@ == old(self).fractal@,
                self.image.width == old(self).image.width,
                self.image.height == old(self).image.height,
                self.stage == old(self).stage,
                forall|p: int|
                    0 <= p < y * width ==> {
                        let c = pixel_color_spec(
                            self.fractal@[p] as int,
                            self.max_iterations as int,
                            self.histogram@,
                            self.color_ranges@,
                            self.range_totals@,
                            self.colors@,
                        );
                        &&& #[trigger] self.image.pixels@[3 * p] == c.blue
                        &&& self.image.pixels@[3 * p + 1] == c.green
                        &&& self.image.pixels@[3 * p + 2] == c.red
                    },
            decreases height - y,
        {
            let mut x: usize = 0;
            while x < width
                invariant
                    self.wf(),
                    x <= width,
                    y < height,
                    width == self.width,
                    height == self.height,
                    self.color_ranges@.len() >= 2,
                    self.width == old(self).width,
                    self.height == old(self).height,
                    self.original_scale == old(self).original_scale,
                    self.scale == old(self).scale,
                    self.position_to_zoom == old(self).position_to_zoom,
                    self.max_iterations == old(self).max_iterations,
                    self.color_ranges@ == old(self).color_ranges@,
                    self.colors@ == old(self).colors@,
                    self.range_totals@ == old(self).range_totals@,
                    self.got_first_range == old(self).got_first_range,
                    self.histogram@ == old(self).histogram@,
                    self.fractal@ == old(self).fractal@,
                    self.image.width == old(self).image.width,
                    self.image.height == old(self).image.height,
                    self.stage == old(self).stage,
                    forall|p: int|
                        0 <= p < y * width + x ==> {
                            let c = pixel_color_spec(
                                self.fractal@[p] as int,
                                self.max_iterations as int,
                                self.histogram@,
                                self.color_ranges@,
                                self.range_totals@,
                                self.colors@,
                            );
                            &&& #[trigger] self.image.pixels@[3 * p] == c.blue
                            &&& self.image.pixels@[3 * p + 1] == c.green
                            &&& self.image.pixels@[3 * p + 2] == c.red
                        },
                decreases width - x,
            {
                proof {
                    assert(y * width + x < width * height && y * width + width <= height * width
                        && height * width == width * height && width * height <= MAX_DIMENSION
                        * MAX_DIMENSION) by (nonlinear_arith)
                        requires
                            x < width,
                            y < height,
                            0 <= width <= MAX_DIMENSION,
                            0 <= height <= MAX_DIMENSION,
                    ;
                }
                let idx: usize = y * width + x;
                let it: u32 = self.fractal[idx];
                let band: usize = self.get_range(it);
                proof {
                    vstd::std_specs::vec::axiom_spec_len(&self.colors);
                }
                let range_total: u64 = self.range_totals[band];
                let start_color: Rgb = self.colors[band];
                let end_color: Rgb = self.colors[band + 1];
                let red: u8;
                let green: u8;
                let blue: u8;
                if it == self.max_iterations {
                    red = 0;
                    green = 0;
                    blue = 0;
                } else {
                    proof {
                        lemma_seq_sum_split(self.histogram@, it as int);
                        lemma_seq_sum_nonneg(
                            self.histogram@.subrange(it as int, self.histogram@.len() as int),
                        );
                        lemma_seq_sum_nonneg(self.histogram@.subrange(0, it as int));
                        assert(rgb_le(self.colors@[band as int], self.colors@[band as int + 1]));
                    }
                    let total_pixels: u64 = self.cumulative_density(it);
                    let c: Rgb = interp_color(start_color, end_color, total_pixels, range_total);
                    red = c.red;
                    green = c.green;
                    blue = c.blue;
                }
                let ghost pre_pixels = self.image.pixels@;
                self.image.set_pixel(x, y, red, green, blue);
                proof {
                    let cnew = pixel_color_spec(
                        self.fractal@[idx as int] as int,
                        self.max_iterations as int,
                        self.histogram@,
                        self.color_ranges@,
                        self.range_totals@,
                        self.colors@,
                    );
                    assert(self.image.pixels@[3 * (idx as int)] == cnew.blue
                        && self.image.pixels@[3 * (idx as int) + 1] == cnew.green
                        && self.image.pixels@[3 * (idx as int) + 2] == cnew.red);
                    assert forall|p: int| 0 <= p < y * width + x + 1 implies {
                        let c = pixel_color_spec(
                            self.fractal@[p] as int,
                            self.max_iterations as int,
                            self.histogram@,
                            self.color_ranges@,
                            self.range_totals@,
                            self.colors@,
                        );
                        &&& #[trigger] self.image.pixels@[3 * p] == c.blue
                        &&& self.image.pixels@[3 * p + 1] == c.green
                        &&& self.image.pixels@[3 * p + 2] == c.red
                    } by {
                        if p < idx as int {
                            assert(self.image.pixels@[3 * p] == pre_pixels[3 * p]
                                && self.image.pixels@[3 * p + 1] == pre_pixels[3 * p + 1]
                                && self.image.pixels@[3 * p + 2] == pre_pixels[3 * p + 2]);
                        }
                    }
                }
                x = x + 1;
            }
            y = y + 1;
            proof {
                assert(y * width == (y - 1) * width + width) by (nonlinear_arith)
                    requires
                        1 <= y,
                        0 <= width,
                ;
            }
        }
        self.stage = Stage::Rendered;
        proof {
            assert(height * width == width * height) by (nonlinear_arith);
        }
    }

    /// Run the whole pipeline on a configured renderer: compute every
    /// pixel's escape count, total the histogram per band, paint the
    /// raster, and return the bytes of the finished bitmap file.  Fails
    /// fast with a configuration error when fewer than two colour ranges
    /// were added, and with a numeric conversion error when the file size
    /// would not fit the container's 32-bit signed field.
    pub fn create_fractal(&mut self) -> (r: Result<Vec<u8>, RenderError>)
        requires
            old(self).wf(),
            old(self).stage == Stage::Configured,
            forall|i: int| 0 <= i < old(self).histogram@.len() ==> old(self).histogram@[i] == 0,
            forall|b: int|
                0 <= b < old(self).range_totals@.len() ==> old(self).range_totals@[b] == 0,
        ensures
            final(self).wf(),
            old(self).color_ranges@.len() < 2 ==> (r matches Err(e) && e
                == RenderError::Configuration && *final(self) == *old(self)),
            old(self).color_ranges@.len() >= 2 && HEADER_BYTES + old(self).width * old(self).height
                * 3 > i32::MAX ==> (r matches Err(e) && e == RenderError::NumericConversion),
            old(self).color_ranges@.len() >= 2 && HEADER_BYTES + old(self).width * old(self).height
                * 3 <= i32::MAX ==> (r matches Ok(bytes) && final(self).stage == Stage::Rendered
                && bytes@ == bmp_bytes(
                old(self).width as int,
                old(self).height as int,
                final(self).image.pixels@,
            )),
            old(self).color_ranges@.len() >= 2 ==> {
                &&& final(self).width == old(self).width
                &&& final(self).height == old(self).height
                &&& final(self).max_iterations == old(self).max_iterations
                &&& final(self).color_ranges@ == old(self).color_ranges@
                &&& final(self).colors@ == old(self).colors@
                &&& (forall|xx: int, yy: int|
                    0 <= xx < old(self).width && 0 <= yy < old(self).height
                        ==> #[trigger] final(self).fractal@[yy * old(self).width + xx]
                        == iterations_spec(
                        map_x_spec(
                            xx,
                            old(self).width as int,
                            old(self).scale as int,
                            old(self).position_to_zoom.0 as int,
                            old(self).original_scale as int,
                        ),
                        map_y_spec(
                            yy,
                            old(self).height as int,
                            old(self).scale as int,
                            old(self).position_to_zoom.1 as int,
                            old(self).original_scale as int,
                        ),
                        old(self).max_iterations as nat,
                    ))
                &&& (forall|i: int|
                    0 <= i < old(self).max_iterations ==> #[trigger] final(self).histogram@[i]
                        == occ(final(self).fractal@, i))
                &&& (forall|b: int|
                    0 <= b < final(self).range_totals@.len()
                        ==> #[trigger] final(self).range_totals@[b] == band_sum(
                        final(self).histogram@,
                        final(self).color_ranges@,
                        b,
                        old(self).max_iterations as int,
                    ))
                &&& seq_sum(final(self).range_totals@) == seq_sum(final(self).histogram@)
                &&& (forall|p: int|
                    0 <= p < old(self).width * old(self).height ==> {
                        let c = pixel_color_spec(
                            final(self).fractal@[p] as int,
                            old(self).max_iterations as int,
                            final(self).histogram@,
                            final(self).color_ranges@,
                            final(self).range_totals@,
                            final(self).colors@,
                        );
                        &&& #[trigger] final(self).image.pixels@[3 * p] == c.blue
                        &&& final(self).image.pixels@[3 * p + 1] == c.green
                        &&& final(self).image.pixels@[3 * p + 2] == c.red
                    })
            },
    {
        if self.color_ranges.len() < 2 {
            return Err(RenderError::Configuration);
        }
        self.calculate_iterations();
        self.calculate_range_totals();
        self.draw_fractal();
        proof {
            assert(3 * (self.width * self.height) == self.width * self.height * 3)
                by (nonlinear_arith);
        }
        match self.image.file_bytes() {
            Ok(bytes) => Ok(bytes),
            Err(e) => Err(e),
        }
    }
}

} // verus!
