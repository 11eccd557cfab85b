use vstd::prelude::*;

use crate::high_precision::{HighPrecision, div_bits, fits, mul_bits, one_bits};
use crate::types::{Dimensions, Pos, Size};

verus! {

/// Dimensions that the explorer can turn into a view: each side converts
/// exactly to a `HighPrecision` (below 512) and they are not both zero.
pub open spec fn dims_supported(dims: Dimensions) -> bool {
    &&& dims.w < 512
    &&& dims.h < 512
    &&& (dims.w > 0 || dims.h > 0)
}

/// Raw width of the aspect-ratio box of `dims`: one for the longer side, the
/// ratio of the sides (rounded down) for the shorter one.
pub open spec fn ratio_w(dims: Dimensions) -> int {
    if dims.w > dims.h {
        one_bits()
    } else {
        (dims.w * one_bits()) / (dims.h as int)
    }
}

/// Raw height of the aspect-ratio box of `dims`.
pub open spec fn ratio_h(dims: Dimensions) -> int {
    if dims.w > dims.h {
        (dims.h * one_bits()) / (dims.w as int)
    } else {
        one_bits()
    }
}

/// Raw start coordinate of a view: the offset moved by half the difference
/// between the aspect-ratio box and the zoomed box (rounded down).
pub open spec fn start_coord(offset: int, ratio: int, zoomed: int) -> int {
    offset + (ratio - zoomed) / 2
}

/// small utility that provides the calculations required to explore the mandelbrot set
pub struct Explorer {
    pub zoom: HighPrecision,
    pub offset: Pos,
}

/// `a * (b * 2^118) / (c * 2^118)` rounded toward zero is `a * 2^118 / c`
/// rounded down, for non-negative `a` and positive `c`.
proof fn lemma_ratio_div(a: int, c: int)
    requires
        0 <= a,
        0 < c,
    ensures
        div_bits(a * one_bits(), c * one_bits()) == (a * one_bits()) / c,
{
    let o = one_bits();
    assert(a * o * o >= 0) by (nonlinear_arith)
        requires
            a >= 0,
            o > 0,
    ;
    assert(c * o > 0) by (nonlinear_arith)
        requires
            c > 0,
            o > 0,
    ;
    assert((a * o * o) / (c * o) == (a * o) / c) by (nonlinear_arith)
        requires
            a >= 0,
            c > 0,
            o > 0,
    {
        vstd::arithmetic::div_mod::lemma_div_denominator(a * o * o, o, c);
        vstd::arithmetic::div_mod::lemma_div_by_multiple(a * o, o);
        assert(c * o == o * c) by (nonlinear_arith);
    }
}

/// `a * 2^118 / c` rounded down lies in `[0, 2^118]` when `0 <= a <= c`.
proof fn lemma_ratio_bounds(a: int, c: int)
    requires
        0 <= a <= c,
        0 < c,
    ensures
        0 <= (a * one_bits()) / c <= one_bits(),
{
    let o = one_bits();
    assert(0 <= (a * o) / c <= o) by (nonlinear_arith)
        requires
            0 <= a <= c,
            0 < c,
            o > 0,
    {
        vstd::arithmetic::div_mod::lemma_div_is_ordered(a * o, c * o, c);
        vstd::arithmetic::div_mod::lemma_div_by_multiple(o, c);
        assert(c * o == o * c) by (nonlinear_arith);
    }
}

/// Multiplying by a value in `[0, 1]` keeps a number in range.
proof fn lemma_mul_fraction_fits(r: int, z: int)
    requires
        0 <= r <= one_bits(),
        fits(z),
    ensures
        fits(mul_bits(r, z)),
{
    let o = one_bits();
    if z >= 0 {
        assert(0 <= (r * z) / o <= z) by (nonlinear_arith)
            requires
                0 <= r <= o,
                z >= 0,
                o > 0,
        {
            vstd::arithmetic::mul::lemma_mul_inequality(r, o, z);
            vstd::arithmetic::div_mod::lemma_div_is_ordered(r * z, o * z, o);
            vstd::arithmetic::div_mod::lemma_div_by_multiple(z, o);
            assert(o * z == z * o) by (nonlinear_arith);
            assert(r * z >= 0) by (nonlinear_arith)
                requires
                    r >= 0,
                    z >= 0,
            ;
        }
    } else {
        assert(z <= (r * z) / o <= 0) by (nonlinear_arith)
            requires
                0 <= r <= o,
                z < 0,
                o > 0,
        {
            assert(o * z <= r * z) by (nonlinear_arith)
                requires
                    r <= o,
                    z < 0,
            ;
            assert(r * z <= 0) by (nonlinear_arith)
                requires
                    r >= 0,
                    z < 0,
            ;
            vstd::arithmetic::div_mod::lemma_div_is_ordered(o * z, r * z, o);
            vstd::arithmetic::div_mod::lemma_div_multiples_vanish(z, o);
            vstd::arithmetic::div_mod::lemma_div_is_ordered(r * z, 0, o);
        }
    }
}

/// The fixed-point half (one divided by two) halves a number, rounding down.
pub(crate) proof fn lemma_times_half(d: int)
    ensures
        div_bits(one_bits(), 2 * one_bits()) == one_bits() / 2,
        mul_bits(d, one_bits() / 2) == d / 2,
{
    let h = one_bits() / 2;
    let o = one_bits();
    assert(o == 2 * h);
    assert(o * o == h * (2 * o)) by (nonlinear_arith)
        requires
            o == 2 * h,
    ;
    vstd::arithmetic::div_mod::lemma_div_by_multiple(h, 2 * o);
    let q = d / 2;
    let r = d % 2;
    vstd::arithmetic::div_mod::lemma_fundamental_div_mod(d, 2);
    assert(d * h == (2 * h) * q + r * h) by (nonlinear_arith)
        requires
            d == 2 * q + r,
    ;
    assert(0 <= r * h < 2 * h) by (nonlinear_arith)
        requires
            0 <= r < 2,
            h > 0,
    ;
    vstd::arithmetic::div_mod::lemma_div_multiples_vanish_fancy(q, r * h, 2 * h);
}

/// The aspect-ratio box lies within the unit square, and its longer side is
/// exactly one.
pub proof fn lemma_ratio_in_unit(dims: Dimensions)
    requires
        dims_supported(dims),
    ensures
        0 <= ratio_w(dims) <= one_bits(),
        0 <= ratio_h(dims) <= one_bits(),
        dims.w > dims.h ==> ratio_w(dims) == one_bits(),
        dims.w <= dims.h ==> ratio_h(dims) == one_bits(),
{
    if dims.w > dims.h {
        lemma_ratio_bounds(dims.h as int, dims.w as int);
    } else {
        lemma_ratio_bounds(dims.w as int, dims.h as int);
    }
}

impl Explorer {
    /// Whether every intermediate value of `view(dims)` fits in range.
    pub open spec fn view_fits(&self, dims: Dimensions) -> bool {
        let rw = ratio_w(dims);
        let rh = ratio_h(dims);
        let zw = mul_bits(rw, self.zoom@ as int);
        let zh = mul_bits(rh, self.zoom@ as int);
        &&& fits(rw - zw)
        &&& fits(rh - zh)
        &&& fits(start_coord(self.offset.x@ as int, rw, zw))
        &&& fits(start_coord(self.offset.y@ as int, rh, zh))
    }

    /// The section of the plane to show on a screen of `dims` pixels.
    pub fn view(&self, dims: &Dimensions) -> (r: crate::types::View)
        requires
            dims_supported(*dims),
            self.view_fits(*dims),
        ensures
            r.size.w@ == mul_bits(ratio_w(*dims), self.zoom@ as int),
            r.size.h@ == mul_bits(ratio_h(*dims), self.zoom@ as int),
            r.start.x@ == start_coord(self.offset.x@ as int, ratio_w(*dims), r.size.w@ as int),
            r.start.y@ == start_coord(self.offset.y@ as int, ratio_h(*dims), r.size.h@ as int),
    {
        let ratio_size = self.ratio_size(dims);
        proof {
            lemma_ratio_in_unit(*dims);
            lemma_mul_fraction_fits(ratio_w(*dims), self.zoom@ as int);
            lemma_mul_fraction_fits(ratio_h(*dims), self.zoom@ as int);
        }
        let size = self.zoom_size(&ratio_size);
        let start = self.start(&ratio_size, &size);
        crate::types::View { start, size }
    }

    /// `view(dims)` where every intermediate value fits, `None` otherwise.
    pub fn checked_view(&self, dims: &Dimensions) -> (r: Option<crate::types::View>)
        ensures
            r is Some <==> dims_supported(*dims) && self.view_fits(*dims),
            r matches Some(v) ==> {
                &&& v.size.w@ == mul_bits(ratio_w(*dims), self.zoom@ as int)
                &&& v.size.h@ == mul_bits(ratio_h(*dims), self.zoom@ as int)
                &&& v.start.x@ == start_coord(self.offset.x@ as int, ratio_w(*dims), v.size.w@ as int)
                &&& v.start.y@ == start_coord(self.offset.y@ as int, ratio_h(*dims), v.size.h@ as int)
            },
    {
        if !(dims.w < 512 && dims.h < 512 && (dims.w > 0 || dims.h > 0)) {
            return None;
        }
        let ratio_size = self.ratio_size(dims);
        proof {
            lemma_ratio_in_unit(*dims);
            lemma_mul_fraction_fits(ratio_w(*dims), self.zoom@ as int);
            lemma_mul_fraction_fits(ratio_h(*dims), self.zoom@ as int);
        }
        let size = self.zoom_size(&ratio_size);
        let half = HighPrecision::from_u64(1) / HighPrecision::from_u64(2);
        let dw = match ratio_size.w.checked_sub(size.w) {
            Some(d) => d,
            None => return None,
        };
        let dh = match ratio_size.h.checked_sub(size.h) {
            Some(d) => d,
            None => return None,
        };
        proof {
            lemma_times_half(dw@ as int);
            lemma_times_half(dh@ as int);
        }
        let hw = dw * half;
        let hh = dh * half;
        if self.offset.x.checked_add(hw).is_none() || self.offset.y.checked_add(hh).is_none() {
            return None;
        }
        Some(self.view(dims))
    }

    pub fn new(zoom: HighPrecision, offset: Pos) -> (r: Self)
        ensures
            r.zoom == zoom,
            r.offset == offset,
    {
        Self { zoom, offset }
    }

    /// The aspect-ratio box of `dims`: the longer side is one, the shorter
    /// side is the ratio of the sides.
    pub fn ratio_size(&self, dims: &Dimensions) -> (r: Size)
        requires
            dims_supported(*dims),
        ensures
            r.w@ == ratio_w(*dims),
            r.h@ == ratio_h(*dims),
    {
        let dims_w = HighPrecision::from_u64(dims.w);
        let dims_h = HighPrecision::from_u64(dims.h);
        let one = HighPrecision::from_u64(1);
        if dims_w.to_bits() > dims_h.to_bits() {
            proof {
                lemma_ratio_div(dims.h as int, dims.w as int);
                lemma_ratio_bounds(dims.h as int, dims.w as int);
            }
            Size { w: one, h: dims_h / dims_w }
        } else {
            proof {
                lemma_ratio_div(dims.w as int, dims.h as int);
                lemma_ratio_bounds(dims.w as int, dims.h as int);
            }
            Size { w: dims_w / dims_h, h: one }
        }
    }

    /// The aspect-ratio box scaled by the zoom.
    pub fn zoom_size(&self, ratio_size: &Size) -> (r: Size)
        requires
            fits(mul_bits(ratio_size.w@ as int, self.zoom@ as int)),
            fits(mul_bits(ratio_size.h@ as int, self.zoom@ as int)),
        ensures
            r.w@ == mul_bits(ratio_size.w@ as int, self.zoom@ as int),
            r.h@ == mul_bits(ratio_size.h@ as int, self.zoom@ as int),
    {
        Size { w: ratio_size.w * self.zoom, h: ratio_size.h * self.zoom }
    }

    /// Where the zoomed box starts so that it stays centred on the
    /// aspect-ratio box moved by the offset.
    pub fn start(&self, ratio_size: &Size, zoom_size: &Size) -> (r: Pos)
        requires
            fits(ratio_size.w@ - zoom_size.w@),
            fits(ratio_size.h@ - zoom_size.h@),
            fits(start_coord(self.offset.x@ as int, ratio_size.w@ as int, zoom_size.w@ as int)),
            fits(start_coord(self.offset.y@ as int, ratio_size.h@ as int, zoom_size.h@ as int)),
        ensures
            r.x@ == start_coord(self.offset.x@ as int, ratio_size.w@ as int, zoom_size.w@ as int),
            r.y@ == start_coord(self.offset.y@ as int, ratio_size.h@ as int, zoom_size.h@ as int),
    {
        let half = HighPrecision::from_u64(1) / HighPrecision::from_u64(2);
        proof {
            lemma_times_half(ratio_size.w@ - zoom_size.w@);
            lemma_times_half(ratio_size.h@ - zoom_size.h@);
        }
        Pos {
            x: self.offset.x + (ratio_size.w - zoom_size.w) * half,
            y: self.offset.y + (ratio_size.h - zoom_size.h) * half,
        }
    }
}

/// Whatever the zoom, the centre of the view (`start + size / 2`) stays on the
/// centre of the aspect-ratio box moved by the offset, to within half a unit in
/// the last place: `2 * start + size` is `2 * offset + ratio` or one less.
pub proof fn lemma_view_centred(offset: int, ratio: int, zoomed: int)
    ensures
        2 * offset + ratio - 1 <= 2 * start_coord(offset, ratio, zoomed) + zoomed <= 2 * offset
            + ratio,
{
}

/// At zoom one the view is exactly the aspect-ratio box moved by the offset.
pub proof fn lemma_view_at_unit_zoom(offset: int, ratio: int)
    ensures
        mul_bits(ratio, one_bits()) == ratio,
        start_coord(offset, ratio, mul_bits(ratio, one_bits())) == offset,
{
    vstd::arithmetic::div_mod::lemma_div_multiples_vanish(ratio, one_bits());
    assert(ratio * one_bits() == one_bits() * ratio) by (nonlinear_arith);
}

} // verus!
