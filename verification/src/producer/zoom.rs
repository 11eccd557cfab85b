use vstd::prelude::*;

use crate::high_precision::{HighPrecision, div_bits, fits, mul_bits, one_bits, trunc_div};
use crate::types::{Pos, Size};

verus! {

/// Raw start coordinate after zooming: the start moved back by half the growth
/// of the size (rounded toward zero).
pub open spec fn zoomed_start(start: int, size: int, zoomed: int) -> int {
    start - trunc_div(zoomed - size, 2)
}

/// Dividing by the fixed-point two halves a number, rounding toward zero.
proof fn lemma_div_by_two(d: int)
    ensures
        div_bits(d, 2 * one_bits()) == trunc_div(d, 2),
{
    let o = one_bits();
    let a = if d >= 0 {
        d
    } else {
        -d
    };
    assert(if d * o >= 0 {
        d * o
    } else {
        -(d * o)
    } == a * o) by (nonlinear_arith)
        requires
            o > 0,
            a == if d >= 0 {
                d
            } else {
                -d
            },
    ;
    assert((a * o) / (2 * o) == a / 2) by (nonlinear_arith)
        requires
            a >= 0,
            o > 0,
    {
        vstd::arithmetic::div_mod::lemma_div_denominator(a * o, o, 2);
        vstd::arithmetic::div_mod::lemma_div_by_multiple(a, o);
    }
    assert((d * o < 0) == (d < 0)) by (nonlinear_arith)
        requires
            o > 0,
    ;
}

/// Zooms the section that another producer renders around its centre.
pub struct Zoom<P> {
    producer: P,
    zoom: HighPrecision,
}

impl<P> Zoom<P> {
    pub fn new(producer: P, zoom: HighPrecision) -> (r: Self)
        ensures
            r.spec_producer() == producer,
            r.spec_zoom() == zoom,
    {
        Self { producer, zoom }
    }

    pub closed spec fn spec_producer(&self) -> P {
        self.producer
    }

    pub closed spec fn spec_zoom(&self) -> HighPrecision {
        self.zoom
    }

    pub fn zoom(&self) -> (r: HighPrecision)
        ensures
            r == self.spec_zoom(),
    {
        self.zoom
    }

    pub fn get_zoom_size(&self, size: &Size) -> (r: Size)
        requires
            fits(mul_bits(self.spec_zoom()@ as int, size.w@ as int)),
            fits(mul_bits(self.spec_zoom()@ as int, size.h@ as int)),
        ensures
            r.w@ == mul_bits(self.spec_zoom()@ as int, size.w@ as int),
            r.h@ == mul_bits(self.spec_zoom()@ as int, size.h@ as int),
    {
        Size { w: self.zoom() * size.w, h: self.zoom() * size.h }
    }

    pub fn zoom_mut(&mut self) -> (r: &mut HighPrecision)
        ensures
            *r == old(self).spec_zoom(),
            final(self).spec_zoom() == *final(r),
            final(self).spec_producer() == old(self).spec_producer(),
    {
        &mut self.zoom
    }

    /// The producer that renders the zoomed section.
    pub fn producer_mut(&mut self) -> (r: &mut P)
        ensures
            *r == old(self).spec_producer(),
            final(self).spec_producer() == *final(r),
            final(self).spec_zoom() == old(self).spec_zoom(),
    {
        &mut self.producer
    }

    /// Whether every intermediate value of `zoom_view(start, size)` fits.
    pub open spec fn zoom_view_fits(&self, start: Pos, size: Size) -> bool {
        let zw = mul_bits(self.spec_zoom()@ as int, size.w@ as int);
        let zh = mul_bits(self.spec_zoom()@ as int, size.h@ as int);
        &&& fits(zw)
        &&& fits(zh)
        &&& fits(zw - size.w@)
        &&& fits(zh - size.h@)
        &&& fits(zoomed_start(start.x@ as int, size.w@ as int, zw))
        &&& fits(zoomed_start(start.y@ as int, size.h@ as int, zh))
    }

    /// `zoom_view(start, size)` where every intermediate value fits, `None`
    /// otherwise.
    pub fn checked_zoom_view(&self, start: Pos, size: Size) -> (r: Option<crate::types::View>)
        ensures
            r is Some <==> self.zoom_view_fits(start, size),
            r matches Some(v) ==> {
                &&& v.size.w@ == mul_bits(self.spec_zoom()@ as int, size.w@ as int)
                &&& v.size.h@ == mul_bits(self.spec_zoom()@ as int, size.h@ as int)
                &&& v.start.x@ == zoomed_start(start.x@ as int, size.w@ as int, v.size.w@ as int)
                &&& v.start.y@ == zoomed_start(start.y@ as int, size.h@ as int, v.size.h@ as int)
            },
    {
        let zw = match self.zoom.checked_mul(size.w) {
            Some(z) => z,
            None => return None,
        };
        let zh = match self.zoom.checked_mul(size.h) {
            Some(z) => z,
            None => return None,
        };
        let dw = match zw.checked_sub(size.w) {
            Some(d) => d,
            None => return None,
        };
        let dh = match zh.checked_sub(size.h) {
            Some(d) => d,
            None => return None,
        };
        let two = HighPrecision::from_u64(2);
        proof {
            lemma_div_by_two(dw@ as int);
            lemma_div_by_two(dh@ as int);
            vstd::arithmetic::div_mod::lemma_div_pos_is_pos(
                if dw@ >= 0 { dw@ as int } else { -dw@ },
                2,
            );
            vstd::arithmetic::div_mod::lemma_div_pos_is_pos(
                if dh@ >= 0 { dh@ as int } else { -dh@ },
                2,
            );
        }
        let hw = dw / two;
        let hh = dh / two;
        if start.x.checked_sub(hw).is_none() || start.y.checked_sub(hh).is_none() {
            return None;
        }
        Some(self.zoom_view(start, size))
    }

    /// The section that the inner producer renders in place of the section at
    /// `start` of size `size`: the size scaled by the zoom, moved so that it
    /// keeps its centre.
    pub fn zoom_view(&self, start: Pos, size: Size) -> (r: crate::types::View)
        requires
            self.zoom_view_fits(start, size),
        ensures
            r.size.w@ == mul_bits(self.spec_zoom()@ as int, size.w@ as int),
            r.size.h@ == mul_bits(self.spec_zoom()@ as int, size.h@ as int),
            r.start.x@ == zoomed_start(start.x@ as int, size.w@ as int, r.size.w@ as int),
            r.start.y@ == zoomed_start(start.y@ as int, size.h@ as int, r.size.h@ as int),
    {
        let zoom = self.get_zoom_size(&size);
        let two = HighPrecision::from_u64(2);
        proof {
            lemma_div_by_two(zoom.w@ - size.w@);
            lemma_div_by_two(zoom.h@ - size.h@);
            vstd::arithmetic::div_mod::lemma_div_pos_is_pos(
                if zoom.w@ - size.w@ >= 0 { zoom.w@ - size.w@ } else { size.w@ - zoom.w@ },
                2,
            );
            vstd::arithmetic::div_mod::lemma_div_pos_is_pos(
                if zoom.h@ - size.h@ >= 0 { zoom.h@ - size.h@ } else { size.h@ - zoom.h@ },
                2,
            );
        }
        let start = Pos {
            x: start.x - (zoom.w - size.w) / two,
            y: start.y - (zoom.h - size.h) / two,
        };
        crate::types::View { start, size: zoom }
    }
}

/// Zooming keeps the centre of the section in place, to within one unit in
/// the last place: `2 * start + size` moves by at most one.
pub proof fn lemma_zoom_keeps_centre(start: int, size: int, zoomed: int)
    ensures
        2 * start + size - 1 <= 2 * zoomed_start(start, size, zoomed) + zoomed <= 2 * start + size
            + 1,
{
}

} // verus!
