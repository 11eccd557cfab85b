use std::ops::Neg;
use vstd::prelude::*;

use crate::explorer::Explorer;
use crate::high_precision::{HighPrecision, fits, mul_bits, one_bits};
use crate::types::Size;

verus! {

/// The keys that steer the explorer, as held down during a frame.
#[derive(Debug, Default, Clone, Copy, PartialEq, Eq, Structural)]
pub struct ControlKeys {
    /// doubles the speed of moving and zooming
    pub left_shift: bool,
    /// zooms out
    pub minus: bool,
    /// zooms in
    pub equal: bool,
    /// moves up
    pub w: bool,
    /// moves down
    pub s: bool,
    /// moves left
    pub a: bool,
    /// moves right
    pub d: bool,
}

/// Raw speed multiplier: two with shift held, one otherwise.
pub open spec fn multiplier_bits(keys: ControlKeys) -> int {
    if keys.left_shift {
        2 * one_bits()
    } else {
        one_bits()
    }
}

/// Raw zoom change per second: one to zoom out, minus one to zoom in, zero
/// otherwise (zooming out wins when both keys are held).
pub open spec fn zoom_delta_bits(keys: ControlKeys) -> int {
    if keys.minus {
        one_bits()
    } else if keys.equal {
        -one_bits()
    } else {
        0
    }
}

/// Raw factor by which the zoom is multiplied in a frame of `dt` seconds:
/// `1 + delta * multiplier * dt`.
pub open spec fn zoom_factor_bits(keys: ControlKeys, dt: int) -> int {
    one_bits() + mul_bits(mul_bits(zoom_delta_bits(keys), multiplier_bits(keys)), dt)
}

/// Whether every intermediate value of `handle_zoom` fits.
pub open spec fn handle_zoom_fits(zoom: int, dt: int, keys: ControlKeys) -> bool {
    &&& fits(mul_bits(mul_bits(zoom_delta_bits(keys), multiplier_bits(keys)), dt))
    &&& fits(zoom_factor_bits(keys, dt))
    &&& fits(mul_bits(zoom, zoom_factor_bits(keys, dt)))
}

/// Raw distance moved in a frame of `dt` seconds along a side of size `size`:
/// half the side per second, times the multiplier.
pub open spec fn move_step_bits(size: int, dt: int, keys: ControlKeys) -> int {
    mul_bits(mul_bits(mul_bits(size, one_bits() / 2), dt), multiplier_bits(keys))
}

/// Raw coordinate after moving back (`back`) and then forth (`forth`) by
/// `step`.
pub open spec fn moved(coord: int, step: int, back: bool, forth: bool) -> int {
    coord - (if back {
        step
    } else {
        0
    }) + (if forth {
        step
    } else {
        0
    })
}

/// Whether moving back and forth by `step` stays in range.
pub open spec fn moved_fits(coord: int, step: int, back: bool, forth: bool) -> bool {
    &&& (back ==> fits(coord - step))
    &&& fits(moved(coord, step, back, forth))
}

/// Whether every intermediate value of `handle_move` fits.
pub open spec fn handle_move_fits(
    offset_x: int,
    offset_y: int,
    last_size: Size,
    dt: int,
    keys: ControlKeys,
) -> bool {
    let w = last_size.w@ as int;
    let h = last_size.h@ as int;
    &&& fits(mul_bits(w, one_bits() / 2))
    &&& fits(mul_bits(mul_bits(w, one_bits() / 2), dt))
    &&& fits(move_step_bits(w, dt, keys))
    &&& fits(mul_bits(h, one_bits() / 2))
    &&& fits(mul_bits(mul_bits(h, one_bits() / 2), dt))
    &&& fits(move_step_bits(h, dt, keys))
    &&& moved_fits(offset_y, move_step_bits(h, dt, keys), keys.w, keys.s)
    &&& moved_fits(offset_x, move_step_bits(w, dt, keys), keys.a, keys.d)
}

/// The zoom change per second times the multiplier is at most two in size.
proof fn lemma_delta_times_multiplier_fits(keys: ControlKeys)
    ensures
        fits(mul_bits(zoom_delta_bits(keys), multiplier_bits(keys))),
{
    let m = multiplier_bits(keys);
    let o = one_bits();
    vstd::arithmetic::div_mod::lemma_div_multiples_vanish(m, o);
    vstd::arithmetic::div_mod::lemma_div_multiples_vanish(-m, o);
    assert((-o) * m == o * (-m)) by (nonlinear_arith);
    assert(mul_bits(0, m) == 0);
}

/// Updates the zoom from the keys held during a frame of `dt` seconds;
/// returns `true` if the frame should be updated.
pub fn handle_zoom(explorer: &mut Explorer, dt: HighPrecision, keys: &ControlKeys) -> (r: bool)
    requires
        handle_zoom_fits(old(explorer).zoom@ as int, dt@ as int, *keys),
    ensures
        r == (keys.minus || keys.equal),
        final(explorer).zoom@ == mul_bits(
            old(explorer).zoom@ as int,
            zoom_factor_bits(*keys, dt@ as int),
        ),
        final(explorer).offset == old(explorer).offset,
{
    let mut update = false;

    let abs_delta_percent = HighPrecision::from_u64(1);
    let multiplier = if keys.left_shift {
        HighPrecision::from_u64(2)
    } else {
        HighPrecision::from_u64(1)
    };

    let delta_percent = if keys.minus {
        update = true;
        abs_delta_percent
    } else if keys.equal {
        update = true;
        abs_delta_percent.neg()
    } else {
        HighPrecision::from_u64(0)
    };

    proof {
        lemma_delta_times_multiplier_fits(*keys);
    }
    let factor = HighPrecision::from_u64(1) + delta_percent * multiplier * dt;
    explorer.zoom = explorer.zoom * factor;

    update
}

/// Moves the explorer from the keys held during a frame of `dt` seconds, by
/// a share of the size of the last view; returns `true` if the frame should be
/// updated.
pub fn handle_move(
    explorer: &mut Explorer,
    last_size: &Size,
    dt: HighPrecision,
    keys: &ControlKeys,
) -> (r: bool)
    requires
        handle_move_fits(
            old(explorer).offset.x@ as int,
            old(explorer).offset.y@ as int,
            *last_size,
            dt@ as int,
            *keys,
        ),
    ensures
        r == (keys.w || keys.s || keys.a || keys.d),
        final(explorer).offset.x@ == moved(
            old(explorer).offset.x@ as int,
            move_step_bits(last_size.w@ as int, dt@ as int, *keys),
            keys.a,
            keys.d,
        ),
        final(explorer).offset.y@ == moved(
            old(explorer).offset.y@ as int,
            move_step_bits(last_size.h@ as int, dt@ as int, *keys),
            keys.w,
            keys.s,
        ),
        final(explorer).zoom == old(explorer).zoom,
{
    let mut update = false;

    let percentage = HighPrecision::from_u64(1) / HighPrecision::from_u64(2);
    proof {
        crate::explorer::lemma_times_half(0);
    }

    let multiplier = if keys.left_shift {
        HighPrecision::from_u64(2)
    } else {
        HighPrecision::from_u64(1)
    };

    let dx = last_size.w * percentage * dt * multiplier;
    let dy = last_size.h * percentage * dt * multiplier;

    if keys.w {
        explorer.offset.y = explorer.offset.y - dy;
        update = true;
    }

    if keys.s {
        explorer.offset.y = explorer.offset.y + dy;
        update = true;
    }

    if keys.a {
        explorer.offset.x = explorer.offset.x - dx;
        update = true;
    }

    if keys.d {
        explorer.offset.x = explorer.offset.x + dx;
        update = true;
    }

    update
}

/// `handle_zoom` when every intermediate value fits; otherwise `None`, with
/// the explorer left as it is.
pub fn checked_handle_zoom(explorer: &mut Explorer, dt: HighPrecision, keys: &ControlKeys) -> (r:
    Option<bool>)
    ensures
        r is Some <==> handle_zoom_fits(old(explorer).zoom@ as int, dt@ as int, *keys),
        r is None ==> *final(explorer) == *old(explorer),
        r matches Some(update) ==> {
            &&& update == (keys.minus || keys.equal)
            &&& final(explorer).zoom@ == mul_bits(
                old(explorer).zoom@ as int,
                zoom_factor_bits(*keys, dt@ as int),
            )
            &&& final(explorer).offset == old(explorer).offset
        },
{
    let multiplier = if keys.left_shift {
        HighPrecision::from_u64(2)
    } else {
        HighPrecision::from_u64(1)
    };
    let delta_percent = if keys.minus {
        HighPrecision::from_u64(1)
    } else if keys.equal {
        HighPrecision::from_u64(1).neg()
    } else {
        HighPrecision::from_u64(0)
    };
    proof {
        lemma_delta_times_multiplier_fits(*keys);
    }
    let scaled = match (delta_percent * multiplier).checked_mul(dt) {
        Some(v) => v,
        None => return None,
    };
    let factor = match HighPrecision::from_u64(1).checked_add(scaled) {
        Some(v) => v,
        None => return None,
    };
    if explorer.zoom.checked_mul(factor).is_none() {
        return None;
    }
    Some(handle_zoom(explorer, dt, keys))
}

/// `handle_move` when every intermediate value fits; otherwise `None`, with
/// the explorer left as it is.
pub fn checked_handle_move(
    explorer: &mut Explorer,
    last_size: &Size,
    dt: HighPrecision,
    keys: &ControlKeys,
) -> (r: Option<bool>)
    ensures
        r is Some <==> handle_move_fits(
            old(explorer).offset.x@ as int,
            old(explorer).offset.y@ as int,
            *last_size,
            dt@ as int,
            *keys,
        ),
        r is None ==> *final(explorer) == *old(explorer),
        r matches Some(update) ==> {
            &&& update == (keys.w || keys.s || keys.a || keys.d)
            &&& final(explorer).offset.x@ == moved(
                old(explorer).offset.x@ as int,
                move_step_bits(last_size.w@ as int, dt@ as int, *keys),
                keys.a,
                keys.d,
            )
            &&& final(explorer).offset.y@ == moved(
                old(explorer).offset.y@ as int,
                move_step_bits(last_size.h@ as int, dt@ as int, *keys),
                keys.w,
                keys.s,
            )
            &&& final(explorer).zoom == old(explorer).zoom
        },
{
    let percentage = HighPrecision::from_u64(1) / HighPrecision::from_u64(2);
    proof {
        crate::explorer::lemma_times_half(0);
    }
    let multiplier = if keys.left_shift {
        HighPrecision::from_u64(2)
    } else {
        HighPrecision::from_u64(1)
    };
    let dx = match last_size.w.checked_mul(percentage) {
        Some(v) => v,
        None => return None,
    };
    let dx = match dx.checked_mul(dt) {
        Some(v) => v,
        None => return None,
    };
    let dx = match dx.checked_mul(multiplier) {
        Some(v) => v,
        None => return None,
    };
    let dy = match last_size.h.checked_mul(percentage) {
        Some(v) => v,
        None => return None,
    };
    let dy = match dy.checked_mul(dt) {
        Some(v) => v,
        None => return None,
    };
    let dy = match dy.checked_mul(multiplier) {
        Some(v) => v,
        None => return None,
    };
    let mut y = explorer.offset.y;
    if keys.w {
        y = match y.checked_sub(dy) {
            Some(v) => v,
            None => return None,
        };
    }
    if keys.s && y.checked_add(dy).is_none() {
        return None;
    }
    let mut x = explorer.offset.x;
    if keys.a {
        x = match x.checked_sub(dx) {
            Some(v) => v,
            None => return None,
        };
    }
    if keys.d && x.checked_add(dx).is_none() {
        return None;
    }
    Some(handle_move(explorer, last_size, dt, keys))
}

/// Without a zoom key held, the zoom stays exactly as it is, whatever the
/// frame time.
pub proof fn lemma_no_zoom_key_keeps_zoom(zoom: i128, dt: i128, keys: ControlKeys)
    requires
        !keys.minus,
        !keys.equal,
    ensures
        zoom_factor_bits(keys, dt as int) == one_bits(),
        mul_bits(zoom as int, zoom_factor_bits(keys, dt as int)) == zoom,
{
    assert(mul_bits(0, multiplier_bits(keys)) == 0);
    assert(mul_bits(0, dt as int) == 0);
    vstd::arithmetic::div_mod::lemma_div_multiples_vanish(zoom as int, one_bits());
    assert(zoom as int * one_bits() == one_bits() * zoom as int) by (nonlinear_arith);
}

/// The zoom factor of a frame is exact and linear in the frame time: one plus
/// `dt` times the zoom speed, which is one per second outwards with `-`,
/// one per second inwards with `=` (`-` wins when both are held), none
/// otherwise, and doubled with shift held.
pub proof fn lemma_zoom_factor_is_linear_in_time(keys: ControlKeys, dt: int)
    ensures
        zoom_factor_bits(keys, dt) == one_bits() + (if keys.minus {
            1int
        } else if keys.equal {
            -1int
        } else {
            0int
        }) * (if keys.left_shift {
            2int
        } else {
            1int
        }) * dt,
{
    let o = one_bits();
    let c = (if keys.minus {
        1int
    } else if keys.equal {
        -1int
    } else {
        0int
    }) * (if keys.left_shift {
        2int
    } else {
        1int
    });
    assert(zoom_delta_bits(keys) * multiplier_bits(keys) == o * (c * o)) by (nonlinear_arith)
        requires
            zoom_delta_bits(keys) == (if keys.minus {
                1int
            } else if keys.equal {
                -1int
            } else {
                0int
            }) * o,
            multiplier_bits(keys) == (if keys.left_shift {
                2int
            } else {
                1int
            }) * o,
            c == (if keys.minus {
                1int
            } else if keys.equal {
                -1int
            } else {
                0int
            }) * (if keys.left_shift {
                2int
            } else {
                1int
            }),
    ;
    vstd::arithmetic::div_mod::lemma_div_multiples_vanish(c * o, o);
    assert((c * o) * dt == o * (c * dt)) by (nonlinear_arith);
    vstd::arithmetic::div_mod::lemma_div_multiples_vanish(c * dt, o);
}

/// Holding the keys of two opposite directions leaves the position as it is.
pub proof fn lemma_opposite_keys_cancel(coord: int, step: int, keys_held: bool)
    ensures
        moved(coord, step, keys_held, keys_held) == coord,
{
}

/// A frame that takes no time moves nothing: the step is zero and the
/// position stays where it was, whatever keys are held.
pub proof fn lemma_no_time_no_move(coord: int, size: int, keys: ControlKeys)
    ensures
        move_step_bits(size, 0, keys) == 0,
        moved(coord, move_step_bits(size, 0, keys), keys.a, keys.d) == coord,
        moved(coord, move_step_bits(size, 0, keys), keys.w, keys.s) == coord,
{
    assert(mul_bits(mul_bits(size, one_bits() / 2), 0) == 0);
    assert(mul_bits(0, multiplier_bits(keys)) == 0);
}

/// The step is the speed, half the side of the last view per second (rounded
/// down), times the frame time, rounded down, and doubled with shift held: it
/// is proportional to `dt` up to rounding.
pub proof fn lemma_step_is_speed_times_time(size: int, dt: int, keys: ControlKeys)
    ensures
        move_step_bits(size, dt, keys) == (if keys.left_shift {
            2int
        } else {
            1int
        }) * ((size / 2) * dt / one_bits()),
{
    let o = one_bits();
    let q = (size / 2) * dt / o;
    crate::explorer::lemma_times_half(size);
    assert(q * o == o * q) by (nonlinear_arith);
    vstd::arithmetic::div_mod::lemma_div_multiples_vanish(q, o);
    assert(q * (2 * o) == o * (2 * q)) by (nonlinear_arith);
    vstd::arithmetic::div_mod::lemma_div_multiples_vanish(2 * q, o);
}

/// A frame of one second moves by half the side of the last view (rounded
/// down), and by twice that with shift held.
pub proof fn lemma_one_second_moves_half_side(size: int, keys: ControlKeys)
    ensures
        move_step_bits(size, one_bits(), keys) == if keys.left_shift {
            2 * (size / 2)
        } else {
            size / 2
        },
{
    let o = one_bits();
    let h = size / 2;
    lemma_step_is_speed_times_time(size, o, keys);
    assert(h * o == o * h) by (nonlinear_arith);
    vstd::arithmetic::div_mod::lemma_div_multiples_vanish(h, o);
}

} // verus!
