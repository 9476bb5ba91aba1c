//! Tracking of the pointer position in normalised device coordinates.

use vstd::prelude::*;

use crate::fix::fx_div;
use crate::fix::fx_mul;
use crate::fix::div_sat;
use crate::fix::mul_sat;
use crate::fix::FIX_BOUND;
use crate::fix::SCALE;
use crate::geom::Vec2;

verus! {

/// Where the pointer sits inside the window, each axis mapped into
/// `[-1, 1]` fixed-point units.
#[derive(Clone, Copy, Debug, PartialEq, Eq, Structural)]
pub struct Mouse {
    pub normalised_device_coordinates: Vec2,
}

impl Default for Mouse {
    /// Starts at the centre of the window.
    fn default() -> (m: Mouse)
        ensures
            m.normalised_device_coordinates.x == 0,
            m.normalised_device_coordinates.y == 0,
    {
        Mouse { normalised_device_coordinates: Vec2 { x: 0, y: 0 } }
    }
}

/// One axis of the window mapping: `pos / len * 2 - 1`.
pub open spec fn ndc_axis(pos: int, len: int) -> int
    recommends
        len != 0,
{
    fx_mul(fx_div(pos, len), 2 * SCALE) - SCALE
}

/// Maps a cursor position to normalised device coordinates: the window
/// stretches over `[-1, 1]` on each axis. A cursor outside the window
/// (`None`) leaves the stored coordinates untouched.
pub fn mouse_position_system(mouse: &mut Mouse, cursor: Option<Vec2>, window_size: Vec2)
    requires
        1 <= window_size.x,
        1 <= window_size.y,
        cursor matches Some(c) ==> -FIX_BOUND <= c.x <= FIX_BOUND && -FIX_BOUND <= c.y
            <= FIX_BOUND,
    ensures
        cursor matches Some(c) ==> final(mouse).normalised_device_coordinates.x as int == ndc_axis(
            c.x as int,
            window_size.x as int,
        ) && final(mouse).normalised_device_coordinates.y as int == ndc_axis(
            c.y as int,
            window_size.y as int,
        ),
        cursor is None ==> *final(mouse) == *old(mouse),
{
    match cursor {
        Some(c) => {
            let nx = ndc_axis_exec(c.x, window_size.x);
            let ny = ndc_axis_exec(c.y, window_size.y);
            mouse.normalised_device_coordinates = Vec2 { x: nx, y: ny };
        },
        None => {},
    }
}

/// One axis of the normalised-device-coordinate mapping.
fn ndc_axis_exec(pos: i64, len: i64) -> (r: i64)
    requires
        1 <= len,
        -FIX_BOUND <= pos <= FIX_BOUND,
    ensures
        r as int == ndc_axis(pos as int, len as int),
{
    proof {
        lemma_ndc_axis_fits(pos as int, len as int);
    }
    let q = div_sat(pos, len);
    let d = mul_sat(q, 2 * SCALE);
    d - SCALE
}

/// The intermediate values of the axis mapping stay inside the saturation
/// limit for bounded cursor positions.
proof fn lemma_ndc_axis_fits(pos: int, len: int)
    requires
        1 <= len,
        -(FIX_BOUND as int) <= pos <= FIX_BOUND as int,
    ensures
        crate::fix::fx_div_sat(pos, len) == fx_div(pos, len),
        crate::fix::fx_abs(fx_div(pos, len)) <= (FIX_BOUND as int) * (SCALE as int),
        crate::fix::fx_mul_sat(fx_div(pos, len), 2 * SCALE as int) == fx_mul(
            fx_div(pos, len),
            2 * SCALE as int,
        ),
        crate::fix::fx_abs(fx_mul(fx_div(pos, len), 2 * SCALE as int)) <= 2 * (FIX_BOUND as int)
            * (SCALE as int),
{
    let bs = (FIX_BOUND as int) * (SCALE as int);
    let m = crate::fix::fx_abs(pos) * (SCALE as int);
    crate::fix::lemma_mul_le(crate::fix::fx_abs(pos), SCALE as int, FIX_BOUND as int, SCALE as int);
    vstd::arithmetic::div_mod::lemma_div_is_ordered(m, bs, crate::fix::fx_abs(len));
    vstd::arithmetic::div_mod::lemma_div_is_ordered_by_denominator(bs, 1, crate::fix::fx_abs(len));
    vstd::arithmetic::div_mod::lemma_div_multiples_vanish(bs, 1);
    assert(m / crate::fix::fx_abs(len) <= bs);
    let q = fx_div(pos, len);
    assert(crate::fix::fx_abs(q) <= bs);
    crate::fix::lemma_fx_mul_bound(q, 2 * SCALE as int, bs, 2 * SCALE as int);
    assert(bs * (2 * SCALE as int) == (2 * bs) * (SCALE as int)) by (nonlinear_arith);
    vstd::arithmetic::div_mod::lemma_div_multiples_vanish(2 * bs, SCALE as int);
    assert((SCALE as int) * (2 * bs) == (2 * bs) * (SCALE as int)) by (nonlinear_arith);
}

} // verus!
