//! Placement of the overlay pill on the screen.
use vstd::prelude::*;

verus! {

/// Gap between the pill and the bottom of the work area, in pixels.
pub const PILL_BOTTOM_MARGIN: i32 = 10;

/// Pill size used when the window cannot report its own.
pub const FALLBACK_PILL_WIDTH: i32 = 168;

pub const FALLBACK_PILL_HEIGHT: i32 = 44;

/// The usable area of a monitor (without the taskbar).
#[derive(Debug, Clone, Copy, PartialEq, Eq, Structural)]
pub struct WorkArea {
    pub x: i32,
    pub y: i32,
    pub width: i32,
    pub height: i32,
}

/// The pill's size: the one the window reports, else the fallback size.
pub open spec fn pill_size(size: Option<(i32, i32)>) -> (int, int) {
    match size {
        Some((w, h)) => (w as int, h as int),
        None => (FALLBACK_PILL_WIDTH as int, FALLBACK_PILL_HEIGHT as int),
    }
}

pub open spec fn fits_i32(v: int) -> bool {
    i32::MIN <= v <= i32::MAX
}

/// Horizontal offset from the work area's left edge (`/` here rounds down, and a
/// negative quotient is clamped to zero either way).
pub open spec fn pill_dx(work_area: WorkArea, size: Option<(i32, i32)>) -> int {
    let dx = (work_area.width - pill_size(size).0) / 2;
    if dx < 0 { 0 } else { dx }
}

/// Vertical offset from the work area's top edge.
pub open spec fn pill_dy(work_area: WorkArea, size: Option<(i32, i32)>) -> int {
    let dy = work_area.height - pill_size(size).1 - PILL_BOTTOM_MARGIN;
    if dy < 0 { 0 } else { dy }
}

/// The arithmetic of `pill_position` stays within 32 bits for these inputs.
pub open spec fn pill_arithmetic_fits(work_area: WorkArea, size: Option<(i32, i32)>) -> bool {
    &&& fits_i32(work_area.width - pill_size(size).0)
    &&& fits_i32(work_area.height - pill_size(size).1)
    &&& fits_i32(work_area.height - pill_size(size).1 - PILL_BOTTOM_MARGIN)
    &&& fits_i32(work_area.x + pill_dx(work_area, size))
    &&& fits_i32(work_area.y + pill_dy(work_area, size))
}

/// Where the pill goes: centred horizontally and `PILL_BOTTOM_MARGIN` above the
/// bottom of the work area, never left of or above its origin. `size` is the
/// pill's (width, height) when the window reports it. The `requires` rule out
/// the inputs on which the 32-bit arithmetic would overflow.
pub fn pill_position(work_area: WorkArea, size: Option<(i32, i32)>) -> (r: (i32, i32))
    requires
        pill_arithmetic_fits(work_area, size),
    ensures
        r.0 == work_area.x + pill_dx(work_area, size),
        r.1 == work_area.y + pill_dy(work_area, size),
{
    let mut width: i32 = FALLBACK_PILL_WIDTH;
    let mut height: i32 = FALLBACK_PILL_HEIGHT;
    if let Some((w, h)) = size {
        width = w;
        height = h;
    }
    let diff = work_area.width - width;
    // Division truncates toward zero here; a negative difference is clamped anyway.
    let dx = if diff < 0 { 0 } else { diff / 2 };
    let dy0 = work_area.height - height - PILL_BOTTOM_MARGIN;
    let dy = if dy0 < 0 { 0 } else { dy0 };
    proof {
        if diff < 0 {
            assert((diff as int) / 2 <= 0) by (nonlinear_arith)
                requires
                    diff < 0,
            ;
        }
    }
    (work_area.x + dx, work_area.y + dy)
}

/// The pill's position, or `None` when the position does not fit in 32 bits.
pub fn try_pill_position(work_area: WorkArea, size: Option<(i32, i32)>) -> (r: Option<(i32, i32)>)
    ensures
        pill_arithmetic_fits(work_area, size) ==> r == Some(
            (
                (work_area.x + pill_dx(work_area, size)) as i32,
                (work_area.y + pill_dy(work_area, size)) as i32,
            ),
        ),
        !pill_arithmetic_fits(work_area, size) ==> r is None,
{
    let mut width: i64 = FALLBACK_PILL_WIDTH as i64;
    let mut height: i64 = FALLBACK_PILL_HEIGHT as i64;
    if let Some((w, h)) = size {
        width = w as i64;
        height = h as i64;
    }
    let min: i64 = i32::MIN as i64;
    let max: i64 = i32::MAX as i64;
    let diff = work_area.width as i64 - width;
    let rest = work_area.height as i64 - height;
    let dy0 = rest - PILL_BOTTOM_MARGIN as i64;
    if diff < min || diff > max || rest < min || rest > max || dy0 < min || dy0 > max {
        return None;
    }
    let dx = if diff < 0 { 0 } else { diff / 2 };
    let dy = if dy0 < 0 { 0 } else { dy0 };
    proof {
        if diff < 0 {
            assert((diff as int) / 2 <= 0) by (nonlinear_arith)
                requires
                    diff < 0,
            ;
        }
    }
    let x = work_area.x as i64 + dx;
    let y = work_area.y as i64 + dy;
    if x < min || x > max || y < min || y > max {
        return None;
    }
    Some(pill_position(work_area, size))
}

} // verus!
