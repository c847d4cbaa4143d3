//! Where the history window is placed on screen, in physical pixels.

use vstd::prelude::*;

verus! {

#[derive(Clone, Copy, Debug, PartialEq, Eq, Structural)]
pub struct Position {
    pub x: i32,
    pub y: i32,
}

#[derive(Clone, Copy, Debug, PartialEq, Eq, Structural)]
pub struct Size {
    pub width: u32,
    pub height: u32,
}

/// A monitor's top-left corner and size.
#[derive(Clone, Copy, Debug, PartialEq, Eq, Structural)]
pub struct MonitorArea {
    pub position: Position,
    pub size: Size,
}

/// The window size assumed when the window cannot report its own.
pub open spec fn fallback_window_size() -> Size {
    Size { width: 380, height: 560 }
}

/// `v as i32`: sizes of 2^31 and more wrap to negative values.
pub open spec fn as_i32(v: u32) -> int {
    if v <= i32::MAX {
        v as int
    } else {
        v - 0x1_0000_0000
    }
}

pub open spec fn fits_i32(v: int) -> bool {
    i32::MIN <= v <= i32::MAX
}

/// Integer division by 2 rounding toward zero, as `i32` division does.
pub open spec fn half_toward_zero(v: int) -> int {
    if v >= 0 {
        v / 2
    } else {
        -((-v) / 2)
    }
}

fn wrap_to_i32(v: u32) -> (r: i32)
    ensures
        r == as_i32(v),
{
    let r = v as i32;
    assert(v <= 0x7fff_ffff ==> r == v) by (bit_vector)
        requires
            r == v as i32,
    ;
    assert(v > 0x7fff_ffff ==> r == v - 0x1_0000_0000) by (bit_vector)
        requires
            r == v as i32,
    ;
    r
}

fn size_or_fallback(window: Option<Size>) -> (r: Size)
    ensures
        r == match window {
            Some(s) => s,
            None => fallback_window_size(),
        },
{
    match window {
        Some(s) => s,
        None => Size { width: 380, height: 560 },
    }
}

/// The bottom-right placement: 12 pixels from the right edge and 48 from the bottom.
pub open spec fn bottom_right(m: MonitorArea, w: Size) -> (int, int) {
    (
        m.position.x + as_i32(m.size.width) - as_i32(w.width) - 12,
        m.position.y + as_i32(m.size.height) - as_i32(w.height) - 48,
    )
}

/// Each step of computing the bottom-right placement stays within `i32`
/// (a step that leaves it would overflow and panic).
pub open spec fn bottom_right_fits(m: MonitorArea, w: Size) -> bool {
    &&& fits_i32(m.position.x + as_i32(m.size.width))
    &&& fits_i32(m.position.x + as_i32(m.size.width) - as_i32(w.width))
    &&& fits_i32(m.position.x + as_i32(m.size.width) - as_i32(w.width) - 12)
    &&& fits_i32(m.position.y + as_i32(m.size.height))
    &&& fits_i32(m.position.y + as_i32(m.size.height) - as_i32(w.height))
    &&& fits_i32(m.position.y + as_i32(m.size.height) - as_i32(w.height) - 48)
}

fn fits_i32_exec(v: i64) -> (r: bool)
    ensures
        r == fits_i32(v as int),
{
    -2147483648 <= v && v <= 2147483647
}

/// Whether placing the window in the bottom-right corner of `m` computes
/// without leaving `i32`.
pub fn bottom_right_fits_check(m: MonitorArea, window: Option<Size>) -> (r: bool)
    ensures
        r == bottom_right_fits(
            m,
            match window {
                Some(s) => s,
                None => fallback_window_size(),
            },
        ),
{
    let w = size_or_fallback(window);
    let mx = m.position.x as i64 + wrap_to_i32(m.size.width) as i64;
    let my = m.position.y as i64 + wrap_to_i32(m.size.height) as i64;
    let x1 = mx - wrap_to_i32(w.width) as i64;
    let y1 = my - wrap_to_i32(w.height) as i64;
    fits_i32_exec(mx) && fits_i32_exec(x1) && fits_i32_exec(x1 - 12) && fits_i32_exec(my)
        && fits_i32_exec(y1) && fits_i32_exec(y1 - 48)
}

/// Where the window goes in the bottom-right corner of the monitor it is on;
/// `None` (the window is not moved) when that monitor is unknown.
pub fn position_window_bottom_right(monitor: Option<MonitorArea>, window: Option<Size>) -> (r:
    Option<Position>)
    requires
        monitor matches Some(m) ==> bottom_right_fits(
            m,
            match window {
                Some(s) => s,
                None => fallback_window_size(),
            },
        ),
    ensures
        match monitor {
            None => r is None,
            Some(m) => {
                let p = bottom_right(
                    m,
                    match window {
                        Some(s) => s,
                        None => fallback_window_size(),
                    },
                );
                r matches Some(q) && q.x == p.0 && q.y == p.1
            },
        },
{
    match monitor {
        None => None,
        Some(m) => {
            let w = size_or_fallback(window);
            let x = m.position.x + wrap_to_i32(m.size.width) - wrap_to_i32(w.width) - 12;
            let y = m.position.y + wrap_to_i32(m.size.height) - wrap_to_i32(w.height) - 48;
            Some(Position { x, y })
        },
    }
}

/// The placement near the cursor: centred horizontally on it and 20 pixels
/// above it, then pushed back inside the monitor (right, then left edge;
/// bottom, then top edge).
pub open spec fn near_cursor(c: Position, w: Size, m: MonitorArea) -> (int, int) {
    let ww = as_i32(w.width);
    let wh = as_i32(w.height);
    let right = m.position.x + as_i32(m.size.width);
    let bottom = m.position.y + as_i32(m.size.height);
    let x0 = c.x - half_toward_zero(ww);
    let x1 = if x0 + ww > right {
        right - ww
    } else {
        x0
    };
    let x2 = if x1 < m.position.x {
        m.position.x as int
    } else {
        x1
    };
    let y0 = c.y - 20;
    let y1 = if y0 + wh > bottom {
        bottom - wh
    } else {
        y0
    };
    let y2 = if y1 < m.position.y {
        m.position.y as int
    } else {
        y1
    };
    (x2, y2)
}

/// Each step of computing the placement near the cursor stays within `i32`.
pub open spec fn near_cursor_fits(c: Position, w: Size, m: MonitorArea) -> bool {
    let ww = as_i32(w.width);
    let wh = as_i32(w.height);
    let right = m.position.x + as_i32(m.size.width);
    let bottom = m.position.y + as_i32(m.size.height);
    let x0 = c.x - half_toward_zero(ww);
    let x1 = if x0 + ww > right {
        right - ww
    } else {
        x0
    };
    let y0 = c.y - 20;
    let y1 = if y0 + wh > bottom {
        bottom - wh
    } else {
        y0
    };
    &&& fits_i32(x0)
    &&& fits_i32(y0)
    &&& fits_i32(right)
    &&& fits_i32(bottom)
    &&& fits_i32(x0 + ww)
    &&& fits_i32(x1 + 0)
    &&& fits_i32(y0 + wh)
    &&& fits_i32(y1 + 0)
}

/// Whether placing the window near the cursor on `m` computes without
/// leaving `i32`.
pub fn near_cursor_fits_check(c: Position, window: Option<Size>, m: MonitorArea) -> (r: bool)
    ensures
        r == near_cursor_fits(
            c,
            match window {
                Some(s) => s,
                None => fallback_window_size(),
            },
            m,
        ),
{
    let w = size_or_fallback(window);
    let ww = wrap_to_i32(w.width) as i64;
    let wh = wrap_to_i32(w.height) as i64;
    let half = (wrap_to_i32(w.width) / 2) as i64;
    let right = m.position.x as i64 + wrap_to_i32(m.size.width) as i64;
    let bottom = m.position.y as i64 + wrap_to_i32(m.size.height) as i64;
    let x0 = c.x as i64 - half;
    let x1 = if x0 + ww > right {
        right - ww
    } else {
        x0
    };
    let y0 = c.y as i64 - 20;
    let y1 = if y0 + wh > bottom {
        bottom - wh
    } else {
        y0
    };
    fits_i32_exec(x0) && fits_i32_exec(y0) && fits_i32_exec(right) && fits_i32_exec(bottom)
        && fits_i32_exec(x0 + ww) && fits_i32_exec(x1) && fits_i32_exec(y0 + wh) && fits_i32_exec(
        y1,
    )
}

/// Where the window goes when it is shown: near the cursor and inside its
/// monitor; at the cursor itself when the monitor is unknown; in the
/// bottom-right corner when the cursor is unknown.
pub fn position_window_at_cursor(
    cursor: Option<Position>,
    window: Option<Size>,
    monitor: Option<MonitorArea>,
) -> (r: Option<Position>)
    requires
        ({
            let w = match window {
                Some(s) => s,
                None => fallback_window_size(),
            };
            match cursor {
                None => monitor matches Some(m) ==> bottom_right_fits(m, w),
                Some(c) => monitor matches Some(m) ==> near_cursor_fits(c, w, m),
            }
        }),
    ensures
        ({
            let w = match window {
                Some(s) => s,
                None => fallback_window_size(),
            };
            match cursor {
                None => match monitor {
                    None => r is None,
                    Some(m) => r matches Some(q) && q.x == bottom_right(m, w).0 && q.y
                        == bottom_right(m, w).1,
                },
                Some(c) => match monitor {
                    None => r == Some(c),
                    Some(m) => r matches Some(q) && q.x == near_cursor(c, w, m).0 && q.y
                        == near_cursor(c, w, m).1,
                },
            }
        }),
{
    match cursor {
        None => position_window_bottom_right(monitor, window),
        Some(c) => {
            let w = size_or_fallback(window);
            match monitor {
                None => Some(c),
                Some(m) => {
                    let ww = wrap_to_i32(w.width);
                    let wh = wrap_to_i32(w.height);
                    let mut x = c.x - ww / 2;
                    let mut y = c.y - 20;
                    let right = m.position.x + wrap_to_i32(m.size.width);
                    let bottom = m.position.y + wrap_to_i32(m.size.height);
                    if x + ww > right {
                        x = right - ww;
                    }
                    if x < m.position.x {
                        x = m.position.x;
                    }
                    if y + wh > bottom {
                        y = bottom - wh;
                    }
                    if y < m.position.y {
                        y = m.position.y;
                    }
                    Some(Position { x, y })
                },
            }
        },
    }
}

} // verus!
