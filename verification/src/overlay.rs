//! Placement of the overlay next to the cursor, kept inside the monitor
//! that holds the cursor.

use vstd::prelude::*;

verus! {

/// A monitor's bounds in logical pixels.
#[derive(Clone, Copy, Debug, PartialEq, Eq, Structural)]
pub struct LogicalRect {
    pub x: i32,
    pub y: i32,
    pub width: i32,
    pub height: i32,
}

/// Width of the overlay, in logical pixels.
pub const OVERLAY_W: i32 = 440;

/// Height reserved for the fully expanded overlay when placing it.
pub const OVERLAY_H: i32 = 400;

/// Gap kept from the screen edge.
pub const MARGIN: i32 = 8;

/// The monitor holds the point.
pub open spec fn rect_contains(m: LogicalRect, x: int, y: int) -> bool {
    m.x <= x < m.x + m.width && m.y <= y < m.y + m.height
}

/// The first monitor, from position `i` on, that holds the point.
pub open spec fn first_containing(monitors: Seq<LogicalRect>, x: int, y: int, i: int) -> Option<
    LogicalRect,
>
    decreases monitors.len() - i,
{
    if i < 0 || i >= monitors.len() {
        None
    } else if rect_contains(monitors[i], x, y) {
        Some(monitors[i])
    } else {
        first_containing(monitors, x, y, i + 1)
    }
}

/// The monitor the overlay is placed on: the first that holds the cursor,
/// else the first monitor.
pub open spec fn chosen_monitor(monitors: Seq<LogicalRect>, x: int, y: int) -> Option<LogicalRect> {
    match first_containing(monitors, x, y, 0) {
        Some(m) => Some(m),
        None => if monitors.len() > 0 {
            Some(monitors[0])
        } else {
            None
        },
    }
}

pub open spec fn max_int(a: int, b: int) -> int {
    if a >= b {
        a
    } else {
        b
    }
}

/// `v` clamped to `[lo, hi]` (with `lo <= hi`), as `Ord::clamp` gives.
pub open spec fn clamp_int(v: int, lo: int, hi: int) -> int {
    if v < lo {
        lo
    } else if v > hi {
        hi
    } else {
        v
    }
}

/// The overlay's top-left corner: 20 px right of and 40 px above the
/// cursor, then pulled inside the chosen monitor with a margin, as far as
/// the monitor is large enough.
pub open spec fn overlay_position_of(x: int, y: int, monitors: Seq<LogicalRect>) -> (int, int) {
    let px = x + 20;
    let py = y - 40;
    match chosen_monitor(monitors, x, y) {
        Some(m) => {
            let min_x = m.x + 8;
            let min_y = m.y + 8;
            let max_x = max_int(m.x + m.width - 440 - 8, min_x);
            let max_y = max_int(m.y + m.height - 400 - 8, min_y);
            (clamp_int(px, min_x, max_x), clamp_int(py, min_y, max_y))
        },
        None => (px, py),
    }
}

pub open spec fn fits_i32(v: int) -> bool {
    i32::MIN <= v <= i32::MAX
}

/// The sums computed from a monitor's bounds stay within `i32`.
pub open spec fn rect_in_range(m: LogicalRect) -> bool {
    &&& fits_i32(m.x + m.width)
    &&& fits_i32(m.y + m.height)
    &&& fits_i32(m.x + 8)
    &&& fits_i32(m.y + 8)
    &&& fits_i32(m.x + m.width - 448)
    &&& fits_i32(m.y + m.height - 408)
}

fn clamp_i32(v: i32, lo: i32, hi: i32) -> (r: i32)
    requires
        lo <= hi,
    ensures
        r == clamp_int(v as int, lo as int, hi as int),
{
    if v < lo {
        lo
    } else if v > hi {
        hi
    } else {
        v
    }
}

/// Where the overlay goes for a cursor at (`x`, `y`), given the monitors'
/// logical bounds.
pub fn overlay_position(x: i32, y: i32, monitors: &Vec<LogicalRect>) -> (p: (i32, i32))
    requires
        fits_i32(x + 20),
        fits_i32(y - 40),
        forall|i: int| 0 <= i < monitors@.len() ==> rect_in_range(#[trigger] monitors@[i]),
    ensures
        (p.0 as int, p.1 as int) == overlay_position_of(x as int, y as int, monitors@),
{
    let pos_x = x + 20;
    let pos_y = y - 40;
    let mut found: Option<LogicalRect> = None;
    let mut i: usize = 0;
    while i < monitors.len()
        invariant_except_break
            found is None,
            first_containing(monitors@, x as int, y as int, 0) == first_containing(
                monitors@,
                x as int,
                y as int,
                i as int,
            ),
        invariant
            i <= monitors@.len(),
            forall|k: int| 0 <= k < monitors@.len() ==> rect_in_range(#[trigger] monitors@[k]),
        ensures
            found is None ==> first_containing(monitors@, x as int, y as int, 0) is None,
            found matches Some(m) ==> first_containing(monitors@, x as int, y as int, 0) == Some(m)
                && rect_in_range(m),
        decreases monitors@.len() - i,
    {
        let m = monitors[i];
        if x >= m.x && x < m.x + m.width && y >= m.y && y < m.y + m.height {
            found = Some(m);
            break;
        }
        i += 1;
    }
    let chosen = match found {
        Some(m) => Some(m),
        None => if monitors.len() > 0 {
            Some(monitors[0])
        } else {
            None
        },
    };
    match chosen {
        Some(m) => {
            let min_x = m.x + MARGIN;
            let min_y = m.y + MARGIN;
            let ex = m.x + m.width - OVERLAY_W - MARGIN;
            let ey = m.y + m.height - OVERLAY_H - MARGIN;
            let max_x = if ex >= min_x {
                ex
            } else {
                min_x
            };
            let max_y = if ey >= min_y {
                ey
            } else {
                min_y
            };
            (clamp_i32(pos_x, min_x, max_x), clamp_i32(pos_y, min_y, max_y))
        },
        None => (pos_x, pos_y),
    }
}

/// Whether `i32` arithmetic on `v` stays in range.
fn fits(v: i64) -> (b: bool)
    ensures
        b == fits_i32(v as int),
{
    v >= -2147483648i64 && v <= 2147483647i64
}

/// Where the overlay goes, when every sum computed for the placement stays
/// within `i32`; `None` when one would overflow.
pub fn checked_overlay_position(x: i32, y: i32, monitors: &Vec<LogicalRect>) -> (p: Option<(i32, i32)>)
    ensures
        match p {
            Some(q) => (q.0 as int, q.1 as int) == overlay_position_of(x as int, y as int, monitors@),
            None => !(fits_i32(x + 20) && fits_i32(y - 40) && forall|i: int|
                0 <= i < monitors@.len() ==> rect_in_range(#[trigger] monitors@[i])),
        },
{
    if !fits(x as i64 + 20) || !fits(y as i64 - 40) {
        return None;
    }
    let mut i: usize = 0;
    while i < monitors.len()
        invariant
            i <= monitors@.len(),
            forall|k: int| 0 <= k < i ==> rect_in_range(#[trigger] monitors@[k]),
        decreases monitors@.len() - i,
    {
        let m = monitors[i];
        let (rx, ry, rw, rh) = (m.x as i64, m.y as i64, m.width as i64, m.height as i64);
        if !(fits(rx + rw) && fits(ry + rh) && fits(rx + 8) && fits(ry + 8) && fits(rx + rw - 448)
            && fits(ry + rh - 408)) {
            return None;
        }
        i += 1;
    }
    Some(overlay_position(x, y, monitors))
}

/// The overlay always ends up inside the chosen monitor's margins whenever
/// that monitor is large enough to hold it.
pub proof fn lemma_overlay_inside_monitor(x: int, y: int, monitors: Seq<LogicalRect>)
    ensures
        chosen_monitor(monitors, x, y) matches Some(m) ==> {
            let p = overlay_position_of(x, y, monitors);
            &&& m.width >= 440 + 16 ==> m.x + 8 <= p.0 && p.0 + 440 + 8 <= m.x + m.width
            &&& m.height >= 400 + 16 ==> m.y + 8 <= p.1 && p.1 + 400 + 8 <= m.y + m.height
        },
{
}

/// Away from the edges the overlay sits 20 px right of and 40 px above the
/// cursor: when that spot keeps the 8 px margin and the whole 440 x 400 px
/// overlay inside the monitor holding the cursor, nothing is moved.
pub proof fn lemma_overlay_next_to_cursor(x: int, y: int, monitors: Seq<LogicalRect>)
    ensures
        chosen_monitor(monitors, x, y) matches Some(m) ==> (m.x + 8 <= x + 20 && x + 20 + 440 + 8
            <= m.x + m.width && m.y + 8 <= y - 40 && y - 40 + 400 + 8 <= m.y + m.height
            ==> overlay_position_of(x, y, monitors) == (x + 20, y - 40)),
        chosen_monitor(monitors, x, y) is None ==> overlay_position_of(x, y, monitors) == (
            x + 20,
            y - 40,
        ),
{
}

} // verus!
