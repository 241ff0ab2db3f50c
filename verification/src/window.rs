//! Where the settings window may stand.

use vstd::prelude::*;

verus! {

/// The place and the size of a monitor, in pixels.
#[derive(Debug, Clone, Copy, PartialEq, Eq, Structural)]
pub struct Monitor {
    pub x: i32,
    pub y: i32,
    pub width: u32,
    pub height: u32,
}

/// A point lies on a monitor.
pub open spec fn on_monitor(x: i32, y: i32, m: Monitor) -> bool {
    m.x <= x < m.x + m.width && m.y <= y < m.y + m.height
}

/// Whether a point lies on some monitor.
pub fn is_position_visible(x: i32, y: i32, monitors: &Vec<Monitor>) -> (r: bool)
    ensures
        r == exists|i: int| 0 <= i < monitors@.len() && on_monitor(x, y, #[trigger] monitors@[i]),
{
    let mut i: usize = 0;
    while i < monitors.len()
        invariant
            i <= monitors@.len(),
            forall|j: int| 0 <= j < i ==> !on_monitor(x, y, #[trigger] monitors@[j]),
        decreases monitors.len() - i,
    {
        let m: Monitor = monitors[i];
        let right: i64 = m.x as i64 + m.width as i64;
        let bottom: i64 = m.y as i64 + m.height as i64;
        if x >= m.x && (x as i64) < right && y >= m.y && (y as i64) < bottom {
            assert(on_monitor(x, y, monitors@[i as int]));
            return true;
        }
        i += 1;
    }
    false
}

/// What to do with the window when it is opened.
#[derive(Debug, Clone, Copy, PartialEq, Eq, Structural)]
pub enum Placing {
    /// Leave it where it is.
    Keep,
    /// Put it where it was.
    At { x: i32, y: i32 },
    /// Centre it: where it was, nobody would see it.
    Centre,
}

/// Decides where the window goes, given where it was.
pub fn place_window(x: Option<i32>, y: Option<i32>, monitors: &Vec<Monitor>) -> (r: Placing)
    ensures
        (x is None || y is None) ==> r == Placing::Keep,
        x is Some && y is Some ==> r == (if exists|i: int|
            0 <= i < monitors@.len() && on_monitor(x->0, y->0, #[trigger] monitors@[i]) {
            Placing::At { x: x->0, y: y->0 }
        } else {
            Placing::Centre
        }),
{
    match (x, y) {
        (Some(x), Some(y)) => if is_position_visible(x, y, monitors) {
            Placing::At { x, y }
        } else {
            Placing::Centre
        },
        _ => Placing::Keep,
    }
}

} // verus!
