//! Comparing scores. A missing score is worse than any score, and says nothing
//! against another missing one.

use vstd::prelude::*;

verus! {

/// The gap between two scores that a word of `len` keys calls for, in nano-nats.
pub open spec fn threshold_for(len: int) -> i64 {
    if len <= 4 {
        1_500_000_000
    } else if len == 5 {
        1_200_000_000
    } else if len == 6 {
        1_000_000_000
    } else if len == 7 {
        900_000_000
    } else {
        800_000_000
    }
}

/// The gap between two scores that a word of `len` keys calls for, in
/// nano-nats: the longer the word, the smaller.
pub fn switching_threshold(len: usize) -> (r: i64)
    ensures
        r == threshold_for(len as int),
{
    if len <= 4 {
        1_500_000_000
    } else if len == 5 {
        1_200_000_000
    } else if len == 6 {
        1_000_000_000
    } else if len == 7 {
        900_000_000
    } else {
        800_000_000
    }
}

/// What a switch has to overcome: the threshold for the length of the word,
/// divided by the sensitivity (in millionths, so 1_000_000 stands for one) and
/// raised by three tenths where the recent words speak for the active layout.
#[derive(Debug, Clone, Copy, PartialEq, Eq, Structural)]
pub struct Bar {
    pub len: usize,
    pub sensitivity: i32,
    pub in_context: bool,
}

/// Score `a` is better than score `b` by more than `tenths` tenths of the bar.
/// With a sensitivity of zero no bar can be overcome.
pub open spec fn clears(a: Option<i64>, b: Option<i64>, bar: Bar, tenths: int) -> bool {
    &&& a is Some
    &&& bar.sensitivity != 0
    &&& b matches Some(worse) ==> {
        let gap = (a->0 - worse) * bar.sensitivity * 100;
        let needed = threshold_for(bar.len as int) * 1_000_000 * (if bar.in_context {
            13int
        } else {
            10int
        }) * tenths;
        if bar.sensitivity > 0 {
            gap > needed
        } else {
            gap < needed
        }
    }
}

/// Whether one score is better than another by more than a part of the bar.
pub fn gap_clears(a: Option<i64>, b: Option<i64>, bar: Bar, tenths: u8) -> (r: bool)
    ensures
        r == clears(a, b, bar, tenths as int),
{
    let better: i64 = match a {
        Some(x) => x,
        None => {
            return false;
        },
    };
    if bar.sensitivity == 0 {
        return false;
    }
    let worse: i64 = match b {
        Some(y) => y,
        None => {
            return true;
        },
    };
    let diff: i128 = better as i128 - worse as i128;
    assert(-0x1_0000_0000_0000_0000 <= diff <= 0x1_0000_0000_0000_0000);
    let sensitivity: i128 = bar.sensitivity as i128;
    assert(-0x8000_0000_0000_0000_0000_0000 <= diff * sensitivity
        <= 0x8000_0000_0000_0000_0000_0000) by (nonlinear_arith)
        requires
            -0x1_0000_0000_0000_0000 <= diff <= 0x1_0000_0000_0000_0000,
            -0x8000_0000 <= sensitivity <= 0x8000_0000,
    ;
    let gap: i128 = diff * sensitivity * 100;
    let context: i128 = if bar.in_context {
        13
    } else {
        10
    };
    let threshold: i128 = switching_threshold(bar.len) as i128;
    let base: i128 = threshold * 1_000_000 * context;
    assert(0 <= base * tenths <= base * 255) by (nonlinear_arith)
        requires
            0 <= base,
            0 <= tenths <= 255,
    ;
    let needed: i128 = base * (tenths as i128);
    if bar.sensitivity > 0 {
        gap > needed
    } else {
        gap < needed
    }
}

/// Score `a` is better than score `b` by less than `delta`, or worse.
pub open spec fn within(a: Option<i64>, b: Option<i64>, delta: i64) -> bool {
    match (a, b) {
        (Some(x), Some(y)) => x - y < delta,
        (None, Some(_)) => true,
        _ => false,
    }
}

/// Whether one score is better than another by less than `delta`, or worse.
pub fn gap_within(a: Option<i64>, b: Option<i64>, delta: i64) -> (r: bool)
    ensures
        r == within(a, b, delta),
{
    match (a, b) {
        (Some(x), Some(y)) => (x as i128) - (y as i128) < delta as i128,
        (None, Some(_)) => true,
        _ => false,
    }
}

/// Score `a` is better than score `b`.
pub open spec fn better(a: Option<i64>, b: Option<i64>) -> bool {
    match (a, b) {
        (Some(x), Some(y)) => x > y,
        (Some(_), None) => true,
        _ => false,
    }
}

/// Whether one score is better than another.
pub fn is_better(a: Option<i64>, b: Option<i64>) -> (r: bool)
    ensures
        r == better(a, b),
{
    match (a, b) {
        (Some(x), Some(y)) => x > y,
        (Some(_), None) => true,
        _ => false,
    }
}

/// The longer the word, the lower the threshold, and it never vanishes.
pub proof fn law_threshold_falls_with_length(short: int, long: int)
    requires
        short <= long,
    ensures
        0 < threshold_for(long) <= threshold_for(short),
{
}

/// What clears a bar clears it at every higher positive sensitivity, as long
/// as the better score really is the better one.
pub proof fn law_sensitivity_is_monotone(
    a: Option<i64>,
    b: Option<i64>,
    bar: Bar,
    higher: i32,
    tenths: int,
)
    requires
        0 < bar.sensitivity <= higher,
        0 <= tenths,
        clears(a, b, bar, tenths),
    ensures
        clears(a, b, Bar { sensitivity: higher, ..bar }, tenths),
{
    if b is Some {
        let diff = a->0 - b->0;
        let s = bar.sensitivity as int;
        let h = higher as int;
        let t = threshold_for(bar.len as int) as int;
        let c = if bar.in_context {
            13int
        } else {
            10int
        };
        assert(0 <= t * 1_000_000 * c * tenths) by (nonlinear_arith)
            requires
                0 <= t,
                0 <= c,
                0 <= tenths,
        ;
        assert(diff * s > 0);
        assert(diff * s * 100 <= diff * h * 100) by (nonlinear_arith)
            requires
                diff * s > 0,
                0 < s <= h,
        ;
    }
}

/// What clears a bar in the context of the active layout clears it out of
/// context too.
pub proof fn law_context_raises_the_bar(
    a: Option<i64>,
    b: Option<i64>,
    bar: Bar,
    tenths: int,
)
    requires
        0 < bar.sensitivity,
        0 <= tenths,
        clears(a, b, Bar { in_context: true, ..bar }, tenths),
    ensures
        clears(a, b, Bar { in_context: false, ..bar }, tenths),
{
    let t = threshold_for(bar.len as int) as int;
    assert(t * 1_000_000 * 10 * tenths <= t * 1_000_000 * 13 * tenths) by (nonlinear_arith)
        requires
            0 <= t,
            0 <= tenths,
    ;
}

} // verus!
