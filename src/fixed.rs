use vstd::prelude::*;

verus! {

/// Number of fixed-point steps in one unit. Every length, zoom factor, colour
/// channel and pixel count of the library is an `i64` counted in millionths,
/// so that `1.0` is written `UNIT` and `0.5` is written `UNIT / 2`.
pub const UNIT: i64 = 1_000_000;

/// Tolerance below which two zoom levels count as equal (0.001).
pub const ZOOM_EPSILON: i64 = 1_000;

/// Tolerance used to recognise the origin and grid coincidences (0.01).
pub const TICK_EPSILON: i64 = 10_000;

/// Largest magnitude of a world coordinate that the projection accepts, so
/// that a coordinate times the screen scale still fits in an `i64`.
pub const MAX_WORLD: i64 = 10_000_000_000_000_000;

/// Largest reference extent of an axes or grid (ten thousand units): at any
/// zoom of at least one millionth, half of it stays within `MAX_WORLD`.
pub const MAX_SPAN: i64 = 10_000_000_000;

/// Largest window extent, in millionths of a pixel, that the projection accepts.
pub const MAX_SCREEN: i64 = 1_000_000_000_000_000;

/// Absolute value of a mathematical integer.
pub open spec fn abs(x: int) -> int {
    if x < 0 {
        -x
    } else {
        x
    }
}

/// `v` lies between `a` and `b`, in whichever order they come.
pub open spec fn between(v: int, a: int, b: int) -> bool {
    (a <= v <= b) || (b <= v <= a)
}

/// `x` clamped into `[lo, hi]`.
pub open spec fn clamp(x: int, lo: int, hi: int) -> int {
    if x < lo {
        lo
    } else if x > hi {
        hi
    } else {
        x
    }
}

/// `a * b` for two fixed-point numbers, the exact product truncated toward zero.
pub open spec fn fixed_mul(a: int, b: int) -> int {
    let p = abs(a * b) / (UNIT as int);
    if a * b < 0 {
        -p
    } else {
        p
    }
}

/// Product of two fixed-point numbers, truncated toward zero.
pub fn mul_fixed(a: i64, b: i64) -> (r: i128)
    ensures
        r == fixed_mul(a as int, b as int),
        abs(r as int) <= 0x4000_0000_0000_0000_0000_0000_0000_0000,
{
    let wa = a as i128;
    let wb = b as i128;
    assert(-0x4000_0000_0000_0000_0000_0000_0000_0000 <= wa * wb <= 0x4000_0000_0000_0000_0000_0000_0000_0000)
        by (nonlinear_arith)
        requires
            -0x8000_0000_0000_0000 <= wa <= 0x7fff_ffff_ffff_ffff,
            -0x8000_0000_0000_0000 <= wb <= 0x7fff_ffff_ffff_ffff,
    ;
    let p: i128 = wa * wb;
    let neg = p < 0;
    let mag: u128 = if neg {
        (-p) as u128
    } else {
        p as u128
    };
    let q: u128 = mag / (UNIT as u128);
    assert(q <= mag);
    if neg {
        -(q as i128)
    } else {
        q as i128
    }
}

} // verus!
