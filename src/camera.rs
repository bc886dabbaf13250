use vstd::prelude::*;

use crate::fixed::{abs, between, clamp, fixed_mul, mul_fixed, UNIT, ZOOM_EPSILON};
use crate::objects::Position2D;

verus! {

/// How fast the zoom closes the gap to its target, per second.
pub const LERP_SPEED: u64 = 8;

/// Share of the gap, in millionths, that one frame of `dt` microseconds
/// closes; a frame long enough to close all of it closes exactly all of it.
pub open spec fn lerp_fraction(dt: nat) -> int {
    if LERP_SPEED * dt >= UNIT {
        UNIT as int
    } else {
        LERP_SPEED * dt
    }
}

/// The zoom after one smoothing frame: it moves toward the target by
/// `lerp_fraction` of the gap (rounded toward the start), and lands on the
/// target when it comes within `ZOOM_EPSILON` of it.
pub open spec fn smoothed(zoom: int, target: int, dt: nat) -> int {
    let f = lerp_fraction(dt);
    let moved = if target >= zoom {
        zoom + (target - zoom) * f / (UNIT as int)
    } else {
        zoom - (zoom - target) * f / (UNIT as int)
    };
    if abs(target - moved) < ZOOM_EPSILON {
        target
    } else {
        moved
    }
}

/// The zoom after `n` smoothing frames of `dt` microseconds each.
pub open spec fn smoothed_n(zoom: int, target: int, dt: nat, n: nat) -> int
    decreases n,
{
    if n == 0 {
        zoom
    } else {
        smoothed_n(smoothed(zoom, target, dt), target, dt, (n - 1) as nat)
    }
}

/// The target zoom after one scroll of `delta` (in millionths of a notch).
pub open spec fn scrolled(target: int, delta: int, speed: int, lo: int, hi: int) -> int {
    clamp(target + fixed_mul(delta, speed), lo, hi)
}

/// The target zoom after a sequence of scrolls, applied in order.
pub open spec fn scrolled_all(target: int, deltas: Seq<i64>, speed: int, lo: int, hi: int) -> int
    decreases deltas.len(),
{
    if deltas.len() == 0 {
        target
    } else {
        scrolled(
            scrolled_all(target, deltas.drop_last(), speed, lo, hi),
            deltas.last() as int,
            speed,
            lo,
            hi,
        )
    }
}

/// Zoom and pan state of the view.
#[derive(Clone, Copy, Debug, PartialEq, Eq, Structural)]
pub struct CameraState {
    /// Current, smoothed zoom.
    pub zoom: i64,
    /// Zoom that the smoothing moves toward.
    pub target_zoom: i64,
    /// Change of the target per notch of scroll.
    pub zoom_speed: i64,
    pub min_zoom: i64,
    pub max_zoom: i64,
    pub translation: Position2D,
    pub target_translation: Position2D,
    /// Zoom at which the coordinate system was last recomputed.
    pub previous_zoom: i64,
}

impl CameraState {
    /// The bounds are positive and ordered, and every zoom level lies within them.
    pub open spec fn wf(&self) -> bool {
        &&& 0 < self.min_zoom <= self.max_zoom
        &&& self.min_zoom <= self.zoom <= self.max_zoom
        &&& self.min_zoom <= self.target_zoom <= self.max_zoom
        &&& self.min_zoom <= self.previous_zoom <= self.max_zoom
    }

    /// The zoom has moved far enough from the last recomputed one.
    pub open spec fn spec_zoom_changed(&self) -> bool {
        abs(self.zoom - self.previous_zoom) > ZOOM_EPSILON
    }

    /// A camera with the given bounds and scroll speed, at zoom 1 and unpanned.
    pub fn new(zoom_speed: i64, min_zoom: i64, max_zoom: i64) -> (r: CameraState)
        requires
            0 < min_zoom <= UNIT <= max_zoom,
        ensures
            r.wf(),
            r.zoom == UNIT && r.target_zoom == UNIT && r.previous_zoom == UNIT,
            r.zoom_speed == zoom_speed && r.min_zoom == min_zoom && r.max_zoom == max_zoom,
            r.translation == (Position2D { x: 0, y: 0 }),
            r.target_translation == (Position2D { x: 0, y: 0 }),
    {
        CameraState {
            zoom: UNIT,
            target_zoom: UNIT,
            zoom_speed,
            min_zoom,
            max_zoom,
            translation: Position2D { x: 0, y: 0 },
            target_translation: Position2D { x: 0, y: 0 },
            previous_zoom: UNIT,
        }
    }

    /// Moves the target zoom by `delta` notches of scroll times `zoom_speed`,
    /// clamped into the zoom bounds.
    pub fn apply_scroll(&mut self, delta: i64)
        requires
            old(self).wf(),
        ensures
            final(self).wf(),
            final(self).target_zoom == scrolled(
                old(self).target_zoom as int,
                delta as int,
                old(self).zoom_speed as int,
                old(self).min_zoom as int,
                old(self).max_zoom as int,
            ),
            *final(self) == (CameraState { target_zoom: final(self).target_zoom, ..*old(self) }),
    {
        let step = mul_fixed(delta, self.zoom_speed);
        let moved: i128 = self.target_zoom as i128 + step;
        let t: i64 = if moved < self.min_zoom as i128 {
            self.min_zoom
        } else if moved > self.max_zoom as i128 {
            self.max_zoom
        } else {
            moved as i64
        };
        self.target_zoom = t;
    }

    /// Applies scroll events in the order they came, each clamped on its own.
    pub fn apply_scroll_events(&mut self, deltas: &Vec<i64>)
        requires
            old(self).wf(),
        ensures
            final(self).wf(),
            final(self).target_zoom == scrolled_all(
                old(self).target_zoom as int,
                deltas@,
                old(self).zoom_speed as int,
                old(self).min_zoom as int,
                old(self).max_zoom as int,
            ),
            *final(self) == (CameraState { target_zoom: final(self).target_zoom, ..*old(self) }),
    {
        let mut i: usize = 0;
        while i < deltas.len()
            invariant
                i <= deltas.len(),
                self.wf(),
                self.target_zoom == scrolled_all(
                    old(self).target_zoom as int,
                    deltas@.take(i as int),
                    old(self).zoom_speed as int,
                    old(self).min_zoom as int,
                    old(self).max_zoom as int,
                ),
                *self == (CameraState { target_zoom: self.target_zoom, ..*old(self) }),
            decreases deltas.len() - i,
        {
            assert(deltas@.take(i as int + 1).drop_last() == deltas@.take(i as int));
            self.apply_scroll(deltas[i]);
            i = i + 1;
        }
        assert(deltas@.take(deltas@.len() as int) == deltas@);
    }

    /// Advances the zoom one frame of `dt` microseconds toward the target.
    pub fn smooth(&mut self, dt: u64)
        requires
            old(self).wf(),
        ensures
            final(self).wf(),
            final(self).zoom == smoothed(old(self).zoom as int, old(self).target_zoom as int, dt as nat),
            between(final(self).zoom as int, old(self).zoom as int, old(self).target_zoom as int),
            *final(self) == (CameraState { zoom: final(self).zoom, ..*old(self) }),
    {
        let f: u64 = if dt >= (UNIT as u64) / LERP_SPEED {
            UNIT as u64
        } else {
            LERP_SPEED * dt
        };
        assert(f as int == lerp_fraction(dt as nat));
        let z = self.zoom;
        let t = self.target_zoom;
        let moved: i64 = if t >= z {
            let gap: u64 = (t - z) as u64;
            proof { lemma_step_within(gap as int, f as int); }
            let step: u64 = ((gap as u128) * (f as u128) / (UNIT as u128)) as u64;
            z + step as i64
        } else {
            let gap: u64 = (z - t) as u64;
            proof { lemma_step_within(gap as int, f as int); }
            let step: u64 = ((gap as u128) * (f as u128) / (UNIT as u128)) as u64;
            z - step as i64
        };
        let d: i64 = t - moved;
        if (d < 0 && -d < ZOOM_EPSILON) || (d >= 0 && d < ZOOM_EPSILON) {
            self.zoom = t;
        } else {
            self.zoom = moved;
        }
    }

    /// Whether the camera is well formed.
    pub fn is_valid(&self) -> (r: bool)
        ensures
            r == self.wf(),
    {
        0 < self.min_zoom && self.min_zoom <= self.max_zoom && self.min_zoom <= self.zoom
            && self.zoom <= self.max_zoom && self.min_zoom <= self.target_zoom && self.target_zoom
            <= self.max_zoom && self.min_zoom <= self.previous_zoom && self.previous_zoom
            <= self.max_zoom
    }

    /// Whether the zoom has moved more than `ZOOM_EPSILON` since the
    /// coordinate system was last recomputed.
    pub fn zoom_changed(&self) -> (r: bool)
        requires
            self.wf(),
        ensures
            r == self.spec_zoom_changed(),
    {
        let d: i64 = self.zoom - self.previous_zoom;
        d > ZOOM_EPSILON || d < -ZOOM_EPSILON
    }
}

impl Default for CameraState {
    /// Zoom 1 within `[0.1, 10]`, a tenth of a unit per notch of scroll.
    fn default() -> (r: CameraState)
        ensures
            r.wf(),
            r.zoom == UNIT && r.target_zoom == UNIT && r.previous_zoom == UNIT,
            r.zoom_speed == UNIT / 10 && r.min_zoom == UNIT / 10 && r.max_zoom == 10 * UNIT,
    {
        CameraState::new(UNIT / 10, UNIT / 10, 10 * UNIT)
    }
}

/// One smoothing frame lands between the start and the target; when the
/// frame is long enough to move by at least one step at the snapping
/// distance (`dt` of 125 microseconds or more), it also closes the gap by at
/// least one step.
pub proof fn lemma_smooth_step(zoom: int, target: int, dt: nat)
    ensures
        between(smoothed(zoom, target, dt), zoom, target),
        abs(target - smoothed(zoom, target, dt)) <= abs(target - zoom),
        LERP_SPEED * dt * ZOOM_EPSILON >= UNIT ==> smoothed(zoom, target, dt) == target || abs(
            target - smoothed(zoom, target, dt),
        ) < abs(target - zoom),
{
    let f = lerp_fraction(dt);
    let gap = abs(target - zoom);
    lemma_step_within(gap, f);
    if LERP_SPEED * dt * ZOOM_EPSILON >= UNIT && gap >= ZOOM_EPSILON {
        assert(f * ZOOM_EPSILON >= UNIT);
        assert(gap * f >= UNIT) by (nonlinear_arith)
            requires
                f * ZOOM_EPSILON >= UNIT,
                gap >= ZOOM_EPSILON,
                f >= 0,
        ;
        assert(gap * f / (UNIT as int) >= 1) by (nonlinear_arith)
            requires
                gap * f >= UNIT,
        ;
    }
}

/// Once the zoom is within `ZOOM_EPSILON` of its target, one smoothing frame
/// puts it exactly on the target, and further frames leave it there.
pub proof fn lemma_smoothing_snaps(zoom: int, target: int, dt: nat)
    requires
        abs(target - zoom) < ZOOM_EPSILON,
    ensures
        smoothed(zoom, target, dt) == target,
        smoothed(target, target, dt) == target,
{
    lemma_smooth_step(zoom, target, dt);
    lemma_smooth_step(target, target, dt);
}

/// Repeated smoothing never leaves the interval between the start and the
/// target (no overshoot, no undershoot), and with frames of at least 125
/// microseconds it reaches the target exactly after at most as many frames as
/// the initial gap counts millionths.
pub proof fn lemma_smoothing_converges(zoom: int, target: int, dt: nat, n: nat)
    ensures
        between(smoothed_n(zoom, target, dt, n), zoom, target),
        LERP_SPEED * dt * ZOOM_EPSILON >= UNIT && n >= abs(target - zoom) ==> smoothed_n(
            zoom,
            target,
            dt,
            n,
        ) == target,
    decreases n,
{
    if n > 0 {
        let next = smoothed(zoom, target, dt);
        lemma_smooth_step(zoom, target, dt);
        lemma_smoothing_converges(next, target, dt, (n - 1) as nat);
    }
}

/// Each frame moves the zoom on from where the previous frame left it,
/// toward the target and never past it: zooming in, the zoom never decreases
/// and never exceeds the target; zooming out, the reverse.
pub proof fn lemma_smoothing_monotone(zoom: int, target: int, dt: nat, n: nat)
    ensures
        between(smoothed_n(zoom, target, dt, n + 1), smoothed_n(zoom, target, dt, n), target),
        zoom <= target ==> zoom <= smoothed_n(zoom, target, dt, n) <= smoothed_n(
            zoom,
            target,
            dt,
            n + 1,
        ) <= target,
        target <= zoom ==> target <= smoothed_n(zoom, target, dt, n + 1) <= smoothed_n(
            zoom,
            target,
            dt,
            n,
        ) <= zoom,
{
    lemma_smoothed_n_last(zoom, target, dt, n);
    lemma_smooth_step(smoothed_n(zoom, target, dt, n), target, dt);
    lemma_smoothing_converges(zoom, target, dt, n);
}

/// The zoom after `n + 1` frames is one frame on from the zoom after `n`.
proof fn lemma_smoothed_n_last(zoom: int, target: int, dt: nat, n: nat)
    ensures
        smoothed_n(zoom, target, dt, n + 1) == smoothed(smoothed_n(zoom, target, dt, n), target, dt),
    decreases n,
{
    let next = smoothed(zoom, target, dt);
    assert(smoothed_n(zoom, target, dt, n + 1) == smoothed_n(next, target, dt, n));
    if n > 0 {
        lemma_smoothed_n_last(next, target, dt, (n - 1) as nat);
        assert(smoothed_n(zoom, target, dt, n) == smoothed_n(next, target, dt, (n - 1) as nat));
    } else {
        assert(smoothed_n(next, target, dt, 0) == next);
    }
}

/// One frame's step covers at most the whole gap.
proof fn lemma_step_within(gap: int, f: int)
    requires
        0 <= gap,
        0 <= f <= UNIT,
    ensures
        0 <= gap * f <= gap * UNIT,
        0 <= gap * f / (UNIT as int) <= gap,
{
    assert(0 <= gap * f <= gap * UNIT) by (nonlinear_arith)
        requires
            0 <= gap,
            0 <= f <= UNIT,
    ;
    assert(gap * f / (UNIT as int) <= gap * (UNIT as int) / (UNIT as int)) by (nonlinear_arith)
        requires
            0 <= gap * f <= gap * UNIT,
    ;
    assert(gap * (UNIT as int) / (UNIT as int) == gap) by (nonlinear_arith);
}

} // verus!
