//! The camera: a pose and optics record, read during a cast and mutated
//! between frames by the input layer through `turn` and `advance`.

use vstd::prelude::*;
use crate::angle::{FULL_TURN, TRIG_ONE, norm_spec, cos_at, sin_at, div_trunc,
    normalize_angle, cos_fp, sin_fp};

verus! {

/// Greatest magnitude a camera heading may take before it must be
/// re-normalized; generous enough that the angle math never overflows.
pub const RADIANS_BOUND: i64 = 0x1000_0000_0000;

/// Camera pose and optics. `x`, `y` are a position in grid coordinates
/// (signed, since transient math may go negative); `radians` is the heading
/// and `fov` the angular width of view, both in angle units; `max_distance`
/// is the ray march ceiling and `ray_steps` the sample count per ray.
pub struct Camera {
    pub x: i32,
    pub y: i32,
    pub height: i32,
    pub radians: i64,
    pub fov: i64,
    pub max_distance: u32,
    pub ray_steps: u32,
}

impl Camera {
    /// The optics a cast relies on: a positive distance budget that fits
    /// signed pixel math, at least one sample per ray, a field of view of at
    /// most a full turn either way, and a heading of bounded magnitude.
    pub open spec fn valid(self) -> bool {
        &&& 1 <= self.max_distance <= i32::MAX
        &&& self.ray_steps >= 1
        &&& -FULL_TURN <= self.fov <= FULL_TURN
        &&& -RADIANS_BOUND <= self.radians <= RADIANS_BOUND
    }

    /// The stock camera: at the origin, facing angle zero, with a sixth of a
    /// turn of view, a distance budget of 512 and 512 samples per ray.
    pub fn default() -> (c: Self)
        ensures
            c.valid(),
            c.x == 0,
            c.y == 0,
            c.height == 32,
            c.radians == 0,
            c.fov == FULL_TURN / 6,
            c.max_distance == 512,
            c.ray_steps == 512,
    {
        Self {
            x: 0,
            y: 0,
            height: 32,
            radians: 0,
            fov: FULL_TURN / 6,
            max_distance: 512,
            ray_steps: 512,
        }
    }
}

/// Turn the camera by `delta` angle units (positive is counter-clockwise),
/// re-normalizing the heading into `[0, FULL_TURN)`.
pub fn turn(cam: &mut Camera, delta: i64)
    requires
        old(cam).valid(),
        -FULL_TURN <= delta <= FULL_TURN,
    ensures
        final(cam).valid(),
        final(cam).radians == norm_spec(old(cam).radians + delta),
        final(cam).x == old(cam).x,
        final(cam).y == old(cam).y,
        final(cam).height == old(cam).height,
        final(cam).fov == old(cam).fov,
        final(cam).max_distance == old(cam).max_distance,
        final(cam).ray_steps == old(cam).ray_steps,
{
    cam.radians = normalize_angle(cam.radians + delta);
}

/// Move the camera `delta` cells along its heading (negative moves back).
/// The vertical offset is subtracted because grid `y` grows downward.
/// Callers must keep the destination within signed coordinate range (and,
/// for casting to stay meaningful, within the map).
pub fn advance(cam: &mut Camera, delta: i32)
    requires
        old(cam).valid(),
        i32::MIN <= old(cam).x + div_trunc(delta * cos_at(old(cam).radians as int), TRIG_ONE as int)
            <= i32::MAX,
        i32::MIN <= old(cam).y - div_trunc(delta * sin_at(old(cam).radians as int), TRIG_ONE as int)
            <= i32::MAX,
    ensures
        final(cam).valid(),
        final(cam).x == old(cam).x
            + div_trunc(delta * cos_at(old(cam).radians as int), TRIG_ONE as int),
        final(cam).y == old(cam).y
            - div_trunc(delta * sin_at(old(cam).radians as int), TRIG_ONE as int),
        final(cam).height == old(cam).height,
        final(cam).radians == old(cam).radians,
        final(cam).fov == old(cam).fov,
        final(cam).max_distance == old(cam).max_distance,
        final(cam).ray_steps == old(cam).ray_steps,
{
    let c = cos_fp(cam.radians);
    let s = sin_fp(cam.radians);
    let x_off: i64 = (delta as i64) * c / TRIG_ONE;
    let y_off: i64 = (delta as i64) * s / TRIG_ONE;
    cam.x = ((cam.x as i64) + x_off) as i32;
    cam.y = ((cam.y as i64) - y_off) as i32;
}

} // verus!
