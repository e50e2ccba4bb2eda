//! The projector: turns each hit distance of a view into an on-screen
//! wall-slice height by an inverse-distance law. The projection carries no
//! per-column angle correction, so straight walls bow outward toward the
//! view edges (a fisheye artifact); that distortion is part of the design
//! and is preserved deliberately.

use vstd::prelude::*;
use vstd::arithmetic::div_mod::{lemma_div_is_ordered_by_denominator, lemma_div_by_multiple,
    lemma_div_pos_is_pos};
use crate::camera::Camera;
use crate::cast::Ray;

verus! {

/// Visual scale of the projection: the height of a wall slice seen from
/// exactly `max_distance` away, chosen by eye.
pub const HEIGHT_SCALE: u32 = 14;

/// Wall-slice height for a hit at `dist`: `HEIGHT_SCALE * max_distance / dist`,
/// rounded down. A distance of zero (only sample 0 of a march can produce
/// it) projects as a height so large that any screen clamp swallows it.
pub open spec fn height_spec(dist: int, max_distance: int) -> int {
    if dist == 0 {
        u64::MAX as int
    } else {
        ((HEIGHT_SCALE as int) * max_distance) / dist
    }
}

/// Project every hit record of a view to its wall-slice height.
pub fn calculate_heights<T>(rays: &[Ray<T>], cam: &Camera) -> (heights: Vec<u64>)
    ensures
        heights@.len() == rays@.len(),
        forall|i: int| 0 <= i < rays@.len()
            ==> heights@[i] == height_spec(rays@[i].distance as int, cam.max_distance as int),
{
    let mut heights: Vec<u64> = Vec::new();
    let mut i: usize = 0;
    while i < rays.len()
        invariant
            0 <= i <= rays@.len(),
            heights@.len() == i,
            forall|j: int| 0 <= j < i
                ==> heights@[j] == height_spec(rays@[j].distance as int, cam.max_distance as int),
        decreases rays@.len() - i,
    {
        let d: u32 = rays[i].distance;
        let from_axis: u64 = if d == 0 {
            u64::MAX
        } else {
            proof {
                lemma_div_pos_is_pos((HEIGHT_SCALE as int) * (cam.max_distance as int), d as int);
            }
            (HEIGHT_SCALE as u64) * (cam.max_distance as u64) / (d as u64)
        };
        heights.push(from_axis);
        i = i + 1;
    }
    heights
}

/// The height inverse law: for a fixed distance budget, a nearer hit never
/// projects shorter than a farther one. (Heights are rounded down, so two
/// neighboring distances may project equal; the law is monotone, not
/// strictly so.)
pub proof fn lemma_height_antitone(d1: int, d2: int, max_distance: int)
    requires
        0 <= d1 <= d2,
        0 < d2,
        0 <= max_distance <= i32::MAX,
    ensures
        height_spec(d1, max_distance) >= height_spec(d2, max_distance),
{
    let num = (HEIGHT_SCALE as int) * max_distance;
    assert(0 <= num <= 14 * 0x7fff_ffff) by (nonlinear_arith)
        requires
            num == (HEIGHT_SCALE as int) * max_distance,
            HEIGHT_SCALE == 14,
            0 <= max_distance <= 0x7fff_ffff;
    if d1 == 0 {
        lemma_div_is_ordered_by_denominator(num, 1, d2);
    } else {
        lemma_div_is_ordered_by_denominator(num, d1, d2);
    }
}

/// A full-range miss projects the minimum height: exactly `HEIGHT_SCALE` at
/// `dist == max_distance`, and no positive distance within the budget
/// projects below it.
pub proof fn lemma_miss_height_minimum(d: int, max_distance: int)
    requires
        1 <= d <= max_distance,
        max_distance <= i32::MAX,
    ensures
        height_spec(max_distance, max_distance) == HEIGHT_SCALE,
        height_spec(d, max_distance) >= HEIGHT_SCALE,
{
    lemma_div_by_multiple(HEIGHT_SCALE as int, max_distance);
    lemma_height_antitone(d, max_distance, max_distance);
}

} // verus!
