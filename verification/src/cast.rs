//! The ray caster: derives a world angle for each screen column, marches a
//! fixed-count sampling along that angle, and reports the first occupied
//! cell as a hit record.

use vstd::prelude::*;
use vstd::arithmetic::div_mod::{
    lemma_div_pos_is_pos, lemma_div_of0, lemma_multiply_divide_lt, lemma_div_is_ordered,
};
use crate::angle::{FULL_TURN, TRIG_ONE, norm_spec, div_trunc, cos_at, sin_at,
    normalize_angle, cos_fp, sin_fp, lemma_norm_in_range, lemma_div_trunc_bounds,
    lemma_div_trunc_neg, lemma_div_trunc_scaled_half, lemma_scale_bound};
use crate::camera::{Camera, RADIANS_BOUND};
use crate::grid::{GridMap, Wall};

verus! {

/// Number of screen columns a full field-of-view cast produces.
pub const RENDER_WIDTH: u32 = 512;

/// One per-column hit record: the march distance at which the ray stopped,
/// the absolute world angle it was cast at (normalized into one turn), and
/// the material met, or nothing for a full-range miss.
#[derive(Clone, Copy)]
pub struct Ray<T> {
    pub distance: u32,
    pub angle: i64,
    pub wall: Option<T>,
}

/// The world angle of the column at fraction `num / den` across the field
/// of view: the heading, plus the span offset `fov * (num/den - 1/2)`
/// rounded toward zero, normalized into `[0, FULL_TURN)`.
pub open spec fn angle_spec(cam: Camera, num: int, den: int) -> int {
    norm_spec(cam.radians + div_trunc(cam.fov * (2 * num - den), 2 * den))
}

/// Distance of march sample `k`: `max_distance * k / ray_steps`, rounded
/// down; sample 0 sits on the camera and no sample reaches `max_distance`.
pub open spec fn step_dist(cam: Camera, k: int) -> int {
    (cam.max_distance * k) / (cam.ray_steps as int)
}

/// Horizontal world offset of a point `dist` out along `ang`, truncated
/// toward zero.
pub open spec fn x_off_spec(dist: int, ang: int) -> int {
    div_trunc(dist * cos_at(ang), TRIG_ONE as int)
}

/// Vertical world offset of a point `dist` out along `ang`, truncated
/// toward zero.
pub open spec fn y_off_spec(dist: int, ang: int) -> int {
    div_trunc(dist * sin_at(ang), TRIG_ONE as int)
}

/// Grid column probed at march sample `k`.
pub open spec fn probe_x(cam: Camera, ang: int, k: int) -> int {
    cam.x + x_off_spec(step_dist(cam, k), ang)
}

/// Grid row probed at march sample `k`; the sine offset is subtracted
/// because grid `y` grows downward.
pub open spec fn probe_y(cam: Camera, ang: int, k: int) -> int {
    cam.y - y_off_spec(step_dist(cam, k), ang)
}

/// Whether march sample `k` lands in an occupied cell.
pub open spec fn hits(m: GridMap, cam: Camera, ang: int, k: int) -> bool {
    m.cell(probe_x(cam, ang, k), probe_y(cam, ang, k)) is Some
}

/// The first sample in `0 .. n` that lands in an occupied cell, if any.
pub open spec fn first_hit(m: GridMap, cam: Camera, ang: int, n: nat) -> Option<nat>
    decreases n,
{
    if n == 0 {
        None
    } else {
        match first_hit(m, cam, ang, (n - 1) as nat) {
            Some(k) => Some(k),
            None => if hits(m, cam, ang, n - 1) {
                Some((n - 1) as nat)
            } else {
                None
            },
        }
    }
}

/// What a cast returns for the column at `num / den`: the record of the
/// first hit, or a full-range miss at `max_distance`.
pub open spec fn cast_ray_spec(m: GridMap, cam: Camera, num: int, den: int) -> Ray<Wall> {
    let ang = angle_spec(cam, num, den);
    match first_hit(m, cam, ang, cam.ray_steps as nat) {
        Some(k) => Ray {
            distance: step_dist(cam, k as int) as u32,
            angle: ang as i64,
            wall: m.cell(probe_x(cam, ang, k as int), probe_y(cam, ang, k as int)),
        },
        None => Ray { distance: cam.max_distance, angle: ang as i64, wall: None },
    }
}

/// If nothing is hit before sample `k` and sample `k` hits, the whole scan
/// of `n >= k + 1` samples finds exactly sample `k`.
proof fn lemma_first_hit_found(m: GridMap, cam: Camera, ang: int, k: int, n: nat)
    requires
        0 <= k < n,
        hits(m, cam, ang, k),
        forall|j: int| 0 <= j < k ==> !hits(m, cam, ang, j),
    ensures
        first_hit(m, cam, ang, n) == Some(k as nat),
    decreases n,
{
    if n - 1 > k {
        lemma_first_hit_found(m, cam, ang, k, (n - 1) as nat);
    } else {
        lemma_first_hit_none(m, cam, ang, (n - 1) as nat);
    }
}

/// If no sample in `0 .. n` hits, the scan of `n` samples finds nothing.
proof fn lemma_first_hit_none(m: GridMap, cam: Camera, ang: int, n: nat)
    requires
        forall|j: int| 0 <= j < n ==> !hits(m, cam, ang, j),
    ensures
        first_hit(m, cam, ang, n) is None,
    decreases n,
{
    if n > 0 {
        lemma_first_hit_none(m, cam, ang, (n - 1) as nat);
    }
}

/// The absolute world angle of the column at fraction `span_num / span_den`
/// across the field of view, normalized into `[0, FULL_TURN)`.
pub fn calculate_angle(cam: &Camera, span_num: u32, span_den: u32) -> (r: i64)
    requires
        cam.valid(),
        span_den >= 1,
        span_num <= span_den,
    ensures
        r == angle_spec(*cam, span_num as int, span_den as int),
        0 <= r < FULL_TURN,
{
    let num2: i64 = 2 * (span_num as i64) - (span_den as i64);
    proof {
        assert(-0x8_0000_0000_0000i64 <= cam.fov * num2 <= 0x8_0000_0000_0000i64)
            by (nonlinear_arith)
            requires
                -FULL_TURN <= cam.fov <= FULL_TURN,
                -0x1_0000_0000i64 <= num2 <= 0x1_0000_0000i64,
                FULL_TURN == 196608;
    }
    let prod: i64 = cam.fov * num2;
    proof {
        lemma_div_trunc_bounds(prod as int, 2 * (span_den as int));
    }
    let t: i64 = prod / (2 * (span_den as i64));
    normalize_angle(cam.radians + t)
}

/// The integer Cartesian offset of the point `distance` out along `ang`:
/// fixed-point cosine and sine products, truncated toward zero.
pub fn calculate_ray(distance: u32, ang: i64) -> (r: (i32, i32))
    requires
        distance <= i32::MAX,
        -RADIANS_BOUND <= ang <= RADIANS_BOUND,
    ensures
        r.0 == x_off_spec(distance as int, ang as int),
        r.1 == y_off_spec(distance as int, ang as int),
        -(distance as int) <= r.0 <= distance as int,
        -(distance as int) <= r.1 <= distance as int,
{
    let c = cos_fp(ang);
    let s = sin_fp(ang);
    proof {
        lemma_scale_bound(distance as int, c as int, TRIG_ONE as int);
        lemma_scale_bound(distance as int, s as int, TRIG_ONE as int);
    }
    let x_off: i64 = (distance as i64) * c / TRIG_ONE;
    let y_off: i64 = (distance as i64) * s / TRIG_ONE;
    (x_off as i32, y_off as i32)
}

/// A march sample's distance is nonnegative and under the distance budget
/// (and the product it divides stays within machine range).
pub proof fn lemma_step_dist_range(cam: Camera, k: int)
    requires
        cam.valid(),
        0 <= k < cam.ray_steps,
    ensures
        0 <= step_dist(cam, k) < cam.max_distance,
        0 <= (cam.max_distance as int) * k <= 0x8000_0000_0000_0000int,
{
    assert((cam.max_distance as int) * k
        < (cam.ray_steps as int) * (cam.max_distance as int)
        && 0 <= (cam.max_distance as int) * k <= 0x8000_0000_0000_0000int)
        by (nonlinear_arith)
        requires
            0 <= k < cam.ray_steps,
            cam.ray_steps <= u32::MAX,
            1 <= cam.max_distance <= i32::MAX;
    lemma_div_pos_is_pos((cam.max_distance as int) * k, cam.ray_steps as int);
    lemma_multiply_divide_lt(
        (cam.max_distance as int) * k,
        cam.ray_steps as int,
        cam.max_distance as int,
    );
}

/// Distance of march sample `k`, as executable code.
pub(crate) fn step_distance(cam: &Camera, k: u32) -> (d: u32)
    requires
        cam.valid(),
        k < cam.ray_steps,
    ensures
        d as int == step_dist(*cam, k as int),
        d < cam.max_distance,
{
    proof {
        lemma_step_dist_range(*cam, k as int);
    }
    ((cam.max_distance as u64) * (k as u64) / (cam.ray_steps as u64)) as u32
}

/// March the ray for the column at `span_num / span_den`: probe the cell at
/// each of `ray_steps` sample distances in increasing order and stop at the
/// first occupied one; report a miss at full `max_distance` if none is.
/// Cells off the grid probe as empty.
pub fn cast_ray(m: &GridMap, cam: &Camera, span_num: u32, span_den: u32) -> (r: Ray<Wall>)
    requires
        m.wf(),
        cam.valid(),
        span_den >= 1,
        span_num <= span_den,
    ensures
        r == cast_ray_spec(*m, *cam, span_num as int, span_den as int),
        r.distance <= cam.max_distance,
        0 <= r.angle < FULL_TURN,
{
    let ang = calculate_angle(cam, span_num, span_den);
    let ghost gang = ang as int;
    let mut k: u32 = 0;
    while k < cam.ray_steps
        invariant
            m.wf(),
            cam.valid(),
            0 <= k <= cam.ray_steps,
            ang == angle_spec(*cam, span_num as int, span_den as int),
            gang == ang as int,
            0 <= ang < FULL_TURN,
            forall|j: int| 0 <= j < k ==> !hits(*m, *cam, gang, j),
        decreases cam.ray_steps - k,
    {
        let dist: u32 = step_distance(cam, k);
        let offset = calculate_ray(dist, ang);
        let x: i64 = (cam.x as i64) + (offset.0 as i64);
        let y: i64 = (cam.y as i64) - (offset.1 as i64);
        let cell = m.cell_at(x, y);
        if cell.is_some() {
            proof {
                assert(hits(*m, *cam, gang, k as int));
                lemma_first_hit_found(*m, *cam, gang, k as int, cam.ray_steps as nat);
            }
            return Ray { distance: dist, wall: cell, angle: ang };
        }
        proof {
            assert(!hits(*m, *cam, gang, k as int));
        }
        k = k + 1;
    }
    proof {
        lemma_first_hit_none(*m, *cam, gang, cam.ray_steps as nat);
    }
    Ray { distance: cam.max_distance, wall: None, angle: ang }
}

/// Cast one ray per screen column: column `i` of `RENDER_WIDTH` is cast at
/// span `i / RENDER_WIDTH`, so the view holds the columns left to right in
/// increasing span order.
pub fn cast_fov(m: &GridMap, cam: &Camera) -> (rays: Vec<Ray<Wall>>)
    requires
        m.wf(),
        cam.valid(),
    ensures
        rays@.len() == RENDER_WIDTH,
        forall|i: int| 0 <= i < RENDER_WIDTH
            ==> rays@[i] == cast_ray_spec(*m, *cam, i, RENDER_WIDTH as int),
        forall|i: int| 0 <= i < RENDER_WIDTH
            ==> 0 <= #[trigger] rays@[i].angle < FULL_TURN,
{
    let mut rays: Vec<Ray<Wall>> = Vec::new();
    let mut i: u32 = 0;
    while i < RENDER_WIDTH
        invariant
            m.wf(),
            cam.valid(),
            0 <= i <= RENDER_WIDTH,
            rays@.len() == i,
            forall|j: int| 0 <= j < i
                ==> rays@[j] == cast_ray_spec(*m, *cam, j, RENDER_WIDTH as int),
            forall|j: int| 0 <= j < i ==> 0 <= #[trigger] rays@[j].angle < FULL_TURN,
        decreases RENDER_WIDTH - i,
    {
        let ray = cast_ray(m, cam, i, RENDER_WIDTH);
        rays.push(ray);
        i = i + 1;
    }
    rays
}

/// The angle function lands every column of every camera in `[0, FULL_TURN)`:
/// one turn, never outside it.
pub proof fn lemma_angle_in_range(cam: Camera, num: int, den: int)
    ensures
        0 <= angle_spec(cam, num, den) < FULL_TURN,
{
    lemma_norm_in_range(cam.radians + div_trunc(cam.fov * (2 * num - den), 2 * den));
}

/// The column halfway across the field of view is cast straight along the
/// camera heading (normalized).
pub proof fn lemma_angle_center(cam: Camera, num: int, den: int)
    requires
        den >= 1,
        2 * num == den,
    ensures
        angle_spec(cam, num, den) == norm_spec(cam.radians as int),
{
    lemma_div_of0(2 * den);
}

/// The march is monotonic: sample distances never decrease along a ray.
pub proof fn lemma_march_monotone(cam: Camera, j: int, k: int)
    requires
        cam.valid(),
        0 <= j <= k,
    ensures
        step_dist(cam, j) <= step_dist(cam, k),
{
    assert((cam.max_distance as int) * j <= (cam.max_distance as int) * k)
        by (nonlinear_arith)
        requires 0 <= j <= k && cam.max_distance >= 1;
    lemma_div_is_ordered(
        (cam.max_distance as int) * j,
        (cam.max_distance as int) * k,
        cam.ray_steps as int,
    );
}

/// A ray toward open space misses: if no march sample of the ray lands in
/// an occupied cell, the cast returns the full distance budget and no
/// material.
pub proof fn lemma_open_space_miss(m: GridMap, cam: Camera, num: int, den: int)
    requires
        forall|k: int| 0 <= k < cam.ray_steps
            ==> !hits(m, cam, angle_spec(cam, num, den), k),
    ensures
        cast_ray_spec(m, cam, num, den).distance == cam.max_distance,
        cast_ray_spec(m, cam, num, den).wall is None,
{
    lemma_first_hit_none(m, cam, angle_spec(cam, num, den), cam.ray_steps as nat);
}

/// Hit precedence: if the ray's path first crosses an occupied cell at
/// sample `k`, the cast stops exactly there, reporting the distance
/// `max_distance * k / ray_steps` and that cell's material; no later sample
/// is consulted.
pub proof fn lemma_first_hit_precedence(m: GridMap, cam: Camera, num: int, den: int, k: int)
    requires
        cam.valid(),
        0 <= k < cam.ray_steps,
        hits(m, cam, angle_spec(cam, num, den), k),
        forall|j: int| 0 <= j < k ==> !hits(m, cam, angle_spec(cam, num, den), j),
    ensures
        cast_ray_spec(m, cam, num, den).distance
            == ((cam.max_distance as int) * k) / (cam.ray_steps as int),
        cast_ray_spec(m, cam, num, den).wall == m.cell(
            probe_x(cam, angle_spec(cam, num, den), k),
            probe_y(cam, angle_spec(cam, num, den), k),
        ),
        cast_ray_spec(m, cam, num, den).wall is Some,
{
    lemma_first_hit_found(m, cam, angle_spec(cam, num, den), k, cam.ray_steps as nat);
    lemma_step_dist_range(cam, k);
}

/// The first and last columns are cast half a field of view below and above
/// the heading: span 0 gives `radians - fov / 2` and span 1 gives
/// `radians + fov / 2` (halves rounded toward zero, then normalized).
pub proof fn lemma_angle_edges(cam: Camera, den: int)
    requires
        den >= 1,
    ensures
        angle_spec(cam, 0, den) == norm_spec(cam.radians - div_trunc(cam.fov as int, 2)),
        angle_spec(cam, den, den) == norm_spec(cam.radians + div_trunc(cam.fov as int, 2)),
{
    let f = cam.fov as int;
    assert(f * (2 * 0 - den) == -(f * den)) by (nonlinear_arith);
    lemma_div_trunc_neg(f * den, 2 * den);
    lemma_div_trunc_scaled_half(f, den);
    assert(f * (2 * den - den) == f * den) by (nonlinear_arith);
}

} // verus!
