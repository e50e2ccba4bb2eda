//! The compositor: paints a grid map top-down, a cast view as first-person
//! wall slices, rays and the camera as debug overlays, and a tiled texture,
//! all into a `Canvas`.
//!
//! Every contract here is stated over `canvas_pixels`, so the exact color
//! of every pixel after a call is pinned down.

use vstd::prelude::*;
use crate::camera::Camera;
use crate::canvas::{Canvas, canvas_pixels, canvas_width, canvas_height, put_pixel_at,
    put_pixel_clipped, read_pixel};
use crate::angle::FULL_TURN;
use crate::cast::{Ray, step_dist, step_distance, probe_x, probe_y, calculate_ray};
use crate::grid::{GridMap, Wall};
use crate::project::{height_spec, calculate_heights};
use crate::texture::{texel_index, get};

verus! {

/// The fixed eight-color palette (the Rust Gold 8 palette), as `(r, g, b)`
/// triples: gold, orange, rust, maroon, creamsicle, purple, gray, black.
pub open spec fn palette_spec(i: int) -> (u8, u8, u8) {
    if i == 0 {
        (246u8, 205u8, 38u8)
    } else if i == 1 {
        (172u8, 107u8, 38u8)
    } else if i == 2 {
        (86u8, 50u8, 38u8)
    } else if i == 3 {
        (51u8, 28u8, 23u8)
    } else if i == 4 {
        (187u8, 127u8, 87u8)
    } else if i == 5 {
        (114u8, 89u8, 86u8)
    } else if i == 6 {
        (57u8, 57u8, 57u8)
    } else {
        (32u8, 32u8, 32u8)
    }
}

/// Look a palette entry up; indices past the palette all give black.
pub fn palette(i: u8) -> (c: (u8, u8, u8))
    ensures
        c == palette_spec(i as int),
{
    if i == 0 {
        (246, 205, 38)
    } else if i == 1 {
        (172, 107, 38)
    } else if i == 2 {
        (86, 50, 38)
    } else if i == 3 {
        (51, 28, 23)
    } else if i == 4 {
        (187, 127, 87)
    } else if i == 5 {
        (114, 89, 86)
    } else if i == 6 {
        (57, 57, 57)
    } else {
        (32, 32, 32)
    }
}

/// The color a cell's material paints as; an empty cell (and so a missed
/// ray) paints as the background black.
pub open spec fn pick_color_spec(wall: Option<Wall>) -> (u8, u8, u8) {
    match wall {
        Some(Wall::Dirt) => palette_spec(2),
        Some(Wall::Brick) => palette_spec(0),
        Some(Wall::Stone) => palette_spec(6),
        Some(Wall::Crystal) => palette_spec(4),
        None => palette_spec(7),
    }
}

/// Map a material to its palette color.
pub fn pick_color(wall: Option<Wall>) -> (c: (u8, u8, u8))
    ensures
        c == pick_color_spec(wall),
{
    match wall {
        Some(Wall::Dirt) => palette(2),
        Some(Wall::Brick) => palette(0),
        Some(Wall::Stone) => palette(6),
        Some(Wall::Crystal) => palette(4),
        None => palette(7),
    }
}

/// Paint the map top-down: cell `(x, y)` of the grid becomes pixel `(x, y)`
/// of the canvas in its material's color; pixels past the grid keep their
/// old color.
pub fn draw_map(img: &mut Canvas, m: &GridMap)
    requires
        m.wf(),
        m.w <= canvas_width(*old(img)),
        m.h <= canvas_height(*old(img)),
    ensures
        canvas_width(*final(img)) == canvas_width(*old(img)),
        canvas_height(*final(img)) == canvas_height(*old(img)),
        forall|px: int, py: int| #![trigger canvas_pixels(*final(img))[(px, py)]]
            canvas_pixels(*final(img))[(px, py)] == if 0 <= px < m.w && 0 <= py < m.h {
                pick_color_spec(m.cell(px, py))
            } else {
                canvas_pixels(*old(img))[(px, py)]
            },
{
    let ghost img0 = *img;
    let w = m.w;
    let h = m.h;
    let mut y: u32 = 0;
    while y < h
        invariant
            m.wf(),
            m.w == w,
            m.h == h,
            w <= canvas_width(*img),
            h <= canvas_height(*img),
            canvas_width(*img) == canvas_width(img0),
            canvas_height(*img) == canvas_height(img0),
            0 <= y <= h,
            forall|px: int, py: int| #![trigger canvas_pixels(*img)[(px, py)]]
                canvas_pixels(*img)[(px, py)] == if 0 <= px < w && 0 <= py < y {
                    pick_color_spec(m.cell(px, py))
                } else {
                    canvas_pixels(img0)[(px, py)]
                },
        decreases h - y,
    {
        let ghost row0 = *img;
        let mut x: u32 = 0;
        while x < w
            invariant
                m.wf(),
                m.w == w,
                m.h == h,
                w <= canvas_width(*img),
                h <= canvas_height(*img),
                canvas_width(*img) == canvas_width(row0),
                canvas_height(*img) == canvas_height(row0),
                0 <= x <= w,
                0 <= y < h,
                forall|px: int, py: int| #![trigger canvas_pixels(*img)[(px, py)]]
                    canvas_pixels(*img)[(px, py)] == if 0 <= px < x && py == y {
                        pick_color_spec(m.cell(px, py))
                    } else {
                        canvas_pixels(row0)[(px, py)]
                    },
            decreases w - x,
        {
            let cell = m.cell_at(x as i64, y as i64);
            let color = pick_color(cell);
            put_pixel_at(img, x, y, color);
            x = x + 1;
        }
        proof {
            assert forall|px: int, py: int| #![trigger canvas_pixels(*img)[(px, py)]]
                canvas_pixels(*img)[(px, py)] == if 0 <= px < w && 0 <= py < y + 1 {
                    pick_color_spec(m.cell(px, py))
                } else {
                    canvas_pixels(img0)[(px, py)]
                } by {
                assert(canvas_pixels(*img)[(px, py)] == if 0 <= px < w && py == y {
                    pick_color_spec(m.cell(px, py))
                } else {
                    canvas_pixels(row0)[(px, py)]
                });
                assert(canvas_pixels(row0)[(px, py)] == if 0 <= px < w && 0 <= py < y {
                    pick_color_spec(m.cell(px, py))
                } else {
                    canvas_pixels(img0)[(px, py)]
                });
            }
        }
        y = y + 1;
    }
}

/// The wall-slice height of one hit record, clamped to the distance budget
/// (the clamp swallows the huge height of a zero-distance hit).
pub open spec fn clamped_height_spec(r: Ray<Wall>, cam: Camera) -> int {
    let hh = height_spec(r.distance as int, cam.max_distance as int);
    if hh < cam.max_distance {
        hh
    } else {
        cam.max_distance as int
    }
}

/// Color of pixel row `y` in a wall-slice column of clamped height `f` and
/// wall color `wc`: the slice spreads `f` rows up and down from the screen
/// mid-line 256, the rows above it are ceiling (black) and the rows below
/// it floor (maroon). Painting order makes ceiling win ties, so the top
/// ceiling row wins even when the slice fills the whole screen.
pub open spec fn column_pixel_spec(f: int, wc: (u8, u8, u8), y: int) -> (u8, u8, u8) {
    let ceil_top = if f >= 256 {
        0int
    } else {
        256 - f
    };
    if y <= ceil_top {
        palette_spec(7)
    } else if y >= 256 + f {
        palette_spec(3)
    } else {
        wc
    }
}

/// Paint a cast view as a first-person frame: screen column `px` shows the
/// wall slice of view index `511 - px`, so the rendered image is mirrored
/// left-right relative to cast order. A view of `n` rays repaints every
/// pixel of the rightmost `n` screen columns (a full 512-column view covers
/// the whole 512 x 512 canvas); columns past it keep their colors.
pub fn draw_view(img: &mut Canvas, rays: &[Ray<Wall>], cam: &Camera)
    requires
        canvas_width(*old(img)) == 512,
        canvas_height(*old(img)) == 512,
        rays@.len() <= 512,
    ensures
        canvas_width(*final(img)) == 512,
        canvas_height(*final(img)) == 512,
        forall|px: int, py: int| #![trigger canvas_pixels(*final(img))[(px, py)]]
            canvas_pixels(*final(img))[(px, py)]
                == if 512 - rays@.len() <= px < 512 && 0 <= py < 512 {
                    column_pixel_spec(
                        clamped_height_spec(rays@[511 - px], *cam),
                        pick_color_spec(rays@[511 - px].wall),
                        py,
                    )
                } else {
                    canvas_pixels(*old(img))[(px, py)]
                },
{
    let ghost img0 = *img;
    let heights = calculate_heights(rays, cam);
    let n: usize = rays.len();
    let mut i: usize = 0;
    while i < n
        invariant
            canvas_width(*img) == 512,
            canvas_height(*img) == 512,
            rays@.len() <= 512,
            n == rays@.len(),
            heights@.len() == rays@.len(),
            forall|j: int| 0 <= j < rays@.len()
                ==> heights@[j] == height_spec(rays@[j].distance as int, cam.max_distance as int),
            0 <= i <= n,
            forall|px: int, py: int| #![trigger canvas_pixels(*img)[(px, py)]]
                canvas_pixels(*img)[(px, py)] == if 512 - i <= px < 512 && 0 <= py < 512 {
                    column_pixel_spec(
                        clamped_height_spec(rays@[511 - px], *cam),
                        pick_color_spec(rays@[511 - px].wall),
                        py,
                    )
                } else {
                    canvas_pixels(img0)[(px, py)]
                },
        decreases n - i,
    {
        let ghost col0 = *img;
        let x: u32 = 511 - (i as u32);
        let h: u64 = heights[i];
        let budget: u64 = cam.max_distance as u64;
        let clamped: u64 = if h < budget {
            h
        } else {
            budget
        };
        let f: u32 = clamped as u32;
        proof {
            assert(f as int == clamped_height_spec(rays@[i as int], *cam));
        }
        let ceil_top: u32 = if f >= 256 {
            0
        } else {
            256 - f
        };
        let wc = pick_color(rays[i].wall);
        let mut y: u32 = 0;
        while y < 512
            invariant
                canvas_width(*img) == 512,
                canvas_height(*img) == 512,
                rays@.len() <= 512,
                0 <= i < rays@.len(),
                x == 511 - i,
                f as int == clamped_height_spec(rays@[i as int], *cam),
                ceil_top as int == (if f >= 256 { 0int } else { 256 - (f as int) }),
                wc == pick_color_spec(rays@[i as int].wall),
                0 <= y <= 512,
                forall|px: int, py: int| #![trigger canvas_pixels(*img)[(px, py)]]
                    canvas_pixels(*img)[(px, py)] == if px == x && 0 <= py < y {
                        column_pixel_spec(f as int, wc, py)
                    } else {
                        canvas_pixels(col0)[(px, py)]
                    },
            decreases 512 - y,
        {
            let color = if y <= ceil_top {
                palette(7)
            } else if (y as u64) >= 256u64 + (f as u64) {
                palette(3)
            } else {
                wc
            };
            proof {
                assert(color == column_pixel_spec(f as int, wc, y as int));
            }
            put_pixel_at(img, x, y, color);
            y = y + 1;
        }
        proof {
            assert forall|px: int, py: int| #![trigger canvas_pixels(*img)[(px, py)]]
                canvas_pixels(*img)[(px, py)] == if 512 - (i + 1) <= px < 512 && 0 <= py < 512 {
                    column_pixel_spec(
                        clamped_height_spec(rays@[511 - px], *cam),
                        pick_color_spec(rays@[511 - px].wall),
                        py,
                    )
                } else {
                    canvas_pixels(img0)[(px, py)]
                } by {
                assert(canvas_pixels(*img)[(px, py)] == if px == x && 0 <= py < 512 {
                    column_pixel_spec(f as int, wc, py)
                } else {
                    canvas_pixels(col0)[(px, py)]
                });
                assert(canvas_pixels(col0)[(px, py)]
                    == if 512 - i <= px < 512 && 0 <= py < 512 {
                        column_pixel_spec(
                            clamped_height_spec(rays@[511 - px], *cam),
                            pick_color_spec(rays@[511 - px].wall),
                            py,
                        )
                    } else {
                        canvas_pixels(img0)[(px, py)]
                    });
            }
        }
        i = i + 1;
    }
}

/// What overlaying a texture leaves at one pixel: a pixel showing the gold
/// palette entry takes the color of the texel the texture samples there (if
/// the texture holds that byte); every other pixel keeps its color.
pub open spec fn texture_pixel_spec(tex: Seq<u8>, old_px: (u8, u8, u8), x: int, y: int)
    -> (u8, u8, u8) {
    if old_px == palette_spec(0) && texel_index(x, y) < tex.len() {
        palette_spec(tex[texel_index(x, y)] as int)
    } else {
        old_px
    }
}

/// Overlay an indexed texture on the 512 x 512 canvas: every pixel painted
/// in the gold palette entry is replaced by the palette color of the texel
/// sampled at its coordinates. The texture bytes must be palette indices.
pub fn draw_texture(texture: &[u8], img: &mut Canvas)
    requires
        canvas_width(*old(img)) == 512,
        canvas_height(*old(img)) == 512,
        forall|k: int| 0 <= k < texture@.len() ==> texture@[k] < 8,
    ensures
        canvas_width(*final(img)) == 512,
        canvas_height(*final(img)) == 512,
        forall|px: int, py: int| #![trigger canvas_pixels(*final(img))[(px, py)]]
            canvas_pixels(*final(img))[(px, py)] == if 0 <= px < 512 && 0 <= py < 512 {
                texture_pixel_spec(texture@, canvas_pixels(*old(img))[(px, py)], px, py)
            } else {
                canvas_pixels(*old(img))[(px, py)]
            },
{
    let ghost img0 = *img;
    let gold = palette(0);
    let mut y: u32 = 0;
    while y < 512
        invariant
            canvas_width(*img) == 512,
            canvas_height(*img) == 512,
            forall|k: int| 0 <= k < texture@.len() ==> texture@[k] < 8,
            gold == palette_spec(0),
            0 <= y <= 512,
            forall|px: int, py: int| #![trigger canvas_pixels(*img)[(px, py)]]
                canvas_pixels(*img)[(px, py)] == if 0 <= px < 512 && 0 <= py < y {
                    texture_pixel_spec(texture@, canvas_pixels(img0)[(px, py)], px, py)
                } else {
                    canvas_pixels(img0)[(px, py)]
                },
        decreases 512 - y,
    {
        let ghost row0 = *img;
        let mut x: u32 = 0;
        while x < 512
            invariant
                canvas_width(*img) == 512,
                canvas_height(*img) == 512,
                forall|k: int| 0 <= k < texture@.len() ==> texture@[k] < 8,
                gold == palette_spec(0),
                0 <= x <= 512,
                0 <= y < 512,
                forall|px: int, py: int| #![trigger canvas_pixels(*img)[(px, py)]]
                    canvas_pixels(*img)[(px, py)] == if 0 <= px < x && py == y {
                        texture_pixel_spec(texture@, canvas_pixels(row0)[(px, py)], px, py)
                    } else {
                        canvas_pixels(row0)[(px, py)]
                    },
            decreases 512 - x,
        {
            let p = read_pixel(img, x, y);
            if p.0 == gold.0 && p.1 == gold.1 && p.2 == gold.2 {
                match get(texture, x, y) {
                    Some(pix) => {
                        let c = palette(pix);
                        put_pixel_at(img, x, y, c);
                    },
                    None => {},
                }
            }
            proof {
                assert(canvas_pixels(*img)[(x as int, y as int)]
                    == texture_pixel_spec(texture@, canvas_pixels(row0)[(x as int, y as int)],
                        x as int, y as int));
            }
            x = x + 1;
        }
        proof {
            assert forall|px: int, py: int| #![trigger canvas_pixels(*img)[(px, py)]]
                canvas_pixels(*img)[(px, py)] == if 0 <= px < 512 && 0 <= py < y + 1 {
                    texture_pixel_spec(texture@, canvas_pixels(img0)[(px, py)], px, py)
                } else {
                    canvas_pixels(img0)[(px, py)]
                } by {
                assert(canvas_pixels(*img)[(px, py)] == if 0 <= px < 512 && py == y {
                    texture_pixel_spec(texture@, canvas_pixels(row0)[(px, py)], px, py)
                } else {
                    canvas_pixels(row0)[(px, py)]
                });
                assert(canvas_pixels(row0)[(px, py)] == if 0 <= px < 512 && 0 <= py < y {
                    texture_pixel_spec(texture@, canvas_pixels(img0)[(px, py)], px, py)
                } else {
                    canvas_pixels(img0)[(px, py)]
                });
            }
        }
        y = y + 1;
    }
}

/// How many march samples a debug ray trace paints: sampling stops just
/// before the first sample whose distance equals the hit record's distance
/// (a full-range miss never matches, so every sample is painted).
pub open spec fn ray_trace_stop(cam: Camera, r: Ray<Wall>, n: nat) -> nat
    decreases n,
{
    if n == 0 {
        0
    } else {
        let prev = ray_trace_stop(cam, r, (n - 1) as nat);
        if prev < n - 1 {
            prev
        } else if step_dist(cam, n - 1) == r.distance {
            (n - 1) as nat
        } else {
            n
        }
    }
}

/// Whether some march sample among the first `j` probes grid point
/// `(px, py)` along the ray's angle.
pub open spec fn painted_before(cam: Camera, r: Ray<Wall>, j: int, px: int, py: int) -> bool {
    exists|k: int| 0 <= k < j
        && probe_x(cam, r.angle as int, k) == px
        && probe_y(cam, r.angle as int, k) == py
}

/// Whether a debug trace of the ray paints grid point `(px, py)`.
pub open spec fn ray_painted(cam: Camera, r: Ray<Wall>, px: int, py: int) -> bool {
    painted_before(cam, r, ray_trace_stop(cam, r, cam.ray_steps as nat) as int, px, py)
}

/// If the first sample whose distance equals the record's is `k`, the trace
/// of `n >= k + 1` samples stops exactly there.
proof fn lemma_stop_found(cam: Camera, r: Ray<Wall>, k: int, n: nat)
    requires
        0 <= k < n,
        step_dist(cam, k) == r.distance,
        forall|j: int| 0 <= j < k ==> step_dist(cam, j) != r.distance,
    ensures
        ray_trace_stop(cam, r, n) == k,
    decreases n,
{
    if n - 1 > k {
        lemma_stop_found(cam, r, k, (n - 1) as nat);
    } else {
        lemma_stop_none(cam, r, (n - 1) as nat);
    }
}

/// If no sample's distance equals the record's, the trace runs to the end.
proof fn lemma_stop_none(cam: Camera, r: Ray<Wall>, n: nat)
    requires
        forall|j: int| 0 <= j < n ==> step_dist(cam, j) != r.distance,
    ensures
        ray_trace_stop(cam, r, n) == n,
    decreases n,
{
    if n > 0 {
        lemma_stop_none(cam, r, (n - 1) as nat);
    }
}

/// Extending a trace by one sample paints exactly the old points plus that
/// sample's probe point.
proof fn lemma_painted_step(cam: Camera, r: Ray<Wall>, j: int, px: int, py: int)
    requires
        j >= 0,
    ensures
        painted_before(cam, r, j + 1, px, py) <==> (painted_before(cam, r, j, px, py)
            || (probe_x(cam, r.angle as int, j) == px && probe_y(cam, r.angle as int, j) == py)),
{
    let ang = r.angle as int;
    if painted_before(cam, r, j + 1, px, py) {
        let k = choose|k: int| 0 <= k < j + 1
            && probe_x(cam, r.angle as int, k) == px
            && probe_y(cam, r.angle as int, k) == py;
        if k < j {
            assert(painted_before(cam, r, j, px, py));
        }
    }
    if painted_before(cam, r, j, px, py) {
        let k = choose|k: int| 0 <= k < j
            && probe_x(cam, r.angle as int, k) == px
            && probe_y(cam, r.angle as int, k) == py;
        assert(0 <= k < j + 1
            && probe_x(cam, r.angle as int, k) == px
            && probe_y(cam, r.angle as int, k) == py);
    }
    if probe_x(cam, ang, j) == px && probe_y(cam, ang, j) == py {
        assert(0 <= j < j + 1
            && probe_x(cam, r.angle as int, j) == px
            && probe_y(cam, r.angle as int, j) == py);
    }
}

/// Trace one ray over the top-down map view: paint each march sample's
/// probe point in the rust palette entry, stopping just before the sample
/// whose distance equals the hit distance; points off the canvas are
/// silently dropped.
pub fn draw_ray(img: &mut Canvas, cam: &Camera, ray: &Ray<Wall>)
    requires
        cam.valid(),
        0 <= ray.angle < FULL_TURN,
    ensures
        canvas_width(*final(img)) == canvas_width(*old(img)),
        canvas_height(*final(img)) == canvas_height(*old(img)),
        forall|px: int, py: int| #![trigger canvas_pixels(*final(img))[(px, py)]]
            canvas_pixels(*final(img))[(px, py)] == if 0 <= px < canvas_width(*old(img))
                && 0 <= py < canvas_height(*old(img)) && ray_painted(*cam, *ray, px, py) {
                palette_spec(2)
            } else {
                canvas_pixels(*old(img))[(px, py)]
            },
{
    let ghost img0 = *img;
    let rust_color = palette(2);
    let mut k: u32 = 0;
    let mut stopped: bool = false;
    while k < cam.ray_steps && !stopped
        invariant
            cam.valid(),
            0 <= ray.angle < FULL_TURN,
            rust_color == palette_spec(2),
            0 <= k <= cam.ray_steps,
            canvas_width(*img) == canvas_width(img0),
            canvas_height(*img) == canvas_height(img0),
            forall|j: int| 0 <= j < k ==> step_dist(*cam, j) != ray.distance,
            stopped ==> k < cam.ray_steps && step_dist(*cam, k as int) == ray.distance,
            forall|px: int, py: int| #![trigger canvas_pixels(*img)[(px, py)]]
                canvas_pixels(*img)[(px, py)] == if 0 <= px < canvas_width(img0)
                    && 0 <= py < canvas_height(img0)
                    && painted_before(*cam, *ray, k as int, px, py) {
                    palette_spec(2)
                } else {
                    canvas_pixels(img0)[(px, py)]
                },
        decreases cam.ray_steps - k + (if stopped { 0int } else { 1int }),
    {
        let dist = step_distance(cam, k);
        if dist == ray.distance {
            stopped = true;
            continue;
        }
        let offset = calculate_ray(dist, ray.angle);
        let x: i64 = (cam.x as i64) + (offset.0 as i64);
        let y: i64 = (cam.y as i64) - (offset.1 as i64);
        let ghost pre = *img;
        if 0 <= x && x <= u32::MAX as i64 && 0 <= y && y <= u32::MAX as i64 {
            put_pixel_clipped(img, x as u32, y as u32, rust_color);
        }
        proof {
            assert forall|px: int, py: int| #![trigger canvas_pixels(*img)[(px, py)]]
                canvas_pixels(*img)[(px, py)] == if 0 <= px < canvas_width(img0)
                    && 0 <= py < canvas_height(img0)
                    && painted_before(*cam, *ray, k + 1, px, py) {
                    palette_spec(2)
                } else {
                    canvas_pixels(img0)[(px, py)]
                } by {
                lemma_painted_step(*cam, *ray, k as int, px, py);
                assert(canvas_pixels(pre)[(px, py)] == if 0 <= px < canvas_width(img0)
                    && 0 <= py < canvas_height(img0)
                    && painted_before(*cam, *ray, k as int, px, py) {
                    palette_spec(2)
                } else {
                    canvas_pixels(img0)[(px, py)]
                });
            }
        }
        k = k + 1;
    }
    proof {
        if stopped {
            lemma_stop_found(*cam, *ray, k as int, cam.ray_steps as nat);
        } else {
            lemma_stop_none(*cam, *ray, cam.ray_steps as nat);
        }
    }
}

/// Whether tracing the first `upto` rays of a view paints grid point
/// `(px, py)`.
pub open spec fn fov_painted(cam: Camera, rays: Seq<Ray<Wall>>, upto: int, px: int, py: int)
    -> bool {
    exists|i: int| 0 <= i < upto && ray_painted(cam, rays[i], px, py)
}

/// Trace every ray of a view over the top-down map view.
pub fn draw_fov(img: &mut Canvas, rays: &[Ray<Wall>], cam: &Camera)
    requires
        cam.valid(),
        forall|i: int| 0 <= i < rays@.len() ==> 0 <= #[trigger] rays@[i].angle < FULL_TURN,
    ensures
        canvas_width(*final(img)) == canvas_width(*old(img)),
        canvas_height(*final(img)) == canvas_height(*old(img)),
        forall|px: int, py: int| #![trigger canvas_pixels(*final(img))[(px, py)]]
            canvas_pixels(*final(img))[(px, py)] == if 0 <= px < canvas_width(*old(img))
                && 0 <= py < canvas_height(*old(img))
                && fov_painted(*cam, rays@, rays@.len() as int, px, py) {
                palette_spec(2)
            } else {
                canvas_pixels(*old(img))[(px, py)]
            },
{
    let ghost img0 = *img;
    let mut i: usize = 0;
    while i < rays.len()
        invariant
            cam.valid(),
            forall|j: int| 0 <= j < rays@.len() ==> 0 <= #[trigger] rays@[j].angle < FULL_TURN,
            0 <= i <= rays@.len(),
            canvas_width(*img) == canvas_width(img0),
            canvas_height(*img) == canvas_height(img0),
            forall|px: int, py: int| #![trigger canvas_pixels(*img)[(px, py)]]
                canvas_pixels(*img)[(px, py)] == if 0 <= px < canvas_width(img0)
                    && 0 <= py < canvas_height(img0)
                    && fov_painted(*cam, rays@, i as int, px, py) {
                    palette_spec(2)
                } else {
                    canvas_pixels(img0)[(px, py)]
                },
        decreases rays@.len() - i,
    {
        let ghost pre = *img;
        draw_ray(img, cam, &rays[i]);
        proof {
            assert forall|px: int, py: int| #![trigger canvas_pixels(*img)[(px, py)]]
                canvas_pixels(*img)[(px, py)] == if 0 <= px < canvas_width(img0)
                    && 0 <= py < canvas_height(img0)
                    && fov_painted(*cam, rays@, i + 1, px, py) {
                    palette_spec(2)
                } else {
                    canvas_pixels(img0)[(px, py)]
                } by {
                assert(canvas_pixels(*img)[(px, py)] == if 0 <= px < canvas_width(pre)
                    && 0 <= py < canvas_height(pre)
                    && ray_painted(*cam, rays@[i as int], px, py) {
                    palette_spec(2)
                } else {
                    canvas_pixels(pre)[(px, py)]
                });
                if fov_painted(*cam, rays@, i + 1, px, py) {
                    let j = choose|j: int| 0 <= j < i + 1
                        && ray_painted(*cam, rays@[j], px, py);
                    if j < i {
                        assert(fov_painted(*cam, rays@, i as int, px, py));
                    }
                }
                if fov_painted(*cam, rays@, i as int, px, py) {
                    let j = choose|j: int| 0 <= j < i
                        && ray_painted(*cam, rays@[j], px, py);
                    assert(0 <= j < i + 1 && ray_painted(*cam, rays@[j], px, py));
                }
                if ray_painted(*cam, rays@[i as int], px, py) {
                    assert(0 <= i < i + 1 && ray_painted(*cam, rays@[i as int], px, py));
                }
            }
        }
        i = i + 1;
    }
}

/// The crosshair marking the camera: 21 pixels across and 21 down, centered
/// on the camera position.
pub open spec fn crosshair_spec(cam: Camera, px: int, py: int) -> bool {
    (py == cam.y && cam.x - 10 <= px <= cam.x + 10)
        || (px == cam.x && cam.y - 10 <= py <= cam.y + 10)
}

/// Mark the camera position on the top-down map view with a gold crosshair;
/// pixels off the canvas are silently dropped.
pub fn draw_camera(img: &mut Canvas, camera: &Camera)
    ensures
        canvas_width(*final(img)) == canvas_width(*old(img)),
        canvas_height(*final(img)) == canvas_height(*old(img)),
        forall|px: int, py: int| #![trigger canvas_pixels(*final(img))[(px, py)]]
            canvas_pixels(*final(img))[(px, py)] == if 0 <= px < canvas_width(*old(img))
                && 0 <= py < canvas_height(*old(img)) && crosshair_spec(*camera, px, py) {
                palette_spec(0)
            } else {
                canvas_pixels(*old(img))[(px, py)]
            },
{
    let ghost img0 = *img;
    let gold = palette(0);
    let mut d: u32 = 0;
    while d < 21
        invariant
            gold == palette_spec(0),
            0 <= d <= 21,
            canvas_width(*img) == canvas_width(img0),
            canvas_height(*img) == canvas_height(img0),
            forall|px: int, py: int| #![trigger canvas_pixels(*img)[(px, py)]]
                canvas_pixels(*img)[(px, py)] == if 0 <= px < canvas_width(img0)
                    && 0 <= py < canvas_height(img0) && py == camera.y
                    && camera.x - 10 <= px < camera.x - 10 + d {
                    palette_spec(0)
                } else {
                    canvas_pixels(img0)[(px, py)]
                },
        decreases 21 - d,
    {
        let x: i64 = (camera.x as i64) - 10 + (d as i64);
        let y: i64 = camera.y as i64;
        if 0 <= x && x <= u32::MAX as i64 && 0 <= y && y <= u32::MAX as i64 {
            put_pixel_clipped(img, x as u32, y as u32, gold);
        }
        d = d + 1;
    }
    let ghost mid = *img;
    let mut d: u32 = 0;
    while d < 21
        invariant
            gold == palette_spec(0),
            0 <= d <= 21,
            canvas_width(*img) == canvas_width(img0),
            canvas_height(*img) == canvas_height(img0),
            canvas_width(mid) == canvas_width(img0),
            canvas_height(mid) == canvas_height(img0),
            forall|px: int, py: int| #![trigger canvas_pixels(mid)[(px, py)]]
                canvas_pixels(mid)[(px, py)] == if 0 <= px < canvas_width(img0)
                    && 0 <= py < canvas_height(img0) && py == camera.y
                    && camera.x - 10 <= px <= camera.x + 10 {
                    palette_spec(0)
                } else {
                    canvas_pixels(img0)[(px, py)]
                },
            forall|px: int, py: int| #![trigger canvas_pixels(*img)[(px, py)]]
                canvas_pixels(*img)[(px, py)] == if 0 <= px < canvas_width(img0)
                    && 0 <= py < canvas_height(img0) && px == camera.x
                    && camera.y - 10 <= py < camera.y - 10 + d {
                    palette_spec(0)
                } else {
                    canvas_pixels(mid)[(px, py)]
                },
        decreases 21 - d,
    {
        let x: i64 = camera.x as i64;
        let y: i64 = (camera.y as i64) - 10 + (d as i64);
        if 0 <= x && x <= u32::MAX as i64 && 0 <= y && y <= u32::MAX as i64 {
            put_pixel_clipped(img, x as u32, y as u32, gold);
        }
        d = d + 1;
    }
}

} // verus!
