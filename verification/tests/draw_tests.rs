use raycaster::camera::Camera;
use raycaster::canvas::Canvas;
use raycaster::cast::Ray;
use raycaster::draw::{palette, pick_color, draw_map, draw_view, draw_ray, draw_fov, draw_camera,
    draw_texture};
use raycaster::grid::{GridMap, Wall};
use raycaster::texture::get;

const GOLD: (u8, u8, u8) = (246, 205, 38);
const RUST: (u8, u8, u8) = (86, 50, 38);
const MAROON: (u8, u8, u8) = (51, 28, 23);
const GRAY: (u8, u8, u8) = (57, 57, 57);
const BLACK: (u8, u8, u8) = (32, 32, 32);

#[test]
fn palette_colors() {
    assert_eq!(palette(0), GOLD);
    assert_eq!(palette(1), (172, 107, 38));
    assert_eq!(palette(2), RUST);
    assert_eq!(palette(3), MAROON);
    assert_eq!(palette(4), (187, 127, 87));
    assert_eq!(palette(5), (114, 89, 86));
    assert_eq!(palette(6), GRAY);
    assert_eq!(palette(7), BLACK);
}

#[test]
fn pick_color_per_material() {
    assert_eq!(pick_color(Some(Wall::Dirt)), RUST);
    assert_eq!(pick_color(Some(Wall::Brick)), GOLD);
    assert_eq!(pick_color(Some(Wall::Stone)), GRAY);
    assert_eq!(pick_color(Some(Wall::Crystal)), (187, 127, 87));
    assert_eq!(pick_color(None), BLACK);
}

#[test]
fn canvas_starts_black_and_stores_pixels() {
    let c = Canvas::new(4, 3);
    assert_eq!(c.get_pixel(0, 0), (0, 0, 0));
    assert_eq!(c.get_pixel(3, 2), (0, 0, 0));
    let raw = c.into_raw();
    assert_eq!(raw.len(), 36);
    assert!(raw.iter().all(|b| *b == 0));
}

#[test]
fn canvas_raw_layout_row_major() {
    let mut c = Canvas::new(4, 3);
    let mut m = GridMap::new(1, 1);
    m.draw_rect(0, 0, 1, 1, Some(Wall::Brick));
    // paints pixel (0, 0) gold and nothing else
    draw_map(&mut c, &m);
    assert_eq!(c.get_pixel(0, 0), GOLD);
    assert_eq!(c.get_pixel(1, 0), (0, 0, 0));
    let raw = c.into_raw();
    assert_eq!(&raw[0..3], &[246, 205, 38]);
    assert_eq!(&raw[3..6], &[0, 0, 0]);
}

#[test]
fn draw_map_paints_cells() {
    let mut m = GridMap::new(2, 2);
    m.draw_rect(1, 0, 2, 1, Some(Wall::Stone));
    let mut c = Canvas::new(4, 4);
    draw_map(&mut c, &m);
    assert_eq!(c.get_pixel(1, 0), GRAY);
    assert_eq!(c.get_pixel(0, 0), BLACK); // empty cell paints background
    assert_eq!(c.get_pixel(1, 1), BLACK);
    assert_eq!(c.get_pixel(3, 3), (0, 0, 0)); // past the grid: untouched
}

#[test]
fn draw_view_mirrors_columns() {
    // view index 0 carries the only hit; it must appear in the rightmost
    // screen column, mirrored left-right relative to cast order
    let mut rays: Vec<Ray<Wall>> = Vec::new();
    rays.push(Ray {
        distance: 100,
        angle: 0,
        wall: Some(Wall::Brick),
    });
    for _ in 1..512 {
        rays.push(Ray {
            distance: 512,
            angle: 0,
            wall: None,
        });
    }
    let cam = Camera {
        max_distance: 512,
        ..Camera::default()
    };
    let mut c = Canvas::new(512, 512);
    draw_view(&mut c, &rays, &cam);
    // column 511 shows view index 0: height 14*512/100 = 71
    assert_eq!(c.get_pixel(511, 256), GOLD);
    assert_eq!(c.get_pixel(511, 186), GOLD); // top wall row: 256 - 70
    assert_eq!(c.get_pixel(511, 185), BLACK); // last ceiling row: 256 - 71
    assert_eq!(c.get_pixel(511, 326), GOLD); // bottom wall row: 256 + 70
    assert_eq!(c.get_pixel(511, 327), MAROON); // first floor row: 256 + 71
    // column 0 shows view index 511, a miss of height 14 in background black
    assert_eq!(c.get_pixel(0, 256), BLACK);
    assert_eq!(c.get_pixel(0, 242), BLACK); // ceiling, same color here
    assert_eq!(c.get_pixel(0, 280), MAROON); // floor
    assert_eq!(c.get_pixel(0, 269), BLACK); // bottom wall row: 256 + 13
    assert_eq!(c.get_pixel(0, 270), MAROON); // first floor row: 256 + 14
}

#[test]
fn draw_view_short_view_spares_left_columns() {
    // a one-ray view repaints only the rightmost screen column
    let rays = vec![Ray::<Wall> {
        distance: 100,
        angle: 0,
        wall: Some(Wall::Brick),
    }];
    let cam = Camera {
        max_distance: 512,
        ..Camera::default()
    };
    let mut c = Canvas::new(512, 512);
    draw_view(&mut c, &rays, &cam);
    assert_eq!(c.get_pixel(511, 256), GOLD);
    assert_eq!(c.get_pixel(511, 0), BLACK); // ceiling of the painted column
    assert_eq!(c.get_pixel(510, 256), (0, 0, 0)); // untouched
    assert_eq!(c.get_pixel(0, 256), (0, 0, 0)); // untouched
}

#[test]
fn draw_camera_crosshair_clipped() {
    let mut c = Canvas::new(4, 4);
    let cam = Camera {
        x: 0,
        y: 0,
        ..Camera::default()
    };
    // the crosshair spills past every edge; off-canvas writes are dropped
    draw_camera(&mut c, &cam);
    assert_eq!(c.get_pixel(0, 0), GOLD);
    assert_eq!(c.get_pixel(3, 0), GOLD);
    assert_eq!(c.get_pixel(0, 3), GOLD);
    assert_eq!(c.get_pixel(1, 1), (0, 0, 0));
    assert_eq!(c.get_pixel(3, 3), (0, 0, 0));
}

#[test]
fn draw_ray_traces_to_hit() {
    // camera at (5, 8) facing +x, one ray that hit at distance 10: samples
    // at distances 0..=9 are painted, the hit cell itself is not
    let cam = Camera {
        x: 5,
        y: 8,
        radians: 0,
        max_distance: 16,
        ray_steps: 16,
        ..Camera::default()
    };
    let ray = Ray {
        distance: 10,
        angle: 0,
        wall: Some(Wall::Stone),
    };
    let mut c = Canvas::new(32, 32);
    draw_ray(&mut c, &cam, &ray);
    assert_eq!(c.get_pixel(5, 8), RUST); // distance 0
    assert_eq!(c.get_pixel(14, 8), RUST); // distance 9
    assert_eq!(c.get_pixel(15, 8), (0, 0, 0)); // the hit sample is not painted
    assert_eq!(c.get_pixel(5, 9), (0, 0, 0));
}

#[test]
fn draw_fov_traces_every_ray() {
    let cam = Camera {
        x: 5,
        y: 8,
        radians: 0,
        max_distance: 8,
        ray_steps: 8,
        ..Camera::default()
    };
    let rays = vec![
        Ray::<Wall> {
            distance: 3,
            angle: 0,
            wall: Some(Wall::Stone),
        },
        Ray::<Wall> {
            distance: 8,
            angle: 49152, // straight up: grid y shrinks
            wall: None,
        },
    ];
    let mut c = Canvas::new(32, 32);
    draw_fov(&mut c, &rays, &cam);
    assert_eq!(c.get_pixel(7, 8), RUST); // from the first ray
    assert_eq!(c.get_pixel(8, 8), (0, 0, 0)); // first ray stopped before this
    assert_eq!(c.get_pixel(5, 1), RUST); // from the second ray, 7 cells up
    assert_eq!(c.get_pixel(5, 0), (0, 0, 0)); // miss never reaches the budget
}

#[test]
fn texture_get_samples_texels() {
    let tex: Vec<u8> = (0..=255u8).map(|b| b % 8).collect();
    // pixel (0, 0) samples texel (0, 0), the first byte
    assert_eq!(get(&tex, 0, 0), Some(0));
    // pixels magnify texels four times: (4, 0) samples texel (1, 0)
    assert_eq!(get(&tex, 4, 0), Some(1));
    // (0, 4) samples texel (0, 1), byte 16
    assert_eq!(get(&tex, 0, 4), Some(16 % 8));
    // texels tile every 64 pixels
    assert_eq!(get(&tex, 64, 0), Some(0));
    // a short texture runs out
    assert_eq!(get(&[1, 2, 3], 0, 4), None);
    assert_eq!(get(&[1, 2, 3], 4, 0), Some(2));
}

#[test]
fn draw_texture_overlays_gold() {
    let mut c = Canvas::new(512, 512);
    let cam = Camera {
        x: 5,
        y: 5,
        ..Camera::default()
    };
    draw_camera(&mut c, &cam); // paints a gold crosshair
    let tex = vec![1u8; 256]; // every texel is the orange palette entry
    draw_texture(&tex, &mut c);
    // gold pixels took the texel color
    assert_eq!(c.get_pixel(5, 5), (172, 107, 38));
    assert_eq!(c.get_pixel(0, 5), (172, 107, 38));
    // everything else kept its color
    assert_eq!(c.get_pixel(200, 200), (0, 0, 0));
}
