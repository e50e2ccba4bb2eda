use raycaster::camera::Camera;
use raycaster::cast::{Ray, calculate_ray, cast_ray, cast_fov, RENDER_WIDTH};
use raycaster::grid::{GridMap, Wall};
use raycaster::project::{calculate_heights, HEIGHT_SCALE};

#[test]
fn calculate_ray_axis_aligned() {
    // angle 0: straight along +x
    assert_eq!(calculate_ray(100, 0), (100, 0));
    // a quarter turn: straight along +y (world up; the caster subtracts it)
    assert_eq!(calculate_ray(100, 49152), (0, 100));
    // half a turn: straight along -x
    assert_eq!(calculate_ray(100, 98304), (-100, 0));
    // zero distance goes nowhere whatever the angle
    assert_eq!(calculate_ray(0, 12345), (0, 0));
}

#[test]
fn empty_map_all_rays_miss() {
    // a 512 x 512 empty map: every ray runs its full budget and reports no
    // material, and every column projects the fixed miss height
    let m = GridMap::new(512, 512);
    let cam = Camera {
        x: 256,
        y: 256,
        radians: 0,
        fov: 32768, // a sixth of a turn: pi/3
        max_distance: 512,
        ray_steps: 256,
        ..Camera::default()
    };
    let view = cast_fov(&m, &cam);
    assert_eq!(view.len(), RENDER_WIDTH as usize);
    for ray in &view {
        assert_eq!(ray.distance, 512);
        assert!(ray.wall.is_none());
    }
    let heights = calculate_heights(&view, &cam);
    assert_eq!(heights.len(), 512);
    for h in &heights {
        assert_eq!(*h, HEIGHT_SCALE as u64);
    }
}

#[test]
fn single_column_hit_distance() {
    // one occupied column at world x = 300 spanning the full height; the
    // camera 200 cells west of it, facing straight along +x with a narrow
    // field of view: the center ray hits it at distance 200 exactly (the
    // step granularity here is one cell)
    let mut m = GridMap::new(512, 512);
    m.draw_rect(300, 0, 301, 512, Some(Wall::Brick));
    let cam = Camera {
        x: 100,
        y: 256,
        radians: 0,
        fov: 3072, // one sixty-fourth of a turn
        max_distance: 512,
        ray_steps: 512,
        ..Camera::default()
    };
    let center = cast_ray(&m, &cam, 1, 2);
    assert_eq!(center.angle, 0);
    assert_eq!(center.distance, 200);
    assert_eq!(center.wall, Some(Wall::Brick));
    // the full view's center column reports the same hit
    let view = cast_fov(&m, &cam);
    assert_eq!(view[256].distance, 200);
    assert_eq!(view[256].wall, Some(Wall::Brick));
}

#[test]
fn first_hit_wins() {
    // two walls on the ray's path: the march must stop at the nearer one
    let mut m = GridMap::new(512, 512);
    m.draw_rect(200, 0, 201, 512, Some(Wall::Stone));
    m.draw_rect(400, 0, 401, 512, Some(Wall::Crystal));
    let cam = Camera {
        x: 100,
        y: 256,
        radians: 0,
        fov: 3072,
        max_distance: 512,
        ray_steps: 512,
        ..Camera::default()
    };
    let r = cast_ray(&m, &cam, 1, 2);
    assert_eq!(r.distance, 100);
    assert_eq!(r.wall, Some(Wall::Stone));
}

#[test]
fn ray_angles_are_normalized() {
    let m = GridMap::new(64, 64);
    let cam = Camera {
        x: 32,
        y: 32,
        radians: -5000, // a heading stored un-normalized
        fov: 32768,
        max_distance: 16,
        ray_steps: 16,
        ..Camera::default()
    };
    let view = cast_fov(&m, &cam);
    for ray in &view {
        assert!(0 <= ray.angle && ray.angle < 196608);
    }
}

#[test]
fn heights_follow_inverse_distance() {
    let cam = Camera {
        max_distance: 512,
        ..Camera::default()
    };
    let mk = |d: u32| Ray::<Wall> {
        distance: d,
        angle: 0,
        wall: None,
    };
    let rays = vec![mk(0), mk(100), mk(200), mk(512)];
    let heights = calculate_heights(&rays, &cam);
    // 14 * 512 = 7168, divided by the distance, rounded down
    assert_eq!(heights[1], 71);
    assert_eq!(heights[2], 35);
    assert_eq!(heights[3], 14);
    // a zero distance projects a height no clamp can miss
    assert_eq!(heights[0], u64::MAX);
    // nearer is never shorter
    assert!(heights[1] >= heights[2] && heights[2] >= heights[3]);
}
