use raycaster::angle::{FULL_TURN, HALF_TURN, QUARTER_TURN, TRIG_ONE, normalize_angle, sin_fp,
    cos_fp};
use raycaster::camera::{Camera, turn, advance};
use raycaster::cast::calculate_angle;

// Angle-unit renderings of the values these tests use: a half turn stands
// for pi, so pi/3 is FULL_TURN / 6 and so on.
const PI_U: i64 = 98304;
const PI_THIRD_U: i64 = 32768;
const TWO_PI_THIRDS_U: i64 = 65536;
const FOUR_PI_THIRDS_U: i64 = 131072;
const FIVE_PI_THIRDS_U: i64 = 163840;

#[test]
fn fov_lowest() {
    let cam = Camera {
        radians: PI_U,
        fov: TWO_PI_THIRDS_U,
        ..Camera::default()
    };
    let result = calculate_angle(&cam, 0, 1);
    assert_eq!(result, TWO_PI_THIRDS_U);
}

#[test]
fn fov_highest() {
    let cam = Camera {
        radians: PI_U,
        fov: TWO_PI_THIRDS_U,
        ..Camera::default()
    };
    let result = calculate_angle(&cam, 1, 1);
    assert_eq!(result, FOUR_PI_THIRDS_U);
}

#[test]
fn angle_at_zero() {
    let cam = Camera {
        radians: 0,
        fov: TWO_PI_THIRDS_U,
        ..Camera::default()
    };
    let result = calculate_angle(&cam, 0, 1);
    assert_eq!(result, FIVE_PI_THIRDS_U);
}

#[test]
fn fov_below_zero() {
    let cam = Camera {
        radians: PI_THIRD_U,
        fov: FOUR_PI_THIRDS_U,
        ..Camera::default()
    };
    let result = calculate_angle(&cam, 0, 1);
    assert_eq!(result, FIVE_PI_THIRDS_U);
}

#[test]
fn fov_above_2_pi() {
    let cam = Camera {
        radians: FIVE_PI_THIRDS_U,
        fov: FOUR_PI_THIRDS_U,
        ..Camera::default()
    };
    let result = calculate_angle(&cam, 1, 1);
    assert_eq!(result, PI_THIRD_U);
}

#[test]
fn angle_center_is_heading() {
    let cam = Camera {
        radians: 12345,
        fov: FOUR_PI_THIRDS_U,
        ..Camera::default()
    };
    assert_eq!(calculate_angle(&cam, 1, 2), 12345);
    assert_eq!(calculate_angle(&cam, 256, 512), 12345);
}

#[test]
fn normalize_lands_in_one_turn() {
    assert_eq!(normalize_angle(0), 0);
    assert_eq!(normalize_angle(-1), FULL_TURN - 1);
    assert_eq!(normalize_angle(FULL_TURN), 0);
    assert_eq!(normalize_angle(FULL_TURN + 7), 7);
    assert_eq!(normalize_angle(-FULL_TURN - 7), FULL_TURN - 7);
    assert_eq!(normalize_angle(400000), 400000 - 2 * FULL_TURN);
    for a in [-400000i64, -1, 0, 1, FULL_TURN, 3 * FULL_TURN + 11] {
        let n = normalize_angle(a);
        assert!(0 <= n && n < FULL_TURN);
    }
}

#[test]
fn sin_cos_exact_values() {
    assert_eq!(sin_fp(0), 0);
    assert_eq!(sin_fp(QUARTER_TURN), TRIG_ONE);
    assert_eq!(sin_fp(HALF_TURN), 0);
    assert_eq!(sin_fp(HALF_TURN + QUARTER_TURN), -TRIG_ONE);
    assert_eq!(cos_fp(0), TRIG_ONE);
    assert_eq!(cos_fp(QUARTER_TURN), 0);
    assert_eq!(cos_fp(HALF_TURN), -TRIG_ONE);
    // a twelfth of a turn is pi/6, whose sine is exactly one half
    assert_eq!(sin_fp(FULL_TURN / 12), TRIG_ONE / 2);
    // cosine of 2*pi/3 is exactly minus one half
    assert_eq!(cos_fp(TWO_PI_THIRDS_U), -(TRIG_ONE / 2));
}

#[test]
fn turn_normalizes_heading() {
    let mut cam = Camera::default();
    turn(&mut cam, FULL_TURN / 16);
    assert_eq!(cam.radians, FULL_TURN / 16);
    turn(&mut cam, -FULL_TURN / 8);
    assert_eq!(cam.radians, FULL_TURN - FULL_TURN / 16);
    assert_eq!(cam.fov, FULL_TURN / 6);
}

#[test]
fn advance_moves_along_heading() {
    let mut cam = Camera {
        x: 100,
        y: 100,
        radians: 0,
        ..Camera::default()
    };
    advance(&mut cam, 10);
    assert_eq!((cam.x, cam.y), (110, 100));
    cam.radians = QUARTER_TURN;
    advance(&mut cam, 10);
    // facing up: grid y shrinks
    assert_eq!((cam.x, cam.y), (110, 90));
    advance(&mut cam, -20);
    assert_eq!((cam.x, cam.y), (110, 110));
}
