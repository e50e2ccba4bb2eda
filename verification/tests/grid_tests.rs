use raycaster::grid::{GridMap, Wall, spooky_map, gen_map, WALL_THICKNESS};

fn cell(m: &GridMap, x: u32, y: u32) -> Option<Wall> {
    m.map[(x + y * m.w) as usize]
}

#[test]
fn it_works() {
    //let result = add(2, 2);
    //assert_eq!(result, 4);
}

#[test]
fn new_map_all_empty() {
    let m = GridMap::new(8, 4);
    assert_eq!(m.w, 8);
    assert_eq!(m.h, 4);
    assert_eq!(m.map.len(), 32);
    for c in &m.map {
        assert!(c.is_none());
    }
}

#[test]
fn draw_rect_stamps_cells() {
    let mut m = GridMap::new(8, 8);
    m.draw_rect(2, 1, 5, 3, Some(Wall::Brick));
    for y in 0..8 {
        for x in 0..8 {
            let expected = if (2..5).contains(&x) && (1..3).contains(&y) {
                Some(Wall::Brick)
            } else {
                None
            };
            assert_eq!(cell(&m, x, y), expected);
        }
    }
    // an empty rectangle stamps nothing
    m.draw_rect(6, 6, 6, 8, Some(Wall::Stone));
    assert_eq!(cell(&m, 6, 6), None);
    // stamping with None clears
    m.draw_rect(2, 1, 5, 3, None);
    assert_eq!(cell(&m, 3, 2), None);
}

#[test]
fn wall_helpers_thickness() {
    assert_eq!(WALL_THICKNESS, 32);
    let mut m = GridMap::new(128, 128);
    m.horiz_wall(10, 20, 40, Some(Wall::Stone));
    assert_eq!(cell(&m, 10, 40), Some(Wall::Stone));
    assert_eq!(cell(&m, 19, 71), Some(Wall::Stone));
    assert_eq!(cell(&m, 20, 40), None);
    assert_eq!(cell(&m, 10, 72), None);
    let mut m2 = GridMap::new(128, 128);
    m2.vert_wall(10, 20, 40, Some(Wall::Crystal));
    assert_eq!(cell(&m2, 40, 10), Some(Wall::Crystal));
    assert_eq!(cell(&m2, 71, 19), Some(Wall::Crystal));
    assert_eq!(cell(&m2, 40, 20), None);
    assert_eq!(cell(&m2, 72, 10), None);
}

#[test]
fn spooky_map_layout() {
    let m = spooky_map();
    assert_eq!(m.w, 512);
    assert_eq!(m.h, 512);
    // outer rim is stone
    assert_eq!(cell(&m, 0, 0), Some(Wall::Stone));
    assert_eq!(cell(&m, 511, 16), Some(Wall::Stone));
    // the doorway at the bottom is dirt
    assert_eq!(cell(&m, 240, 490), Some(Wall::Dirt));
    // open floor in the middle south
    assert_eq!(cell(&m, 240, 464), None);
    // the crystal accent
    assert_eq!(cell(&m, 400, 200), Some(Wall::Crystal));
}

#[test]
fn gen_map_layout() {
    let m = gen_map(512, 512);
    assert_eq!(m.w, 512);
    assert_eq!(m.h, 512);
    // outer walls are dirt
    assert_eq!(cell(&m, 0, 0), Some(Wall::Dirt));
    assert_eq!(cell(&m, 500, 250), Some(Wall::Dirt));
    // the stone column
    assert_eq!(cell(&m, 390, 310), Some(Wall::Stone));
    // open floor
    assert_eq!(cell(&m, 200, 50), None);
}

#[test]
fn generators_are_deterministic() {
    let a = spooky_map();
    let b = spooky_map();
    assert_eq!(a.map, b.map);
    let c = gen_map(512, 480);
    let d = gen_map(512, 480);
    assert_eq!(c.map, d.map);
}

#[test]
fn gen_map_top_border_solid() {
    let m = gen_map(512, 512);
    for y in 0..32 {
        for x in 0..512 {
            assert_eq!(cell(&m, x, y), Some(Wall::Dirt));
        }
    }
}

#[test]
fn into_values_order() {
    let mut m = GridMap::new(2, 2);
    m.draw_rect(0, 0, 1, 1, Some(Wall::Dirt));
    m.draw_rect(1, 1, 2, 2, Some(Wall::Stone));
    let cells = m.into_values();
    assert_eq!(cells.len(), 4);
    assert_eq!(cells[0], Some(Wall::Dirt));
    assert_eq!(cells[1], None);
    assert_eq!(cells[2], None);
    assert_eq!(cells[3], Some(Wall::Stone));
}
