//! The occupancy grid: a rectangular array of cells, each either empty or
//! holding a wall material, stored row-major as `x + y * w`.

use vstd::prelude::*;
use vstd::arithmetic::div_mod::{lemma_fundamental_div_mod, lemma_mod_division_less_than_divisor,
    lemma_div_pos_is_pos, lemma_multiply_divide_lt};

verus! {

/// The closed set of wall materials; a material only selects a color
/// downstream and carries no other meaning.
#[derive(Clone, Copy, PartialEq, Eq, Structural, Debug)]
pub enum Wall {
    Dirt,
    Brick,
    Stone,
    Crystal,
}

/// Thickness, in cells, of the wall segments that the stamp helpers lay down.
pub const WALL_THICKNESS: u32 = 32;

/// A 2D occupancy grid of `w * h` cells.
pub struct GridMap {
    pub map: Vec<Option<Wall>>,
    pub w: u32,
    pub h: u32,
}

/// A cell index `x + y * w` stays inside a `w * h` grid.
proof fn lemma_grid_index(x: int, y: int, w: int, h: int)
    requires
        0 <= x < w,
        0 <= y < h,
    ensures
        0 <= x + y * w < w * h,
{
    assert(0 <= x + y * w < w * h) by (nonlinear_arith)
        requires 0 <= x < w && 0 <= y < h;
}

impl GridMap {
    /// Shape invariant: the cell array covers exactly `w * h` cells and the
    /// grid has at least one cell each way.
    pub open spec fn wf(self) -> bool {
        &&& self.map@.len() == (self.w as int) * (self.h as int)
        &&& (self.w as int) * (self.h as int) <= u32::MAX
        &&& self.w >= 1
        &&& self.h >= 1
    }

    /// The material of cell `(x, y)`; a coordinate outside the grid holds
    /// nothing.
    pub open spec fn cell(self, x: int, y: int) -> Option<Wall> {
        if 0 <= x < self.w && 0 <= y < self.h {
            self.map@[x + y * (self.w as int)]
        } else {
            None
        }
    }

    /// Build a `w * h` grid with every cell empty.
    pub fn new(w: u32, h: u32) -> (m: Self)
        requires
            w >= 1,
            h >= 1,
            w * h <= u32::MAX,
        ensures
            m.wf(),
            m.w == w,
            m.h == h,
            forall|x: int, y: int| #[trigger] m.cell(x, y) is None,
    {
        let n: u32 = w * h;
        let mut cells: Vec<Option<Wall>> = Vec::new();
        let mut i: u32 = 0;
        while i < n
            invariant
                i <= n,
                cells@.len() == i,
                forall|k: int| 0 <= k < i ==> cells@[k] is None,
            decreases n - i,
        {
            cells.push(None);
            i = i + 1;
        }
        let m = Self { map: cells, w, h };
        proof {
            assert forall|x: int, y: int| #[trigger] m.cell(x, y) is None by {
                if 0 <= x < w && 0 <= y < h {
                    lemma_grid_index(x, y, w as int, h as int);
                }
            }
        }
        m
    }

    /// Read the cell a ray probes; anything off the grid reads as empty.
    pub fn cell_at(&self, x: i64, y: i64) -> (r: Option<Wall>)
        requires
            self.wf(),
        ensures
            r == self.cell(x as int, y as int),
    {
        if 0 <= x && x < self.w as i64 && 0 <= y && y < self.h as i64 {
            proof {
                lemma_grid_index(x as int, y as int, self.w as int, self.h as int);
                assert((x as int) + (y as int) * (self.w as int) < self.map@.len());
            }
            let idx: usize = ((x as u64) + (y as u64) * (self.w as u64)) as usize;
            self.map[idx]
        } else {
            None
        }
    }

    /// Stamp the rectangle `[x1, x2) x [y1, y2)` with a material (or clear it
    /// with `None`); every other cell keeps its value. Callers must keep the
    /// rectangle inside the grid.
    pub fn draw_rect(&mut self, x1: u32, y1: u32, x2: u32, y2: u32, material: Option<Wall>)
        requires
            old(self).wf(),
            x2 <= old(self).w,
            y2 <= old(self).h,
        ensures
            final(self).wf(),
            final(self).w == old(self).w,
            final(self).h == old(self).h,
            forall|x: int, y: int| #[trigger] final(self).cell(x, y)
                == if x1 <= x < x2 && y1 <= y < y2 {
                    material
                } else {
                    old(self).cell(x, y)
                },
    {
        let w = self.w;
        let h = self.h;
        let ghost m0 = *self;
        let mut y: u32 = y1;
        while y < y2
            invariant
                y1 <= y,
                y <= y2 || y == y1,
                x2 <= w,
                y2 <= h,
                self.wf(),
                self.w == w,
                self.h == h,
                m0.w == w,
                m0.h == h,
                forall|xx: int, yy: int| #[trigger] self.cell(xx, yy)
                    == if x1 <= xx < x2 && y1 <= yy < y && yy < y2 {
                        material
                    } else {
                        m0.cell(xx, yy)
                    },
            decreases y2 - y,
        {
            let mut x: u32 = x1;
            let ghost row0 = *self;
            while x < x2
                invariant
                    x1 <= x,
                    x <= x2 || x == x1,
                    x2 <= w,
                    y2 <= h,
                    y1 <= y < y2,
                    self.wf(),
                    self.w == w,
                    self.h == h,
                    row0.w == w,
                    row0.h == h,
                    forall|xx: int, yy: int| #[trigger] self.cell(xx, yy)
                        == if x1 <= xx < x && yy == y {
                            material
                        } else {
                            row0.cell(xx, yy)
                        },
                decreases x2 - x,
            {
                proof {
                    lemma_grid_index(x as int, y as int, w as int, h as int);
                    assert((x as int) + (y as int) * (w as int) < self.map@.len());
                }
                let idx: usize = ((x as u64) + (y as u64) * (w as u64)) as usize;
                let ghost pre = *self;
                self.map.set(idx, material);
                proof {
                    assert forall|xx: int, yy: int| #[trigger] self.cell(xx, yy)
                        == if x1 <= xx < x + 1 && yy == y {
                            material
                        } else {
                            row0.cell(xx, yy)
                        } by {
                        assert(pre.cell(xx, yy) == if x1 <= xx < x && yy == y {
                            material
                        } else {
                            row0.cell(xx, yy)
                        });
                        if 0 <= xx < w && 0 <= yy < h {
                            lemma_grid_index(xx, yy, w as int, h as int);
                            if xx + yy * (w as int) == x + y * (w as int) {
                                assert(xx == x && yy == y) by (nonlinear_arith)
                                    requires
                                        0 <= xx < w,
                                        0 <= yy < h,
                                        0 <= x < w,
                                        0 <= y < h,
                                        xx + yy * (w as int) == x + y * (w as int);
                            } else {
                                assert(self.cell(xx, yy) == pre.cell(xx, yy));
                            }
                        }
                    }
                }
                x = x + 1;
            }
            proof {
                assert forall|xx: int, yy: int| #[trigger] self.cell(xx, yy)
                    == if x1 <= xx < x2 && y1 <= yy < y + 1 && yy < y2 {
                        material
                    } else {
                        m0.cell(xx, yy)
                    } by {
                    assert(self.cell(xx, yy) == if x1 <= xx < x2 && yy == y {
                        material
                    } else {
                        row0.cell(xx, yy)
                    });
                    assert(row0.cell(xx, yy) == if x1 <= xx < x2 && y1 <= yy < y && yy < y2 {
                        material
                    } else {
                        m0.cell(xx, yy)
                    });
                }
            }
            y = y + 1;
        }
    }

    /// A horizontal wall segment: the rectangle `[x1, x2)` across, one wall
    /// thickness tall, starting at row `y1`.
    pub fn horiz_wall(&mut self, x1: u32, x2: u32, y1: u32, material: Option<Wall>)
        requires
            old(self).wf(),
            x2 <= old(self).w,
            y1 + WALL_THICKNESS <= old(self).h,
        ensures
            final(self).wf(),
            final(self).w == old(self).w,
            final(self).h == old(self).h,
            forall|x: int, y: int| #[trigger] final(self).cell(x, y)
                == if x1 <= x < x2 && y1 <= y < y1 + WALL_THICKNESS {
                    material
                } else {
                    old(self).cell(x, y)
                },
    {
        self.draw_rect(x1, y1, x2, y1 + WALL_THICKNESS, material);
    }

    /// A vertical wall segment: the rectangle `[y1, y2)` down, one wall
    /// thickness wide, starting at column `x1`.
    pub fn vert_wall(&mut self, y1: u32, y2: u32, x1: u32, material: Option<Wall>)
        requires
            old(self).wf(),
            y2 <= old(self).h,
            x1 + WALL_THICKNESS <= old(self).w,
        ensures
            final(self).wf(),
            final(self).w == old(self).w,
            final(self).h == old(self).h,
            forall|x: int, y: int| #[trigger] final(self).cell(x, y)
                == if x1 <= x < x1 + WALL_THICKNESS && y1 <= y < y2 {
                    material
                } else {
                    old(self).cell(x, y)
                },
    {
        self.draw_rect(x1, y1, x1 + WALL_THICKNESS, y2, material);
    }

    /// Give up the grid and keep only the cell array.
    pub fn into_values(self) -> (r: Vec<Option<Wall>>)
        ensures
            r@ == self.map@,
    {
        self.map
    }
}

/// Whether `(x, y)` lies in the rectangle `[x1, x2) x [y1, y2)`.
pub open spec fn in_rect(x: int, y: int, x1: int, y1: int, x2: int, y2: int) -> bool {
    x1 <= x < x2 && y1 <= y < y2
}

/// The cell layout `spooky_map` stamps, one arm per stamped rectangle with
/// the last stamp winning, so the arms stand in reverse stamp order.
pub open spec fn spooky_cell(x: int, y: int) -> Option<Wall> {
    if in_rect(x, y, 416, 384, 480, 416) {
        Some(Wall::Stone)
    } else if in_rect(x, y, 256, 384, 384, 416) {
        Some(Wall::Stone)
    } else if in_rect(x, y, 64, 384, 224, 416) {
        Some(Wall::Stone)
    } else if in_rect(x, y, 288, 384, 320, 480) {
        Some(Wall::Stone)
    } else if in_rect(x, y, 160, 384, 192, 480) {
        Some(Wall::Stone)
    } else if in_rect(x, y, 64, 384, 96, 448) {
        Some(Wall::Stone)
    } else if in_rect(x, y, 416, 64, 448, 288) {
        Some(Wall::Stone)
    } else if in_rect(x, y, 64, 320, 480, 352) {
        Some(Wall::Stone)
    } else if in_rect(x, y, 384, 192, 416, 224) {
        Some(Wall::Crystal)
    } else if in_rect(x, y, 320, 256, 352, 288) {
        Some(Wall::Brick)
    } else if in_rect(x, y, 224, 256, 256, 288) {
        Some(Wall::Brick)
    } else if in_rect(x, y, 128, 256, 160, 288) {
        Some(Wall::Brick)
    } else if in_rect(x, y, 320, 128, 352, 160) {
        Some(Wall::Brick)
    } else if in_rect(x, y, 224, 128, 256, 160) {
        Some(Wall::Brick)
    } else if in_rect(x, y, 128, 128, 160, 160) {
        Some(Wall::Brick)
    } else if in_rect(x, y, 96, 64, 448, 96) {
        Some(Wall::Stone)
    } else if in_rect(x, y, 64, 224, 96, 352) {
        Some(Wall::Stone)
    } else if in_rect(x, y, 64, 64, 96, 192) {
        Some(Wall::Stone)
    } else if in_rect(x, y, 224, 480, 256, 512) {
        Some(Wall::Dirt)
    } else if in_rect(x, y, 480, 0, 512, 512) {
        Some(Wall::Stone)
    } else if in_rect(x, y, 0, 0, 32, 512) {
        Some(Wall::Stone)
    } else if in_rect(x, y, 0, 480, 512, 512) {
        Some(Wall::Stone)
    } else if in_rect(x, y, 0, 0, 512, 32) {
        Some(Wall::Stone)
    } else {
        None
    }
}

/// A fixed 512 x 512 demonstration level: an outer rim of stone with a dirt
/// doorway at the bottom, and stone, brick and crystal structures inside.
/// Every cell is pinned by `spooky_cell`, so every call returns the same
/// map; rays treat the layout as arbitrary grid content.
pub fn spooky_map() -> (m: GridMap)
    ensures
        m.wf(),
        m.w == 512,
        m.h == 512,
        forall|x: int, y: int| #[trigger] m.cell(x, y) == spooky_cell(x, y),
{
    let mut m = GridMap::new(512, 512);

    let mut material: Option<Wall>;

    material = Some(Wall::Stone);
    m.horiz_wall(0, 512, 0, material);
    m.horiz_wall(0, 512, 512 - 32, material);
    m.vert_wall(0, 512, 0, material);
    m.vert_wall(0, 512, 512 - 32, material);

    material = Some(Wall::Dirt);
    m.horiz_wall(224, 256, 480, material);

    material = Some(Wall::Stone);
    m.vert_wall(64, 192, 64, material);
    m.vert_wall(224, 352, 64, material);
    m.vert_wall(384, 448, 64, material);

    m.horiz_wall(96, 448, 64, material);

    material = Some(Wall::Brick);
    m.horiz_wall(128, 160, 128, material);
    m.horiz_wall(224, 256, 128, material);
    m.horiz_wall(320, 352, 128, material);

    m.horiz_wall(128, 160, 256, material);
    m.horiz_wall(224, 256, 256, material);
    m.horiz_wall(320, 352, 256, material);

    material = Some(Wall::Crystal);
    m.horiz_wall(384, 416, 192, material);

    material = Some(Wall::Stone);
    m.horiz_wall(64, 480, 320, material);

    m.vert_wall(64, 288, 416, material);

    m.vert_wall(384, 448, 64, material);
    m.vert_wall(384, 480, 160, material);
    m.vert_wall(384, 480, 288, material);

    m.horiz_wall(64, 224, 384, material);
    m.horiz_wall(256, 384, 384, material);
    m.horiz_wall(416, 480, 384, material);

    proof {
        assert forall|x: int, y: int| #[trigger] m.cell(x, y) == spooky_cell(x, y) by {
        }
    }
    m
}

/// The cell layout `gen_map` stamps into a `w * h` grid, one arm per
/// stamped rectangle with the last stamp winning, so the arms stand in
/// reverse stamp order.
pub open spec fn gen_cell(w: int, h: int, x: int, y: int) -> Option<Wall> {
    if in_rect(x, y, 380, 300, 412, 332) {
        Some(Wall::Stone)
    } else if in_rect(x, y, 300, 450, 332, h) {
        Some(Wall::Brick)
    } else if in_rect(x, y, 350, 450, 382, h) {
        Some(Wall::Brick)
    } else if in_rect(x, y, 400, 450, 432, h) {
        Some(Wall::Brick)
    } else if in_rect(x, y, 282, 170, 450, 202) {
        Some(Wall::Brick)
    } else if in_rect(x, y, 340, 100, w, 132) {
        Some(Wall::Brick)
    } else if in_rect(x, y, 100, 100, 250, 132) {
        Some(Wall::Brick)
    } else if in_rect(x, y, 250, 100, 282, h) {
        Some(Wall::Brick)
    } else if in_rect(x, y, 0, 200, 32, 400) {
        Some(Wall::Stone)
    } else if in_rect(x, y, 150, 320, 182, 432) {
        Some(Wall::Stone)
    } else if in_rect(x, y, 150, 200, 182, 280) {
        Some(Wall::Stone)
    } else if in_rect(x, y, 0, 400, 150, 432) {
        Some(Wall::Stone)
    } else if in_rect(x, y, 0, 200, 150, 232) {
        Some(Wall::Stone)
    } else if in_rect(x, y, 0, h - 32, w, h) {
        Some(Wall::Dirt)
    } else if in_rect(x, y, w - 32, 0, w, h) {
        Some(Wall::Dirt)
    } else if in_rect(x, y, 0, 0, w, 32) {
        Some(Wall::Dirt)
    } else if in_rect(x, y, 0, 0, 32, h) {
        Some(Wall::Dirt)
    } else {
        None
    }
}

/// A hard-coded test level of the given size: outer dirt walls, a little
/// stone room, a brick hallway, brick bumps and a stone column. The layout
/// needs at least 450 x 432 cells; every cell is pinned by `gen_cell`, so
/// equal sizes give equal maps; rays treat the layout as arbitrary grid
/// content.
pub fn gen_map(w: u32, h: u32) -> (m: GridMap)
    requires
        w >= 450,
        h >= 432,
        w * h <= u32::MAX,
    ensures
        m.wf(),
        m.w == w,
        m.h == h,
        forall|x: int, y: int| #[trigger] m.cell(x, y) == gen_cell(w as int, h as int, x, y),
{
    let mut m = GridMap::new(w, h);

    // outer walls
    let mut material: Option<Wall> = Some(Wall::Dirt);
    m.draw_rect(0, 0, WALL_THICKNESS, h, material);
    m.draw_rect(0, 0, w, WALL_THICKNESS, material);
    m.draw_rect(w - WALL_THICKNESS, 0, w, h, material);
    m.draw_rect(0, h - WALL_THICKNESS, w, h, material);

    // inner walls
    // little room
    material = Some(Wall::Stone);
    m.horiz_wall(0, 150, 200, material);
    m.horiz_wall(0, 150, 400, material);
    m.vert_wall(200, 280, 150, material);
    m.vert_wall(320, 400 + WALL_THICKNESS, 150, material);
    m.vert_wall(200, 400, 0, material);
    // hallway
    material = Some(Wall::Brick);
    m.vert_wall(100, h, 250, material);
    m.horiz_wall(100, 250, 100, material);
    m.horiz_wall(340, w, 100, material);
    m.horiz_wall(250 + WALL_THICKNESS, 450, 170, material);
    // bumps
    material = Some(Wall::Brick);
    m.vert_wall(450, h, 400, material);
    m.vert_wall(450, h, 350, material);
    m.vert_wall(450, h, 300, material);
    // columns
    material = Some(Wall::Stone);
    m.vert_wall(300, 300 + WALL_THICKNESS, 380, material);

    proof {
        assert forall|x: int, y: int| #[trigger] m.cell(x, y)
            == gen_cell(w as int, h as int, x, y) by {
        }
    }
    m
}

/// Two well-formed grids of the same size that agree on every cell hold the
/// same cell array. With the generators' ensures this pins their results
/// completely: every call of `spooky_map` (or of `gen_map` on one size)
/// returns the same map.
pub proof fn lemma_grid_determined(a: GridMap, b: GridMap)
    requires
        a.wf(),
        b.wf(),
        a.w == b.w,
        a.h == b.h,
        forall|x: int, y: int| #[trigger] a.cell(x, y) == b.cell(x, y),
    ensures
        a.map@ == b.map@,
{
    let w = a.w as int;
    let h = a.h as int;
    assert forall|i: int| 0 <= i < a.map@.len() implies a.map@[i] == b.map@[i] by {
        let x = i % w;
        let y = i / w;
        lemma_fundamental_div_mod(i, w);
        lemma_mod_division_less_than_divisor(i, w);
        lemma_div_pos_is_pos(i, w);
        lemma_multiply_divide_lt(i, w, h);
        assert(w * y == y * w) by (nonlinear_arith);
        assert(a.cell(x, y) == a.map@[i]);
        assert(b.cell(x, y) == b.map@[i]);
    }
    assert(a.map@ =~= b.map@);
}

} // verus!
