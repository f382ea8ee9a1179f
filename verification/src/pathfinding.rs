use vstd::prelude::*;

verus! {

/// A tile coordinate on the map.
#[derive(Debug, Clone, Copy, PartialEq, Eq, Hash, Structural)]
pub struct TilePos {
    pub x: i16,
    pub y: i16,
}

impl TilePos {
    pub fn new(x: i16, y: i16) -> (t: TilePos)
        ensures
            t.x == x,
            t.y == y,
    {
        TilePos { x, y }
    }
}

/// `|a - b|` over integers.
pub open spec fn abs_diff(a: int, b: int) -> int {
    if a >= b {
        a - b
    } else {
        b - a
    }
}

/// Manhattan distance between two tiles.
pub open spec fn manhattan(a: TilePos, b: TilePos) -> int {
    abs_diff(a.x as int, b.x as int) + abs_diff(a.y as int, b.y as int)
}

impl TilePos {
    /// Manhattan distance `|dx| + |dy|` to `other`.
    pub fn manhattan_dist(self, other: TilePos) -> (d: u32)
        ensures
            d == manhattan(self, other),
    {
        let dx: i32 = if self.x >= other.x {
            self.x as i32 - other.x as i32
        } else {
            other.x as i32 - self.x as i32
        };
        let dy: i32 = if self.y >= other.y {
            self.y as i32 - other.y as i32
        } else {
            other.y as i32 - self.y as i32
        };
        (dx as u32) + (dy as u32)
    }
}

impl Default for TilePos {
    /// The origin tile `(0, 0)`.
    fn default() -> (t: TilePos)
        ensures
            t.x == 0,
            t.y == 0,
    {
        TilePos { x: 0, y: 0 }
    }
}

/// The larger of `v` and zero.
pub open spec fn clamp_nonneg(v: int) -> int {
    if v < 0 {
        0
    } else {
        v
    }
}

/// Row-major walkable grid. Out-of-bounds tiles are treated as non-walkable,
/// so the map edge acts as an implicit wall.
#[derive(Debug, Clone, PartialEq, Eq)]
pub struct WalkGrid {
    width: i16,
    height: i16,
    cells: Vec<bool>,
}

impl WalkGrid {
    /// Well-formedness: non-negative size and one cell per tile.
    pub closed spec fn wf(&self) -> bool {
        &&& self.width >= 0
        &&& self.height >= 0
        &&& self.cells@.len() == self.width * self.height
    }

    /// Width of the grid in tiles.
    pub closed spec fn spec_width(&self) -> int {
        self.width as int
    }

    /// Height of the grid in tiles.
    pub closed spec fn spec_height(&self) -> int {
        self.height as int
    }

    /// The stored walkability of the in-bounds tile `(x, y)`.
    pub closed spec fn cell(&self, x: int, y: int) -> bool {
        self.cells@[y * self.width + x]
    }

    /// Whether `(x, y)` lies inside the grid.
    pub open spec fn in_bounds(&self, x: int, y: int) -> bool {
        0 <= x < self.spec_width() && 0 <= y < self.spec_height()
    }

    /// Walkability as `is_walkable` reports it: in bounds and marked walkable.
    pub open spec fn walkable_at(&self, x: int, y: int) -> bool {
        self.in_bounds(x, y) && self.cell(x, y)
    }

    proof fn lemma_index_in_range(&self, x: int, y: int)
        requires
            self.wf(),
            self.in_bounds(x, y),
        ensures
            0 <= y * self.width + x < self.cells@.len(),
            0 <= y * self.width <= y * self.width + x,
    {
        let w = self.width as int;
        let h = self.height as int;
        assert(y * w + x < h * w) by (nonlinear_arith)
            requires
                0 <= x < w,
                0 <= y < h,
        ;
        assert(0 <= y * w) by (nonlinear_arith)
            requires
                0 <= y,
                0 <= w,
        ;
        assert(h * w == w * h) by (nonlinear_arith);
    }

    /// All-walkable grid of size `width × height`, with negative sizes
    /// clamped to zero.
    pub fn new_all_walkable(width: i16, height: i16) -> (g: WalkGrid)
        ensures
            g.wf(),
            g.spec_width() == clamp_nonneg(width as int),
            g.spec_height() == clamp_nonneg(height as int),
            forall|x: int, y: int| g.in_bounds(x, y) ==> #[trigger] g.cell(x, y),
    {
        let w: i16 = if width < 0 {
            0
        } else {
            width
        };
        let h: i16 = if height < 0 {
            0
        } else {
            height
        };
        assert((w as int) * (h as int) <= 0x4000_0000) by (nonlinear_arith)
            requires
                0 <= w < 0x8000,
                0 <= h < 0x8000,
        ;
        let n: usize = (w as usize) * (h as usize);
        let cells: Vec<bool> = vec![true; n];
        let g = WalkGrid { width: w, height: h, cells };
        assert forall|x: int, y: int| g.in_bounds(x, y) implies #[trigger] g.cell(x, y) by {
            g.lemma_index_in_range(x, y);
        }
        g
    }

    /// Build from row-major cells (`cells[y * width + x]`). The length of
    /// `cells` must be `width * height` after clamping negative sizes to zero.
    pub fn from_row_major(width: i16, height: i16, cells: Vec<bool>) -> (g: WalkGrid)
        requires
            cells@.len() == clamp_nonneg(width as int) * clamp_nonneg(height as int),
        ensures
            g.wf(),
            g.spec_width() == clamp_nonneg(width as int),
            g.spec_height() == clamp_nonneg(height as int),
            forall|x: int, y: int|
                g.in_bounds(x, y) ==> #[trigger] g.cell(x, y) == cells@[y * g.spec_width() + x],
    {
        let w: i16 = if width < 0 {
            0
        } else {
            width
        };
        let h: i16 = if height < 0 {
            0
        } else {
            height
        };
        WalkGrid { width: w, height: h, cells }
    }

    /// The dimensions fit in `i16` and are non-negative on a well-formed grid,
    /// so every walkable tile has `i16` coordinates.
    pub proof fn lemma_dims(&self)
        ensures
            self.spec_width() <= i16::MAX,
            self.spec_height() <= i16::MAX,
            self.wf() ==> 0 <= self.spec_width() && 0 <= self.spec_height(),
    {
    }

    pub fn width(&self) -> (w: i16)
        ensures
            w == self.spec_width(),
    {
        self.width
    }

    pub fn height(&self) -> (h: i16)
        ensures
            h == self.spec_height(),
    {
        self.height
    }

    /// Out-of-bounds tiles are non-walkable; in-bounds tiles report their
    /// stored cell.
    pub fn is_walkable(&self, tile: TilePos) -> (b: bool)
        requires
            self.wf(),
        ensures
            b == self.walkable_at(tile.x as int, tile.y as int),
    {
        if tile.x < 0 || tile.y < 0 || tile.x >= self.width || tile.y >= self.height {
            return false;
        }
        proof {
            self.lemma_index_in_range(tile.x as int, tile.y as int);
        }
        let len: usize = self.cells.len();
        assert((tile.y as usize) * (self.width as usize) == tile.y * self.width);
        let idx: usize = (tile.y as usize) * (self.width as usize) + (tile.x as usize);
        self.cells[idx]
    }

    /// Mark an in-bounds tile walkable or blocked. Out-of-bounds tiles are
    /// ignored.
    pub fn set(&mut self, tile: TilePos, walkable: bool)
        requires
            old(self).wf(),
        ensures
            final(self).wf(),
            final(self).spec_width() == old(self).spec_width(),
            final(self).spec_height() == old(self).spec_height(),
            forall|x: int, y: int|
                #![trigger final(self).cell(x, y)]
                final(self).in_bounds(x, y) ==> final(self).cell(x, y) == if x == tile.x && y
                    == tile.y {
                    walkable
                } else {
                    old(self).cell(x, y)
                },
    {
        if tile.x < 0 || tile.y < 0 || tile.x >= self.width || tile.y >= self.height {
            return;
        }
        proof {
            self.lemma_index_in_range(tile.x as int, tile.y as int);
        }
        let len: usize = self.cells.len();
        assert((tile.y as usize) * (self.width as usize) == tile.y * self.width);
        let idx: usize = (tile.y as usize) * (self.width as usize) + (tile.x as usize);
        let ghost old_grid = *self;
        self.cells.set(idx, walkable);
        proof {
            assert forall|x: int, y: int| #![trigger self.cell(x, y)] self.in_bounds(x, y) implies self.cell(x, y) == if x == tile.x && y == tile.y {
                walkable
            } else {
                old_grid.cell(x, y)
            } by {
                old_grid.lemma_index_in_range(x, y);
                if !(x == tile.x && y == tile.y) {
                    assert(y * self.width + x != tile.y * self.width + tile.x) by (nonlinear_arith)
                        requires
                            0 <= x < self.width,
                            0 <= tile.x < self.width,
                            !(x == tile.x && y == tile.y),
                    ;
                }
            }
        }
    }
}

impl Default for WalkGrid {
    /// The empty grid: no tile is walkable.
    fn default() -> (g: WalkGrid)
        ensures
            g.wf(),
            g.spec_width() == 0,
            g.spec_height() == 0,
    {
        WalkGrid { width: 0, height: 0, cells: Vec::new() }
    }
}

} // verus!
