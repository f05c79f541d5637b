//! The tile grid the rays march through.

use vstd::prelude::*;
use crate::fixed::{MAX_GRID, ONE};

verus! {

/// Why a level, a screen or a camera cannot be used to draw a frame.
#[derive(Debug, PartialEq, Eq, Structural, Clone, Copy)]
pub enum ConfigError {
    /// The grid has no cells.
    EmptyGrid,
    /// A grid side exceeds [`MAX_GRID`] cells.
    GridTooLarge,
    /// The tile list does not hold exactly width × height codes.
    TileCountMismatch,
    /// A screen side is zero or exceeds the supported size.
    BadScreenSize,
    /// The camera's forward and plane vectors are parallel, or out of range.
    DegenerateCamera,
    /// The camera stands outside the grid.
    CameraOutsideGrid,
}

/// A fixed-size, row-major grid of tile codes. Code 0 is empty floor; any
/// other code is a wall whose texture is `code - 1`.
pub struct WorldGrid {
    pub width: usize,
    pub height: usize,
    pub tiles: Vec<u8>,
}

impl WorldGrid {
    pub open spec fn wf(&self) -> bool {
        &&& 1 <= self.width <= MAX_GRID
        &&& 1 <= self.height <= MAX_GRID
        &&& self.tiles@.len() == self.width * self.height
    }

    pub open spec fn in_bounds(&self, x: int, y: int) -> bool {
        0 <= x < self.width && 0 <= y < self.height
    }

    /// The code at a cell inside the grid.
    pub open spec fn tile(&self, x: int, y: int) -> u8 {
        self.tiles@[y * self.width + x]
    }

    /// Cells outside the grid count as walls.
    pub open spec fn is_wall(&self, x: int, y: int) -> bool {
        !self.in_bounds(x, y) || self.tile(x, y) != 0
    }

    /// Whether a sub-cell position lies inside the grid.
    pub open spec fn contains_point(&self, x: int, y: int) -> bool {
        0 <= x < self.width * ONE && 0 <= y < self.height * ONE
    }

    /// Builds a grid, refusing empty, oversized or inconsistent ones.
    pub fn new(width: usize, height: usize, tiles: Vec<u8>) -> (r: Result<WorldGrid, ConfigError>)
        ensures
            width == 0 || height == 0 ==> r == Err::<WorldGrid, ConfigError>(ConfigError::EmptyGrid),
            width > 0 && height > 0 && (width > MAX_GRID || height > MAX_GRID)
                ==> r == Err::<WorldGrid, ConfigError>(ConfigError::GridTooLarge),
            0 < width <= MAX_GRID && 0 < height <= MAX_GRID && tiles@.len() != width * height
                ==> r == Err::<WorldGrid, ConfigError>(ConfigError::TileCountMismatch),
            0 < width <= MAX_GRID && 0 < height <= MAX_GRID && tiles@.len() == width * height
                ==> r is Ok && r->Ok_0.wf() && r->Ok_0.width == width && r->Ok_0.height == height
                    && r->Ok_0.tiles@ == tiles@,
    {
        if width == 0 || height == 0 {
            return Err(ConfigError::EmptyGrid);
        }
        if width > MAX_GRID || height > MAX_GRID {
            return Err(ConfigError::GridTooLarge);
        }
        match width.checked_mul(height) {
            Some(n) => {
                if tiles.len() != n {
                    return Err(ConfigError::TileCountMismatch);
                }
            },
            None => {
                let _len = tiles.len();
                return Err(ConfigError::TileCountMismatch);
            },
        }
        Ok(WorldGrid { width, height, tiles })
    }

    /// The bordered 8 × 8 starting level.
    pub fn starter_level() -> (r: WorldGrid)
        ensures
            r.wf(),
            r.width == 8 && r.height == 8,
            r.tiles@ == seq![
                1u8, 1, 1, 1, 1, 1, 1, 1,
                1, 0, 0, 0, 0, 0, 0, 1,
                1, 0, 2, 0, 3, 0, 0, 1,
                1, 0, 0, 0, 0, 0, 0, 1,
                1, 0, 0, 0, 0, 0, 0, 1,
                1, 0, 0, 0, 0, 0, 0, 1,
                1, 0, 0, 0, 0, 0, 0, 1,
                1, 1, 1, 1, 1, 1, 1, 1,
            ],
    {
        let tiles: Vec<u8> = vec![
            1, 1, 1, 1, 1, 1, 1, 1,
            1, 0, 0, 0, 0, 0, 0, 1,
            1, 0, 2, 0, 3, 0, 0, 1,
            1, 0, 0, 0, 0, 0, 0, 1,
            1, 0, 0, 0, 0, 0, 0, 1,
            1, 0, 0, 0, 0, 0, 0, 1,
            1, 0, 0, 0, 0, 0, 0, 1,
            1, 1, 1, 1, 1, 1, 1, 1,
        ];
        WorldGrid { width: 8, height: 8, tiles }
    }

    /// The code at cell (x, y), or `None` outside the grid.
    pub fn tile_at(&self, x: i64, y: i64) -> (r: Option<u8>)
        requires
            self.wf(),
        ensures
            self.in_bounds(x as int, y as int) ==> r == Some(self.tile(x as int, y as int)),
            !self.in_bounds(x as int, y as int) ==> r is None,
    {
        if x < 0 || y < 0 || x >= self.width as i64 || y >= self.height as i64 {
            return None;
        }
        let (ux, uy) = (x as usize, y as usize);
        let w = self.width;
        let n = self.tiles.len();
        assert(0 <= uy * w && uy * w + ux < w * self.height) by (nonlinear_arith)
            requires 0 <= ux < w, 0 <= uy < self.height;
        Some(self.tiles[uy * self.width + ux])
    }

    /// Whether a body standing at the sub-cell point (x, y) is blocked: outside
    /// the grid, or on a cell of code 1.
    pub fn is_blocked(&self, x: i64, y: i64) -> (r: bool)
        requires
            self.wf(),
        ensures
            r == (!self.contains_point(x as int, y as int)
                || self.tile(x as int / ONE as int, y as int / ONE as int) == 1),
    {
        if x < 0 || y < 0 || x >= self.width as i64 * ONE || y >= self.height as i64 * ONE {
            return true;
        }
        match self.tile_at(x / ONE, y / ONE) {
            Some(t) => t == 1,
            None => true,
        }
    }
}

} // verus!
