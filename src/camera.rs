//! The viewpoint of one frame, derived from the player's pose.

use vstd::prelude::*;
use crate::raycasting::Dir;
use crate::world::{ConfigError, WorldGrid};

verus! {

/// A camera: its sub-cell position, its forward vector, the camera-plane
/// vector (perpendicular to forward, scaled by the tangent of half the field
/// of view), and the ray direction of each screen column, left to right.
pub struct Camera {
    pub x: i64,
    pub y: i64,
    pub dir: Dir,
    pub plane: Dir,
    pub columns: Vec<Dir>,
}

impl Camera {
    /// Determinant of the [plane, forward] matrix.
    pub open spec fn det(&self) -> int {
        self.plane.x * self.dir.y - self.dir.x * self.plane.y
    }

    pub open spec fn wf(&self) -> bool {
        &&& self.dir.wf()
        &&& self.plane.wf()
        &&& self.det() != 0
        &&& forall|i: int| 0 <= i < self.columns@.len() ==> (#[trigger] self.columns@[i]).wf()
    }

    /// Whether the camera stands inside `grid`.
    pub open spec fn inside(&self, grid: WorldGrid) -> bool {
        grid.contains_point(self.x as int, self.y as int)
    }

    /// Builds a camera, refusing one that stands outside the grid or whose
    /// vectors are out of range or parallel.
    pub fn new(grid: &WorldGrid, x: i64, y: i64, dir: Dir, plane: Dir, columns: Vec<Dir>) -> (r:
        Result<Camera, ConfigError>)
        requires
            grid.wf(),
        ensures
            !grid.contains_point(x as int, y as int) ==> r == Err::<Camera, ConfigError>(
                ConfigError::CameraOutsideGrid,
            ),
            grid.contains_point(x as int, y as int) ==> (r is Ok <==> (Camera {
                x,
                y,
                dir,
                plane,
                columns,
            }).wf()),
            r is Err ==> r == Err::<Camera, ConfigError>(ConfigError::CameraOutsideGrid) || r
                == Err::<Camera, ConfigError>(ConfigError::DegenerateCamera),
            r is Ok ==> r->Ok_0 == (Camera { x, y, dir, plane, columns }) && r->Ok_0.inside(*grid),
    {
        assert(grid.width * crate::fixed::ONE <= crate::fixed::MAX_GRID * crate::fixed::ONE);
        assert(grid.height * crate::fixed::ONE <= crate::fixed::MAX_GRID * crate::fixed::ONE);
        if x < 0 || y < 0 || x >= grid.width as i64 * crate::fixed::ONE || y >= grid.height as i64
            * crate::fixed::ONE {
            return Err(ConfigError::CameraOutsideGrid);
        }
        if !dir_ok(dir) || !dir_ok(plane) {
            return Err(ConfigError::DegenerateCamera);
        }
        assert(-crate::fixed::MAX_DIR * crate::fixed::MAX_DIR <= plane.x * dir.y
            <= crate::fixed::MAX_DIR * crate::fixed::MAX_DIR) by (nonlinear_arith)
            requires plane.wf(), dir.wf();
        assert(-crate::fixed::MAX_DIR * crate::fixed::MAX_DIR <= dir.x * plane.y
            <= crate::fixed::MAX_DIR * crate::fixed::MAX_DIR) by (nonlinear_arith)
            requires plane.wf(), dir.wf();
        let det = plane.x as i128 * dir.y as i128 - dir.x as i128 * plane.y as i128;
        if det == 0 {
            return Err(ConfigError::DegenerateCamera);
        }
        let mut i: usize = 0;
        while i < columns.len()
            invariant
                grid.contains_point(x as int, y as int),
                dir.wf(),
                plane.wf(),
                plane.x * dir.y - dir.x * plane.y != 0,
                i <= columns@.len(),
                forall|j: int| 0 <= j < i ==> (#[trigger] columns@[j]).wf(),
            decreases columns@.len() - i,
        {
            if !dir_ok(columns[i]) {
                let ghost cam = Camera { x, y, dir, plane, columns };
                assert(cam.columns@[i as int] == columns@[i as int]);
                assert(!cam.columns@[i as int].wf());
                assert(!cam.wf());
                return Err(ConfigError::DegenerateCamera);
            }
            i = i + 1;
        }
        Ok(Camera { x, y, dir, plane, columns })
    }
}

fn dir_ok(d: Dir) -> (r: bool)
    ensures
        r == d.wf(),
{
    -crate::fixed::MAX_DIR <= d.x && d.x <= crate::fixed::MAX_DIR && -crate::fixed::MAX_DIR <= d.y
        && d.y <= crate::fixed::MAX_DIR && (d.x != 0 || d.y != 0)
}

} // verus!
