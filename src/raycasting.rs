//! Digital differential analysis: marching a ray from the camera through the
//! grid, one cell boundary at a time, until it strikes a wall.
//!
//! A ray starts at a sub-cell point `p` and runs along an integer direction
//! `d`. The march tracks, for each axis, how far (in sub-cell units measured
//! along that axis) the ray must travel to reach the next cell boundary; the
//! axis whose boundary is nearer along the ray is stepped. Comparisons are made
//! by cross-multiplication, so no division happens during the march.

use vstd::prelude::*;
use crate::fixed::{
    abs, lemma_floor_of_negation, lemma_floor_shift, lemma_mod_of_negation, MAX_DIR, MAX_GRID,
    ONE,
};
use crate::world::WorldGrid;

verus! {

/// A direction vector on the fixed-point scale; a unit vector has length
/// [`ONE`].
#[derive(Clone, Copy, Debug, PartialEq, Eq, Structural)]
pub struct Dir {
    pub x: i64,
    pub y: i64,
}

impl Dir {
    pub open spec fn wf(&self) -> bool {
        &&& -MAX_DIR <= self.x <= MAX_DIR
        &&& -MAX_DIR <= self.y <= MAX_DIR
        &&& (self.x != 0 || self.y != 0)
    }
}

/// The outcome of casting one ray.
#[derive(Clone, Copy, Debug, PartialEq, Eq, Structural)]
pub struct Ray {
    /// Distance to the struck face, on the fixed-point scale, measured in
    /// lengths of the direction vector.
    pub distance: i64,
    /// Position of the hit along the struck face, in `[0, ONE)`.
    pub texture_coord: i64,
    /// Whether the last step crossed an x boundary (an x-facing face).
    pub vertical_hit: bool,
    /// Whether the march ended on a wall. A cast always does: a cell outside
    /// the grid counts as a wall.
    pub hit: bool,
    /// Code of the struck tile, or 0 when the ray left the grid (the virtual
    /// wall around it).
    pub texture_id: u8,
}

impl Ray {
    pub fn new(distance: i64, texture_coord: i64, vertical_hit: bool, hit: bool, texture_id: u8)
        -> (r: Ray)
        ensures
            r.distance == distance && r.texture_coord == texture_coord
                && r.vertical_hit == vertical_hit && r.hit == hit && r.texture_id == texture_id,
    {
        Ray { distance, texture_coord, vertical_hit, hit, texture_id }
    }
}

/// The cell step along an axis: +1 for a positive component, otherwise −1.
pub open spec fn step_of(d: int) -> int {
    if d > 0 { 1 } else { -1 }
}

/// Travel along one axis from `p` to the first cell boundary the ray meets.
pub open spec fn first_side(p: int, d: int) -> int {
    if d > 0 { ONE - p % (ONE as int) } else { p % (ONE as int) }
}

/// The state of a march: the current cell, the axis travel to the next x and
/// y boundaries, and which axis was stepped last.
pub struct DdaState {
    pub map_x: int,
    pub map_y: int,
    pub side_x: int,
    pub side_y: int,
    pub vertical: bool,
}

pub open spec fn dda_start(px: int, py: int, d: Dir) -> DdaState {
    DdaState {
        map_x: px / (ONE as int),
        map_y: py / (ONE as int),
        side_x: first_side(px, d.x as int),
        side_y: first_side(py, d.y as int),
        vertical: false,
    }
}

/// The x boundary is strictly nearer along the ray than the y boundary. An
/// axis the ray does not move along is never reached.
pub open spec fn steps_x(d: Dir, s: DdaState) -> bool {
    if d.x == 0 {
        false
    } else if d.y == 0 {
        true
    } else {
        s.side_x * abs(d.y as int) < s.side_y * abs(d.x as int)
    }
}

/// Crossing the next x boundary.
pub open spec fn step_along_x(d: Dir, s: DdaState) -> DdaState {
    DdaState { map_x: s.map_x + step_of(d.x as int), side_x: s.side_x + ONE, vertical: true, ..s }
}

/// Crossing the next y boundary.
pub open spec fn step_along_y(d: Dir, s: DdaState) -> DdaState {
    DdaState { map_y: s.map_y + step_of(d.y as int), side_y: s.side_y + ONE, vertical: false, ..s }
}

/// One march step; a tie goes to the y axis.
pub open spec fn dda_step(d: Dir, s: DdaState) -> DdaState {
    if steps_x(d, s) { step_along_x(d, s) } else { step_along_y(d, s) }
}

/// Steps until a wall cell is entered, or the budget runs out.
pub open spec fn dda_march(g: WorldGrid, d: Dir, s: DdaState, fuel: nat) -> DdaState
    decreases fuel,
{
    let n = dda_step(d, s);
    if fuel == 0 || g.is_wall(n.map_x, n.map_y) {
        n
    } else {
        dda_march(g, d, n, (fuel - 1) as nat)
    }
}

/// A budget of steps that always suffices (see [`lemma_ray_always_hits`]).
pub open spec fn march_budget(g: WorldGrid) -> nat {
    (g.width + g.height) as nat
}

/// The state in which the ray from (px, py) along `d` strikes a wall.
pub open spec fn dda_hit(g: WorldGrid, px: int, py: int, d: Dir) -> DdaState {
    dda_march(g, d, dda_start(px, py, d), march_budget(g))
}

/// Cells the march can still enter, along both axes, before leaving the grid.
pub open spec fn cells_left(g: WorldGrid, d: Dir, s: DdaState) -> int {
    (if d.x > 0 { g.width - s.map_x } else { s.map_x + 1 })
        + (if d.y > 0 { g.height - s.map_y } else { s.map_y + 1 })
}

/// Travel along the stepped axis from the camera to the struck face.
pub open spec fn hit_travel(s: DdaState) -> int {
    if s.vertical { s.side_x - ONE } else { s.side_y - ONE }
}

/// The direction component along the stepped axis.
pub open spec fn hit_axis(d: Dir, s: DdaState) -> int {
    if s.vertical { d.x as int } else { d.y as int }
}

/// Distance to the struck face in direction-vector lengths, on the fixed-point
/// scale (rounded down).
pub open spec fn hit_distance(d: Dir, s: DdaState) -> int {
    hit_travel(s) * ONE / abs(hit_axis(d, s))
}

/// The coordinate of the hit point along the struck face (y for an x-facing
/// face, x for a y-facing one), rounded down to a sub-cell unit.
pub open spec fn hit_face_coord(px: int, py: int, d: Dir, s: DdaState) -> int {
    if s.vertical {
        (py * abs(d.x as int) + hit_travel(s) * d.y) / abs(d.x as int)
    } else {
        (px * abs(d.y as int) + hit_travel(s) * d.x) / abs(d.y as int)
    }
}

/// The ray that casting from (px, py) along `d` reports.
pub open spec fn cast_result(g: WorldGrid, px: int, py: int, d: Dir) -> Ray {
    let s = dda_hit(g, px, py, d);
    Ray {
        distance: hit_distance(d, s) as i64,
        texture_coord: (hit_face_coord(px, py, d, s) % (ONE as int)) as i64,
        vertical_hit: s.vertical,
        hit: true,
        texture_id: if g.in_bounds(s.map_x, s.map_y) { g.tile(s.map_x, s.map_y) } else { 0 },
    }
}

proof fn lemma_march_hits(g: WorldGrid, d: Dir, s: DdaState, fuel: nat)
    requires
        g.wf(),
        d.wf(),
        g.in_bounds(s.map_x, s.map_y),
        cells_left(g, d, s) <= fuel,
    ensures
        g.is_wall(dda_march(g, d, s, fuel).map_x, dda_march(g, d, s, fuel).map_y),
        abs(dda_march(g, d, s, fuel).map_x - s.map_x) + abs(dda_march(g, d, s, fuel).map_y
            - s.map_y) <= cells_left(g, d, s),
        dda_march(g, d, s, fuel).side_x >= s.side_x,
        dda_march(g, d, s, fuel).side_y >= s.side_y,
    decreases fuel,
{
    let n = dda_step(d, s);
    if !(fuel == 0 || g.is_wall(n.map_x, n.map_y)) {
        lemma_march_hits(g, d, n, (fuel - 1) as nat);
    }
}

/// Every ray cast from inside the grid strikes a wall (a wall tile, or the
/// outside of the grid) after entering at most width + height cells, whatever
/// its direction.
pub proof fn lemma_ray_always_hits(g: WorldGrid, px: int, py: int, d: Dir)
    requires
        g.wf(),
        g.contains_point(px, py),
        d.wf(),
    ensures
        g.is_wall(dda_hit(g, px, py, d).map_x, dda_hit(g, px, py, d).map_y),
        abs(dda_hit(g, px, py, d).map_x - px / (ONE as int)) + abs(dda_hit(g, px, py, d).map_y
            - py / (ONE as int)) <= g.width + g.height,
{
    let s = dda_start(px, py, d);
    assert(0 <= px / (ONE as int) < g.width) by {
        vstd::arithmetic::div_mod::lemma_div_is_ordered(px, g.width * ONE - 1, ONE as int);
        vstd::arithmetic::div_mod::lemma_div_by_multiple(g.width as int, ONE as int);
        vstd::arithmetic::div_mod::lemma_div_pos_is_pos(px, ONE as int);
        assert(g.width * ONE - 1 < g.width * ONE);
        vstd::arithmetic::div_mod::lemma_div_is_ordered(g.width * ONE - 1, g.width * ONE, ONE as int);
        lemma_floor_shift(g.width as int - 1, ONE - 1, ONE as int);
    }
    assert(0 <= py / (ONE as int) < g.height) by {
        vstd::arithmetic::div_mod::lemma_div_is_ordered(py, g.height * ONE - 1, ONE as int);
        vstd::arithmetic::div_mod::lemma_div_pos_is_pos(py, ONE as int);
        lemma_floor_shift(g.height as int - 1, ONE - 1, ONE as int);
    }
    lemma_march_hits(g, d, s, march_budget(g));
}

/// The axis travels of a state agree with its cell: each is the distance from
/// the ray's origin to the next boundary of the current cell on that axis.
pub open spec fn aligned(px: int, py: int, d: Dir, s: DdaState) -> bool {
    &&& (d.x > 0 ==> s.side_x == (s.map_x + 1) * ONE - px)
    &&& (d.x <= 0 ==> s.side_x == px - s.map_x * ONE)
    &&& (d.y > 0 ==> s.side_y == (s.map_y + 1) * ONE - py)
    &&& (d.y <= 0 ==> s.side_y == py - s.map_y * ONE)
}

/// The line of the struck face on the stepped axis.
pub open spec fn face_line(d: Dir, s: DdaState) -> int {
    if s.vertical {
        if d.x > 0 { s.map_x * ONE } else { (s.map_x + 1) * ONE }
    } else {
        if d.y > 0 { s.map_y * ONE } else { (s.map_y + 1) * ONE }
    }
}

proof fn lemma_march_aligned(g: WorldGrid, px: int, py: int, d: Dir, s: DdaState, fuel: nat)
    requires
        d.wf(),
        aligned(px, py, d, s),
    ensures
        aligned(px, py, d, dda_march(g, d, s, fuel)),
        dda_march(g, d, s, fuel).vertical ==> d.x != 0 && dda_march(g, d, s, fuel).side_x - ONE
            == (if d.x > 0 { dda_march(g, d, s, fuel).map_x * ONE - px }
                else { px - (dda_march(g, d, s, fuel).map_x + 1) * ONE }),
        !dda_march(g, d, s, fuel).vertical ==> d.y != 0 && dda_march(g, d, s, fuel).side_y - ONE
            == (if d.y > 0 { dda_march(g, d, s, fuel).map_y * ONE - py }
                else { py - (dda_march(g, d, s, fuel).map_y + 1) * ONE }),
    decreases fuel,
{
    let n = dda_step(d, s);
    if !(fuel == 0 || g.is_wall(n.map_x, n.map_y)) {
        lemma_march_aligned(g, px, py, d, n, (fuel - 1) as nat);
    }
}

/// Round trip of the texture coordinate: the point reached by travelling the
/// reported distance lies exactly on the struck face, and the texture
/// coordinate is the other coordinate of that point, modulo one cell. For an
/// x-facing face that is the world y of the hit; for a y-facing one, its x.
pub proof fn lemma_texture_coord_round_trip(g: WorldGrid, px: int, py: int, d: Dir, r: Ray)
    requires
        g.wf(),
        g.contains_point(px, py),
        d.wf(),
        r == cast_result(g, px, py, d),
    ensures
        ({
            let s = dda_hit(g, px, py, d);
            let t = hit_travel(s);
            &&& r.vertical_hit ==> px + step_of(d.x as int) * t == face_line(d, s)
                && r.texture_coord == ((py * abs(d.x as int) + t * d.y) / abs(d.x as int)) % (
            ONE as int)
            &&& !r.vertical_hit ==> py + step_of(d.y as int) * t == face_line(d, s)
                && r.texture_coord == ((px * abs(d.y as int) + t * d.x) / abs(d.y as int)) % (
            ONE as int)
        }),
{
    let s0 = dda_start(px, py, d);
    vstd::arithmetic::div_mod::lemma_fundamental_div_mod(px, ONE as int);
    vstd::arithmetic::div_mod::lemma_fundamental_div_mod(py, ONE as int);
    assert(aligned(px, py, d, s0));
    lemma_march_aligned(g, px, py, d, s0, march_budget(g));
}

/// At a corner, where the next x and y boundaries are equally far along the
/// ray, stepping either axis yields the same distance; and that distance is
/// positive whenever the boundary is ahead of the ray's origin.
pub proof fn lemma_corner_tie_distance(d: Dir, s: DdaState)
    requires
        d.wf(),
        d.x != 0,
        d.y != 0,
        s.side_x >= 0,
        s.side_y >= 0,
        s.side_x * abs(d.y as int) == s.side_y * abs(d.x as int),
    ensures
        hit_distance(d, step_along_x(d, s)) == hit_distance(d, step_along_y(d, s)),
        s.side_x > 0 ==> hit_travel(step_along_x(d, s)) > 0 && hit_travel(step_along_y(d, s)) > 0,
{
    let ax = abs(d.x as int);
    let ay = abs(d.y as int);
    let a = s.side_x * ONE;
    let c = s.side_y * ONE;
    assert(a * ay == c * ax) by (nonlinear_arith)
        requires s.side_x * ay == s.side_y * ax, a == s.side_x * ONE, c == s.side_y * ONE;
    let q = a / ax;
    let r = a % ax;
    vstd::arithmetic::div_mod::lemma_fundamental_div_mod(a, ax);
    vstd::arithmetic::div_mod::lemma_mod_bound(a, ax);
    assert(c == q * ay + (r * ay) / ax && 0 <= (r * ay) / ax < ay) by {
        assert(ax * (c - q * ay) == r * ay) by (nonlinear_arith)
            requires a == ax * q + r, a * ay == c * ax;
        vstd::arithmetic::div_mod::lemma_div_multiples_vanish(c - q * ay, ax);
        assert((ax * (c - q * ay)) / ax == c - q * ay);
        assert(r * ay < ax * ay) by (nonlinear_arith)
            requires 0 <= r < ax, ay > 0;
        assert(0 <= r * ay) by (nonlinear_arith)
            requires 0 <= r, ay > 0;
        assert(c - q * ay < ay) by (nonlinear_arith)
            requires ax * (c - q * ay) == r * ay, r * ay < ax * ay, ax > 0;
        assert(0 <= c - q * ay) by (nonlinear_arith)
            requires ax * (c - q * ay) == r * ay, 0 <= r * ay, ax > 0;
    }
    vstd::arithmetic::div_mod::lemma_fundamental_div_mod_converse(c, ay, q, (r * ay) / ax);
    if s.side_x > 0 {
        assert(s.side_y > 0) by (nonlinear_arith)
            requires s.side_x * ay == s.side_y * ax, s.side_x > 0, ax > 0, ay > 0, s.side_y >= 0;
    }
}

/// The fixed-point absolute value of a bounded component.
fn abs_component(v: i64) -> (r: i64)
    requires
        -MAX_DIR <= v <= MAX_DIR,
    ensures
        r == abs(v as int),
{
    if v < 0 { -v } else { v }
}

/// The coordinate of the hit point along the struck face: from `start`, the
/// ray moves `across` for every `along` it moves on the stepped axis, and it
/// has travelled `travel` on that axis.
fn face_coord(start: i64, travel: i64, along: i64, across: i64) -> (r: i64)
    requires
        0 <= start < MAX_GRID * ONE,
        0 <= travel <= 4 * MAX_GRID * ONE,
        along != 0,
        -MAX_DIR <= along <= MAX_DIR,
        -MAX_DIR <= across <= MAX_DIR,
    ensures
        r == (start * abs(along as int) + travel * across) / abs(along as int),
        start - 4 * MAX_GRID * ONE * MAX_DIR - MAX_DIR <= r <= start + 4 * MAX_GRID * ONE * MAX_DIR,
{
    let a = abs_component(along);
    assert(0 <= travel * abs(across as int) <= 4 * MAX_GRID * ONE * MAX_DIR) by (nonlinear_arith)
        requires 0 <= travel <= 4 * MAX_GRID * ONE, 0 <= abs(across as int) <= MAX_DIR;
    if across >= 0 {
        let m = travel * across;
        proof {
            lemma_floor_shift(start as int, m as int, a as int);
            vstd::arithmetic::div_mod::lemma_div_nonincreasing(m as int, a as int);
            vstd::arithmetic::div_mod::lemma_div_pos_is_pos(m as int, a as int);
        }
        start + m / a
    } else {
        let m = travel * (-across);
        assert(travel * across == -m) by (nonlinear_arith)
            requires m == travel * (-across);
        proof {
            lemma_floor_shift(start as int, -m, a as int);
            lemma_floor_of_negation(m as int, a as int);
            vstd::arithmetic::div_mod::lemma_div_nonincreasing((m + a - 1) as int, a as int);
            vstd::arithmetic::div_mod::lemma_div_pos_is_pos((m + a - 1) as int, a as int);
        }
        start - (m + a - 1) / a
    }
}

/// The Euclidean remainder of `w` by [`ONE`].
fn frac_of(w: i64) -> (r: i64)
    requires
        -16 * MAX_GRID * ONE * MAX_DIR <= w <= 16 * MAX_GRID * ONE * MAX_DIR,
    ensures
        r == w as int % (ONE as int),
        0 <= r < ONE,
{
    if w >= 0 {
        w % ONE
    } else {
        proof { lemma_mod_of_negation(-w, ONE as int); }
        let m = (-w) % ONE;
        if m == 0 { 0 } else { ONE - m }
    }
}

/// Casts one ray from the sub-cell point (x, y) along `dir` and reports the
/// face it strikes.
pub fn cast_ray(grid: &WorldGrid, x: i64, y: i64, dir: Dir) -> (r: Ray)
    requires
        grid.wf(),
        grid.contains_point(x as int, y as int),
        dir.wf(),
    ensures
        r == cast_result(*grid, x as int, y as int, dir),
        0 <= r.texture_coord < ONE,
        r.distance >= 0,
        r.hit,
        r.texture_id == 0 <==> !grid.in_bounds(dda_hit(*grid, x as int, y as int, dir).map_x, dda_hit(*grid, x as int, y as int, dir).map_y),
{
    let ghost g = *grid;
    let ghost target = dda_hit(g, x as int, y as int, dir);
    proof { lemma_ray_always_hits(g, x as int, y as int, dir); }
    let ax = abs_component(dir.x);
    let ay = abs_component(dir.y);
    let mut map_x: i64 = x / ONE;
    let mut map_y: i64 = y / ONE;
    let mut side_x: i64 = if dir.x > 0 { ONE - x % ONE } else { x % ONE };
    let mut side_y: i64 = if dir.y > 0 { ONE - y % ONE } else { y % ONE };
    let mut vertical = false;
    let mut fuel: usize = grid.width + grid.height;
    proof {
        assert(0 <= x / ONE < grid.width && 0 <= y / ONE < grid.height) by {
            vstd::arithmetic::div_mod::lemma_div_pos_is_pos(x as int, ONE as int);
            vstd::arithmetic::div_mod::lemma_div_pos_is_pos(y as int, ONE as int);
            vstd::arithmetic::div_mod::lemma_div_is_ordered(x as int, grid.width * ONE - 1, ONE as int);
            vstd::arithmetic::div_mod::lemma_div_is_ordered(y as int, grid.height * ONE - 1, ONE as int);
            lemma_floor_shift(grid.width as int - 1, ONE - 1, ONE as int);
            lemma_floor_shift(grid.height as int - 1, ONE - 1, ONE as int);
        }
    }
    loop
        invariant_except_break
            grid.in_bounds(map_x as int, map_y as int),
            side_x + side_y <= (2 + march_budget(g) - fuel) * ONE,
            cells_left(g, dir, DdaState { map_x: map_x as int, map_y: map_y as int, side_x: side_x as int, side_y: side_y as int, vertical }) <= fuel,
            dda_march(g, dir, DdaState { map_x: map_x as int, map_y: map_y as int, side_x: side_x as int, side_y: side_y as int, vertical }, fuel as nat) == target,
        invariant
            g == *grid,
            grid.wf(),
            dir.wf(),
            ax == abs(dir.x as int),
            ay == abs(dir.y as int),
            0 <= side_x && 0 <= side_y,
            fuel <= march_budget(g),
        ensures
            (DdaState { map_x: map_x as int, map_y: map_y as int, side_x: side_x as int, side_y: side_y as int, vertical }) == target,
            side_x + side_y <= (3 + march_budget(g)) * ONE,
            vertical ==> side_x >= ONE && dir.x != 0,
            !vertical ==> side_y >= ONE && dir.y != 0,
        decreases fuel,
    {
        let ghost cur = DdaState { map_x: map_x as int, map_y: map_y as int, side_x: side_x as int, side_y: side_y as int, vertical };
        assert(side_x * ay <= 4 * MAX_GRID * ONE * MAX_DIR && side_y * ax <= 4 * MAX_GRID * ONE * MAX_DIR) by (nonlinear_arith)
            requires 0 <= side_x <= 4 * MAX_GRID * ONE, 0 <= side_y <= 4 * MAX_GRID * ONE, 0 <= ax <= MAX_DIR, 0 <= ay <= MAX_DIR;
        let take_x = if dir.x == 0 { false } else if dir.y == 0 { true } else { side_x * ay < side_y * ax };
        assert(take_x == steps_x(dir, cur));
        if take_x {
            map_x = if dir.x > 0 { map_x + 1 } else { map_x - 1 };
            side_x = side_x + ONE;
            vertical = true;
        } else {
            map_y = if dir.y > 0 { map_y + 1 } else { map_y - 1 };
            side_y = side_y + ONE;
            vertical = false;
        }
        let cell = grid.tile_at(map_x, map_y);
        let stop = match cell {
            Some(t) => t != 0,
            None => true,
        };
        if stop {
            break;
        }
        fuel = fuel - 1;
    }
    let (travel, along, across, start) = if vertical {
        (side_x - ONE, dir.x, dir.y, y)
    } else {
        (side_y - ONE, dir.y, dir.x, x)
    };
    let a = abs_component(along);
    assert(0 <= travel * ONE <= 4 * MAX_GRID * ONE * ONE) by (nonlinear_arith)
        requires 0 <= travel <= 4 * MAX_GRID * ONE;
    let distance = travel * ONE / a;
    let w = face_coord(start, travel, along, across);
    let texture_coord = frac_of(w);
    let texture_id = match grid.tile_at(map_x, map_y) {
        Some(t) => t,
        None => 0u8,
    };
    Ray { distance, texture_coord, vertical_hit: vertical, hit: true, texture_id }
}

} // verus!
