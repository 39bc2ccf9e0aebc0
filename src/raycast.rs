use vstd::prelude::*;
use vstd::arithmetic::div_mod::lemma_fundamental_div_mod_converse;
use crate::grid::{
    VoxelGrid, solid_at, lemma_cell_index_bounds, cell_index, EMPTY, MAP_LENGTH,
};
use crate::vec3::Vec3;

verus! {

/// One world unit in the 16.16 fixed-point scale used for positions, directions and distances.
pub const FIXED_ONE: i64 = 65536;

/// `FIXED_ONE * FIXED_ONE`: a per-axis increment is this divided by the direction component.
pub const FIXED_ONE_SQUARED: u64 = 0x1_0000_0000;

/// Bias added to each origin coordinate (about 1e-4 world units) so it never lies on a cell boundary.
pub const ORIGIN_BIAS: i64 = 7;

/// Distance standing for "never": the per-axis increment of a zero direction component.
pub const NEVER: u64 = 0xffff_ffff_ffff_ffff;

/// Largest magnitude of a fixed-point origin coordinate.
pub const MAX_COORD: i64 = 0x4000_0000_0000;

/// Largest magnitude of a fixed-point direction component.
pub const MAX_DIR: i64 = 0x1_0000_0000;

/// Largest fixed-point range a ray may be cast with.
pub const MAX_RANGE: u64 = 0x100_0000_0000;

/// Grid axis; for a hit, the axis whose cell boundary was crossed to enter the hit cell.
#[derive(Clone, Copy, Debug, PartialEq, Eq, Structural)]
pub enum Axis {
    X,
    Y,
    Z,
}

/// Result of one traversal.
#[derive(Clone, Copy, Debug)]
pub struct RayHit {
    /// Fixed-point ray parameter at which the hit cell was entered: the hit point is
    /// `start + distance * direction / FIXED_ONE`.
    pub distance: u64,
    pub hit_side: Axis,
    /// The hit cell, when asked for.
    pub block: Option<Vec3<i64>>,
}

pub open spec fn vec_int(v: Vec3<i64>) -> Vec3<int> {
    Vec3 { x: v.x as int, y: v.y as int, z: v.z as int }
}

pub open spec fn uvec_int(v: Vec3<u64>) -> Vec3<int> {
    Vec3 { x: v.x as int, y: v.y as int, z: v.z as int }
}

pub open spec fn comp(v: Vec3<int>, a: Axis) -> int {
    match a {
        Axis::X => v.x,
        Axis::Y => v.y,
        Axis::Z => v.z,
    }
}

pub open spec fn with_comp(v: Vec3<int>, a: Axis, c: int) -> Vec3<int> {
    match a {
        Axis::X => Vec3 { x: c, ..v },
        Axis::Y => Vec3 { y: c, ..v },
        Axis::Z => Vec3 { z: c, ..v },
    }
}

/// The axis with the nearest pending boundary; ties go to X, then Y, then Z.
pub open spec fn select_axis(p: Vec3<int>) -> Axis {
    if p.x <= p.y && p.x <= p.z {
        Axis::X
    } else if p.y <= p.z {
        Axis::Y
    } else {
        Axis::Z
    }
}

/// Addition that stops at `NEVER`.
pub open spec fn sat(v: int) -> int {
    if v > NEVER {
        NEVER as int
    } else {
        v
    }
}

pub open spec fn sign(d: int) -> int {
    if d > 0 {
        1
    } else if d < 0 {
        -1
    } else {
        0
    }
}

/// The biased origin coordinate `o + ORIGIN_BIAS`.
pub open spec fn biased(o: int) -> int {
    o + ORIGIN_BIAS
}

/// Cell coordinate containing the biased origin coordinate.
pub open spec fn start_cell(o: int) -> int {
    biased(o) / (FIXED_ONE as int)
}

/// Ray-parameter increment between two boundary crossings along an axis.
pub open spec fn axis_step(d: int) -> int {
    if d == 0 {
        NEVER as int
    } else if d > 0 {
        (FIXED_ONE_SQUARED as int) / d
    } else {
        (FIXED_ONE_SQUARED as int) / (-d)
    }
}

/// Ray parameter of the first boundary crossing along an axis.
pub open spec fn axis_first(o: int, d: int) -> int {
    let f = biased(o) % (FIXED_ONE as int);
    if d == 0 {
        NEVER as int
    } else if d > 0 {
        (if f == 0 { 0 } else { FIXED_ONE - f }) * axis_step(d) / (FIXED_ONE as int)
    } else {
        f * axis_step(d) / (FIXED_ONE as int)
    }
}

/// Per-axis constants of one traversal.
pub struct RaySetup {
    pub start: Vec3<int>,
    pub first: Vec3<int>,
    pub step: Vec3<int>,
    pub tile: Vec3<int>,
}

pub open spec fn ray_setup(o: Vec3<int>, d: Vec3<int>) -> RaySetup {
    RaySetup {
        start: Vec3 { x: start_cell(o.x), y: start_cell(o.y), z: start_cell(o.z) },
        first: Vec3 { x: axis_first(o.x, d.x), y: axis_first(o.y, d.y), z: axis_first(o.z, d.z) },
        step: Vec3 { x: axis_step(d.x), y: axis_step(d.y), z: axis_step(d.z) },
        tile: Vec3 { x: sign(d.x), y: sign(d.y), z: sign(d.z) },
    }
}

/// State of the walk: current cell, pending boundary crossings, crossings made on each
/// axis, parameter of the last crossing and its axis.
pub struct Walk {
    pub cell: Vec3<int>,
    pub pending: Vec3<int>,
    pub count: Vec3<int>,
    pub last: int,
    pub face: Axis,
}

pub open spec fn walk_start(s: RaySetup) -> Walk {
    Walk { cell: s.start, pending: s.first, count: Vec3 { x: 0, y: 0, z: 0 }, last: 0, face: Axis::X }
}

/// One traversal step: cross the nearest pending boundary.
pub open spec fn advance(w: Walk, s: RaySetup) -> Walk {
    let a = select_axis(w.pending);
    Walk {
        cell: with_comp(w.cell, a, comp(w.cell, a) + comp(s.tile, a)),
        pending: with_comp(w.pending, a, sat(comp(w.pending, a) + comp(s.step, a))),
        count: with_comp(w.count, a, comp(w.count, a) + 1),
        last: comp(w.pending, a),
        face: a,
    }
}

/// The walk after `k` steps.
pub open spec fn walk(s: RaySetup, k: nat) -> Walk
    decreases k,
{
    if k == 0 {
        walk_start(s)
    } else {
        advance(walk(s, (k - 1) as nat), s)
    }
}

/// The walk stops in a solid cell, or once the last crossing is at or past `range`.
pub open spec fn halts(cells: Seq<u8>, w: Walk, range: int) -> bool {
    solid_at(cells, w.cell.x, w.cell.y, w.cell.z) || w.last >= range
}

/// `k` is the first step at which the walk stops.
pub open spec fn first_halt(cells: Seq<u8>, s: RaySetup, range: int, k: nat) -> bool {
    &&& halts(cells, walk(s, k), range)
    &&& forall|j: nat| j < k ==> !halts(cells, #[trigger] walk(s, j), range)
}

/// What a traversal reports once the walk has stopped in state `w`.
pub open spec fn outcome(r: Option<RayHit>, cells: Seq<u8>, w: Walk, with_block: bool) -> bool {
    if solid_at(cells, w.cell.x, w.cell.y, w.cell.z) {
        &&& r is Some
        &&& r->0.distance == w.last
        &&& r->0.hit_side == w.face
        &&& if with_block {
            &&& r->0.block is Some
            &&& vec_int(r->0.block->0) == w.cell
        } else {
            r->0.block is None
        }
    } else {
        r is None
    }
}

/// The traversal of `cells` from `start` along `direction` up to `range` reports `r`.
pub open spec fn cast_result(
    r: Option<RayHit>,
    cells: Seq<u8>,
    start: Vec3<i64>,
    direction: Vec3<i64>,
    range: int,
    with_block: bool,
) -> bool {
    exists|k: nat|
        first_halt(cells, ray_setup(vec_int(start), vec_int(direction)), range, k) && outcome(
            r,
            cells,
            walk(ray_setup(vec_int(start), vec_int(direction)), k),
            with_block,
        )
}

pub open spec fn coord_ok(o: i64) -> bool {
    -MAX_COORD <= o <= MAX_COORD
}

pub open spec fn dir_ok(d: i64) -> bool {
    -MAX_DIR <= d <= MAX_DIR
}

/// Origin and direction lie within the fixed-point ranges that traversal supports.
pub open spec fn ray_ok(start: Vec3<i64>, direction: Vec3<i64>) -> bool {
    coord_ok(start.x) && coord_ok(start.y) && coord_ok(start.z) && dir_ok(direction.x) && dir_ok(
        direction.y,
    ) && dir_ok(direction.z)
}

pub open spec fn setup_ok(s: RaySetup) -> bool {
    &&& 0 <= s.first.x <= NEVER && 0 <= s.first.y <= NEVER && 0 <= s.first.z <= NEVER
    &&& 1 <= s.step.x <= NEVER && 1 <= s.step.y <= NEVER && 1 <= s.step.z <= NEVER
    &&& -1 <= s.tile.x <= 1 && -1 <= s.tile.y <= 1 && -1 <= s.tile.z <= 1
}

pub open spec fn axis_inv(first: int, step: int, start: int, tile: int, pending: int, count: int, cell: int, last: int) -> bool {
    &&& count >= 0
    &&& pending == sat(first + count * step)
    &&& cell == start + count * tile
    &&& last <= pending
    &&& count > 0 ==> sat(first + (count - 1) * step) <= last
}

/// What holds of the walk after `k` steps.
pub open spec fn walk_inv(s: RaySetup, w: Walk, k: nat) -> bool {
    &&& 0 <= w.last
    &&& k == w.count.x + w.count.y + w.count.z
    &&& axis_inv(s.first.x, s.step.x, s.start.x, s.tile.x, w.pending.x, w.count.x, w.cell.x, w.last)
    &&& axis_inv(s.first.y, s.step.y, s.start.y, s.tile.y, w.pending.y, w.count.y, w.cell.y, w.last)
    &&& axis_inv(s.first.z, s.step.z, s.start.z, s.tile.z, w.pending.z, w.count.z, w.cell.z, w.last)
}

proof fn lemma_axis_advance(first: int, step: int, start: int, tile: int, pending: int, count: int, cell: int, last: int)
    requires
        0 <= first <= NEVER,
        1 <= step <= NEVER,
        axis_inv(first, step, start, tile, pending, count, cell, last),
    ensures
        sat(pending + step) == sat(first + (count + 1) * step),
        cell + tile == start + (count + 1) * tile,
        pending <= sat(pending + step),
{
    assert((count + 1) * step == count * step + step) by (nonlinear_arith);
    assert((count + 1) * tile == count * tile + tile) by (nonlinear_arith);
    assert(count * step >= 0) by (nonlinear_arith)
        requires
            count >= 0,
            step >= 1,
    ;
}

pub proof fn lemma_walk_inv(s: RaySetup, k: nat)
    requires
        setup_ok(s),
    ensures
        walk_inv(s, walk(s, k), k),
    decreases k,
{
    if k > 0 {
        let k1 = (k - 1) as nat;
        lemma_walk_inv(s, k1);
        let w = walk(s, k1);
        lemma_axis_advance(s.first.x, s.step.x, s.start.x, s.tile.x, w.pending.x, w.count.x, w.cell.x, w.last);
        lemma_axis_advance(s.first.y, s.step.y, s.start.y, s.tile.y, w.pending.y, w.count.y, w.cell.y, w.last);
        lemma_axis_advance(s.first.z, s.step.z, s.start.z, s.tile.z, w.pending.z, w.count.z, w.cell.z, w.last);
        assert(walk(s, k) == advance(w, s));
    }
}

/// While the walk has not stopped, no axis has been crossed more than `range` times.
pub proof fn lemma_count_bound(s: RaySetup, w: Walk, k: nat, range: int)
    requires
        setup_ok(s),
        walk_inv(s, w, k),
        w.last < range,
        range <= NEVER,
    ensures
        w.count.x <= range,
        w.count.y <= range,
        w.count.z <= range,
{
    lemma_axis_count(s.first.x, s.step.x, s.start.x, s.tile.x, w.pending.x, w.count.x, w.cell.x, w.last, range);
    lemma_axis_count(s.first.y, s.step.y, s.start.y, s.tile.y, w.pending.y, w.count.y, w.cell.y, w.last, range);
    lemma_axis_count(s.first.z, s.step.z, s.start.z, s.tile.z, w.pending.z, w.count.z, w.cell.z, w.last, range);
}

proof fn lemma_axis_count(first: int, step: int, start: int, tile: int, pending: int, count: int, cell: int, last: int, range: int)
    requires
        0 <= first,
        1 <= step,
        axis_inv(first, step, start, tile, pending, count, cell, last),
        0 <= last < range,
        range <= NEVER,
    ensures
        count <= range,
        (count - 1) * step < range,
{
    if count > 0 {
        assert(first + (count - 1) * step <= last);
        assert((count - 1) * step >= count - 1) by (nonlinear_arith)
            requires
                count >= 1,
                step >= 1,
        ;
    } else {
        assert((count - 1) * step == -step) by (nonlinear_arith)
            requires
                count == 0,
        ;
    }
}

/// What is left of `range` beyond a pending crossing.
pub open spec fn remaining(p: int, range: int) -> int {
    if p < range {
        range - p
    } else {
        0
    }
}

/// Cell coordinate, first crossing, increment and tile step of one axis.
fn setup_axis(o: i64, d: i64) -> (r: (i64, u64, u64, i64))
    requires
        coord_ok(o),
        dir_ok(d),
    ensures
        r.0 == start_cell(o as int),
        r.1 == axis_first(o as int, d as int),
        r.2 == axis_step(d as int),
        r.3 == sign(d as int),
        1 <= r.2,
        -0x8000_0000 <= r.0 <= 0x8000_0000,
{
    let b: i64 = o + ORIGIN_BIAS;
    let cell: i64;
    let f: i64;
    if b >= 0 {
        cell = b / FIXED_ONE;
        f = b % FIXED_ONE;
        proof {
            lemma_fundamental_div_mod_converse(b as int, FIXED_ONE as int, cell as int, f as int);
        }
    } else {
        let n: i64 = -(b + 1);
        let q: i64 = n / FIXED_ONE;
        let m: i64 = n % FIXED_ONE;
        proof {
            lemma_fundamental_div_mod_converse(n as int, FIXED_ONE as int, q as int, m as int);
        }
        cell = -q - 1;
        f = FIXED_ONE - 1 - m;
        proof {
            lemma_fundamental_div_mod_converse(b as int, FIXED_ONE as int, cell as int, f as int);
        }
    }
    if d == 0 {
        return (cell, NEVER, NEVER, 0);
    }
    let ad: u64 = if d > 0 {
        d as u64
    } else {
        (-d) as u64
    };
    let step: u64 = FIXED_ONE_SQUARED / ad;
    assert(1 <= step <= FIXED_ONE_SQUARED) by (nonlinear_arith)
        requires
            1 <= ad <= FIXED_ONE_SQUARED,
            step == FIXED_ONE_SQUARED / ad,
    ;
    let tile: i64 = if d > 0 {
        1
    } else {
        -1
    };
    let dist: u64 = if d > 0 {
        if f == 0 {
            0
        } else {
            (FIXED_ONE - f) as u64
        }
    } else {
        f as u64
    };
    assert(dist * step <= 0x1_0000_0000_0000) by (nonlinear_arith)
        requires
            dist <= FIXED_ONE,
            step <= FIXED_ONE_SQUARED,
    ;
    let first: u64 = dist * step / (FIXED_ONE as u64);
    (cell, first, step, tile)
}

fn select(p: &Vec3<u64>) -> (a: Axis)
    ensures
        a == select_axis(uvec_int(*p)),
{
    if p.x <= p.y && p.x <= p.z {
        Axis::X
    } else if p.y <= p.z {
        Axis::Y
    } else {
        Axis::Z
    }
}

proof fn lemma_cell_bound(start: int, count: int, tile: int)
    requires
        -0x8000_0000 <= start <= 0x8000_0000,
        0 <= count <= MAX_RANGE + 1,
        -1 <= tile <= 1,
    ensures
        -0x200_0000_0000 <= start + count * tile <= 0x200_0000_0000,
{
    assert(-count <= count * tile <= count) by (nonlinear_arith)
        requires
            0 <= count,
            -1 <= tile <= 1,
    ;
}

/// A cell coordinate that a traversal can reach: far from the limits of `i64`.
pub open spec fn cell_bounded(c: Vec3<i64>) -> bool {
    &&& -0x200_0000_0000 <= c.x <= 0x200_0000_0000
    &&& -0x200_0000_0000 <= c.y <= 0x200_0000_0000
    &&& -0x200_0000_0000 <= c.z <= 0x200_0000_0000
}

/// Walks the grid from `start` along `direction`, crossing one cell boundary at a time, until a
/// solid cell is entered or the last crossing lies at or beyond `range`.
pub fn raycast(
    grid: &VoxelGrid,
    start: &Vec3<i64>,
    direction: &Vec3<i64>,
    range: u64,
    with_block: bool,
) -> (r: Option<RayHit>)
    requires
        grid.wf(),
        ray_ok(*start, *direction),
        range <= MAX_RANGE,
    ensures
        cast_result(r, grid@, *start, *direction, range as int, with_block),
        r is Some && r->0.block is Some ==> cell_bounded(r->0.block->0),
{
    let (cx, fx, sx, tx) = setup_axis(start.x, direction.x);
    let (cy, fy, sy, ty) = setup_axis(start.y, direction.y);
    let (cz, fz, sz, tz) = setup_axis(start.z, direction.z);
    let ghost s = ray_setup(vec_int(*start), vec_int(*direction));
    let mut cell = Vec3 { x: cx, y: cy, z: cz };
    let mut pending = Vec3 { x: fx, y: fy, z: fz };
    let step = Vec3 { x: sx, y: sy, z: sz };
    let tile = Vec3 { x: tx, y: ty, z: tz };
    let mut last: u64 = 0;
    let mut face = Axis::X;
    let ghost mut k: nat = 0;
    proof {
        lemma_walk_inv(s, 0);
    }
    let mut hit = grid.is_solid(&cell);
    while !hit && last < range
        invariant
            grid.wf(),
            range <= MAX_RANGE,
            setup_ok(s),
            -0x8000_0000 <= s.start.x <= 0x8000_0000,
            -0x8000_0000 <= s.start.y <= 0x8000_0000,
            -0x8000_0000 <= s.start.z <= 0x8000_0000,
            s == ray_setup(vec_int(*start), vec_int(*direction)),
            uvec_int(step) == s.step,
            vec_int(tile) == s.tile,
            walk(s, k).cell == vec_int(cell),
            walk(s, k).pending == uvec_int(pending),
            walk(s, k).last == last,
            walk(s, k).face == face,
            walk_inv(s, walk(s, k), k),
            hit == solid_at(grid@, cell.x as int, cell.y as int, cell.z as int),
            cell_bounded(cell),
            forall|j: nat| j < k ==> !halts(grid@, #[trigger] walk(s, j), range as int),
        decreases (if last < range {
            1int
        } else {
            0int
        }) + remaining(pending.x as int, range as int) + remaining(pending.y as int, range as int)
            + remaining(pending.z as int, range as int),
    {
        proof {
            lemma_count_bound(s, walk(s, k), k, range as int);
            lemma_cell_bound(s.start.x, walk(s, k).count.x, s.tile.x);
            lemma_cell_bound(s.start.y, walk(s, k).count.y, s.tile.y);
            lemma_cell_bound(s.start.z, walk(s, k).count.z, s.tile.z);
        }
        let a = select(&pending);
        match a {
            Axis::X => {
                last = pending.x;
                pending.x = pending.x.saturating_add(step.x);
                cell.x = cell.x + tile.x;
            },
            Axis::Y => {
                last = pending.y;
                pending.y = pending.y.saturating_add(step.y);
                cell.y = cell.y + tile.y;
            },
            Axis::Z => {
                last = pending.z;
                pending.z = pending.z.saturating_add(step.z);
                cell.z = cell.z + tile.z;
            },
        }
        face = a;
        proof {
            k = k + 1;
            lemma_walk_inv(s, k);
            lemma_cell_bound(s.start.x, walk(s, k).count.x, s.tile.x);
            lemma_cell_bound(s.start.y, walk(s, k).count.y, s.tile.y);
            lemma_cell_bound(s.start.z, walk(s, k).count.z, s.tile.z);
        }
        hit = grid.is_solid(&cell);
    }
    let ghost w = walk(s, k);
    assert(first_halt(grid@, s, range as int, k));
    let r = if hit {
        Some(RayHit { distance: last, hit_side: face, block: if with_block { Some(cell) } else { None } })
    } else {
        None
    };
    assert(outcome(r, grid@, w, with_block));
    r
}

/// `a / b` rounded up.
pub open spec fn ceil_div(a: int, b: int) -> int {
    (a + b - 1) / b
}

proof fn lemma_axis_setup_ok(o: int, d: int)
    requires
        -MAX_COORD <= o <= MAX_COORD,
        -MAX_DIR <= d <= MAX_DIR,
    ensures
        1 <= axis_step(d) <= NEVER,
        0 <= axis_first(o, d) <= NEVER,
        -1 <= sign(d) <= 1,
        -d <= FIXED_ONE && d <= FIXED_ONE ==> axis_step(d) >= FIXED_ONE,
{
    let f = biased(o) % (FIXED_ONE as int);
    if d != 0 {
        let ad = if d > 0 { d } else { -d };
        assert(axis_step(d) == (FIXED_ONE_SQUARED as int) / ad);
        assert(1 <= (FIXED_ONE_SQUARED as int) / ad <= FIXED_ONE_SQUARED) by (nonlinear_arith)
            requires
                1 <= ad <= FIXED_ONE_SQUARED,
        ;
        if ad <= FIXED_ONE {
            assert((FIXED_ONE_SQUARED as int) / ad >= FIXED_ONE) by (nonlinear_arith)
                requires
                    1 <= ad <= FIXED_ONE,
                    FIXED_ONE_SQUARED == FIXED_ONE * FIXED_ONE,
            ;
        }
        let dist = if d > 0 { if f == 0 { 0 } else { FIXED_ONE - f } } else { f };
        let st = axis_step(d);
        assert(0 <= dist * st / (FIXED_ONE as int) <= NEVER) by (nonlinear_arith)
            requires
                0 <= dist <= FIXED_ONE,
                1 <= st <= FIXED_ONE_SQUARED,
        ;
    }
}

/// Origins and directions in range give a well-formed traversal.
pub proof fn lemma_setup_ok(start: Vec3<i64>, direction: Vec3<i64>)
    requires
        ray_ok(start, direction),
    ensures
        setup_ok(ray_setup(vec_int(start), vec_int(direction))),
{
    lemma_axis_setup_ok(start.x as int, direction.x as int);
    lemma_axis_setup_ok(start.y as int, direction.y as int);
    lemma_axis_setup_ok(start.z as int, direction.z as int);
}

/// The step at which a walk first stops is unique.
proof fn lemma_first_halt_unique(cells: Seq<u8>, s: RaySetup, range: int, k1: nat, k2: nat)
    requires
        first_halt(cells, s, range, k1),
        first_halt(cells, s, range, k2),
    ensures
        k1 == k2,
{
    if k1 < k2 {
        assert(!halts(cells, walk(s, k1), range));
    } else if k2 < k1 {
        assert(!halts(cells, walk(s, k2), range));
    }
}

/// A traversal is a function of the world, the ray, the range and whether the cell is asked
/// for: two results of the same traversal are equal.
pub proof fn lemma_cast_result_unique(
    r1: Option<RayHit>,
    r2: Option<RayHit>,
    cells: Seq<u8>,
    start: Vec3<i64>,
    direction: Vec3<i64>,
    range: int,
    with_block: bool,
)
    requires
        cast_result(r1, cells, start, direction, range, with_block),
        cast_result(r2, cells, start, direction, range, with_block),
    ensures
        r1 == r2,
{
    let s = ray_setup(vec_int(start), vec_int(direction));
    let k1 = choose|k: nat| first_halt(cells, s, range, k) && outcome(r1, cells, walk(s, k), with_block);
    let k2 = choose|k: nat| first_halt(cells, s, range, k) && outcome(r2, cells, walk(s, k), with_block);
    lemma_first_halt_unique(cells, s, range, k1, k2);
    if r1 is Some && with_block {
        let b1 = r1->0.block->0;
        let b2 = r2->0.block->0;
        assert(b1 == b2);
    }
}

/// A walk that stops at step `k` stopped in the start cell when that cell is solid or the
/// range is zero.
proof fn lemma_halts_at_start(cells: Seq<u8>, s: RaySetup, range: int, k: nat)
    requires
        first_halt(cells, s, range, k),
        halts(cells, walk(s, 0), range),
    ensures
        k == 0,
{
    if k > 0 {
        assert(!halts(cells, walk(s, 0), range));
    }
}

/// When the (biased) origin lies in a solid cell, the traversal reports a hit at distance zero,
/// across the default face X, in that cell.
pub proof fn lemma_solid_origin_hits_at_zero(
    r: Option<RayHit>,
    cells: Seq<u8>,
    start: Vec3<i64>,
    direction: Vec3<i64>,
    range: int,
    with_block: bool,
)
    requires
        cast_result(r, cells, start, direction, range, with_block),
        solid_at(cells, start_cell(start.x as int), start_cell(start.y as int), start_cell(start.z as int)),
    ensures
        r is Some,
        r->0.distance == 0,
        r->0.hit_side == Axis::X,
{
    let s = ray_setup(vec_int(start), vec_int(direction));
    let k = choose|k: nat| first_halt(cells, s, range, k) && outcome(r, cells, walk(s, k), with_block);
    lemma_halts_at_start(cells, s, range, k);
}

/// With a zero range the traversal inspects only the origin cell: it hits at distance zero
/// when that cell is solid, and reports nothing otherwise.
pub proof fn lemma_zero_range(
    r: Option<RayHit>,
    cells: Seq<u8>,
    start: Vec3<i64>,
    direction: Vec3<i64>,
    with_block: bool,
)
    requires
        cast_result(r, cells, start, direction, 0, with_block),
    ensures
        r is Some <==> solid_at(
            cells,
            start_cell(start.x as int),
            start_cell(start.y as int),
            start_cell(start.z as int),
        ),
        r is Some ==> r->0.distance == 0,
{
    let s = ray_setup(vec_int(start), vec_int(direction));
    let k = choose|k: nat| first_halt(cells, s, 0, k) && outcome(r, cells, walk(s, k), with_block);
    lemma_halts_at_start(cells, s, 0, k);
}

/// In a world without a solid cell no traversal hits anything, whatever the ray and range.
pub proof fn lemma_empty_world_no_hit(
    r: Option<RayHit>,
    cells: Seq<u8>,
    start: Vec3<i64>,
    direction: Vec3<i64>,
    range: int,
    with_block: bool,
)
    requires
        cells.len() == MAP_LENGTH,
        forall|i: int| 0 <= i < MAP_LENGTH ==> #[trigger] cells[i] == EMPTY,
        cast_result(r, cells, start, direction, range, with_block),
    ensures
        r is None,
{
    let s = ray_setup(vec_int(start), vec_int(direction));
    let k = choose|k: nat| first_halt(cells, s, range, k) && outcome(r, cells, walk(s, k), with_block);
    let c = walk(s, k).cell;
    lemma_cell_index_bounds(c.x, c.y, c.z);
    assert(cells[cell_index(c.x, c.y, c.z)] == EMPTY);
}

proof fn lemma_crossings_within(c: int, step: int, range: int)
    requires
        c >= 0,
        step >= FIXED_ONE,
        (c - 1) * step < range,
        range >= 1,
    ensures
        c <= ceil_div(range, FIXED_ONE as int),
{
    let q = ceil_div(range, FIXED_ONE as int);
    let rem = (range + FIXED_ONE - 1) % (FIXED_ONE as int);
    vstd::arithmetic::div_mod::lemma_fundamental_div_mod(range + FIXED_ONE - 1, FIXED_ONE as int);
    assert(range + FIXED_ONE - 1 == (FIXED_ONE as int) * q + rem);
    assert(0 <= rem < FIXED_ONE);
    if c > q {
        assert((c - 1) * step >= q * (FIXED_ONE as int)) by (nonlinear_arith)
            requires
                c - 1 >= q,
                q >= 0,
                step >= FIXED_ONE,
        ;
        assert(false);
    }
}

/// Traversal is bounded: when no direction component exceeds one world unit, the walk stops
/// after inspecting at most `3 * ceil(range) + 2` cells (`range` in world units), the origin
/// cell included.
pub proof fn lemma_cells_inspected_bound(
    cells: Seq<u8>,
    start: Vec3<i64>,
    direction: Vec3<i64>,
    range: int,
    k: nat,
)
    requires
        ray_ok(start, direction),
        -FIXED_ONE <= direction.x <= FIXED_ONE,
        -FIXED_ONE <= direction.y <= FIXED_ONE,
        -FIXED_ONE <= direction.z <= FIXED_ONE,
        0 <= range <= NEVER,
        first_halt(cells, ray_setup(vec_int(start), vec_int(direction)), range, k),
    ensures
        k + 1 <= 3 * ceil_div(range, FIXED_ONE as int) + 2,
{
    let s = ray_setup(vec_int(start), vec_int(direction));
    lemma_setup_ok(start, direction);
    lemma_axis_setup_ok(start.x as int, direction.x as int);
    lemma_axis_setup_ok(start.y as int, direction.y as int);
    lemma_axis_setup_ok(start.z as int, direction.z as int);
    if k > 0 {
        let k1 = (k - 1) as nat;
        let w = walk(s, k1);
        assert(!halts(cells, w, range));
        lemma_walk_inv(s, k1);
        lemma_axis_count(s.first.x, s.step.x, s.start.x, s.tile.x, w.pending.x, w.count.x, w.cell.x, w.last, range);
        lemma_axis_count(s.first.y, s.step.y, s.start.y, s.tile.y, w.pending.y, w.count.y, w.cell.y, w.last, range);
        lemma_axis_count(s.first.z, s.step.z, s.start.z, s.tile.z, w.pending.z, w.count.z, w.cell.z, w.last, range);
        lemma_crossings_within(w.count.x, s.step.x, range);
        lemma_crossings_within(w.count.y, s.step.y, range);
        lemma_crossings_within(w.count.z, s.step.z, range);
    } else {
        assert(ceil_div(range, FIXED_ONE as int) >= 0);
    }
}

} // verus!
