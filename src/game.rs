use vstd::prelude::*;
use crate::grid::{
    VoxelGrid, terraced, scattered_cell, solid_at, lemma_remove_place_restores, cell_index, EMPTY,
    SOLID, MAP_LENGTH,
};
use crate::raycast::{
    raycast, Axis, RayHit, cast_result, lemma_cast_result_unique, lemma_empty_world_no_hit, comp,
    with_comp, sign, vec_int, ray_ok, cell_bounded,
};
use crate::rng::{Rng, xorshift_iter};
use crate::shade::{hit_to_color, color_of, SKY_COLOR};
use crate::vec3::Vec3;

verus! {

/// Gamepad bit of the "remove block" action.
pub const BUTTON_1: u8 = 1;

/// Gamepad bit of the "place block" action.
pub const BUTTON_2: u8 = 2;

/// Fixed-point traversal range of the pixels that see farthest (24 world units).
pub const RAY_RANGE: u64 = 1572864;

/// Fixed-point traversal range of the other half of the dithering checkerboard (16 world units).
pub const SHADOW_DISTANCE: u64 = 1048576;

/// Fixed-point reach of the remove and place actions (6 world units).
pub const INTERACT_DISTANCE: u64 = 393216;

/// Seed of the world generator's RNG.
pub const RNG_SEED: u32 = 777;

pub const SCREEN_WIDTH: usize = 160;

pub const SCREEN_HEIGHT: usize = 160;

/// Buttons down now that were up on the previous frame.
pub open spec fn pressed_edges(now: u8, before: u8) -> u8 {
    now & (now ^ before)
}

/// The cell next to `block` on the side a ray along `d` entered it through face `a`.
pub open spec fn placement_cell(block: Vec3<int>, a: Axis, d: Vec3<int>) -> Vec3<int> {
    with_comp(block, a, comp(block, a) - sign(comp(d, a)))
}

/// The world after removing the cell that a pick ray reported, if any.
pub open spec fn after_remove(cells: Seq<u8>, hit: Option<RayHit>) -> Seq<u8> {
    match hit {
        Some(h) => match h.block {
            Some(b) => cells.update(cell_index(b.x as int, b.y as int, b.z as int), EMPTY),
            None => cells,
        },
        None => cells,
    }
}

/// The world after placing a solid cell against the face that a pick ray along `d` reported.
pub open spec fn after_place(cells: Seq<u8>, hit: Option<RayHit>, d: Vec3<i64>) -> Seq<u8> {
    match hit {
        Some(h) => match h.block {
            Some(b) => {
                let t = placement_cell(vec_int(b), h.hit_side, vec_int(d));
                cells.update(cell_index(t.x, t.y, t.z), SOLID)
            },
            None => cells,
        },
        None => cells,
    }
}

/// Traversal range of pixel `(x, y)`: a checkerboard of the two ranges.
pub open spec fn dither_range(x: int, y: int) -> u64 {
    if (x + y) % 2 == 0 {
        SHADOW_DISTANCE
    } else {
        RAY_RANGE
    }
}

/// How the world is filled at start-up.
#[derive(Clone, Copy, Debug, PartialEq, Eq, Structural)]
pub enum WorldStyle {
    /// Solid ground in the upper half of the height axis under an open sky.
    Terraced,
    /// Sparse debris: each cell solid when its draw from the game's RNG exceeds the threshold.
    Scattered,
}

/// World, generator and input history, owned by the host and handed to each frame.
pub struct Game {
    pub frame_count: u32,
    pub map: VoxelGrid,
    pub rng: Rng,
    pub previous_gamepad1: u8,
}

impl Game {
    pub open spec fn wf(&self) -> bool {
        self.map.wf()
    }

    /// An empty world, no frame drawn yet, no button held.
    pub fn new() -> (r: Self)
        ensures
            r.wf(),
            r.frame_count == 0,
            r.previous_gamepad1 == 0,
            r.rng@ == RNG_SEED,
            forall|i: int| 0 <= i < MAP_LENGTH ==> #[trigger] r.map@[i] == EMPTY,
    {
        Game { frame_count: 0, map: VoxelGrid::new(), rng: Rng::new(RNG_SEED), previous_gamepad1: 0 }
    }

    /// One-time start-up: generates the world.
    pub fn start(&mut self)
        requires
            old(self).wf(),
        ensures
            final(self).wf(),
            final(self).map@ == terraced(old(self).map@),
            final(self).frame_count == old(self).frame_count,
            final(self).previous_gamepad1 == old(self).previous_gamepad1,
            final(self).rng == old(self).rng,
    {
        self.generate_map();
    }

    /// Fills the world in the given style; a scattered world advances the game's RNG.
    pub fn generate(&mut self, style: WorldStyle)
        requires
            old(self).wf(),
        ensures
            final(self).wf(),
            final(self).frame_count == old(self).frame_count,
            final(self).previous_gamepad1 == old(self).previous_gamepad1,
            style == WorldStyle::Terraced ==> final(self).map@ == terraced(old(self).map@)
                && final(self).rng == old(self).rng,
            style == WorldStyle::Scattered ==> final(self).rng@ == xorshift_iter(
                old(self).rng@,
                MAP_LENGTH as nat,
            ) && forall|i: int|
                0 <= i < MAP_LENGTH ==> #[trigger] final(self).map@[i] == scattered_cell(
                    old(self).rng@,
                    i,
                ),
    {
        match style {
            WorldStyle::Terraced => self.map.fill_terraced(),
            WorldStyle::Scattered => self.map.fill_scattered(&mut self.rng),
        }
    }

    /// Makes the upper half of the height axis solid: flat ground under an open sky.
    pub fn generate_map(&mut self)
        requires
            old(self).wf(),
        ensures
            final(self).wf(),
            final(self).map@ == terraced(old(self).map@),
            final(self).frame_count == old(self).frame_count,
            final(self).previous_gamepad1 == old(self).previous_gamepad1,
            final(self).rng == old(self).rng,
    {
        self.generate(WorldStyle::Terraced);
    }

    /// One frame of interaction. On the frame that button 1 goes down, the cell that a short
    /// pick ray along `forward` hits becomes empty; otherwise, on the frame that button 2 goes
    /// down, the cell before the hit face becomes solid. A pick ray that hits nothing changes
    /// nothing. Then the frame is counted and the button state remembered.
    pub fn update(&mut self, gamepad1: u8, position: &Vec3<i64>, forward: &Vec3<i64>)
        requires
            old(self).wf(),
            ray_ok(*position, *forward),
        ensures
            final(self).wf(),
            final(self).frame_count == old(self).frame_count.wrapping_add(1),
            final(self).previous_gamepad1 == gamepad1,
            final(self).rng == old(self).rng,
            ({
                let edges = pressed_edges(gamepad1, old(self).previous_gamepad1);
                if edges & BUTTON_1 != 0 {
                    exists|hit: Option<RayHit>|
                        cast_result(hit, old(self).map@, *position, *forward, INTERACT_DISTANCE as int, true)
                            && final(self).map@ == after_remove(old(self).map@, hit)
                } else if edges & BUTTON_2 != 0 {
                    exists|hit: Option<RayHit>|
                        cast_result(hit, old(self).map@, *position, *forward, INTERACT_DISTANCE as int, true)
                            && final(self).map@ == after_place(old(self).map@, hit, *forward)
                } else {
                    final(self).map@ == old(self).map@
                }
            }),
    {
        let pressed_this_frame = gamepad1 & (gamepad1 ^ self.previous_gamepad1);
        if pressed_this_frame & BUTTON_1 != 0 {
            let ray_hit = raycast(&self.map, position, forward, INTERACT_DISTANCE, true);
            if let Some(h) = ray_hit {
                if let Some(b) = h.block {
                    self.map.set(&b, EMPTY);
                }
            }
            assert(cast_result(ray_hit, old(self).map@, *position, *forward, INTERACT_DISTANCE as int, true));
            assert(self.map@ == after_remove(old(self).map@, ray_hit));
        } else if pressed_this_frame & BUTTON_2 != 0 {
            let ray_hit = raycast(&self.map, position, forward, INTERACT_DISTANCE, true);
            if let Some(h) = ray_hit {
                if let Some(b) = h.block {
                    let target = placement_target(&b, h.hit_side, forward);
                    self.map.set(&target, SOLID);
                }
            }
            assert(cast_result(ray_hit, old(self).map@, *position, *forward, INTERACT_DISTANCE as int, true));
            assert(self.map@ == after_place(old(self).map@, ray_hit, *forward));
        }
        self.frame_count = self.frame_count.wrapping_add(1);
        self.previous_gamepad1 = gamepad1;
    }

    /// Color of screen pixel `(x, y)` whose view ray runs from `position` along `direction`:
    /// the ray is cast with the pixel's dithered range and its result mapped to a palette index.
    pub fn shade_pixel(&self, x: usize, y: usize, position: &Vec3<i64>, direction: &Vec3<i64>) -> (r: u16)
        requires
            self.wf(),
            ray_ok(*position, *direction),
        ensures
            exists|hit: Option<RayHit>|
                cast_result(hit, self.map@, *position, *direction, dither_range(x as int, y as int) as int, false)
                    && r == color_of(hit, *position, *direction),
    {
        let range = pixel_range(x, y);
        let ray_hit = raycast(&self.map, position, direction, range, false);
        hit_to_color(ray_hit, position, direction)
    }
}

/// Traversal range of pixel `(x, y)`.
pub fn pixel_range(x: usize, y: usize) -> (r: u64)
    ensures
        r == dither_range(x as int, y as int),
{
    if x % 2 == y % 2 {
        SHADOW_DISTANCE
    } else {
        RAY_RANGE
    }
}

/// The cell before `block` on the side of face `a` that a ray along `d` came through.
fn placement_target(block: &Vec3<i64>, a: Axis, d: &Vec3<i64>) -> (r: Vec3<i64>)
    requires
        cell_bounded(*block),
    ensures
        vec_int(r) == placement_cell(vec_int(*block), a, vec_int(*d)),
{
    let mut t = *block;
    match a {
        Axis::X => t.x = t.x - signum(d.x),
        Axis::Y => t.y = t.y - signum(d.y),
        Axis::Z => t.z = t.z - signum(d.z),
    }
    t
}

fn signum(v: i64) -> (r: i64)
    ensures
        r == sign(v as int),
{
    if v > 0 {
        1
    } else if v < 0 {
        -1
    } else {
        0
    }
}

/// Removing a solid cell and at once placing it back leaves the world as it was, so a ray
/// cast from the same place in the same direction reports what it reported before, and its
/// pixel keeps its color.
pub proof fn lemma_remove_place_keeps_color(
    cells: Seq<u8>,
    c: Vec3<i64>,
    start: Vec3<i64>,
    direction: Vec3<i64>,
    range: int,
    before: Option<RayHit>,
    after: Option<RayHit>,
)
    requires
        cells.len() == MAP_LENGTH,
        solid_at(cells, c.x as int, c.y as int, c.z as int),
        cast_result(before, cells, start, direction, range, false),
        cast_result(
            after,
            cells.update(cell_index(c.x as int, c.y as int, c.z as int), EMPTY).update(
                cell_index(c.x as int, c.y as int, c.z as int),
                SOLID,
            ),
            start,
            direction,
            range,
            false,
        ),
    ensures
        before == after,
        color_of(before, start, direction) == color_of(after, start, direction),
{
    lemma_remove_place_restores(cells, c.x as int, c.y as int, c.z as int);
    lemma_cast_result_unique(before, after, cells, start, direction, range, false);
}

/// In a world without a solid cell every pixel shows the sky, whatever its ray and range.
pub proof fn lemma_empty_world_is_sky(
    cells: Seq<u8>,
    start: Vec3<i64>,
    direction: Vec3<i64>,
    range: int,
    hit: Option<RayHit>,
)
    requires
        cells.len() == MAP_LENGTH,
        forall|i: int| 0 <= i < MAP_LENGTH ==> #[trigger] cells[i] == EMPTY,
        cast_result(hit, cells, start, direction, range, false),
    ensures
        color_of(hit, start, direction) == SKY_COLOR,
{
    lemma_empty_world_no_hit(hit, cells, start, direction, range, false);
}

} // verus!
