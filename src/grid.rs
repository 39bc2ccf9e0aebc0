use vstd::prelude::*;
use vstd::arithmetic::div_mod::{lemma_fundamental_div_mod_converse, lemma_mod_multiples_vanish};
use crate::rng::{Rng, xorshift_iter};
use crate::vec3::Vec3;

verus! {

/// Side length of the cubic world; a power of two so that addressing wraps by masking.
pub const MAP_SIZE: usize = 32;

/// Number of cells in the world.
pub const MAP_LENGTH: usize = 32768;

/// Occupancy code of an empty cell.
pub const EMPTY: u8 = 0;

/// Occupancy code of a solid cell.
pub const SOLID: u8 = 1;

/// Draws above this value (out of 100) make a scattered cell solid.
pub const SCATTER_THRESHOLD: u32 = 90;

/// A coordinate folded into `[0, MAP_SIZE)`: the world repeats with period `MAP_SIZE`.
pub open spec fn wrap(c: int) -> int {
    c % (MAP_SIZE as int)
}

/// Position in the flat cell storage of the (wrapped) coordinate `(x, y, z)`.
pub open spec fn cell_index(x: int, y: int, z: int) -> int {
    wrap(x) + wrap(y) * 32 + wrap(z) * 1024
}

/// The height coordinate of the cell stored at flat position `i`.
pub open spec fn layer_of(i: int) -> int {
    (i / 32) % 32
}

/// The world `cells` with every cell of the upper half of the height axis made solid.
pub open spec fn terraced(cells: Seq<u8>) -> Seq<u8> {
    Seq::new(cells.len(), |i: int| if layer_of(i) >= 16 { SOLID } else { cells[i] })
}

/// Occupancy code at `(x, y, z)` of the world whose flat storage is `cells`.
pub open spec fn voxel_of(cells: Seq<u8>, x: int, y: int, z: int) -> u8 {
    cells[cell_index(x, y, z)]
}

/// Whether `(x, y, z)` is solid in the world whose flat storage is `cells`.
pub open spec fn solid_at(cells: Seq<u8>, x: int, y: int, z: int) -> bool {
    voxel_of(cells, x, y, z) == SOLID
}

/// Occupancy of the cell at flat position `i` after scattering from an RNG in state `seed`.
pub open spec fn scattered_cell(seed: u32, i: int) -> u8 {
    if xorshift_iter(seed, (i + 1) as nat) % 100 > SCATTER_THRESHOLD {
        SOLID
    } else {
        EMPTY
    }
}

pub proof fn lemma_cell_index_bounds(x: int, y: int, z: int)
    ensures
        0 <= cell_index(x, y, z) < MAP_LENGTH,
        0 <= wrap(x) < 32,
        0 <= wrap(y) < 32,
        0 <= wrap(z) < 32,
{
}

pub proof fn lemma_layer_of_index(x: int, y: int, z: int)
    ensures
        layer_of(cell_index(x, y, z)) == wrap(y),
{
    let (wx, wy, wz) = (wrap(x), wrap(y), wrap(z));
    lemma_fundamental_div_mod_converse(wx + wy * 32 + wz * 1024, 32, wy + wz * 32, wx);
    lemma_fundamental_div_mod_converse(wy + wz * 32, 32, wz, wy);
}

/// A terraced world is solid exactly in the upper half of the height axis, wherever a
/// coordinate lies; elsewhere it keeps what it held.
pub proof fn lemma_terraced_voxel(cells: Seq<u8>, x: int, y: int, z: int)
    requires
        cells.len() == MAP_LENGTH,
    ensures
        voxel_of(terraced(cells), x, y, z) == if wrap(y) >= 16 {
            SOLID
        } else {
            voxel_of(cells, x, y, z)
        },
{
    lemma_layer_of_index(x, y, z);
}

/// The world repeats with period `MAP_SIZE` along every axis: shifting a coordinate by any
/// whole number of world sizes, negative ones included, reaches the same cell.
pub proof fn lemma_voxel_periodic(cells: Seq<u8>, x: int, y: int, z: int, kx: int, ky: int, kz: int)
    ensures
        cell_index(x + kx * 32, y + ky * 32, z + kz * 32) == cell_index(x, y, z),
        voxel_of(cells, x + kx * 32, y + ky * 32, z + kz * 32) == voxel_of(cells, x, y, z),
{
    lemma_mod_multiples_vanish(kx, x, 32);
    lemma_mod_multiples_vanish(ky, y, 32);
    lemma_mod_multiples_vanish(kz, z, 32);
    assert(x + kx * 32 == 32 * kx + x);
    assert(y + ky * 32 == 32 * ky + y);
    assert(z + kz * 32 == 32 * kz + z);
}

/// Emptying a solid cell and then making it solid again gives back the world as it was.
pub proof fn lemma_remove_place_restores(cells: Seq<u8>, x: int, y: int, z: int)
    requires
        cells.len() == MAP_LENGTH,
        solid_at(cells, x, y, z),
    ensures
        cells.update(cell_index(x, y, z), EMPTY).update(cell_index(x, y, z), SOLID) == cells,
{
    lemma_cell_index_bounds(x, y, z);
    assert(cells.update(cell_index(x, y, z), EMPTY).update(cell_index(x, y, z), SOLID) =~= cells);
}

/// Fixed-size toroidal voxel world.
pub struct VoxelGrid {
    cells: Vec<u8>,
}

impl View for VoxelGrid {
    type V = Seq<u8>;

    closed spec fn view(&self) -> Seq<u8> {
        self.cells@
    }
}

/// `c % 32` for a machine integer of either sign.
fn wrap_coord(c: i64) -> (r: usize)
    ensures
        r == wrap(c as int),
{
    if c >= 0 {
        (c as u64 % 32) as usize
    } else {
        let n: u64 = (-(c + 1)) as u64;
        let m: u64 = n % 32;
        proof {
            lemma_fundamental_div_mod_converse(c as int, 32, -((n / 32) as int) - 1, 31 - m);
        }
        (31 - m) as usize
    }
}

/// Flat storage position of a cell coordinate.
pub fn cell_offset(c: &Vec3<i64>) -> (r: usize)
    ensures
        r == cell_index(c.x as int, c.y as int, c.z as int),
        r < MAP_LENGTH,
{
    let x = wrap_coord(c.x);
    let y = wrap_coord(c.y);
    let z = wrap_coord(c.z);
    x + y * 32 + z * 1024
}

impl VoxelGrid {
    pub open spec fn wf(&self) -> bool {
        self@.len() == MAP_LENGTH
    }

    /// An all-empty world.
    pub fn new() -> (r: Self)
        ensures
            r.wf(),
            forall|i: int| 0 <= i < MAP_LENGTH ==> #[trigger] r@[i] == EMPTY,
    {
        VoxelGrid { cells: vec![EMPTY; MAP_LENGTH] }
    }

    /// Occupancy code at a cell coordinate; any coordinate is valid.
    pub fn at(&self, c: &Vec3<i64>) -> (r: u8)
        requires
            self.wf(),
        ensures
            r == voxel_of(self@, c.x as int, c.y as int, c.z as int),
    {
        self.cells[cell_offset(c)]
    }

    pub fn is_solid(&self, c: &Vec3<i64>) -> (r: bool)
        requires
            self.wf(),
        ensures
            r == solid_at(self@, c.x as int, c.y as int, c.z as int),
    {
        self.at(c) == SOLID
    }

    /// Stores `value` at a cell coordinate; any coordinate is valid.
    pub fn set(&mut self, c: &Vec3<i64>, value: u8)
        requires
            old(self).wf(),
        ensures
            final(self).wf(),
            final(self)@ == old(self)@.update(cell_index(c.x as int, c.y as int, c.z as int), value),
    {
        let i = cell_offset(c);
        self.cells.set(i, value);
    }

    /// Makes solid every cell in the upper half of the height axis; the rest keep their codes.
    pub fn fill_terraced(&mut self)
        requires
            old(self).wf(),
        ensures
            final(self).wf(),
            final(self)@ == terraced(old(self)@),
    {
        let mut i: usize = 0;
        while i < MAP_LENGTH
            invariant
                self.wf(),
                i <= MAP_LENGTH,
                forall|j: int|
                    0 <= j < i ==> #[trigger] self@[j] == if layer_of(j) >= 16 {
                        SOLID
                    } else {
                        old(self)@[j]
                    },
                forall|j: int| i <= j < MAP_LENGTH ==> #[trigger] self@[j] == old(self)@[j],
            decreases MAP_LENGTH - i,
        {
            if (i / 32) % 32 >= 16 {
                self.cells.set(i, SOLID);
            }
            i = i + 1;
        }
        assert(self@ =~= terraced(old(self)@));
    }

    /// Makes each cell solid when its own draw from `rng` (in storage order) exceeds the threshold.
    pub fn fill_scattered(&mut self, rng: &mut Rng)
        requires
            old(self).wf(),
        ensures
            final(self).wf(),
            final(rng)@ == xorshift_iter(old(rng)@, MAP_LENGTH as nat),
            forall|i: int|
                0 <= i < MAP_LENGTH ==> #[trigger] final(self)@[i] == scattered_cell(old(rng)@, i),
    {
        let ghost seed = rng@;
        let mut i: usize = 0;
        while i < MAP_LENGTH
            invariant
                self.wf(),
                i <= MAP_LENGTH,
                rng@ == xorshift_iter(seed, i as nat),
                forall|j: int| 0 <= j < i ==> #[trigger] self@[j] == scattered_cell(seed, j),
            decreases MAP_LENGTH - i,
        {
            let draw = rng.range(100);
            assert(rng@ == xorshift_iter(seed, (i + 1) as nat));
            if draw > SCATTER_THRESHOLD {
                self.cells.set(i, SOLID);
            } else {
                self.cells.set(i, EMPTY);
            }
            i = i + 1;
        }
    }
}

} // verus!
