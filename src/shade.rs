use vstd::prelude::*;
use crate::raycast::{Axis, RayHit, FIXED_ONE, FIXED_ONE_SQUARED, ray_ok};
use crate::vec3::Vec3;

verus! {

/// Color index of a pixel whose ray hit nothing.
pub const SKY_COLOR: u16 = 4;

/// Side of the square wall texture, in texels.
pub const TEXTURE_SIZE: u128 = 8;

/// Row `v` of the 8x8 monochrome wall texture; bit `u` set means the lighter shade.
pub open spec fn texture_row(v: int) -> u8 {
    if v == 0 {
        0b11000011u8
    } else if v == 1 {
        0b10000001u8
    } else if v == 2 || v == 3 || v == 5 {
        0b00100100u8
    } else if v == 4 {
        0b00000000u8
    } else if v == 6 {
        0b10011001u8
    } else {
        0b11000011u8
    }
}

/// Whether texel `(u, v)` of the wall texture is set.
pub open spec fn texel_set(u: int, v: int) -> bool {
    texture_row(v) & (1u8 << (u as u8)) != 0
}

pub open spec fn face_index(a: Axis) -> int {
    match a {
        Axis::X => 0,
        Axis::Y => 1,
        Axis::Z => 2,
    }
}

pub open spec fn abs(v: int) -> int {
    if v < 0 {
        -v
    } else {
        v
    }
}

/// Absolute value of one hit-point coordinate `o + t * d / FIXED_ONE`, scaled by `FIXED_ONE`
/// once more so that it is exact.
pub open spec fn hit_coord(o: int, t: int, d: int) -> int {
    abs(o * FIXED_ONE + t * d)
}

/// Texel index along one texture axis of a (scaled) hit-point coordinate.
pub open spec fn texel_of(a: int) -> int {
    (a * (TEXTURE_SIZE as int) / (FIXED_ONE_SQUARED as int)) % (TEXTURE_SIZE as int)
}

/// Texture coordinates of a hit: faces across Y map `(x, z)`, the others `(x + z, y)`.
pub open spec fn texture_uv(h: RayHit, o: Vec3<i64>, d: Vec3<i64>) -> (int, int) {
    let hx = hit_coord(o.x as int, h.distance as int, d.x as int);
    let hy = hit_coord(o.y as int, h.distance as int, d.y as int);
    let hz = hit_coord(o.z as int, h.distance as int, d.z as int);
    if h.hit_side == Axis::Y {
        (texel_of(hx), texel_of(hz))
    } else {
        (texel_of(hx + hz), texel_of(hy))
    }
}

/// Palette index of a traversal result: the sky, or the face index plus one, plus one more
/// where the texel is set.
pub open spec fn color_of(hit: Option<RayHit>, o: Vec3<i64>, d: Vec3<i64>) -> u16 {
    match hit {
        None => SKY_COLOR,
        Some(h) => {
            let (u, v) = texture_uv(h, o, d);
            (face_index(h.hit_side) + 1 + if texel_set(u, v) {
                1int
            } else {
                0int
            }) as u16
        },
    }
}

fn texture_row_of(v: u128) -> (r: u8)
    ensures
        r == texture_row(v as int),
{
    if v == 0 {
        0b11000011u8
    } else if v == 1 {
        0b10000001u8
    } else if v == 2 || v == 3 || v == 5 {
        0b00100100u8
    } else if v == 4 {
        0b00000000u8
    } else if v == 6 {
        0b10011001u8
    } else {
        0b11000011u8
    }
}

fn scaled_hit_coord(o: i64, t: u64, d: i64) -> (r: u128)
    requires
        -0x4000_0000_0000 <= o <= 0x4000_0000_0000,
        -0x1_0000_0000 <= d <= 0x1_0000_0000,
    ensures
        r == hit_coord(o as int, t as int, d as int),
        r <= 0x4_0000_0000_0000_0000_0000_0000,
{
    assert(-0x1_0000_0000_0000_0000_0000_0000 <= t * d <= 0x1_0000_0000_0000_0000_0000_0000)
        by (nonlinear_arith)
        requires
            0 <= t <= 0xffff_ffff_ffff_ffff,
            -0x1_0000_0000 <= d <= 0x1_0000_0000,
    ;
    assert(-0x4000_0000_0000_0000 <= o * FIXED_ONE <= 0x4000_0000_0000_0000) by (nonlinear_arith)
        requires
            -0x4000_0000_0000 <= o <= 0x4000_0000_0000,
    ;
    let p: i128 = (o as i128) * (FIXED_ONE as i128) + (t as i128) * (d as i128);
    if p < 0 {
        (-p) as u128
    } else {
        p as u128
    }
}

fn texel_index(a: u128) -> (r: u128)
    requires
        a <= 0x8_0000_0000_0000_0000_0000_0000,
    ensures
        r == texel_of(a as int),
        r < TEXTURE_SIZE,
{
    (a * TEXTURE_SIZE / (FIXED_ONE_SQUARED as u128)) % TEXTURE_SIZE
}

/// Maps a traversal result to a palette index from the face crossed and the texel at the hit point.
pub fn hit_to_color(ray_hit: Option<RayHit>, start: &Vec3<i64>, direction: &Vec3<i64>) -> (r: u16)
    requires
        ray_ok(*start, *direction),
    ensures
        r == color_of(ray_hit, *start, *direction),
        1 <= r <= 4,
{
    match ray_hit {
        None => SKY_COLOR,
        Some(h) => {
            let hx = scaled_hit_coord(start.x, h.distance, direction.x);
            let hy = scaled_hit_coord(start.y, h.distance, direction.y);
            let hz = scaled_hit_coord(start.z, h.distance, direction.z);
            let u: u128;
            let v: u128;
            if h.hit_side == Axis::Y {
                u = texel_index(hx);
                v = texel_index(hz);
            } else {
                u = texel_index(hx + hz);
                v = texel_index(hy);
            }
            let face: u16 = match h.hit_side {
                Axis::X => 0,
                Axis::Y => 1,
                Axis::Z => 2,
            };
            let lit: u16 = if texture_row_of(v) & (1u8 << (u as u8)) != 0 {
                1
            } else {
                0
            };
            face + 1 + lit
        },
    }
}

} // verus!
