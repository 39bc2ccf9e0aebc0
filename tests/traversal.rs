use voxel_raycaster::grid::{VoxelGrid, SOLID};
use voxel_raycaster::raycast::{raycast, Axis, FIXED_ONE};
use voxel_raycaster::shade::{hit_to_color, SKY_COLOR};
use voxel_raycaster::vec3::Vec3;

const ONE: i64 = FIXED_ONE;

fn world_with(cells: &[(i64, i64, i64)]) -> VoxelGrid {
    let mut grid = VoxelGrid::new();
    for &(x, y, z) in cells {
        grid.set(&Vec3::new(x, y, z), SOLID);
    }
    grid
}

#[test]
fn hit_along_z_at_distance_five() {
    let grid = world_with(&[(5, 5, 5)]);
    let start = Vec3::new(ONE * 11 / 2, ONE * 11 / 2, 0);
    let dir = Vec3::new(0, 0, ONE);
    let hit = raycast(&grid, &start, &dir, 24 * ONE as u64, true).expect("hit");
    assert_eq!(hit.hit_side, Axis::Z);
    assert_eq!(hit.distance, 5 * ONE as u64 - 7);
    let b = hit.block.expect("block");
    assert_eq!((b.x, b.y, b.z), (5, 5, 5));
    assert_eq!(hit_to_color(Some(hit), &start, &dir), 3);
}

#[test]
fn solid_origin_hits_at_zero() {
    let grid = world_with(&[(2, 3, 4)]);
    let start = Vec3::new(2 * ONE + ONE / 2, 3 * ONE, 4 * ONE + 100);
    for dir in [Vec3::new(ONE, 0, 0), Vec3::new(-ONE, ONE / 3, 7), Vec3::new(0, 0, -ONE)] {
        let hit = raycast(&grid, &start, &dir, 24 * ONE as u64, false).expect("hit");
        assert_eq!(hit.distance, 0);
        assert_eq!(hit.hit_side, Axis::X);
        assert!(hit.block.is_none());
    }
}

#[test]
fn zero_range_sees_only_the_origin_cell() {
    let start = Vec3::new(ONE / 2, ONE / 2, ONE / 2);
    let dir = Vec3::new(0, 0, ONE);
    let solid = world_with(&[(0, 0, 0)]);
    let hit = raycast(&solid, &start, &dir, 0, true).expect("hit");
    assert_eq!(hit.distance, 0);
    let next = world_with(&[(0, 0, 1)]);
    assert!(raycast(&next, &start, &dir, 0, true).is_none());
}

#[test]
fn empty_world_never_hits() {
    let grid = VoxelGrid::new();
    let start = Vec3::new(-3 * ONE, 17 * ONE + 5, ONE / 7);
    let dirs = [
        Vec3::new(ONE, 0, 0),
        Vec3::new(-ONE / 2, ONE / 3, ONE),
        Vec3::new(40000, -50000, 12345),
        Vec3::new(0, -ONE, 0),
    ];
    for dir in dirs {
        for range in [0u64, 1, ONE as u64, 24 * ONE as u64, 1000 * ONE as u64] {
            let hit = raycast(&grid, &start, &dir, range, false);
            assert!(hit.is_none());
            assert_eq!(hit_to_color(hit, &start, &dir), SKY_COLOR);
        }
    }
}

#[test]
fn range_stops_short_of_a_far_cell() {
    let grid = world_with(&[(10, 0, 0)]);
    let start = Vec3::new(ONE / 2, ONE / 2, ONE / 2);
    let dir = Vec3::new(ONE, 0, 0);
    // The range is checked before each step, so the last step may end past it.
    assert!(raycast(&grid, &start, &dir, 8 * ONE as u64, false).is_none());
    let hit = raycast(&grid, &start, &dir, 9 * ONE as u64, false).expect("hit");
    assert_eq!(hit.hit_side, Axis::X);
    assert_eq!(hit.distance, (9 * ONE + ONE / 2 - 7) as u64);
}

#[test]
fn negative_direction_walks_backwards_through_the_wrap() {
    let grid = world_with(&[(30, 0, 0)]);
    let start = Vec3::new(ONE / 2, ONE / 2, ONE / 2);
    let dir = Vec3::new(-ONE, 0, 0);
    let hit = raycast(&grid, &start, &dir, 24 * ONE as u64, true).expect("hit");
    let b = hit.block.expect("block");
    assert_eq!((b.x, b.y, b.z), (-2, 0, 0));
    assert_eq!(hit.hit_side, Axis::X);
    assert_eq!(hit.distance, (2 * ONE + ONE / 2 + 7) as u64 - ONE as u64);
}

#[test]
fn floor_face_uses_x_and_z_texture_coordinates() {
    let grid = world_with(&[(0, -1, 0)]);
    let start = Vec3::new(ONE / 16, ONE / 2, ONE * 5 / 16);
    let dir = Vec3::new(0, -ONE, 0);
    let hit = raycast(&grid, &start, &dir, 24 * ONE as u64, false).expect("hit");
    assert_eq!(hit.hit_side, Axis::Y);
    // u = floor(8 / 16) = 0, v = floor(40 / 16) = 2; row 2 has bit 0 clear.
    assert_eq!(hit_to_color(Some(hit), &start, &dir), 2);
    let lit = Vec3::new(ONE * 5 / 16, ONE / 2, ONE * 5 / 16);
    let hit = raycast(&grid, &lit, &dir, 24 * ONE as u64, false).expect("hit");
    // u = 2, v = 2: bit 2 of row 2 is set.
    assert_eq!(hit_to_color(Some(hit), &lit, &dir), 3);
}

#[test]
fn x_face_colors() {
    let grid = world_with(&[(1, 0, 0)]);
    let start = Vec3::new(ONE / 2, 0, 0);
    let dir = Vec3::new(ONE, 0, 0);
    let hit = raycast(&grid, &start, &dir, 24 * ONE as u64, false).expect("hit");
    assert_eq!(hit.hit_side, Axis::X);
    // Hit point near (1, 0, 0): u = floor(8 * 0.99989) = 7, v = 0; row 0 has bit 7 set.
    assert_eq!(hit_to_color(Some(hit), &start, &dir), 2);
}

#[test]
fn long_empty_cast_terminates() {
    let grid = VoxelGrid::new();
    let start = Vec3::new(0, 0, 0);
    let dir = Vec3::new(ONE, ONE, ONE);
    assert!(raycast(&grid, &start, &dir, 2000 * ONE as u64, true).is_none());
}
