use voxel_raycaster::grid::{VoxelGrid, EMPTY, SOLID, MAP_LENGTH};
use voxel_raycaster::input::{direction_input, BUTTON_DOWN, BUTTON_LEFT, BUTTON_RIGHT, BUTTON_UP};
use voxel_raycaster::rng::Rng;
use voxel_raycaster::vec3::Vec3;

#[test]
fn vec3_new_keeps_components() {
    let v = Vec3::new(1i64, -2, 3);
    assert_eq!((v.x, v.y, v.z), (1, -2, 3));
}

#[test]
fn rng_range_follows_xorshift() {
    let mut rng = Rng::new(777);
    assert_eq!(rng.range(100), 9);
    assert_eq!(rng.range(100), 62);
    let mut wide = Rng::new(777);
    assert_eq!(wide.range(u32::MAX), 205866009);
}

#[test]
fn grid_wraps_around_every_axis() {
    let mut grid = VoxelGrid::new();
    grid.set(&Vec3::new(3, 4, 5), SOLID);
    for k in -3i64..=3 {
        let c = Vec3::new(3 + 32 * k, 4 - 32 * k, 5 + 64 * k);
        assert_eq!(grid.at(&c), SOLID);
        assert!(grid.is_solid(&c));
    }
    assert_eq!(grid.at(&Vec3::new(-29, 4, 5)), SOLID);
    assert_eq!(grid.at(&Vec3::new(-1, -1, -1)), EMPTY);
    grid.set(&Vec3::new(-1, -1, -1), SOLID);
    assert_eq!(grid.at(&Vec3::new(31, 31, 31)), SOLID);
}

#[test]
fn grid_starts_empty() {
    let grid = VoxelGrid::new();
    for i in 0..32i64 {
        assert_eq!(grid.at(&Vec3::new(i, i, i)), EMPTY);
    }
}

#[test]
fn terraced_world_is_solid_in_upper_half() {
    let mut grid = VoxelGrid::new();
    grid.fill_terraced();
    assert!(grid.is_solid(&Vec3::new(0, 16, 0)));
    assert!(grid.is_solid(&Vec3::new(7, 31, 20)));
    assert!(!grid.is_solid(&Vec3::new(0, 15, 0)));
    assert!(!grid.is_solid(&Vec3::new(9, 0, 31)));
    assert!(grid.is_solid(&Vec3::new(0, -1, 0)));
    assert!(!grid.is_solid(&Vec3::new(0, 32, 0)));
}

#[test]
fn scattered_world_is_deterministic_and_sparse() {
    let mut a = VoxelGrid::new();
    let mut b = VoxelGrid::new();
    let mut ra = Rng::new(777);
    let mut rb = Rng::new(777);
    a.fill_scattered(&mut ra);
    b.fill_scattered(&mut rb);
    let mut solid = 0usize;
    for z in 0..32i64 {
        for y in 0..32i64 {
            for x in 0..32i64 {
                let c = Vec3::new(x, y, z);
                assert_eq!(a.at(&c), b.at(&c));
                if a.is_solid(&c) {
                    solid += 1;
                }
            }
        }
    }
    assert!(solid > MAP_LENGTH / 20 && solid < MAP_LENGTH / 5);
    let mut first = Rng::new(777);
    let draw = first.range(100);
    assert_eq!(a.is_solid(&Vec3::new(0, 0, 0)), draw > 90);
}

#[test]
fn direction_input_reads_the_pad() {
    assert_eq!(direction_input(0), (0, 0));
    assert_eq!(direction_input(BUTTON_LEFT), (-1, 0));
    assert_eq!(direction_input(BUTTON_RIGHT | BUTTON_UP), (1, 1));
    assert_eq!(direction_input(BUTTON_LEFT | BUTTON_RIGHT | BUTTON_DOWN), (0, -1));
    assert_eq!(direction_input(BUTTON_UP | BUTTON_DOWN | 1), (0, 0));
}
