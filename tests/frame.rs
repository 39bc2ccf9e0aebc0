use voxel_raycaster::framebuffer::{pixel, FRAMEBUFFER_LEN};
use voxel_raycaster::game::{
    pixel_range, Game, WorldStyle, BUTTON_1, BUTTON_2, RAY_RANGE, SHADOW_DISTANCE, SCREEN_HEIGHT, SCREEN_WIDTH,
};
use voxel_raycaster::grid::{EMPTY, SOLID};
use voxel_raycaster::raycast::FIXED_ONE;
use voxel_raycaster::shade::SKY_COLOR;
use voxel_raycaster::vec3::Vec3;

const ONE: i64 = FIXED_ONE;

fn read_pixel(fb: &[u8], x: usize, y: usize) -> u8 {
    (fb[(y * 160 + x) / 4] >> ((x % 4) * 2)) & 3
}

#[test]
fn new_game_is_empty_and_start_builds_terraces() {
    let mut game = Game::new();
    assert_eq!(game.frame_count, 0);
    assert_eq!(game.previous_gamepad1, 0);
    assert_eq!(game.map.at(&Vec3::new(0, 20, 0)), EMPTY);
    game.start();
    assert_eq!(game.map.at(&Vec3::new(0, 20, 0)), SOLID);
    assert_eq!(game.map.at(&Vec3::new(0, 15, 0)), EMPTY);
}

#[test]
fn dithering_alternates_ranges() {
    assert_eq!(pixel_range(0, 0), SHADOW_DISTANCE);
    assert_eq!(pixel_range(1, 0), RAY_RANGE);
    assert_eq!(pixel_range(7, 4), RAY_RANGE);
    assert_eq!(pixel_range(159, 159), SHADOW_DISTANCE);
}

#[test]
fn empty_world_renders_all_sky() {
    let game = Game::new();
    let position = Vec3::new(0, 15 * ONE, 0);
    for y in (0..SCREEN_HEIGHT).step_by(7) {
        for x in (0..SCREEN_WIDTH).step_by(5) {
            let dx = 2 * ONE * x as i64 / 160 - ONE;
            let dy = 2 * ONE * y as i64 / 160 - ONE;
            let dir = Vec3::new(dx, dy, ONE);
            assert_eq!(game.shade_pixel(x, y, &position, &dir), SKY_COLOR);
        }
    }
}

#[test]
fn remove_then_place_restores_pixel_color() {
    let mut game = Game::new();
    game.start();
    let position = Vec3::new(ONE / 2, 15 * ONE + ONE / 2, ONE / 2);
    let dir = Vec3::new(ONE / 5, ONE / 2, ONE);
    let before = game.shade_pixel(3, 8, &position, &dir);
    assert_ne!(before, SKY_COLOR);
    let cell = Vec3::new(0, 16, 1);
    assert!(game.map.is_solid(&cell));
    game.map.set(&cell, EMPTY);
    game.map.set(&cell, SOLID);
    assert_eq!(game.shade_pixel(3, 8, &position, &dir), before);
}

#[test]
fn remove_button_empties_the_picked_cell_on_press_only() {
    let mut game = Game::new();
    game.start();
    let position = Vec3::new(ONE / 2, 15 * ONE + ONE / 2, ONE / 2);
    let down = Vec3::new(0, ONE, 0);
    assert!(game.map.is_solid(&Vec3::new(0, 16, 0)));
    game.update(BUTTON_1, &position, &down);
    assert!(!game.map.is_solid(&Vec3::new(0, 16, 0)));
    assert_eq!(game.frame_count, 1);
    assert_eq!(game.previous_gamepad1, BUTTON_1);
    // Held, not pressed again: nothing more is removed.
    game.update(BUTTON_1, &position, &down);
    assert!(game.map.is_solid(&Vec3::new(0, 17, 0)));
    game.update(0, &position, &down);
    game.update(BUTTON_1, &position, &down);
    assert!(!game.map.is_solid(&Vec3::new(0, 17, 0)));
}

#[test]
fn place_button_fills_the_cell_before_the_hit_face() {
    let mut game = Game::new();
    game.start();
    let position = Vec3::new(ONE / 2, 13 * ONE + ONE / 2, ONE / 2);
    let down = Vec3::new(0, ONE, 0);
    assert!(!game.map.is_solid(&Vec3::new(0, 15, 0)));
    game.update(BUTTON_2, &position, &down);
    assert!(game.map.is_solid(&Vec3::new(0, 15, 0)));
    assert!(!game.map.is_solid(&Vec3::new(0, 14, 0)));
    // Both pressed at once: removal wins.
    game.update(0, &position, &down);
    game.update(BUTTON_1 | BUTTON_2, &position, &down);
    assert!(!game.map.is_solid(&Vec3::new(0, 15, 0)));
}

#[test]
fn pick_out_of_reach_changes_nothing() {
    let mut game = Game::new();
    game.start();
    let position = Vec3::new(ONE / 2, 8 * ONE + ONE / 2, ONE / 2);
    let up = Vec3::new(0, -ONE, 0);
    game.update(BUTTON_2, &position, &up);
    for y in 0..16i64 {
        assert!(!game.map.is_solid(&Vec3::new(0, y, 0)));
    }
}

#[test]
fn pixel_writes_one_two_bit_field() {
    let mut fb = vec![0u8; FRAMEBUFFER_LEN];
    pixel(&mut fb, 4, 5, 1);
    assert_eq!(read_pixel(&fb, 5, 1), 3);
    assert_eq!(fb[(160 + 5) / 4], 0b0000_1100);
    pixel(&mut fb, 2, 4, 1);
    assert_eq!(read_pixel(&fb, 4, 1), 1);
    assert_eq!(read_pixel(&fb, 5, 1), 3);
    pixel(&mut fb, 0x40, 5, 1);
    assert_eq!(read_pixel(&fb, 5, 1), 3);
    pixel(&mut fb, 0x11, 5, 1);
    assert_eq!(read_pixel(&fb, 5, 1), 0);
    assert_eq!(read_pixel(&fb, 4, 1), 1);
}

#[test]
fn scattered_style_draws_from_the_game_rng() {
    let mut game = Game::new();
    game.generate(WorldStyle::Scattered);
    let mut rng = voxel_raycaster::rng::Rng::new(777);
    let first = rng.range(100) > 90;
    let second = rng.range(100) > 90;
    assert_eq!(game.map.is_solid(&Vec3::new(0, 0, 0)), first);
    assert_eq!(game.map.is_solid(&Vec3::new(1, 0, 0)), second);
    let mut again = Game::new();
    again.generate(WorldStyle::Scattered);
    assert_eq!(again.map.at(&Vec3::new(13, 7, 29)), game.map.at(&Vec3::new(13, 7, 29)));
    assert_eq!(game.rng.range(1000), again.rng.range(1000));
}
