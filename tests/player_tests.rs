use tileworld::geometry::{Rect, Vector2i, TILE_SIZE};
use tileworld::player::{Controls, Player, Vec2, GRACE_TICKS};
use tileworld::tile::Tile;
use tileworld::tilemap::Tilemap;

const SCREEN_W: i32 = 1024;
const SCREEN_H: i32 = 640;

fn no_input() -> Controls {
    Controls { left: false, right: false, jump: false, grow: false, shrink: false }
}

fn map_with_walls(cells: &[(i32, i32)]) -> Tilemap {
    let mut map = Tilemap::new(vec![
        Tile::new("bg.png".to_string(), false, 0),
        Tile::new("wall.png".to_string(), true, 1),
    ]);
    for (x, y) in cells {
        map.set_tile(Vector2i::new(*x, *y), 1);
    }
    map
}

#[test]
fn new_player_is_at_rest() {
    let p = Player::new(Vec2 { x: 100, y: 200 });
    assert_eq!(p.position, Vec2 { x: 100, y: 200 });
    assert_eq!(p.velocity, Vec2 { x: 0, y: 0 });
    assert_eq!(p.scale(), 100);
    assert!(!p.on_ground);
    assert!(p.is_well_formed());
}

#[test]
fn hitbox_is_inset_and_scaled() {
    let p = Player::new(Vec2 { x: 0, y: 0 });
    assert_eq!(p.hitbox(), Rect::new(3200, 0, 25500, 25600));
}

#[test]
fn falling_actor_lands_on_floor() {
    let map = map_with_walls(&[(0, 1), (1, 1), (2, 1)]);
    let mut p = Player::new(Vec2 { x: 0, y: 0 });
    p.update(&map, &no_input(), SCREEN_W, SCREEN_H);
    assert!(p.on_ground);
    assert_eq!(p.velocity.y, 0);
    assert!(p.position.y <= 0);
    assert!(!map.collides(&p.hitbox()));
}

#[test]
fn fast_actor_stops_short_of_wall() {
    let map = map_with_walls(&[(0, 1), (1, 1), (2, 1), (3, 1), (2, 0)]);
    let mut p = Player::new(Vec2 { x: 0, y: 0 });
    p.velocity = Vec2 { x: 40000, y: 0 };
    for _ in 0..5 {
        p.update(&map, &no_input(), SCREEN_W, SCREEN_H);
        assert!(!map.collides(&p.hitbox()));
    }
    assert!(p.position.x + 3200 + 25500 <= 2 * TILE_SIZE);
}

#[test]
fn grounded_grace_lasts_ten_ticks() {
    let map = map_with_walls(&[]);
    let mut p = Player::new(Vec2 { x: 0, y: 0 });
    for tick in 0..(GRACE_TICKS + 3) {
        p.update(&map, &no_input(), SCREEN_W, SCREEN_H);
        assert_eq!(p.on_ground, tick <= GRACE_TICKS, "tick {}", tick);
    }
}

#[test]
fn jump_needs_ground() {
    let map = map_with_walls(&[(0, 1), (1, 1)]);
    let mut p = Player::new(Vec2 { x: 0, y: 0 });
    p.update(&map, &no_input(), SCREEN_W, SCREEN_H);
    assert!(p.on_ground);
    let jump = Controls { jump: true, ..no_input() };
    p.update(&map, &jump, SCREEN_W, SCREEN_H);
    assert!(p.position.y < 0 || p.position.y == 0 && p.velocity.y < 0);
    assert!(!p.on_ground);
    assert_eq!(p.tick_since_last_ground, 101);
}

#[test]
fn grow_and_shrink_by_steps() {
    let map = map_with_walls(&[]);
    let mut p = Player::new(Vec2 { x: 0, y: 100000 });
    let grow = Controls { grow: true, ..no_input() };
    p.update(&map, &grow, SCREEN_W, SCREEN_H);
    assert_eq!(p.scale(), 105);
    let shrink = Controls { shrink: true, ..no_input() };
    p.update(&map, &shrink, SCREEN_W, SCREEN_H);
    assert_eq!(p.scale(), 100);
    p.update(&map, &shrink, SCREEN_W, SCREEN_H);
    assert_eq!(p.scale(), 100);
}

#[test]
fn growth_refused_under_ceiling() {
    let map = map_with_walls(&[(0, 0), (1, 0), (0, 2), (1, 2)]);
    let mut p = Player::new(Vec2 { x: 0, y: TILE_SIZE });
    let grow = Controls { grow: true, ..no_input() };
    p.update(&map, &grow, SCREEN_W, SCREEN_H);
    assert_eq!(p.scale(), 100);
}

#[test]
fn position_clamped_to_screen() {
    let map = map_with_walls(&[]);
    let mut p = Player::new(Vec2 { x: -5000, y: 0 });
    p.update(&map, &no_input(), SCREEN_W, SCREEN_H);
    assert_eq!(p.position.x, 0);
    let mut q = Player::new(Vec2 { x: 1024 * 400, y: 640 * 400 });
    q.update(&map, &no_input(), SCREEN_W, SCREEN_H);
    assert_eq!(q.position.x, 1024 * 400 - 25600);
    assert_eq!(q.position.y, 640 * 400 - 25600);
}

#[test]
fn tile_under_center() {
    let p = Player::new(Vec2 { x: 2 * TILE_SIZE, y: 3 * TILE_SIZE + TILE_SIZE / 2 + 1 });
    assert_eq!(p.tile_pos_center(), Vector2i::new(2, 4));
    let q = Player::new(Vec2 { x: 0, y: 0 });
    assert_eq!(q.tile_pos_center(), Vector2i::new(0, 0));
}
