use tileworld::explosion::Explosion;
use tileworld::game::{set_player_pos, GameState, Interaction};
use tileworld::geometry::{Vector2i, TILE_SIZE};
use tileworld::level::{Level, LeverEffect, LeverRule};
use tileworld::player::{Player, Vec2};
use tileworld::tile::{Tile, BACKGROUND, BOMB, EXIT, LEVER_OFF, LEVER_ON, SPAWN, WALL, WEAK_WALL};
use tileworld::tilemap::Tilemap;

fn catalog() -> Vec<Tile> {
    let names = [
        ("background", false),
        ("wall", true),
        ("vent", false),
        ("dead_robot", false),
        ("exit", false),
        ("weak_wall", true),
        ("lever_off", false),
        ("lever_on", false),
        ("bomb", false),
        ("spawn", false),
    ];
    names.iter().enumerate().map(|(i, (n, s))| Tile::new(format!("assets/{}.png", n), *s, i)).collect()
}

fn v(x: i32, y: i32) -> Vector2i {
    Vector2i::new(x, y)
}

fn id_at(map: &Tilemap, x: i32, y: i32) -> Option<usize> {
    map.get_tile(&v(x, y)).map(|t| t.id())
}

fn grid(w: i32, h: i32, id: usize) -> Tilemap {
    let mut map = Tilemap::new(catalog());
    for x in 0..w {
        for y in 0..h {
            map.set_tile(v(x, y), id);
        }
    }
    map
}

fn session(map: Tilemap, hook: Vec<LeverRule>) -> GameState {
    GameState::new(Level::new(map, hook), Vec::new())
}

#[test]
fn detonate_without_placed_bombs_destroys_nothing() {
    let mut map = grid(4, 4, BACKGROUND);
    map.set_tile(v(1, 1), BOMB);
    map.set_tile(v(2, 1), WEAK_WALL);
    let mut game = session(map, Vec::new());
    let mut explosions: Vec<Explosion> = Vec::new();
    game.detonate_all_bombs(&mut explosions);
    assert!(explosions.is_empty());
    assert_eq!(id_at(&game.current_level.tilemap, 1, 1), Some(BOMB));
    assert_eq!(id_at(&game.current_level.tilemap, 2, 1), Some(WEAK_WALL));
}

#[test]
fn place_then_detonate_clears_block() {
    let mut map = grid(5, 5, BACKGROUND);
    map.set_tile(v(3, 2), BOMB);
    map.set_tile(v(1, 1), WEAK_WALL);
    map.set_tile(v(3, 3), WEAK_WALL);
    map.set_tile(v(2, 3), WALL);
    map.set_tile(v(4, 4), WEAK_WALL);
    let mut game = session(map, Vec::new());
    assert_eq!(game.interact(v(3, 2)), Interaction::BombPickedUp);
    assert_eq!(game.bombs, 1);
    assert_eq!(id_at(&game.current_level.tilemap, 3, 2), Some(BACKGROUND));
    assert_eq!(game.interact(v(2, 2)), Interaction::BombPlaced);
    assert_eq!(game.bombs, 0);
    assert_eq!(id_at(&game.current_level.tilemap, 2, 2), Some(BOMB));
    assert_eq!(game.placed_bombs, vec![v(2, 2)]);
    let mut explosions: Vec<Explosion> = Vec::new();
    game.detonate_all_bombs(&mut explosions);
    assert_eq!(explosions, vec![Explosion::new(v(2, 2))]);
    assert!(game.placed_bombs.is_empty());
    let map = &game.current_level.tilemap;
    assert_eq!(id_at(map, 2, 2), Some(BACKGROUND));
    assert_eq!(id_at(map, 1, 1), Some(BACKGROUND));
    assert_eq!(id_at(map, 3, 3), Some(BACKGROUND));
    assert_eq!(id_at(map, 2, 3), Some(WALL));
    assert_eq!(id_at(map, 4, 4), Some(WEAK_WALL));
}

#[test]
fn untracked_bomb_tile_stays_on_detonation() {
    let mut map = grid(6, 3, BACKGROUND);
    map.set_tile(v(4, 1), BOMB);
    map.set_tile(v(5, 1), WEAK_WALL);
    let mut game = session(map, Vec::new());
    game.bombs = 1;
    assert_eq!(game.interact(v(1, 1)), Interaction::BombPlaced);
    let mut explosions: Vec<Explosion> = Vec::new();
    game.detonate_all_bombs(&mut explosions);
    assert_eq!(explosions.len(), 1);
    assert_eq!(id_at(&game.current_level.tilemap, 4, 1), Some(BOMB));
    assert_eq!(id_at(&game.current_level.tilemap, 5, 1), Some(WEAK_WALL));
    assert_eq!(id_at(&game.current_level.tilemap, 1, 1), Some(BACKGROUND));
}

#[test]
fn placing_needs_a_carried_bomb() {
    let mut game = session(grid(2, 2, BACKGROUND), Vec::new());
    assert_eq!(game.interact(v(0, 0)), Interaction::Nothing);
    assert_eq!(id_at(&game.current_level.tilemap, 0, 0), Some(BACKGROUND));
    assert_eq!(game.interact(v(9, 9)), Interaction::Nothing);
}

#[test]
fn lever_double_toggle_restores_and_fires_hook_twice() {
    let mut map = grid(4, 4, BACKGROUND);
    map.set_tile(v(1, 1), LEVER_OFF);
    map.set_tile(v(3, 0), WALL);
    let hook = vec![LeverRule {
        lever: None,
        effect: LeverEffect::Swap { first: v(3, 0), second: v(3, 3), on: WALL, off: BACKGROUND },
    }];
    let mut game = session(map, hook);
    assert_eq!(game.interact(v(1, 1)), Interaction::LeverToggled);
    assert_eq!(id_at(&game.current_level.tilemap, 1, 1), Some(LEVER_ON));
    assert_eq!(id_at(&game.current_level.tilemap, 3, 0), Some(BACKGROUND));
    assert_eq!(id_at(&game.current_level.tilemap, 3, 3), Some(WALL));
    assert_eq!(game.interact(v(1, 1)), Interaction::LeverToggled);
    assert_eq!(id_at(&game.current_level.tilemap, 1, 1), Some(LEVER_OFF));
    assert_eq!(id_at(&game.current_level.tilemap, 3, 0), Some(WALL));
    assert_eq!(id_at(&game.current_level.tilemap, 3, 3), Some(BACKGROUND));
}

#[test]
fn lever_rules_match_their_lever() {
    let mut map = grid(14, 9, BACKGROUND);
    map.set_tile(v(7, 8), LEVER_OFF);
    map.set_tile(v(13, 8), LEVER_OFF);
    map.set_tile(v(1, 5), WALL);
    map.set_tile(v(11, 1), WALL);
    let hook = vec![
        LeverRule { lever: Some(v(13, 8)), effect: LeverEffect::SetTile { pos: v(1, 5), id: BACKGROUND } },
        LeverRule { lever: Some(v(1, 1)), effect: LeverEffect::SetTile { pos: v(11, 1), id: BACKGROUND } },
    ];
    let mut level = Level::new(map, hook);
    assert!(level.toggle_lever(v(13, 8)));
    assert_eq!(id_at(&level.tilemap, 1, 5), Some(BACKGROUND));
    assert_eq!(id_at(&level.tilemap, 11, 1), Some(WALL));
    assert!(!level.toggle_lever(v(0, 0)));
    level.on_lever_flip(1, 1);
    assert_eq!(id_at(&level.tilemap, 11, 1), Some(BACKGROUND));
}

#[test]
fn exit_advances_then_wins() {
    let mut first = grid(3, 1, BACKGROUND);
    first.set_tile(v(2, 0), EXIT);
    let mut second = grid(3, 1, BACKGROUND);
    second.set_tile(v(0, 0), EXIT);
    second.set_tile(v(1, 0), SPAWN);
    let mut game = GameState::new(Level::new(first, Vec::new()), vec![Level::new(second, Vec::new())]);
    assert!(!game.check_exit(v(0, 0)));
    assert!(!game.won);
    assert!(game.check_exit(v(2, 0)));
    assert!(game.levels.is_empty());
    assert_eq!(id_at(&game.current_level.tilemap, 1, 0), Some(SPAWN));
    let mut player = Player::new(Vec2 { x: 0, y: 0 });
    set_player_pos(&game, &mut player);
    assert_eq!(player.position, Vec2 { x: TILE_SIZE, y: 0 });
    assert!(!game.check_exit(v(0, 0)));
    assert!(game.won);
}

#[test]
fn no_spawn_keeps_player() {
    let game = session(grid(2, 2, BACKGROUND), Vec::new());
    let mut player = Player::new(Vec2 { x: 7, y: 9 });
    set_player_pos(&game, &mut player);
    assert_eq!(player.position, Vec2 { x: 7, y: 9 });
}

#[test]
fn explosion_frames_then_finishes() {
    let mut e = Explosion::new(v(1, 1));
    let mut frames = Vec::new();
    while let Some(f) = e.next_frame(3) {
        frames.push(f);
    }
    assert_eq!(frames, vec![0, 0, 0, 0, 0, 0, 0, 1, 1, 1, 1, 1, 1, 1, 2, 2]);
    assert!(e.finished());
    assert_eq!(e.next_frame(3), None);
}
