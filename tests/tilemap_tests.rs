use tileworld::geometry::{cell_rect, Rect, Vector2i, TILE_SIZE};
use tileworld::tile::Tile;
use tileworld::tilemap::Tilemap;

fn catalog() -> Vec<Tile> {
    vec![
        Tile::new("assets/background.png".to_string(), false, 0),
        Tile::new("assets/wall.png".to_string(), true, 1),
    ]
}

#[test]
fn set_tile_then_get_tile() {
    let mut map = Tilemap::new(catalog());
    assert!(map.get_tile(&Vector2i::new(3, 4)).is_none());
    map.set_tile(Vector2i::new(3, 4), 1);
    let t = map.get_tile(&Vector2i::new(3, 4)).unwrap();
    assert_eq!(t.id(), 1);
    assert!(t.solid());
    assert_eq!(t.texture(), "assets/wall.png");
}

#[test]
fn set_tile_overwrites() {
    let mut map = Tilemap::new(catalog());
    map.set_tile(Vector2i::new(-2, 5), 1);
    map.set_tile(Vector2i::new(-2, 5), 0);
    assert_eq!(map.get_tile(&Vector2i::new(-2, 5)).unwrap().id(), 0);
}

#[test]
fn unknown_id_resolves_to_nothing() {
    let mut map = Tilemap::new(catalog());
    map.set_tile(Vector2i::new(0, 0), 42);
    assert!(map.get_tile(&Vector2i::new(0, 0)).is_none());
    assert!(map.iter().is_empty());
    let r = cell_rect(Vector2i::new(0, 0));
    assert!(!map.collides(&r));
}

#[test]
fn collides_over_solid_cell_only() {
    let mut map = Tilemap::new(catalog());
    map.set_tile(Vector2i::new(0, 0), 0);
    map.set_tile(Vector2i::new(1, 0), 1);
    let over_background = Rect::new(10, 10, TILE_SIZE - 20, TILE_SIZE - 20);
    assert!(!map.collides(&over_background));
    let over_wall = Rect::new(TILE_SIZE, 0, TILE_SIZE, TILE_SIZE);
    assert!(map.collides(&over_wall));
    let touching_wall = Rect::new(0, 0, TILE_SIZE, TILE_SIZE);
    assert!(!map.collides(&touching_wall));
    let straddling = Rect::new(TILE_SIZE / 2, 0, TILE_SIZE, TILE_SIZE);
    assert!(map.collides(&straddling));
}

#[test]
fn rect_collision_is_strict() {
    let a = Rect::new(0, 0, 10, 10);
    assert!(!a.check_collision_recs(&Rect::new(10, 0, 5, 5)));
    assert!(a.check_collision_recs(&Rect::new(9, 9, 5, 5)));
    assert!(!a.check_collision_recs(&Rect::new(0, -5, 10, 5)));
}

#[test]
fn iter_lists_each_resolvable_cell_once() {
    let mut map = Tilemap::new(catalog());
    map.set_tile(Vector2i::new(0, 0), 0);
    map.set_tile(Vector2i::new(1, 0), 1);
    map.set_tile(Vector2i::new(1, 0), 1);
    map.set_tile(Vector2i::new(5, 5), 9);
    let mut cells: Vec<(i32, i32, usize)> = map.iter().iter().map(|(p, t)| (p.x, p.y, t.id())).collect();
    cells.sort();
    assert_eq!(cells, vec![(0, 0, 0), (1, 0, 1)]);
}

#[test]
fn positions_with_id_finds_matches() {
    let mut map = Tilemap::new(catalog());
    map.set_tile(Vector2i::new(0, 0), 1);
    map.set_tile(Vector2i::new(2, 3), 1);
    map.set_tile(Vector2i::new(4, 4), 0);
    let mut found: Vec<(i32, i32)> = map.positions_with_id(1).iter().map(|p| (p.x, p.y)).collect();
    found.sort();
    assert_eq!(found, vec![(0, 0), (2, 3)]);
    assert!(map.positions_with_id(7).is_empty());
}

#[test]
fn cell_rect_scales_by_tile_size() {
    let r = cell_rect(Vector2i::new(-1, 2));
    assert_eq!(r, Rect::new(-TILE_SIZE, 2 * TILE_SIZE, TILE_SIZE, TILE_SIZE));
    assert_eq!(TILE_SIZE, 25600);
}
