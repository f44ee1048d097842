use std::collections::HashMap;
use std::io::Cursor;

use tileworld::decode::{decode_raster, load_tilemap, tileset_from_table, LoadError, Raster, TileEntry};
use tileworld::geometry::{cell_rect, Rect, Vector2i, TILE_SIZE};

fn wall_table() -> HashMap<u32, TileEntry> {
    let mut table = HashMap::new();
    table.insert(0xFFFFFF, ("assets/background.png".to_string(), false, 0));
    table.insert(0x000000, ("assets/wall.png".to_string(), true, 1));
    table
}

fn id_at(map: &tileworld::tilemap::Tilemap, x: i32, y: i32) -> Option<usize> {
    map.get_tile(&Vector2i::new(x, y)).map(|t| t.id())
}

fn png_bytes(width: u32, height: u32, rgba: Vec<u8>) -> Vec<u8> {
    let img = image::RgbaImage::from_raw(width, height, rgba).unwrap();
    let mut buf = Cursor::new(Vec::new());
    image::DynamicImage::ImageRgba8(img).write_to(&mut buf, image::ImageFormat::Png).unwrap();
    buf.into_inner()
}

#[test]
fn end_to_end_two_pixel_level() {
    let raster = Raster { width: 2, height: 1, rgba: vec![255, 255, 255, 255, 0, 0, 0, 255] };
    let d = decode_raster(&raster, &wall_table());
    assert_eq!(id_at(&d.tilemap, 0, 0), Some(0));
    assert_eq!(id_at(&d.tilemap, 1, 0), Some(1));
    assert_eq!(d.tilemap.iter().len(), 2);
    assert!(d.unknown_colors.is_empty());
    let over_first = cell_rect(Vector2i::new(0, 0));
    assert!(!d.tilemap.collides(&over_first));
    let over_second = cell_rect(Vector2i::new(1, 0));
    assert!(d.tilemap.collides(&over_second));
}

#[test]
fn transparent_pixels_leave_cells_empty() {
    let raster = Raster { width: 2, height: 1, rgba: vec![0, 0, 0, 254, 0, 0, 0, 0] };
    let d = decode_raster(&raster, &wall_table());
    assert_eq!(id_at(&d.tilemap, 0, 0), None);
    assert_eq!(id_at(&d.tilemap, 1, 0), None);
    assert!(d.unknown_colors.is_empty());
}

#[test]
fn unknown_colour_falls_back_to_zero() {
    let raster = Raster {
        width: 2,
        height: 2,
        rgba: vec![0x12, 0x34, 0x56, 255, 0, 0, 0, 255, 255, 255, 255, 255, 0xAB, 0, 0, 255],
    };
    let d = decode_raster(&raster, &wall_table());
    assert_eq!(id_at(&d.tilemap, 0, 0), Some(0));
    assert_eq!(id_at(&d.tilemap, 1, 0), Some(1));
    assert_eq!(id_at(&d.tilemap, 0, 1), Some(0));
    assert_eq!(id_at(&d.tilemap, 1, 1), Some(0));
    let unknown: Vec<(i32, i32, u32)> = d.unknown_colors.iter().map(|(p, c)| (p.x, p.y, *c)).collect();
    assert_eq!(unknown, vec![(0, 0, 0x123456), (1, 1, 0xAB0000)]);
}

#[test]
fn decoding_twice_gives_same_cells() {
    let raster = Raster {
        width: 3,
        height: 1,
        rgba: vec![0, 0, 0, 255, 255, 255, 255, 255, 9, 9, 9, 100],
    };
    let a = decode_raster(&raster, &wall_table());
    let b = decode_raster(&raster, &wall_table());
    for x in -1..4 {
        assert_eq!(id_at(&a.tilemap, x, 0), id_at(&b.tilemap, x, 0));
    }
    assert_eq!(id_at(&a.tilemap, 0, 0), Some(1));
    assert_eq!(id_at(&a.tilemap, 2, 0), None);
    let catalog = |m: &tileworld::tilemap::Tilemap| -> Vec<(usize, bool)> {
        (0..2).map(|x| m.get_tile(&Vector2i::new(x, 0)).map(|t| (t.id(), t.solid())).unwrap()).collect()
    };
    assert_eq!(catalog(&a.tilemap), catalog(&b.tilemap));
}

#[test]
fn tileset_has_one_entry_per_colour() {
    let mut table = wall_table();
    table.insert(0x123456, ("assets/wall.png".to_string(), true, 1));
    let tiles = tileset_from_table(&table);
    let ids: Vec<usize> = tiles.iter().map(|t| t.id()).collect();
    assert_eq!(ids, vec![0, 1, 1]);
}

#[test]
fn tileset_is_sorted_by_id() {
    let mut table = wall_table();
    table.insert(0xff0000, ("assets/exit.png".to_string(), false, 4));
    table.insert(0x00ff00, ("assets/bomb.png".to_string(), false, 2));
    let tiles = tileset_from_table(&table);
    let ids: Vec<usize> = tiles.iter().map(|t| t.id()).collect();
    assert_eq!(ids, vec![0, 1, 2, 4]);
    assert_eq!(tiles[3].texture(), "assets/exit.png");
    assert!(tiles[1].solid());
}

#[test]
fn load_tilemap_reads_png_bytes() {
    let bytes = png_bytes(2, 1, vec![255, 255, 255, 255, 0, 0, 0, 255]);
    let d = match load_tilemap(&bytes, &wall_table()) {
        Ok(d) => d,
        Err(_) => panic!("a valid PNG must load"),
    };
    assert_eq!(id_at(&d.tilemap, 0, 0), Some(0));
    assert_eq!(id_at(&d.tilemap, 1, 0), Some(1));
    assert!(d.tilemap.collides(&Rect::new(TILE_SIZE, 0, 10, 10)));
}

#[test]
fn load_tilemap_rejects_non_image() {
    let bytes = b"not an image at all".to_vec();
    assert!(matches!(load_tilemap(&bytes, &wall_table()), Err(LoadError::Image(_))));
}
