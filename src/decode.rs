use std::collections::HashMap;
use vstd::prelude::*;
use vstd::std_specs::hash::{group_hash_axioms, spec_hash_map_iter};
use vstd::std_specs::iter::IteratorSpec;

use crate::geometry::Vector2i;
use crate::tile::{Tile, TileDef};
use crate::tilemap::{catalog_view, Tilemap};

verus! {

broadcast use group_hash_axioms;

/// What a colour table maps a colour code to: the image path of the tile,
/// whether it is solid, and its id.
pub type TileEntry = (String, bool, usize);

/// The tile definition a colour-table entry describes.
pub open spec fn entry_def(e: TileEntry) -> TileDef {
    TileDef { texture: e.0@, solid: e.1, id: e.2 }
}

/// A catalog is ordered by id.
pub open spec fn sorted_by_id(defs: Seq<TileDef>) -> bool {
    forall|i: int, j: int| 0 <= i < j < defs.len() ==> defs[i].id <= defs[j].id
}

/// `codes` gives, position by position, the table key each catalog entry is
/// made from; every key of the table appears exactly once.
pub open spec fn catalog_keys(defs: Seq<TileDef>, table: Map<u32, TileEntry>, codes: Seq<u32>) -> bool {
    &&& codes.len() == defs.len()
    &&& codes.no_duplicates()
    &&& forall|i: int| 0 <= i < defs.len() ==> table.contains_key(#[trigger] codes[i]) && defs[i] == entry_def(
        table[codes[i]],
    )
    &&& forall|c: u32| #[trigger] table.contains_key(c) ==> codes.contains(c)
}

/// One catalog entry per entry of the table, ordered by id.
pub open spec fn catalog_of(defs: Seq<TileDef>, table: Map<u32, TileEntry>) -> bool {
    &&& defs.len() == table.len()
    &&& sorted_by_id(defs)
    &&& exists|codes: Seq<u32>| catalog_keys(defs, table, codes)
}

/// The catalog a colour table describes: one tile per entry, sorted by id.
pub fn tileset_from_table(table: &HashMap<u32, TileEntry>) -> (r: Vec<Tile>)
    ensures
        catalog_of(catalog_view(r@), table@),
{
    let ghost s = spec_hash_map_iter(table).remaining();
    let mut entries: Vec<(&u32, &TileEntry)> = Vec::new();
    for e in it: table.iter()
        invariant
            it.seq() == s,
            entries.len() == it.index(),
            forall|i: int| 0 <= i < entries.len() ==> entries@[i] == s[i],
    {
        entries.push(e);
    }
    assert(entries@ =~= s);
    let mut r: Vec<Tile> = Vec::new();
    let ghost mut codes: Seq<u32> = Seq::empty();
    let mut k: usize = 0;
    while k < entries.len()
        invariant
            entries@ == s,
            s.no_duplicates(),
            s.len() == table@.dom().len(),
            0 <= k <= entries.len(),
            r.len() == k,
            codes.len() == k,
            codes.no_duplicates(),
            forall|j: int| 0 <= j < s.len() ==> table@.contains_key(*(#[trigger] s[j]).0) && table@[*s[j].0] == *s[j].1,
            sorted_by_id(catalog_view(r@)),
            forall|i: int| 0 <= i < r.len() ==> table@.contains_key(#[trigger] codes[i]) && r@[i]@ == entry_def(
                table@[codes[i]],
            ),
            forall|i: int| #![trigger codes[i]] 0 <= i < codes.len() ==> exists|j: int|
                0 <= j < k && codes[i] == *s[j].0,
            forall|j: int| 0 <= j < k ==> codes.contains(*(#[trigger] s[j]).0),
        decreases entries.len() - k,
    {
        let (code, entry) = entries[k];
        let ghost r0 = r@;
        let ghost codes0 = codes;
        assert(s[k as int] == (code, entry));
        assert(table@.contains_key(*code) && table@[*code] == *entry);
        let tile = Tile::new(entry.0.clone(), entry.1, entry.2);
        let mut pos: usize = 0;
        while pos < r.len() && r[pos].id() <= entry.2
            invariant
                0 <= pos <= r.len(),
                r@ == r0,
                forall|i: int| 0 <= i < pos ==> (#[trigger] r@[i])@.id <= entry.2,
            decreases r.len() - pos,
        {
            pos += 1;
        }
        assert(pos == r.len() || r@[pos as int]@.id > entry.2);
        proof {
            assert(!codes0.contains(*code)) by {
                if codes0.contains(*code) {
                    let i = choose|i: int| 0 <= i < codes0.len() && codes0[i] == *code;
                    let j = choose|j: int| 0 <= j < k && codes0[i] == *s[j].0;
                    assert(s[j] == s[k as int]);
                }
            }
            codes = codes0.insert(pos as int, *code);
        }
        r.insert(pos, tile);
        proof {
            assert(r@ == r0.insert(pos as int, tile));
            let v = catalog_view(r@);
            let v0 = catalog_view(r0);
            assert(v.len() == v0.len() + 1);
            assert forall|i: int| 0 <= i < v.len() implies #[trigger] v[i] == (if i < pos {
                v0[i]
            } else if i == pos {
                tile@
            } else {
                v0[i - 1]
            }) by {
                assert(v[i] == r@[i]@);
                if i < pos {
                    assert(r@[i] == r0[i]);
                } else if i > pos {
                    assert(r@[i] == r0[i - 1]);
                }
            }
            assert forall|i: int, j: int| 0 <= i < j < v.len() implies v[i].id <= v[j].id by {
                if j < pos {
                } else if j == pos {
                    assert(v[i] == v0[i]);
                } else if i < pos {
                    assert(v0[i].id <= v0[j - 1].id);
                } else if i == pos {
                    assert(v0[pos as int].id <= v0[j - 1].id);
                } else {
                    assert(v0[i - 1].id <= v0[j - 1].id);
                }
            }
            assert forall|i: int, j: int| 0 <= i < j < codes.len() implies codes[i] != codes[j] by {
                if j < pos {
                    assert(codes[i] == codes0[i] && codes[j] == codes0[j]);
                } else if j == pos {
                    assert(codes0.contains(codes0[i]));
                } else if i < pos {
                    assert(codes[i] == codes0[i] && codes[j] == codes0[j - 1]);
                } else if i == pos {
                    assert(codes0.contains(codes0[j - 1]));
                } else {
                    assert(codes[i] == codes0[i - 1] && codes[j] == codes0[j - 1]);
                }
            }
            assert forall|i: int| 0 <= i < r.len() implies table@.contains_key(#[trigger] codes[i]) && r@[i]@
                == entry_def(table@[codes[i]]) by {
                if i < pos {
                    assert(r@[i] == r0[i] && codes[i] == codes0[i]);
                } else if i > pos {
                    assert(r@[i] == r0[i - 1] && codes[i] == codes0[i - 1]);
                }
            }
            assert forall|i: int| #![trigger codes[i]] 0 <= i < codes.len() implies exists|j: int|
                0 <= j < k + 1 && codes[i] == *s[j].0 by {
                if i < pos {
                    assert(codes[i] == codes0[i]);
                } else if i > pos {
                    assert(codes[i] == codes0[i - 1]);
                } else {
                    assert(codes[i] == *s[k as int].0);
                }
            }
            assert forall|j: int| 0 <= j < k + 1 implies codes.contains(*(#[trigger] s[j]).0) by {
                if j < k {
                    let i = choose|i: int| 0 <= i < codes0.len() && codes0[i] == *s[j].0;
                    if i < pos {
                        assert(codes[i] == codes0[i]);
                    } else {
                        assert(codes[i + 1] == codes0[i]);
                    }
                } else {
                    assert(codes[pos as int] == *s[j].0);
                }
            }
        }
        k += 1;
    }
    proof {
        let v = catalog_view(r@);
        assert forall|i: int| 0 <= i < v.len() implies table@.contains_key(#[trigger] codes[i]) && v[i]
            == entry_def(table@[codes[i]]) by {
            assert(v[i] == r@[i]@);
        }
        assert forall|c: u32| #[trigger] table@.contains_key(c) implies codes.contains(c) by {
            assert(s.contains((&c, &table@[c])));
            let j = choose|j: int| 0 <= j < s.len() && s[j] == (&c, &table@[c]);
            assert(codes.contains(*s[j].0));
        }
        assert(catalog_keys(v, table@, codes));
    }
    r
}

/// A decoded raster: `width × height` pixels, four bytes each (red, green,
/// blue, alpha), row by row from the top-left corner.
pub struct Raster {
    pub width: u32,
    pub height: u32,
    pub rgba: Vec<u8>,
}

impl Raster {
    /// The buffer holds every pixel.
    pub open spec fn wf(&self) -> bool {
        self.rgba@.len() >= 4 * (self.width * self.height)
    }
}

/// Where the bytes of pixel `(x, y)` start.
pub open spec fn pixel_base(width: u32, x: int, y: int) -> int {
    4 * (y * width + x)
}

/// The 24-bit colour code `(R << 16) | (G << 8) | B` of pixel `(x, y)`.
pub open spec fn pixel_code(rgba: Seq<u8>, width: u32, x: int, y: int) -> u32 {
    let b = pixel_base(width, x, y);
    (rgba[b] * 0x10000 + rgba[b + 1] * 0x100 + rgba[b + 2]) as u32
}

pub open spec fn pixel_alpha(rgba: Seq<u8>, width: u32, x: int, y: int) -> u8 {
    rgba[pixel_base(width, x, y) + 3]
}

/// Cell `p` is a fully opaque pixel of the raster.
pub open spec fn opaque_at(width: u32, height: u32, rgba: Seq<u8>, p: Vector2i) -> bool {
    0 <= p.x < width && 0 <= p.y < height && pixel_alpha(rgba, width, p.x as int, p.y as int)
        == 255
}

/// The id a colour code stands for: the table's id, or 0 for a colour the
/// table does not know.
pub open spec fn code_id(table: Map<u32, TileEntry>, code: u32) -> usize {
    if table.contains_key(code) {
        table[code].2
    } else {
        0
    }
}

/// The cells a raster decodes to: one per fully opaque pixel, at the
/// pixel's coordinates, holding the id of its colour.
pub open spec fn decoded_cells(width: u32, height: u32, rgba: Seq<u8>, table: Map<u32, TileEntry>) -> Map<
    Vector2i,
    usize,
> {
    Map::new(
        |p: Vector2i| opaque_at(width, height, rgba, p),
        |p: Vector2i| code_id(table, pixel_code(rgba, width, p.x as int, p.y as int)),
    )
}

/// Row-major rank of a cell, the order in which pixels are scanned.
pub open spec fn scan_rank(p: Vector2i) -> int {
    p.y * 0x1_0000_0000 + p.x
}

/// A pixel whose colour the table does not know.
pub open spec fn unknown_at(width: u32, height: u32, rgba: Seq<u8>, table: Map<u32, TileEntry>, p: Vector2i) -> bool {
    opaque_at(width, height, rgba, p) && !table.contains_key(
        pixel_code(rgba, width, p.x as int, p.y as int),
    )
}

/// A level's tilemap with the opaque pixels whose colour was unknown (each
/// with its colour code), in scan order.
pub struct DecodedTilemap {
    pub tilemap: Tilemap,
    pub unknown_colors: Vec<(Vector2i, u32)>,
}

/// What `decode_raster` promises of its result.
pub open spec fn decodes_to(
    width: u32,
    height: u32,
    rgba: Seq<u8>,
    table: Map<u32, TileEntry>,
    d: DecodedTilemap,
) -> bool {
    let u = d.unknown_colors@;
    &&& d.tilemap@.cells == decoded_cells(width, height, rgba, table)
    &&& catalog_of(d.tilemap@.tileset, table)
    &&& forall|i: int| #![trigger u[i]] 0 <= i < u.len() ==> unknown_at(width, height, rgba, table, u[i].0)
        && u[i].1 == pixel_code(rgba, width, u[i].0.x as int, u[i].0.y as int)
    &&& forall|p: Vector2i| #[trigger] unknown_at(width, height, rgba, table, p) ==> exists|i: int|
        0 <= i < u.len() && u[i].0 == p
    &&& forall|i: int, j: int| 0 <= i < j < u.len() ==> scan_rank(u[i].0) < scan_rank(u[j].0)
}

/// The cells of the first `y` rows, and of the first `x` pixels of row `y`.
spec fn decoded_prefix(
    width: u32,
    height: u32,
    rgba: Seq<u8>,
    table: Map<u32, TileEntry>,
    y: int,
    x: int,
) -> Map<Vector2i, usize> {
    Map::new(
        |p: Vector2i| opaque_at(width, height, rgba, p) && (p.y < y || (p.y == y && p.x < x)),
        |p: Vector2i| code_id(table, pixel_code(rgba, width, p.x as int, p.y as int)),
    )
}

/// Decodes a raster with a colour table. Each fully opaque pixel `(x, y)`
/// becomes a tile at cell `(x, y)`: the table's id for its colour, or 0 for a
/// colour the table lacks (reported in `unknown_colors`). Pixels that are not
/// fully opaque leave their cell empty. Pixel columns and rows at or beyond
/// 2^31 have no cell and are skipped.
pub fn decode_raster(image: &Raster, table: &HashMap<u32, TileEntry>) -> (r: DecodedTilemap)
    requires
        image.wf(),
    ensures
        decodes_to(image.width, image.height, image.rgba@, table@, r),
{
    let ghost rgba = image.rgba@;
    let ghost w = image.width;
    let ghost h = image.height;
    let mut tilemap = Tilemap::new(tileset_from_table(table));
    let mut unknown: Vec<(Vector2i, u32)> = Vec::new();
    let cols: u32 = if image.width > 0x8000_0000 { 0x8000_0000 } else { image.width };
    let rows: u32 = if image.height > 0x8000_0000 { 0x8000_0000 } else { image.height };
    let mut y: u32 = 0;
    assert(tilemap@.cells =~= decoded_prefix(w, h, rgba, table@, 0, 0));
    while y < rows
        invariant
            image.wf(),
            rgba == image.rgba@,
            w == image.width,
            h == image.height,
            cols <= w,
            cols <= 0x8000_0000,
            cols == w || cols == 0x8000_0000,
            rows <= h,
            rows <= 0x8000_0000,
            rows == h || rows == 0x8000_0000,
            y <= rows,
            tilemap@.cells == decoded_prefix(w, h, rgba, table@, y as int, 0),
            catalog_of(tilemap@.tileset, table@),
            forall|i: int| #![trigger unknown@[i]] 0 <= i < unknown.len() ==> unknown_at(w, h, rgba, table@, unknown@[i].0)
                && unknown@[i].1 == pixel_code(rgba, w, unknown@[i].0.x as int, unknown@[i].0.y as int)
                && unknown@[i].0.y < y,
            forall|p: Vector2i| #[trigger] unknown_at(w, h, rgba, table@, p) && p.y < y ==> exists|i: int|
                0 <= i < unknown.len() && unknown@[i].0 == p,
            forall|i: int, j: int| 0 <= i < j < unknown.len() ==> scan_rank(unknown@[i].0) < scan_rank(unknown@[j].0),
        decreases rows - y,
    {
        let mut x: u32 = 0;
        while x < cols
            invariant
                image.wf(),
                rgba == image.rgba@,
                w == image.width,
                h == image.height,
                cols <= w,
                cols <= 0x8000_0000,
                cols == w || cols == 0x8000_0000,
                rows <= h,
                rows <= 0x8000_0000,
                y < rows,
                x <= cols,
                tilemap@.cells == decoded_prefix(w, h, rgba, table@, y as int, x as int),
                catalog_of(tilemap@.tileset, table@),
                forall|i: int| #![trigger unknown@[i]] 0 <= i < unknown.len() ==> unknown_at(w, h, rgba, table@, unknown@[i].0)
                    && unknown@[i].1 == pixel_code(rgba, w, unknown@[i].0.x as int, unknown@[i].0.y as int)
                    && (unknown@[i].0.y < y || (unknown@[i].0.y == y && unknown@[i].0.x < x)),
                forall|p: Vector2i| #[trigger] unknown_at(w, h, rgba, table@, p) && (p.y < y || (p.y == y && p.x < x)) ==> exists|i: int|
                    0 <= i < unknown.len() && unknown@[i].0 == p,
                forall|i: int, j: int| 0 <= i < j < unknown.len() ==> scan_rank(unknown@[i].0) < scan_rank(unknown@[j].0),
            decreases cols - x,
        {
            proof {
                assert(y * w + x + 1 <= w * h) by (nonlinear_arith)
                    requires
                        x < w,
                        y < h,
                ;
                assert(0 <= y * w) by (nonlinear_arith);
                assert(w * h == h * w) by (nonlinear_arith);
                assert(4 * (y * w + x) + 4 <= rgba.len());
                assert(rgba.len() == image.rgba.len());
            }
            let base: usize = 4 * (y as usize * image.width as usize + x as usize);
            let red = image.rgba[base];
            let green = image.rgba[base + 1];
            let blue = image.rgba[base + 2];
            let alpha = image.rgba[base + 3];
            let code: u32 = (red as u32) * 0x10000 + (green as u32) * 0x100 + blue as u32;
            let p = Vector2i::new(x as i32, y as i32);
            let ghost prev = tilemap@.cells;
            let ghost u0 = unknown@;
            assert(pixel_base(w, p.x as int, p.y as int) == base);
            if alpha == 255 {
                match table.get(&code) {
                    Some(entry) => {
                        tilemap.set_tile(p, entry.2);
                    },
                    None => {
                        unknown.push((p, code));
                        tilemap.set_tile(p, 0);
                        proof {
                            assert forall|i: int, j: int| 0 <= i < j < unknown.len() implies scan_rank(
                                unknown@[i].0,
                            ) < scan_rank(unknown@[j].0) by {
                                if j == u0.len() {
                                    assert(unknown@[i] == u0[i]);
                                } else {
                                    assert(unknown@[i] == u0[i] && unknown@[j] == u0[j]);
                                }
                            }
                            assert(unknown@[u0.len() as int] == (p, code));
                        }
                    },
                }
            }
            proof {
                assert(tilemap@.cells =~= decoded_prefix(w, h, rgba, table@, y as int, x + 1));
                assert forall|i: int| #![trigger unknown@[i]] 0 <= i < unknown.len() implies unknown_at(w, h, rgba, table@, unknown@[i].0)
                    && unknown@[i].1 == pixel_code(rgba, w, unknown@[i].0.x as int, unknown@[i].0.y as int)
                    && (unknown@[i].0.y < y || (unknown@[i].0.y == y && unknown@[i].0.x < x + 1)) by {
                    if i < u0.len() {
                        assert(unknown@[i] == u0[i]);
                    }
                }
                assert forall|q: Vector2i| #[trigger] unknown_at(w, h, rgba, table@, q) && (q.y < y || (q.y == y && q.x < x + 1)) implies exists|i: int|
                    0 <= i < unknown.len() && unknown@[i].0 == q by {
                    if q != p {
                        let i = choose|i: int| 0 <= i < u0.len() && u0[i].0 == q;
                        assert(unknown@[i] == u0[i]);
                    } else {
                        assert(unknown@[u0.len() as int].0 == q);
                    }
                }
            }
            x += 1;
        }
        proof {
            assert(tilemap@.cells =~= decoded_prefix(w, h, rgba, table@, y + 1, 0));
        }
        y += 1;
    }
    proof {
        assert(tilemap@.cells =~= decoded_cells(w, h, rgba, table@));
        assert forall|p: Vector2i| #[trigger] unknown_at(w, h, rgba, table@, p) implies exists|i: int|
            0 <= i < unknown.len() && unknown@[i].0 == p by {
            assert(p.y < y);
        }
    }
    DecodedTilemap { tilemap, unknown_colors: unknown }
}

#[verifier::external_type_specification]
#[verifier::external_body]
pub struct ExImageError(image::ImageError);

/// The raster the `image` crate decodes from a file's bytes, converted to
/// 8-bit RGBA: its width, its height and its pixel bytes; none where the bytes
/// are not an image it can read.
pub uninterp spec fn rgba_of(bytes: Seq<u8>) -> Option<(u32, u32, Seq<u8>)>;

/// Relies on `image::load_from_memory` (guesses the format from the bytes and
/// decodes them), `DynamicImage::to_rgba8` (converts to 8-bit RGBA) and
/// `ImageBuffer::into_raw`, whose buffer holds at least
/// `4 * width * height` bytes (every constructor of `ImageBuffer` checks it).
#[verifier::external_body]
fn read_raster(bytes: &[u8]) -> (r: Result<Raster, image::ImageError>)
    ensures
        match r {
            Ok(img) => rgba_of(bytes@) == Some((img.width, img.height, img.rgba@)) && img.wf(),
            Err(_) => rgba_of(bytes@) is None,
        },
{
    match image::load_from_memory(bytes) {
        Ok(img) => {
            let buf = img.to_rgba8();
            let (width, height) = buf.dimensions();
            Ok(Raster { width, height, rgba: buf.into_raw() })
        },
        Err(e) => Err(e),
    }
}

/// Why a level could not be loaded.
pub enum LoadError {
    /// The bytes are not an image that can be decoded.
    Image(image::ImageError),
}

/// Decodes a level image from the bytes of its file, then its tiles with the
/// colour table (see `decode_raster`).
pub fn load_tilemap(bytes: &[u8], table: &HashMap<u32, TileEntry>) -> (r: Result<
    DecodedTilemap,
    LoadError,
>)
    ensures
        match r {
            Ok(d) => match rgba_of(bytes@) {
                Some((w, h, rgba)) => decodes_to(w, h, rgba, table@, d),
                None => false,
            },
            Err(LoadError::Image(_)) => rgba_of(bytes@) is None,
        },
{
    match read_raster(bytes) {
        Ok(image) => {
            let d = decode_raster(&image, table);
            assert(rgba_of(bytes@) == Some((image.width, image.height, image.rgba@)));
            Ok(d)
        },
        Err(e) => Err(LoadError::Image(e)),
    }
}

/// No two keys of the table give the same id.
pub open spec fn ids_distinct(table: Map<u32, TileEntry>) -> bool {
    forall|c1: u32, c2: u32|
        #![trigger table[c1], table[c2]]
        table.contains_key(c1) && table.contains_key(c2) && c1 != c2 ==> table[c1].2 != table[c2].2
}

/// Two catalogs of one table agree on their first `n` entries.
proof fn lemma_catalog_prefix(table: Map<u32, TileEntry>, a: Seq<TileDef>, b: Seq<TileDef>, ca: Seq<u32>, cb: Seq<u32>, n: nat)
    requires
        ids_distinct(table),
        a.len() == b.len(),
        n <= a.len(),
        sorted_by_id(a),
        sorted_by_id(b),
        catalog_keys(a, table, ca),
        catalog_keys(b, table, cb),
    ensures
        forall|i: int| 0 <= i < n ==> a[i] == b[i],
    decreases n,
{
    if n > 0 {
        let m = (n - 1) as nat;
        lemma_catalog_prefix(table, a, b, ca, cb, m);
        let i = m as int;
        assert forall|x: int, y: int| 0 <= x < y < a.len() implies a[x].id < a[y].id by {
            assert(ca[x] != ca[y]);
            assert(table.contains_key(ca[x]) && table.contains_key(ca[y]));
        }
        assert forall|x: int, y: int| 0 <= x < y < b.len() implies b[x].id < b[y].id by {
            assert(cb[x] != cb[y]);
            assert(table.contains_key(cb[x]) && table.contains_key(cb[y]));
        }
        assert(table.contains_key(ca[i]) && table.contains_key(cb[i]));
        if a[i].id < b[i].id {
            assert(cb.contains(ca[i]));
            let j = choose|j: int| 0 <= j < cb.len() && cb[j] == ca[i];
            assert(b[j] == a[i]);
            assert(j < i);
            assert(a[j] == b[j]);
        } else if b[i].id < a[i].id {
            assert(ca.contains(cb[i]));
            let j = choose|j: int| 0 <= j < ca.len() && ca[j] == cb[i];
            assert(a[j] == b[i]);
            assert(j < i);
            assert(a[j] == b[j]);
        } else {
            assert(ca[i] == cb[i]);
        }
    }
}

/// With ids distinct, a table has a single catalog.
pub proof fn lemma_catalog_determined(table: Map<u32, TileEntry>, a: Seq<TileDef>, b: Seq<TileDef>)
    requires
        ids_distinct(table),
        catalog_of(a, table),
        catalog_of(b, table),
    ensures
        a == b,
{
    let ca = choose|codes: Seq<u32>| catalog_keys(a, table, codes);
    let cb = choose|codes: Seq<u32>| catalog_keys(b, table, codes);
    lemma_catalog_prefix(table, a, b, ca, cb, a.len());
    assert(a =~= b);
}

/// Decoding is deterministic: two results of decoding the same raster with
/// the same table record the same id at every cell, and, where the table
/// gives each id once, the same catalog.
pub proof fn lemma_decode_deterministic(
    width: u32,
    height: u32,
    rgba: Seq<u8>,
    table: Map<u32, TileEntry>,
    a: DecodedTilemap,
    b: DecodedTilemap,
)
    requires
        decodes_to(width, height, rgba, table, a),
        decodes_to(width, height, rgba, table, b),
    ensures
        a.tilemap@.cells == b.tilemap@.cells,
        ids_distinct(table) ==> a.tilemap@.tileset == b.tilemap@.tileset,
{
    if ids_distinct(table) {
        lemma_catalog_determined(table, a.tilemap@.tileset, b.tilemap@.tileset);
    }
}

/// Every fully opaque pixel whose colour the table knows decodes to a cell
/// at its coordinates holding the table's id; every pixel that is not fully
/// opaque leaves its cell empty.
pub proof fn lemma_decoded_pixels(
    width: u32,
    height: u32,
    rgba: Seq<u8>,
    table: Map<u32, TileEntry>,
    d: DecodedTilemap,
    p: Vector2i,
)
    requires
        decodes_to(width, height, rgba, table, d),
        0 <= p.x < width,
        0 <= p.y < height,
    ensures
        pixel_alpha(rgba, width, p.x as int, p.y as int) == 255 && table.contains_key(
            pixel_code(rgba, width, p.x as int, p.y as int),
        ) ==> d.tilemap@.cells.contains_key(p) && d.tilemap@.cells[p] == table[pixel_code(
            rgba,
            width,
            p.x as int,
            p.y as int,
        )].2,
        pixel_alpha(rgba, width, p.x as int, p.y as int) < 255 ==> !d.tilemap@.cells.contains_key(p),
{
}

} // verus!
