use std::collections::HashMap;
use vstd::prelude::*;
use vstd::std_specs::hash::{group_hash_axioms, spec_hash_map_iter};
use vstd::std_specs::iter::IteratorSpec;

use crate::geometry::{
    cell_key, cell_rect, cell_rect_spec, from_key, key_cell, lemma_cell_key_injective,
    lemma_key_round_trip, overlaps, rect_bounded, to_key, Rect, Vector2i, TILE_SIZE,
};
use crate::tile::{Tile, TileDef};

verus! {

broadcast use group_hash_axioms;

/// The abstract content of a tilemap: which id each occupied cell records,
/// and the catalog those ids index.
pub struct TilemapView {
    pub cells: Map<Vector2i, usize>,
    pub tileset: Seq<TileDef>,
}

impl TilemapView {
    /// The definition a cell resolves to: none where no tile is recorded or
    /// where the recorded id has no catalog entry.
    pub open spec fn tile_at(self, p: Vector2i) -> Option<TileDef> {
        if self.cells.contains_key(p) && self.cells[p] < self.tileset.len() {
            Some(self.tileset[self.cells[p] as int])
        } else {
            None
        }
    }

    /// The id of the definition a cell resolves to.
    pub open spec fn id_at(self, p: Vector2i) -> Option<usize> {
        match self.tile_at(p) {
            Some(t) => Some(t.id),
            None => None,
        }
    }

    pub open spec fn solid_at(self, p: Vector2i) -> bool {
        match self.tile_at(p) {
            Some(t) => t.solid,
            None => false,
        }
    }

    /// Some solid tile's cell overlaps `r`.
    pub open spec fn collides(self, r: Rect) -> bool {
        exists|p: Vector2i| #[trigger] self.solid_at(p) && overlaps(cell_rect_spec(p), r)
    }

    /// The same map with `id` recorded at `p`.
    pub open spec fn set(self, p: Vector2i, id: usize) -> TilemapView {
        TilemapView { cells: self.cells.insert(p, id), tileset: self.tileset }
    }
}

/// A sparse grid from cells to tile ids, with the catalog that resolves them.
pub struct Tilemap {
    /// Ids by cell, under the integer key `cell_key` of each cell.
    tiles: HashMap<u64, usize>,
    tileset: Vec<Tile>,
}

pub open spec fn catalog_view(tileset: Seq<Tile>) -> Seq<TileDef> {
    tileset.map_values(|t: Tile| t@)
}

impl View for Tilemap {
    type V = TilemapView;

    closed spec fn view(&self) -> TilemapView {
        TilemapView {
            cells: Map::new(
                |p: Vector2i| self.tiles@.contains_key(cell_key(p)),
                |p: Vector2i| self.tiles@[cell_key(p)],
            ),
            tileset: catalog_view(self.tileset@),
        }
    }
}

impl Tilemap {
    /// An empty map over the given catalog.
    pub fn new(tileset: Vec<Tile>) -> (r: Tilemap)
        ensures
            r@.cells == Map::<Vector2i, usize>::empty(),
            r@.tileset == catalog_view(tileset@),
    {
        let r = Tilemap { tiles: HashMap::new(), tileset };
        assert(r@.cells =~= Map::<Vector2i, usize>::empty());
        r
    }

    /// Records `tile` at `pos`, replacing what was there.
    pub fn set_tile(&mut self, pos: Vector2i, tile: usize)
        ensures
            final(self)@ == old(self)@.set(pos, tile),
    {
        let k = to_key(pos);
        self.tiles.insert(k, tile);
        proof {
            assert forall|p: Vector2i| true implies (cell_key(p) == k <==> p == pos) by {
                lemma_cell_key_injective(p, pos);
            }
        }
        assert(self@.cells =~= old(self)@.cells.insert(pos, tile));
    }

    /// The definition the cell at `pos` resolves to.
    pub fn get_tile(&self, pos: &Vector2i) -> (r: Option<&Tile>)
        ensures
            match r {
                Some(t) => self@.tile_at(*pos) == Some(t@),
                None => self@.tile_at(*pos) is None,
            },
    {
        let k = to_key(*pos);
        match self.tiles.get(&k) {
            Some(id) => {
                if *id < self.tileset.len() {
                    Some(&self.tileset[*id])
                } else {
                    None
                }
            },
            None => None,
        }
    }

    /// Whether any solid tile's cell overlaps `hitbox`.
    pub fn collides(&self, hitbox: &Rect) -> (r: bool)
        requires
            rect_bounded(*hitbox),
        ensures
            r == self@.collides(*hitbox),
    {
        let ghost m = self.tiles@;
        let ghost s = spec_hash_map_iter(&self.tiles).remaining();
        for (k, _id) in it: self.tiles.iter()
            invariant
                self.tiles@ == m,
                rect_bounded(*hitbox),
                it.seq() == s,
                forall|j: int|
                    0 <= j < it.index() ==> !(self@.solid_at(key_cell(*s[j].0)) && overlaps(
                        cell_rect_spec(key_cell(*s[j].0)),
                        *hitbox,
                    )),
        {
            let p = from_key(*k);
            let cell = cell_rect(p);
            match self.get_tile(&p) {
                Some(t) => {
                    if t.solid() && cell.check_collision_recs(hitbox) {
                        assert(self@.solid_at(p) && overlaps(cell_rect_spec(p), *hitbox));
                        return true;
                    }
                },
                None => {},
            }
        }
        proof {
            assert forall|p: Vector2i| #[trigger]
                self@.solid_at(p) implies !overlaps(cell_rect_spec(p), *hitbox) by {
                let k = cell_key(p);
                assert(m.contains_key(k));
                assert(s.contains((&k, &m[k])));
                let j = choose|j: int| 0 <= j < s.len() && s[j] == (&k, &m[k]);
                lemma_key_round_trip(p);
            }
        }
        false
    }

    /// Every occupied cell whose id resolves, once each, with its definition.
    /// The order is unspecified.
    pub fn iter(&self) -> (r: Vec<(Vector2i, &Tile)>)
        ensures
            forall|i: int| 0 <= i < r.len() ==> self@.tile_at(#[trigger] r@[i].0) == Some(r@[i].1@),
            forall|p: Vector2i| #[trigger] self@.tile_at(p) is Some ==> exists|i: int|
                0 <= i < r.len() && r@[i].0 == p,
            forall|i: int, j: int| 0 <= i < j < r.len() ==> r@[i].0 != r@[j].0,
    {
        let ghost m = self.tiles@;
        let ghost s = spec_hash_map_iter(&self.tiles).remaining();
        let mut r: Vec<(Vector2i, &Tile)> = Vec::new();
        for (k, _id) in it: self.tiles.iter()
            invariant
                self.tiles@ == m,
                it.seq() == s,
                s.no_duplicates(),
                forall|i: int| 0 <= i < r.len() ==> self@.tile_at(#[trigger] r@[i].0) == Some(r@[i].1@),
                forall|j: int| 0 <= j < it.index() && self@.tile_at(key_cell(*s[j].0)) is Some
                    ==> exists|i: int| 0 <= i < r.len() && r@[i].0 == key_cell(*s[j].0),
                forall|i: int, j: int| 0 <= i < j < r.len() ==> r@[i].0 != r@[j].0,
                forall|i: int, j: int|
                    0 <= i < r.len() && it.index() <= j < s.len() ==> #[trigger] cell_key(r@[i].0)
                        != #[trigger] s[j].0,
        {
            let ghost cur = it.index();
            assert(*k == *s[cur].0);
            let p = from_key(*k);
            let ghost r0 = r@;
            match self.get_tile(&p) {
                Some(t) => {
                    proof {
                        assert forall|i: int| 0 <= i < r.len() implies r@[i].0 != p by {
                            assert(cell_key(r@[i].0) != *s[cur].0);
                        }
                    }
                    r.push((p, t));
                    assert(r@[r0.len() as int] == (p, t));
                },
                None => {},
            }
            proof {
                assert forall|i: int, j: int|
                    0 <= i < r.len() && cur + 1 <= j < s.len() implies #[trigger] cell_key(r@[i].0)
                        != #[trigger] s[j].0 by {
                    if i < r0.len() {
                        assert(r@[i] == r0[i]);
                    } else {
                        assert(cell_key(r@[i].0) == *s[cur].0);
                        assert(m.contains_key(*s[j].0) && m[*s[j].0] == *s[j].1);
                        assert(m.contains_key(*s[cur].0) && m[*s[cur].0] == *s[cur].1);
                        if *s[j].0 == *s[cur].0 {
                            assert(s[j] == s[cur]);
                        }
                    }
                }
                assert forall|j: int| 0 <= j < cur + 1 && self@.tile_at(key_cell(*s[j].0)) is Some
                    implies exists|i: int| 0 <= i < r.len() && r@[i].0 == key_cell(*s[j].0) by {
                    if j < cur {
                        let i = choose|i: int| 0 <= i < r0.len() && r0[i].0 == key_cell(*s[j].0);
                        assert(r@[i] == r0[i]);
                    } else {
                        assert(r@[r0.len() as int].0 == key_cell(*s[j].0));
                    }
                }
            }
        }
        proof {
            assert forall|p: Vector2i| #[trigger] self@.tile_at(p) is Some implies exists|i: int|
                0 <= i < r.len() && r@[i].0 == p by {
                let k = cell_key(p);
                assert(m.contains_key(k));
                assert(s.contains((&k, &m[k])));
                lemma_key_round_trip(p);
            }
        }
        r
    }

    /// The cells whose id resolves to `id`, once each, in unspecified order.
    pub fn positions_with_id(&self, id: usize) -> (r: Vec<Vector2i>)
        ensures
            r@.no_duplicates(),
            forall|p: Vector2i| r@.contains(p) <==> self@.id_at(p) == Some(id),
    {
        let entries = self.iter();
        let mut r: Vec<Vector2i> = Vec::new();
        for idx in 0..entries.len()
            invariant
                r@.no_duplicates(),
                forall|i: int| 0 <= i < entries.len() ==> self@.tile_at(#[trigger] entries@[i].0) == Some(entries@[i].1@),
                forall|i: int, j: int| 0 <= i < j < entries.len() ==> entries@[i].0 != entries@[j].0,
                forall|p: Vector2i| r@.contains(p) <==> (self@.id_at(p) == Some(id) && exists|i: int|
                    0 <= i < idx && entries@[i].0 == p),
        {
            let (p, t) = entries[idx];
            let ghost r0 = r@;
            if t.id() == id {
                proof {
                    assert(!r@.contains(p)) by {
                        if r@.contains(p) {
                            let i = choose|i: int| 0 <= i < idx && entries@[i].0 == p;
                        }
                    }
                }
                r.push(p);
            }
            proof {
                assert forall|q: Vector2i| r@.contains(q) <==> (self@.id_at(q) == Some(id) && exists|i: int|
                    0 <= i < idx + 1 && entries@[i].0 == q) by {
                    if r@.contains(q) && !r0.contains(q) {
                        assert(q == p);
                    }
                    if q != p {
                        if r0.contains(q) {
                            let k = choose|k: int| 0 <= k < r0.len() && r0[k] == q;
                            assert(r@[k] == q);
                        }
                    } else if self@.id_at(q) == Some(id) {
                        assert(r@[r@.len() - 1] == q);
                    }
                }
            }
        }
        r
    }
}

/// A box that covers the whole cell of a solid tile collides; a box whose
/// overlapped cells hold no solid tile (non-solid, absent or unresolved)
/// does not.
pub proof fn lemma_collides_cases(v: TilemapView, r: Rect, p: Vector2i)
    ensures
        v.solid_at(p) && r.x <= cell_rect_spec(p).x && cell_rect_spec(p).x + TILE_SIZE <= r.x + r.width
            && r.y <= cell_rect_spec(p).y && cell_rect_spec(p).y + TILE_SIZE <= r.y + r.height
            ==> v.collides(r),
        (forall|q: Vector2i| #[trigger] overlaps(cell_rect_spec(q), r) ==> !v.solid_at(q)) ==> !v.collides(r),
{
}

} // verus!
