use vstd::prelude::*;

use crate::explosion::Explosion;
use crate::geometry::{Vector2i, TILE_SIZE};
use crate::level::{toggled, Level};
use crate::player::{Player, Vec2};
use crate::tile::{BACKGROUND, BOMB, EXIT, LEVER_OFF, LEVER_ON, SPAWN, WEAK_WALL};
use crate::tilemap::{Tilemap, TilemapView};

verus! {

/// `p` lies in the 3×3 block of cells centred on `b`.
pub open spec fn near(b: Vector2i, p: Vector2i) -> bool {
    -1 <= p.x - b.x <= 1 && -1 <= p.y - b.y <= 1
}

/// The weak walls around `b` cleared to background.
pub open spec fn cleared_around(w: TilemapView, b: Vector2i) -> TilemapView {
    TilemapView {
        cells: Map::new(
            |p: Vector2i| w.cells.contains_key(p),
            |p: Vector2i|
                if near(b, p) && w.id_at(p) == Some(WEAK_WALL) {
                    BACKGROUND
                } else {
                    w.cells[p]
                },
        ),
        tileset: w.tileset,
    }
}

/// The map after bombs at `bombs` go off: each bomb cell becomes background,
/// and so does every weak wall in the 3×3 block around a bomb.
pub open spec fn blast(v: TilemapView, bombs: Set<Vector2i>) -> TilemapView {
    TilemapView {
        cells: Map::new(
            |p: Vector2i| v.cells.contains_key(p),
            |p: Vector2i|
                if bombs.contains(p) || (v.id_at(p) == Some(WEAK_WALL) && exists|b: Vector2i|
                    #[trigger] bombs.contains(b) && near(b, p)) {
                    BACKGROUND
                } else {
                    v.cells[p]
                },
        ),
        tileset: v.tileset,
    }
}

/// A bomb that goes off: a cell that shows a bomb and where the player placed
/// one.
pub open spec fn armed(v: TilemapView, placed: Seq<Vector2i>, p: Vector2i) -> bool {
    v.id_at(p) == Some(BOMB) && placed.contains(p)
}

pub open spec fn armed_set(v: TilemapView, placed: Seq<Vector2i>) -> Set<Vector2i> {
    Set::new(|p: Vector2i| armed(v, placed, p))
}

/// The map after detonation.
pub open spec fn detonated(v: TilemapView, placed: Seq<Vector2i>) -> TilemapView {
    blast(v, armed_set(v, placed))
}

/// Cells in the block around `b` that come before offset `(dx, dy)`, column
/// by column.
spec fn scanned(b: Vector2i, p: Vector2i, dx: int, dy: int) -> bool {
    p.x - b.x < dx || (p.x - b.x == dx && p.y - b.y < dy)
}

spec fn cleared_partly(w: TilemapView, b: Vector2i, dx: int, dy: int) -> TilemapView {
    TilemapView {
        cells: Map::new(
            |p: Vector2i| w.cells.contains_key(p),
            |p: Vector2i|
                if near(b, p) && scanned(b, p, dx, dy) && w.id_at(p) == Some(WEAK_WALL) {
                    BACKGROUND
                } else {
                    w.cells[p]
                },
        ),
        tileset: w.tileset,
    }
}

/// Clears the weak walls in the 3×3 block around `b`.
fn clear_weak_walls_around(map: &mut Tilemap, b: Vector2i)
    ensures
        final(map)@ == cleared_around(old(map)@, b),
{
    let ghost w = map@;
    assert(map@.cells =~= cleared_partly(w, b, -1, -1).cells);
    let mut dx: i64 = -1;
    while dx <= 1
        invariant
            -1 <= dx <= 2,
            map@ == cleared_partly(w, b, dx as int, -1),
        decreases 2 - dx,
    {
        let mut dy: i64 = -1;
        while dy <= 1
            invariant
                -1 <= dx <= 1,
                -1 <= dy <= 2,
                map@ == cleared_partly(w, b, dx as int, dy as int),
            decreases 2 - dy,
        {
            let cx = b.x as i64 + dx;
            let cy = b.y as i64 + dy;
            let ghost before = map@;
            if i32::MIN as i64 <= cx && cx <= i32::MAX as i64 && i32::MIN as i64 <= cy && cy
                <= i32::MAX as i64 {
                let c = Vector2i::new(cx as i32, cy as i32);
                let weak = match map.get_tile(&c) {
                    Some(t) => t.id() == WEAK_WALL,
                    None => false,
                };
                assert(before.id_at(c) == w.id_at(c));
                if weak {
                    map.set_tile(c, BACKGROUND);
                }
                assert(map@.cells =~= cleared_partly(w, b, dx as int, dy + 1).cells);
            } else {
                assert(map@.cells =~= cleared_partly(w, b, dx as int, dy + 1).cells);
            }
            dy += 1;
        }
        assert(map@.cells =~= cleared_partly(w, b, dx + 1, -1).cells);
        dx += 1;
    }
    assert(map@.cells =~= cleared_around(w, b).cells);
}

/// One more bomb going off, on top of the earlier ones.
proof fn lemma_blast_step(v: TilemapView, s: Set<Vector2i>, b: Vector2i)
    requires
        v.cells.contains_key(b),
    ensures
        cleared_around(blast(v, s).set(b, BACKGROUND), b) == blast(v, s.insert(b)),
{
    let m = blast(v, s).set(b, BACKGROUND);
    let lhs = cleared_around(m, b);
    let rhs = blast(v, s.insert(b));
    assert forall|p: Vector2i| #[trigger] lhs.cells.contains_key(p) implies lhs.cells[p] == rhs.cells[p] by {
        if p != b {
            if !(s.contains(p) || (v.id_at(p) == Some(WEAK_WALL) && exists|c: Vector2i|
                #[trigger] s.contains(c) && near(c, p))) {
                assert(m.id_at(p) == v.id_at(p));
                if v.id_at(p) == Some(WEAK_WALL) && near(b, p) {
                    assert(s.insert(b).contains(b));
                }
                if v.id_at(p) == Some(WEAK_WALL) && exists|c: Vector2i|
                    #[trigger] s.insert(b).contains(c) && near(c, p) {
                    let c = choose|c: Vector2i| #[trigger] s.insert(b).contains(c) && near(c, p);
                    assert(c == b);
                }
            } else {
                if v.id_at(p) == Some(WEAK_WALL) && exists|c: Vector2i|
                    #[trigger] s.contains(c) && near(c, p) {
                    let c = choose|c: Vector2i| #[trigger] s.contains(c) && near(c, p);
                    assert(s.insert(b).contains(c));
                }
            }
        }
    }
    assert(lhs.cells =~= rhs.cells);
}

/// Whether `v` holds `p`.
fn contains_cell(v: &Vec<Vector2i>, p: Vector2i) -> (r: bool)
    ensures
        r == v@.contains(p),
{
    let mut i: usize = 0;
    while i < v.len()
        invariant
            0 <= i <= v.len(),
            forall|j: int| 0 <= j < i ==> v@[j] != p,
        decreases v.len() - i,
    {
        if v[i] == p {
            return true;
        }
        i += 1;
    }
    false
}

/// The explosions appended to `before` to give `after` are one for each cell
/// of `bombs`, each once, with a fresh timer.
pub open spec fn explosions_for(before: Seq<Explosion>, after: Seq<Explosion>, bombs: Set<Vector2i>) -> bool {
    let added = after.subrange(before.len() as int, after.len() as int);
    &&& before.len() <= after.len()
    &&& after.subrange(0, before.len() as int) == before
    &&& forall|i: int| 0 <= i < added.len() ==> (#[trigger] added[i]).timer == 0 && bombs.contains(
        added[i].position,
    )
    &&& forall|p: Vector2i| #[trigger] bombs.contains(p) ==> exists|i: int|
        0 <= i < added.len() && added[i].position == p
    &&& forall|i: int, j: int| 0 <= i < j < added.len() ==> added[i].position != added[j].position
}

/// What an interaction did.
#[derive(PartialEq, Eq, Structural, Clone, Copy, Debug)]
pub enum Interaction {
    LeverToggled,
    BombPickedUp,
    BombPlaced,
    Nothing,
}

/// A play session: the current level, the levels still to come, the bombs
/// carried, the cells where the player placed bombs, and whether the last
/// level has been left.
pub struct GameState {
    pub current_level: Level,
    pub levels: Vec<Level>,
    pub bombs: u32,
    pub placed_bombs: Vec<Vector2i>,
    pub won: bool,
}

impl GameState {
    /// A session starting in `first`, with `rest` to follow in order.
    pub fn new(first: Level, rest: Vec<Level>) -> (r: GameState)
        ensures
            r.current_level == first,
            r.levels@ == rest@,
            r.bombs == 0,
            r.placed_bombs@ == Seq::<Vector2i>::empty(),
            !r.won,
    {
        GameState { current_level: first, levels: rest, bombs: 0, placed_bombs: Vec::new(), won: false }
    }

    /// Sets off every bomb the player placed that is still on the map: the
    /// bomb cells and the weak walls around them become background, an
    /// explosion is appended to `explosions` for each, and the record of
    /// placed bombs is emptied. Bomb tiles the player did not place stay.
    pub fn detonate_all_bombs(&mut self, explosions: &mut Vec<Explosion>)
        ensures
            final(self).current_level.tilemap@ == detonated(
                old(self).current_level.tilemap@,
                old(self).placed_bombs@,
            ),
            final(self).placed_bombs@ == Seq::<Vector2i>::empty(),
            explosions_for(
                old(explosions)@,
                final(explosions)@,
                armed_set(old(self).current_level.tilemap@, old(self).placed_bombs@),
            ),
            final(self).current_level.lever_hook@ == old(self).current_level.lever_hook@,
            final(self).levels@ == old(self).levels@,
            final(self).bombs == old(self).bombs,
            final(self).won == old(self).won,
    {
        let ghost v0 = self.current_level.tilemap@;
        let ghost placed = self.placed_bombs@;
        let ghost armed_cells = armed_set(v0, placed);
        let candidates = self.current_level.tilemap.positions_with_id(BOMB);
        let mut bombs: Vec<Vector2i> = Vec::new();
        for i in 0..candidates.len()
            invariant
                self.current_level.tilemap@ == v0,
                self.placed_bombs@ == placed,
                candidates@.no_duplicates(),
                forall|p: Vector2i| candidates@.contains(p) <==> v0.id_at(p) == Some(BOMB),
                bombs@.no_duplicates(),
                forall|p: Vector2i| bombs@.contains(p) <==> (armed(v0, placed, p) && exists|j: int|
                    0 <= j < i && candidates@[j] == p),
        {
            let p = candidates[i];
            let ghost b0 = bombs@;
            if contains_cell(&self.placed_bombs, p) {
                proof {
                    if bombs@.contains(p) {
                        let j = choose|j: int| 0 <= j < i && candidates@[j] == p;
                        assert(candidates@[i as int] == p);
                    }
                }
                bombs.push(p);
            }
            proof {
                assert(candidates@.contains(p));
                assert forall|q: Vector2i| bombs@.contains(q) <==> (armed(v0, placed, q) && exists|j: int|
                    0 <= j < i + 1 && candidates@[j] == q) by {
                    if q != p {
                        if bombs@.contains(q) {
                            let k = choose|k: int| 0 <= k < bombs.len() && bombs@[k] == q;
                            assert(b0[k] == q);
                        }
                        if b0.contains(q) {
                            let k = choose|k: int| 0 <= k < b0.len() && b0[k] == q;
                            assert(bombs@[k] == q);
                        }
                    } else if armed(v0, placed, q) {
                        assert(bombs@[bombs.len() - 1] == q);
                    }
                }
            }
        }
        assert(bombs@.to_set() =~= armed_cells) by {
            assert forall|p: Vector2i| armed_cells.contains(p) implies bombs@.contains(p) by {
                assert(candidates@.contains(p));
            }
        }
        self.placed_bombs.clear();
        let ghost e0 = explosions@;
        assert(bombs@.subrange(0, 0).to_set() =~= Set::<Vector2i>::empty());
        assert(self.current_level.tilemap@.cells =~= blast(v0, Set::<Vector2i>::empty()).cells);
        assert(self.current_level.tilemap@ == blast(v0, bombs@.subrange(0, 0).to_set()));
        for k in 0..bombs.len()
            invariant
                self.current_level.tilemap@ == blast(v0, bombs@.subrange(0, k as int).to_set()),
                self.placed_bombs@ == Seq::<Vector2i>::empty(),
                self.current_level.lever_hook@ == old(self).current_level.lever_hook@,
                self.levels@ == old(self).levels@,
                self.bombs == old(self).bombs,
                self.won == old(self).won,
                bombs@.no_duplicates(),
                bombs@.to_set() == armed_cells,
                forall|p: Vector2i| bombs@.contains(p) ==> armed(v0, placed, p),
                explosions@.len() == e0.len() + k,
                explosions@.subrange(0, e0.len() as int) == e0,
                forall|j: int| 0 <= j < k ==> explosions@[e0.len() + j] == (Explosion {
                    position: #[trigger] bombs@[j],
                    timer: 0,
                }),
        {
            let b = bombs[k];
            let ghost done = bombs@.subrange(0, k as int).to_set();
            assert(armed_cells.contains(b)) by {
                assert(bombs@.contains(b));
            }
            assert(bombs@.contains(b));
            assert(armed(v0, placed, b));
            assert(v0.tile_at(b) is Some);
            assert(v0.cells.contains_key(b));
            self.current_level.tilemap.set_tile(b, BACKGROUND);
            explosions.push(Explosion::new(b));
            clear_weak_walls_around(&mut self.current_level.tilemap, b);
            proof {
                lemma_blast_step(v0, done, b);
                assert(bombs@.subrange(0, k + 1).to_set() =~= done.insert(b)) by {
                    assert(bombs@.subrange(0, k + 1) == bombs@.subrange(0, k as int).push(b));
                    bombs@.subrange(0, k as int).lemma_push_to_set_commute(b);
                }
                assert(explosions@.subrange(0, e0.len() as int) =~= e0);
            }
        }
        proof {
            assert(bombs@.subrange(0, bombs.len() as int) == bombs@);
            let added = explosions@.subrange(e0.len() as int, explosions.len() as int);
            assert forall|i: int| 0 <= i < added.len() implies (#[trigger] added[i]).timer == 0
                && armed_cells.contains(added[i].position) by {
                assert(added[i] == explosions@[e0.len() + i]);
                assert(bombs@.contains(bombs@[i]));
            }
            assert forall|p: Vector2i| #[trigger] armed_cells.contains(p) implies exists|i: int|
                0 <= i < added.len() && added[i].position == p by {
                assert(bombs@.to_set().contains(p));
                let i = choose|i: int| 0 <= i < bombs.len() && bombs@[i] == p;
                assert(added[i] == explosions@[e0.len() + i]);
            }
            assert forall|i: int, j: int| 0 <= i < j < added.len() implies added[i].position
                != added[j].position by {
                assert(added[i] == explosions@[e0.len() + i]);
                assert(added[j] == explosions@[e0.len() + j]);
                assert(bombs@[i] != bombs@[j]);
            }
        }
    }

    /// The interact action on the cell `at` (the cell under the actor): a
    /// lever flips and fires the level's hook; a bomb is picked up; on a
    /// background cell, a carried bomb is placed and recorded; anything else
    /// is left alone.
    pub fn interact(&mut self, at: Vector2i) -> (r: Interaction)
        requires
            old(self).bombs < u32::MAX,
        ensures
            r == interaction_of(old(self).current_level.tilemap@, old(self).bombs, at),
            r == Interaction::LeverToggled ==> final(self).current_level.tilemap@ == toggled(
                old(self).current_level.tilemap@,
                old(self).current_level.lever_hook@,
                at,
            ).0 && final(self).bombs == old(self).bombs && final(self).placed_bombs@ == old(self).placed_bombs@,
            r == Interaction::BombPickedUp ==> final(self).current_level.tilemap@ == old(self).current_level.tilemap@.set(at, BACKGROUND) && final(self).bombs == old(self).bombs + 1
                && final(self).placed_bombs@ == old(self).placed_bombs@,
            r == Interaction::BombPlaced ==> final(self).current_level.tilemap@ == old(self).current_level.tilemap@.set(at, BOMB) && final(self).bombs == old(self).bombs - 1
                && final(self).placed_bombs@ == old(self).placed_bombs@.push(at),
            r == Interaction::Nothing ==> final(self).current_level.tilemap@ == old(self).current_level.tilemap@ && final(self).bombs == old(self).bombs && final(self).placed_bombs@ == old(self).placed_bombs@,
            final(self).current_level.lever_hook@ == old(self).current_level.lever_hook@,
            final(self).levels@ == old(self).levels@,
            final(self).won == old(self).won,
    {
        let id = match self.current_level.tilemap.get_tile(&at) {
            Some(t) => t.id(),
            None => {
                return Interaction::Nothing;
            },
        };
        if id == LEVER_OFF || id == LEVER_ON {
            self.current_level.toggle_lever(at);
            Interaction::LeverToggled
        } else if id == BOMB {
            self.current_level.tilemap.set_tile(at, BACKGROUND);
            self.bombs = self.bombs + 1;
            Interaction::BombPickedUp
        } else if id == BACKGROUND && self.bombs >= 1 {
            self.current_level.tilemap.set_tile(at, BOMB);
            self.bombs = self.bombs - 1;
            self.placed_bombs.push(at);
            Interaction::BombPlaced
        } else {
            Interaction::Nothing
        }
    }

    /// Standing on an exit moves on to the next level, or, after the last
    /// one, wins the game. Returns whether a new level was entered (the
    /// actor then goes to its spawn cell, see `set_player_pos`).
    pub fn check_exit(&mut self, at: Vector2i) -> (r: bool)
        ensures
            old(self).current_level.tilemap@.id_at(at) != Some(EXIT) ==> !r && final(self).won
                == old(self).won && final(self).current_level == old(self).current_level && final(self).levels@ == old(self).levels@,
            old(self).current_level.tilemap@.id_at(at) == Some(EXIT) && old(self).levels.len() == 0
                ==> !r && final(self).won && final(self).current_level == old(self).current_level
                && final(self).levels@ == old(self).levels@,
            old(self).current_level.tilemap@.id_at(at) == Some(EXIT) && old(self).levels.len() > 0
                ==> r && final(self).won == old(self).won && final(self).current_level == old(self).levels@[0] && final(self).levels@ == old(self).levels@.drop_first(),
            final(self).bombs == old(self).bombs,
            final(self).placed_bombs@ == old(self).placed_bombs@,
    {
        let on_exit = match self.current_level.tilemap.get_tile(&at) {
            Some(t) => t.id() == EXIT,
            None => false,
        };
        if !on_exit {
            return false;
        }
        if self.levels.len() == 0 {
            self.won = true;
            return false;
        }
        self.current_level = self.levels.remove(0);
        true
    }
}

/// What the interact action does on a map, with `bombs` carried.
pub open spec fn interaction_of(v: TilemapView, bombs: u32, at: Vector2i) -> Interaction {
    match v.id_at(at) {
        Some(id) => if id == LEVER_OFF || id == LEVER_ON {
            Interaction::LeverToggled
        } else if id == BOMB {
            Interaction::BombPickedUp
        } else if id == BACKGROUND && bombs >= 1 {
            Interaction::BombPlaced
        } else {
            Interaction::Nothing
        },
        None => Interaction::Nothing,
    }
}

/// Where an actor standing on cell `p` is placed, in units.
pub open spec fn cell_origin(p: Vector2i) -> Vec2 {
    Vec2 { x: (p.x * TILE_SIZE) as i64, y: (p.y * TILE_SIZE) as i64 }
}

/// Puts the actor on the spawn cell of the current level. With no spawn
/// cell the actor stays; with several, it goes to one of them.
pub fn set_player_pos(game_state: &GameState, player: &mut Player)
    ensures
        (exists|p: Vector2i| #[trigger] game_state.current_level.tilemap@.id_at(p) == Some(SPAWN))
            ==> game_state.current_level.tilemap@.id_at(cell_of_origin(final(player).position))
            == Some(SPAWN) && final(player).position == cell_origin(
            cell_of_origin(final(player).position),
        ),
        !(exists|p: Vector2i| #[trigger] game_state.current_level.tilemap@.id_at(p) == Some(SPAWN))
            ==> final(player).position == old(player).position,
        final(player).velocity == old(player).velocity,
        final(player).scale == old(player).scale,
        final(player).on_ground == old(player).on_ground,
        final(player).tick_since_last_ground == old(player).tick_since_last_ground,
{
    let spawns = game_state.current_level.tilemap.positions_with_id(SPAWN);
    if spawns.len() > 0 {
        let p = spawns[spawns.len() - 1];
        proof {
            assert(spawns@.contains(p));
            lemma_cell_origin_round_trip(p);
        }
        assert(-0x1_0000_0000_0000 <= p.x * TILE_SIZE <= 0x1_0000_0000_0000) by (nonlinear_arith)
            requires
                i32::MIN <= p.x <= i32::MAX,
        ;
        assert(-0x1_0000_0000_0000 <= p.y * TILE_SIZE <= 0x1_0000_0000_0000) by (nonlinear_arith)
            requires
                i32::MIN <= p.y <= i32::MAX,
        ;
        player.position = Vec2 { x: p.x as i64 * TILE_SIZE, y: p.y as i64 * TILE_SIZE };
    } else {
        proof {
            assert forall|p: Vector2i| #[trigger] game_state.current_level.tilemap@.id_at(p) != Some(SPAWN) by {
                if game_state.current_level.tilemap@.id_at(p) == Some(SPAWN) {
                    assert(spawns@.contains(p));
                }
            }
        }
    }
}

/// The cell whose origin is `pos` (for positions on cell origins).
pub open spec fn cell_of_origin(pos: Vec2) -> Vector2i {
    Vector2i { x: ((pos.x as int) / (TILE_SIZE as int)) as i32, y: ((pos.y as int) / (TILE_SIZE as int)) as i32 }
}

proof fn lemma_cell_origin_round_trip(p: Vector2i)
    ensures
        cell_of_origin(cell_origin(p)) == p,
{
    assert(-0x1_0000_0000_0000 <= p.x * TILE_SIZE <= 0x1_0000_0000_0000) by (nonlinear_arith)
        requires
            i32::MIN <= p.x <= i32::MAX,
    ;
    assert(-0x1_0000_0000_0000 <= p.y * TILE_SIZE <= 0x1_0000_0000_0000) by (nonlinear_arith)
        requires
            i32::MIN <= p.y <= i32::MAX,
    ;
    vstd::arithmetic::div_mod::lemma_fundamental_div_mod_converse(p.x * TILE_SIZE, TILE_SIZE as int, p.x as int, 0);
    vstd::arithmetic::div_mod::lemma_fundamental_div_mod_converse(p.y * TILE_SIZE, TILE_SIZE as int, p.y as int, 0);
}

/// Detonating with no recorded placements destroys nothing, whatever bomb
/// tiles the map shows.
pub proof fn lemma_detonate_unplaced(v: TilemapView)
    ensures
        detonated(v, Seq::<Vector2i>::empty()) == v,
{
    assert(armed_set(v, Seq::<Vector2i>::empty()) =~= Set::<Vector2i>::empty());
    assert(detonated(v, Seq::<Vector2i>::empty()).cells =~= v.cells);
}

/// Placing a bomb on a background cell and detonating clears that cell and
/// every weak wall in the 3×3 block around it (where the catalog resolves
/// the bomb id to itself).
pub proof fn lemma_place_then_detonate(v: TilemapView, placed: Seq<Vector2i>, at: Vector2i)
    requires
        v.id_at(at) == Some(BACKGROUND),
        BOMB < v.tileset.len(),
        v.tileset[BOMB as int].id == BOMB,
    ensures
        ({
            let after = detonated(v.set(at, BOMB), placed.push(at));
            &&& after.cells.contains_key(at) && after.cells[at] == BACKGROUND
            &&& forall|p: Vector2i| near(at, p) && #[trigger] v.id_at(p) == Some(WEAK_WALL) ==> after.cells.contains_key(p)
                && after.cells[p] == BACKGROUND
        }),
{
    let v1 = v.set(at, BOMB);
    let pl = placed.push(at);
    assert(pl[pl.len() - 1] == at);
    assert(armed(v1, pl, at));
    assert(armed_set(v1, pl).contains(at));
    assert forall|p: Vector2i| near(at, p) && #[trigger] v.id_at(p) == Some(WEAK_WALL) implies detonated(v1, pl).cells.contains_key(p)
        && detonated(v1, pl).cells[p] == BACKGROUND by {
        assert(p != at);
        assert(v1.id_at(p) == v.id_at(p));
    }
}

} // verus!
