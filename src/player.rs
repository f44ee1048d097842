use vstd::prelude::*;

use crate::geometry::{rect_bounded, Rect, Vector2i, TILE_SIZE, UNITS_PER_PIXEL};
use crate::tilemap::{Tilemap, TilemapView};

verus! {

/// A point or a velocity in units (see `UNITS_PER_PIXEL`).
#[derive(PartialEq, Eq, Structural, Clone, Copy, Debug)]
pub struct Vec2 {
    pub x: i64,
    pub y: i64,
}

/// The inputs that steer the actor during one tick.
#[derive(PartialEq, Eq, Structural, Clone, Copy, Debug)]
pub struct Controls {
    pub left: bool,
    pub right: bool,
    pub jump: bool,
    pub grow: bool,
    pub shrink: bool,
}

/// Sizes are in hundredths of the base size.
pub const MIN_SCALE: u32 = 100;
pub const MAX_SCALE: u32 = 200;

/// One grow or shrink step, in hundredths.
pub const SCALE_STEP: u32 = 5;

/// How far the actor's top moves for one size step, in units.
pub const SCALE_STEP_UNITS: i64 = 1280;

/// Horizontal speed an input adds per tick, in units (1.5 pixels).
pub const MOVE_SPEED: i64 = 600;

/// Ticks after leaving the ground during which a jump is still allowed.
pub const GRACE_TICKS: u32 = 10;

/// What a jump sets the ticks since the ground to: well past the grace
/// window, so a jump cannot be repeated in mid-air.
pub const JUMP_GROUND_TICKS: u32 = 100;

/// Cap on the sub-steps of one collision resolution.
pub const MAX_SUBSTEPS: u32 = 10;

/// Horizontal inset of the hitbox from the sprite's left edge (an eighth of a
/// tile), in units.
pub const HITBOX_INSET: i64 = 3200;

/// Bound on the actor's coordinates between ticks, in units.
pub const MAX_COORD: i64 = 0x2000_0000_0000;

/// Bound on the actor's speed on each axis, in units per tick.
pub const MAX_SPEED: i64 = 0x100_0000_0000;

/// `v * num / den`, rounded toward zero.
pub open spec fn toward_zero(v: int, num: int, den: int) -> int {
    if v >= 0 {
        v * num / den
    } else {
        -((-v) * num / den)
    }
}

/// The velocity left for the next sub-step: two thirds of `v`.
pub open spec fn damped(v: int) -> int {
    toward_zero(v, 2, 3)
}

/// The velocity after the per-tick drag: three quarters of `v`.
pub open spec fn dragged(v: int) -> int {
    toward_zero(v, 3, 4)
}

/// Downward acceleration per tick at a size: 2.8 pixels at the base size,
/// growing with it.
pub open spec fn gravity(scale: u32) -> int {
    28 * (scale + 100) / 5
}

/// Upward speed a jump gives at a size (60 pixels per tick at the base size).
pub open spec fn jump_speed(scale: u32) -> int {
    240 * scale
}

/// Edge of the actor's sprite at a size, in units.
pub open spec fn sprite_size(scale: u32) -> int {
    256 * scale
}

/// The actor's hitbox at a position and size.
pub open spec fn hitbox_at(pos: Vec2, scale: u32) -> Rect {
    Rect {
        x: (pos.x + HITBOX_INSET) as i64,
        y: pos.y,
        width: (255 * scale) as i64,
        height: (256 * scale) as i64,
    }
}

/// The actor's hitbox meets no solid tile.
#[verifier::opaque]
pub open spec fn fits(map: TilemapView, pos: Vec2, scale: u32) -> bool {
    !map.collides(hitbox_at(pos, scale))
}

/// `pos` moved by `d` along one axis.
pub open spec fn shift(pos: Vec2, vertical: bool, d: int) -> Vec2 {
    if vertical {
        Vec2 { x: pos.x, y: (pos.y + d) as i64 }
    } else {
        Vec2 { x: (pos.x + d) as i64, y: pos.y }
    }
}

pub open spec fn axis_of(v: Vec2, vertical: bool) -> int {
    if vertical {
        v.y as int
    } else {
        v.x as int
    }
}

/// The sub-stepping after a blocked move, from sub-step `i`: while the actor
/// fits, the velocity is damped and added again, at most `MAX_SUBSTEPS`
/// times in all. Gives the last position reached and the last velocity added.
pub open spec fn substeps(map: TilemapView, scale: u32, pos: Vec2, vertical: bool, v: int, i: nat) -> (Vec2, int)
    decreases MAX_SUBSTEPS - i,
{
    if i >= MAX_SUBSTEPS || !fits(map, pos, scale) {
        (pos, v)
    } else {
        let v2 = damped(v);
        let next = shift(pos, vertical, v2);
        if i + 1 >= MAX_SUBSTEPS {
            (next, v2)
        } else {
            substeps(map, scale, next, vertical, v2, (i + 1) as nat)
        }
    }
}

/// One axis of motion: the full step when it fits; otherwise the sub-steps
/// from the start, with the last increment taken back. Gives the position,
/// the velocity left and whether the full step was blocked.
pub open spec fn resolve(map: TilemapView, scale: u32, pos: Vec2, vertical: bool, v: int) -> (Vec2, int, bool) {
    let moved = shift(pos, vertical, v);
    if fits(map, moved, scale) {
        (moved, v, false)
    } else {
        let (pb, vb) = substeps(map, scale, pos, vertical, v, 0);
        (shift(pb, vertical, -vb), vb, true)
    }
}

/// The player-controlled actor: position and velocity in units, size in
/// hundredths of the base size, whether it may jump, and the ticks since it
/// last stood on solid ground.
pub struct Player {
    pub position: Vec2,
    pub velocity: Vec2,
    pub scale: u32,
    pub on_ground: bool,
    pub tick_since_last_ground: u32,
}

/// `v` within `[-bound, bound]`.
pub open spec fn within(v: int, bound: int) -> bool {
    -bound <= v <= bound
}

pub open spec fn abs(v: int) -> int {
    if v < 0 {
        -v
    } else {
        v
    }
}

/// Room for a move along an axis: coordinates and velocity small enough that
/// no sub-step leaves the range of `i64`.
pub open spec fn room(pos: Vec2, vertical: bool, v: int) -> bool {
    &&& abs(axis_of(pos, vertical)) + 3 * abs(v) <= 0x400_0000_0000_0000
    &&& abs(axis_of(pos, !vertical)) <= 0x400_0000_0000_0000
}

/// The sub-steps stay within three times the blocked velocity of their start,
/// counting three times the velocity they end with.
pub proof fn lemma_substeps_travel(map: TilemapView, scale: u32, pos: Vec2, vertical: bool, v: int, i: nat)
    requires
        room(pos, vertical, v),
    ensures
        ({
            let (pb, vb) = substeps(map, scale, pos, vertical, v, i);
            &&& abs(axis_of(pb, vertical) - axis_of(pos, vertical)) + 3 * abs(vb) <= 3 * abs(v)
            &&& axis_of(pb, !vertical) == axis_of(pos, !vertical)
        }),
    decreases MAX_SUBSTEPS - i,
{
    if i >= MAX_SUBSTEPS || !fits(map, pos, scale) {
    } else {
        let v2 = damped(v);
        assert(3 * abs(v2) <= 2 * abs(v));
        let next = shift(pos, vertical, v2);
        if i + 1 < MAX_SUBSTEPS {
            lemma_substeps_travel(map, scale, next, vertical, v2, (i + 1) as nat);
        }
    }
}

/// Sub-stepping from a position that fits ends, once its last increment is
/// taken back, at a position that fits.
pub proof fn lemma_substeps_fit(map: TilemapView, scale: u32, pos: Vec2, vertical: bool, v: int, i: nat)
    requires
        i < MAX_SUBSTEPS,
        fits(map, pos, scale),
        room(pos, vertical, v),
    ensures
        ({
            let (pb, vb) = substeps(map, scale, pos, vertical, v, i);
            fits(map, shift(pb, vertical, -vb), scale)
        }),
    decreases MAX_SUBSTEPS - i,
{
    let v2 = damped(v);
    assert(3 * abs(v2) <= 2 * abs(v));
    let next = shift(pos, vertical, v2);
    assert(shift(next, vertical, -v2) == pos);
    if i + 1 < MAX_SUBSTEPS {
        if fits(map, next, scale) {
            lemma_substeps_fit(map, scale, next, vertical, v2, (i + 1) as nat);
        } else {
            assert(substeps(map, scale, next, vertical, v2, (i + 1) as nat) == (next, v2));
        }
    }
}

/// An axis move that starts clear of solid tiles ends clear of them, whether
/// the full step fits or the sub-steps, at most `MAX_SUBSTEPS` of them,
/// settle against a tile.
pub proof fn lemma_resolve_stays_clear(map: TilemapView, scale: u32, pos: Vec2, vertical: bool, v: int)
    requires
        fits(map, pos, scale),
        room(pos, vertical, v),
    ensures
        fits(map, resolve(map, scale, pos, vertical, v).0, scale),
{
    if !fits(map, shift(pos, vertical, v), scale) {
        lemma_substeps_fit(map, scale, pos, vertical, v, 0);
    }
}

/// The rounding toward zero of `v * num / den`, for a small factor.
fn scale_toward_zero(v: i64, num: i64, den: i64) -> (r: i64)
    requires
        within(v as int, 0x1000_0000_0000_0000),
        1 <= num <= 3,
        num < den <= 4,
    ensures
        r == toward_zero(v as int, num as int, den as int),
        abs(r as int) <= abs(v as int),
{
    if v >= 0 {
        assert(v * num <= v * den) by (nonlinear_arith)
            requires
                v >= 0,
                num < den,
        ;
        assert((v * num) / (den as int) <= v) by (nonlinear_arith)
            requires
                v >= 0,
                v * num <= v * den,
                den > 0,
        ;
        assert(v * num <= 3 * 0x1000_0000_0000_0000) by (nonlinear_arith)
            requires
                0 <= v <= 0x1000_0000_0000_0000,
                1 <= num <= 3,
        ;
        v * num / den
    } else {
        let m = -v;
        assert(m * num <= m * den) by (nonlinear_arith)
            requires
                m >= 0,
                num < den,
        ;
        assert((m * num) / (den as int) <= m) by (nonlinear_arith)
            requires
                m >= 0,
                m * num <= m * den,
                den > 0,
        ;
        assert(m * num <= 3 * 0x1000_0000_0000_0000) by (nonlinear_arith)
            requires
                0 <= m <= 0x1000_0000_0000_0000,
                1 <= num <= 3,
        ;
        -(m * num / den)
    }
}

/// Gravity added to the vertical velocity.
pub open spec fn after_gravity(p: Player) -> Player {
    Player { velocity: Vec2 { x: p.velocity.x, y: (p.velocity.y + gravity(p.scale)) as i64 }, ..p }
}

/// Resting on the bottom edge of the screen counts as standing.
pub open spec fn after_floor_check(p: Player, screen_height: i32) -> Player {
    if p.position.y >= screen_height * UNITS_PER_PIXEL - sprite_size(p.scale) {
        Player { on_ground: true, ..p }
    } else {
        p
    }
}

/// Steering and jumping. A jump is allowed while grounded and uses up the
/// grace window.
#[verifier::opaque]
pub open spec fn after_input(p: Player, c: Controls) -> Player {
    let vx = p.velocity.x + (if c.right { MOVE_SPEED } else { 0 }) - (if c.left { MOVE_SPEED } else { 0 });
    if p.on_ground && c.jump {
        Player {
            velocity: Vec2 { x: vx as i64, y: (-jump_speed(p.scale)) as i64 },
            tick_since_last_ground: JUMP_GROUND_TICKS,
            ..p
        }
    } else {
        Player { velocity: Vec2 { x: vx as i64, y: p.velocity.y }, ..p }
    }
}

/// The vertical move. Blocked while moving down (or at rest), the actor
/// stands and its ground timer restarts; blocked while moving up, it hits a
/// ceiling. Either way the vertical velocity is cleared. Unblocked, it stays
/// grounded only within the grace window.
#[verifier::opaque]
pub open spec fn after_vertical(p: Player, map: TilemapView) -> Player {
    let (pos, v, blocked) = resolve(map, p.scale, p.position, true, p.velocity.y as int);
    if blocked {
        let down = p.velocity.y >= 0;
        Player {
            position: pos,
            velocity: Vec2 { x: p.velocity.x, y: 0 },
            on_ground: down,
            tick_since_last_ground: if down {
                0
            } else {
                p.tick_since_last_ground
            },
            ..p
        }
    } else {
        Player { position: pos, on_ground: p.tick_since_last_ground <= GRACE_TICKS, ..p }
    }
}

/// The horizontal move; the velocity left after sub-steps is kept.
#[verifier::opaque]
pub open spec fn after_horizontal(p: Player, map: TilemapView) -> Player {
    let (pos, v, blocked) = resolve(map, p.scale, p.position, false, p.velocity.x as int);
    Player { position: pos, velocity: Vec2 { x: v as i64, y: p.velocity.y }, ..p }
}

/// Growing by one step, probed two steps ahead with the feet kept in place;
/// refused when the probe meets a solid tile. Then shrinking by one step,
/// without a probe.
#[verifier::opaque]
pub open spec fn after_scaling(p: Player, map: TilemapView, c: Controls) -> Player {
    let grown = if p.scale < MAX_SCALE && c.grow {
        let probe = Vec2 { x: p.position.x, y: (p.position.y - 2 * SCALE_STEP_UNITS) as i64 };
        if fits(map, probe, (p.scale + 2 * SCALE_STEP) as u32) {
            Player {
                scale: (p.scale + SCALE_STEP) as u32,
                position: Vec2 { x: p.position.x, y: (p.position.y - SCALE_STEP_UNITS) as i64 },
                ..p
            }
        } else {
            p
        }
    } else {
        p
    };
    if grown.scale > MIN_SCALE && c.shrink {
        Player { scale: (grown.scale - SCALE_STEP) as u32, ..grown }
    } else {
        grown
    }
}

/// Drag on both axes, and one more tick since the ground (saturating).
pub open spec fn after_drag(p: Player) -> Player {
    Player {
        velocity: Vec2 { x: dragged(p.velocity.x as int) as i64, y: dragged(p.velocity.y as int) as i64 },
        tick_since_last_ground: if p.tick_since_last_ground == u32::MAX {
            u32::MAX
        } else {
            (p.tick_since_last_ground + 1) as u32
        },
        ..p
    }
}

/// `v` limited to `[0, hi]` (to 0 when `hi` is negative).
pub open spec fn clamp_to(v: int, hi: int) -> int {
    if v > hi {
        if hi < 0 {
            0
        } else {
            hi
        }
    } else if v < 0 {
        0
    } else {
        v
    }
}

/// The sprite kept inside the screen.
pub open spec fn after_clamp(p: Player, screen_width: i32, screen_height: i32) -> Player {
    Player {
        position: Vec2 {
            x: clamp_to(p.position.x as int, screen_width * UNITS_PER_PIXEL - sprite_size(p.scale)) as i64,
            y: clamp_to(p.position.y as int, screen_height * UNITS_PER_PIXEL - sprite_size(p.scale)) as i64,
        },
        ..p
    }
}

/// One simulation tick: gravity, the floor check, input, the vertical then
/// the horizontal move, resizing, drag, and the screen bounds.
pub open spec fn stepped(p: Player, map: TilemapView, c: Controls, screen_width: i32, screen_height: i32) -> Player {
    after_clamp(
        after_drag(
            after_scaling(
                after_horizontal(
                    after_vertical(after_input(after_floor_check(after_gravity(p), screen_height), c), map),
                    map,
                ),
                map,
                c,
            ),
        ),
        screen_width,
        screen_height,
    )
}

/// The cell under the centre of the actor's sprite.
pub open spec fn center_cell(p: Player) -> Vector2i {
    Vector2i {
        x: ((p.position.x + sprite_size(p.scale) / 2) / (TILE_SIZE as int)) as i32,
        y: ((p.position.y + sprite_size(p.scale) / 2) / (TILE_SIZE as int)) as i32,
    }
}

/// Ledge forgiveness. In a tick whose vertical move meets no solid tile, the
/// actor may still jump exactly when at most `GRACE_TICKS` ticks have passed
/// since it last stood on solid ground; and a tick without a jump in which
/// the vertical move meets nothing adds one tick to that count.
pub proof fn lemma_grounded_grace(p: Player, map: TilemapView, c: Controls, screen_width: i32, screen_height: i32)
    ensures
        !resolve(map, p.scale, p.position, true, p.velocity.y as int).2 ==> after_vertical(p, map).on_ground
            == (p.tick_since_last_ground <= GRACE_TICKS),
        ({
            let q = after_input(after_floor_check(after_gravity(p), screen_height), c);
            let r = stepped(p, map, c, screen_width, screen_height);
            !(q.on_ground && c.jump) && !resolve(map, q.scale, q.position, true, q.velocity.y as int).2
                && p.tick_since_last_ground < u32::MAX ==> r.tick_since_last_ground == p.tick_since_last_ground
                + 1
        }),
{
    reveal(after_vertical);
    reveal(after_input);
    reveal(after_horizontal);
    reveal(after_scaling);
}

/// The vertical move of a tick ends clear of solid tiles when it starts
/// clear of them.
pub proof fn lemma_vertical_move_stays_clear(p: Player, map: TilemapView)
    requires
        fits(map, p.position, p.scale),
        room(p.position, true, p.velocity.y as int),
    ensures
        fits(map, after_vertical(p, map).position, after_vertical(p, map).scale),
{
    reveal(after_vertical);
    lemma_resolve_stays_clear(map, p.scale, p.position, true, p.velocity.y as int);
}

/// The horizontal move of a tick ends clear of solid tiles when it starts
/// clear of them.
pub proof fn lemma_horizontal_move_stays_clear(p: Player, map: TilemapView)
    requires
        fits(map, p.position, p.scale),
        room(p.position, false, p.velocity.x as int),
    ensures
        fits(map, after_horizontal(p, map).position, after_horizontal(p, map).scale),
{
    reveal(after_horizontal);
    lemma_resolve_stays_clear(map, p.scale, p.position, false, p.velocity.x as int);
}

/// `n` ticks with the same controls and screen.
pub open spec fn run(p: Player, map: TilemapView, c: Controls, screen_width: i32, screen_height: i32, n: nat) -> Player
    decreases n,
{
    if n == 0 {
        p
    } else {
        stepped(run(p, map, c, screen_width, screen_height, (n - 1) as nat), map, c, screen_width, screen_height)
    }
}

/// In the tick that starts from `q`, the vertical move meets no solid tile.
pub open spec fn unsupported(q: Player, map: TilemapView, c: Controls, screen_height: i32) -> bool {
    let r = after_input(after_floor_check(after_gravity(q), screen_height), c);
    !resolve(map, r.scale, r.position, true, r.velocity.y as int).2
}

/// Ledge forgiveness over several ticks: when no jump is pressed and no
/// vertical move meets a solid tile, each tick adds one to the ticks since
/// the ground, and after the `n`-th tick the actor may still jump exactly
/// when at most `GRACE_TICKS` ticks had passed at its start. An actor that
/// has just landed (one tick since the ground) thus stays grounded for
/// `GRACE_TICKS` unsupported ticks and is airborne from the next one on.
pub proof fn lemma_grace_over_ticks(
    p: Player,
    map: TilemapView,
    c: Controls,
    screen_width: i32,
    screen_height: i32,
    n: nat,
)
    requires
        !c.jump,
        p.tick_since_last_ground + n < u32::MAX,
        forall|k: nat| k < n ==> #[trigger] unsupported(run(p, map, c, screen_width, screen_height, k), map, c, screen_height),
    ensures
        run(p, map, c, screen_width, screen_height, n).tick_since_last_ground == p.tick_since_last_ground + n,
        n >= 1 ==> run(p, map, c, screen_width, screen_height, n).on_ground == (p.tick_since_last_ground + n - 1
            <= GRACE_TICKS),
    decreases n,
{
    if n > 0 {
        let m = (n - 1) as nat;
        lemma_grace_over_ticks(p, map, c, screen_width, screen_height, m);
        assert(unsupported(run(p, map, c, screen_width, screen_height, m), map, c, screen_height));
        reveal(after_vertical);
        reveal(after_input);
        reveal(after_horizontal);
        reveal(after_scaling);
    }
}

impl Player {
    /// Bounds kept between ticks: a size within `[MIN_SCALE, MAX_SCALE]` in
    /// whole steps, coordinates within `MAX_COORD`, speeds within `MAX_SPEED`.
    pub open spec fn wf(&self) -> bool {
        &&& MIN_SCALE <= self.scale <= MAX_SCALE
        &&& self.scale % SCALE_STEP == 0
        &&& within(self.position.x as int, MAX_COORD as int)
        &&& within(self.position.y as int, MAX_COORD as int)
        &&& within(self.velocity.x as int, MAX_SPEED as int)
        &&& within(self.velocity.y as int, MAX_SPEED as int)
    }

    /// An actor at rest at `position`, at the base size, not on the ground.
    pub fn new(position: Vec2) -> (r: Player)
        ensures
            r == (Player {
                position,
                velocity: Vec2 { x: 0, y: 0 },
                scale: MIN_SCALE,
                on_ground: false,
                tick_since_last_ground: 0,
            }),
    {
        Player {
            position,
            velocity: Vec2 { x: 0, y: 0 },
            scale: MIN_SCALE,
            on_ground: false,
            tick_since_last_ground: 0,
        }
    }

    /// The actor's hitbox: inset an eighth of a tile from the sprite's left
    /// edge, a quarter pixel narrower than a tile and one tile tall, both
    /// scaled by the size.
    pub fn hitbox(&self) -> (r: Rect)
        requires
            within(self.position.x as int, 0x800_0000_0000_0000),
            within(self.position.y as int, 0x800_0000_0000_0000),
            self.scale <= MAX_SCALE + 2 * SCALE_STEP,
        ensures
            r == hitbox_at(self.position, self.scale),
            rect_bounded(r),
    {
        Rect {
            x: self.position.x + HITBOX_INSET,
            y: self.position.y,
            width: 255 * self.scale as i64,
            height: 256 * self.scale as i64,
        }
    }

    fn shift_by(&mut self, vertical: bool, d: i64)
        requires
            within(axis_of(old(self).position, vertical) + d, 0x7000_0000_0000_0000),
        ensures
            *final(self) == (Player { position: shift(old(self).position, vertical, d as int), ..*old(self) }),
    {
        if vertical {
            self.position.y = self.position.y + d;
        } else {
            self.position.x = self.position.x + d;
        }
    }

    fn fits_here(&self, map: &Tilemap) -> (r: bool)
        requires
            within(self.position.x as int, 0x800_0000_0000_0000),
            within(self.position.y as int, 0x800_0000_0000_0000),
            self.scale <= MAX_SCALE + 2 * SCALE_STEP,
        ensures
            r == fits(map@, self.position, self.scale),
    {
        reveal(fits);
        let h = self.hitbox();
        !map.collides(&h)
    }

    /// Moves along one axis by the velocity on that axis, settling against
    /// solid tiles by sub-steps (see `resolve`). Returns whether the full step
    /// was blocked.
    fn resolve_axis(&mut self, map: &Tilemap, vertical: bool) -> (blocked: bool)
        requires
            old(self).scale <= MAX_SCALE,
            room(old(self).position, vertical, axis_of(old(self).velocity, vertical)),
        ensures
            ({
                let (pos, v, b) = resolve(
                    map@,
                    old(self).scale,
                    old(self).position,
                    vertical,
                    axis_of(old(self).velocity, vertical),
                );
                &&& final(self).position == pos
                &&& axis_of(final(self).velocity, vertical) == v
                &&& axis_of(final(self).velocity, !vertical) == axis_of(old(self).velocity, !vertical)
                &&& blocked == b
            }),
            final(self).scale == old(self).scale,
            final(self).on_ground == old(self).on_ground,
            final(self).tick_since_last_ground == old(self).tick_since_last_ground,
            abs(axis_of(final(self).position, vertical) - axis_of(old(self).position, vertical)) <= 3
                * abs(axis_of(old(self).velocity, vertical)),
            axis_of(final(self).position, !vertical) == axis_of(old(self).position, !vertical),
    {
        let ghost start = *self;
        let v = if vertical { self.velocity.y } else { self.velocity.x };
        self.shift_by(vertical, v);
        if self.fits_here(map) {
            return false;
        }
        self.shift_by(vertical, -v);
        assert(self.position == start.position);
        let ghost target = substeps(map@, start.scale, start.position, vertical, v as int, 0);
        proof {
            lemma_substeps_travel(map@, start.scale, start.position, vertical, v as int, 0);
        }
        let mut step: i64 = v;
        let mut i: u32 = 0;
        loop
            invariant_except_break
                i < MAX_SUBSTEPS,
                substeps(map@, start.scale, self.position, vertical, step as int, i as nat) == target,
            invariant
                self.scale == start.scale,
                self.velocity == start.velocity,
                self.on_ground == start.on_ground,
                self.tick_since_last_ground == start.tick_since_last_ground,
                start.scale <= MAX_SCALE,
                room(start.position, vertical, v as int),
                abs(axis_of(self.position, vertical) - axis_of(start.position, vertical)) + 3 * abs(
                    step as int,
                ) <= 3 * abs(v as int),
                axis_of(self.position, !vertical) == axis_of(start.position, !vertical),
            ensures
                (self.position, step as int) == target,
            decreases MAX_SUBSTEPS - i,
        {
            if !self.fits_here(map) {
                break;
            }
            let next = scale_toward_zero(step, 2, 3);
            assert(3 * abs(next as int) <= 2 * abs(step as int));
            self.shift_by(vertical, next);
            step = next;
            if i + 1 >= MAX_SUBSTEPS {
                break;
            }
            i += 1;
        }
        self.shift_by(vertical, -step);
        if vertical {
            self.velocity.y = step;
        } else {
            self.velocity.x = step;
        }
        true
    }

    fn move_vertical(&mut self, map: &Tilemap)
        requires
            old(self).scale <= MAX_SCALE,
            room(old(self).position, true, old(self).velocity.y as int),
        ensures
            *final(self) == after_vertical(*old(self), map@),
            abs(final(self).position.y - old(self).position.y) <= 3 * abs(old(self).velocity.y as int),
            final(self).position.x == old(self).position.x,
            final(self).velocity.x == old(self).velocity.x,
            abs(final(self).velocity.y as int) <= abs(old(self).velocity.y as int),
            final(self).scale == old(self).scale,
    {
        reveal(after_vertical);
        let down = self.velocity.y >= 0;
        self.on_ground = false;
        let blocked = self.resolve_axis(map, true);
        if blocked {
            self.on_ground = down;
            if down {
                self.tick_since_last_ground = 0;
            }
            self.velocity.y = 0;
        } else {
            self.on_ground = self.tick_since_last_ground <= GRACE_TICKS;
        }
    }

    fn move_horizontal(&mut self, map: &Tilemap)
        requires
            old(self).scale <= MAX_SCALE,
            room(old(self).position, false, old(self).velocity.x as int),
        ensures
            *final(self) == after_horizontal(*old(self), map@),
            abs(final(self).position.x - old(self).position.x) <= 3 * abs(old(self).velocity.x as int),
            abs(final(self).velocity.x as int) <= abs(old(self).velocity.x as int),
            final(self).position.y == old(self).position.y,
            final(self).velocity.y == old(self).velocity.y,
            final(self).scale == old(self).scale,
    {
        reveal(after_horizontal);
        proof {
            lemma_substeps_travel(map@, self.scale, self.position, false, self.velocity.x as int, 0);
        }
        self.resolve_axis(map, false);
    }

    fn handle_input(&mut self, controls: &Controls)
        requires
            MIN_SCALE <= old(self).scale <= MAX_SCALE,
            within(old(self).velocity.x as int, 2 * MAX_SPEED),
        ensures
            *final(self) == after_input(*old(self), *controls),
            final(self).position == old(self).position,
            final(self).scale == old(self).scale,
            abs(final(self).velocity.x as int) <= abs(old(self).velocity.x as int) + MOVE_SPEED,
            abs(final(self).velocity.y as int) <= abs(old(self).velocity.y as int) + 48000,
    {
        reveal(after_input);
        if controls.right {
            self.velocity.x = self.velocity.x + MOVE_SPEED;
        }
        if controls.left {
            self.velocity.x = self.velocity.x - MOVE_SPEED;
        }
        if self.on_ground && controls.jump {
            self.velocity.y = -(240 * self.scale as i64);
            self.tick_since_last_ground = JUMP_GROUND_TICKS;
        }
    }

    fn handle_scaling(&mut self, map: &Tilemap, controls: &Controls)
        requires
            MIN_SCALE <= old(self).scale <= MAX_SCALE,
            old(self).scale % SCALE_STEP == 0,
            within(old(self).position.x as int, 0x100_0000_0000_0000),
            within(old(self).position.y as int, 0x100_0000_0000_0000),
        ensures
            *final(self) == after_scaling(*old(self), map@, *controls),
            MIN_SCALE <= final(self).scale <= MAX_SCALE,
            final(self).scale % SCALE_STEP == 0,
            abs(final(self).position.y - old(self).position.y) <= SCALE_STEP_UNITS,
            final(self).position.x == old(self).position.x,
            final(self).velocity == old(self).velocity,
    {
        reveal(after_scaling);
        if self.scale < MAX_SCALE && controls.grow {
            self.scale = self.scale + 2 * SCALE_STEP;
            self.position.y = self.position.y - 2 * SCALE_STEP_UNITS;
            if !self.fits_here(map) {
                self.scale = self.scale - SCALE_STEP;
                self.position.y = self.position.y + SCALE_STEP_UNITS;
            }
            self.scale = self.scale - SCALE_STEP;
            self.position.y = self.position.y + SCALE_STEP_UNITS;
        }
        if self.scale > MIN_SCALE && controls.shrink {
            self.scale = self.scale - SCALE_STEP;
        }
    }

    fn clamp_position(&mut self, screen_width: i32, screen_height: i32)
        requires
            MIN_SCALE <= old(self).scale <= MAX_SCALE,
        ensures
            *final(self) == after_clamp(*old(self), screen_width, screen_height),
            0 <= final(self).position.x <= MAX_COORD,
            0 <= final(self).position.y <= MAX_COORD,
    {
        let size = 256 * self.scale as i64;
        let max_x = screen_width as i64 * UNITS_PER_PIXEL - size;
        let max_y = screen_height as i64 * UNITS_PER_PIXEL - size;
        if self.position.x > max_x {
            self.position.x = if max_x < 0 { 0 } else { max_x };
        } else if self.position.x < 0 {
            self.position.x = 0;
        }
        if self.position.y > max_y {
            self.position.y = if max_y < 0 { 0 } else { max_y };
        } else if self.position.y < 0 {
            self.position.y = 0;
        }
    }

    /// Runs one simulation tick against `map` (see `stepped`): gravity, the
    /// floor check, input, the vertical then the horizontal move with
    /// collision resolution, resizing, drag, and the screen bounds (given in
    /// pixels).
    pub fn update(&mut self, map: &Tilemap, controls: &Controls, screen_width: i32, screen_height: i32)
        requires
            old(self).wf(),
        ensures
            *final(self) == stepped(*old(self), map@, *controls, screen_width, screen_height),
            final(self).wf(),
    {
        let ghost start = *self;
        self.velocity.y = self.velocity.y + (28 * (self.scale as i64 + 100)) / 5;
        if self.position.y >= screen_height as i64 * UNITS_PER_PIXEL - 256 * self.scale as i64 {
            self.on_ground = true;
        }
        let ghost pulled = *self;
        assert(pulled == after_floor_check(after_gravity(start), screen_height));
        self.handle_input(controls);
        let ghost steered = *self;
        assert(within(steered.velocity.y as int, MAX_SPEED + 50000));
        self.move_vertical(map);
        let ghost after_vertical_move = *self;
        assert(within(after_vertical_move.position.y as int, MAX_COORD + 3 * (MAX_SPEED + 50000)));
        self.move_horizontal(map);
        self.handle_scaling(map, controls);
        let ghost after_resize = *self;
        let vx = scale_toward_zero(self.velocity.x, 3, 4);
        let vy = scale_toward_zero(self.velocity.y, 3, 4);
        proof {
            assert(4 * abs(vx as int) <= 3 * abs(self.velocity.x as int));
            assert(4 * abs(vy as int) <= 3 * abs(self.velocity.y as int));
        }
        self.velocity = Vec2 { x: vx, y: vy };
        self.tick_since_last_ground = self.tick_since_last_ground.saturating_add(1);
        let ghost after_drag_tick = *self;
        assert(after_drag_tick == after_drag(after_resize));
        self.clamp_position(screen_width, screen_height);
    }

    /// The grid cell under the centre of the sprite, by floor division.
    pub fn tile_pos_center(&self) -> (r: Vector2i)
        requires
            self.wf(),
        ensures
            r == center_cell(*self),
    {
        let half = 128 * self.scale as i64;
        let cx = self.position.x + half;
        let cy = self.position.y + half;
        assert(-0x8000_0000 <= (cx as int) / (TILE_SIZE as int) <= 0x7fff_ffff);
        assert(-0x8000_0000 <= (cy as int) / (TILE_SIZE as int) <= 0x7fff_ffff);
        let x = match cx.checked_div_euclid(TILE_SIZE) {
            Some(q) => q,
            None => 0,
        };
        let y = match cy.checked_div_euclid(TILE_SIZE) {
            Some(q) => q,
            None => 0,
        };
        Vector2i { x: x as i32, y: y as i32 }
    }

    /// Whether the actor is within the bounds `update` needs (`wf`), for
    /// callers that set its fields directly.
    pub fn is_well_formed(&self) -> (r: bool)
        ensures
            r == self.wf(),
    {
        MIN_SCALE <= self.scale && self.scale <= MAX_SCALE && self.scale % SCALE_STEP == 0
            && -MAX_COORD <= self.position.x && self.position.x <= MAX_COORD && -MAX_COORD
            <= self.position.y && self.position.y <= MAX_COORD && -MAX_SPEED <= self.velocity.x
            && self.velocity.x <= MAX_SPEED && -MAX_SPEED <= self.velocity.y && self.velocity.y
            <= MAX_SPEED
    }

    /// The size, in hundredths of the base size.
    pub fn scale(&self) -> (r: u32)
        ensures
            r == self.scale,
    {
        self.scale
    }
}

} // verus!
