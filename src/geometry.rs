use vstd::arithmetic::div_mod::lemma_fundamental_div_mod_converse;
use vstd::prelude::*;

verus! {

/// Pixels per texture pixel when a tile is drawn.
pub const SCALE: i64 = 4;

/// Edge of a grid cell on screen, in pixels.
pub const TILE_SIZE_PIXELS: i64 = 16 * SCALE;

/// Actor geometry is fixed-point: one pixel is this many units. The factor
/// makes every constant of the motion model (gravity, jump impulse, size
/// step, hitbox inset) a whole number of units.
pub const UNITS_PER_PIXEL: i64 = 400;

/// Edge of a grid cell, in units.
pub const TILE_SIZE: i64 = TILE_SIZE_PIXELS * UNITS_PER_PIXEL;

/// A grid cell: a pair of signed integers. The grid is unbounded and sparse.
#[derive(PartialEq, Eq, Structural, Clone, Copy, Hash, Debug)]
pub struct Vector2i {
    pub x: i32,
    pub y: i32,
}

impl Vector2i {
    pub fn new(x: i32, y: i32) -> (r: Vector2i)
        ensures
            r.x == x,
            r.y == y,
    {
        Vector2i { x, y }
    }
}

/// An axis-aligned rectangle in units: the half-open box
/// `[x, x + width) × [y, y + height)`.
#[derive(PartialEq, Eq, Structural, Clone, Copy, Debug)]
pub struct Rect {
    pub x: i64,
    pub y: i64,
    pub width: i64,
    pub height: i64,
}

/// Two rectangles overlap when their interiors meet; rectangles that only
/// share an edge do not.
pub open spec fn overlaps(a: Rect, b: Rect) -> bool {
    &&& a.x < b.x + b.width
    &&& a.x + a.width > b.x
    &&& a.y < b.y + b.height
    &&& a.y + a.height > b.y
}

/// The rectangle a grid cell covers.
pub open spec fn cell_rect_spec(p: Vector2i) -> Rect {
    Rect {
        x: (p.x * TILE_SIZE) as i64,
        y: (p.y * TILE_SIZE) as i64,
        width: TILE_SIZE,
        height: TILE_SIZE,
    }
}

/// Rectangles whose edges are small enough that the overlap test cannot
/// overflow.
pub open spec fn rect_bounded(r: Rect) -> bool {
    &&& -0x1000_0000_0000_0000 <= r.x <= 0x1000_0000_0000_0000
    &&& -0x1000_0000_0000_0000 <= r.y <= 0x1000_0000_0000_0000
    &&& 0 <= r.width <= 0x1000_0000_0000_0000
    &&& 0 <= r.height <= 0x1000_0000_0000_0000
}

impl Rect {
    pub fn new(x: i64, y: i64, width: i64, height: i64) -> (r: Rect)
        ensures
            r == (Rect { x, y, width, height }),
    {
        Rect { x, y, width, height }
    }

    /// Whether the two rectangles overlap (edges that only touch do not).
    pub fn check_collision_recs(&self, other: &Rect) -> (r: bool)
        requires
            rect_bounded(*self),
            rect_bounded(*other),
        ensures
            r == overlaps(*self, *other),
    {
        self.x < other.x + other.width && self.x + self.width > other.x && self.y < other.y
            + other.height && self.y + self.height > other.y
    }
}

/// The rectangle a grid cell covers.
pub fn cell_rect(p: Vector2i) -> (r: Rect)
    ensures
        r == cell_rect_spec(p),
        rect_bounded(r),
{
    assert(-0x1_0000_0000_0000 <= p.x * TILE_SIZE <= 0x1_0000_0000_0000) by (nonlinear_arith)
        requires
            i32::MIN <= p.x <= i32::MAX,
    ;
    assert(-0x1_0000_0000_0000 <= p.y * TILE_SIZE <= 0x1_0000_0000_0000) by (nonlinear_arith)
        requires
            i32::MIN <= p.y <= i32::MAX,
    ;
    Rect {
        x: p.x as i64 * TILE_SIZE,
        y: p.y as i64 * TILE_SIZE,
        width: TILE_SIZE,
        height: TILE_SIZE,
    }
}

/// Cells are stored under a `u64` key: the two coordinates, each shifted to
/// be non-negative, as the high and low halves.
pub open spec fn cell_key(p: Vector2i) -> u64 {
    ((p.x + 0x8000_0000) * 0x1_0000_0000 + (p.y + 0x8000_0000)) as u64
}

/// The cell stored under a key.
pub open spec fn key_cell(k: u64) -> Vector2i {
    Vector2i { x: (k / 0x1_0000_0000 - 0x8000_0000) as i32, y: (k % 0x1_0000_0000 - 0x8000_0000) as i32 }
}

pub proof fn lemma_key_round_trip(p: Vector2i)
    ensures
        key_cell(cell_key(p)) == p,
        0 <= (p.x + 0x8000_0000) * 0x1_0000_0000 + (p.y + 0x8000_0000) <= u64::MAX,
{
    let hi = p.x + 0x8000_0000;
    let lo = p.y + 0x8000_0000;
    assert(0 <= hi * 0x1_0000_0000 <= 0xffff_ffff * 0x1_0000_0000) by (nonlinear_arith)
        requires
            0 <= hi <= 0xffff_ffff,
    ;
    lemma_fundamental_div_mod_converse(hi * 0x1_0000_0000 + lo, 0x1_0000_0000, hi, lo);
}

pub proof fn lemma_cell_key_injective(p: Vector2i, q: Vector2i)
    ensures
        cell_key(p) == cell_key(q) <==> p == q,
{
    lemma_key_round_trip(p);
    lemma_key_round_trip(q);
}

pub proof fn lemma_key_cell_round_trip(k: u64)
    ensures
        cell_key(key_cell(k)) == k,
{
    let hi = k / 0x1_0000_0000;
    let lo = k % 0x1_0000_0000;
    assert(k == hi * 0x1_0000_0000 + lo);
    assert(0 <= hi <= 0xffff_ffff) by {
        assert(hi * 0x1_0000_0000 <= k);
    }
}

pub fn to_key(p: Vector2i) -> (k: u64)
    ensures
        k == cell_key(p),
{
    proof {
        lemma_key_round_trip(p);
    }
    ((p.x as i64 + 0x8000_0000) as u64) * 0x1_0000_0000 + ((p.y as i64 + 0x8000_0000) as u64)
}

pub fn from_key(k: u64) -> (p: Vector2i)
    ensures
        p == key_cell(k),
        cell_key(p) == k,
{
    proof {
        lemma_key_cell_round_trip(k);
    }
    let hi = k / 0x1_0000_0000;
    let lo = k % 0x1_0000_0000;
    Vector2i { x: (hi as i64 - 0x8000_0000) as i32, y: (lo as i64 - 0x8000_0000) as i32 }
}

} // verus!
