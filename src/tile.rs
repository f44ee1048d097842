use vstd::prelude::*;

verus! {

/// Ids of the tile roles the game logic knows.
pub const BACKGROUND: usize = 0;
pub const WALL: usize = 1;
pub const EXIT: usize = 4;
pub const WEAK_WALL: usize = 5;
pub const LEVER_OFF: usize = 6;
pub const LEVER_ON: usize = 7;
pub const BOMB: usize = 8;
pub const SPAWN: usize = 9;

/// What the rest of the engine knows of a tile definition.
pub struct TileDef {
    /// The visual handle: the path of the tile's image.
    pub texture: Seq<char>,
    pub solid: bool,
    pub id: usize,
}

/// One entry of a tile catalog: a visual handle (the path of its image, which
/// the renderer resolves), whether it blocks movement, and its id.
pub struct Tile {
    texture: String,
    solid: bool,
    id: usize,
}

impl View for Tile {
    type V = TileDef;

    closed spec fn view(&self) -> TileDef {
        TileDef { texture: self.texture@, solid: self.solid, id: self.id }
    }
}

impl Tile {
    pub fn new(texture: String, solid: bool, id: usize) -> (r: Tile)
        ensures
            r@ == (TileDef { texture: texture@, solid, id }),
    {
        Tile { texture, solid, id }
    }

    pub fn texture(&self) -> (r: &String)
        ensures
            r@ == self@.texture,
    {
        &self.texture
    }

    pub fn solid(&self) -> (r: bool)
        ensures
            r == self@.solid,
    {
        self.solid
    }

    pub fn id(&self) -> (r: usize)
        ensures
            r == self@.id,
    {
        self.id
    }
}

} // verus!
