use vstd::prelude::*;

verus! {

/// Coordinates of one unique tile of the world grid, at any zoom level.
#[derive(Copy, Clone, Debug, PartialEq, Eq, Hash, Structural)]
pub struct TileId {
    pub x: u32,
    pub y: u32,
    pub zoom: u32,
}

impl TileId {
    /// Bounds every coordinate handled by the codec and the pipeline fits:
    /// the zoom level takes 5 bits of a packed key, each axis 24 bits.
    pub open spec fn wf(self) -> bool {
        self.zoom < 32 && self.x < 0x100_0000 && self.y < 0x100_0000
    }

    /// Creates a new `TileId`.
    pub fn new(x: u32, y: u32, zoom: u32) -> (t: Self)
        ensures
            t == (TileId { x, y, zoom }),
    {
        TileId { x, y, zoom }
    }
}

/// The kind of imagery a tile shows.
#[derive(Copy, Clone, Debug, PartialEq, Eq, Structural)]
pub enum TileKind {
    /// A satellite tile
    Satellite,
    /// A weather-radar tile
    Weather,
}

} // verus!
