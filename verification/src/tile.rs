use vstd::prelude::*;

use crate::board::HexCoord;
use crate::resource::Resource;

verus! {

/// A hex tile of the board, placed at `coord`.
#[derive(Clone, PartialEq, Eq, Debug)]
pub struct Tile {
    pub resource: Option<Vec<Resource>>,
    pub tile_type: Option<TileResource>,
    pub dice_number: Option<u8>,
    pub coord: HexCoord,
}

/// The terrain of a tile.
#[derive(Clone, Copy, PartialEq, Eq, Debug)]
pub enum TileResource {
    Forest,
    Hill,
    Pasture,
    Field,
    Mountain,
    Desert,
    Swamp,
}

impl Tile {
    /// A tile with no terrain, resource or dice number assigned yet.
    pub open spec fn is_blank(self) -> bool {
        &&& self.resource is None
        &&& self.tile_type is None
        &&& self.dice_number is None
    }
}

} // verus!
