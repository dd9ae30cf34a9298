use vstd::prelude::*;
use crate::tiles::{Direction, TileKey};

verus! {

/// What a harbor trades.
#[derive(Clone, Copy, Debug, PartialEq, Eq, Structural)]
pub enum HarborType {
    Wheat,
    Wood,
    Ore,
    Sheep,
    Brick,
    ThreeForOne,
}

/// Where a harbor lies: a tile and a side of it.
#[derive(Clone, Copy, Debug, PartialEq, Eq, Hash, Structural)]
pub struct HarborKey {
    pub tile_key: TileKey,
    pub position: Direction,
}

impl HarborKey {
    /// The harbor on side `pos` of tile `key`.
    pub fn new(key: TileKey, pos: Direction) -> (res: HarborKey)
        ensures
            res == (HarborKey { tile_key: key, position: pos }),
    {
        HarborKey { tile_key: key, position: pos }
    }
}

/// A harbor on the board.
#[derive(Clone, Copy, Debug, PartialEq, Eq, Structural)]
pub struct Harbor {
    pub harbor_key: HarborKey,
    pub harbor_type: HarborType,
}

impl Harbor {
    /// The harbor of the given type at the given place.
    pub fn new(key: HarborKey, harbor_type: HarborType) -> (res: Harbor)
        ensures
            res == (Harbor { harbor_key: key, harbor_type }),
    {
        Harbor { harbor_key: key, harbor_type }
    }
}

/// A harbor as a game's description lists it.
#[derive(Clone, Copy, Debug, PartialEq, Eq, Structural)]
pub struct HarborData {
    pub key: HarborKey,
    pub harbor_type: HarborType,
}

impl HarborData {
    /// The description of a harbor of the given type at the given place.
    pub fn new(key: HarborKey, harbor_type: HarborType) -> (res: HarborData)
        ensures
            res == (HarborData { key, harbor_type }),
    {
        HarborData { key, harbor_type }
    }
}

} // verus!
