use vstd::prelude::*;
use crate::harbors::{HarborData, HarborKey, HarborType};
use crate::tiles::{Direction, TileKey, TileResource};

verus! {

/// What a kind of game is made of: its tiles' resources, the roll numbers, the shape of
/// the board (the number of tiles in each column) and its harbors.
#[derive(Debug)]
pub struct RegularGameInfo {
    pub name: String,
    pub tile_resources: Vec<TileResource>,
    pub rolls: Vec<u32>,
    pub rows_per_column: Vec<u32>,
    pub harbor_data: Vec<HarborData>,
}

/// What every game description offers.
pub trait GameInfoTrait {
    fn name(&self) -> &str;
    fn tile_resources(&self) -> &[TileResource];
    fn rolls(&self) -> &[u32];
    fn rows_per_column(&self) -> &[u32];
    fn harbor_data(&self) -> &[HarborData];
}

impl GameInfoTrait for RegularGameInfo {
    fn name(&self) -> (res: &str)
        ensures
            res@ == self.name@,
    {
        self.name.as_str()
    }

    fn tile_resources(&self) -> (res: &[TileResource])
        ensures
            res@ == self.tile_resources@,
    {
        self.tile_resources.as_slice()
    }

    fn rolls(&self) -> (res: &[u32])
        ensures
            res@ == self.rolls@,
    {
        self.rolls.as_slice()
    }

    fn rows_per_column(&self) -> (res: &[u32])
        ensures
            res@ == self.rows_per_column@,
    {
        self.rows_per_column.as_slice()
    }

    fn harbor_data(&self) -> (res: &[HarborData])
        ensures
            res@ == self.harbor_data@,
    {
        self.harbor_data.as_slice()
    }
}

/// The resources of the regular game's nineteen tiles before shuffling.
pub open spec fn regular_tile_resources() -> Seq<TileResource> {
    seq![
        TileResource::Brick, TileResource::Brick, TileResource::Brick,
        TileResource::Desert,
        TileResource::Ore, TileResource::Ore, TileResource::Ore,
        TileResource::Sheep, TileResource::Sheep, TileResource::Sheep, TileResource::Sheep,
        TileResource::Wheat, TileResource::Wheat, TileResource::Wheat, TileResource::Wheat,
        TileResource::Wood, TileResource::Wood, TileResource::Wood, TileResource::Wood,
    ]
}

/// The roll numbers of the regular game's nineteen tiles before shuffling.
pub open spec fn regular_rolls() -> Seq<u32> {
    seq![2u32, 3, 3, 4, 4, 5, 5, 6, 6, 7, 8, 8, 9, 9, 10, 10, 11, 11, 12]
}

/// The regular board has five columns of three, four, five, four and three tiles.
pub open spec fn regular_rows_per_column() -> Seq<u32> {
    seq![3u32, 4, 5, 4, 3]
}

/// The harbor with the given tile, side and type.
pub open spec fn harbor_at(q: int, r: int, s: int, d: Direction, t: HarborType) -> HarborData {
    HarborData {
        key: HarborKey { tile_key: TileKey { q: q as i32, r: r as i32, s: s as i32 }, position: d },
        harbor_type: t,
    }
}

/// The nine harbors of the regular game before shuffling.
pub open spec fn regular_harbor_data() -> Seq<HarborData> {
    seq![
        harbor_at(-2, 1, 1, Direction::SouthWest, HarborType::Wheat),
        harbor_at(0, 2, -2, Direction::South, HarborType::Brick),
        harbor_at(2, -2, 0, Direction::NorthEast, HarborType::Sheep),
        harbor_at(2, -1, -1, Direction::SouthEast, HarborType::Ore),
        harbor_at(1, 1, -2, Direction::SouthEast, HarborType::ThreeForOne),
        harbor_at(1, -2, 1, Direction::North, HarborType::ThreeForOne),
        harbor_at(-1, -1, 2, Direction::North, HarborType::ThreeForOne),
        harbor_at(-1, 2, -1, Direction::SouthWest, HarborType::ThreeForOne),
        harbor_at(-2, 0, 2, Direction::NorthWest, HarborType::Wood),
    ]
}

impl RegularGameInfo {
    /// The description is the regular game's.
    pub open spec fn is_regular(self) -> bool {
        &&& self.name@ == seq!['R', 'e', 'g', 'u', 'l', 'a', 'r', ' ', 'G', 'a', 'm', 'e']
        &&& self.tile_resources@ == regular_tile_resources()
        &&& self.rolls@ == regular_rolls()
        &&& self.rows_per_column@ == regular_rows_per_column()
        &&& self.harbor_data@ == regular_harbor_data()
    }
}

fn harbor(q: i32, r: i32, s: i32, d: Direction, t: HarborType) -> (res: HarborData)
    ensures
        res == harbor_at(q as int, r as int, s as int, d, t),
{
    HarborData::new(HarborKey::new(TileKey::new(q, r, s), d), t)
}

/// The description of the regular game: nineteen tiles in columns of 3, 4, 5, 4 and 3,
/// three brick, one desert, three ore, four each of sheep, wheat and wood, the roll
/// numbers 2 through 12 (one 2, one 7 and one 12, two of the others), and nine harbors.
pub fn create_regular_game_info() -> (res: RegularGameInfo)
    ensures
        res.is_regular(),
{
    let name = String::from_str("Regular Game");
    let tile_resources = vec![
        TileResource::Brick,
        TileResource::Brick,
        TileResource::Brick,
        TileResource::Desert,
        TileResource::Ore,
        TileResource::Ore,
        TileResource::Ore,
        TileResource::Sheep,
        TileResource::Sheep,
        TileResource::Sheep,
        TileResource::Sheep,
        TileResource::Wheat,
        TileResource::Wheat,
        TileResource::Wheat,
        TileResource::Wheat,
        TileResource::Wood,
        TileResource::Wood,
        TileResource::Wood,
        TileResource::Wood,
    ];
    let rolls: Vec<u32> = vec![2, 3, 3, 4, 4, 5, 5, 6, 6, 7, 8, 8, 9, 9, 10, 10, 11, 11, 12];
    let rows_per_column: Vec<u32> = vec![3, 4, 5, 4, 3];
    let harbor_data = vec![
        harbor(-2, 1, 1, Direction::SouthWest, HarborType::Wheat),
        harbor(0, 2, -2, Direction::South, HarborType::Brick),
        harbor(2, -2, 0, Direction::NorthEast, HarborType::Sheep),
        harbor(2, -1, -1, Direction::SouthEast, HarborType::Ore),
        harbor(1, 1, -2, Direction::SouthEast, HarborType::ThreeForOne),
        harbor(1, -2, 1, Direction::North, HarborType::ThreeForOne),
        harbor(-1, -1, 2, Direction::North, HarborType::ThreeForOne),
        harbor(-1, 2, -1, Direction::SouthWest, HarborType::ThreeForOne),
        harbor(-2, 0, 2, Direction::NorthWest, HarborType::Wood),
    ];
    proof {
        reveal_strlit("Regular Game");
    }
    assert(name@ =~= seq!['R', 'e', 'g', 'u', 'l', 'a', 'r', ' ', 'G', 'a', 'm', 'e']);
    assert(tile_resources@ =~= regular_tile_resources());
    assert(rolls@ =~= regular_rolls());
    assert(rows_per_column@ =~= regular_rows_per_column());
    assert(harbor_data@ =~= regular_harbor_data());
    RegularGameInfo { name, tile_resources, rolls, rows_per_column, harbor_data }
}

} // verus!
