use vstd::prelude::*;
use crate::tiles::{board_has_tile, lemma_neighbor_round_trip, tile_keys, Direction, Tile, TileKey};

verus! {

/// The six corners of a hexagonal tile, in the order in which they are walked.
#[derive(Clone, Copy, Debug, PartialEq, Eq, Hash, Structural)]
pub enum BuildingPosition {
    Right,
    BottomRight,
    BottomLeft,
    Left,
    TopLeft,
    TopRight,
}

/// All six corners in declaration order.
pub open spec fn all_building_positions() -> Seq<BuildingPosition> {
    seq![
        BuildingPosition::Right,
        BuildingPosition::BottomRight,
        BuildingPosition::BottomLeft,
        BuildingPosition::Left,
        BuildingPosition::TopLeft,
        BuildingPosition::TopRight,
    ]
}

impl BuildingPosition {
    /// All six corners in declaration order.
    pub fn all() -> (res: Vec<BuildingPosition>)
        ensures
            res@ == all_building_positions(),
    {
        let v = vec![
            BuildingPosition::Right,
            BuildingPosition::BottomRight,
            BuildingPosition::BottomLeft,
            BuildingPosition::Left,
            BuildingPosition::TopLeft,
            BuildingPosition::TopRight,
        ];
        assert(v@ =~= all_building_positions());
        v
    }
}

/// What stands on a corner.
#[derive(Clone, Copy, Debug, PartialEq, Eq, Structural)]
pub enum BuildingState {
    Empty,
    Settlement,
    City,
    Pips,
}

/// A corner named by a tile and a corner of that tile.
#[derive(Clone, Copy, Debug, PartialEq, Eq, Hash, Structural)]
pub struct BuildingKey {
    pub building_position: BuildingPosition,
    pub tile_key: TileKey,
}

/// For a corner of a tile, the same corner as seen from the two neighbouring tiles
/// that share it: the corner of the neighbour and the side leading to the neighbour.
pub open spec fn adjacent_candidates(p: BuildingPosition) -> Seq<(BuildingPosition, Direction)> {
    match p {
        BuildingPosition::TopRight => seq![
            (BuildingPosition::BottomRight, Direction::North),
            (BuildingPosition::Left, Direction::NorthEast),
        ],
        BuildingPosition::Right => seq![
            (BuildingPosition::BottomLeft, Direction::NorthEast),
            (BuildingPosition::TopLeft, Direction::SouthEast),
        ],
        BuildingPosition::BottomRight => seq![
            (BuildingPosition::TopRight, Direction::South),
            (BuildingPosition::Left, Direction::SouthEast),
        ],
        BuildingPosition::BottomLeft => seq![
            (BuildingPosition::Right, Direction::SouthWest),
            (BuildingPosition::TopLeft, Direction::South),
        ],
        BuildingPosition::Left => seq![
            (BuildingPosition::BottomRight, Direction::NorthWest),
            (BuildingPosition::TopRight, Direction::SouthWest),
        ],
        BuildingPosition::TopLeft => seq![
            (BuildingPosition::Right, Direction::NorthWest),
            (BuildingPosition::BottomLeft, Direction::North),
        ],
    }
}

impl BuildingKey {
    /// The candidate key of this corner as seen from the neighbour of index `i` (0 or 1).
    pub open spec fn candidate(self, i: int) -> BuildingKey {
        BuildingKey {
            building_position: adjacent_candidates(self.building_position)[i].0,
            tile_key: self.tile_key.neighbor(adjacent_candidates(self.building_position)[i].1),
        }
    }

    /// The keys of this corner as seen from the neighbouring tiles that lie on the board
    /// whose tile keys are `keys`, in candidate order.
    pub open spec fn adjacent_keys(self, keys: Seq<TileKey>) -> Seq<BuildingKey> {
        let a = self.candidate(0);
        let b = self.candidate(1);
        (if keys.contains(a.tile_key) { seq![a] } else { Seq::empty() })
            + (if keys.contains(b.tile_key) { seq![b] } else { Seq::empty() })
    }

    /// The corner `building_position` of tile `tile_key`.
    pub fn new(building_position: BuildingPosition, tile_key: TileKey) -> (res: BuildingKey)
        ensures
            res == (BuildingKey { building_position, tile_key }),
    {
        BuildingKey { building_position, tile_key }
    }

    /// The keys of this same corner as seen from the neighbouring tiles that share it,
    /// leaving out neighbours that are not on the board.
    pub fn get_adjacent_building_keys(&self, tiles: &Vec<Tile>) -> (res: Vec<BuildingKey>)
        requires
            self.tile_key.can_step(adjacent_candidates(self.building_position)[0].1),
            self.tile_key.can_step(adjacent_candidates(self.building_position)[1].1),
        ensures
            res@ == self.adjacent_keys(tile_keys(tiles@)),
    {
        let (p0, d0, p1, d1) = match self.building_position {
            BuildingPosition::TopRight => (
                BuildingPosition::BottomRight, Direction::North,
                BuildingPosition::Left, Direction::NorthEast,
            ),
            BuildingPosition::Right => (
                BuildingPosition::BottomLeft, Direction::NorthEast,
                BuildingPosition::TopLeft, Direction::SouthEast,
            ),
            BuildingPosition::BottomRight => (
                BuildingPosition::TopRight, Direction::South,
                BuildingPosition::Left, Direction::SouthEast,
            ),
            BuildingPosition::BottomLeft => (
                BuildingPosition::Right, Direction::SouthWest,
                BuildingPosition::TopLeft, Direction::South,
            ),
            BuildingPosition::Left => (
                BuildingPosition::BottomRight, Direction::NorthWest,
                BuildingPosition::TopRight, Direction::SouthWest,
            ),
            BuildingPosition::TopLeft => (
                BuildingPosition::Right, Direction::NorthWest,
                BuildingPosition::BottomLeft, Direction::North,
            ),
        };
        assert(adjacent_candidates(self.building_position)[0] == (p0, d0));
        assert(adjacent_candidates(self.building_position)[1] == (p1, d1));
        let mut adjacent: Vec<BuildingKey> = Vec::new();
        let k0 = self.tile_key.get_neighbor_key(d0);
        if board_has_tile(tiles, &k0) {
            adjacent.push(BuildingKey::new(p0, k0));
        }
        let k1 = self.tile_key.get_neighbor_key(d1);
        if board_has_tile(tiles, &k1) {
            adjacent.push(BuildingKey::new(p1, k1));
        }
        assert(adjacent@ =~= self.adjacent_keys(tile_keys(tiles@)));
        adjacent
    }
}

/// Corners are shared symmetrically: when corner `a` of the board is seen as corner
/// `b` from a neighbouring tile, then from that tile `a` is seen as one of the
/// corners adjacent to `b`.
pub proof fn lemma_adjacent_building_keys_symmetric(a: BuildingKey, keys: Seq<TileKey>, b: BuildingKey)
    requires
        a.tile_key.in_range(),
        keys.contains(a.tile_key),
        a.adjacent_keys(keys).contains(b),
    ensures
        b.tile_key.in_range() ==> b.adjacent_keys(keys).contains(a),
{
    if b.tile_key.in_range() {
        let c = adjacent_candidates(a.building_position);
        let j: int = if b == a.candidate(0) { 0 } else { 1 };
        assert(b == a.candidate(j)) by {
            if a.adjacent_keys(keys).len() == 2 {
                assert(a.adjacent_keys(keys)[0] == a.candidate(0));
                assert(a.adjacent_keys(keys)[1] == a.candidate(1));
            }
        }
        lemma_neighbor_round_trip(a.tile_key, c[j].1);
        let x: int = match a.building_position {
            BuildingPosition::TopRight => if j == 0 { 0 } else { 1 },
            BuildingPosition::Right => 0,
            BuildingPosition::BottomRight => 0,
            BuildingPosition::BottomLeft => if j == 0 { 0 } else { 1 },
            BuildingPosition::Left => 1,
            BuildingPosition::TopLeft => 1,
        };
        assert(b.candidate(x) == a);
        lemma_candidate_on_board_is_adjacent(b, keys, x);
    }
}

proof fn lemma_candidate_on_board_is_adjacent(b: BuildingKey, keys: Seq<TileKey>, x: int)
    requires
        x == 0 || x == 1,
        keys.contains(b.candidate(x).tile_key),
    ensures
        b.adjacent_keys(keys).contains(b.candidate(x)),
{
    let ba = b.adjacent_keys(keys);
    if x == 0 {
        assert(ba[0] == b.candidate(0));
    } else {
        assert(ba[ba.len() - 1] == b.candidate(1));
    }
}

/// A corner on the board.
#[derive(Debug)]
pub struct Building {
    pub building_key: BuildingKey,
    pub connected_tiles: Vec<TileKey>,
    pub aliases: Vec<BuildingKey>,
    pub pip_count: u32,
    pub owner_id: Option<String>,
    pub state: BuildingState,
}

impl Building {
    /// Creates an empty corner whose key is the first of `building_ids`.
    pub fn new(
        tiles: Vec<TileKey>,
        building_ids: Vec<BuildingKey>,
        pip_count: u32,
        owner_id: Option<String>,
    ) -> (res: Building)
        requires
            building_ids@.len() > 0,
        ensures
            res.building_key == building_ids@[0],
            res.connected_tiles@ == tiles@,
            res.aliases@ == building_ids@,
            res.pip_count == pip_count,
            res.owner_id == owner_id,
            res.state == BuildingState::Empty,
    {
        Building {
            building_key: building_ids[0],
            connected_tiles: tiles,
            aliases: building_ids,
            pip_count,
            owner_id,
            state: BuildingState::Empty,
        }
    }

    /// An empty corner with the given key and nothing else.
    pub fn default(key: BuildingKey) -> (res: Building)
        ensures
            res.building_key == key,
            res.connected_tiles@.len() == 0,
            res.aliases@.len() == 0,
            res.pip_count == 0,
            res.owner_id is None,
            res.state == BuildingState::Empty,
    {
        Building {
            building_key: key,
            connected_tiles: Vec::new(),
            aliases: Vec::new(),
            pip_count: 0,
            owner_id: None,
            state: BuildingState::Empty,
        }
    }
}

/// What a corner holds.
pub struct BuildingModel {
    pub building_key: BuildingKey,
    pub connected_tiles: Seq<TileKey>,
    pub aliases: Seq<BuildingKey>,
    pub pip_count: u32,
    pub owner_id: Option<String>,
    pub state: BuildingState,
}

/// What a corner holds.
pub open spec fn building_model(b: Building) -> BuildingModel {
    BuildingModel {
        building_key: b.building_key,
        connected_tiles: b.connected_tiles@,
        aliases: b.aliases@,
        pip_count: b.pip_count,
        owner_id: b.owner_id,
        state: b.state,
    }
}

/// What each corner of a list holds, in order.
pub open spec fn building_models(s: Seq<Building>) -> Seq<BuildingModel> {
    s.map_values(|b: Building| building_model(b))
}

impl Clone for Building {
    /// A copy of the corner.
    fn clone(&self) -> (res: Building)
        ensures
            building_model(res) == building_model(*self),
    {
        let res = Building {
            building_key: self.building_key,
            connected_tiles: self.connected_tiles.clone(),
            aliases: self.aliases.clone(),
            pip_count: self.pip_count,
            owner_id: self.owner_id.clone(),
            state: self.state,
        };
        assert(res.connected_tiles@ =~= self.connected_tiles@);
        assert(res.aliases@ =~= self.aliases@);
        res
    }
}

/// Copies of the corners of a list, in order.
pub fn clone_buildings(v: &Vec<Building>) -> (res: Vec<Building>)
    ensures
        building_models(res@) == building_models(v@),
{
    let res = v.clone();
    assert(building_models(res@) =~= building_models(v@));
    res
}

} // verus!
