use vstd::prelude::*;
use crate::text::{append_i32_decimal, int_decimal, parse_i32, parse_i32_text};
use crate::text_fmt::push_char;
use crate::roads::{road_model, Road, RoadModel};
use crate::buildings::{building_model, Building, BuildingModel, BuildingPosition};

verus! {

/// The six sides of a hexagonal tile, in the order in which they are walked.
#[derive(Clone, Copy, Debug, PartialEq, Eq, Hash, Structural)]
pub enum Direction {
    North,
    NorthEast,
    SouthEast,
    South,
    SouthWest,
    NorthWest,
}

/// The error of parsing a direction from text.
#[derive(Clone, Copy, Debug, PartialEq, Eq, Structural)]
pub enum DirectionError {
    BadDirection,
}

/// The number of a direction (its position in declaration order).
pub open spec fn direction_number(d: Direction) -> int {
    match d {
        Direction::North => 0,
        Direction::NorthEast => 1,
        Direction::SouthEast => 2,
        Direction::South => 3,
        Direction::SouthWest => 4,
        Direction::NorthWest => 5,
    }
}

/// The direction with a given number, for 0 through 5.
pub open spec fn direction_of_number(n: int) -> Option<Direction> {
    if n == 0 { Some(Direction::North) }
    else if n == 1 { Some(Direction::NorthEast) }
    else if n == 2 { Some(Direction::SouthEast) }
    else if n == 3 { Some(Direction::South) }
    else if n == 4 { Some(Direction::SouthWest) }
    else if n == 5 { Some(Direction::NorthWest) }
    else { None }
}

/// All six directions in declaration order.
pub open spec fn all_directions() -> Seq<Direction> {
    seq![
        Direction::North,
        Direction::NorthEast,
        Direction::SouthEast,
        Direction::South,
        Direction::SouthWest,
        Direction::NorthWest,
    ]
}

/// The side of the neighbouring tile that faces side `d` of this tile.
pub open spec fn opposite(d: Direction) -> Direction {
    match d {
        Direction::North => Direction::South,
        Direction::NorthEast => Direction::SouthWest,
        Direction::SouthEast => Direction::NorthWest,
        Direction::South => Direction::North,
        Direction::SouthWest => Direction::NorthEast,
        Direction::NorthWest => Direction::SouthEast,
    }
}

/// The cube-coordinate step (q, r, s) from a tile to its neighbour across side `d`.
pub open spec fn direction_offset(d: Direction) -> (int, int, int) {
    match d {
        Direction::North => (0, -1, 1),
        Direction::NorthEast => (1, -1, 0),
        Direction::SouthEast => (1, 0, -1),
        Direction::South => (0, 1, -1),
        Direction::SouthWest => (-1, 1, 0),
        Direction::NorthWest => (-1, 0, 1),
    }
}

impl Direction {
    /// All six directions in declaration order.
    pub fn all() -> (res: Vec<Direction>)
        ensures
            res@ == all_directions(),
    {
        let v = vec![
            Direction::North,
            Direction::NorthEast,
            Direction::SouthEast,
            Direction::South,
            Direction::SouthWest,
            Direction::NorthWest,
        ];
        assert(v@ =~= all_directions());
        v
    }

    /// The number of the direction, 0 through 5.
    pub fn number(&self) -> (n: i32)
        ensures
            n == direction_number(*self),
    {
        match self {
            Direction::North => 0,
            Direction::NorthEast => 1,
            Direction::SouthEast => 2,
            Direction::South => 3,
            Direction::SouthWest => 4,
            Direction::NorthWest => 5,
        }
    }

    /// Parses a direction from the decimal text of its number ("0" is North
    /// through "5" is NorthWest); any other text, or a number out of range, is an error.
    pub fn from_str(s: &str) -> (res: Result<Direction, DirectionError>)
        ensures
            res == match parse_i32(s@) {
                Some(n) => match direction_of_number(n) {
                    Some(d) => Ok(d),
                    None => Err(DirectionError::BadDirection),
                },
                None => Err(DirectionError::BadDirection),
            },
    {
        match parse_i32_text(s) {
            Some(0) => Ok(Direction::North),
            Some(1) => Ok(Direction::NorthEast),
            Some(2) => Ok(Direction::SouthEast),
            Some(3) => Ok(Direction::South),
            Some(4) => Ok(Direction::SouthWest),
            Some(5) => Ok(Direction::NorthWest),
            _ => Err(DirectionError::BadDirection),
        }
    }
}

/// The cube coordinates of a hexagonal tile.
#[derive(Clone, Copy, Debug, PartialEq, Eq, Hash, Structural)]
pub struct TileKey {
    pub q: i32,
    pub r: i32,
    pub s: i32,
}

/// A coordinate that can move one step in either direction without overflow.
pub open spec fn coordinate_in_range(x: i32) -> bool {
    i32::MIN < x < i32::MAX
}

impl TileKey {
    /// Every coordinate can move one step without overflow.
    pub open spec fn in_range(self) -> bool {
        coordinate_in_range(self.q) && coordinate_in_range(self.r) && coordinate_in_range(self.s)
    }

    /// The step across side `d` keeps every coordinate within `i32`.
    pub open spec fn can_step(self, d: Direction) -> bool {
        &&& i32::MIN <= self.q + direction_offset(d).0 <= i32::MAX
        &&& i32::MIN <= self.r + direction_offset(d).1 <= i32::MAX
        &&& i32::MIN <= self.s + direction_offset(d).2 <= i32::MAX
    }

    /// The key of the neighbouring tile across side `d`.
    pub open spec fn neighbor(self, d: Direction) -> TileKey {
        TileKey {
            q: (self.q + direction_offset(d).0) as i32,
            r: (self.r + direction_offset(d).1) as i32,
            s: (self.s + direction_offset(d).2) as i32,
        }
    }

    /// The keys of the six neighbours, in direction order.
    pub open spec fn neighbors(self) -> Seq<TileKey> {
        all_directions().map_values(|d: Direction| self.neighbor(d))
    }

    /// Creates a key from its three cube coordinates.
    pub fn new(q: i32, r: i32, s: i32) -> (res: TileKey)
        ensures
            res == (TileKey { q, r, s }),
    {
        TileKey { q, r, s }
    }

    /// The key of the neighbouring tile across side `dir`.
    pub fn get_neighbor_key(&self, dir: Direction) -> (res: TileKey)
        requires
            self.can_step(dir),
        ensures
            res == self.neighbor(dir),
            res.q == self.q + direction_offset(dir).0,
            res.r == self.r + direction_offset(dir).1,
            res.s == self.s + direction_offset(dir).2,
    {
        let (dq, dr, ds): (i32, i32, i32) = match dir {
            Direction::North => (0, -1, 1),
            Direction::NorthEast => (1, -1, 0),
            Direction::SouthEast => (1, 0, -1),
            Direction::South => (0, 1, -1),
            Direction::SouthWest => (-1, 1, 0),
            Direction::NorthWest => (-1, 0, 1),
        };
        TileKey::new(self.q + dq, self.r + dr, self.s + ds)
    }

    /// The keys of all six surrounding tiles, in direction order. Some of them may
    /// lie off the board: a lookup on the board decides.
    pub fn get_adjacent_keys(&self) -> (res: Vec<TileKey>)
        requires
            self.in_range(),
        ensures
            res@ == self.neighbors(),
    {
        let dirs = Direction::all();
        let mut tiles: Vec<TileKey> = Vec::new();
        let mut i: usize = 0;
        while i < dirs.len()
            invariant
                self.in_range(),
                dirs@ == all_directions(),
                i <= dirs.len(),
                tiles@ == self.neighbors().take(i as int),
            decreases dirs.len() - i,
        {
            let k = self.get_neighbor_key(dirs[i]);
            tiles.push(k);
            assert(tiles@ =~= self.neighbors().take(i + 1));
            i = i + 1;
        }
        assert(tiles@ =~= self.neighbors());
        tiles
    }

    /// The text "TileKey(q:Q, r:R, s:S)" with each coordinate in decimal.
    pub fn to_string(&self) -> (res: String)
        ensures
            res@ == tile_key_text(*self),
    {
        let mut res = String::new();
        append_str(&mut res, "TileKey(q:");
        append_i32_decimal(&mut res, self.q);
        append_str(&mut res, ", r:");
        append_i32_decimal(&mut res, self.r);
        append_str(&mut res, ", s:");
        append_i32_decimal(&mut res, self.s);
        push_char(&mut res, ')');
        proof {
            reveal_strlit("TileKey(q:");
            reveal_strlit(", r:");
            reveal_strlit(", s:");
        }
        assert(res@ =~= tile_key_text(*self));
        res
    }

    /// A copy of this key.
    pub fn clone(&self) -> (res: TileKey)
        ensures
            res == *self,
    {
        TileKey::new(self.q, self.r, self.s)
    }

    /// Overwrites this key with the coordinates of `other`.
    pub fn assign(&mut self, other: &TileKey)
        ensures
            *final(self) == *other,
    {
        self.q = other.q;
        self.r = other.r;
        self.s = other.s;
    }

    /// Whether the two keys have the same coordinates.
    pub fn equals(&self, other: &TileKey) -> (res: bool)
        ensures
            res == (*self == *other),
    {
        self.q == other.q && self.r == other.r && self.s == other.s
    }
}

/// The text of a tile key.
pub open spec fn tile_key_text(k: TileKey) -> Seq<char> {
    seq!['T', 'i', 'l', 'e', 'K', 'e', 'y', '(', 'q', ':'] + int_decimal(k.q as int)
        + seq![',', ' ', 'r', ':'] + int_decimal(k.r as int)
        + seq![',', ' ', 's', ':'] + int_decimal(k.s as int) + seq![')']
}

/// The side of the neighbouring tile that faces side `pos` of a tile.
pub fn get_neighbor_direction(pos: Direction) -> (res: Direction)
    ensures
        res == opposite(pos),
{
    match pos {
        Direction::North => Direction::South,
        Direction::NorthEast => Direction::SouthWest,
        Direction::SouthEast => Direction::NorthWest,
        Direction::South => Direction::North,
        Direction::SouthWest => Direction::NorthEast,
        Direction::NorthWest => Direction::SouthEast,
    }
}

/// Facing sides pair up: the side that faces the side facing `d` is `d` itself.
pub proof fn lemma_opposite_involutive(d: Direction)
    ensures
        opposite(opposite(d)) == d,
{
}

/// Stepping across a side and back across the facing side returns to the same tile.
pub proof fn lemma_neighbor_round_trip(k: TileKey, d: Direction)
    requires
        k.can_step(d),
    ensures
        k.neighbor(d).neighbor(opposite(d)) == k,
{
}

/// A step to a neighbour keeps the cube-coordinate sum q + r + s.
pub proof fn lemma_neighbor_keeps_cube_sum(k: TileKey, d: Direction)
    requires
        k.can_step(d),
    ensures
        k.neighbor(d).q + k.neighbor(d).r + k.neighbor(d).s == k.q + k.r + k.s,
{
}

/// The six neighbours of a tile are six different tiles, none of them the tile itself.
pub proof fn lemma_neighbors_distinct(k: TileKey)
    requires
        k.in_range(),
    ensures
        k.neighbors().len() == 6,
        forall|i: int, j: int| 0 <= i < j < 6 ==> k.neighbors()[i] != k.neighbors()[j],
        forall|i: int| 0 <= i < 6 ==> k.neighbors()[i] != k,
{
    assert(k.neighbors().len() == 6);
    assert forall|i: int, j: int| 0 <= i < j < 6 implies k.neighbors()[i] != k.neighbors()[j] by {
        assert(k.neighbors()[i] == k.neighbor(all_directions()[i]));
        assert(k.neighbors()[j] == k.neighbor(all_directions()[j]));
    }
    assert forall|i: int| 0 <= i < 6 implies k.neighbors()[i] != k by {
        assert(k.neighbors()[i] == k.neighbor(all_directions()[i]));
    }
}

/// Appends a string slice to a string.
pub fn append_str(s: &mut String, t: &str)
    ensures
        final(s)@ == old(s)@ + t@,
{
    s.append(t);
}

} // verus!

verus! {

/// The resource a tile yields.
#[derive(Clone, Copy, Debug, PartialEq, Eq, Hash, Structural)]
pub enum TileResource {
    Back,
    Brick,
    Desert,
    GoldMine,
    Ore,
    Sheep,
    Wheat,
    Wood,
}

/// Whether a tile shows its face.
#[derive(Clone, Copy, Debug, PartialEq, Eq, Structural)]
pub enum TileOrientation {
    FaceUp,
    FaceDown,
}

/// A tile of the board.
#[derive(Debug)]
pub struct Tile {
    pub current_resource: TileResource,
    pub original_resource: TileResource,
    pub roll: u32,
    pub key: TileKey,
    pub roads: Vec<(Direction, crate::roads::Road)>,
    pub owned_buildings: Vec<(crate::buildings::BuildingPosition, crate::buildings::Building)>,
}

impl Tile {
    /// A tile with the given key, roll and resource, and no roads or buildings yet.
    pub fn new(key: TileKey, roll: u32, resource: TileResource) -> (res: Tile)
        ensures
            res.key == key,
            res.roll == roll,
            res.current_resource == resource,
            res.original_resource == resource,
            res.roads@.len() == 0,
            res.owned_buildings@.len() == 0,
    {
        Tile {
            key,
            roll,
            current_resource: resource,
            original_resource: resource,
            roads: Vec::new(),
            owned_buildings: Vec::new(),
        }
    }
}

/// The keys of the tiles of a board, in board order.
pub open spec fn tile_keys(tiles: Seq<Tile>) -> Seq<TileKey> {
    tiles.map_values(|t: Tile| t.key)
}

/// The position of the tile with the given key on the board, if there is one.
pub fn find_tile(tiles: &Vec<Tile>, key: &TileKey) -> (res: Option<usize>)
    ensures
        res matches Some(i) ==> i < tiles@.len() && tiles@[i as int].key == *key
            && forall|j: int| 0 <= j < i ==> tiles@[j].key != *key,
        res is None ==> !tile_keys(tiles@).contains(*key),
{
    let mut i: usize = 0;
    while i < tiles.len()
        invariant
            i <= tiles@.len(),
            forall|j: int| 0 <= j < i ==> tiles@[j].key != *key,
        decreases tiles.len() - i,
    {
        if tiles[i].key.equals(key) {
            return Some(i);
        }
        i = i + 1;
    }
    proof {
        if tile_keys(tiles@).contains(*key) {
            let j = choose|j: int| 0 <= j < tile_keys(tiles@).len() && tile_keys(tiles@)[j] == *key;
            assert(tiles@[j].key == *key);
        }
    }
    None
}

/// Whether a tile with the given key lies on the board.
pub fn board_has_tile(tiles: &Vec<Tile>, key: &TileKey) -> (res: bool)
    ensures
        res == tile_keys(tiles@).contains(*key),
{
    match find_tile(tiles, key) {
        Some(i) => {
            assert(tile_keys(tiles@)[i as int] == *key);
            true
        },
        None => false,
    }
}

/// What a tile holds, its roads and corners taken by what they hold.
pub struct TileModel {
    pub current_resource: TileResource,
    pub original_resource: TileResource,
    pub roll: u32,
    pub key: TileKey,
    pub roads: Seq<(Direction, RoadModel)>,
    pub owned_buildings: Seq<(BuildingPosition, BuildingModel)>,
}

/// What a tile holds.
pub open spec fn tile_model(t: Tile) -> TileModel {
    TileModel {
        current_resource: t.current_resource,
        original_resource: t.original_resource,
        roll: t.roll,
        key: t.key,
        roads: t.roads@.map_values(|p: (Direction, Road)| (p.0, road_model(p.1))),
        owned_buildings: t.owned_buildings@.map_values(
            |p: (BuildingPosition, Building)| (p.0, building_model(p.1)),
        ),
    }
}

/// What each tile of a list holds, in order.
pub open spec fn tile_models(s: Seq<Tile>) -> Seq<TileModel> {
    s.map_values(|t: Tile| tile_model(t))
}

impl Clone for Tile {
    /// A copy of the tile, with copies of its roads and corners.
    fn clone(&self) -> (res: Tile)
        ensures
            tile_model(res) == tile_model(*self),
    {
        let mut roads: Vec<(Direction, Road)> = Vec::new();
        let mut i: usize = 0;
        while i < self.roads.len()
            invariant
                i <= self.roads@.len(),
                roads@.len() == i,
                forall|j: int| 0 <= j < i ==> (#[trigger] roads@[j]).0 == self.roads@[j].0
                    && road_model(roads@[j].1) == road_model(self.roads@[j].1),
            decreases self.roads.len() - i,
        {
            let d = self.roads[i].0;
            let r = self.roads[i].1.clone();
            roads.push((d, r));
            i = i + 1;
        }
        let mut owned: Vec<(BuildingPosition, Building)> = Vec::new();
        let mut k: usize = 0;
        while k < self.owned_buildings.len()
            invariant
                k <= self.owned_buildings@.len(),
                owned@.len() == k,
                forall|j: int| 0 <= j < k ==> (#[trigger] owned@[j]).0 == self.owned_buildings@[j].0
                    && building_model(owned@[j].1) == building_model(self.owned_buildings@[j].1),
            decreases self.owned_buildings.len() - k,
        {
            let p = self.owned_buildings[k].0;
            let b = self.owned_buildings[k].1.clone();
            owned.push((p, b));
            k = k + 1;
        }
        let res = Tile {
            current_resource: self.current_resource,
            original_resource: self.original_resource,
            roll: self.roll,
            key: self.key,
            roads,
            owned_buildings: owned,
        };
        assert(tile_model(res).roads =~= tile_model(*self).roads);
        assert(tile_model(res).owned_buildings =~= tile_model(*self).owned_buildings);
        res
    }
}

/// Copies of the tiles of a board, in order.
pub fn clone_tiles(v: &Vec<Tile>) -> (res: Vec<Tile>)
    ensures
        tile_models(res@) == tile_models(v@),
{
    let res = v.clone();
    assert(tile_models(res@) =~= tile_models(v@));
    res
}

} // verus!
