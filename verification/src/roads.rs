use vstd::prelude::*;
use crate::player::User;
use crate::text::append_i32_decimal;
use crate::text::int_decimal;
use crate::text_fmt::push_char;
use crate::tiles::{direction_number, Direction, TileKey};

verus! {

/// Whether a side of a tile carries nothing, a road or a ship.
#[derive(Clone, Copy, Debug, PartialEq, Eq, Structural)]
pub enum RoadState {
    Unbuilt,
    Road,
    Ship,
}

/// A road named by the tile it is described from and the side of that tile.
#[derive(Clone, Copy, Debug, PartialEq, Eq, Hash, Structural)]
pub struct RoadKey {
    pub tile_key: TileKey,
    pub direction: Direction,
}

impl RoadKey {
    /// Creates the key of the road on side `direction` of tile `tile`.
    pub fn new(direction: Direction, tile: TileKey) -> (res: RoadKey)
        ensures
            res == (RoadKey { tile_key: tile, direction }),
    {
        RoadKey { direction, tile_key: tile }
    }

    /// The text "D|{\"q\":Q,\"r\":R,\"s\":S}": the direction's number, a bar, and
    /// the tile key as JSON.
    pub fn to_text(&self) -> (res: String)
        ensures
            res@ == road_key_text(*self),
    {
        let mut res = String::new();
        append_i32_decimal(&mut res, self.direction.number());
        push_char(&mut res, '|');
        append_tile_key_json(&mut res, &self.tile_key);
        assert(res@ =~= road_key_text(*self));
        res
    }
}

/// The JSON text of a tile key: {"q":Q,"r":R,"s":S}.
pub open spec fn tile_key_json(k: TileKey) -> Seq<char> {
    seq!['{', '"', 'q', '"', ':'] + int_decimal(k.q as int) + seq![',', '"', 'r', '"', ':']
        + int_decimal(k.r as int) + seq![',', '"', 's', '"', ':'] + int_decimal(k.s as int)
        + seq!['}']
}

/// The text of a road key.
pub open spec fn road_key_text(k: RoadKey) -> Seq<char> {
    int_decimal(direction_number(k.direction)) + seq!['|'] + tile_key_json(k.tile_key)
}

fn push_chars(s: &mut String, cs: &[char])
    ensures
        final(s)@ == old(s)@ + cs@,
{
    let mut i: usize = 0;
    while i < cs.len()
        invariant
            i <= cs@.len(),
            s@ == old(s)@ + cs@.take(i as int),
        decreases cs.len() - i,
    {
        push_char(s, cs[i]);
        assert(cs@.take(i + 1) =~= cs@.take(i as int).push(cs@[i as int]));
        i = i + 1;
    }
    assert(cs@.take(cs@.len() as int) =~= cs@);
}

/// Appends the JSON text of a tile key.
pub fn append_tile_key_json(s: &mut String, k: &TileKey)
    ensures
        final(s)@ == old(s)@ + tile_key_json(*k),
{
    push_chars(s, &['{', '"', 'q', '"', ':']);
    append_i32_decimal(s, k.q);
    push_chars(s, &[',', '"', 'r', '"', ':']);
    append_i32_decimal(s, k.r);
    push_chars(s, &[',', '"', 's', '"', ':']);
    append_i32_decimal(s, k.s);
    push_char(s, '}');
    assert(final(s)@ =~= old(s)@ + tile_key_json(*k));
}

/// A road on a side of a tile.
#[derive(Debug)]
pub struct Road {
    pub primary_key: RoadKey,
    pub aliases: Vec<RoadKey>,
    pub adjacent_roads: Vec<Road>,
    pub owner: Option<User>,
    pub state: RoadState,
}

impl Road {
    /// An unbuilt road with no owner, no aliases and no adjacent roads.
    pub open spec fn is_fresh(self, key: RoadKey) -> bool {
        &&& self.primary_key == key
        &&& self.aliases@.len() == 0
        &&& self.adjacent_roads@.len() == 0
        &&& self.owner is None
        &&& self.state == RoadState::Unbuilt
    }

    /// Creates an unbuilt, unowned road with the given key.
    pub fn new(primary_key: RoadKey) -> (res: Road)
        ensures
            res.is_fresh(primary_key),
    {
        Road {
            primary_key,
            aliases: Vec::new(),
            adjacent_roads: Vec::new(),
            owner: None,
            state: RoadState::Unbuilt,
        }
    }
}

/// What a road holds, with the roads next to it taken by what they hold in turn.
pub struct RoadModel {
    pub primary_key: RoadKey,
    pub aliases: Seq<RoadKey>,
    pub adjacent_roads: Seq<RoadModel>,
    pub owner: Option<User>,
    pub state: RoadState,
}

/// What a road holds.
pub open spec fn road_model(r: Road) -> RoadModel
    decreases r, 1int,
{
    proof {
        assert(decreases_to!(r => r.adjacent_roads));
        assert(decreases_to!(r.adjacent_roads => r.adjacent_roads@));
    }
    RoadModel {
        primary_key: r.primary_key,
        aliases: r.aliases@,
        adjacent_roads: road_models(r.adjacent_roads@),
        owner: r.owner,
        state: r.state,
    }
}

/// What each road of a list holds, in order.
pub open spec fn road_models(s: Seq<Road>) -> Seq<RoadModel>
    decreases s, 0int,
{
    if s.len() == 0 {
        Seq::empty()
    } else {
        proof {
            assert(decreases_to!(s => s[s.len() - 1]));
            assert(decreases_to!(s => s.subrange(0, s.len() - 1)));
        }
        road_models(s.subrange(0, s.len() - 1)).push(road_model(s[s.len() - 1]))
    }
}

proof fn lemma_road_models_push(s: Seq<Road>, r: Road)
    ensures
        road_models(s.push(r)) == road_models(s).push(road_model(r)),
{
    assert(s.push(r).subrange(0, s.len() as int) =~= s);
}

proof fn lemma_road_models_prefix(s: Seq<Road>, i: int)
    requires
        0 <= i < s.len(),
    ensures
        road_models(s.subrange(0, i + 1)) == road_models(s.subrange(0, i)).push(road_model(s[i])),
{
    assert(s.subrange(0, i + 1) =~= s.subrange(0, i).push(s[i]));
    lemma_road_models_push(s.subrange(0, i), s[i]);
}

/// A copy of a road, with copies of the roads next to it.
fn clone_road(r: &Road) -> (res: Road)
    ensures
        road_model(res) == road_model(*r),
    decreases *r,
{
    let mut adjacent: Vec<Road> = Vec::new();
    let mut i: usize = 0;
    while i < r.adjacent_roads.len()
        invariant
            i <= r.adjacent_roads@.len(),
            road_models(adjacent@) == road_models(r.adjacent_roads@.subrange(0, i as int)),
        decreases r.adjacent_roads@.len() - i,
    {
        proof {
            assert(decreases_to!(*r => r.adjacent_roads));
            assert(decreases_to!(r.adjacent_roads => r.adjacent_roads@));
            assert(decreases_to!(r.adjacent_roads@ => r.adjacent_roads@[i as int]));
        }
        let c = clone_road(&r.adjacent_roads[i]);
        proof {
            lemma_road_models_push(adjacent@, c);
            lemma_road_models_prefix(r.adjacent_roads@, i as int);
        }
        adjacent.push(c);
        i = i + 1;
    }
    assert(r.adjacent_roads@.subrange(0, i as int) =~= r.adjacent_roads@);
    let owner = match &r.owner {
        Some(u) => Some(u.clone()),
        None => None,
    };
    let res = Road {
        primary_key: r.primary_key,
        aliases: r.aliases.clone(),
        adjacent_roads: adjacent,
        owner,
        state: r.state,
    };
    assert(res.aliases@ =~= r.aliases@);
    res
}

impl Clone for Road {
    /// A copy of the road, with copies of the roads next to it.
    fn clone(&self) -> (res: Road)
        ensures
            road_model(res) == road_model(*self),
    {
        clone_road(self)
    }
}

/// What each road of a list holds, in order, road by road.
pub open spec fn road_list_model(s: Seq<Road>) -> Seq<RoadModel> {
    s.map_values(|r: Road| road_model(r))
}

/// Copies of the roads of a list, in order.
pub fn clone_roads(v: &Vec<Road>) -> (res: Vec<Road>)
    ensures
        road_list_model(res@) == road_list_model(v@),
{
    let res = v.clone();
    assert(road_list_model(res@) =~= road_list_model(v@));
    res
}

/// A road described from a neighbouring tile: the side of the current tile that
/// leads to that tile, and the side of that tile the road is on.
#[derive(Clone, Copy, Debug, PartialEq, Eq, Hash, Structural)]
pub struct RoadAlias {
    pub tile_direction: Direction,
    pub road_direction: Direction,
}

impl RoadAlias {
    /// Creates an alias from the direction of the tile and the direction of the road on it.
    pub fn new(tile: Direction, road: Direction) -> (res: RoadAlias)
        ensures
            res == (RoadAlias { tile_direction: tile, road_direction: road }),
    {
        RoadAlias { road_direction: road, tile_direction: tile }
    }

    /// The text "T|R" with the numbers of the two directions.
    pub fn to_text(&self) -> (res: String)
        ensures
            res@ == int_decimal(direction_number(self.tile_direction)) + seq!['|']
                + int_decimal(direction_number(self.road_direction)),
    {
        let mut res = String::new();
        append_i32_decimal(&mut res, self.tile_direction.number());
        push_char(&mut res, '|');
        append_i32_decimal(&mut res, self.road_direction.number());
        res
    }
}

} // verus!
