use vstd::prelude::*;
use vstd::string::*;
use crate::buildings::{BuildingKey, BuildingPosition};
use crate::harbors::{Harbor, HarborKey, HarborType};
use crate::json::{as_str, get, get_member, lookup, string_member, JsonValue};
use crate::roads::{append_tile_key_json, tile_key_json, RoadKey};
use crate::text::{append_str_text, append_i32_decimal, int_decimal, lemma_parse_int_decimal, parse_i32, parse_i32_text, same_text};
use crate::tiles::{Direction, TileKey};

verus! {

// The JSON form of the board's keys: objects with their fields in declaration order,
// numbers in decimal, enum values by the name of their variant.

/// A JSON number whose text is the decimal text of `n`.
pub open spec fn is_number_json(v: JsonValue, n: int) -> bool {
    v matches JsonValue::Number(t) && t@ == int_decimal(n)
}

/// A JSON string with the text `s`.
pub open spec fn is_text_json(v: JsonValue, s: Seq<char>) -> bool {
    v matches JsonValue::Str(t) && t@ == s
}

/// The `i32` a JSON value holds, where it is a number that parses as one.
pub open spec fn i32_of(v: Option<JsonValue>) -> Option<int> {
    match v {
        Some(JsonValue::Number(t)) => parse_i32(t@),
        _ => None,
    }
}

/// The name of a direction.
pub open spec fn direction_name(d: Direction) -> Seq<char> {
    match d {
        Direction::North => "North"@,
        Direction::NorthEast => "NorthEast"@,
        Direction::SouthEast => "SouthEast"@,
        Direction::South => "South"@,
        Direction::SouthWest => "SouthWest"@,
        Direction::NorthWest => "NorthWest"@,
    }
}

/// The direction with a name.
pub open spec fn direction_named(s: Option<Seq<char>>) -> Option<Direction> {
    match s {
        Some(t) => if t == "North"@ {
            Some(Direction::North)
        } else if t == "NorthEast"@ {
            Some(Direction::NorthEast)
        } else if t == "SouthEast"@ {
            Some(Direction::SouthEast)
        } else if t == "South"@ {
            Some(Direction::South)
        } else if t == "SouthWest"@ {
            Some(Direction::SouthWest)
        } else if t == "NorthWest"@ {
            Some(Direction::NorthWest)
        } else {
            None
        },
        None => None,
    }
}

/// The name of a corner.
pub open spec fn position_name(p: BuildingPosition) -> Seq<char> {
    match p {
        BuildingPosition::Right => "Right"@,
        BuildingPosition::BottomRight => "BottomRight"@,
        BuildingPosition::BottomLeft => "BottomLeft"@,
        BuildingPosition::Left => "Left"@,
        BuildingPosition::TopLeft => "TopLeft"@,
        BuildingPosition::TopRight => "TopRight"@,
    }
}

/// The corner with a name.
pub open spec fn position_named(s: Option<Seq<char>>) -> Option<BuildingPosition> {
    match s {
        Some(t) => if t == "Right"@ {
            Some(BuildingPosition::Right)
        } else if t == "BottomRight"@ {
            Some(BuildingPosition::BottomRight)
        } else if t == "BottomLeft"@ {
            Some(BuildingPosition::BottomLeft)
        } else if t == "Left"@ {
            Some(BuildingPosition::Left)
        } else if t == "TopLeft"@ {
            Some(BuildingPosition::TopLeft)
        } else if t == "TopRight"@ {
            Some(BuildingPosition::TopRight)
        } else {
            None
        },
        None => None,
    }
}

/// The name of a harbor type.
pub open spec fn harbor_type_name(h: HarborType) -> Seq<char> {
    match h {
        HarborType::Wheat => "Wheat"@,
        HarborType::Wood => "Wood"@,
        HarborType::Ore => "Ore"@,
        HarborType::Sheep => "Sheep"@,
        HarborType::Brick => "Brick"@,
        HarborType::ThreeForOne => "ThreeForOne"@,
    }
}

/// The harbor type with a name.
pub open spec fn harbor_type_named(s: Option<Seq<char>>) -> Option<HarborType> {
    match s {
        Some(t) => if t == "Wheat"@ {
            Some(HarborType::Wheat)
        } else if t == "Wood"@ {
            Some(HarborType::Wood)
        } else if t == "Ore"@ {
            Some(HarborType::Ore)
        } else if t == "Sheep"@ {
            Some(HarborType::Sheep)
        } else if t == "Brick"@ {
            Some(HarborType::Brick)
        } else if t == "ThreeForOne"@ {
            Some(HarborType::ThreeForOne)
        } else {
            None
        },
        None => None,
    }
}

/// `v` is the JSON of tile key `k`: {"q":Q,"r":R,"s":S}.
pub open spec fn is_tile_key_json(v: JsonValue, k: TileKey) -> bool {
    match v {
        JsonValue::Object(m) => {
            &&& m@.len() == 3
            &&& m@[0].0@ == "q"@ && is_number_json(m@[0].1, k.q as int)
            &&& m@[1].0@ == "r"@ && is_number_json(m@[1].1, k.r as int)
            &&& m@[2].0@ == "s"@ && is_number_json(m@[2].1, k.s as int)
        },
        _ => false,
    }
}

/// The tile key a JSON value holds: its members "q", "r" and "s", each an `i32`.
pub open spec fn tile_key_of(v: JsonValue) -> Option<TileKey> {
    match (i32_of(get(v, "q"@)), i32_of(get(v, "r"@)), i32_of(get(v, "s"@))) {
        (Some(q), Some(r), Some(s)) => Some(TileKey { q: q as i32, r: r as i32, s: s as i32 }),
        _ => None,
    }
}

/// The tile key held by member `key` of a value.
pub open spec fn tile_key_member(v: JsonValue, key: Seq<char>) -> Option<TileKey> {
    match get(v, key) {
        Some(t) => tile_key_of(t),
        None => None,
    }
}

/// `v` is the JSON of road key `k`: {"tileKey":TILE,"direction":"NAME"}.
pub open spec fn is_road_key_json(v: JsonValue, k: RoadKey) -> bool {
    match v {
        JsonValue::Object(m) => {
            &&& m@.len() == 2
            &&& m@[0].0@ == "tileKey"@ && is_tile_key_json(m@[0].1, k.tile_key)
            &&& m@[1].0@ == "direction"@ && is_text_json(m@[1].1, direction_name(k.direction))
        },
        _ => false,
    }
}

/// The road key a JSON value holds.
pub open spec fn road_key_of(v: JsonValue) -> Option<RoadKey> {
    match (tile_key_member(v, "tileKey"@), direction_named(as_str(get(v, "direction"@)))) {
        (Some(tile_key), Some(direction)) => Some(RoadKey { tile_key, direction }),
        _ => None,
    }
}

/// `v` is the JSON of building key `k`: {"BuildingPosition":"NAME","TileKey":TILE}.
pub open spec fn is_building_key_json(v: JsonValue, k: BuildingKey) -> bool {
    match v {
        JsonValue::Object(m) => {
            &&& m@.len() == 2
            &&& m@[0].0@ == "BuildingPosition"@ && is_text_json(m@[0].1, position_name(k.building_position))
            &&& m@[1].0@ == "TileKey"@ && is_tile_key_json(m@[1].1, k.tile_key)
        },
        _ => false,
    }
}

/// The building key a JSON value holds.
pub open spec fn building_key_of(v: JsonValue) -> Option<BuildingKey> {
    match (position_named(as_str(get(v, "BuildingPosition"@))), tile_key_member(v, "TileKey"@)) {
        (Some(building_position), Some(tile_key)) => Some(BuildingKey { building_position, tile_key }),
        _ => None,
    }
}

/// `v` is the JSON of harbor key `k`: {"TileKey":TILE,"Position":"NAME"}.
pub open spec fn is_harbor_key_json(v: JsonValue, k: HarborKey) -> bool {
    match v {
        JsonValue::Object(m) => {
            &&& m@.len() == 2
            &&& m@[0].0@ == "TileKey"@ && is_tile_key_json(m@[0].1, k.tile_key)
            &&& m@[1].0@ == "Position"@ && is_text_json(m@[1].1, direction_name(k.position))
        },
        _ => false,
    }
}

/// The harbor key a JSON value holds.
pub open spec fn harbor_key_of(v: JsonValue) -> Option<HarborKey> {
    match (tile_key_member(v, "TileKey"@), direction_named(as_str(get(v, "Position"@)))) {
        (Some(tile_key), Some(position)) => Some(HarborKey { tile_key, position }),
        _ => None,
    }
}

/// `v` is the JSON of harbor `h`: {"harborKey":KEY,"harborType":"NAME"}.
pub open spec fn is_harbor_json(v: JsonValue, h: Harbor) -> bool {
    match v {
        JsonValue::Object(m) => {
            &&& m@.len() == 2
            &&& m@[0].0@ == "harborKey"@ && is_harbor_key_json(m@[0].1, h.harbor_key)
            &&& m@[1].0@ == "harborType"@ && is_text_json(m@[1].1, harbor_type_name(h.harbor_type))
        },
        _ => false,
    }
}

/// The harbor a JSON value holds.
pub open spec fn harbor_of(v: JsonValue) -> Option<Harbor> {
    let key = match get(v, "harborKey"@) {
        Some(k) => harbor_key_of(k),
        None => None,
    };
    match (key, harbor_type_named(as_str(get(v, "harborType"@)))) {
        (Some(harbor_key), Some(harbor_type)) => Some(Harbor { harbor_key, harbor_type }),
        _ => None,
    }
}

fn number_json(n: i32) -> (res: JsonValue)
    ensures
        is_number_json(res, n as int),
{
    let mut t = String::new();
    append_i32_decimal(&mut t, n);
    JsonValue::Number(t)
}

fn text_json(t: &str) -> (res: JsonValue)
    ensures
        is_text_json(res, t@),
{
    JsonValue::Str(String::from_str(t))
}

/// The `i32` held by member `key` of a value.
fn i32_member(v: &JsonValue, key: &str) -> (res: Option<i32>)
    ensures
        match res {
            Some(x) => i32_of(get(*v, key@)) == Some(x as int),
            None => i32_of(get(*v, key@)) is None,
        },
{
    match get_member(v, key) {
        Some(JsonValue::Number(t)) => parse_i32_text(t.as_str()),
        _ => None,
    }
}

fn direction_text(d: Direction) -> (res: &'static str)
    ensures
        res@ == direction_name(d),
{
    match d {
        Direction::North => "North",
        Direction::NorthEast => "NorthEast",
        Direction::SouthEast => "SouthEast",
        Direction::South => "South",
        Direction::SouthWest => "SouthWest",
        Direction::NorthWest => "NorthWest",
    }
}

fn direction_from_text(t: Option<String>) -> (res: Option<Direction>)
    ensures
        res == direction_named(match t { Some(s) => Some(s@), None => None }),
{
    match t {
        Some(s) => {
            let s = s.as_str();
            if same_text(s, "North") {
                Some(Direction::North)
            } else if same_text(s, "NorthEast") {
                Some(Direction::NorthEast)
            } else if same_text(s, "SouthEast") {
                Some(Direction::SouthEast)
            } else if same_text(s, "South") {
                Some(Direction::South)
            } else if same_text(s, "SouthWest") {
                Some(Direction::SouthWest)
            } else if same_text(s, "NorthWest") {
                Some(Direction::NorthWest)
            } else {
                None
            }
        },
        None => None,
    }
}

fn position_text(p: BuildingPosition) -> (res: &'static str)
    ensures
        res@ == position_name(p),
{
    match p {
        BuildingPosition::Right => "Right",
        BuildingPosition::BottomRight => "BottomRight",
        BuildingPosition::BottomLeft => "BottomLeft",
        BuildingPosition::Left => "Left",
        BuildingPosition::TopLeft => "TopLeft",
        BuildingPosition::TopRight => "TopRight",
    }
}

fn position_from_text(t: Option<String>) -> (res: Option<BuildingPosition>)
    ensures
        res == position_named(match t { Some(s) => Some(s@), None => None }),
{
    match t {
        Some(s) => {
            let s = s.as_str();
            if same_text(s, "Right") {
                Some(BuildingPosition::Right)
            } else if same_text(s, "BottomRight") {
                Some(BuildingPosition::BottomRight)
            } else if same_text(s, "BottomLeft") {
                Some(BuildingPosition::BottomLeft)
            } else if same_text(s, "Left") {
                Some(BuildingPosition::Left)
            } else if same_text(s, "TopLeft") {
                Some(BuildingPosition::TopLeft)
            } else if same_text(s, "TopRight") {
                Some(BuildingPosition::TopRight)
            } else {
                None
            }
        },
        None => None,
    }
}

fn harbor_type_text(h: HarborType) -> (res: &'static str)
    ensures
        res@ == harbor_type_name(h),
{
    match h {
        HarborType::Wheat => "Wheat",
        HarborType::Wood => "Wood",
        HarborType::Ore => "Ore",
        HarborType::Sheep => "Sheep",
        HarborType::Brick => "Brick",
        HarborType::ThreeForOne => "ThreeForOne",
    }
}

fn harbor_type_from_text(t: Option<String>) -> (res: Option<HarborType>)
    ensures
        res == harbor_type_named(match t { Some(s) => Some(s@), None => None }),
{
    match t {
        Some(s) => {
            let s = s.as_str();
            if same_text(s, "Wheat") {
                Some(HarborType::Wheat)
            } else if same_text(s, "Wood") {
                Some(HarborType::Wood)
            } else if same_text(s, "Ore") {
                Some(HarborType::Ore)
            } else if same_text(s, "Sheep") {
                Some(HarborType::Sheep)
            } else if same_text(s, "Brick") {
                Some(HarborType::Brick)
            } else if same_text(s, "ThreeForOne") {
                Some(HarborType::ThreeForOne)
            } else {
                None
            }
        },
        None => None,
    }
}

/// The tile key held by member `key` of a value.
fn tile_key_member_of(v: &JsonValue, key: &str) -> (res: Option<TileKey>)
    ensures
        res == tile_key_member(*v, key@),
{
    match get_member(v, key) {
        Some(t) => TileKey::from_json(t),
        None => None,
    }
}

impl TileKey {
    /// The JSON of the key: {"q":Q,"r":R,"s":S}.
    pub fn to_json(&self) -> (res: JsonValue)
        ensures
            is_tile_key_json(res, *self),
    {
        let mut m: Vec<(String, JsonValue)> = Vec::new();
        m.push((String::from_str("q"), number_json(self.q)));
        m.push((String::from_str("r"), number_json(self.r)));
        m.push((String::from_str("s"), number_json(self.s)));
        JsonValue::Object(m)
    }

    /// The tile key a JSON value holds; nothing where a coordinate is missing or not an
    /// `i32`.
    pub fn from_json(v: &JsonValue) -> (res: Option<TileKey>)
        ensures
            res == tile_key_of(*v),
    {
        let q = i32_member(v, "q");
        let r = i32_member(v, "r");
        let s = i32_member(v, "s");
        match (q, r, s) {
            (Some(q), Some(r), Some(s)) => Some(TileKey { q, r, s }),
            _ => None,
        }
    }
}

impl RoadKey {
    /// The JSON of the key: {"tileKey":TILE,"direction":"NAME"}.
    pub fn to_json(&self) -> (res: JsonValue)
        ensures
            is_road_key_json(res, *self),
    {
        let mut m: Vec<(String, JsonValue)> = Vec::new();
        m.push((String::from_str("tileKey"), self.tile_key.to_json()));
        m.push((String::from_str("direction"), text_json(direction_text(self.direction))));
        JsonValue::Object(m)
    }

    /// The road key a JSON value holds.
    pub fn from_json(v: &JsonValue) -> (res: Option<RoadKey>)
        ensures
            res == road_key_of(*v),
    {
        let tile_key = tile_key_member_of(v, "tileKey");
        let direction = direction_from_text(string_member(v, "direction"));
        match (tile_key, direction) {
            (Some(tile_key), Some(direction)) => Some(RoadKey { tile_key, direction }),
            _ => None,
        }
    }
}

/// The JSON text of a building key:
/// {"BuildingPosition":"NAME","TileKey":{"q":Q,"r":R,"s":S}}.
pub open spec fn building_key_text(k: BuildingKey) -> Seq<char> {
    "{\"BuildingPosition\":\""@ + position_name(k.building_position) + "\",\"TileKey\":"@
        + tile_key_json(k.tile_key) + "}"@
}

impl BuildingKey {
    /// The JSON text of the key.
    pub fn to_text(&self) -> (res: String)
        ensures
            res@ == building_key_text(*self),
    {
        let mut res = String::from_str("{\"BuildingPosition\":\"");
        append_str_text(&mut res, position_text(self.building_position));
        append_str_text(&mut res, "\",\"TileKey\":");
        append_tile_key_json(&mut res, &self.tile_key);
        append_str_text(&mut res, "}");
        res
    }

    /// The JSON of the key: {"BuildingPosition":"NAME","TileKey":TILE}.
    pub fn to_json(&self) -> (res: JsonValue)
        ensures
            is_building_key_json(res, *self),
    {
        let mut m: Vec<(String, JsonValue)> = Vec::new();
        m.push((String::from_str("BuildingPosition"), text_json(position_text(self.building_position))));
        m.push((String::from_str("TileKey"), self.tile_key.to_json()));
        JsonValue::Object(m)
    }

    /// The building key a JSON value holds.
    pub fn from_json(v: &JsonValue) -> (res: Option<BuildingKey>)
        ensures
            res == building_key_of(*v),
    {
        let building_position = position_from_text(string_member(v, "BuildingPosition"));
        let tile_key = tile_key_member_of(v, "TileKey");
        match (building_position, tile_key) {
            (Some(building_position), Some(tile_key)) => Some(BuildingKey { building_position, tile_key }),
            _ => None,
        }
    }
}

impl HarborKey {
    /// The JSON of the key: {"TileKey":TILE,"Position":"NAME"}.
    pub fn to_json(&self) -> (res: JsonValue)
        ensures
            is_harbor_key_json(res, *self),
    {
        let mut m: Vec<(String, JsonValue)> = Vec::new();
        m.push((String::from_str("TileKey"), self.tile_key.to_json()));
        m.push((String::from_str("Position"), text_json(direction_text(self.position))));
        JsonValue::Object(m)
    }

    /// The harbor key a JSON value holds.
    pub fn from_json(v: &JsonValue) -> (res: Option<HarborKey>)
        ensures
            res == harbor_key_of(*v),
    {
        let tile_key = tile_key_member_of(v, "TileKey");
        let position = direction_from_text(string_member(v, "Position"));
        match (tile_key, position) {
            (Some(tile_key), Some(position)) => Some(HarborKey { tile_key, position }),
            _ => None,
        }
    }
}

impl Harbor {
    /// The JSON of the harbor: {"harborKey":KEY,"harborType":"NAME"}.
    pub fn to_json(&self) -> (res: JsonValue)
        ensures
            is_harbor_json(res, *self),
    {
        let mut m: Vec<(String, JsonValue)> = Vec::new();
        m.push((String::from_str("harborKey"), self.harbor_key.to_json()));
        m.push((String::from_str("harborType"), text_json(harbor_type_text(self.harbor_type))));
        JsonValue::Object(m)
    }

    /// The harbor a JSON value holds.
    pub fn from_json(v: &JsonValue) -> (res: Option<Harbor>)
        ensures
            res == harbor_of(*v),
    {
        let harbor_key = match get_member(v, "harborKey") {
            Some(k) => HarborKey::from_json(k),
            None => None,
        };
        let harbor_type = harbor_type_from_text(string_member(v, "harborType"));
        match (harbor_key, harbor_type) {
            (Some(harbor_key), Some(harbor_type)) => Some(Harbor { harbor_key, harbor_type }),
            _ => None,
        }
    }
}

/// The first member with a name is the one found by it.
proof fn lemma_lookup_at(m: Seq<(String, JsonValue)>, i: int)
    requires
        0 <= i < m.len(),
        forall|j: int| 0 <= j < i ==> (#[trigger] m[j]).0@ != m[i].0@,
    ensures
        lookup(m, m[i].0@) == Some(m[i].1),
    decreases m.len(),
{
    if i < m.len() - 1 {
        let d = m.drop_last();
        assert(d[i] == m[i]);
        assert forall|j: int| 0 <= j < i implies (#[trigger] d[j]).0@ != d[i].0@ by {
            assert(d[j] == m[j]);
        }
        lemma_lookup_at(d, i);
    } else {
        lemma_lookup_absent(m.drop_last(), m[i].0@);
    }
}

proof fn lemma_lookup_absent(m: Seq<(String, JsonValue)>, key: Seq<char>)
    requires
        forall|j: int| 0 <= j < m.len() ==> (#[trigger] m[j]).0@ != key,
    ensures
        lookup(m, key) is None,
    decreases m.len(),
{
    if m.len() > 0 {
        let d = m.drop_last();
        assert forall|j: int| 0 <= j < d.len() implies (#[trigger] d[j]).0@ != key by {
            assert(d[j] == m[j]);
        }
        lemma_lookup_absent(d, key);
        assert(m[m.len() - 1].0@ != key);
    }
}

/// Each direction is found by its name.
proof fn lemma_direction_names(d: Direction)
    ensures
        direction_named(Some(direction_name(d))) == Some(d),
{
    reveal_strlit("North");
    reveal_strlit("NorthEast");
    reveal_strlit("SouthEast");
    reveal_strlit("South");
    reveal_strlit("SouthWest");
    reveal_strlit("NorthWest");
    assert("North"@.len() == 5 && "South"@.len() == 5 && "NorthEast"@.len() == 9
        && "SouthEast"@.len() == 9 && "SouthWest"@.len() == 9 && "NorthWest"@.len() == 9);
    assert("North"@[0] != "South"@[0] && "NorthEast"@[0] != "SouthEast"@[0]
        && "NorthEast"@[0] != "SouthWest"@[0] && "NorthWest"@[0] != "SouthEast"@[0]
        && "NorthWest"@[0] != "SouthWest"@[0]);
    assert("NorthEast"@[5] != "NorthWest"@[5] && "SouthEast"@[5] != "SouthWest"@[5]);
}

/// Each corner is found by its name.
proof fn lemma_position_names(p: BuildingPosition)
    ensures
        position_named(Some(position_name(p))) == Some(p),
{
    reveal_strlit("Right");
    reveal_strlit("BottomRight");
    reveal_strlit("BottomLeft");
    reveal_strlit("Left");
    reveal_strlit("TopLeft");
    reveal_strlit("TopRight");
    assert("Right"@.len() == 5 && "BottomRight"@.len() == 11 && "BottomLeft"@.len() == 10
        && "Left"@.len() == 4 && "TopLeft"@.len() == 7 && "TopRight"@.len() == 8);
}

/// Each harbor type is found by its name.
proof fn lemma_harbor_type_names(h: HarborType)
    ensures
        harbor_type_named(Some(harbor_type_name(h))) == Some(h),
{
    reveal_strlit("Wheat");
    reveal_strlit("Wood");
    reveal_strlit("Ore");
    reveal_strlit("Sheep");
    reveal_strlit("Brick");
    reveal_strlit("ThreeForOne");
    assert("Wheat"@.len() == 5 && "Wood"@.len() == 4 && "Ore"@.len() == 3
        && "Sheep"@.len() == 5 && "Brick"@.len() == 5 && "ThreeForOne"@.len() == 11);
    assert("Wheat"@[0] != "Sheep"@[0] && "Wheat"@[0] != "Brick"@[0] && "Sheep"@[0] != "Brick"@[0]);
}

/// A tile key written as JSON reads back as the same key.
pub proof fn lemma_tile_key_json_round_trip(v: JsonValue, k: TileKey)
    requires
        is_tile_key_json(v, k),
    ensures
        tile_key_of(v) == Some(k),
{
    if let JsonValue::Object(m) = v {
        let s = m@;
        reveal_strlit("q");
        reveal_strlit("r");
        reveal_strlit("s");
        assert(s[0].0@ != s[1].0@ && s[0].0@ != s[2].0@ && s[1].0@ != s[2].0@) by {
            assert(s[0].0@[0] != s[1].0@[0] && s[0].0@[0] != s[2].0@[0] && s[1].0@[0] != s[2].0@[0]);
        }
        lemma_lookup_at(s, 0);
        lemma_lookup_at(s, 1);
        lemma_lookup_at(s, 2);
        lemma_parse_int_decimal(k.q as int);
        lemma_parse_int_decimal(k.r as int);
        lemma_parse_int_decimal(k.s as int);
    }
}

/// A road key written as JSON reads back as the same key.
pub proof fn lemma_road_key_json_round_trip(v: JsonValue, k: RoadKey)
    requires
        is_road_key_json(v, k),
    ensures
        road_key_of(v) == Some(k),
{
    if let JsonValue::Object(m) = v {
        let s = m@;
        reveal_strlit("tileKey");
        reveal_strlit("direction");
        assert(s[0].0@[0] != s[1].0@[0]);
        lemma_lookup_at(s, 0);
        lemma_lookup_at(s, 1);
        lemma_tile_key_json_round_trip(s[0].1, k.tile_key);
        lemma_direction_names(k.direction);
    }
}

/// A building key written as JSON reads back as the same key.
pub proof fn lemma_building_key_json_round_trip(v: JsonValue, k: BuildingKey)
    requires
        is_building_key_json(v, k),
    ensures
        building_key_of(v) == Some(k),
{
    if let JsonValue::Object(m) = v {
        let s = m@;
        reveal_strlit("BuildingPosition");
        reveal_strlit("TileKey");
        assert(s[0].0@[0] != s[1].0@[0]);
        lemma_lookup_at(s, 0);
        lemma_lookup_at(s, 1);
        lemma_tile_key_json_round_trip(s[1].1, k.tile_key);
        lemma_position_names(k.building_position);
    }
}

/// A harbor key written as JSON reads back as the same key.
pub proof fn lemma_harbor_key_json_round_trip(v: JsonValue, k: HarborKey)
    requires
        is_harbor_key_json(v, k),
    ensures
        harbor_key_of(v) == Some(k),
{
    if let JsonValue::Object(m) = v {
        let s = m@;
        reveal_strlit("TileKey");
        reveal_strlit("Position");
        assert(s[0].0@[0] != s[1].0@[0]);
        lemma_lookup_at(s, 0);
        lemma_lookup_at(s, 1);
        lemma_tile_key_json_round_trip(s[0].1, k.tile_key);
        lemma_direction_names(k.position);
    }
}

/// A harbor written as JSON reads back as the same harbor.
pub proof fn lemma_harbor_json_round_trip(v: JsonValue, h: Harbor)
    requires
        is_harbor_json(v, h),
    ensures
        harbor_of(v) == Some(h),
{
    if let JsonValue::Object(m) = v {
        let s = m@;
        reveal_strlit("harborKey");
        reveal_strlit("harborType");
        assert(s[0].0@ != s[1].0@) by {
            assert(s[0].0@.len() == 9 && s[1].0@.len() == 10);
        }
        lemma_lookup_at(s, 0);
        lemma_lookup_at(s, 1);
        lemma_harbor_key_json_round_trip(s[0].1, h.harbor_key);
        lemma_harbor_type_names(h.harbor_type);
    }
}

} // verus!
