use vstd::prelude::*;
use crate::game_info::RegularGameInfo;
use crate::tiles::{Tile, TileKey, TileResource};

verus! {

/// The index of the middle column.
pub open spec fn mid_column(rows: Seq<u32>) -> int {
    rows.len() as int / 2
}

/// The q coordinate of the first column: minus half the height of the middle column.
pub open spec fn first_q(rows: Seq<u32>) -> int {
    -((rows[mid_column(rows)] as int) / 2)
}

/// The r coordinate of the first tile of column `col`: 0 for the first column, then
/// one less for each column up to the middle one, and minus the middle index after it.
pub open spec fn column_start_r(rows: Seq<u32>, col: int) -> int {
    if col == 0 {
        0
    } else if col - 1 < mid_column(rows) {
        -col
    } else {
        -mid_column(rows)
    }
}

/// The key of the tile in row `row` of column `col`.
pub open spec fn layout_key(rows: Seq<u32>, col: int, row: int) -> TileKey {
    let q = first_q(rows) + col;
    let r = column_start_r(rows, col) + row;
    TileKey { q: q as i32, r: r as i32, s: (-q - r) as i32 }
}

/// The keys of column `col`, top to bottom.
pub open spec fn column_keys(rows: Seq<u32>, col: int) -> Seq<TileKey> {
    Seq::new(rows[col] as nat, |row: int| layout_key(rows, col, row))
}

/// The keys of the first `c` columns, column after column.
pub open spec fn layout_keys_upto(rows: Seq<u32>, c: int) -> Seq<TileKey>
    decreases c,
{
    if c <= 0 {
        Seq::empty()
    } else {
        layout_keys_upto(rows, c - 1) + column_keys(rows, c - 1)
    }
}

/// The keys of a board with the given column heights, column after column.
pub open spec fn layout_keys(rows: Seq<u32>) -> Seq<TileKey> {
    layout_keys_upto(rows, rows.len() as int)
}

/// Column heights that a board can be laid out from without overflow.
pub open spec fn rows_ok(rows: Seq<u32>) -> bool {
    &&& 1 <= rows.len() <= 1000
    &&& forall|i: int| 0 <= i < rows.len() ==> #[trigger] rows[i] <= 1000
}

/// The laying out of column `col` keeps every coordinate within `i32`: its q, its rows'
/// r (counting up one past the last row) and s (counting down one past the last row),
/// and the next column's q and first s.
pub open spec fn column_fits(rows: Seq<u32>, col: int) -> bool {
    let q = first_q(rows) + col;
    let r0 = column_start_r(rows, col);
    &&& q + 1 <= i32::MAX
    &&& r0 + rows[col] <= i32::MAX
    &&& -r0 - q <= i32::MAX
    &&& -r0 - q - rows[col] >= i32::MIN
    &&& i32::MIN <= -column_start_r(rows, col + 1) - (q + 1) <= i32::MAX
}

/// Column heights that a board can be laid out from without overflow: at least one
/// column, at most `i32::MAX` tiles (the count of tiles laid so far is an `i32`), and
/// every column's coordinates within `i32`.
pub open spec fn layout_fits(rows: Seq<u32>) -> bool {
    &&& rows.len() >= 1
    &&& layout_keys(rows).len() <= i32::MAX
    &&& forall|col: int| 0 <= col < rows.len() ==> #[trigger] column_fits(rows, col)
}

/// A game description whose board can be laid out: column heights that fit and a
/// resource and a roll number for every tile.
pub open spec fn info_ok(info: RegularGameInfo) -> bool {
    &&& layout_fits(info.rows_per_column@)
    &&& layout_keys(info.rows_per_column@).len() <= info.tile_resources@.len()
    &&& layout_keys(info.rows_per_column@).len() <= info.rolls@.len()
}

/// A tile just laid out: the key, roll and resource given, no roads, no buildings.
pub open spec fn fresh_tile(t: Tile, key: TileKey, resource: TileResource, roll: u32) -> bool {
    &&& t.key == key
    &&& t.current_resource == resource
    &&& t.original_resource == resource
    &&& t.roll == roll
    &&& t.roads@.len() == 0
    &&& t.owned_buildings@.len() == 0
}

/// The tiles laid out from a game description: one per key of the layout, the i-th with
/// the i-th resource and the i-th roll number.
pub open spec fn laid_out(tiles: Seq<Tile>, info: RegularGameInfo) -> bool {
    let keys = layout_keys(info.rows_per_column@);
    &&& tiles.len() == keys.len()
    &&& forall|i: int| 0 <= i < tiles.len() ==>
        fresh_tile(#[trigger] tiles[i], keys[i], info.tile_resources@[i], info.rolls@[i])
}

pub proof fn lemma_layout_len_monotone(rows: Seq<u32>, a: int, b: int)
    requires
        0 <= a <= b,
    ensures
        layout_keys_upto(rows, a).len() <= layout_keys_upto(rows, b).len(),
    decreases b,
{
    if a < b {
        lemma_layout_len_monotone(rows, a, b - 1);
    }
}

proof fn lemma_layout_len_bound(rows: Seq<u32>, c: int)
    requires
        rows_ok(rows),
        0 <= c <= rows.len(),
    ensures
        layout_keys_upto(rows, c).len() <= 1000 * c,
    decreases c,
{
    if c > 0 {
        lemma_layout_len_bound(rows, c - 1);
    }
}

/// A column is no taller than the whole layout.
proof fn lemma_column_within_layout(rows: Seq<u32>, c: int)
    requires
        0 <= c < rows.len(),
    ensures
        rows[c] <= layout_keys(rows).len(),
{
    assert(layout_keys_upto(rows, c + 1) == layout_keys_upto(rows, c) + column_keys(rows, c));
    lemma_layout_len_monotone(rows, c + 1, rows.len() as int);
}

/// Small column heights fit.
pub proof fn lemma_rows_ok_fit(rows: Seq<u32>)
    requires
        rows_ok(rows),
    ensures
        layout_fits(rows),
{
    lemma_layout_len_bound(rows, rows.len() as int);
    let m = mid_column(rows);
    assert(rows[m] <= 1000);
    assert forall|col: int| 0 <= col < rows.len() implies #[trigger] column_fits(rows, col) by {
        assert(rows[col] <= 1000);
    }
}

/// The coordinates of a layout key are within a few thousand of zero.
pub proof fn lemma_layout_key_bounds(rows: Seq<u32>, col: int, row: int)
    requires
        rows_ok(rows),
        0 <= col < rows.len(),
        0 <= row < rows[col],
    ensures
        layout_key(rows, col, row).in_range(),
        layout_key(rows, col, row).q == first_q(rows) + col,
        layout_key(rows, col, row).r == column_start_r(rows, col) + row,
        -600 <= first_q(rows) <= 0,
        layout_key(rows, col, row).q + layout_key(rows, col, row).r + layout_key(rows, col, row).s == 0,
        -3000 <= layout_key(rows, col, row).q <= 3000,
        -3000 <= layout_key(rows, col, row).r <= 3000,
        -3000 <= layout_key(rows, col, row).s <= 3000,
{
    let m = mid_column(rows);
    assert(0 <= m < rows.len());
    assert(rows[m] <= 1000);
}

/// The keys of a layout are all different from one another.
pub proof fn lemma_layout_keys_distinct(rows: Seq<u32>)
    requires
        rows_ok(rows),
    ensures
        forall|i: int, j: int| 0 <= i < j < layout_keys(rows).len()
            ==> layout_keys(rows)[i] != layout_keys(rows)[j],
        forall|i: int| 0 <= i < layout_keys(rows).len() ==> (#[trigger] layout_keys(rows)[i]).in_range(),
{
    lemma_layout_distinct_upto(rows, rows.len() as int);
}

proof fn lemma_layout_distinct_upto(rows: Seq<u32>, c: int)
    requires
        rows_ok(rows),
        0 <= c <= rows.len(),
    ensures
        forall|i: int, j: int| 0 <= i < j < layout_keys_upto(rows, c).len()
            ==> layout_keys_upto(rows, c)[i] != layout_keys_upto(rows, c)[j],
        forall|i: int| 0 <= i < layout_keys_upto(rows, c).len() ==> {
            let k = #[trigger] layout_keys_upto(rows, c)[i];
            &&& k.in_range()
            &&& first_q(rows) <= k.q < first_q(rows) + c
        },
    decreases c,
{
    if c > 0 {
        lemma_layout_distinct_upto(rows, c - 1);
        let prev = layout_keys_upto(rows, c - 1);
        let col = column_keys(rows, c - 1);
        let all = layout_keys_upto(rows, c);
        assert(all == prev + col);
        assert forall|i: int| 0 <= i < all.len() implies {
            let k = #[trigger] all[i];
            &&& k.in_range()
            &&& first_q(rows) <= k.q < first_q(rows) + c
        } by {
            if i < prev.len() {
                assert(all[i] == prev[i]);
            } else {
                let row = i - prev.len();
                assert(all[i] == layout_key(rows, c - 1, row));
                lemma_layout_key_bounds(rows, c - 1, row);
            }
        }
        assert forall|i: int, j: int| 0 <= i < j < all.len() implies all[i] != all[j] by {
            if j < prev.len() {
                assert(all[i] == prev[i] && all[j] == prev[j]);
            } else if i < prev.len() {
                let row = j - prev.len();
                assert(all[j] == layout_key(rows, c - 1, row));
                lemma_layout_key_bounds(rows, c - 1, row);
                assert(all[i] == prev[i]);
                assert(prev[i].q < first_q(rows) + c - 1);
            } else {
                let ri = i - prev.len();
                let rj = j - prev.len();
                assert(all[i] == layout_key(rows, c - 1, ri));
                assert(all[j] == layout_key(rows, c - 1, rj));
                lemma_layout_key_bounds(rows, c - 1, ri);
                lemma_layout_key_bounds(rows, c - 1, rj);
            }
        }
    }
}

/// Lays the tiles out column after column, top to bottom, each with the next resource
/// and the next roll number of the description.
pub fn setup_tiles(game_info: &RegularGameInfo) -> (tiles: Vec<Tile>)
    requires
        info_ok(*game_info),
    ensures
        laid_out(tiles@, *game_info),
{
    let rows = &game_info.rows_per_column;
    let ghost rs = rows@;
    let ghost total = layout_keys(rs).len();
    let mut tiles: Vec<Tile> = Vec::new();
    let mid_col = rows.len() / 2;
    proof {
        lemma_column_within_layout(rs, mid_col as int);
        assert(column_fits(rs, rs.len() - 1));
    }
    let mut q: i32 = -1 * ((rows[mid_col] as i32) / 2);
    let mut r: i32 = 0;
    let mut s: i32 = -r - q;
    let mut index: usize = 0;
    let columns = rows.len();
    let mut col: usize = 0;
    while col < columns
        invariant
            rs == game_info.rows_per_column@,
            rows@ == rs,
            info_ok(*game_info),
            total == layout_keys(rs).len(),
            columns == rs.len(),
            mid_col == mid_column(rs),
            mid_col < i32::MAX,
            col <= columns,
            q == first_q(rs) + col,
            r == column_start_r(rs, col as int),
            s == -q - r,
            index == layout_keys_upto(rs, col as int).len(),
            tiles@.len() == index,
            forall|i: int| 0 <= i < index ==> fresh_tile(#[trigger] tiles@[i],
                layout_keys_upto(rs, col as int)[i], game_info.tile_resources@[i], game_info.rolls@[i]),
        decreases columns - col,
    {
        let nrows = rows[col];
        let ghost before = layout_keys_upto(rs, col as int);
        let ghost r0 = r as int;
        proof {
            assert(column_fits(rs, col as int));
            lemma_layout_len_monotone(rs, col + 1, columns as int);
            assert(layout_keys_upto(rs, col + 1) == before + column_keys(rs, col as int));
        }
        let mut row: u32 = 0;
        while row < nrows
            invariant
                rs == game_info.rows_per_column@,
                rows@ == rs,
                info_ok(*game_info),
                columns == rs.len(),
                col < columns,
                column_fits(rs, col as int),
                nrows == rs[col as int],
                row <= nrows,
                q == first_q(rs) + col,
                r0 == column_start_r(rs, col as int),
                r == r0 + row,
                s == -q - r,
                before == layout_keys_upto(rs, col as int),
                index == before.len() + row,
                index + (nrows - row) <= layout_keys(rs).len(),
                layout_keys(rs).len() <= game_info.tile_resources@.len(),
                layout_keys(rs).len() <= game_info.rolls@.len(),
                tiles@.len() == index,
                forall|i: int| 0 <= i < index ==> fresh_tile(#[trigger] tiles@[i],
                    (before + column_keys(rs, col as int))[i], game_info.tile_resources@[i],
                    game_info.rolls@[i]),
            decreases nrows - row,
        {
            let tile_key = TileKey::new(q, r, s);
            assert(tile_key == layout_key(rs, col as int, row as int));
            assert(index < game_info.tile_resources.len());
            let resource = game_info.tile_resources[index];
            let roll = game_info.rolls[index];
            let tile = Tile::new(tile_key, roll, resource);
            tiles.push(tile);
            assert((before + column_keys(rs, col as int))[index as int] == tile_key);
            index = index + 1;
            r = r + 1;
            s = s - 1;
            row = row + 1;
        }
        q = q + 1;
        if col < mid_col {
            r = -((col as i32) + 1);
        } else {
            r = -(mid_col as i32);
        }
        s = -r - q;
        col = col + 1;
        assert(layout_keys_upto(rs, col as int) == before + column_keys(rs, (col - 1) as int));
    }
    tiles
}

} // verus!

verus! {

use crate::roads::{Road, RoadKey};
use crate::tiles::{all_directions, get_neighbor_direction, find_tile, tile_keys, Direction};

/// The keys of a board are all different.
pub open spec fn keys_distinct(tiles: Seq<Tile>) -> bool {
    forall|i: int, j: int| 0 <= i < j < tiles.len() ==> tiles[i].key != tiles[j].key
}

/// The keys of a board are all different and can step to a neighbour without overflow.
pub open spec fn keys_ok(tiles: Seq<Tile>) -> bool {
    &&& keys_distinct(tiles)
    &&& forall|i: int| 0 <= i < tiles.len() ==> (#[trigger] tiles[i]).key.in_range()
}

/// The tile has a road on side `d`.
pub open spec fn tile_has_road(t: Tile, d: Direction) -> bool {
    exists|i: int| 0 <= i < t.roads@.len() && (#[trigger] t.roads@[i]).0 == d
}

/// Each road of the tile is a fresh road keyed by the tile and its side, one per side.
pub open spec fn tile_roads_ok(t: Tile) -> bool {
    &&& forall|i: int| 0 <= i < t.roads@.len() ==>
        (#[trigger] t.roads@[i]).1.is_fresh(RoadKey { tile_key: t.key, direction: t.roads@[i].0 })
    &&& forall|i: int, j: int| 0 <= i < j < t.roads@.len() ==> t.roads@[i].0 != t.roads@[j].0
}

/// The two tiles agree on everything but their roads.
pub open spec fn same_but_roads(a: Tile, b: Tile) -> bool {
    &&& a.key == b.key
    &&& a.current_resource == b.current_resource
    &&& a.original_resource == b.original_resource
    &&& a.roll == b.roll
    &&& a.owned_buildings@ == b.owned_buildings@
}

/// The keys of a list of roads.
pub open spec fn road_keys(roads: Seq<Road>) -> Seq<RoadKey> {
    roads.map_values(|r: Road| r.primary_key)
}

/// The roads of the tiles and the list of all roads agree: every road of a tile is
/// listed, every listed road belongs to a tile, no key is listed twice, and every road
/// is fresh.
pub open spec fn roads_consistent(tiles: Seq<Tile>, roads: Seq<Road>) -> bool {
    &&& forall|k: int| 0 <= k < tiles.len() ==> tile_roads_ok(#[trigger] tiles[k])
    &&& forall|j: int| 0 <= j < roads.len() ==> {
        let key = (#[trigger] roads[j]).primary_key;
        &&& roads[j].is_fresh(key)
        &&& exists|k: int| 0 <= k < tiles.len() && (#[trigger] tiles[k]).key == key.tile_key
            && tile_has_road(tiles[k], key.direction)
    }
    &&& forall|k: int, d: Direction| 0 <= k < tiles.len() && #[trigger] tile_has_road(tiles[k], d)
        ==> road_keys(roads).contains(RoadKey { tile_key: tiles[k].key, direction: d })
    &&& forall|a: int, b: int| 0 <= a < b < roads.len() ==> roads[a].primary_key != roads[b].primary_key
}

/// Every tile has a road on each of its six sides, and the list of roads holds exactly
/// the roads of the tiles, each once.
pub open spec fn roads_laid(tiles: Seq<Tile>, roads: Seq<Road>) -> bool {
    &&& roads_consistent(tiles, roads)
    &&& forall|k: int, d: Direction| 0 <= k < tiles.len() ==> #[trigger] tile_has_road(tiles[k], d)
}

fn tile_has_road_exec(t: &Tile, d: Direction) -> (res: bool)
    ensures
        res == tile_has_road(*t, d),
{
    let mut i: usize = 0;
    while i < t.roads.len()
        invariant
            i <= t.roads@.len(),
            forall|j: int| 0 <= j < i ==> t.roads@[j].0 != d,
        decreases t.roads.len() - i,
    {
        if t.roads[i].0 == d {
            assert(t.roads@[i as int].0 == d);
            return true;
        }
        i = i + 1;
    }
    false
}

fn add_road(tiles: &mut Vec<Tile>, roads: &mut Vec<Road>, m: usize, d: Direction)
    requires
        m < old(tiles)@.len(),
        keys_ok(old(tiles)@),
        roads_consistent(old(tiles)@, old(roads)@),
        !tile_has_road(old(tiles)@[m as int], d),
    ensures
        final(tiles)@.len() == old(tiles)@.len(),
        forall|k: int| 0 <= k < final(tiles)@.len() ==> same_but_roads(#[trigger] final(tiles)@[k], old(tiles)@[k]),
        keys_ok(final(tiles)@),
        roads_consistent(final(tiles)@, final(roads)@),
        tile_has_road(final(tiles)@[m as int], d),
        forall|k: int, e: Direction| 0 <= k < final(tiles)@.len() && tile_has_road(old(tiles)@[k], e)
            ==> #[trigger] tile_has_road(final(tiles)@[k], e),
{
    let ghost t0 = tiles@;
    let ghost r0 = roads@;
    let key = RoadKey::new(d, tiles[m].key);
    let road = Road::new(key);
    let ghost g = road;
    tiles[m].roads.push((d, road));
    roads.push(Road::new(key));
    let ghost t1 = tiles@;
    let ghost r1 = roads@;
    assert forall|k: int| 0 <= k < t1.len() implies same_but_roads(#[trigger] t1[k], t0[k]) by {}
    assert(t1[m as int].roads@ == t0[m as int].roads@.push((d, g)));
    assert(t1[m as int].roads@[t0[m as int].roads@.len() as int].0 == d);
    assert forall|k: int, e: Direction| 0 <= k < t1.len() && tile_has_road(t0[k], e)
        implies #[trigger] tile_has_road(t1[k], e) by {
        if k == m {
            let i = choose|i: int| 0 <= i < t0[k].roads@.len() && t0[k].roads@[i].0 == e;
            assert(t1[k].roads@[i] == t0[k].roads@[i]);
        }
    }
    assert forall|k: int| 0 <= k < t1.len() implies tile_roads_ok(#[trigger] t1[k]) by {
        if k == m {
            assert forall|i: int, j: int| 0 <= i < j < t1[k].roads@.len() implies t1[k].roads@[i].0 != t1[k].roads@[j].0 by {
                if j == t0[k].roads@.len() {
                    assert(t1[k].roads@[i] == t0[k].roads@[i]);
                }
            }
        }
    }
    assert forall|j: int| 0 <= j < r1.len() implies {
        let rk = (#[trigger] r1[j]).primary_key;
        &&& r1[j].is_fresh(rk)
        &&& exists|k: int| 0 <= k < t1.len() && (#[trigger] t1[k]).key == rk.tile_key
            && tile_has_road(t1[k], rk.direction)
    } by {
        if j < r0.len() {
            assert(r1[j] == r0[j]);
            let rk = r0[j].primary_key;
            let k = choose|k: int| 0 <= k < t0.len() && (#[trigger] t0[k]).key == rk.tile_key
                && tile_has_road(t0[k], rk.direction);
            assert(tile_has_road(t1[k], rk.direction));
            assert(t1[k].key == rk.tile_key);
        } else {
            assert(t1[m as int].key == key.tile_key);
            assert(tile_has_road(t1[m as int], d));
        }
    }
    assert forall|k: int, e: Direction| 0 <= k < t1.len() && #[trigger] tile_has_road(t1[k], e)
        implies road_keys(r1).contains(RoadKey { tile_key: t1[k].key, direction: e }) by {
        let want = RoadKey { tile_key: t1[k].key, direction: e };
        if k == m && e == d {
            assert(road_keys(r1)[r0.len() as int] == want);
        } else {
            if k == m {
                let i = choose|i: int| 0 <= i < t1[k].roads@.len() && t1[k].roads@[i].0 == e;
                assert(i < t0[k].roads@.len());
                assert(t0[k].roads@[i] == t1[k].roads@[i]);
                assert(tile_has_road(t0[k], e));
            } else {
                assert(t1[k] == t0[k]);
            }
            let x = choose|x: int| 0 <= x < road_keys(r0).len() && road_keys(r0)[x] == want;
            assert(road_keys(r1)[x] == want);
        }
    }
    assert forall|a: int, b: int| 0 <= a < b < r1.len() implies r1[a].primary_key != r1[b].primary_key by {
        if b == r0.len() {
            let ka = r0[a].primary_key;
            assert(r1[a] == r0[a]);
            if ka == key {
                let k = choose|k: int| 0 <= k < t0.len() && (#[trigger] t0[k]).key == ka.tile_key
                    && tile_has_road(t0[k], ka.direction);
                assert(t0[k].key == t0[m as int].key);
                assert(k == m);
            }
        } else {
            assert(r1[a] == r0[a] && r1[b] == r0[b]);
        }
    }
}

/// Puts a fresh road on every side of every tile that has none yet, and on the facing
/// side of each neighbouring tile, and lists every road once.
pub fn setup_roads(tiles: &mut Vec<Tile>) -> (roads: Vec<Road>)
    requires
        keys_ok(old(tiles)@),
        forall|k: int| 0 <= k < old(tiles)@.len() ==> (#[trigger] old(tiles)@[k]).roads@.len() == 0,
    ensures
        final(tiles)@.len() == old(tiles)@.len(),
        forall|k: int| 0 <= k < final(tiles)@.len() ==> same_but_roads(#[trigger] final(tiles)@[k], old(tiles)@[k]),
        roads_laid(final(tiles)@, roads@),
{
    let ghost t0 = tiles@;
    let mut roads: Vec<Road> = Vec::new();
    let n = tiles.len();
    let dirs = Direction::all();
    assert forall|k: int, d: Direction| 0 <= k < tiles@.len() && #[trigger] tile_has_road(tiles@[k], d)
        implies road_keys(roads@).contains(RoadKey { tile_key: tiles@[k].key, direction: d }) by {
        let i = choose|i: int| 0 <= i < tiles@[k].roads@.len() && (#[trigger] tiles@[k].roads@[i]).0 == d;
    }
    let mut i: usize = 0;
    while i < n
        invariant
            n == tiles@.len(),
            n == t0.len(),
            dirs@ == all_directions(),
            i <= n,
            keys_ok(tiles@),
            forall|k: int| 0 <= k < n ==> same_but_roads(#[trigger] tiles@[k], t0[k]),
            roads_consistent(tiles@, roads@),
            forall|k: int, d: Direction| 0 <= k < i ==> #[trigger] tile_has_road(tiles@[k], d),
        decreases n - i,
    {
        let tile_key = tiles[i].key;
        let mut di: usize = 0;
        while di < 6
            invariant
                n == tiles@.len(),
                n == t0.len(),
                dirs@ == all_directions(),
                i < n,
                di <= 6,
                tile_key == tiles@[i as int].key,
                keys_ok(tiles@),
                forall|k: int| 0 <= k < n ==> same_but_roads(#[trigger] tiles@[k], t0[k]),
                roads_consistent(tiles@, roads@),
                forall|k: int, d: Direction| 0 <= k < i ==> #[trigger] tile_has_road(tiles@[k], d),
                forall|x: int| 0 <= x < di ==> tile_has_road(tiles@[i as int], #[trigger] all_directions()[x]),
            decreases 6 - di,
        {
            let direction = dirs[di];
            let ghost before = tiles@;
            if !tile_has_road_exec(&tiles[i], direction) {
                add_road(tiles, &mut roads, i, direction);
            }
            let neighbor_key = tile_key.get_neighbor_key(direction);
            let neighbor_direction = get_neighbor_direction(direction);
            match find_tile(tiles, &neighbor_key) {
                Some(j) => {
                    if !tile_has_road_exec(&tiles[j], neighbor_direction) {
                        add_road(tiles, &mut roads, j, neighbor_direction);
                    }
                },
                None => {},
            }
            di = di + 1;
        }
        proof {
            assert forall|d: Direction| #[trigger] tile_has_road(tiles@[i as int], d) by {
                match d {
                    Direction::North => assert(all_directions()[0] == d),
                    Direction::NorthEast => assert(all_directions()[1] == d),
                    Direction::SouthEast => assert(all_directions()[2] == d),
                    Direction::South => assert(all_directions()[3] == d),
                    Direction::SouthWest => assert(all_directions()[4] == d),
                    Direction::NorthWest => assert(all_directions()[5] == d),
                }
            }
        }
        i = i + 1;
    }
    roads
}

} // verus!

verus! {

use crate::buildings::{all_building_positions, Building, BuildingKey, BuildingPosition, BuildingState};
use vstd::arithmetic::div_mod::lemma_fundamental_div_mod_converse;

/// The key of the m-th corner visited: corners are visited tile by tile, six per tile
/// in corner order.
pub open spec fn corner_key(tiles: Seq<Tile>, m: int) -> BuildingKey {
    BuildingKey { building_position: all_building_positions()[m % 6], tile_key: tiles[m / 6].key }
}

/// The keys of the first `m` corners visited.
pub open spec fn visited_corners(tiles: Seq<Tile>, m: int) -> Seq<BuildingKey> {
    Seq::new(m as nat, |x: int| corner_key(tiles, x))
}

/// A corner key that was not visited among the first `m`.
pub open spec fn not_visited(tiles: Seq<Tile>, m: int) -> spec_fn(BuildingKey) -> bool {
    |a: BuildingKey| !visited_corners(tiles, m).contains(a)
}

/// The keys of the m-th corner as seen from neighbouring tiles on the board, leaving
/// out those that were visited before it.
pub open spec fn new_aliases(tiles: Seq<Tile>, m: int) -> Seq<BuildingKey> {
    corner_key(tiles, m).adjacent_keys(tile_keys(tiles)).filter(not_visited(tiles, m))
}

/// The building made for the m-th corner visited.
pub open spec fn corner_building_ok(tiles: Seq<Tile>, b: Building, m: int) -> bool {
    &&& b.building_key == corner_key(tiles, m)
    &&& b.aliases@ == seq![corner_key(tiles, m)] + new_aliases(tiles, m)
    &&& b.connected_tiles@ == new_aliases(tiles, m).map_values(|a: BuildingKey| a.tile_key)
    &&& b.pip_count == 0
    &&& b.owner_id is None
    &&& b.state == BuildingState::Empty
}

/// One empty building per corner of every tile, in visiting order: each keyed by its
/// corner, aliased by its keys from the neighbouring tiles that were not visited before.
pub open spec fn buildings_laid(tiles: Seq<Tile>, buildings: Seq<Building>) -> bool {
    &&& buildings.len() == 6 * tiles.len()
    &&& forall|m: int| 0 <= m < buildings.len() ==> corner_building_ok(tiles, #[trigger] buildings[m], m)
}

proof fn lemma_corner_index(i: int, p: int)
    requires
        i >= 0,
        0 <= p < 6,
    ensures
        (6 * i + p) / 6 == i,
        (6 * i + p) % 6 == p,
{
    lemma_fundamental_div_mod_converse(6 * i + p, 6, i, p);
}

proof fn lemma_corner_keys_distinct(tiles: Seq<Tile>, x: int, m: int)
    requires
        keys_ok(tiles),
        0 <= x < m < 6 * tiles.len(),
    ensures
        corner_key(tiles, x) != corner_key(tiles, m),
{
    vstd::arithmetic::div_mod::lemma_fundamental_div_mod(x, 6);
    vstd::arithmetic::div_mod::lemma_fundamental_div_mod(m, 6);
    assert(0 <= x % 6 < 6 && 0 <= m % 6 < 6) by {
        vstd::arithmetic::div_mod::lemma_mod_bound(x, 6);
        vstd::arithmetic::div_mod::lemma_mod_bound(m, 6);
    }
    assert(0 <= x / 6 && m / 6 < tiles.len()) by {
        vstd::arithmetic::div_mod::lemma_div_pos_is_pos(x, 6);
        vstd::arithmetic::div_mod::lemma_div_is_ordered(m, 6 * tiles.len() - 1, 6);
        lemma_corner_index(tiles.len() - 1, 5);
    }
    if corner_key(tiles, x) == corner_key(tiles, m) {
        if x / 6 != m / 6 {
            if x / 6 < m / 6 {
                assert(tiles[x / 6].key != tiles[m / 6].key);
            } else {
                assert(tiles[m / 6].key != tiles[x / 6].key);
            }
        }
        assert(x % 6 == m % 6);
    }
}

fn corner_visited(buildings: &Vec<Building>, key: &BuildingKey, Ghost(tiles): Ghost<Seq<Tile>>) -> (res: bool)
    requires
        forall|x: int| 0 <= x < buildings@.len() ==> (#[trigger] buildings@[x]).building_key == corner_key(tiles, x),
    ensures
        res == visited_corners(tiles, buildings@.len() as int).contains(*key),
{
    let ghost placed = visited_corners(tiles, buildings@.len() as int);
    let mut i: usize = 0;
    while i < buildings.len()
        invariant
            i <= buildings@.len(),
            placed == visited_corners(tiles, buildings@.len() as int),
            forall|x: int| 0 <= x < buildings@.len() ==> (#[trigger] buildings@[x]).building_key == corner_key(tiles, x),
            forall|x: int| 0 <= x < i ==> placed[x] != *key,
        decreases buildings.len() - i,
    {
        if buildings[i].building_key == *key {
            assert(placed[i as int] == *key);
            return true;
        }
        i = i + 1;
    }
    false
}

/// Makes one empty building for each corner of each tile, keyed by the corner and
/// aliased by the keys of the same corner from neighbouring tiles that were not yet
/// visited, with those tiles as its connected tiles.
pub fn setup_buildings(tiles: &Vec<Tile>) -> (buildings: Vec<Building>)
    requires
        keys_ok(tiles@),
        6 * tiles@.len() <= usize::MAX,
    ensures
        buildings_laid(tiles@, buildings@),
{
    let ghost ts = tiles@;
    let mut buildings: Vec<Building> = Vec::new();
    let positions = BuildingPosition::all();
    let n = tiles.len();
    let mut i: usize = 0;
    while i < n
        invariant
            ts == tiles@,
            n == ts.len(),
            6 * n <= usize::MAX,
            keys_ok(ts),
            positions@ == all_building_positions(),
            i <= n,
            buildings@.len() == 6 * i,
            forall|m: int| 0 <= m < buildings@.len() ==> corner_building_ok(ts, #[trigger] buildings@[m], m),
        decreases n - i,
    {
        let mut p: usize = 0;
        while p < 6
            invariant
                ts == tiles@,
                n == ts.len(),
                6 * n <= usize::MAX,
                keys_ok(ts),
                positions@ == all_building_positions(),
                i < n,
                p <= 6,
                buildings@.len() == 6 * i + p,
                forall|m: int| 0 <= m < buildings@.len() ==> corner_building_ok(ts, #[trigger] buildings@[m], m),
            decreases 6 - p,
        {
            let ghost m: int = 6 * i + p;
            proof { lemma_corner_index(i as int, p as int); }
            let building_key = BuildingKey::new(positions[p], tiles[i].key);
            assert(building_key == corner_key(ts, m));
            if !corner_visited(&buildings, &building_key, Ghost(ts)) {
                let mut connected_tiles: Vec<TileKey> = Vec::new();
                let mut aliases: Vec<BuildingKey> = Vec::new();
                aliases.push(building_key);
                assert(ts[i as int].key.in_range());
                let adjacent = building_key.get_adjacent_building_keys(tiles);
                let ghost adj = adjacent@;
                let ghost pred = not_visited(ts, m);
                let mut x: usize = 0;
                while x < adjacent.len()
                    invariant
                        ts == tiles@,
                        adjacent@ == adj,
                        adj == corner_key(ts, m).adjacent_keys(tile_keys(ts)),
                        pred == not_visited(ts, m),
                        buildings@.len() == m,
                        forall|y: int| 0 <= y < buildings@.len() ==> (#[trigger] buildings@[y]).building_key == corner_key(ts, y),
                        x <= adjacent@.len(),
                        aliases@ == seq![building_key] + adj.take(x as int).filter(pred),
                        connected_tiles@ == adj.take(x as int).filter(pred).map_values(|a: BuildingKey| a.tile_key),
                    decreases adjacent.len() - x,
                {
                    let a = adjacent[x];
                    proof {
                        assert(adj.take(x + 1) =~= adj.take(x as int).push(a));
                        adj.take(x as int).lemma_filter_push(a, pred);
                    }
                    if !corner_visited(&buildings, &a, Ghost(ts)) {
                        connected_tiles.push(a.tile_key);
                        aliases.push(a);
                        assert(aliases@ =~= seq![building_key] + adj.take(x + 1).filter(pred));
                        assert(connected_tiles@ =~= adj.take(x + 1).filter(pred).map_values(|a: BuildingKey| a.tile_key));
                    }
                    x = x + 1;
                }
                assert(adj.take(adj.len() as int) =~= adj);
                let building = Building::new(connected_tiles, aliases, 0, None);
                buildings.push(building);
            } else {
                proof {
                    let y = choose|y: int| 0 <= y < visited_corners(ts, m).len() && visited_corners(ts, m)[y] == building_key;
                    lemma_corner_keys_distinct(ts, y, m);
                }
            }
            p = p + 1;
        }
        i = i + 1;
    }
    buildings
}

} // verus!
