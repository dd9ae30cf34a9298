use vstd::prelude::*;
use crate::board::{keys_distinct, tile_has_road};
use crate::random::{apply_swaps, shuffle_vector, valid_draws};
use crate::tiles::{Tile, TileKey, TileResource, find_tile};

verus! {

/// The resources the tiles show, in board order.
pub open spec fn resources_of(tiles: Seq<Tile>) -> Seq<TileResource> {
    tiles.map_values(|t: Tile| t.current_resource)
}

/// The roll numbers of the tiles, in board order.
pub open spec fn rolls_of(tiles: Seq<Tile>) -> Seq<u32> {
    tiles.map_values(|t: Tile| t.roll)
}

/// Tile `d` is the only desert.
pub open spec fn only_desert_at(tiles: Seq<Tile>, d: int) -> bool {
    &&& 0 <= d < tiles.len()
    &&& tiles[d].current_resource == TileResource::Desert
    &&& forall|k: int| 0 <= k < tiles.len() && k != d ==> (#[trigger] tiles[k]).current_resource != TileResource::Desert
}

/// Tile `s` is the only one with the roll number 7.
pub open spec fn only_seven_at(tiles: Seq<Tile>, s: int) -> bool {
    &&& 0 <= s < tiles.len()
    &&& tiles[s].roll == 7
    &&& forall|k: int| 0 <= k < tiles.len() && k != s ==> (#[trigger] tiles[k]).roll != 7
}

/// A board that can be shuffled: distinct keys, exactly one desert and exactly one 7.
pub open spec fn shuffle_ready(tiles: Seq<Tile>) -> bool {
    &&& keys_distinct(tiles)
    &&& exists|d: int| only_desert_at(tiles, d)
    &&& exists|s: int| only_seven_at(tiles, s)
}

/// The two tiles are at the same place with the same roads and buildings.
pub open spec fn same_place(a: Tile, b: Tile) -> bool {
    &&& a.key == b.key
    &&& a.roads@ == b.roads@
    &&& a.owned_buildings@ == b.owned_buildings@
}

proof fn lemma_remove_insert_multiset<A>(s: Seq<A>, perm: Seq<A>, i: int)
    requires
        0 <= i < s.len(),
        perm.to_multiset() == s.remove(i).to_multiset(),
    ensures
        perm.insert(i, s[i]).to_multiset() == s.to_multiset(),
        perm.len() == s.len() - 1,
{
    broadcast use vstd::seq_lib::to_multiset_insert, vstd::seq_lib::to_multiset_len;
    vstd::seq_lib::to_multiset_len(perm);
    vstd::seq_lib::to_multiset_len(s.remove(i));
    assert(i <= perm.len());
    vstd::seq_lib::to_multiset_insert(perm, i, s[i]);
    vstd::seq_lib::to_multiset_insert(s.remove(i), i, s[i]);
    assert(s.remove(i).insert(i, s[i]) =~= s);
}

/// A tile that a deal gives a resource and a roll number: neither the desert nor the 7.
pub open spec fn is_dealt(t: Tile) -> bool {
    t.current_resource != TileResource::Desert && t.roll != 7
}

/// How many of the first `j` tiles are dealt.
pub open spec fn dealt_before(tiles: Seq<Tile>, j: int) -> nat
    decreases j,
{
    if j <= 0 {
        0
    } else {
        dealt_before(tiles, j - 1) + if is_dealt(tiles[j - 1]) { 1nat } else { 0nat }
    }
}

/// The tiles after a deal: the k-th dealt tile gets `resources[k]` (as its current and
/// its original resource) and `rolls[k]`; the desert and the 7 stay as they are.
pub open spec fn dealt(tiles: Seq<Tile>, resources: Seq<TileResource>, rolls: Seq<u32>) -> Seq<Tile> {
    Seq::new(
        tiles.len(),
        |j: int|
            if is_dealt(tiles[j]) {
                let i = dealt_before(tiles, j) as int;
                Tile { current_resource: resources[i], original_resource: resources[i], roll: rolls[i], ..tiles[j] }
            } else {
                tiles[j]
            },
    )
}

/// The tiles with the 7 moved to tile `d` and the roll number of `d` given to tile `s`,
/// the tile that had the 7.
pub open spec fn sevens_swapped(tiles: Seq<Tile>, d: int, s: int) -> Seq<Tile> {
    tiles.update(s, Tile { roll: tiles[d].roll, ..tiles[s] }).update(d, Tile { roll: 7, ..tiles[d] })
}

proof fn lemma_dealt_before_grows(tiles: Seq<Tile>, j: int, k: int)
    requires
        0 <= j <= k,
    ensures
        dealt_before(tiles, j) <= dealt_before(tiles, k),
    decreases k,
{
    if j < k {
        lemma_dealt_before_grows(tiles, j, k - 1);
    }
}

proof fn lemma_dealt_before_all_but(tiles: Seq<Tile>, d: int, j: int)
    requires
        0 <= d < tiles.len(),
        0 <= j <= tiles.len(),
        !is_dealt(tiles[d]),
        forall|k: int| 0 <= k < tiles.len() && k != d ==> is_dealt(#[trigger] tiles[k]),
    ensures
        dealt_before(tiles, j) == if j <= d { j } else { j - 1 },
    decreases j,
{
    if j > 0 {
        lemma_dealt_before_all_but(tiles, d, j - 1);
    }
}

/// Deals resources and roll numbers to the tiles in board order: the k-th tile that is
/// neither the desert nor the 7 gets `resources[k]` and `rolls[k]`.
pub fn deal(tiles: &mut Vec<Tile>, resources: &Vec<TileResource>, rolls: &Vec<u32>)
    requires
        dealt_before(old(tiles)@, old(tiles)@.len() as int) <= resources@.len(),
        dealt_before(old(tiles)@, old(tiles)@.len() as int) <= rolls@.len(),
    ensures
        final(tiles)@ == dealt(old(tiles)@, resources@, rolls@),
{
    let ghost t0 = tiles@;
    let ghost target = dealt(t0, resources@, rolls@);
    let n = tiles.len();
    let mut ri: usize = 0;
    let mut k: usize = 0;
    while k < n
        invariant
            n == t0.len(),
            tiles@.len() == n,
            target == dealt(t0, resources@, rolls@),
            dealt_before(t0, n as int) <= resources@.len(),
            dealt_before(t0, n as int) <= rolls@.len(),
            k <= n,
            ri == dealt_before(t0, k as int),
            forall|j: int| 0 <= j < k ==> #[trigger] tiles@[j] == target[j],
            forall|j: int| k <= j < n ==> #[trigger] tiles@[j] == t0[j],
        decreases n - k,
    {
        proof { lemma_dealt_before_grows(t0, k + 1, n as int); }
        if tiles[k].current_resource == TileResource::Desert || tiles[k].roll == 7 {
        } else {
            assert(ri + 1 == dealt_before(t0, k + 1));
            assert(resources@.len() == resources.len());
            let resource = resources[ri];
            tiles[k].current_resource = resource;
            tiles[k].original_resource = resource;
            tiles[k].roll = rolls[ri];
            ri = ri + 1;
        }
        assert(tiles@[k as int] == target[k as int]);
        k = k + 1;
    }
    assert(tiles@ =~= target);
}

/// `after` is `before` dealt anew: with `d` the desert and `s` the tile with the 7, the 7
/// moves to the desert, `s` gets the desert's roll number, and the resources of the other
/// tiles and their roll numbers, each list shuffled by some Fisher-Yates draws, are dealt
/// in board order to every tile but the desert.
pub open spec fn redealt(before: Seq<Tile>, after: Seq<Tile>) -> bool {
    forall|d: int, s: int|
        #![trigger only_desert_at(before, d), only_seven_at(before, s)]
        only_desert_at(before, d) && only_seven_at(before, s) ==> exists|rd: Seq<usize>, sd: Seq<usize>|
            #![trigger apply_swaps(resources_of(before).remove(d), rd), apply_swaps(rolls_of(before).remove(s), sd)]
            valid_draws((before.len() - 1) as nat, rd) && valid_draws((before.len() - 1) as nat, sd)
            && after == dealt(
                sevens_swapped(before, d, s),
                apply_swaps(resources_of(before).remove(d), rd),
                apply_swaps(rolls_of(before).remove(s), sd),
            )
}

/// Deals the resources and the roll numbers anew: the desert keeps its place and gets the
/// 7, the tile that had the 7 gets the desert's roll number, and then the resources of
/// the other tiles and their roll numbers, each list shuffled by some Fisher-Yates draws,
/// are dealt in board order to every tile but the desert. Which draws come is up to
/// chance; the board as a whole keeps every resource and every roll number as many times
/// as before, and every tile stays in place with its roads and buildings.
pub fn shuffle_tiles(tiles: &mut Vec<Tile>)
    requires
        shuffle_ready(old(tiles)@),
    ensures
        final(tiles)@.len() == old(tiles)@.len(),
        forall|k: int| 0 <= k < final(tiles)@.len() ==> same_place(#[trigger] final(tiles)@[k], old(tiles)@[k]),
        resources_of(final(tiles)@).to_multiset() == resources_of(old(tiles)@).to_multiset(),
        rolls_of(final(tiles)@).to_multiset() == rolls_of(old(tiles)@).to_multiset(),
        forall|d: int| only_desert_at(old(tiles)@, d) ==> only_desert_at(final(tiles)@, d)
            && only_seven_at(final(tiles)@, d)
            && final(tiles)@[d].original_resource == old(tiles)@[d].original_resource,
        forall|k: int| 0 <= k < final(tiles)@.len() && final(tiles)@[k].current_resource != TileResource::Desert
            ==> (#[trigger] final(tiles)@[k]).original_resource == final(tiles)@[k].current_resource,
        shuffle_ready(final(tiles)@),
        redealt(old(tiles)@, final(tiles)@),
{
    let ghost t0 = tiles@;
    let ghost d = choose|d: int| only_desert_at(t0, d);
    let ghost s = choose|s: int| only_seven_at(t0, s);
    let ghost res0 = resources_of(t0);
    let ghost rolls0 = rolls_of(t0);
    let n = tiles.len();

    let mut resources: Vec<TileResource> = Vec::new();
    let mut i: usize = 0;
    while i < n
        invariant
            n == t0.len(),
            tiles@ == t0,
            only_desert_at(t0, d),
            res0 == resources_of(t0),
            i <= n,
            resources@ == if i <= d { res0.take(i as int) } else { res0.take(i as int).remove(d) },
        decreases n - i,
    {
        if tiles[i].current_resource != TileResource::Desert {
            resources.push(tiles[i].current_resource);
            assert(i != d);
        }
        proof {
            if i + 1 <= d {
                assert(res0.take(i + 1) =~= res0.take(i as int).push(res0[i as int]));
            } else if i == d {
                assert(res0.take(i + 1).remove(d) =~= res0.take(i as int));
            } else {
                assert(res0.take(i + 1).remove(d) =~= res0.take(i as int).remove(d).push(res0[i as int]));
            }
        }
        i = i + 1;
    }
    assert(res0.take(n as int) =~= res0);

    let mut rolls: Vec<u32> = Vec::new();
    let mut i: usize = 0;
    while i < n
        invariant
            n == t0.len(),
            tiles@ == t0,
            only_seven_at(t0, s),
            rolls0 == rolls_of(t0),
            i <= n,
            rolls@ == if i <= s { rolls0.take(i as int) } else { rolls0.take(i as int).remove(s) },
        decreases n - i,
    {
        if tiles[i].roll != 7 {
            rolls.push(tiles[i].roll);
            assert(i != s);
        }
        proof {
            if i + 1 <= s {
                assert(rolls0.take(i + 1) =~= rolls0.take(i as int).push(rolls0[i as int]));
            } else if i == s {
                assert(rolls0.take(i + 1).remove(s) =~= rolls0.take(i as int));
            } else {
                assert(rolls0.take(i + 1).remove(s) =~= rolls0.take(i as int).remove(s).push(rolls0[i as int]));
            }
        }
        i = i + 1;
    }
    assert(rolls0.take(n as int) =~= rolls0);

    let resource_draws = shuffle_vector(&mut resources);
    let roll_draws = shuffle_vector(&mut rolls);
    let ghost pres = resources@;
    let ghost prolls = rolls@;
    proof {
        lemma_remove_insert_multiset(res0, pres, d);
        lemma_remove_insert_multiset(rolls0, prolls, s);
    }

    let desert_tile_index = find_desert(tiles);
    let seven_tile_index = find_seven(tiles);
    assert(desert_tile_index == d);
    assert(seven_tile_index == s);

    let desert_roll = tiles[desert_tile_index].roll;
    tiles[seven_tile_index].roll = desert_roll;
    tiles[desert_tile_index].roll = 7;
    let ghost t1 = tiles@;
    assert forall|k: int| 0 <= k < n && k != d implies (#[trigger] t1[k]).roll != 7 by {
        if k == s {
            assert(t1[k].roll == t0[d].roll);
        } else {
            assert(t1[k].roll == t0[k].roll);
        }
    }

    assert(t1 =~= sevens_swapped(t0, d, s));
    assert(!is_dealt(t1[d]));
    assert forall|k: int| 0 <= k < n && k != d implies is_dealt(#[trigger] t1[k]) by {
        assert(t1[k].current_resource == t0[k].current_resource);
    }
    proof {
        lemma_dealt_before_all_but(t1, d, n as int);
    }
    deal(tiles, &resources, &rolls);
    let ghost dealt_tiles = tiles@;
    assert forall|dd: int, ss: int|
        #![trigger only_desert_at(t0, dd), only_seven_at(t0, ss)]
        only_desert_at(t0, dd) && only_seven_at(t0, ss) implies exists|rd: Seq<usize>, sd: Seq<usize>|
            #![trigger apply_swaps(resources_of(t0).remove(dd), rd), apply_swaps(rolls_of(t0).remove(ss), sd)]
            valid_draws((t0.len() - 1) as nat, rd) && valid_draws((t0.len() - 1) as nat, sd)
            && dealt_tiles == dealt(
                sevens_swapped(t0, dd, ss),
                apply_swaps(resources_of(t0).remove(dd), rd),
                apply_swaps(rolls_of(t0).remove(ss), sd),
            ) by {
        if dd != d {
            assert(t0[dd].current_resource != TileResource::Desert);
        }
        if ss != s {
            assert(t0[ss].roll != 7);
        }
        assert(pres == apply_swaps(resources_of(t0).remove(dd), resource_draws@));
        assert(prolls == apply_swaps(rolls_of(t0).remove(ss), roll_draws@));
    }
    assert forall|j: int| 0 <= j < n && j != d implies {
        let r = if j < d { j } else { j - 1 };
        &&& (#[trigger] tiles@[j]).current_resource == pres[r]
        &&& tiles@[j].original_resource == pres[r]
        &&& tiles@[j].roll == prolls[r]
    } by {
        lemma_dealt_before_all_but(t1, d, j);
    }
    assert forall|j: int| 0 <= j < n implies same_place(#[trigger] tiles@[j], t0[j]) by {
        assert(same_place(t1[j], t0[j]));
    }
    let ghost tf = tiles@;
    assert(resources_of(tf) =~= pres.insert(d, res0[d]));
    assert(rolls_of(tf) =~= prolls.insert(d, 7)) by {
        assert forall|j: int| 0 <= j < n implies rolls_of(tf)[j] == prolls.insert(d, 7)[j] by {
            if j == d {
            } else if j < d {
            } else {
            }
        }
    };
    proof {
        vstd::seq_lib::to_multiset_insert(prolls, d, 7u32);
        vstd::seq_lib::to_multiset_insert(prolls, s, 7u32);
    }
    assert forall|j: int| 0 <= j < n && j != d implies (#[trigger] tf[j]).current_resource != TileResource::Desert
        && tf[j].roll != 7 by {
        let r = if j < d { j } else { j - 1 };
        lemma_perm_elem(pres, res0.remove(d), r);
        lemma_perm_elem(prolls, rolls0.remove(s), r);
        let x = choose|x: int| 0 <= x < res0.remove(d).len() && res0.remove(d)[x] == pres[r];
        let y = choose|y: int| 0 <= y < rolls0.remove(s).len() && rolls0.remove(s)[y] == prolls[r];
        if x < d { assert(res0.remove(d)[x] == res0[x]); } else { assert(res0.remove(d)[x] == res0[x + 1]); }
        if y < s { assert(rolls0.remove(s)[y] == rolls0[y]); } else { assert(rolls0.remove(s)[y] == rolls0[y + 1]); }
    }
    assert(only_desert_at(tf, d));
    assert(only_seven_at(tf, d));
    assert forall|dd: int| only_desert_at(t0, dd) implies dd == d by {}
    assert(keys_distinct(tf)) by {
        assert forall|a: int, b: int| 0 <= a < b < tf.len() implies tf[a].key != tf[b].key by {
            assert(same_place(tf[a], t0[a]) && same_place(tf[b], t0[b]));
        }
    }
}

proof fn lemma_perm_elem<A>(perm: Seq<A>, base: Seq<A>, r: int)
    requires
        perm.to_multiset() == base.to_multiset(),
        0 <= r < perm.len(),
    ensures
        base.contains(perm[r]),
{
    vstd::seq_lib::to_multiset_contains(perm, perm[r]);
    vstd::seq_lib::to_multiset_contains(base, perm[r]);
    assert(perm.contains(perm[r]));
}

fn find_desert(tiles: &Vec<Tile>) -> (res: usize)
    requires
        exists|d: int| only_desert_at(tiles@, d),
    ensures
        only_desert_at(tiles@, res as int),
{
    let ghost d = choose|d: int| only_desert_at(tiles@, d);
    let mut i: usize = 0;
    while i < tiles.len()
        invariant
            only_desert_at(tiles@, d),
            i <= d,
        decreases tiles.len() - i,
    {
        if tiles[i].current_resource == TileResource::Desert {
            return i;
        }
        i = i + 1;
    }
    0
}

fn find_seven(tiles: &Vec<Tile>) -> (res: usize)
    requires
        exists|s: int| only_seven_at(tiles@, s),
    ensures
        only_seven_at(tiles@, res as int),
{
    let ghost s = choose|s: int| only_seven_at(tiles@, s);
    let mut i: usize = 0;
    while i < tiles.len()
        invariant
            only_seven_at(tiles@, s),
            i <= s,
        decreases tiles.len() - i,
    {
        if tiles[i].roll == 7 {
            return i;
        }
        i = i + 1;
    }
    0
}

} // verus!

verus! {

use crate::harbors::{Harbor, HarborType};

/// A tile whose roll number is 6 or 8.
pub open spec fn is_six_or_eight(t: Tile) -> bool {
    t.roll == 6 || t.roll == 8
}

/// Every tile with a 6 or an 8 can step to each of its neighbours.
pub open spec fn six_eight_in_range(tiles: Seq<Tile>) -> bool {
    forall|k: int| 0 <= k < tiles.len() && is_six_or_eight(#[trigger] tiles[k]) ==> tiles[k].key.in_range()
}

/// Where the board holds a 6 or an 8 (which a shuffle may deal to any tile but the
/// desert), every tile but the desert can step to each of its neighbours.
pub open spec fn shuffle_steps_ok(tiles: Seq<Tile>) -> bool {
    (exists|k: int| 0 <= k < tiles.len() && is_six_or_eight(#[trigger] tiles[k]))
        ==> forall|k: int| 0 <= k < tiles.len() && (#[trigger] tiles[k]).current_resource != TileResource::Desert
            ==> tiles[k].key.in_range()
}

/// After a shuffle that keeps the places, the roll numbers and the desert, every tile
/// with a 6 or an 8 can step to its neighbours.
pub proof fn lemma_shuffled_six_eight_in_range(t0: Seq<Tile>, t: Seq<Tile>, d: int)
    requires
        shuffle_steps_ok(t0),
        t.len() == t0.len(),
        forall|k: int| 0 <= k < t.len() ==> same_place(#[trigger] t[k], t0[k]),
        rolls_of(t).to_multiset() == rolls_of(t0).to_multiset(),
        only_desert_at(t0, d),
        only_desert_at(t, d),
        only_seven_at(t, d),
    ensures
        six_eight_in_range(t),
{
    assert forall|k: int| 0 <= k < t.len() && is_six_or_eight(#[trigger] t[k]) implies t[k].key.in_range() by {
        let r = t[k].roll;
        assert(rolls_of(t)[k] == r);
        assert(rolls_of(t).contains(r));
        vstd::seq_lib::to_multiset_contains(rolls_of(t), r);
        vstd::seq_lib::to_multiset_contains(rolls_of(t0), r);
        assert(rolls_of(t0).contains(r));
        let k2 = choose|k2: int| 0 <= k2 < rolls_of(t0).len() && rolls_of(t0)[k2] == r;
        assert(is_six_or_eight(t0[k2]));
        assert(k != d);
        assert(t0[k].current_resource != TileResource::Desert);
        assert(same_place(t[k], t0[k]));
    }
}

/// No two tiles with a 6 or an 8 lie next to each other.
pub open spec fn no_adjacent_six_eight(tiles: Seq<Tile>) -> bool {
    forall|i: int, j: int| 0 <= i < tiles.len() && 0 <= j < tiles.len()
        && is_six_or_eight(#[trigger] tiles[i]) && is_six_or_eight(#[trigger] tiles[j])
        ==> !tiles[i].key.neighbors().contains(tiles[j].key)
}

/// Whether no two tiles with a 6 or an 8 lie next to each other.
pub fn validate_no_adjacent_six_eight(tiles: &Vec<Tile>) -> (res: bool)
    requires
        keys_distinct(tiles@),
        six_eight_in_range(tiles@),
    ensures
        res == no_adjacent_six_eight(tiles@),
{
    let n = tiles.len();
    let mut i: usize = 0;
    while i < n
        invariant
            n == tiles@.len(),
            keys_distinct(tiles@),
            six_eight_in_range(tiles@),
            i <= n,
            forall|a: int, j: int| 0 <= a < i && 0 <= j < n
                && is_six_or_eight(#[trigger] tiles@[a]) && is_six_or_eight(#[trigger] tiles@[j])
                ==> !tiles@[a].key.neighbors().contains(tiles@[j].key),
        decreases n - i,
    {
        if tiles[i].roll == 6 || tiles[i].roll == 8 {
            let surrounding = tiles[i].key.get_adjacent_keys();
            let mut x: usize = 0;
            while x < surrounding.len()
                invariant
                    n == tiles@.len(),
                    keys_distinct(tiles@),
                    six_eight_in_range(tiles@),
                    i < n,
                    is_six_or_eight(tiles@[i as int]),
                    surrounding@ == tiles@[i as int].key.neighbors(),
                    x <= surrounding@.len(),
                    forall|y: int, j: int| 0 <= y < x && 0 <= j < n && is_six_or_eight(#[trigger] tiles@[j])
                        ==> #[trigger] surrounding@[y] != tiles@[j].key,
                decreases surrounding.len() - x,
            {
                match find_tile(tiles, &surrounding[x]) {
                    Some(j) => {
                        if tiles[j].roll == 6 || tiles[j].roll == 8 {
                            assert(tiles@[i as int].key.neighbors()[x as int] == tiles@[j as int].key);
                            return false;
                        }
                        assert forall|jj: int| 0 <= jj < n && is_six_or_eight(#[trigger] tiles@[jj])
                            implies surrounding@[x as int] != tiles@[jj].key by {
                            if surrounding@[x as int] == tiles@[jj].key {
                                if jj < j { assert(tiles@[jj].key != tiles@[j as int].key); }
                                if jj > j { assert(tiles@[j as int].key != tiles@[jj].key); }
                            }
                        }
                    },
                    None => {
                        assert forall|jj: int| 0 <= jj < n && is_six_or_eight(#[trigger] tiles@[jj])
                            implies surrounding@[x as int] != tiles@[jj].key by {
                            if surrounding@[x as int] == tiles@[jj].key {
                                assert(crate::tiles::tile_keys(tiles@)[jj] == tiles@[jj].key);
                            }
                        }
                    },
                }
                x = x + 1;
            }
            assert forall|j: int| 0 <= j < n && is_six_or_eight(#[trigger] tiles@[i as int]) && is_six_or_eight(#[trigger] tiles@[j])
                implies !tiles@[i as int].key.neighbors().contains(tiles@[j].key) by {
                if tiles@[i as int].key.neighbors().contains(tiles@[j].key) {
                    let y = choose|y: int| 0 <= y < surrounding@.len() && surrounding@[y] == tiles@[j].key;
                }
            }
        }
        i = i + 1;
    }
    true
}

/// The types of a list of harbors, in order.
pub open spec fn harbor_types(harbors: Seq<Harbor>) -> Seq<HarborType> {
    harbors.map_values(|h: Harbor| h.harbor_type)
}

/// Deals the harbor types anew over the same harbor places: every harbor keeps its
/// place, and the types, in harbor order, are those from before shuffled by some
/// Fisher-Yates draws (so the same types, as many times each).
pub fn shuffle_harbors(harbors: &mut Vec<Harbor>)
    ensures
        final(harbors)@.len() == old(harbors)@.len(),
        exists|draws: Seq<usize>|
            #![trigger apply_swaps(harbor_types(old(harbors)@), draws)]
            valid_draws(old(harbors)@.len(), draws)
            && harbor_types(final(harbors)@) == apply_swaps(harbor_types(old(harbors)@), draws),
        forall|k: int| 0 <= k < final(harbors)@.len() ==> (#[trigger] final(harbors)@[k]).harbor_key == old(harbors)@[k].harbor_key,
        harbor_types(final(harbors)@).to_multiset() == harbor_types(old(harbors)@).to_multiset(),
{
    let ghost h0 = harbors@;
    let n = harbors.len();
    let mut types: Vec<HarborType> = Vec::new();
    let mut i: usize = 0;
    while i < n
        invariant
            n == h0.len(),
            harbors@ == h0,
            i <= n,
            types@ == harbor_types(h0).take(i as int),
        decreases n - i,
    {
        types.push(harbors[i].harbor_type);
        assert(types@ =~= harbor_types(h0).take(i + 1));
        i = i + 1;
    }
    assert(harbor_types(h0).take(n as int) =~= harbor_types(h0));
    let draws = shuffle_vector(&mut types);
    let mut new_harbors: Vec<Harbor> = Vec::new();
    let mut k: usize = 0;
    while k < n
        invariant
            n == h0.len(),
            harbors@ == h0,
            types@.len() == n,
            k <= n,
            new_harbors@.len() == k,
            forall|j: int| 0 <= j < k ==> (#[trigger] new_harbors@[j]).harbor_key == h0[j].harbor_key
                && new_harbors@[j].harbor_type == types@[j],
        decreases n - k,
    {
        new_harbors.push(Harbor::new(harbors[k].harbor_key, types[k]));
        k = k + 1;
    }
    assert(harbor_types(new_harbors@) =~= types@);
    assert(harbor_types(new_harbors@) == apply_swaps(harbor_types(h0), draws@));
    *harbors = new_harbors;
}

} // verus!
