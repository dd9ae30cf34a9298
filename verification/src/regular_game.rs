use vstd::prelude::*;
use crate::board::{
    buildings_laid, keys_ok, lemma_layout_keys_distinct, layout_keys, layout_keys_upto, column_keys,
    rows_ok, roads_laid, same_but_roads, setup_buildings, setup_roads, setup_tiles,
};
use crate::buildings::Building;
use crate::errors::GameError;
use crate::game_info::{create_regular_game_info, regular_harbor_data, regular_rolls,
    regular_rows_per_column, regular_tile_resources, RegularGameInfo};
use crate::harbors::{Harbor, HarborType};
use crate::player::{Player, User};
use crate::random::{gen_u64, thread_rng};
use crate::roads::Road;
use crate::setup_state::{GameState, GameStateMachine};
use crate::state::{has_next_state, next_state_of, ActionData, StateData};
use crate::setup_state::GameActions;
use crate::player::{clone_players, player_model, player_models, PlayerModel};
use crate::roads::{clone_roads, road_list_model, RoadModel};
use crate::buildings::{building_models, clone_buildings, BuildingModel};
use crate::tiles::{clone_tiles, tile_models, TileModel};
use crate::shuffle::{
    harbor_types, no_adjacent_six_eight, only_desert_at, only_seven_at, resources_of, rolls_of,
    same_place, shuffle_harbors, shuffle_ready, shuffle_steps_ok, lemma_shuffled_six_eight_in_range, redealt, shuffle_tiles, validate_no_adjacent_six_eight,
};
use crate::text_fmt::push_char;
use crate::tiles::{Tile, TileKey, TileResource};

verus! {

/// A lowercase hexadecimal digit.
pub open spec fn is_hex_char(c: char) -> bool {
    ('0' <= c && c <= '9') || ('a' <= c && c <= 'f')
}

fn hex_char(d: u64) -> (c: char)
    requires
        d < 16,
    ensures
        is_hex_char(c),
{
    if d == 0 { '0' } else if d == 1 { '1' } else if d == 2 { '2' } else if d == 3 { '3' }
    else if d == 4 { '4' } else if d == 5 { '5' } else if d == 6 { '6' } else if d == 7 { '7' }
    else if d == 8 { '8' } else if d == 9 { '9' } else if d == 10 { 'a' } else if d == 11 { 'b' }
    else if d == 12 { 'c' } else if d == 13 { 'd' } else if d == 14 { 'e' } else { 'f' }
}

/// A new game id: 32 lowercase hexadecimal digits drawn at random.
pub fn get_id() -> (id: String)
    ensures
        id@.len() == 32,
        forall|i: int| 0 <= i < 32 ==> {
            is_hex_char(#[trigger] id@[i])
        },
{
    let mut rng = thread_rng();
    let mut id = String::new();
    let mut part: usize = 0;
    while part < 2
        invariant
            part <= 2,
            id@.len() == 16 * part,
            forall|i: int| 0 <= i < id@.len() ==> {
                is_hex_char(#[trigger] id@[i])
            },
        decreases 2 - part,
    {
        let mut x = gen_u64(&mut rng);
        let mut k: usize = 0;
        while k < 16
            invariant
                k <= 16,
                id@.len() == 16 * part + k,
                part < 2,
                forall|i: int| 0 <= i < id@.len() ==> {
                    is_hex_char(#[trigger] id@[i])
                },
            decreases 16 - k,
        {
            let c = hex_char(x % 16);
            push_char(&mut id, c);
            x = x / 16;
            k = k + 1;
        }
        part = part + 1;
    }
    id
}

} // verus!

verus! {

use crate::board::{first_q, mid_column, column_start_r, layout_key, info_ok, laid_out, lemma_rows_ok_fit};

/// A key on the hexagon of radius `n` around the centre tile.
pub open spec fn on_hexagon(k: TileKey, n: int) -> bool {
    &&& k.q + k.r + k.s == 0
    &&& -n <= k.q <= n
    &&& -n <= k.r <= n
    &&& -n <= k.s <= n
}

/// The regular board's layout: nineteen distinct tiles, all within two steps of the
/// centre tile (a hexagon of radius 2 has exactly nineteen places, so it is filled).
pub proof fn lemma_regular_layout()
    ensures
        rows_ok(regular_rows_per_column()),
        layout_keys(regular_rows_per_column()).len() == 19,
        forall|i: int| 0 <= i < 19 ==> on_hexagon(#[trigger] layout_keys(regular_rows_per_column())[i], 2),
        forall|i: int, j: int| 0 <= i < j < 19
            ==> layout_keys(regular_rows_per_column())[i] != layout_keys(regular_rows_per_column())[j],
{
    let rows = regular_rows_per_column();
    assert(rows.len() == 5);
    assert(rows_ok(rows));
    assert(mid_column(rows) == 2);
    assert(first_q(rows) == -2);
    let c0 = layout_keys_upto(rows, 0);
    let c1 = layout_keys_upto(rows, 1);
    let c2 = layout_keys_upto(rows, 2);
    let c3 = layout_keys_upto(rows, 3);
    let c4 = layout_keys_upto(rows, 4);
    let c5 = layout_keys_upto(rows, 5);
    assert(c0.len() == 0);
    assert(c1 == c0 + column_keys(rows, 0));
    assert(c2 == c1 + column_keys(rows, 1));
    assert(c3 == c2 + column_keys(rows, 2));
    assert(c4 == c3 + column_keys(rows, 3));
    assert(c5 == c4 + column_keys(rows, 4));
    assert(c5.len() == 19);
    assert(layout_keys(rows) == c5);
    assert forall|i: int| 0 <= i < 19 implies on_hexagon(#[trigger] c5[i], 2) by {
        if i < 3 {
            assert(c5[i] == c1[i]);
            assert(c1[i] == layout_key(rows, 0, i));
        } else if i < 7 {
            assert(c5[i] == c2[i]);
            assert(c2[i] == layout_key(rows, 1, i - 3));
        } else if i < 12 {
            assert(c5[i] == c3[i]);
            assert(c3[i] == layout_key(rows, 2, i - 7));
        } else if i < 16 {
            assert(c5[i] == c4[i]);
            assert(c4[i] == layout_key(rows, 3, i - 12));
        } else {
            assert(c5[i] == layout_key(rows, 4, i - 16));
        }
    }
    lemma_layout_keys_distinct(rows);
}

proof fn lemma_regular_info_ok(info: RegularGameInfo)
    requires
        info.is_regular(),
    ensures
        info_ok(info),
{
    lemma_regular_layout();
    lemma_rows_ok_fit(regular_rows_per_column());
}

/// A regular game: its players, its board of tiles, harbors, roads and corners, and the
/// state of its setup.
#[derive(Debug)]
pub struct RegularGame {
    pub id: String,
    pub players: Vec<Player>,
    pub tiles: Vec<Tile>,
    pub harbors: Vec<Harbor>,
    pub roads: Vec<Road>,
    pub buildings: Vec<Building>,
    pub state_machine: GameStateMachine,
    pub player_order: Vec<String>,
    pub current_player_id: String,
    pub game_index: u64,
    pub can_undo: bool,
    pub state_data: StateData,
}

/// The harbors built from a list of harbor descriptions, in the same order.
pub open spec fn harbors_from(harbors: Seq<Harbor>, data: Seq<crate::harbors::HarborData>) -> bool {
    &&& harbors.len() == data.len()
    &&& forall|i: int| 0 <= i < harbors.len() ==> (#[trigger] harbors[i]).harbor_key == data[i].key
        && harbors[i].harbor_type == data[i].harbor_type
}

/// The tiles of a board laid out from a description, whatever roads they carry.
pub open spec fn tiles_from(tiles: Seq<Tile>, info: RegularGameInfo) -> bool {
    let keys = layout_keys(info.rows_per_column@);
    &&& tiles.len() == keys.len()
    &&& forall|i: int| 0 <= i < tiles.len() ==> {
        &&& (#[trigger] tiles[i]).key == keys[i]
        &&& tiles[i].current_resource == info.tile_resources@[i]
        &&& tiles[i].original_resource == info.tile_resources@[i]
        &&& tiles[i].roll == info.rolls@[i]
        &&& tiles[i].owned_buildings@.len() == 0
    }
}

impl RegularGame {
    /// A game ready for shuffling and play: the board keys are distinct, the board has
    /// one desert and one 7, and the state machine lists the actions of its state.
    pub open spec fn well_formed(self) -> bool {
        &&& shuffle_ready(self.tiles@)
        &&& self.state_machine.well_formed()
    }

    /// Creates a regular game whose only player is its creator: the nineteen tiles laid
    /// out column by column with the regular resources and roll numbers, a road on every
    /// side of every tile, a corner building for each corner of each tile, the nine
    /// regular harbors, a new random id, and a state machine that is adding players.
    pub fn new(creator: User) -> (res: RegularGame)
        ensures
            res.players@.len() == 1,
            res.players@[0].is_new_for(creator),
            exists|info: RegularGameInfo| info.is_regular() && tiles_from(res.tiles@, info),
            roads_laid(res.tiles@, res.roads@),
            buildings_laid(res.tiles@, res.buildings@),
            harbors_from(res.harbors@, regular_harbor_data()),
            res.id@.len() == 32,
            res.state_machine.game_state == GameState::AddingPlayers,
            res.state_machine.phase == crate::game_enums::GamePhase::SettingUp,
            res.player_order@.len() == 0,
            res.current_player_id@.len() == 0,
            res.game_index == 0,
            res.can_undo,
            res.state_data.game_state == crate::game_enums::GameState::AddingPlayers,
            res.well_formed(),
    {
        let player = Player::new(creator);
        let game_info = create_regular_game_info();
        proof { lemma_regular_info_ok(game_info); lemma_regular_layout(); }
        let mut tiles = setup_tiles(&game_info);
        let ghost t0 = tiles@;
        proof {
            lemma_layout_keys_distinct(game_info.rows_per_column@);
        }
        assert(keys_ok(tiles@)) by {
            assert(forall|i: int| 0 <= i < tiles@.len() ==> (#[trigger] tiles@[i]).key == layout_keys(game_info.rows_per_column@)[i]);
        }
        assert(forall|k: int| 0 <= k < tiles@.len() ==> (#[trigger] tiles@[k]).roads@.len() == 0);
        let roads = setup_roads(&mut tiles);
        let ghost t1 = tiles@;
        assert(keys_ok(t1)) by {
            assert(forall|k: int| 0 <= k < t1.len() ==> same_but_roads(#[trigger] t1[k], t0[k]));
        }
        let buildings = setup_buildings(&tiles);
        let mut harbors: Vec<Harbor> = Vec::new();
        let mut i: usize = 0;
        while i < game_info.harbor_data.len()
            invariant
                game_info.is_regular(),
                i <= game_info.harbor_data@.len(),
                harbors@.len() == i,
                forall|j: int| 0 <= j < i ==> (#[trigger] harbors@[j]).harbor_key == game_info.harbor_data@[j].key
                    && harbors@[j].harbor_type == game_info.harbor_data@[j].harbor_type,
            decreases game_info.harbor_data.len() - i,
        {
            let data = game_info.harbor_data[i];
            harbors.push(Harbor::new(data.key, data.harbor_type));
            i = i + 1;
        }
        let mut players: Vec<Player> = Vec::new();
        players.push(player);
        assert(tiles_from(t1, game_info)) by {
            assert forall|k: int| 0 <= k < t1.len() implies same_but_roads(#[trigger] t1[k], t0[k]) by {}
        }
        proof {
            assert(regular_tile_resources()[3] == TileResource::Desert);
            assert(only_desert_at(t1, 3)) by {
                assert forall|k: int| 0 <= k < t1.len() && k != 3 implies (#[trigger] t1[k]).current_resource != TileResource::Desert by {
                    assert(t1[k].current_resource == regular_tile_resources()[k]);
                }
            }
            assert(only_seven_at(t1, 9)) by {
                assert forall|k: int| 0 <= k < t1.len() && k != 9 implies (#[trigger] t1[k]).roll != 7 by {
                    assert(t1[k].roll == regular_rolls()[k]);
                }
            }
        }
        RegularGame {
            id: get_id(),
            players,
            tiles,
            harbors,
            roads,
            buildings,
            state_machine: GameStateMachine::new(),
            player_order: Vec::new(),
            current_player_id: String::new(),
            game_index: 0,
            can_undo: true,
            state_data: StateData::new(crate::game_enums::GameState::AddingPlayers),
        }
    }
}

} // verus!

verus! {

/// The id of a player who has one.
pub open spec fn player_id(p: Player) -> Seq<char> {
    p.user_data.id->0@
}

/// `i` is the first position of `id` in `order`.
pub open spec fn is_first_index(order: Seq<String>, id: Seq<char>, i: int) -> bool {
    &&& 0 <= i < order.len()
    &&& order[i]@ == id
    &&& forall|j: int| 0 <= j < i ==> (#[trigger] order[j])@ != id
}

/// The position of `id` in `order`, where it occurs.
pub open spec fn rank_in(order: Seq<String>, id: Seq<char>) -> int {
    choose|i: int| is_first_index(order, id, i)
}

/// Every player has an id.
pub open spec fn all_have_ids(players: Seq<Player>) -> bool {
    forall|i: int| 0 <= i < players.len() ==> (#[trigger] players[i]).user_data.id is Some
}

/// The id occurs in `order`.
pub open spec fn id_in_order(order: Seq<String>, id: Seq<char>) -> bool {
    exists|x: int| 0 <= x < order.len() && (#[trigger] order[x])@ == id
}

/// Every player's id occurs in `order`.
pub open spec fn all_in_order(players: Seq<Player>, order: Seq<String>) -> bool {
    forall|i: int| 0 <= i < players.len() ==> id_in_order(order, player_id(#[trigger] players[i]))
}

/// `after` is `before` sorted by the position of each player's id in `order`, players
/// with the same position keeping their relative order (`perm[m]` is where the m-th
/// player of `after` stood in `before`).
pub open spec fn stably_sorted_by(after: Seq<Player>, before: Seq<Player>, order: Seq<String>, perm: Seq<int>) -> bool {
    &&& after.len() == before.len()
    &&& perm.len() == before.len()
    &&& forall|m: int| 0 <= m < perm.len() ==> 0 <= #[trigger] perm[m] < before.len()
    &&& forall|m: int| 0 <= m < perm.len() ==> after[m] == before[#[trigger] perm[m]]
    &&& forall|a: int, b: int| 0 <= a < b < perm.len() ==> perm[a] != perm[b]
    &&& forall|a: int, b: int| #![trigger perm[a], perm[b]] 0 <= a < b < perm.len() ==> {
        let ra = rank_in(order, player_id(before[perm[a]]));
        let rb = rank_in(order, player_id(before[perm[b]]));
        ra < rb || (ra == rb && perm[a] < perm[b])
    }
}

proof fn lemma_full_perm_len(perm: Seq<int>, n: int)
    requires
        n >= 0,
        forall|m: int| 0 <= m < perm.len() ==> 0 <= #[trigger] perm[m] < n,
        forall|a: int, b: int| 0 <= a < b < perm.len() ==> perm[a] != perm[b],
        forall|i: int| 0 <= i < n ==> perm.contains(i),
    ensures
        perm.len() == n,
{
    assert(perm.no_duplicates()) by {
        assert forall|a: int, b: int| 0 <= a < perm.len() && 0 <= b < perm.len() && a != b implies perm[a] != perm[b] by {
            if a < b {} else {}
        }
    }
    perm.unique_seq_to_set();
    vstd::set_lib::lemma_int_range(0, n);
    assert(perm.to_set() =~= vstd::set_lib::set_int_range(0, n)) by {
        assert forall|x: int| perm.to_set().contains(x) <==> vstd::set_lib::set_int_range(0, n).contains(x) by {
            if perm.to_set().contains(x) {
                assert(perm.contains(x));
            }
            if 0 <= x < n {
                assert(perm.contains(x));
            }
        }
    }
}

/// The first position of `id` in `order`, if it occurs.
fn first_position(order: &Vec<String>, id: &String) -> (res: Option<usize>)
    ensures
        res matches Some(x) ==> is_first_index(order@, id@, x as int),
        res is None ==> forall|x: int| 0 <= x < order@.len() ==> (#[trigger] order@[x])@ != id@,
{
    let mut x: usize = 0;
    while x < order.len()
        invariant
            x <= order@.len(),
            forall|y: int| 0 <= y < x ==> (#[trigger] order@[y])@ != id@,
        decreases order.len() - x,
    {
        if order[x] == *id {
            return Some(x);
        }
        x = x + 1;
    }
    None
}

impl RegularGame {
    /// Sets the order of play to `id_order`: the players are sorted by the position of
    /// their ids in it, the order is kept, and its first id becomes the current player.
    /// Refused with `PlayerMismatch` when the order does not have one id per player, and
    /// with `IdNotFoundInOrder` when a player's id is missing from it; nothing changes then.
    pub fn set_player_order(&mut self, id_order: Vec<String>) -> (res: Result<(), GameError>)
        requires
            all_have_ids(old(self).players@),
        ensures
            old(self).players@.len() != id_order@.len() ==> (res matches Err(GameError::PlayerMismatch)) && *final(self) == *old(self),
            old(self).players@.len() == id_order@.len() && !all_in_order(old(self).players@, id_order@)
                ==> (res matches Err(GameError::IdNotFoundInOrder)) && *final(self) == *old(self),
            old(self).players@.len() == id_order@.len() && all_in_order(old(self).players@, id_order@) ==> {
                &&& res is Ok
                &&& exists|perm: Seq<int>| stably_sorted_by(final(self).players@, old(self).players@, id_order@, perm)
                &&& final(self).player_order@ == id_order@
                &&& (id_order@.len() > 0 ==> final(self).current_player_id@ == id_order@[0]@)
                &&& final(self)@ == (RegularGameModel {
                    players: final(self)@.players,
                    player_order: final(self)@.player_order,
                    current_player_id: final(self)@.current_player_id,
                    ..old(self)@
                })
            },
    {
        let n = self.players.len();
        if n != id_order.len() {
            return Err(GameError::PlayerMismatch);
        }
        let ghost p0 = self.players@;
        let ghost order = id_order@;
        // the position of each player's id in the order
        let mut ranks: Vec<usize> = Vec::new();
        let mut i: usize = 0;
        while i < n
            invariant
                n == self.players@.len(),
                n == id_order@.len(),
                self.players@ == p0,
                order == id_order@,
                all_have_ids(p0),
                i <= n,
                ranks@.len() == i,
                forall|j: int| 0 <= j < i ==> is_first_index(order, player_id(p0[j]), #[trigger] ranks@[j] as int),
            decreases n - i,
        {
            let player_id_ref = self.players[i].user_data.id.as_ref().unwrap();
            assert(player_id_ref@ == player_id(p0[i as int]));
            let found = first_position(&id_order, player_id_ref);
            let x = match found {
                Some(x) => x,
                None => {
                    proof {
                        assert(!all_in_order(p0, order)) by {
                            if all_in_order(p0, order) {
                                let w = choose|w: int| 0 <= w < order.len() && (#[trigger] order[w])@ == player_id(p0[i as int]);
                                assert(order[w]@ == player_id(p0[i as int]));
                            }
                        }
                    }
                    return Err(GameError::IdNotFoundInOrder);
                },
            };
            assert(is_first_index(order, player_id(p0[i as int]), x as int));
            ranks.push(x);
            i = i + 1;
        }
        let ghost rk = ranks@;
        assert(all_in_order(p0, order)) by {
            assert forall|j: int| 0 <= j < p0.len() implies id_in_order(order, player_id(#[trigger] p0[j])) by {
                assert(is_first_index(order, player_id(p0[j]), rk[j] as int));
                assert(order[rk[j] as int]@ == player_id(p0[j]));
            }
        }
        assert forall|j: int| 0 <= j < n implies rank_in(order, player_id(p0[j])) == rk[j] by {
            let w = rank_in(order, player_id(p0[j]));
            assert(is_first_index(order, player_id(p0[j]), rk[j] as int));
            assert(is_first_index(order, player_id(p0[j]), w));
            if w < rk[j] { assert(order[w]@ != player_id(p0[j])); }
            if w > rk[j] { assert(order[rk[j] as int]@ != player_id(p0[j])); }
        }
        // move the players out into slots
        let mut taken: Vec<Player> = Vec::new();
        std::mem::swap(&mut taken, &mut self.players);
        let mut slots: Vec<Option<Player>> = Vec::new();
        let mut i: usize = 0;
        while i < n
            invariant
                n == p0.len(),
                i <= n,
                taken@ == p0.skip(i as int),
                slots@.len() == i,
                forall|j: int| 0 <= j < i ==> #[trigger] slots@[j] == Some(p0[j]),
            decreases n - i,
        {
            let p = taken.remove(0);
            assert(p == p0[i as int]);
            slots.push(Some(p));
            assert(taken@ =~= p0.skip(i + 1));
            i = i + 1;
        }
        // collect them rank by rank, each rank in its original order
        let mut sorted: Vec<Player> = Vec::new();
        let ghost mut perm: Seq<int> = Seq::empty();
        let mut k: usize = 0;
        while k < n
            invariant
                n == p0.len(),
                rk.len() == n,
                rk == ranks@,
                forall|j: int| 0 <= j < n ==> (#[trigger] rk[j]) < n,
                forall|j: int| 0 <= j < n ==> rank_in(order, player_id(p0[j])) == #[trigger] rk[j],
                k <= n,
                slots@.len() == n,
                sorted@.len() == perm.len(),
                forall|m: int| 0 <= m < perm.len() ==> 0 <= #[trigger] perm[m] < n,
                forall|m: int| 0 <= m < perm.len() ==> sorted@[m] == p0[#[trigger] perm[m]],
                forall|m: int| 0 <= m < perm.len() ==> rk[#[trigger] perm[m]] < k,
                forall|a: int, b: int| 0 <= a < b < perm.len() ==>
                    rk[perm[a]] < rk[perm[b]] || (rk[perm[a]] == rk[perm[b]] && perm[a] < perm[b]),
                forall|j: int| 0 <= j < n ==> (rk[j] < k <==> perm.contains(j)),
                forall|j: int| 0 <= j < n && !perm.contains(j) ==> #[trigger] slots@[j] == Some(p0[j]),
            decreases n - k,
        {
            let mut idx: usize = 0;
            while idx < n
                invariant
                    n == p0.len(),
                    rk.len() == n,
                    rk == ranks@,
                    forall|j: int| 0 <= j < n ==> (#[trigger] rk[j]) < n,
                    k < n,
                    idx <= n,
                    slots@.len() == n,
                    sorted@.len() == perm.len(),
                    forall|m: int| 0 <= m < perm.len() ==> 0 <= #[trigger] perm[m] < n,
                    forall|m: int| 0 <= m < perm.len() ==> sorted@[m] == p0[#[trigger] perm[m]],
                    forall|m: int| 0 <= m < perm.len() ==> rk[#[trigger] perm[m]] < k
                        || (rk[perm[m]] == k && perm[m] < idx),
                    forall|a: int, b: int| 0 <= a < b < perm.len() ==>
                        rk[perm[a]] < rk[perm[b]] || (rk[perm[a]] == rk[perm[b]] && perm[a] < perm[b]),
                    forall|j: int| 0 <= j < n ==> ((rk[j] < k || (rk[j] == k && j < idx)) <==> perm.contains(j)),
                    forall|j: int| 0 <= j < n && !perm.contains(j) ==> #[trigger] slots@[j] == Some(p0[j]),
                decreases n - idx,
            {
                if ranks[idx] == k {
                    assert(!perm.contains(idx as int));
                    let slot = slots[idx].take();
                    match slot {
                        Some(p) => {
                            sorted.push(p);
                            proof {
                                let old_perm = perm;
                                perm = perm.push(idx as int);
                                assert(perm[old_perm.len() as int] == idx);
                                assert forall|j: int| 0 <= j < n && !perm.contains(j) implies #[trigger] slots@[j] == Some(p0[j]) by {
                                    assert(j != idx);
                                    assert(!old_perm.contains(j)) by {
                                        if old_perm.contains(j) {
                                            let w = choose|w: int| 0 <= w < old_perm.len() && old_perm[w] == j;
                                            assert(perm[w] == j);
                                        }
                                    }
                                }
                                assert forall|j: int| 0 <= j < n implies ((rk[j] < k || (rk[j] == k && j < idx + 1)) <==> perm.contains(j)) by {
                                    if perm.contains(j) && j != idx {
                                        let w = choose|w: int| 0 <= w < perm.len() && perm[w] == j;
                                        assert(old_perm[w] == j);
                                    }
                                    if j == idx {
                                        assert(perm[old_perm.len() as int] == j);
                                    } else if rk[j] < k || (rk[j] == k && j < idx) {
                                        let w = choose|w: int| 0 <= w < old_perm.len() && old_perm[w] == j;
                                        assert(perm[w] == j);
                                    }
                                }
                            }
                        },
                        None => {},
                    }
                }
                idx = idx + 1;
            }
            k = k + 1;
        }
        proof {
            assert forall|j: int| 0 <= j < n implies perm.contains(j) by {}
            assert forall|a: int, b: int| 0 <= a < b < perm.len() implies perm[a] != perm[b] by {}
            lemma_full_perm_len(perm, n as int);
            assert(stably_sorted_by(sorted@, p0, order, perm));
        }
        self.players = sorted;
        if id_order.len() > 0 {
            self.current_player_id = id_order[0].clone();
        }
        self.player_order = id_order;
        assert(all_in_order(p0, order));
        assert(stably_sorted_by(self.players@, p0, order, perm));
        Ok(())
    }
}

} // verus!

verus! {

/// The id that follows `current` in `order`, wrapping around at the end; the first id
/// when `current` is not in the order.
pub open spec fn next_in_order(order: Seq<String>, current: Seq<char>) -> Seq<char> {
    if id_in_order(order, current) {
        order[(rank_in(order, current) + 1) % (order.len() as int)]@
    } else {
        order[0]@
    }
}

/// Where the turn is after `k` moves from the player with id `current`.
pub open spec fn turns_after(order: Seq<String>, current: Seq<char>, k: nat) -> Seq<char>
    decreases k,
{
    if k == 0 { current } else { next_in_order(order, turns_after(order, current, (k - 1) as nat)) }
}

/// No id occurs twice in the order of play.
pub open spec fn distinct_ids(order: Seq<String>) -> bool {
    forall|i: int, j: int| 0 <= i < j < order.len() ==> (#[trigger] order[i])@ != (#[trigger] order[j])@
}

proof fn lemma_rank_of_distinct(order: Seq<String>, j: int)
    requires
        distinct_ids(order),
        0 <= j < order.len(),
    ensures
        id_in_order(order, order[j]@),
        rank_in(order, order[j]@) == j,
{
    assert(is_first_index(order, order[j]@, j));
    let i = rank_in(order, order[j]@);
    assert(is_first_index(order, order[j]@, i));
    if i < j {
        assert(order[i]@ != order[j]@);
    } else if j < i {
        assert(order[j]@ != order[j]@);
    }
}

/// With no id twice in the order of play, `k` moves from the `r`-th player of the
/// order give the turn to the player `k` places further on, counted round the order.
pub proof fn lemma_turns_go_round(order: Seq<String>, r: int, k: nat)
    requires
        distinct_ids(order),
        0 <= r < order.len(),
    ensures
        turns_after(order, order[r]@, k) == order[(r + k) % (order.len() as int)]@,
    decreases k,
{
    let n = order.len() as int;
    if k == 0 {
        vstd::arithmetic::div_mod::lemma_small_mod(r as nat, n as nat);
    } else {
        lemma_turns_go_round(order, r, (k - 1) as nat);
        let a = r + k - 1;
        vstd::arithmetic::div_mod::lemma_mod_bound(a, n);
        let p = a % n;
        lemma_rank_of_distinct(order, p);
        vstd::arithmetic::div_mod::lemma_add_mod_noop(a, 1, n);
        if n > 1 {
            vstd::arithmetic::div_mod::lemma_small_mod(1, n as nat);
        } else {
            vstd::arithmetic::div_mod::lemma_mod_self_0(1);
            vstd::arithmetic::div_mod::lemma_mod_twice(p + 1, 1);
        }
        assert((p + 1) % n == (a + 1) % n);
    }
}

/// With no id twice in the order of play, as many moves as there are players bring the
/// turn back to the player who had it.
pub proof fn lemma_turns_return(order: Seq<String>, r: int)
    requires
        distinct_ids(order),
        0 <= r < order.len(),
    ensures
        turns_after(order, order[r]@, order.len()) == order[r]@,
{
    lemma_turns_go_round(order, r, order.len());
    vstd::arithmetic::div_mod::lemma_mod_add_multiples_vanish(r, order.len() as int);
    vstd::arithmetic::div_mod::lemma_small_mod(r as nat, order.len());
}

/// The first player whose id is `id`.
pub open spec fn is_first_player_with(players: Seq<Player>, id: Seq<char>, i: int) -> bool {
    &&& 0 <= i < players.len()
    &&& players[i].user_data.id is Some
    &&& player_id(players[i]) == id
    &&& forall|j: int| 0 <= j < i ==> !((#[trigger] players[j]).user_data.id is Some && player_id(players[j]) == id)
}

impl RegularGame {
    /// The ids of the players, in the order of the list of players.
    pub fn player_ids(&self) -> (res: Vec<String>)
        requires
            all_have_ids(self.players@),
        ensures
            res@.len() == self.players@.len(),
            forall|i: int| 0 <= i < res@.len() ==> (#[trigger] res@[i])@ == player_id(self.players@[i]),
    {
        let mut res: Vec<String> = Vec::new();
        let mut i: usize = 0;
        while i < self.players.len()
            invariant
                i <= self.players@.len(),
                all_have_ids(self.players@),
                res@.len() == i,
                forall|k: int| 0 <= k < i ==> (#[trigger] res@[k])@ == player_id(self.players@[k]),
            decreases self.players.len() - i,
        {
            assert(self.players@[i as int].user_data.id is Some);
            match &self.players[i].user_data.id {
                Some(id) => res.push(id.clone()),
                None => {},
            }
            i = i + 1;
        }
        res
    }

    /// Adds the user as a new player at the end of the list of players.
    pub fn add_user(&mut self, user: User)
        ensures
            final(self).players@.len() == old(self).players@.len() + 1,
            final(self).players@.take(old(self).players@.len() as int) == old(self).players@,
            final(self).players@.last().is_new_for(user),
            final(self)@ == (RegularGameModel { players: final(self)@.players, ..old(self)@ }),
    {
        self.players.push(Player::new(user));
        assert(self.players@.take(old(self).players@.len() as int) =~= old(self).players@);
    }

    /// Shuffles the board until no two tiles with a 6 or an 8 are neighbours, then deals
    /// the harbor types anew. Returns whether such a board was found; after 2147483647
    /// rejected boards it gives up and keeps the last one. The board kept is the last
    /// deal, made from a board with the same places, resources and roll numbers.
    pub fn shuffle(&mut self) -> (found: bool)
        requires
            shuffle_ready(old(self).tiles@),
            shuffle_steps_ok(old(self).tiles@),
        ensures
            final(self).tiles@.len() == old(self).tiles@.len(),
            forall|k: int| 0 <= k < final(self).tiles@.len() ==> same_place(#[trigger] final(self).tiles@[k], old(self).tiles@[k]),
            resources_of(final(self).tiles@).to_multiset() == resources_of(old(self).tiles@).to_multiset(),
            rolls_of(final(self).tiles@).to_multiset() == rolls_of(old(self).tiles@).to_multiset(),
            forall|d: int| only_desert_at(old(self).tiles@, d) ==> only_desert_at(final(self).tiles@, d)
                && only_seven_at(final(self).tiles@, d),
            shuffle_ready(final(self).tiles@),
            found == no_adjacent_six_eight(final(self).tiles@),
            exists|p: Seq<Tile>| {
                &&& #[trigger] redealt(p, final(self).tiles@)
                &&& shuffle_ready(p)
                &&& p.len() == old(self).tiles@.len()
                &&& forall|k: int| 0 <= k < p.len() ==> same_place(#[trigger] p[k], old(self).tiles@[k])
                &&& resources_of(p).to_multiset() == resources_of(old(self).tiles@).to_multiset()
                &&& rolls_of(p).to_multiset() == rolls_of(old(self).tiles@).to_multiset()
            },
            final(self).harbors@.len() == old(self).harbors@.len(),
            forall|k: int| 0 <= k < final(self).harbors@.len() ==> (#[trigger] final(self).harbors@[k]).harbor_key == old(self).harbors@[k].harbor_key,
            harbor_types(final(self).harbors@).to_multiset() == harbor_types(old(self).harbors@).to_multiset(),
            final(self)@ == (RegularGameModel { tiles: final(self)@.tiles, harbors: final(self)@.harbors, ..old(self)@ }),
    {
        let ghost t0 = self.tiles@;
        let mut count: u32 = 0;
        let mut found = false;
        while count < 2147483647
            invariant_except_break
                !found,
            invariant
                self.tiles@.len() == t0.len(),
                forall|k: int| 0 <= k < self.tiles@.len() ==> same_place(#[trigger] self.tiles@[k], t0[k]),
                resources_of(self.tiles@).to_multiset() == resources_of(t0).to_multiset(),
                rolls_of(self.tiles@).to_multiset() == rolls_of(t0).to_multiset(),
                count > 0 ==> forall|d: int| only_desert_at(t0, d) ==> only_desert_at(self.tiles@, d) && only_seven_at(self.tiles@, d),
                count == 0 ==> self.tiles@ == t0,
                shuffle_ready(t0),
                shuffle_steps_ok(t0),
                shuffle_ready(self.tiles@),
                found ==> no_adjacent_six_eight(self.tiles@),
                count > 0 && !found ==> !no_adjacent_six_eight(self.tiles@),
                count > 0 ==> exists|p: Seq<Tile>| {
                    &&& #[trigger] redealt(p, self.tiles@)
                    &&& shuffle_ready(p)
                    &&& p.len() == t0.len()
                    &&& forall|k: int| 0 <= k < p.len() ==> same_place(#[trigger] p[k], t0[k])
                    &&& resources_of(p).to_multiset() == resources_of(t0).to_multiset()
                    &&& rolls_of(p).to_multiset() == rolls_of(t0).to_multiset()
                },
                self.harbors == old(self).harbors,
                self.players == old(self).players,
                self.roads == old(self).roads,
                self.buildings == old(self).buildings,
                self.state_machine == old(self).state_machine,
                self.id == old(self).id,
                self@ == (RegularGameModel { tiles: self@.tiles, ..old(self)@ }),
            ensures
                found == no_adjacent_six_eight(self.tiles@),
                count > 0,
            decreases 2147483647 - count,
        {
            count = count + 1;
            let ghost before = self.tiles@;
            shuffle_tiles(&mut self.tiles);
            proof {
                assert forall|d: int| only_desert_at(t0, d) implies only_desert_at(self.tiles@, d) && only_seven_at(self.tiles@, d) by {
                    if count == 1 {
                        assert(before == t0);
                    }
                    assert(only_desert_at(before, d));
                }
                assert forall|k: int| 0 <= k < self.tiles@.len() implies same_place(#[trigger] self.tiles@[k], t0[k]) by {
                    assert(same_place(self.tiles@[k], before[k]));
                }
                let d = choose|d: int| only_desert_at(t0, d);
                lemma_shuffled_six_eight_in_range(t0, self.tiles@, d);
                assert(redealt(before, self.tiles@));
                assert forall|k: int| 0 <= k < before.len() implies same_place(#[trigger] before[k], t0[k]) by {
                    if count == 1 {
                        assert(before == t0);
                    }
                }
            }
            if validate_no_adjacent_six_eight(&self.tiles) {
                found = true;
                break;
            }
        }
        shuffle_harbors(&mut self.harbors);
        found
    }

    /// Moves the turn to the next player in the order of play (wrapping around; the first
    /// in the order when the current player is not in it) and returns a copy of that
    /// player, if a player has that id.
    pub fn get_next_player(&mut self) -> (res: Option<Player>)
        requires
            old(self).player_order@.len() > 0,
        ensures
            final(self).current_player_id@ == next_in_order(old(self).player_order@, old(self).current_player_id@),
            final(self).players == old(self).players,
            final(self)@ == (RegularGameModel { current_player_id: final(self)@.current_player_id, ..old(self)@ }),
            match res {
                Some(p) => exists|i: int| #[trigger] is_first_player_with(old(self).players@, final(self).current_player_id@, i)
                    && player_model(p) == player_model(old(self).players@[i]),
                None => forall|i: int| 0 <= i < old(self).players@.len() ==>
                    !((#[trigger] old(self).players@[i]).user_data.id is Some
                        && player_id(old(self).players@[i]) == final(self).current_player_id@),
            },
    {
        let n = self.player_order.len();
        let next_index = match first_position(&self.player_order, &self.current_player_id) {
            Some(p) => {
                proof {
                    assert(id_in_order(self.player_order@, self.current_player_id@)) by {
                        assert(self.player_order@[p as int]@ == self.current_player_id@);
                    }
                    let w = rank_in(self.player_order@, self.current_player_id@);
                    assert(is_first_index(self.player_order@, self.current_player_id@, w));
                    if w < p { assert(self.player_order@[w]@ != self.current_player_id@); }
                    if w > p { assert(self.player_order@[p as int]@ != self.current_player_id@); }
                }
                if p + 1 < n { p + 1 } else { 0 }
            },
            None => {
                proof {
                    if id_in_order(self.player_order@, self.current_player_id@) {
                        let w = choose|w: int| 0 <= w < self.player_order@.len() && (#[trigger] self.player_order@[w])@ == self.current_player_id@;
                    }
                }
                0
            },
        };
        proof {
            if id_in_order(self.player_order@, self.current_player_id@) {
                let w = rank_in(self.player_order@, self.current_player_id@);
                if w + 1 < n {
                    vstd::arithmetic::div_mod::lemma_small_mod((w + 1) as nat, n as nat);
                } else {
                    vstd::arithmetic::div_mod::lemma_mod_self_0(n as int);
                }
            }
        }
        let ghost target = next_in_order(old(self).player_order@, old(self).current_player_id@);
        assert(self.player_order@[next_index as int]@ == target);
        let next = self.player_order[next_index].clone();
        self.current_player_id = next;
        let mut i: usize = 0;
        while i < self.players.len()
            invariant
                i <= self.players@.len(),
                self.players == old(self).players,
                self.player_order == old(self).player_order,
                self.tiles == old(self).tiles,
                self@ == (RegularGameModel { current_player_id: self@.current_player_id, ..old(self)@ }),
                self.current_player_id@ == target,
                target == next_in_order(old(self).player_order@, old(self).current_player_id@),
                forall|j: int| 0 <= j < i ==> !((#[trigger] self.players@[j]).user_data.id is Some
                    && player_id(self.players@[j]) == self.current_player_id@),
            decreases self.players.len() - i,
        {
            let is_next = match &self.players[i].user_data.id {
                Some(id) => *id == self.current_player_id,
                None => false,
            };
            if is_next {
                assert(is_first_player_with(self.players@, self.current_player_id@, i as int));
                return Some(self.players[i].clone());
            }
            i = i + 1;
        }
        None
    }
}

/// What a game holds: its board and players taken by what they hold, its texts by
/// their characters.
pub struct RegularGameModel {
    pub id: Seq<char>,
    pub players: Seq<PlayerModel>,
    pub tiles: Seq<TileModel>,
    pub harbors: Seq<Harbor>,
    pub roads: Seq<RoadModel>,
    pub buildings: Seq<BuildingModel>,
    pub setup_state: GameState,
    pub setup_phase: crate::game_enums::GamePhase,
    pub setup_actions: Seq<GameActions>,
    pub player_order: Seq<Seq<char>>,
    pub current_player_id: Seq<char>,
    pub game_index: u64,
    pub can_undo: bool,
    pub state_data: StateData,
}

impl View for RegularGame {
    type V = RegularGameModel;

    open spec fn view(&self) -> RegularGameModel {
        RegularGameModel {
            id: self.id@,
            players: player_models(self.players@),
            tiles: tile_models(self.tiles@),
            harbors: self.harbors@,
            roads: road_list_model(self.roads@),
            buildings: building_models(self.buildings@),
            setup_state: self.state_machine.game_state,
            setup_phase: self.state_machine.phase,
            setup_actions: self.state_machine.actions@,
            player_order: self.player_order@.map_values(|o: String| o@),
            current_player_id: self.current_player_id@,
            game_index: self.game_index,
            can_undo: self.can_undo,
            state_data: self.state_data,
        }
    }
}

impl Clone for RegularGame {
    /// A copy of the game.
    fn clone(&self) -> (res: RegularGame)
        ensures
            res@ == self@,
    {
        let res = RegularGame {
            id: self.id.clone(),
            players: clone_players(&self.players),
            tiles: clone_tiles(&self.tiles),
            harbors: self.harbors.clone(),
            roads: clone_roads(&self.roads),
            buildings: clone_buildings(&self.buildings),
            state_machine: self.state_machine.clone(),
            player_order: self.player_order.clone(),
            current_player_id: self.current_player_id.clone(),
            game_index: self.game_index,
            can_undo: self.can_undo,
            state_data: self.state_data,
        };
        assert(res.harbors@ =~= self.harbors@);
        assert(res.player_order@.map_values(|o: String| o@) =~= self.player_order@.map_values(|o: String| o@));
        res
    }
}

impl RegularGame {
    /// The state of the game.
    pub fn current_state(&self) -> (res: StateData)
        ensures
            res == self.state_data,
    {
        self.state_data
    }

    /// Puts the game in the given state.
    pub fn set_current_state(&mut self, state: crate::game_enums::GameState)
        ensures
            final(self).state_data.game_state == state,
            final(self)@ == (RegularGameModel { state_data: final(self).state_data, ..old(self)@ }),
    {
        self.state_data = StateData::new(state);
    }

    /// Moves the game to the state that follows its current one, given the data of the
    /// action that moves it; data of the wrong kind for the state is refused with
    /// `BadActionData` and the game is left as it was.
    pub fn next_state(&mut self, action_data: Option<&ActionData>) -> (res: Result<crate::game_enums::GameState, GameError>)
        requires
            has_next_state(old(self).state_data.game_state),
        ensures
            match next_state_of(old(self).state_data.game_state, match action_data { Some(d) => Some(*d), None => None }) {
                Some(n) => res matches Ok(r) && r == n && final(self).state_data.game_state == n,
                None => res matches Err(GameError::BadActionData) && final(self).state_data == old(self).state_data,
            },
            final(self)@ == (RegularGameModel { state_data: final(self).state_data, ..old(self)@ }),
    {
        self.state_data.next_state(action_data)
    }
}

} // verus!

verus! {

/// How many entries of a list of harbor types are `t`.
pub open spec fn type_count(s: Seq<HarborType>, t: HarborType) -> nat
    decreases s.len(),
{
    if s.len() == 0 {
        0
    } else {
        type_count(s.drop_last(), t) + if s.last() == t { 1nat } else { 0nat }
    }
}

/// The harbors of a regular game: nine in all, four trading three for one and, for each
/// of the five resources, exactly one trading it two for one.
pub proof fn lemma_regular_harbor_types(harbors: Seq<Harbor>, t: HarborType)
    requires
        harbors_from(harbors, regular_harbor_data()),
    ensures
        harbors.len() == 9,
        type_count(harbor_types(harbors), t) == if t == HarborType::ThreeForOne { 4nat } else { 1nat },
{
    let expected = seq![
        HarborType::Wheat, HarborType::Brick, HarborType::Sheep, HarborType::Ore,
        HarborType::ThreeForOne, HarborType::ThreeForOne, HarborType::ThreeForOne, HarborType::ThreeForOne,
        HarborType::Wood,
    ];
    assert(harbor_types(harbors) =~= expected) by {
        assert forall|i: int| 0 <= i < 9 implies harbor_types(harbors)[i] == expected[i] by {
            assert(harbors[i].harbor_type == regular_harbor_data()[i].harbor_type);
        }
    }
    assert(type_count(expected, t) == if t == HarborType::ThreeForOne { 4nat } else { 1nat }) by {
        reveal_with_fuel(type_count, 10);
        assert(expected.drop_last() =~= expected.take(8));
        assert(expected.take(8).drop_last() =~= expected.take(7));
        assert(expected.take(7).drop_last() =~= expected.take(6));
        assert(expected.take(6).drop_last() =~= expected.take(5));
        assert(expected.take(5).drop_last() =~= expected.take(4));
        assert(expected.take(4).drop_last() =~= expected.take(3));
        assert(expected.take(3).drop_last() =~= expected.take(2));
        assert(expected.take(2).drop_last() =~= expected.take(1));
        assert(expected.take(1).drop_last() =~= expected.take(0));
    }
}

} // verus!
