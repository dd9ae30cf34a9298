use vstd::prelude::*;
use crate::buildings::Building;
use crate::harbors::Harbor;
use crate::roads::{clone_roads, road_list_model, Road, RoadModel};
use crate::buildings::{building_models, clone_buildings, BuildingModel};

verus! {

/// A user of the service as a game sees it.
#[derive(Debug)]
pub struct User {
    pub id: Option<String>,
    pub partition_key: Option<u64>,
    pub password_hash: Option<String>,
    pub password: Option<String>,
    pub email: String,
    pub first_name: String,
    pub last_name: String,
    pub display_name: String,
    pub picture_url: String,
    pub foreground_color: String,
    pub background_color: String,
    pub games_played: Option<u16>,
    pub games_won: Option<u16>,
}

impl Clone for User {
    /// A copy of the user.
    fn clone(&self) -> (res: User)
        ensures
            res == *self,
    {
        User {
            id: self.id.clone(),
            partition_key: self.partition_key,
            password_hash: self.password_hash.clone(),
            password: self.password.clone(),
            email: self.email.clone(),
            first_name: self.first_name.clone(),
            last_name: self.last_name.clone(),
            display_name: self.display_name.clone(),
            picture_url: self.picture_url.clone(),
            foreground_color: self.foreground_color.clone(),
            background_color: self.background_color.clone(),
            games_played: self.games_played,
            games_won: self.games_won,
        }
    }
}

/// What brought a player to lose cards or be targeted.
#[derive(Clone, Copy, Debug, PartialEq, Eq, Structural)]
pub enum Weapon {
    Knight,
    RolledSeven,
    PirateShip,
}

/// A hit on another player: the weapon and the id of the player hit.
#[derive(Debug)]
pub struct Target {
    pub weapon: Weapon,
    pub target: String,
}

/// Resources won per kind.
#[derive(Clone, Copy, Debug, PartialEq, Eq, Structural)]
pub struct WonResources {
    pub sheep: i8,
    pub wood: i8,
    pub wheat: i8,
    pub ore: i8,
    pub brick: i8,
    pub gold: i8,
}

impl WonResources {
    /// Creates the counts from one number per resource kind.
    pub fn new(sheep: i8, wood: i8, wheat: i8, ore: i8, brick: i8, gold: i8) -> (res: WonResources)
        ensures
            res == (WonResources { sheep, wood, wheat, ore, brick, gold }),
    {
        WonResources { sheep, wood, wheat, ore, brick, gold }
    }

    /// All counts zero.
    pub fn default() -> (res: WonResources)
        ensures
            res == (WonResources { sheep: 0, wood: 0, wheat: 0, ore: 0, brick: 0, gold: 0 }),
    {
        WonResources::new(0, 0, 0, 0, 0, 0)
    }
}

/// The totals of resources a player has acquired and lost.
#[derive(Clone, Copy, Debug, PartialEq, Eq, Structural)]
pub struct ResourceCount {
    pub acquired: i32,
    pub lost: i32,
}

impl ResourceCount {
    /// Nothing acquired, nothing lost.
    pub fn new() -> (res: ResourceCount)
        ensures
            res == (ResourceCount { acquired: 0, lost: 0 }),
    {
        ResourceCount { acquired: 0, lost: 0 }
    }

    /// The number of resources acquired.
    pub fn acquired(&self) -> (n: i32)
        ensures
            n == self.acquired,
    {
        self.acquired
    }

    /// The number of resources lost.
    pub fn lost(&self) -> (n: i32)
        ensures
            n == self.lost,
    {
        self.lost
    }
}

/// Figures derived from a player's moves.
#[derive(Clone, Copy, Debug, PartialEq, Eq, Structural)]
pub struct CalculatedState {
    pub knights_played: i8,
    pub longest_road: i8,
    pub total_resources: i8,
    pub won_resources: WonResources,
    pub has_longest_road: bool,
    pub has_largest_army: bool,
    pub city_count: i8,
    pub settlement_count: i8,
    pub road_count: i8,
    pub ship_count: i8,
    pub known_score: i8,
    pub times_targeted: i8,
    pub pip_count: i8,
    pub is_current_player: bool,
    pub max_no_resources_run: i8,
}

/// Every count zero and every flag false.
pub open spec fn initial_calculated_state() -> CalculatedState {
    CalculatedState {
        knights_played: 0,
        longest_road: 0,
        total_resources: 0,
        won_resources: WonResources { sheep: 0, wood: 0, wheat: 0, ore: 0, brick: 0, gold: 0 },
        has_longest_road: false,
        has_largest_army: false,
        city_count: 0,
        settlement_count: 0,
        road_count: 0,
        ship_count: 0,
        known_score: 0,
        times_targeted: 0,
        pip_count: 0,
        is_current_player: false,
        max_no_resources_run: 0,
    }
}

impl CalculatedState {
    /// Every count zero and every flag false.
    pub fn default() -> (res: CalculatedState)
        ensures
            res == initial_calculated_state(),
    {
        CalculatedState {
            knights_played: 0,
            longest_road: 0,
            total_resources: 0,
            won_resources: WonResources::default(),
            has_longest_road: false,
            has_largest_army: false,
            city_count: 0,
            settlement_count: 0,
            road_count: 0,
            ship_count: 0,
            known_score: 0,
            times_targeted: 0,
            pip_count: 0,
            is_current_player: false,
            max_no_resources_run: 0,
        }
    }
}

/// A player: the user and everything that follows from the player's moves.
#[derive(Debug)]
pub struct Player {
    pub user_data: User,
    pub roads: Vec<Road>,
    pub buildings: Vec<Building>,
    pub harbors: Vec<Harbor>,
    pub targets: Vec<Target>,
    pub resource_count: ResourceCount,
    pub good_rolls: i8,
    pub bad_rolls: i8,
    pub state: CalculatedState,
}

impl Player {
    /// A player who has not moved yet: nothing owned, every count zero.
    pub open spec fn is_new_for(self, user: User) -> bool {
        &&& self.user_data == user
        &&& self.roads@.len() == 0
        &&& self.buildings@.len() == 0
        &&& self.harbors@.len() == 0
        &&& self.targets@.len() == 0
        &&& self.resource_count == (ResourceCount { acquired: 0, lost: 0 })
        &&& self.good_rolls == 0
        &&& self.bad_rolls == 0
        &&& self.state == initial_calculated_state()
    }

    /// The user as a player who has not moved yet.
    pub fn new(user: User) -> (res: Player)
        ensures
            res.is_new_for(user),
    {
        Player {
            user_data: user,
            roads: Vec::new(),
            buildings: Vec::new(),
            harbors: Vec::new(),
            targets: Vec::new(),
            resource_count: ResourceCount::new(),
            good_rolls: 0,
            bad_rolls: 0,
            state: CalculatedState::default(),
        }
    }
}

impl Clone for Target {
    /// A copy of the hit.
    fn clone(&self) -> (res: Target)
        ensures
            res == *self,
    {
        Target { weapon: self.weapon, target: self.target.clone() }
    }
}

/// What a player holds, the roads and corners taken by what they hold.
pub struct PlayerModel {
    pub user_data: User,
    pub roads: Seq<RoadModel>,
    pub buildings: Seq<BuildingModel>,
    pub harbors: Seq<Harbor>,
    pub targets: Seq<Target>,
    pub resource_count: ResourceCount,
    pub good_rolls: i8,
    pub bad_rolls: i8,
    pub state: CalculatedState,
}

/// What a player holds.
pub open spec fn player_model(p: Player) -> PlayerModel {
    PlayerModel {
        user_data: p.user_data,
        roads: road_list_model(p.roads@),
        buildings: building_models(p.buildings@),
        harbors: p.harbors@,
        targets: p.targets@,
        resource_count: p.resource_count,
        good_rolls: p.good_rolls,
        bad_rolls: p.bad_rolls,
        state: p.state,
    }
}

/// What each player of a list holds, in order.
pub open spec fn player_models(s: Seq<Player>) -> Seq<PlayerModel> {
    s.map_values(|p: Player| player_model(p))
}

impl Clone for Player {
    /// A copy of the player.
    fn clone(&self) -> (res: Player)
        ensures
            player_model(res) == player_model(*self),
    {
        let res = Player {
            user_data: self.user_data.clone(),
            roads: clone_roads(&self.roads),
            buildings: clone_buildings(&self.buildings),
            harbors: self.harbors.clone(),
            targets: self.targets.clone(),
            resource_count: self.resource_count,
            good_rolls: self.good_rolls,
            bad_rolls: self.bad_rolls,
            state: self.state,
        };
        assert(res.harbors@ =~= self.harbors@);
        assert(res.targets@ =~= self.targets@);
        res
    }
}

/// Copies of the players of a list, in order.
pub fn clone_players(v: &Vec<Player>) -> (res: Vec<Player>)
    ensures
        player_models(res@) == player_models(v@),
{
    let res = v.clone();
    assert(player_models(res@) =~= player_models(v@));
    res
}

} // verus!
