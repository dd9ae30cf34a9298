use vstd::prelude::*;
use crate::player::User;

verus! {

/// What a game is about and who plays it.
#[derive(Debug)]
pub struct GameData {
    pub id: String,
    pub players: Vec<User>,
}

/// The kinds of game the service knows.
#[derive(Clone, Copy, Debug, PartialEq, Eq, Structural)]
pub enum CatanGames {
    Regular,
    Expansion,
    Seafarers,
    Seafarers4Player,
}

/// The games the service offers.
#[derive(Debug)]
pub struct SupportedGames {
    pub catan_games: Vec<CatanGames>,
}

/// Whether a game is a test game.
#[derive(Clone, Copy, Debug, PartialEq, Eq, Structural)]
pub enum GameType {
    Test,
    Normal,
}

/// Whether a card shows its face.
#[derive(Clone, Copy, Debug, PartialEq, Eq, Structural)]
pub enum TileOrientation {
    FaceDown,
    FaceUp,
    Unoriented,
}

/// What a player is entitled to place or take.
#[derive(Clone, Copy, Debug, PartialEq, Eq, Structural)]
pub enum Entitlement {
    Undefined,
    DevCard,
    Settlement,
    City,
    Road,
}

/// What a player may ask a game to do.
#[derive(Clone, Copy, Debug, PartialEq, Eq, Structural)]
pub enum GameAction {
    AddPlayer,
    NewBoard,
    SetOrder,
    Start,
    Buy,
    Build,
    Roll,
    MoveBaron,
    Trade,
    Next,
    Undo,
    Redo,
}

/// What a game is doing now.
#[derive(Clone, Copy, Debug, PartialEq, Eq, Structural)]
pub enum GameState {
    AddingPlayers,
    ChoosingBoard,
    SettingPlayerOrder,
    AllocateResourceForward,
    AllocateResourceReverse,
    WaitingForRoll,
    MustMoveBaron,
    BuyingAndTrading,
    Supplemental,
    GameOver,
}

/// Whether a game is still being set up or already being played.
#[derive(Clone, Copy, Debug, PartialEq, Eq, Structural)]
pub enum GamePhase {
    SettingUp,
    Playing,
}

/// The kinds of resource card.
#[derive(Clone, Copy, Debug, PartialEq, Eq, Structural)]
pub enum ResourceType {
    Sheep,
    Wood,
    Ore,
    Wheat,
    Brick,
    GoldMine,
    Desert,
    Back,
    NoResource,
    Sea,
}

/// The kinds of development card.
#[derive(Clone, Copy, Debug, PartialEq, Eq, Structural)]
pub enum DevCardType {
    Knight,
    VictoryPoint,
    YearOfPlenty,
    RoadBuilding,
    Monopoly,
    Unknown,
    Back,
}

/// The kinds of message body.
#[derive(Clone, Copy, Debug, PartialEq, Eq, Structural)]
pub enum BodyType {
    TradeResources,
    NoBody,
    GameInfo,
    TradeResourcesList,
}

/// What comes with the action of placing a settlement during the forward round.
#[derive(Debug)]
pub struct AllocateResourceForwardData {
    pub user_id: String,
    pub is_last: bool,
}

/// What comes with the action of placing a settlement during the reverse round.
#[derive(Debug)]
pub struct AllocateResourceReverseData {
    pub user_id: String,
    pub is_first: bool,
}

impl SupportedGames {
    /// The games the service offers: the regular game only.
    pub fn regular_only() -> (res: SupportedGames)
        ensures
            res.catan_games@ == seq![CatanGames::Regular],
    {
        let v = vec![CatanGames::Regular];
        assert(v@ =~= seq![CatanGames::Regular]);
        SupportedGames { catan_games: v }
    }
}

} // verus!
