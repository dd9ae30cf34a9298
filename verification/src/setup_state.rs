use vstd::prelude::*;
use crate::game_enums::GamePhase;

verus! {

/// The states of the regular game's own state machine.
#[derive(Clone, Copy, Debug, PartialEq, Eq, Structural)]
pub enum GameState {
    AddingPlayers,
    ChoosingBoard,
    SettingPlayerOrder,
    WaitingForStart,
    AllocateResourceForward,
    AllocateResourceReverse,
    WaitingForRoll,
    MustMoveBaron,
    BuyingAndTrading,
    Supplemental,
}

/// The actions of the regular game's own state machine.
#[derive(Clone, Copy, Debug, PartialEq, Eq, Structural)]
pub enum GameActions {
    AddPlayer,
    RemovePlayer,
    Done,
    NewBoard,
    SetOrder,
    Build,
    Roll,
    MoveBaron,
    Trade,
    Buy,
}

/// The actions allowed in a state, in the order they are listed.
pub open spec fn setup_actions_of(s: GameState) -> Seq<GameActions> {
    match s {
        GameState::AddingPlayers => seq![GameActions::AddPlayer, GameActions::RemovePlayer, GameActions::Done],
        GameState::ChoosingBoard => seq![GameActions::NewBoard, GameActions::Done],
        GameState::SettingPlayerOrder => seq![GameActions::Done, GameActions::SetOrder],
        GameState::WaitingForStart => seq![GameActions::Done],
        GameState::AllocateResourceForward => seq![GameActions::Done, GameActions::Build],
        GameState::AllocateResourceReverse => seq![GameActions::Done, GameActions::Build],
        GameState::WaitingForRoll => seq![GameActions::Done, GameActions::Roll],
        GameState::MustMoveBaron => seq![GameActions::Done, GameActions::MoveBaron],
        GameState::BuyingAndTrading => seq![
            GameActions::Done, GameActions::Trade, GameActions::Buy, GameActions::Build,
        ],
        GameState::Supplemental => seq![GameActions::Done, GameActions::Buy, GameActions::Build],
    }
}

/// The states whose successor the state machine defines.
pub open spec fn setup_has_next(s: GameState) -> bool {
    match s {
        GameState::AddingPlayers | GameState::ChoosingBoard | GameState::SettingPlayerOrder
        | GameState::WaitingForStart => true,
        _ => false,
    }
}

/// The successor of a state, where defined.
pub open spec fn setup_next_of(s: GameState) -> GameState {
    match s {
        GameState::AddingPlayers => GameState::ChoosingBoard,
        GameState::ChoosingBoard => GameState::SettingPlayerOrder,
        GameState::SettingPlayerOrder => GameState::WaitingForStart,
        _ => GameState::AllocateResourceForward,
    }
}

/// The regular game's state machine: the state, the phase and the actions allowed.
#[derive(Debug)]
pub struct GameStateMachine {
    pub game_state: GameState,
    pub phase: GamePhase,
    pub actions: Vec<GameActions>,
}

impl GameStateMachine {
    /// The actions match the state.
    pub open spec fn well_formed(self) -> bool {
        self.actions@ == setup_actions_of(self.game_state)
    }

    /// A new game adds players while setting up.
    pub fn new() -> (res: GameStateMachine)
        ensures
            res.game_state == GameState::AddingPlayers,
            res.phase == GamePhase::SettingUp,
            res.well_formed(),
    {
        GameStateMachine {
            game_state: GameState::AddingPlayers,
            phase: GamePhase::SettingUp,
            actions: Self::get_actions(GameState::AddingPlayers),
        }
    }

    /// The actions allowed in a state.
    pub fn get_actions(state: GameState) -> (res: Vec<GameActions>)
        ensures
            res@ == setup_actions_of(state),
    {
        let v = match state {
            GameState::AddingPlayers => vec![
                GameActions::AddPlayer,
                GameActions::RemovePlayer,
                GameActions::Done,
            ],
            GameState::ChoosingBoard => vec![GameActions::NewBoard, GameActions::Done],
            GameState::SettingPlayerOrder => vec![GameActions::Done, GameActions::SetOrder],
            GameState::WaitingForStart => vec![GameActions::Done],
            GameState::AllocateResourceForward => vec![GameActions::Done, GameActions::Build],
            GameState::AllocateResourceReverse => vec![GameActions::Done, GameActions::Build],
            GameState::WaitingForRoll => vec![GameActions::Done, GameActions::Roll],
            GameState::MustMoveBaron => vec![GameActions::Done, GameActions::MoveBaron],
            GameState::BuyingAndTrading => vec![
                GameActions::Done,
                GameActions::Trade,
                GameActions::Buy,
                GameActions::Build,
            ],
            GameState::Supplemental => vec![
                GameActions::Done,
                GameActions::Buy,
                GameActions::Build,
            ],
        };
        assert(v@ =~= setup_actions_of(state));
        v
    }

    /// Moves to the next state (adding players, choosing the board, setting the player
    /// order, waiting for the start, allocating resources) and lists its actions; the
    /// phase stays as it was.
    pub fn next_state(&mut self) -> (res: GameState)
        requires
            setup_has_next(old(self).game_state),
        ensures
            res == setup_next_of(old(self).game_state),
            final(self).game_state == res,
            final(self).phase == old(self).phase,
            final(self).well_formed(),
    {
        let state = match self.game_state {
            GameState::AddingPlayers => GameState::ChoosingBoard,
            GameState::ChoosingBoard => GameState::SettingPlayerOrder,
            GameState::SettingPlayerOrder => GameState::WaitingForStart,
            _ => GameState::AllocateResourceForward,
        };
        self.game_state = state;
        self.actions = Self::get_actions(state);
        self.game_state
    }
}

impl Clone for GameStateMachine {
    /// A copy of the state machine.
    fn clone(&self) -> (res: GameStateMachine)
        ensures
            res.game_state == self.game_state,
            res.phase == self.phase,
            res.actions@ == self.actions@,
    {
        let res = GameStateMachine {
            game_state: self.game_state,
            phase: self.phase,
            actions: self.actions.clone(),
        };
        assert(res.actions@ =~= self.actions@);
        res
    }
}

/// Every state lists Done among its actions.
pub proof fn lemma_done_always_allowed(s: GameState)
    ensures
        setup_actions_of(s).contains(GameActions::Done),
{
    match s {
        GameState::AddingPlayers => assert(setup_actions_of(s)[2] == GameActions::Done),
        GameState::ChoosingBoard => assert(setup_actions_of(s)[1] == GameActions::Done),
        _ => assert(setup_actions_of(s)[0] == GameActions::Done),
    }
}

} // verus!

verus! {

/// Each action of the regular game's machine is offered exactly in the states it belongs
/// to: adding and removing players only while adding players, a new board only while
/// choosing it, setting the order only while setting it, rolling only while waiting for
/// the roll, moving the baron only while the baron must move, trading only while buying
/// and trading, buying in the two buying states, and building while resources are
/// allocated or bought.
pub proof fn lemma_setup_actions_belong_to_their_states(s: GameState)
    ensures
        setup_actions_of(s).contains(GameActions::AddPlayer) <==> s == GameState::AddingPlayers,
        setup_actions_of(s).contains(GameActions::RemovePlayer) <==> s == GameState::AddingPlayers,
        setup_actions_of(s).contains(GameActions::NewBoard) <==> s == GameState::ChoosingBoard,
        setup_actions_of(s).contains(GameActions::SetOrder) <==> s == GameState::SettingPlayerOrder,
        setup_actions_of(s).contains(GameActions::Roll) <==> s == GameState::WaitingForRoll,
        setup_actions_of(s).contains(GameActions::MoveBaron) <==> s == GameState::MustMoveBaron,
        setup_actions_of(s).contains(GameActions::Trade) <==> s == GameState::BuyingAndTrading,
        setup_actions_of(s).contains(GameActions::Buy)
            <==> (s == GameState::BuyingAndTrading || s == GameState::Supplemental),
        setup_actions_of(s).contains(GameActions::Build) <==> (s == GameState::AllocateResourceForward
            || s == GameState::AllocateResourceReverse || s == GameState::BuyingAndTrading
            || s == GameState::Supplemental),
{
    let a = setup_actions_of(s);
    match s {
        GameState::AddingPlayers => {
            assert(a[0] == GameActions::AddPlayer);
            assert(a[1] == GameActions::RemovePlayer);
        },
        GameState::ChoosingBoard => {
            assert(a[0] == GameActions::NewBoard);
        },
        GameState::SettingPlayerOrder => {
            assert(a[1] == GameActions::SetOrder);
        },
        GameState::AllocateResourceForward | GameState::AllocateResourceReverse => {
            assert(a[1] == GameActions::Build);
        },
        GameState::WaitingForRoll => {
            assert(a[1] == GameActions::Roll);
        },
        GameState::MustMoveBaron => {
            assert(a[1] == GameActions::MoveBaron);
        },
        GameState::BuyingAndTrading => {
            assert(a[1] == GameActions::Trade);
            assert(a[2] == GameActions::Buy);
            assert(a[3] == GameActions::Build);
        },
        GameState::Supplemental => {
            assert(a[1] == GameActions::Buy);
            assert(a[2] == GameActions::Build);
        },
        GameState::WaitingForStart => {},
    }
}

} // verus!
