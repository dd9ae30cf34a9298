use vstd::prelude::*;
use crate::errors::GameError;
use crate::game_enums::{AllocateResourceForwardData, AllocateResourceReverseData, GameAction, GamePhase, GameState};

verus! {

/// The phase a game is in while in a given state.
pub open spec fn phase_of(s: GameState) -> GamePhase {
    match s {
        GameState::AddingPlayers | GameState::ChoosingBoard | GameState::SettingPlayerOrder
        | GameState::AllocateResourceForward | GameState::AllocateResourceReverse => GamePhase::SettingUp,
        _ => GamePhase::Playing,
    }
}

/// The actions every game allows in a given state, in the order they are listed.
pub open spec fn actions_of(s: GameState) -> Seq<GameAction> {
    match s {
        GameState::AddingPlayers => seq![GameAction::Next, GameAction::Undo, GameAction::AddPlayer],
        GameState::ChoosingBoard => seq![GameAction::Next, GameAction::Undo, GameAction::NewBoard],
        GameState::SettingPlayerOrder => seq![GameAction::Next, GameAction::Undo, GameAction::SetOrder],
        GameState::AllocateResourceForward => seq![GameAction::Next, GameAction::Undo, GameAction::Build],
        GameState::AllocateResourceReverse => seq![GameAction::Next, GameAction::Undo, GameAction::Build],
        GameState::WaitingForRoll => seq![GameAction::Next, GameAction::Undo, GameAction::Roll],
        GameState::MustMoveBaron => seq![GameAction::MoveBaron, GameAction::Undo, GameAction::Redo],
        GameState::BuyingAndTrading => seq![
            GameAction::Next, GameAction::Undo, GameAction::Trade, GameAction::Buy, GameAction::Build,
        ],
        GameState::Supplemental => seq![GameAction::Next, GameAction::Undo, GameAction::Buy, GameAction::Build],
        GameState::GameOver => Seq::empty(),
    }
}

/// The data that comes with a request to move a game to its next state.
#[derive(Debug)]
pub enum ActionData {
    Forward(AllocateResourceForwardData),
    Reverse(AllocateResourceReverseData),
}

/// The states whose successor is defined.
pub open spec fn has_next_state(s: GameState) -> bool {
    match s {
        GameState::AddingPlayers | GameState::ChoosingBoard | GameState::SettingPlayerOrder
        | GameState::AllocateResourceForward | GameState::AllocateResourceReverse => true,
        _ => false,
    }
}

/// The state that follows `s` given the data of the action: `None` where the data is
/// of the wrong kind for the state.
pub open spec fn next_state_of(s: GameState, data: Option<ActionData>) -> Option<GameState> {
    match s {
        GameState::AddingPlayers => Some(GameState::ChoosingBoard),
        GameState::ChoosingBoard => Some(GameState::SettingPlayerOrder),
        GameState::SettingPlayerOrder => Some(GameState::AllocateResourceForward),
        GameState::AllocateResourceForward => match data {
            Some(ActionData::Forward(d)) => Some(
                if d.is_last { GameState::AllocateResourceReverse } else { GameState::AllocateResourceForward },
            ),
            None => Some(GameState::AllocateResourceForward),
            Some(ActionData::Reverse(_)) => None,
        },
        GameState::AllocateResourceReverse => match data {
            Some(ActionData::Reverse(d)) => Some(
                if d.is_first { GameState::WaitingForRoll } else { GameState::AllocateResourceForward },
            ),
            None => Some(GameState::AllocateResourceReverse),
            Some(ActionData::Forward(_)) => None,
        },
        _ => None,
    }
}

/// The state of a game, from which its phase and its allowed actions follow.
#[derive(Clone, Copy, Debug, PartialEq, Eq, Structural)]
pub struct StateData {
    pub game_state: GameState,
}

impl StateData {
    /// The state data of a game in state `state`.
    pub fn new(state: GameState) -> (res: StateData)
        ensures
            res.game_state == state,
    {
        StateData { game_state: state }
    }

    /// The current state.
    pub fn state(&self) -> (res: GameState)
        ensures
            res == self.game_state,
    {
        self.game_state
    }

    /// Setting up until resources have been allocated in both rounds; playing afterwards.
    pub fn phase(&self) -> (res: GamePhase)
        ensures
            res == phase_of(self.game_state),
    {
        match self.game_state {
            GameState::AddingPlayers => GamePhase::SettingUp,
            GameState::ChoosingBoard => GamePhase::SettingUp,
            GameState::SettingPlayerOrder => GamePhase::SettingUp,
            GameState::AllocateResourceForward => GamePhase::SettingUp,
            GameState::AllocateResourceReverse => GamePhase::SettingUp,
            _ => GamePhase::Playing,
        }
    }

    /// The actions that every game allows in the current state: Next and Undo, and the
    /// action the state is about (only MoveBaron, Undo and Redo while the baron must move).
    pub fn actions(&self) -> (res: Vec<GameAction>)
        requires
            self.game_state != GameState::GameOver,
        ensures
            res@ == actions_of(self.game_state),
    {
        let mut actions = vec![GameAction::Next, GameAction::Undo];
        match self.game_state {
            GameState::AddingPlayers => actions.push(GameAction::AddPlayer),
            GameState::ChoosingBoard => actions.push(GameAction::NewBoard),
            GameState::SettingPlayerOrder => actions.push(GameAction::SetOrder),
            GameState::AllocateResourceForward => actions.push(GameAction::Build),
            GameState::AllocateResourceReverse => actions.push(GameAction::Build),
            GameState::WaitingForRoll => actions.push(GameAction::Roll),
            GameState::MustMoveBaron => {
                actions = vec![GameAction::MoveBaron, GameAction::Undo, GameAction::Redo];
            },
            GameState::BuyingAndTrading => {
                let mut more = vec![GameAction::Trade, GameAction::Buy, GameAction::Build];
                actions.append(&mut more);
            },
            GameState::Supplemental => {
                let mut more = vec![GameAction::Buy, GameAction::Build];
                actions.append(&mut more);
            },
            GameState::GameOver => {},
        }
        assert(actions@ =~= actions_of(self.game_state));
        actions
    }

    /// Moves the game to its next state, given the data of the action that moves it.
    /// Data of the wrong kind for the state is refused with `BadActionData` and the
    /// state is left as it was.
    pub fn next_state(&mut self, action_data: Option<&ActionData>) -> (res: Result<GameState, GameError>)
        requires
            has_next_state(old(self).game_state),
        ensures
            match next_state_of(old(self).game_state, match action_data { Some(d) => Some(*d), None => None }) {
                Some(n) => res matches Ok(r) && r == n && final(self).game_state == n,
                None => res matches Err(GameError::BadActionData) && *final(self) == *old(self),
            },
    {
        let state = match self.game_state {
            GameState::AddingPlayers => GameState::ChoosingBoard,
            GameState::ChoosingBoard => GameState::SettingPlayerOrder,
            GameState::SettingPlayerOrder => GameState::AllocateResourceForward,
            GameState::AllocateResourceForward => match action_data {
                Some(ActionData::Forward(data)) => {
                    if data.is_last {
                        GameState::AllocateResourceReverse
                    } else {
                        GameState::AllocateResourceForward
                    }
                },
                None => GameState::AllocateResourceForward,
                Some(ActionData::Reverse(_)) => {
                    return Err(GameError::BadActionData);
                },
            },
            GameState::AllocateResourceReverse => match action_data {
                Some(ActionData::Reverse(data)) => {
                    if data.is_first {
                        GameState::WaitingForRoll
                    } else {
                        GameState::AllocateResourceForward
                    }
                },
                None => GameState::AllocateResourceReverse,
                Some(ActionData::Forward(_)) => {
                    return Err(GameError::BadActionData);
                },
            },
            _ => GameState::GameOver,
        };
        self.game_state = state;
        Ok(state)
    }
}

/// Every state but the last allows Undo, whatever else it allows.
pub proof fn lemma_undo_always_allowed(s: GameState)
    requires
        s != GameState::GameOver,
    ensures
        actions_of(s).contains(GameAction::Undo),
{
    assert(actions_of(s)[1] == GameAction::Undo);
}

/// Next is allowed in every state but the last, except while the baron must move.
pub proof fn lemma_next_allowed(s: GameState)
    ensures
        actions_of(s).contains(GameAction::Next) <==> (s != GameState::GameOver && s != GameState::MustMoveBaron),
{
    if s != GameState::GameOver && s != GameState::MustMoveBaron {
        assert(actions_of(s)[0] == GameAction::Next);
    }
}

/// While setting up, the next state is again a setting-up state or the first roll:
/// the state machine never skips past waiting for the first roll.
pub proof fn lemma_setup_leads_to_roll(s: GameState, data: Option<ActionData>)
    requires
        has_next_state(s),
        next_state_of(s, data) is Some,
    ensures
        phase_of(s) == GamePhase::SettingUp,
        phase_of(next_state_of(s, data)->0) == GamePhase::SettingUp
            || next_state_of(s, data)->0 == GameState::WaitingForRoll,
{
}

} // verus!

verus! {

/// Each action that belongs to one part of the game is offered exactly in the states of
/// that part: rolling only while waiting for the roll, moving the baron (and redoing) only
/// while the baron must move, adding players, choosing the board and setting the order
/// each only in its own setup state, trading only while buying and trading, buying in the
/// two buying states, and building while resources are allocated or bought.
pub proof fn lemma_actions_belong_to_their_states(s: GameState)
    ensures
        actions_of(s).contains(GameAction::Roll) <==> s == GameState::WaitingForRoll,
        actions_of(s).contains(GameAction::MoveBaron) <==> s == GameState::MustMoveBaron,
        actions_of(s).contains(GameAction::Redo) <==> s == GameState::MustMoveBaron,
        actions_of(s).contains(GameAction::AddPlayer) <==> s == GameState::AddingPlayers,
        actions_of(s).contains(GameAction::NewBoard) <==> s == GameState::ChoosingBoard,
        actions_of(s).contains(GameAction::SetOrder) <==> s == GameState::SettingPlayerOrder,
        actions_of(s).contains(GameAction::Trade) <==> s == GameState::BuyingAndTrading,
        actions_of(s).contains(GameAction::Buy)
            <==> (s == GameState::BuyingAndTrading || s == GameState::Supplemental),
        actions_of(s).contains(GameAction::Build) <==> (s == GameState::AllocateResourceForward
            || s == GameState::AllocateResourceReverse || s == GameState::BuyingAndTrading
            || s == GameState::Supplemental),
{
    let a = actions_of(s);
    assert forall|x: GameAction| a.contains(x) <==> (exists|i: int| 0 <= i < a.len() && a[i] == x) by {}
    match s {
        GameState::AddingPlayers => {
            assert(a[2] == GameAction::AddPlayer);
        },
        GameState::ChoosingBoard => {
            assert(a[2] == GameAction::NewBoard);
        },
        GameState::SettingPlayerOrder => {
            assert(a[2] == GameAction::SetOrder);
        },
        GameState::AllocateResourceForward | GameState::AllocateResourceReverse => {
            assert(a[2] == GameAction::Build);
        },
        GameState::WaitingForRoll => {
            assert(a[2] == GameAction::Roll);
        },
        GameState::MustMoveBaron => {
            assert(a[0] == GameAction::MoveBaron);
            assert(a[2] == GameAction::Redo);
        },
        GameState::BuyingAndTrading => {
            assert(a[2] == GameAction::Trade);
            assert(a[3] == GameAction::Buy);
            assert(a[4] == GameAction::Build);
        },
        GameState::Supplemental => {
            assert(a[2] == GameAction::Buy);
            assert(a[3] == GameAction::Build);
        },
        GameState::GameOver => {},
    }
}

} // verus!
