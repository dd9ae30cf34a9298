use catan_service::errors::GameError;
use catan_service::game_enums::{CatanGames, AllocateResourceForwardData, AllocateResourceReverseData, GameAction, GamePhase, GameState};
use catan_service::state::{ActionData, StateData};

#[test]
fn setup_states_advance_in_order() {
    let mut s = StateData::new(GameState::AddingPlayers);
    assert_eq!(s.next_state(None).unwrap(), GameState::ChoosingBoard);
    assert_eq!(s.next_state(None).unwrap(), GameState::SettingPlayerOrder);
    assert_eq!(s.next_state(None).unwrap(), GameState::AllocateResourceForward);
    assert_eq!(s.state(), GameState::AllocateResourceForward);
}

#[test]
fn allocation_rounds_follow_the_action_data() {
    let mut s = StateData::new(GameState::AllocateResourceForward);
    let not_last = ActionData::Forward(AllocateResourceForwardData { user_id: "u".to_string(), is_last: false });
    assert_eq!(s.next_state(Some(&not_last)).unwrap(), GameState::AllocateResourceForward);
    let last = ActionData::Forward(AllocateResourceForwardData { user_id: "u".to_string(), is_last: true });
    assert_eq!(s.next_state(Some(&last)).unwrap(), GameState::AllocateResourceReverse);
    assert_eq!(s.next_state(None).unwrap(), GameState::AllocateResourceReverse);
    let not_first = ActionData::Reverse(AllocateResourceReverseData { user_id: "u".to_string(), is_first: false });
    assert_eq!(s.next_state(Some(&not_first)).unwrap(), GameState::AllocateResourceForward);
    let mut r = StateData::new(GameState::AllocateResourceReverse);
    let first = ActionData::Reverse(AllocateResourceReverseData { user_id: "u".to_string(), is_first: true });
    assert_eq!(r.next_state(Some(&first)).unwrap(), GameState::WaitingForRoll);
    assert_eq!(r.phase(), GamePhase::Playing);
}

#[test]
fn wrong_action_data_is_refused_and_changes_nothing() {
    let mut s = StateData::new(GameState::AllocateResourceForward);
    let wrong = ActionData::Reverse(AllocateResourceReverseData { user_id: "u".to_string(), is_first: true });
    assert!(matches!(s.next_state(Some(&wrong)), Err(GameError::BadActionData)));
    assert_eq!(s.state(), GameState::AllocateResourceForward);
    let mut r = StateData::new(GameState::AllocateResourceReverse);
    let wrong = ActionData::Forward(AllocateResourceForwardData { user_id: "u".to_string(), is_last: true });
    assert!(matches!(r.next_state(Some(&wrong)), Err(GameError::BadActionData)));
    assert_eq!(r.state(), GameState::AllocateResourceReverse);
}

#[test]
fn actions_of_each_state() {
    assert_eq!(
        StateData::new(GameState::AddingPlayers).actions(),
        vec![GameAction::Next, GameAction::Undo, GameAction::AddPlayer]
    );
    assert_eq!(
        StateData::new(GameState::MustMoveBaron).actions(),
        vec![GameAction::MoveBaron, GameAction::Undo, GameAction::Redo]
    );
    assert_eq!(
        StateData::new(GameState::BuyingAndTrading).actions(),
        vec![GameAction::Next, GameAction::Undo, GameAction::Trade, GameAction::Buy, GameAction::Build]
    );
    for st in [
        GameState::AddingPlayers,
        GameState::ChoosingBoard,
        GameState::SettingPlayerOrder,
        GameState::AllocateResourceForward,
        GameState::AllocateResourceReverse,
        GameState::WaitingForRoll,
        GameState::MustMoveBaron,
        GameState::BuyingAndTrading,
        GameState::Supplemental,
    ] {
        assert!(StateData::new(st).actions().contains(&GameAction::Undo));
    }
}

#[test]
fn phases() {
    assert_eq!(StateData::new(GameState::ChoosingBoard).phase(), GamePhase::SettingUp);
    assert_eq!(StateData::new(GameState::Supplemental).phase(), GamePhase::Playing);
}

#[test]
fn only_the_regular_game_is_offered() {
    use_games();
}

fn use_games() {
    let offered = catan_service::games::supported_games();
    assert_eq!(offered.catan_games, vec![CatanGames::Regular]);
    let game = catan_service::games::new_game(CatanGames::Regular).unwrap();
    assert_eq!(game.id.len(), 32);
    assert!(game.players.is_empty());
    let e = catan_service::games::new_game(CatanGames::Seafarers).unwrap_err();
    assert_eq!(e.message, "Game not supported: Seafarers");
    assert_eq!(e.kind, catan_service::errors::ServiceErrorKind::UnsupportedGame);
}

#[test]
fn shuffled_vectors_keep_their_elements() {
    let original: Vec<u32> = (0..50).collect();
    let mut v = original.clone();
    catan_service::random::shuffle_vector(&mut v);
    assert_ne!(v, original);
    let mut sorted = v.clone();
    sorted.sort();
    assert_eq!(sorted, original);
    let mut short = vec![7u32];
    catan_service::random::shuffle_vector(&mut short);
    assert_eq!(short, vec![7]);
}
