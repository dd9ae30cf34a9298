use catan_service::errors::ServiceErrorKind;
use catan_service::game_container::StateStacks;
use catan_service::player::User;
use catan_service::regular_game::RegularGame;

fn creator() -> User {
    User {
        id: Some("1".to_string()),
        partition_key: None,
        password_hash: None,
        password: None,
        email: "a@b.c".to_string(),
        first_name: "A".to_string(),
        last_name: "B".to_string(),
        display_name: "ab".to_string(),
        picture_url: String::new(),
        foreground_color: String::new(),
        background_color: String::new(),
        games_played: None,
        games_won: None,
    }
}

fn stacks_with(n: usize) -> (StateStacks, RegularGame) {
    let game = RegularGame::new(creator());
    let mut stacks = StateStacks::new();
    let mut g = game.clone();
    for _ in 0..n {
        stacks.push_game(&g);
        g = stacks.current().unwrap();
    }
    (stacks, game)
}

#[test]
fn empty_stacks_have_no_current_game() {
    let stacks = StateStacks::new();
    let err = stacks.current().unwrap_err();
    assert_eq!(err.kind, ServiceErrorKind::ContainerError);
    assert_eq!(err.message, "no current game available in this container!");
    assert_eq!(stacks.can_undo().unwrap(), false);
    assert_eq!(stacks.can_redo().unwrap(), false);
}

#[test]
fn push_makes_the_game_current_with_the_next_index() {
    let (mut stacks, game) = stacks_with(1);
    let current = stacks.current().unwrap();
    assert_eq!(current.game_index, game.game_index + 1);
    assert_eq!(current.id, game.id);
    assert_eq!(stacks.can_undo().unwrap(), false);
    stacks.push_game(&current);
    assert_eq!(stacks.current().unwrap().game_index, 2);
    assert_eq!(stacks.can_undo().unwrap(), true);
    assert_eq!(stacks.can_redo().unwrap(), false);
}

#[test]
fn the_first_game_is_never_undone() {
    let (mut stacks, _) = stacks_with(1);
    let err = stacks.undo().unwrap_err();
    assert_eq!(err.message, "current state does not allow an undo");
    assert_eq!(stacks.current().unwrap().game_index, 1);
}

#[test]
fn undo_moves_back_and_redo_moves_forward() {
    let (mut stacks, _) = stacks_with(2);
    let back = stacks.undo().unwrap();
    assert_eq!(back.game_index, 1);
    assert_eq!(stacks.can_redo().unwrap(), true);
    let again = stacks.redo().unwrap();
    assert_eq!(again.game_index, 2);
    assert_eq!(stacks.can_redo().unwrap(), false);
    let err = stacks.redo().unwrap_err();
    assert_eq!(err.kind, ServiceErrorKind::ContainerError);
    assert_eq!(err.message, "nothing to redo in this container");
    assert_eq!(stacks.current().unwrap().game_index, 2);
}

#[test]
fn undo_then_redo_restores_the_current_game() {
    let (mut stacks, _) = stacks_with(3);
    assert_eq!(stacks.undo().unwrap().game_index, 2);
    assert_eq!(stacks.undo().unwrap().game_index, 1);
    let again = stacks.redo().unwrap();
    assert_eq!(again.game_index, 2);
    assert_eq!(stacks.current().unwrap().game_index, 2);
    assert_eq!(stacks.undo().unwrap().game_index, 1);
    assert_eq!(stacks.redo().unwrap().game_index, 2);
}

#[test]
fn a_push_clears_the_redo_stack() {
    let (mut stacks, game) = stacks_with(3);
    stacks.undo().unwrap();
    assert!(stacks.can_redo().unwrap());
    stacks.push_game(&game);
    assert!(!stacks.can_redo().unwrap());
    assert_eq!(stacks.current().unwrap().game_index, 1);
}

#[test]
fn a_game_that_forbids_undo_stays() {
    let (mut stacks, mut game) = stacks_with(1);
    game.can_undo = false;
    stacks.push_game(&game);
    assert_eq!(stacks.can_undo().unwrap(), false);
    assert!(stacks.undo().is_err());
}

#[test]
fn copied_stacks_have_the_same_games() {
    let (stacks, _) = stacks_with(3);
    let copy = StateStacks::from_state_stacks(&stacks);
    assert_eq!(copy.current().unwrap().game_index, 3);
    assert_eq!(copy.can_undo().unwrap(), stacks.can_undo().unwrap());
}
