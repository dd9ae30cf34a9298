use catan_service::game_enums::GamePhase;
use catan_service::player::User;
use catan_service::regular_game::RegularGame;
use catan_service::setup_state::{GameActions, GameState};
use catan_service::tiles::TileResource;
use std::collections::HashMap;

fn user(id: &str, key: u64, n: &str, first: &str, last: &str, display: &str, fg: &str, bg: &str, played: u16, won: u16) -> User {
    User {
        id: Some(id.to_string()),
        partition_key: Some(key),
        password_hash: Some(format!("hash{}", n)),
        password: Some(format!("password{}", n)),
        email: format!("test{}@example.com", n),
        first_name: first.to_string(),
        last_name: last.to_string(),
        display_name: display.to_string(),
        picture_url: format!("https://example.com/picture{}.jpg", n),
        foreground_color: fg.to_string(),
        background_color: bg.to_string(),
        games_played: Some(played),
        games_won: Some(won),
    }
}

fn first_user() -> User {
    user("1", 456, "", "John", "Doe", "johndoe", "#000000", "#FFFFFF", 10, 2)
}

fn second_user() -> User {
    user("2", 101, "1", "Jane", "Smith", "janesmith", "#FF0000", "#00FF00", 5, 1)
}

fn third_user() -> User {
    user("3", 202, "2", "Mike", "Johnson", "mikejohnson", "#0000FF", "#FFFF00", 8, 3)
}

fn check_desert(game: &RegularGame) {
    let desert_tile = game
        .tiles
        .iter()
        .find(|tile| tile.current_resource == TileResource::Desert)
        .expect("desert must be here");
    assert_eq!(desert_tile.roll, 7);
    let desert_tile = game.tiles.iter().find(|tile| tile.roll == 7).expect("desert must be here");
    assert_eq!(desert_tile.current_resource, TileResource::Desert);
    assert_eq!(desert_tile.original_resource, TileResource::Desert);
}

fn check_rolls_and_resources(game: &RegularGame) {
    let mut roll_counts: HashMap<i32, i32> = HashMap::new();
    for tile in game.tiles.iter() {
        *roll_counts.entry(tile.roll as i32).or_insert(0) += 1;
    }
    assert_eq!(*roll_counts.get(&2).expect("2"), 1);
    assert_eq!(*roll_counts.get(&3).expect("3"), 2);
    assert_eq!(*roll_counts.get(&4).expect("4"), 2);
    assert_eq!(*roll_counts.get(&5).expect("5"), 2);
    assert_eq!(*roll_counts.get(&6).expect("6"), 2);
    assert_eq!(*roll_counts.get(&7).expect("7"), 1);
    assert_eq!(*roll_counts.get(&8).expect("8"), 2);
    assert_eq!(*roll_counts.get(&9).expect("9"), 2);
    assert_eq!(*roll_counts.get(&10).expect("10"), 2);
    assert_eq!(*roll_counts.get(&11).expect("11"), 2);
    assert_eq!(*roll_counts.get(&12).expect("12"), 1);

    let mut resource_counts: HashMap<TileResource, i32> = HashMap::new();
    for tile in game.tiles.iter() {
        *resource_counts.entry(tile.current_resource).or_insert(0) += 1;
    }
    assert_eq!(*resource_counts.get(&TileResource::Wheat).expect("4"), 4);
    assert_eq!(*resource_counts.get(&TileResource::Wood).expect("4"), 4);
    assert_eq!(*resource_counts.get(&TileResource::Brick).expect("3"), 3);
    assert_eq!(*resource_counts.get(&TileResource::Sheep).expect("4"), 4);
    assert_eq!(*resource_counts.get(&TileResource::Ore).expect("3"), 3);
    assert_eq!(*resource_counts.get(&TileResource::Desert).expect("3"), 1);
}

fn verify_state_and_actions(
    game: &RegularGame,
    name: &str,
    phase: GamePhase,
    expected_state: GameState,
    expected_actions: Vec<GameActions>,
) {
    println!("{}", name);
    assert_eq!(game.state_machine.phase, phase);
    assert_eq!(game.state_machine.game_state, expected_state);
    let actions = &game.state_machine.actions;
    assert!(
        expected_actions.iter().all(|action| actions.contains(action)),
        "Not all expected actions are present"
    );
}

fn create_and_add_players() -> RegularGame {
    let mut game = RegularGame::new(first_user());
    game.add_user(second_user());
    game.add_user(third_user());
    game
}

#[test]
fn regular_game_test_regular_game() {
    let mut game = create_and_add_players();
    game.shuffle();
    check_desert(&game);
    check_rolls_and_resources(&game);
    game.set_player_order(vec!["3".to_string(), "2".to_string(), "1".to_string()]).unwrap();
    assert_eq!(game.players[0].user_data.id.as_ref().unwrap(), "3");
    assert_eq!(game.players[1].user_data.id.as_ref().unwrap(), "2");
    assert_eq!(game.players[2].user_data.id.as_ref().unwrap(), "1");
}

#[test]
fn tests_test_regular_game() {
    println!("test_regular_game");
    let mut game = RegularGame::new(first_user());
    verify_state_and_actions(
        &game,
        "test_add_players",
        GamePhase::SettingUp,
        GameState::AddingPlayers,
        vec![GameActions::AddPlayer, GameActions::RemovePlayer, GameActions::Done],
    );
    game.add_user(second_user());
    game.add_user(third_user());
    game.state_machine.next_state();
    for _ in 0..2 {
        verify_state_and_actions(
            &game,
            "test_shuffle",
            GamePhase::SettingUp,
            GameState::ChoosingBoard,
            vec![GameActions::NewBoard, GameActions::Done],
        );
        game.shuffle();
        check_desert(&game);
        check_rolls_and_resources(&game);
    }
    game.state_machine.next_state();

    assert_eq!(game.state_machine.phase, GamePhase::SettingUp);
    assert_eq!(game.state_machine.game_state, GameState::SettingPlayerOrder);
    let expected_actions = vec![GameActions::Done, GameActions::SetOrder];
    assert!(
        expected_actions.iter().all(|action| game.state_machine.actions.contains(action)),
        "Not all expected actions are present"
    );
    game.set_player_order(vec!["3".to_string(), "2".to_string(), "1".to_string()]).unwrap();
    assert_eq!(game.player_order[0], "3");
    assert_eq!(game.player_order[1], "2");
    assert_eq!(game.player_order[2], "1");
    assert_eq!(game.current_player_id, "3");
    let p = game.get_next_player().unwrap();
    assert_eq!(game.current_player_id, p.user_data.id.unwrap());
    let p = game.get_next_player().unwrap();
    assert_eq!(game.current_player_id, p.user_data.id.unwrap());
    assert_eq!(game.current_player_id, "1");
    let p = game.get_next_player().unwrap();
    assert_eq!(game.current_player_id, p.user_data.id.unwrap());
    assert_eq!(game.current_player_id, "3");

    game.state_machine.next_state();
    verify_state_and_actions(
        &game,
        "WaitingForStart",
        GamePhase::SettingUp,
        GameState::WaitingForStart,
        vec![GameActions::Done],
    );
    game.state_machine.next_state();
    verify_state_and_actions(
        &game,
        "test_allocate_resources",
        GamePhase::SettingUp,
        GameState::AllocateResourceForward,
        vec![GameActions::Done, GameActions::Build],
    );
}

#[test]
fn new_game_has_nineteen_tiles_and_nine_harbors() {
    let game = RegularGame::new(first_user());
    assert_eq!(game.tiles.len(), 19);
    assert_eq!(game.harbors.len(), 9);
    assert_eq!(game.players.len(), 1);
    assert_eq!(game.id.len(), 32);
    assert!(game.id.chars().all(|c| c.is_ascii_hexdigit() && !c.is_ascii_uppercase()));
    assert_eq!(game.game_index, 0);
    assert!(game.player_order.is_empty());
    for tile in game.tiles.iter() {
        assert_eq!(tile.roads.len(), 6);
        assert_eq!(tile.key.q + tile.key.r + tile.key.s, 0);
    }
    check_rolls_and_resources(&game);
}

#[test]
fn two_games_get_different_ids() {
    let a = RegularGame::new(first_user());
    let b = RegularGame::new(first_user());
    assert_ne!(a.id, b.id);
}

#[test]
fn set_player_order_refuses_unknown_players() {
    let mut game = create_and_add_players();
    assert!(game.set_player_order(vec!["3".to_string(), "2".to_string()]).is_err());
    assert!(game
        .set_player_order(vec!["3".to_string(), "2".to_string(), "9".to_string()])
        .is_err());
    assert_eq!(game.players[0].user_data.id.as_ref().unwrap(), "1");
}

#[test]
fn shuffle_keeps_tile_places_and_harbor_kinds() {
    let mut game = create_and_add_players();
    let keys: Vec<_> = game.tiles.iter().map(|t| t.key).collect();
    let mut harbor_types: Vec<_> = game.harbors.iter().map(|h| format!("{:?}", h.harbor_type)).collect();
    let found = game.shuffle();
    assert!(found);
    let after: Vec<_> = game.tiles.iter().map(|t| t.key).collect();
    assert_eq!(keys, after);
    let mut after_types: Vec<_> = game.harbors.iter().map(|h| format!("{:?}", h.harbor_type)).collect();
    harbor_types.sort();
    after_types.sort();
    assert_eq!(harbor_types, after_types);
}

#[test]
fn next_state_walks_the_setup() {
    let mut game = RegularGame::new(first_user());
    assert_eq!(game.state_machine.next_state(), GameState::ChoosingBoard);
    assert_eq!(game.state_machine.next_state(), GameState::SettingPlayerOrder);
    assert_eq!(game.state_machine.next_state(), GameState::WaitingForStart);
    assert_eq!(game.state_machine.next_state(), GameState::AllocateResourceForward);
    assert_eq!(game.state_machine.actions, vec![GameActions::Done, GameActions::Build]);
}

#[test]
fn cloned_game_is_equal_in_content() {
    let mut game = create_and_add_players();
    game.shuffle();
    let copy = game.clone();
    assert_eq!(copy.id, game.id);
    assert_eq!(copy.players.len(), game.players.len());
    for (a, b) in copy.tiles.iter().zip(game.tiles.iter()) {
        assert_eq!(a.key, b.key);
        assert_eq!(a.roll, b.roll);
        assert_eq!(a.current_resource, b.current_resource);
        assert_eq!(a.roads.len(), b.roads.len());
    }
    assert_eq!(copy.harbors, game.harbors);
}

#[test]
fn turns_go_round_the_order() {
    let mut game = create_and_add_players();
    game.set_player_order(vec!["2".to_string(), "3".to_string(), "1".to_string()]).unwrap();
    let start = game.current_player_id.clone();
    for _ in 0..3 {
        game.get_next_player();
    }
    assert_eq!(game.current_player_id, start);
    game.current_player_id = "nobody".to_string();
    let p = game.get_next_player().unwrap();
    assert_eq!(p.user_data.id.as_deref(), Some("2"));
}

#[test]
fn player_ids_follow_the_players() {
    let mut game = RegularGame::new(first_user());
    game.add_user(second_user());
    game.add_user(third_user());
    assert_eq!(game.player_ids(), vec!["1".to_string(), "2".to_string(), "3".to_string()]);
}
