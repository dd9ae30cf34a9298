use catan_service::errors::{GameError, ServiceErrorKind};
use catan_service::lobby::Lobby;
use catan_service::messages::GameStatus;
use catan_service::player::User;

fn profile(name: &str) -> User {
    User {
        id: None,
        partition_key: None,
        password_hash: None,
        password: None,
        email: String::new(),
        first_name: String::new(),
        last_name: String::new(),
        display_name: name.to_string(),
        picture_url: String::new(),
        foreground_color: String::new(),
        background_color: String::new(),
        games_played: None,
        games_won: None,
    }
}

#[test]
fn test_add_user() {
    let mut lobby = Lobby::new();
    let res = lobby.add_user("user1", &profile(""));
    assert!(res.is_ok());
    let res = lobby.add_user("user1", &profile(""));
    assert!(res.is_ok());
}

#[test]
fn test_get_available_and_set_status() {
    let mut lobby = Lobby::new();
    assert!(lobby.add_user("user1", &profile("")).is_ok());
    assert!(lobby.add_user("user2", &profile("")).is_ok());
    assert!(lobby.add_user("user3", &profile("")).is_ok());
    assert!(lobby.set_status("user1", GameStatus::Available).is_ok());
    assert!(lobby.set_status("user2", GameStatus::PlayingGame).is_ok());
    assert!(lobby.set_status("user3", GameStatus::Available).is_ok());
    let available_users = lobby.get_available();
    assert_eq!(available_users.len(), 2);
}

#[test]
fn re_adding_a_user_keeps_one_entry() {
    let mut lobby = Lobby::new();
    assert!(lobby.add_user("user1", &profile("first")).is_ok());
    assert!(lobby.set_status("user1", GameStatus::Hidden).is_ok());
    assert!(lobby.add_user("user1", &profile("second")).is_ok());
    let available = lobby.get_available();
    assert_eq!(available.len(), 1);
    assert_eq!(available[0].display_name, "second");
}

#[test]
fn removing_twice_fails_the_second_time() {
    let mut lobby = Lobby::new();
    assert!(lobby.add_user("user2", &profile("")).is_ok());
    assert!(lobby.remove_user("user2").is_ok());
    assert!(!lobby.contains("user2"));
    let err = lobby.remove_user("user2").unwrap_err();
    assert_eq!(err.kind, ServiceErrorKind::NotFound);
    assert_eq!(err.message, "id does not exist: user2");
}

#[test]
fn status_of_unknown_user_is_refused() {
    let mut lobby = Lobby::new();
    match lobby.set_status("ghost", GameStatus::Available) {
        Err(GameError::BadId(m)) => assert_eq!(m, "ghost does not exist"),
        other => panic!("unexpected {:?}", other),
    }
}

#[test]
fn available_users_come_in_lobby_order() {
    let mut lobby = Lobby::new();
    assert!(lobby.add_user("a", &profile("A")).is_ok());
    assert!(lobby.add_user("b", &profile("B")).is_ok());
    assert!(lobby.add_user("c", &profile("C")).is_ok());
    assert!(lobby.set_status("b", GameStatus::PlayingGame).is_ok());
    let names: Vec<String> = lobby.get_available().into_iter().map(|u| u.display_name).collect();
    assert_eq!(names, vec!["A".to_string(), "C".to_string()]);
}

#[test]
fn waiting_needs_a_logged_in_user() {
    let mut lobby = Lobby::new();
    assert!(lobby.add_user("Test_User_1", &profile("")).is_ok());
    assert!(lobby.wait_target("Test_User_1").is_ok());
    let err = lobby.wait_target("user6").unwrap_err();
    assert_eq!(err.kind, ServiceErrorKind::NotFound);
    assert_eq!(err.message, "in long poller: user6");
}

#[test]
fn messages_to_unknown_users_are_errors() {
    let mut lobby = Lobby::new();
    assert!(lobby.add_user("u1", &profile("")).is_ok());
    let errors = lobby.send_errors(&vec!["u1".to_string(), "u2".to_string(), "u3".to_string()]);
    assert_eq!(errors.len(), 2);
    assert_eq!(errors[0].0, "u2");
    assert_eq!(errors[1].0, "u3");
    match &errors[0].1 {
        GameError::BadId(m) => assert_eq!(m, "id u2 not in list"),
        other => panic!("unexpected {:?}", other),
    }
    assert!(lobby.send_errors(&vec!["u1".to_string()]).is_empty());
}
