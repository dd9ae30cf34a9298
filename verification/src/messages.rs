use vstd::prelude::*;
use crate::regular_game::RegularGame;

verus! {

/// An invitation from one user to another to join a game.
#[derive(Debug)]
pub struct Invitation {
    pub from_id: String,
    pub to_id: String,
    pub from_name: String,
    pub to_name: String,
    pub message: String,
    pub from_picture: String,
    pub game_id: String,
}

/// The names of the HTTP headers the service reads.
pub struct GameHeader;

impl GameHeader {
    pub const GAME_ID: &'static str = "x-game-id";
    pub const USER_ID: &'static str = "x-user-id";
    pub const PASSWORD: &'static str = "x-password";
    pub const TEST: &'static str = "x-test";
    pub const EMAIL: &'static str = "x-email";
    pub const ROLES: &'static str = "x-roles";
    pub const CLAIMS: &'static str = "x-claims";
}

/// The answer to an invitation.
#[derive(Debug)]
pub struct InvitationResponseData {
    pub from_id: String,
    pub to_id: String,
    pub from_name: String,
    pub to_name: String,
    pub game_id: String,
    pub accepted: bool,
}

impl InvitationResponseData {
    /// An answer from `from` to `to` about game `game_id`.
    pub fn new(from: &str, to: &str, from_name: &str, to_name: &str, accepted: bool, game_id: &str) -> (res: InvitationResponseData)
        ensures
            res.from_id@ == from@,
            res.to_id@ == to@,
            res.from_name@ == from_name@,
            res.to_name@ == to_name@,
            res.game_id@ == game_id@,
            res.accepted == accepted,
    {
        InvitationResponseData {
            accepted,
            to_id: String::from_str(to),
            from_id: String::from_str(from),
            game_id: String::from_str(game_id),
            from_name: String::from_str(from_name),
            to_name: String::from_str(to_name),
        }
    }

    /// The answer to an invitation: it goes from the invited user back to the one who
    /// invited, about the same game.
    pub fn from_invitation(accepted: bool, invite: &Invitation) -> (res: InvitationResponseData)
        ensures
            res.from_id@ == invite.to_id@,
            res.to_id@ == invite.from_id@,
            res.from_name@ == invite.to_name@,
            res.to_name@ == invite.from_name@,
            res.game_id@ == invite.game_id@,
            res.accepted == accepted,
    {
        InvitationResponseData {
            from_id: invite.to_id.clone(),
            to_id: invite.from_id.clone(),
            game_id: invite.game_id.clone(),
            accepted,
            from_name: invite.to_name.clone(),
            to_name: invite.from_name.clone(),
        }
    }
}

/// Who created which game.
#[derive(Debug)]
pub struct GameCreatedData {
    pub user_id: String,
    pub game_id: String,
}

/// An error sent to a client: a status code and a message.
#[derive(Debug)]
pub struct ErrorData {
    pub status_code: i32,
    pub message: String,
}

/// The messages the service sends to its clients.
#[derive(Debug)]
pub enum CatanMessage {
    GameUpdate(RegularGame),
    Invite(Invitation),
    InvitationResponse(InvitationResponseData),
    GameCreated(GameCreatedData),
    PlayerAdded(Vec<String>),
    Started(String),
    Ended(String),
    Error(ErrorData),
}

/// Whether a user in the lobby is playing, free to play, or hidden.
#[derive(Clone, Copy, Debug, PartialEq, Eq, Structural)]
pub enum GameStatus {
    PlayingGame,
    Available,
    Hidden,
}

} // verus!
