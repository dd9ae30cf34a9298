use vstd::prelude::*;
use crate::errors::{ServiceError, ServiceErrorKind};
use crate::game_enums::{CatanGames, GameData, SupportedGames};
use crate::regular_game::{get_id, is_hex_char};
use crate::tiles::append_str;

verus! {

/// The name of a kind of game.
pub open spec fn game_name(g: CatanGames) -> Seq<char> {
    match g {
        CatanGames::Regular => "Regular"@,
        CatanGames::Expansion => "Expansion"@,
        CatanGames::Seafarers => "Seafarers"@,
        CatanGames::Seafarers4Player => "Seafarers4Player"@,
    }
}

/// A new game of the given kind: a fresh id and no players yet. Only the regular game
/// is offered; any other kind is refused.
pub fn new_game(game_type: CatanGames) -> (res: Result<GameData, ServiceError>)
    ensures
        game_type == CatanGames::Regular ==> (res matches Ok(d) && d.id@.len() == 32
            && (forall|i: int| 0 <= i < 32 ==> is_hex_char(#[trigger] d.id@[i]))
            && d.players@.len() == 0),
        game_type != CatanGames::Regular ==> (res matches Err(e) && e.kind == ServiceErrorKind::UnsupportedGame
            && e.message@ == "Game not supported: "@ + game_name(game_type)),
{
    let name = match game_type {
        CatanGames::Regular => {
            return Ok(GameData { id: get_id(), players: Vec::new() });
        },
        CatanGames::Expansion => "Expansion",
        CatanGames::Seafarers => "Seafarers",
        CatanGames::Seafarers4Player => "Seafarers4Player",
    };
    let mut message = String::from_str("Game not supported: ");
    append_str(&mut message, name);
    Err(ServiceError { kind: ServiceErrorKind::UnsupportedGame, message })
}

/// The kinds of game the service offers: the regular game.
pub fn supported_games() -> (res: SupportedGames)
    ensures
        res.catan_games@ == seq![CatanGames::Regular],
{
    SupportedGames::regular_only()
}

} // verus!
