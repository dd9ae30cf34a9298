# catan_service

The game logic of a Settlers of Catan web service, verified with Verus. The web
service's HTTP interface itself is not here.

`src/` is the library:

- `tiles`, `roads`, `buildings`, `harbors`, `board`, `game_info`: the hexagonal board,
  its keys and neighbourhoods, and the layout of the regular game (tiles, a road on
  every side, a corner on every corner, the harbors).
- `shuffle`, `random`: shuffling the board until no 6 and 8 are neighbours, keeping
  every resource, roll number and harbor kind.
- `player`, `regular_game`, `setup_state`, `state`, `game_enums`, `messages`: players,
  the game, its state machines and the messages sent to clients.
- `game_container`: the undo and redo stacks of a game.
- `lobby`: the users logged in and waiting for messages, with their status.
- `key_json`: the JSON form of the board's keys and harbors, read back as written.
- `request_context`, `environment`, `database`, `service_config`, `security`: what a
  request carries, which database it uses, the configuration and the signing keys.
- `keycloak`: the requests to the identity service and the reading of its answers.
- `azure`, `cmd_log`: the commands of the cloud's command line tool, the reading of
  their output, and the log line of a command with its secrets hidden.
- `games`, `cosmos`: the supported games and the database's collection names and queries.
- `json`, `text`: JSON values and the text functions the rest uses.

`app/` is the program around it: running the cloud commands, the HTTP calls to the
identity service, the shared game containers, the message channels of the lobby and the
key cache. Its HTTP server answers only the version route; the game, lobby and user
routes, the websocket and the database backend are not part of this crate.
