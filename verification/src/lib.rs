//! Game logic of a Settlers of Catan service: the hex board and its keys, the
//! regular game setup and shuffle, the game state machine, the undo/redo stacks,
//! request contexts, and the planning of the cloud-provisioning commands.

mod text_fmt;
pub mod text;
pub mod tiles;
pub mod roads;
pub mod buildings;
pub mod harbors;
pub mod player;
pub mod game_enums;
pub mod errors;
pub mod state;
pub mod setup_state;
pub mod game_info;
pub mod board;
pub mod random;
pub mod shuffle;
pub mod regular_game;
pub mod messages;
pub mod security;
pub mod game_container;
pub mod json;
pub mod keycloak;
pub mod service_config;
pub mod database;
pub mod request_context;
pub mod environment;
pub mod azure;
pub mod cmd_log;
pub mod games;
pub mod cosmos;
pub mod lobby;
pub mod key_json;
