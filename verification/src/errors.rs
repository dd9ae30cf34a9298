use vstd::prelude::*;
use crate::text::append_str_text;

verus! {

/// Why a game operation failed.
#[derive(Debug)]
pub enum GameError {
    PlayerMismatch,
    IdNotFoundInOrder,
    BadActionData,
    HttpError,
    BadId(String),
    ChannelError(String),
    AzError(String),
    NoError(String),
}

/// What kind of payload a service response carries.
#[derive(Debug)]
pub enum ResponseType {
    NoData,
    ErrorInfo(String),
    AzError(String),
}

/// The answer of a service call: a message, an HTTP status code, a payload kind and a game error.
#[derive(Debug)]
pub struct ServiceResponse {
    pub message: String,
    pub status: u16,
    pub response_type: ResponseType,
    pub game_error: GameError,
}

/// The kinds of failure a service call reports.
#[derive(Clone, Copy, Debug, PartialEq, Eq, Structural)]
pub enum ServiceErrorKind {
    BadRequest,
    ContainerError,
    DatabaseError,
    InternalServerFault,
    JsonError,
    NotFound,
    Unauthorized,
    UnsupportedGame,
}

/// A failed service call: its kind and a message for the caller.
#[derive(Debug)]
pub struct ServiceError {
    pub kind: ServiceErrorKind,
    pub message: String,
}

impl ServiceError {
    /// A failure of the game container, with the given message.
    pub fn new_container_error(msg: &str) -> (res: ServiceError)
        ensures
            res.kind == ServiceErrorKind::ContainerError,
            res.message@ == msg@,
    {
        ServiceError { kind: ServiceErrorKind::ContainerError, message: String::from_str(msg) }
    }

    /// A request the service refuses, with the given message.
    pub fn new_bad_request(msg: &str) -> (res: ServiceError)
        ensures
            res.kind == ServiceErrorKind::BadRequest,
            res.message@ == msg@,
    {
        ServiceError { kind: ServiceErrorKind::BadRequest, message: String::from_str(msg) }
    }

    /// Something looked for by `id` is not there; the message is `what`, a colon and
    /// the id.
    pub fn new_not_found(what: &str, id: &str) -> (res: ServiceError)
        ensures
            res.kind == ServiceErrorKind::NotFound,
            res.message@ == what@ + ": "@ + id@,
    {
        let mut message = String::from_str(what);
        append_str_text(&mut message, ": ");
        append_str_text(&mut message, id);
        ServiceError { kind: ServiceErrorKind::NotFound, message }
    }
}

} // verus!
