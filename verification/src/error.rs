//! The library's error type.
use vstd::prelude::*;

verus! {

/// Errors of the learning graph; failures of the stores and services carry their message.
#[derive(Debug, PartialEq, Eq)]
pub enum Error {
    Database(String),
    Graph(String),
    GraphDe(String),
    Auth(String),
    Jwt(String),
    Ai(String),
    NotFound(String),
    Validation(String),
    Internal(String),
}

/// The message an error carries.
pub open spec fn message_of(e: Error) -> Seq<char> {
    match e {
        Error::Database(m) => m@,
        Error::Graph(m) => m@,
        Error::GraphDe(m) => m@,
        Error::Auth(m) => m@,
        Error::Jwt(m) => m@,
        Error::Ai(m) => m@,
        Error::NotFound(m) => m@,
        Error::Validation(m) => m@,
        Error::Internal(m) => m@,
    }
}

} // verus!
