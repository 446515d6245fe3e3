//! How an exchange with a bridge can fail.

use crate::models::error::ErrorCode;
use vstd::prelude::*;

verus! {

/// The status with which a bridge refuses a request that is not authorized.
pub const STATUS_UNAUTHORIZED: u16 = 401;

/// Why an exchange with a bridge failed.
#[derive(Debug, Clone, Copy, PartialEq, Eq)]
pub enum HueError {
    /// The bridge does not know the application key, or its link button was
    /// not pressed.
    Unauthorized,
    /// The authorization is not in the state that the operation needs.
    AlreadyAuthorized,
    /// The bridge could not be reached.
    Connection,
    /// The answer of the bridge could not be read.
    Response,
    /// The light has no such feature.
    Unsupported,
    /// The answer of the bridge has not the shape that was expected.
    Unexpected,
    Unknown,
}

/// What the transport reports of a request that failed.
#[derive(Debug, Clone, Copy, PartialEq, Eq)]
pub struct Failure {
    /// The status of the answer, where the answer came and its status reports
    /// an error.
    pub status: Option<u16>,
    /// Whether the connection could not be made.
    pub connect: bool,
    /// Whether the body of the answer could not be decoded.
    pub decode: bool,
}

impl From<Failure> for HueError {
    /// A status goes before the other signs: 401 is `Unauthorized`, every other
    /// status `Unknown`. Without a status, a failed connection is `Connection`,
    /// then a body that could not be decoded is `Response`.
    fn from(e: Failure) -> (r: HueError) {
        match e.status {
            Some(status) => {
                if status == STATUS_UNAUTHORIZED {
                    HueError::Unauthorized
                } else {
                    HueError::Unknown
                }
            },
            None => {
                if e.connect {
                    HueError::Connection
                } else if e.decode {
                    HueError::Response
                } else {
                    HueError::Unknown
                }
            },
        }
    }
}

impl vstd::std_specs::convert::FromSpecImpl<Failure> for HueError {
    open spec fn obeys_from_spec() -> bool {
        true
    }

    open spec fn from_spec(e: Failure) -> HueError {
        match e.status {
            Some(status) => {
                if status == STATUS_UNAUTHORIZED {
                    HueError::Unauthorized
                } else {
                    HueError::Unknown
                }
            },
            None => {
                if e.connect {
                    HueError::Connection
                } else if e.decode {
                    HueError::Response
                } else {
                    HueError::Unknown
                }
            },
        }
    }
}

impl From<ErrorCode> for HueError {
    /// A bridge that reports `Unauthorized` or `LinkButtonNotPressed` has not
    /// authorized the application; whatever else it reports is `Unknown`.
    fn from(ec: ErrorCode) -> (r: HueError) {
        match ec {
            ErrorCode::Unauthorized => HueError::Unauthorized,
            ErrorCode::LinkButtonNotPressed => HueError::Unauthorized,
            _ => HueError::Unknown,
        }
    }
}

impl vstd::std_specs::convert::FromSpecImpl<ErrorCode> for HueError {
    open spec fn obeys_from_spec() -> bool {
        true
    }

    open spec fn from_spec(ec: ErrorCode) -> HueError {
        match ec {
            ErrorCode::Unauthorized => HueError::Unauthorized,
            ErrorCode::LinkButtonNotPressed => HueError::Unauthorized,
            _ => HueError::Unknown,
        }
    }
}

} // verus!
