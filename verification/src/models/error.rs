use vstd::prelude::*;

verus! {

/// The kinds of error that a bridge reports, each with a number of its own.
#[derive(Debug, Clone, Copy, PartialEq, Eq)]
pub enum ErrorCode {
    Unauthorized,
    InvalidJson,
    ResourceNotAvailable,
    ResourceMethodNotAvailable,
    ParameterMissing,
    ParameterNotAvailable,
    ParameterValue,
    ParameterNotModifiable,
    TooManyItems,
    PortalConnectionRequired,
    InternalError,
    LinkButtonNotPressed,
}

impl ErrorCode {
    /// The number that stands for this kind in what a bridge sends.
    pub open spec fn spec_code(self) -> u32 {
        match self {
            ErrorCode::Unauthorized => 1,
            ErrorCode::InvalidJson => 2,
            ErrorCode::ResourceNotAvailable => 3,
            ErrorCode::ResourceMethodNotAvailable => 4,
            ErrorCode::ParameterMissing => 5,
            ErrorCode::ParameterNotAvailable => 6,
            ErrorCode::ParameterValue => 7,
            ErrorCode::ParameterNotModifiable => 8,
            ErrorCode::TooManyItems => 11,
            ErrorCode::PortalConnectionRequired => 12,
            ErrorCode::InternalError => 901,
            ErrorCode::LinkButtonNotPressed => 101,
        }
    }

    /// The number that stands for this kind in what a bridge sends.
    #[verifier::when_used_as_spec(spec_code)]
    pub fn code(self) -> (n: u32)
        ensures
            n == self.spec_code(),
    {
        match self {
            ErrorCode::Unauthorized => 1,
            ErrorCode::InvalidJson => 2,
            ErrorCode::ResourceNotAvailable => 3,
            ErrorCode::ResourceMethodNotAvailable => 4,
            ErrorCode::ParameterMissing => 5,
            ErrorCode::ParameterNotAvailable => 6,
            ErrorCode::ParameterValue => 7,
            ErrorCode::ParameterNotModifiable => 8,
            ErrorCode::TooManyItems => 11,
            ErrorCode::PortalConnectionRequired => 12,
            ErrorCode::InternalError => 901,
            ErrorCode::LinkButtonNotPressed => 101,
        }
    }

    /// The kind that the number `n` stands for, if it stands for one.
    pub fn from_code(n: u32) -> (r: Option<ErrorCode>)
        ensures
            match r {
                Some(kind) => kind.code() == n,
                None => forall|kind: ErrorCode| kind.code() != n,
            },
    {
        match n {
            1 => Some(ErrorCode::Unauthorized),
            2 => Some(ErrorCode::InvalidJson),
            3 => Some(ErrorCode::ResourceNotAvailable),
            4 => Some(ErrorCode::ResourceMethodNotAvailable),
            5 => Some(ErrorCode::ParameterMissing),
            6 => Some(ErrorCode::ParameterNotAvailable),
            7 => Some(ErrorCode::ParameterValue),
            8 => Some(ErrorCode::ParameterNotModifiable),
            11 => Some(ErrorCode::TooManyItems),
            12 => Some(ErrorCode::PortalConnectionRequired),
            901 => Some(ErrorCode::InternalError),
            101 => Some(ErrorCode::LinkButtonNotPressed),
            _ => None,
        }
    }
}

/// An error as a bridge reports it.
#[derive(Debug, Clone, PartialEq, Eq)]
pub struct Error {
    pub error_type: ErrorCode,
    pub address: String,
    pub description: String,
}

} // verus!
