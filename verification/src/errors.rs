//! The error taxonomy shared by every backend, so that callers never need
//! backend-specific branching on error kind.

use vstd::prelude::*;

verus! {

/// Mathematical model of a [`FanControlError`].
pub ghost enum FanControlErrorModel {
    FanNotFound(Seq<char>),
    NotControllable(Seq<char>),
    InvalidCurve(Seq<char>),
    PermissionDenied(Seq<char>),
    Platform(Seq<char>),
    Io(Seq<char>),
}

/// Why a fan operation failed.
#[derive(Debug, Clone)]
pub enum FanControlError {
    /// The fan id does not resolve on this backend.
    FanNotFound(String),
    /// The fan exists but has no write path.
    NotControllable(String),
    /// A fan curve violated the safety policy; the message names the
    /// violated invariant.
    InvalidCurve(String),
    /// The OS denied a write; the message includes guidance to elevate
    /// privileges.
    PermissionDenied(String),
    /// Any other backend-specific failure (subprocess launch failure,
    /// malformed hardware response, missing capability).
    Platform(String),
    /// A transport-level I/O failure, described by the underlying error's
    /// message.
    Io(String),
}

impl View for FanControlError {
    type V = FanControlErrorModel;

    open spec fn view(&self) -> FanControlErrorModel {
        match self {
            FanControlError::FanNotFound(s) => FanControlErrorModel::FanNotFound(s@),
            FanControlError::NotControllable(s) => FanControlErrorModel::NotControllable(s@),
            FanControlError::InvalidCurve(s) => FanControlErrorModel::InvalidCurve(s@),
            FanControlError::PermissionDenied(s) => FanControlErrorModel::PermissionDenied(s@),
            FanControlError::Platform(s) => FanControlErrorModel::Platform(s@),
            FanControlError::Io(s) => FanControlErrorModel::Io(s@),
        }
    }
}

/// The user-visible message of an error model.
pub open spec fn spec_error_message(e: FanControlErrorModel) -> Seq<char> {
    match e {
        FanControlErrorModel::FanNotFound(s) => "fan '"@ + s + "' not found"@,
        FanControlErrorModel::NotControllable(s) => "fan '"@ + s + "' is not controllable"@,
        FanControlErrorModel::InvalidCurve(s) => "invalid curve: "@ + s,
        FanControlErrorModel::PermissionDenied(s) => "permission denied: "@ + s,
        FanControlErrorModel::Platform(s) => "platform error: "@ + s,
        FanControlErrorModel::Io(s) => s,
    }
}

impl FanControlError {
    /// Render the error as a user-visible message.
    pub fn message(&self) -> (m: String)
        ensures
            m@ == spec_error_message(self@),
    {
        match self {
            FanControlError::FanNotFound(s) => {
                String::from_str("fan '").concat(s.as_str()).concat("' not found")
            },
            FanControlError::NotControllable(s) => {
                String::from_str("fan '").concat(s.as_str()).concat("' is not controllable")
            },
            FanControlError::InvalidCurve(s) => {
                String::from_str("invalid curve: ").concat(s.as_str())
            },
            FanControlError::PermissionDenied(s) => {
                String::from_str("permission denied: ").concat(s.as_str())
            },
            FanControlError::Platform(s) => {
                String::from_str("platform error: ").concat(s.as_str())
            },
            FanControlError::Io(s) => s.clone(),
        }
    }
}

} // verus!
