//! Error codes and the uniform result envelope of every operation.

use vstd::prelude::*;

verus! {

/// The machine-readable reason carried by a failed request.
#[derive(Clone, Copy, Debug, PartialEq, Eq, Structural)]
pub enum ErrorCode {
    NameDuplicated,
    EmailDuplicated,
    NameTooLong,
    EmailTooLong,
    EmailInvalid,
    CommentTooLong,
    TokenInvalid,
    NameTooShort,
    CommentTooShort,
}

impl ErrorCode {
    /// The number that clients see for this code.
    pub open spec fn spec_code(self) -> u8 {
        match self {
            ErrorCode::NameDuplicated => 1,
            ErrorCode::EmailDuplicated => 2,
            ErrorCode::NameTooLong => 3,
            ErrorCode::EmailTooLong => 4,
            ErrorCode::EmailInvalid => 5,
            ErrorCode::CommentTooLong => 6,
            ErrorCode::TokenInvalid => 7,
            ErrorCode::NameTooShort => 8,
            ErrorCode::CommentTooShort => 9,
        }
    }

    /// The wire value of the code.
    pub fn code(self) -> (n: u8)
        ensures
            n == self.spec_code(),
            1 <= n <= 9,
    {
        match self {
            ErrorCode::NameDuplicated => 1,
            ErrorCode::EmailDuplicated => 2,
            ErrorCode::NameTooLong => 3,
            ErrorCode::EmailTooLong => 4,
            ErrorCode::EmailInvalid => 5,
            ErrorCode::CommentTooLong => 6,
            ErrorCode::TokenInvalid => 7,
            ErrorCode::NameTooShort => 8,
            ErrorCode::CommentTooShort => 9,
        }
    }
}

/// The outcome of a request, seen without its payload.
#[derive(Clone, Copy, Debug, PartialEq, Eq, Structural)]
pub enum Verdict {
    Success,
    Error(ErrorCode),
    Forbidden,
}

/// The payload of a success that has nothing to report.
#[derive(Clone, Copy, Debug, PartialEq, Eq, Structural)]
pub struct Empty {}

/// The outcome of a request: a payload, an error code, or a refusal.
#[derive(Debug)]
pub enum APIResult<T> {
    Success(T),
    Error(ErrorCode),
    Forbidden,
}

impl<T> APIResult<T> {
    /// The outcome without its payload.
    pub open spec fn verdict(self) -> Verdict {
        match self {
            APIResult::Success(_) => Verdict::Success,
            APIResult::Error(code) => Verdict::Error(code),
            APIResult::Forbidden => Verdict::Forbidden,
        }
    }

    pub fn success_return(value: T) -> (r: Self)
        ensures
            r == APIResult::Success(value),
    {
        APIResult::Success(value)
    }

    pub fn error(code: ErrorCode) -> (r: Self)
        ensures
            r == APIResult::<T>::Error(code),
    {
        APIResult::Error(code)
    }

    pub fn forbidden() -> (r: Self)
        ensures
            r == APIResult::<T>::Forbidden,
    {
        APIResult::Forbidden
    }

    /// The HTTP status of the response: 403 for a refusal, 200 otherwise,
    /// an error code travelling in the body of a 200.
    pub fn status_code(&self) -> (code: u16)
        ensures
            code == (if self.verdict() == Verdict::Forbidden {
                403u16
            } else {
                200u16
            }),
    {
        match self {
            APIResult::Forbidden => 403,
            _ => 200,
        }
    }
}

impl APIResult<Empty> {
    pub fn success() -> (r: Self)
        ensures
            r == APIResult::Success(Empty {}),
    {
        APIResult::Success(Empty {})
    }
}

} // verus!
