//! The remote API's error model: how HTTP statuses map to errors, the
//! messages they carry, and the process exit code each one calls for.

use vstd::prelude::*;

verus! {

/// Exit codes in the sysexits style.
pub const EXIT_OK: i32 = 0;

/// Invalid data given by the user.
pub const EXIT_DATAERR: i32 = 64;

/// A required input file is missing.
pub const EXIT_NOINPUT: i32 = 65;

/// Authentication is missing.
pub const EXIT_NOUSER: i32 = 67;

/// The remote service is unreachable.
pub const EXIT_UNAVAILABLE: i32 = 69;

/// An internal software error.
pub const EXIT_SOFTWARE: i32 = 70;

/// An input/output error.
pub const EXIT_IOERR: i32 = 74;

/// Permission was denied.
pub const EXIT_NOPERM: i32 = 77;

/// How requests to the remote API authenticate.
#[derive(Debug)]
pub enum AuthMode {
    NoAuth,
    ApiKey(String),
    BearerAuth(String),
}

/// An error answered by the remote API, from the response's HTTP status.
#[derive(Debug)]
pub enum ApiError {
    BadRequest,
    NotFound,
    Unauthorized,
    Internal,
    Forbidden,
    Conflict,
    /// A transport-level failure, with its description when one is known.
    Unknown(Option<String>),
    /// The response body could not be parsed.
    ParsingError(String),
}

impl ApiError {
    /// The error an HTTP status code stands for: 400, 401, 403, 404, 409 and
    /// 500 each name their error; every other status is unknown.
    pub fn get_error_from_status(code: u16) -> (r: Self)
        ensures
            code == 400 ==> r is BadRequest,
            code == 401 ==> r is Unauthorized,
            code == 403 ==> r is Forbidden,
            code == 404 ==> r is NotFound,
            code == 409 ==> r is Conflict,
            code == 500 ==> r is Internal,
            (code != 400 && code != 401 && code != 403 && code != 404 && code != 409 && code
                != 500) ==> r == ApiError::Unknown(Option::None),
    {
        match code {
            400 => Self::BadRequest,
            401 => Self::Unauthorized,
            403 => Self::Forbidden,
            404 => Self::NotFound,
            409 => Self::Conflict,
            500 => Self::Internal,
            _ => Self::Unknown(None),
        }
    }

    /// The human-readable message for this error.
    pub fn to_msg(&self) -> (r: String)
        ensures
            match self {
                ApiError::BadRequest => r@ == "400: Bad Request"@,
                ApiError::Unauthorized => r@ == "401: Unauthorized"@,
                ApiError::Forbidden => r@ == "403: Forbidden"@,
                ApiError::NotFound => r@ == "404: Not Found"@,
                ApiError::Conflict => r@ == "409: Conflict"@,
                ApiError::Internal => r@ == "500: Internal Server Error"@,
                ApiError::Unknown(detail) => match detail {
                    Some(d) => r@ == "An unexpected error occured: "@ + d@,
                    None => r@ == "An unexpected error occured"@,
                },
                ApiError::ParsingError(_) => r@
                    == "An error occurred while parsing the server's response."@,
            },
    {
        let mut r = String::new();
        match self {
            Self::BadRequest => r.append("400: Bad Request"),
            Self::Unauthorized => r.append("401: Unauthorized"),
            Self::Forbidden => r.append("403: Forbidden"),
            Self::NotFound => r.append("404: Not Found"),
            Self::Conflict => r.append("409: Conflict"),
            Self::Internal => r.append("500: Internal Server Error"),
            Self::Unknown(detail) => {
                match detail {
                    Some(d) => {
                        r.append("An unexpected error occured: ");
                        r.append(d.as_str());
                    }
                    None => r.append("An unexpected error occured"),
                }
            }
            Self::ParsingError(_) => r.append("An error occurred while parsing the server's response."),
        }
        proof {
            match self {
                ApiError::Unknown(detail) => {
                    match detail {
                        Some(d) => {
                            assert(r@ =~= "An unexpected error occured: "@ + d@);
                        }
                        None => {
                            assert(r@ =~= "An unexpected error occured"@);
                        }
                    }
                }
                _ => {
                    assert(r@ =~= r@);
                }
            }
        }
        r
    }

    /// The exit code this error calls for: invalid data for client errors,
    /// no-user for a failed authentication, no-permission when forbidden,
    /// software for server-side and parse failures, unavailable otherwise.
    pub fn exitcode(&self) -> (r: i32)
        ensures
            match self {
                ApiError::BadRequest => r == EXIT_DATAERR,
                ApiError::NotFound => r == EXIT_DATAERR,
                ApiError::Conflict => r == EXIT_DATAERR,
                ApiError::Unauthorized => r == EXIT_NOUSER,
                ApiError::Internal => r == EXIT_SOFTWARE,
                ApiError::ParsingError(_) => r == EXIT_SOFTWARE,
                ApiError::Forbidden => r == EXIT_NOPERM,
                ApiError::Unknown(_) => r == EXIT_UNAVAILABLE,
            },
    {
        match self {
            Self::BadRequest | Self::NotFound | Self::Conflict => EXIT_DATAERR,
            Self::Unauthorized => EXIT_NOUSER,
            Self::Internal | Self::ParsingError(_) => EXIT_SOFTWARE,
            Self::Forbidden => EXIT_NOPERM,
            Self::Unknown(_) => EXIT_UNAVAILABLE,
        }
    }
}

} // verus!
