//! The delete flow's decision logic: which enclave to delete and what each
//! step's failure means. The confirmation prompt, the API call and the
//! polling loop run outside the verified library.

use vstd::prelude::*;

use crate::api::{ApiError, EXIT_DATAERR, EXIT_IOERR};
use crate::config::CageConfigError;

verus! {

/// Why deleting an enclave failed.
#[derive(Debug)]
pub enum DeleteError {
    /// Reading the enclave's config failed.
    CageConfigError(CageConfigError),
    /// No enclave uuid was given, by flag or by config.
    MissingUuid,
    /// An input/output failure, with its description.
    IoError(String),
    /// The remote API answered an error.
    ApiError(ApiError),
}

impl DeleteError {
    /// The exit code this error calls for.
    pub fn exitcode(&self) -> (r: i32)
        ensures
            match self {
                DeleteError::CageConfigError(_) => true,
                DeleteError::MissingUuid => r == EXIT_DATAERR,
                DeleteError::IoError(_) => r == EXIT_IOERR,
                DeleteError::ApiError(_) => true,
            },
    {
        match self {
            Self::CageConfigError(config_err) => config_err.exitcode(),
            Self::IoError(_) => EXIT_IOERR,
            Self::ApiError(api_err) => api_err.exitcode(),
            Self::MissingUuid => EXIT_DATAERR,
        }
    }
}

/// The uuid a delete acts on: the one given on the command line wins, then
/// the one in the config; with neither, the delete is refused.
pub fn resolve_cage_uuid(given: Option<String>, from_config: Option<String>) -> (r: Result<
    String,
    DeleteError,
>)
    ensures
        match r {
            Ok(uuid) => (given is Some && Some(uuid) == given) || (given is None && Some(uuid)
                == from_config),
            Err(e) => given is None && from_config is None && e is MissingUuid,
        },
{
    match given {
        Some(uuid) => Ok(uuid),
        None => match from_config {
            Some(uuid) => Ok(uuid),
            None => Err(DeleteError::MissingUuid),
        },
    }
}

} // verus!
