//! The describe flow's decision logic: recovering the measurements of an
//! existing enclave image file. The filesystem checks, the container daemon
//! probe and the conversion tool run outside the verified library, which
//! receives their outcomes as plain values and decides what the flow
//! yields.

use vstd::prelude::*;

use crate::config::EIFMeasurements;
use crate::transform::DockerError;

verus! {

/// Why describing an enclave image file failed.
#[derive(Debug)]
pub enum DescribeError {
    /// No enclave image file exists at the given path.
    EIFNotFound(String),
    /// The container tooling failed.
    DockerError(DockerError),
}

/// What describing an enclave image file yields: given whether the file
/// exists, whether the container daemon answered, and the measurements the
/// conversion tool read, decides the flow's result: a missing file is
/// reported with its path, a daemon that is not running stops the flow,
/// and otherwise the recovered measurements are passed through.
pub fn describe_eif(
    eif_path: &str,
    eif_exists: bool,
    docker_running: bool,
    description: Option<EIFMeasurements>,
) -> (r: Result<EIFMeasurements, DescribeError>)
    requires
        eif_exists && docker_running ==> description is Some,
    ensures
        match r {
            Ok(m) => eif_exists && docker_running && description == Some(m),
            Err(e) => match e {
                DescribeError::EIFNotFound(p) => !eif_exists && p@ == eif_path@,
                DescribeError::DockerError(d) => eif_exists && !docker_running && d
                    == DockerError::DaemonNotRunning,
            },
        },
{
    if !eif_exists {
        return Err(DescribeError::EIFNotFound(String::from_str(eif_path)));
    }
    if !docker_running {
        return Err(DescribeError::DockerError(DockerError::DaemonNotRunning));
    }
    match description {
        Some(m) => Ok(m),
        None => Err(DescribeError::DockerError(DockerError::DaemonNotRunning)),
    }
}

} // verus!
