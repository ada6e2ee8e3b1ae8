//! The deploy state machine's decision logic: how remote build and deploy
//! status records are classified, how the deployment phase advances, and
//! the records exchanged with the remote API, as plain values.

use vstd::prelude::*;

use crate::api::ApiError;
use crate::config::PCRs;

verus! {

/// The hard bound on waiting for a deployment to become ready, in seconds.
pub const DEPLOY_WATCH_TIMEOUT_SECONDS: u64 = 1200;

/// An enclave as the remote API describes it.
#[derive(Debug)]
pub struct Cage {
    pub uuid: String,
    pub app_uuid: String,
    pub team_uuid: String,
    pub name: String,
    pub domain: String,
    pub deleted_at: Option<String>,
}

impl Cage {
    pub fn uuid(&self) -> (r: &str)
        ensures
            r@ == self.uuid@,
    {
        self.uuid.as_str()
    }

    pub fn app_uuid(&self) -> (r: &str)
        ensures
            r@ == self.app_uuid@,
    {
        self.app_uuid.as_str()
    }

    pub fn team_uuid(&self) -> (r: &str)
        ensures
            r@ == self.team_uuid@,
    {
        self.team_uuid.as_str()
    }

    pub fn domain(&self) -> (r: &str)
        ensures
            r@ == self.domain@,
    {
        self.domain.as_str()
    }

    pub fn is_deleted(&self) -> (r: bool)
        ensures
            r == (self.deleted_at is Some),
    {
        self.deleted_at.is_some()
    }
}

/// One deployment's remote status, as plain values.
#[derive(Debug)]
pub struct CageDeployment {
    /// The remote image build has finished successfully.
    pub built: bool,
    /// The deployment has finished and the enclave is ready.
    pub finished: bool,
    /// The build or deployment has failed.
    pub failed: bool,
    pub failure_reason: Option<String>,
    pub detailed_status: Option<String>,
}

impl CageDeployment {
    pub fn is_built(&self) -> (r: bool)
        ensures
            r == self.built,
    {
        self.built
    }

    pub fn is_finished(&self) -> (r: bool)
        ensures
            r == self.finished,
    {
        self.finished
    }

    pub fn is_failed(&self) -> (r: bool)
        ensures
            r == self.failed,
    {
        self.failed
    }

    pub fn get_failure_reason(&self) -> (r: Option<String>)
        ensures
            r == self.failure_reason,
    {
        match &self.failure_reason {
            Some(reason) => Some(reason.clone()),
            None => None,
        }
    }

    pub fn get_detailed_status(&self) -> (r: Option<String>)
        ensures
            r == self.detailed_status,
    {
        match &self.detailed_status {
            Some(status) => Some(status.clone()),
            None => None,
        }
    }
}

/// A remote-issued authorization to upload the built artifact and begin a
/// deployment.
#[derive(Debug)]
pub struct DeploymentIntent {
    pub cage_uuid: String,
    pub deployment_uuid: String,
    pub signed_upload_url: String,
}

impl DeploymentIntent {
    pub fn cage_uuid(&self) -> (r: &str)
        ensures
            r@ == self.cage_uuid@,
    {
        self.cage_uuid.as_str()
    }

    pub fn deployment_uuid(&self) -> (r: &str)
        ensures
            r@ == self.deployment_uuid@,
    {
        self.deployment_uuid.as_str()
    }

    pub fn signed_url(&self) -> (r: &str)
        ensures
            r@ == self.signed_upload_url@,
    {
        self.signed_upload_url.as_str()
    }
}

/// The payload that requests a deployment: the measurements and size of the
/// artifact, the versions baked into it, build metadata, and the desired
/// scale.
#[derive(Debug)]
pub struct CreateCageDeploymentIntentRequest {
    pub pcrs: PCRs,
    pub debug_mode: bool,
    pub egress_enabled: bool,
    pub eif_size_bytes: u64,
    pub data_plane_version: String,
    pub installer_version: String,
    pub source_date_epoch: String,
    pub git_hash: Option<String>,
    pub desired_replicas: Option<u32>,
}

impl CreateCageDeploymentIntentRequest {
    pub fn new(
        pcrs: PCRs,
        debug_mode: bool,
        egress_enabled: bool,
        eif_size_bytes: u64,
        data_plane_version: String,
        installer_version: String,
        source_date_epoch: String,
        git_hash: Option<String>,
        desired_replicas: Option<u32>,
    ) -> (r: Self)
        ensures
            r == (CreateCageDeploymentIntentRequest {
                pcrs,
                debug_mode,
                egress_enabled,
                eif_size_bytes,
                data_plane_version,
                installer_version,
                source_date_epoch,
                git_hash,
                desired_replicas,
            }),
    {
        Self {
            pcrs,
            debug_mode,
            egress_enabled,
            eif_size_bytes,
            data_plane_version,
            installer_version,
            source_date_epoch,
            git_hash,
            desired_replicas,
        }
    }
}

/// What one poll of remote state means for the caller: done, failed, a
/// progress message to show, or nothing yet.
#[derive(Debug)]
pub enum StatusReport {
    Complete(String),
    Failed(String),
    Update(String),
    NoOp,
}

impl StatusReport {
    pub fn complete(msg: String) -> (r: Self)
        ensures
            r == StatusReport::Complete(msg),
    {
        Self::Complete(msg)
    }

    pub fn update(msg: String) -> (r: Self)
        ensures
            r == StatusReport::Update(msg),
    {
        Self::Update(msg)
    }

    pub fn no_op() -> (r: Self)
        ensures
            r is NoOp,
    {
        Self::NoOp
    }
}

/// What the polling driver does with a report: stop with success, stop with
/// failure, or keep polling.
pub fn poll_step(report: &StatusReport) -> (r: Option<bool>)
    ensures
        match report {
            StatusReport::Complete(_) => r == Some(true),
            StatusReport::Failed(_) => r == Some(false),
            StatusReport::Update(_) => r is None,
            StatusReport::NoOp => r is None,
        },
{
    match report {
        StatusReport::Complete(_) => Some(true),
        StatusReport::Failed(_) => Some(false),
        StatusReport::Update(_) => None,
        StatusReport::NoOp => None,
    }
}

/// The message reported for a failure, from the remote reason when one was
/// given.
pub open spec fn spec_failure_msg(prefix: Seq<char>, reason: Option<String>) -> Seq<char> {
    prefix + (match reason {
        Some(r) => r@,
        None => "An unknown error occurred"@,
    })
}

/// Classifies one poll of the build phase: the build finishing or failing
/// ends the phase, with the remote failure reason passed on; anything else
/// keeps polling silently. This is the only place build status is
/// interpreted.
pub fn check_build_status(deployment: &CageDeployment) -> (r: StatusReport)
    ensures
        deployment.built ==> (r matches StatusReport::Complete(m) && m@
            == "Cage built on Evervault!"@),
        !deployment.built && deployment.failed ==> (r matches StatusReport::Failed(m) && m@
            == spec_failure_msg("Cage build failed - "@, deployment.failure_reason)),
        !deployment.built && !deployment.failed ==> r is NoOp,
{
    if deployment.is_built() {
        let mut m = String::new();
        m.append("Cage built on Evervault!");
        proof {
            assert(m@ =~= "Cage built on Evervault!"@);
        }
        StatusReport::Complete(m)
    } else if deployment.is_failed() {
        let mut m = String::new();
        m.append("Cage build failed - ");
        match &deployment.failure_reason {
            Some(reason) => m.append(reason.as_str()),
            None => m.append("An unknown error occurred"),
        }
        StatusReport::Failed(m)
    } else {
        StatusReport::NoOp
    }
}

/// Classifies one poll of the deploy phase: finishing or failing ends the
/// phase; otherwise a detailed status becomes a progress update and its
/// absence means nothing to report. This is the only place deploy status is
/// interpreted.
pub fn check_deployment_status(deployment: &CageDeployment) -> (r: StatusReport)
    ensures
        deployment.finished ==> (r matches StatusReport::Complete(m) && m@
            == "Cage deployed!"@),
        !deployment.finished && deployment.failed ==> (r matches StatusReport::Failed(m) && m@
            == spec_failure_msg("Cage deployment failed - "@, deployment.failure_reason)),
        !deployment.finished && !deployment.failed && deployment.detailed_status is Some ==> (r
            matches StatusReport::Update(m) && m@ == deployment.detailed_status.unwrap()@),
        !deployment.finished && !deployment.failed && deployment.detailed_status is None ==> r
            is NoOp,
{
    if deployment.is_finished() {
        let mut m = String::new();
        m.append("Cage deployed!");
        proof {
            assert(m@ =~= "Cage deployed!"@);
        }
        StatusReport::Complete(m)
    } else if deployment.is_failed() {
        let mut m = String::new();
        m.append("Cage deployment failed - ");
        match &deployment.failure_reason {
            Some(reason) => m.append(reason.as_str()),
            None => m.append("An unknown error occurred"),
        }
        StatusReport::Failed(m)
    } else {
        match &deployment.detailed_status {
            Some(status) => StatusReport::Update(status.clone()),
            None => StatusReport::NoOp,
        }
    }
}

/// Classifies one poll while waiting for a deletion: the enclave being gone
/// completes the wait, an error while asking fails it, anything else keeps
/// polling.
pub fn check_delete_status(response: &Result<Cage, ApiError>) -> (r: StatusReport)
    ensures
        match response {
            Ok(cage) => if cage.deleted_at is Some {
                r matches StatusReport::Complete(m) && m@ == "Cage deleted!"@
            } else {
                r is NoOp
            },
            Err(_) => (r matches StatusReport::Failed(m) && m@
                == "Unable to retrieve deletion status"@),
        },
{
    match response {
        Ok(cage) => {
            if cage.is_deleted() {
                let mut m = String::new();
                m.append("Cage deleted!");
                proof {
                    assert(m@ =~= "Cage deleted!"@);
                }
                StatusReport::Complete(m)
            } else {
                StatusReport::NoOp
            }
        }
        Err(_) => {
            let mut m = String::new();
            m.append("Unable to retrieve deletion status");
            proof {
                assert(m@ =~= "Unable to retrieve deletion status"@);
            }
            StatusReport::Failed(m)
        }
    }
}

/// Why a deployment failed on the client's side.
#[derive(Debug)]
pub enum DeployError {
    /// The remote build or deployment reported failure.
    DeploymentError,
    /// The artifact upload was refused, with the response's text.
    UploadError(String),
    /// Reading the artifact's size failed.
    EifSizeReadError(String),
    /// An input/output failure, with its description.
    IoError(String),
    /// The remote API answered an error.
    ApiError(ApiError),
    /// The named operation ran past its bound, in seconds.
    TimeoutError(String, u64),
}

/// The phases of one deployment, in the order they are entered.
#[derive(Clone, Copy, Debug, PartialEq, Eq, Structural)]
pub enum DeployPhase {
    ZippingArtifact,
    Uploading,
    BuildRequested,
    Building,
    Deploying,
    Ready,
    BuildFailed,
    DeployFailed,
    TimedOut,
}

/// What the world reports back to the deploy state machine.
#[derive(Debug)]
pub enum DeployEvent {
    /// The artifact was zipped.
    ArtifactZipped,
    /// The upload succeeded and a deployment was requested.
    Uploaded,
    /// One poll of the build phase, classified.
    BuildStatus(StatusReport),
    /// One poll of the deploy phase, classified.
    DeployStatus(StatusReport),
    /// The phase's time bound elapsed.
    TimedOut,
}

/// How far along a phase is; failures and completion are final.
pub open spec fn spec_phase_rank(p: DeployPhase) -> int {
    match p {
        DeployPhase::ZippingArtifact => 0,
        DeployPhase::Uploading => 1,
        DeployPhase::BuildRequested => 2,
        DeployPhase::Building => 3,
        DeployPhase::Deploying => 4,
        DeployPhase::Ready => 5,
        DeployPhase::BuildFailed => 5,
        DeployPhase::DeployFailed => 5,
        DeployPhase::TimedOut => 5,
    }
}

/// A phase from which no transition leaves.
pub open spec fn spec_phase_terminal(p: DeployPhase) -> bool {
    p is Ready || p is BuildFailed || p is DeployFailed || p is TimedOut
}

/// The next phase after an event. The phases advance strictly: zipping
/// leads to uploading, a successful upload to the remote build, a built
/// image to deploying, and a finished deployment to ready; a failure
/// report or a timeout ends the deployment, and no phase is ever
/// revisited.
pub open spec fn spec_advance(p: DeployPhase, e: &DeployEvent) -> DeployPhase {
    if spec_phase_terminal(p) {
        p
    } else {
        match e {
            DeployEvent::TimedOut => DeployPhase::TimedOut,
            DeployEvent::ArtifactZipped => if p is ZippingArtifact {
                DeployPhase::Uploading
            } else {
                p
            },
            DeployEvent::Uploaded => if p is Uploading {
                DeployPhase::BuildRequested
            } else {
                p
            },
            DeployEvent::BuildStatus(report) => if p is BuildRequested || p is Building {
                match report {
                    StatusReport::Complete(_) => DeployPhase::Deploying,
                    StatusReport::Failed(_) => DeployPhase::BuildFailed,
                    _ => DeployPhase::Building,
                }
            } else {
                p
            },
            DeployEvent::DeployStatus(report) => if p is Deploying {
                match report {
                    StatusReport::Complete(_) => DeployPhase::Ready,
                    StatusReport::Failed(_) => DeployPhase::DeployFailed,
                    _ => DeployPhase::Deploying,
                }
            } else {
                p
            },
        }
    }
}

/// Advances the deploy state machine by one event.
pub fn advance_deploy_phase(p: DeployPhase, e: &DeployEvent) -> (r: DeployPhase)
    ensures
        r == spec_advance(p, e),
        spec_phase_rank(r) >= spec_phase_rank(p),
{
    let terminal = matches!(
        p,
        DeployPhase::Ready | DeployPhase::BuildFailed | DeployPhase::DeployFailed
            | DeployPhase::TimedOut
    );
    if terminal {
        p
    } else {
        match e {
            DeployEvent::TimedOut => DeployPhase::TimedOut,
            DeployEvent::ArtifactZipped => {
                if matches!(p, DeployPhase::ZippingArtifact) {
                    DeployPhase::Uploading
                } else {
                    p
                }
            }
            DeployEvent::Uploaded => {
                if matches!(p, DeployPhase::Uploading) {
                    DeployPhase::BuildRequested
                } else {
                    p
                }
            }
            DeployEvent::BuildStatus(report) => {
                if matches!(p, DeployPhase::BuildRequested | DeployPhase::Building) {
                    match report {
                        StatusReport::Complete(_) => DeployPhase::Deploying,
                        StatusReport::Failed(_) => DeployPhase::BuildFailed,
                        _ => DeployPhase::Building,
                    }
                } else {
                    p
                }
            }
            DeployEvent::DeployStatus(report) => {
                if matches!(p, DeployPhase::Deploying) {
                    match report {
                        StatusReport::Complete(_) => DeployPhase::Ready,
                        StatusReport::Failed(_) => DeployPhase::DeployFailed,
                        _ => DeployPhase::Deploying,
                    }
                } else {
                    p
                }
            }
        }
    }
}

/// The deploy phases never go backwards, and a terminal phase is never
/// left: one deployment's states are strictly monotonic.
pub proof fn lemma_deploy_monotonic(p: DeployPhase, e: &DeployEvent)
    ensures
        spec_phase_rank(spec_advance(p, e)) >= spec_phase_rank(p),
        spec_phase_terminal(p) ==> spec_advance(p, e) == p,
{
}

/// Whether an operation that has run for `elapsed` seconds has exceeded its
/// bound, and the error reporting it.
pub fn check_timeout(operation_name: &str, max_timeout_seconds: u64, elapsed_seconds: u64) -> (r:
    Option<DeployError>)
    ensures
        match r {
            Some(e) => elapsed_seconds >= max_timeout_seconds && (e matches
                DeployError::TimeoutError(name, secs) && name@ == operation_name@ && secs
                == max_timeout_seconds),
            None => elapsed_seconds < max_timeout_seconds,
        },
{
    if elapsed_seconds >= max_timeout_seconds {
        Some(DeployError::TimeoutError(operation_name.to_owned(), max_timeout_seconds))
    } else {
        None
    }
}


/// What a finished sequence of polls decides: the first decisive report
/// wins, later reports change nothing.
pub open spec fn spec_poll_outcome(reports: Seq<StatusReport>) -> Option<bool>
    decreases reports.len(),
{
    if reports.len() == 0 {
        None
    } else {
        match reports[0] {
            StatusReport::Complete(_) => Some(true),
            StatusReport::Failed(_) => Some(false),
            _ => spec_poll_outcome(reports.drop_first()),
        }
    }
}

/// Folds classified reports the way the polling driver does: polling stops
/// at the first completion or failure; updates and quiet polls continue.
pub fn poll_outcome(reports: &Vec<StatusReport>) -> (r: Option<bool>)
    ensures
        r == spec_poll_outcome(reports@),
{
    let ghost full = reports@;
    let mut i: usize = 0;
    proof {
        assert(full.skip(0) =~= full);
    }
    while i < reports.len()
        invariant
            i <= reports.len(),
            full == reports@,
            spec_poll_outcome(full) == spec_poll_outcome(full.skip(i as int)),
        decreases reports.len() - i,
    {
        proof {
            assert(full.skip(i as int)[0] == full[i as int]);
            assert(full.skip(i as int).drop_first() =~= full.skip(i + 1));
        }
        match poll_step(&reports[i]) {
            Some(done) => {
                return Some(done);
            }
            None => {}
        }
        i = i + 1;
    }
    proof {
        assert(full.skip(full.len() as int) =~= Seq::<StatusReport>::empty());
    }
    None
}


} // verus!
