use enclave_build::api::{ApiError, EXIT_DATAERR, EXIT_NOPERM, EXIT_NOUSER, EXIT_SOFTWARE, EXIT_UNAVAILABLE};
use enclave_build::builder::build_image_command_args;
use enclave_build::config::{
    CageConfig, CageConfigError, EIFMeasurements, EgressSettings, PCRs, SigningInfo,
    SigningInfoError,
};
use enclave_build::deploy::{
    Cage, CageDeployment, CreateCageDeploymentIntentRequest, DeployError, DeployEvent,
    DeployPhase, DeploymentIntent, StatusReport, advance_deploy_phase, check_build_status,
    check_delete_status, check_deployment_status, check_timeout, poll_outcome, poll_step,
    DEPLOY_WATCH_TIMEOUT_SECONDS,
};
use enclave_build::config::reconcile_attestation;
use enclave_build::delete::{DeleteError, resolve_cage_uuid};
use enclave_build::describe::{DescribeError, describe_eif};
use enclave_build::transform::DockerError;

fn sample_config() -> CageConfig {
    CageConfig {
        name: "test".to_string(),
        uuid: Some("cage_123".to_string()),
        app_uuid: Some("app_456".to_string()),
        team_uuid: Some("team_789".to_string()),
        debug: false,
        dockerfile: Some("./Dockerfile".to_string()),
        egress: EgressSettings { enabled: false, destinations: None },
        signing: Some(SigningInfo {
            cert: Some("./cert.pem".to_string()),
            key: Some("./key.pem".to_string()),
        }),
        attestation: None,
        disable_tls_termination: false,
        api_key_auth: true,
        trx_logging_enabled: true,
        runtime: None,
        scaling: None,
    }
}

fn sample_measurements() -> EIFMeasurements {
    EIFMeasurements {
        pcrs: PCRs {
            pcr0: "00".to_string(),
            pcr1: "11".to_string(),
            pcr2: "22".to_string(),
            pcr8: None,
        },
        signature: None,
    }
}

#[test]
fn test_validate_complete_config() {
    let validated = sample_config().validate().unwrap();
    assert_eq!(validated.cage_name(), "test");
    assert_eq!(validated.cage_uuid(), "cage_123");
    assert_eq!(validated.app_uuid(), "app_456");
    assert_eq!(validated.team_uuid(), "team_789");
    assert_eq!(validated.dockerfile(), "./Dockerfile");
    assert_eq!(validated.signing_info().cert(), "./cert.pem");
    assert_eq!(validated.signing_info().key(), "./key.pem");
    assert!(!validated.egress().is_enabled());
    assert!(validated.api_key_auth());
    assert!(validated.trx_logging_enabled());
}

#[test]
fn test_validate_missing_signing_info() {
    let mut config = sample_config();
    config.signing = None;
    assert!(matches!(
        config.validate(),
        Err(CageConfigError::MissingSigningInfo(SigningInfoError::NoSigningInfoGiven))
    ));
}

#[test]
fn test_validate_missing_dockerfile() {
    let mut config = sample_config();
    config.dockerfile = None;
    assert!(matches!(config.validate(), Err(CageConfigError::MissingDockerfile)));
}

#[test]
fn test_validate_missing_uuids() {
    let mut config = sample_config();
    config.app_uuid = None;
    match config.validate() {
        Err(CageConfigError::MissingField(f)) => assert_eq!(f, "App uuid"),
        _ => panic!("expected a missing field error"),
    }
    let mut config = sample_config();
    config.uuid = None;
    match config.validate() {
        Err(CageConfigError::MissingField(f)) => assert_eq!(f, "Cage uuid"),
        _ => panic!("expected a missing field error"),
    }
    let mut config = sample_config();
    config.team_uuid = None;
    match config.validate() {
        Err(CageConfigError::MissingField(f)) => assert_eq!(f, "Team uuid"),
        _ => panic!("expected a missing field error"),
    }
}

#[test]
fn test_validate_missing_cert_or_key() {
    let mut config = sample_config();
    config.signing = Some(SigningInfo { cert: None, key: Some("k".to_string()) });
    assert!(matches!(
        config.validate(),
        Err(CageConfigError::MissingSigningInfo(SigningInfoError::EmptySigningCert))
    ));
    let mut config = sample_config();
    config.signing = Some(SigningInfo { cert: Some("c".to_string()), key: None });
    assert!(matches!(
        config.validate(),
        Err(CageConfigError::MissingSigningInfo(SigningInfoError::EmptySigningKey))
    ));
}

#[test]
fn test_signing_info_is_valid() {
    let info = SigningInfo { cert: Some("c".to_string()), key: None };
    assert!(!info.is_valid());
    let info = SigningInfo { cert: Some("c".to_string()), key: Some("k".to_string()) };
    assert!(info.is_valid());
}

#[test]
fn test_config_setters() {
    let mut config = sample_config();
    config.signing = None;
    config.set_cert("new-cert".to_string());
    assert_eq!(config.cert(), Some("new-cert"));
    assert_eq!(config.key(), None);
    config.set_key("new-key".to_string());
    assert_eq!(config.cert(), Some("new-cert"));
    assert_eq!(config.key(), Some("new-key"));
    config.set_dockerfile("other.Dockerfile".to_string());
    assert_eq!(config.dockerfile(), Some("other.Dockerfile"));
    config.set_attestation(&sample_measurements());
    assert!(config.attestation.is_some());
}

#[test]
fn test_config_annotate() {
    let mut config = sample_config();
    config.uuid = None;
    config.app_uuid = None;
    config.team_uuid = None;
    let cage = Cage {
        uuid: "u".to_string(),
        app_uuid: "a".to_string(),
        team_uuid: "t".to_string(),
        name: "test".to_string(),
        domain: "test.example.com".to_string(),
        deleted_at: None,
    };
    config.annotate(cage);
    assert_eq!(config.uuid, Some("u".to_string()));
    assert_eq!(config.app_uuid, Some("a".to_string()));
    assert_eq!(config.team_uuid, Some("t".to_string()));
}

#[test]
fn test_api_error_from_status() {
    assert!(matches!(ApiError::get_error_from_status(400), ApiError::BadRequest));
    assert!(matches!(ApiError::get_error_from_status(401), ApiError::Unauthorized));
    assert!(matches!(ApiError::get_error_from_status(403), ApiError::Forbidden));
    assert!(matches!(ApiError::get_error_from_status(404), ApiError::NotFound));
    assert!(matches!(ApiError::get_error_from_status(409), ApiError::Conflict));
    assert!(matches!(ApiError::get_error_from_status(500), ApiError::Internal));
    assert!(matches!(ApiError::get_error_from_status(502), ApiError::Unknown(None)));
}

#[test]
fn test_api_error_messages() {
    assert_eq!(ApiError::get_error_from_status(400).to_msg(), "400: Bad Request");
    assert_eq!(ApiError::get_error_from_status(401).to_msg(), "401: Unauthorized");
    assert_eq!(ApiError::get_error_from_status(403).to_msg(), "403: Forbidden");
    assert_eq!(ApiError::get_error_from_status(404).to_msg(), "404: Not Found");
    assert_eq!(ApiError::get_error_from_status(409).to_msg(), "409: Conflict");
    assert_eq!(
        ApiError::get_error_from_status(500).to_msg(),
        "500: Internal Server Error"
    );
    assert_eq!(
        ApiError::Unknown(Some("connection reset".to_string())).to_msg(),
        "An unexpected error occured: connection reset"
    );
}

#[test]
fn test_api_error_exit_codes() {
    assert_eq!(ApiError::BadRequest.exitcode(), EXIT_DATAERR);
    assert_eq!(ApiError::Unauthorized.exitcode(), EXIT_NOUSER);
    assert_eq!(ApiError::Forbidden.exitcode(), EXIT_NOPERM);
    assert_eq!(ApiError::Internal.exitcode(), EXIT_SOFTWARE);
    assert_eq!(ApiError::Unknown(None).exitcode(), EXIT_UNAVAILABLE);
}

fn deployment(built: bool, finished: bool, failed: bool) -> CageDeployment {
    CageDeployment {
        built,
        finished,
        failed,
        failure_reason: None,
        detailed_status: None,
    }
}

#[test]
fn test_watch_build() {
    // two pending polls, then the build finishes
    let responses = vec![
        deployment(false, false, false),
        deployment(false, false, false),
        deployment(true, false, false),
    ];
    let mut outcome = None;
    for response in responses.iter() {
        if let Some(done) = poll_step(&check_build_status(response)) {
            outcome = Some(done);
            break;
        }
    }
    assert_eq!(outcome, Some(true));
}

#[test]
fn test_watch_failed_build() {
    let responses = vec![
        deployment(false, false, false),
        deployment(false, false, false),
        deployment(false, false, true),
    ];
    let mut outcome = None;
    for response in responses.iter() {
        if let Some(done) = poll_step(&check_build_status(response)) {
            outcome = Some(done);
            break;
        }
    }
    assert_eq!(outcome, Some(false));
}

#[test]
fn test_watch_deploy() {
    let responses = vec![
        deployment(true, false, false),
        deployment(true, false, false),
        deployment(true, true, false),
    ];
    let mut outcome = None;
    for response in responses.iter() {
        if let Some(done) = poll_step(&check_deployment_status(response)) {
            outcome = Some(done);
            break;
        }
    }
    assert_eq!(outcome, Some(true));
}

#[test]
fn test_watch_failed_deploy() {
    let responses = vec![
        deployment(true, false, false),
        deployment(true, false, false),
        deployment(true, false, true),
    ];
    let mut outcome = None;
    for response in responses.iter() {
        if let Some(done) = poll_step(&check_deployment_status(response)) {
            outcome = Some(done);
            break;
        }
    }
    assert_eq!(outcome, Some(false));
}

#[test]
fn test_build_failure_reason_is_passed_on() {
    let mut d = deployment(false, false, true);
    d.failure_reason = Some("out of disk".to_string());
    match check_build_status(&d) {
        StatusReport::Failed(msg) => assert_eq!(msg, "Cage build failed - out of disk"),
        _ => panic!("expected a failure report"),
    }
    let d = deployment(false, false, true);
    match check_build_status(&d) {
        StatusReport::Failed(msg) => {
            assert_eq!(msg, "Cage build failed - An unknown error occurred")
        }
        _ => panic!("expected a failure report"),
    }
}

#[test]
fn test_deploy_progress_becomes_update() {
    let mut d = deployment(true, false, false);
    d.detailed_status = Some("starting enclave".to_string());
    match check_deployment_status(&d) {
        StatusReport::Update(msg) => assert_eq!(msg, "starting enclave"),
        _ => panic!("expected a progress update"),
    }
}

#[test]
fn test_delete_status_classification() {
    let gone = Cage {
        uuid: "u".to_string(),
        app_uuid: "a".to_string(),
        team_uuid: "t".to_string(),
        name: "n".to_string(),
        domain: "d".to_string(),
        deleted_at: Some("2023-01-01".to_string()),
    };
    assert!(matches!(check_delete_status(&Ok(gone)), StatusReport::Complete(_)));
    let still_there = Cage {
        uuid: "u".to_string(),
        app_uuid: "a".to_string(),
        team_uuid: "t".to_string(),
        name: "n".to_string(),
        domain: "d".to_string(),
        deleted_at: None,
    };
    assert!(matches!(check_delete_status(&Ok(still_there)), StatusReport::NoOp));
    assert!(matches!(
        check_delete_status(&Err(ApiError::NotFound)),
        StatusReport::Failed(_)
    ));
}

#[test]
fn test_deploy_phases_advance_monotonically() {
    let mut phase = DeployPhase::ZippingArtifact;
    phase = advance_deploy_phase(phase, &DeployEvent::ArtifactZipped);
    assert_eq!(phase, DeployPhase::Uploading);
    phase = advance_deploy_phase(phase, &DeployEvent::Uploaded);
    assert_eq!(phase, DeployPhase::BuildRequested);
    phase = advance_deploy_phase(phase, &DeployEvent::BuildStatus(StatusReport::NoOp));
    assert_eq!(phase, DeployPhase::Building);
    phase = advance_deploy_phase(
        phase,
        &DeployEvent::BuildStatus(StatusReport::Complete("built".to_string())),
    );
    assert_eq!(phase, DeployPhase::Deploying);
    phase = advance_deploy_phase(
        phase,
        &DeployEvent::DeployStatus(StatusReport::Update("going".to_string())),
    );
    assert_eq!(phase, DeployPhase::Deploying);
    phase = advance_deploy_phase(
        phase,
        &DeployEvent::DeployStatus(StatusReport::Complete("done".to_string())),
    );
    assert_eq!(phase, DeployPhase::Ready);
    // terminal states are never left
    phase = advance_deploy_phase(phase, &DeployEvent::TimedOut);
    assert_eq!(phase, DeployPhase::Ready);
}

#[test]
fn test_deploy_failure_is_terminal() {
    let phase = advance_deploy_phase(
        DeployPhase::Deploying,
        &DeployEvent::DeployStatus(StatusReport::Failed("broke".to_string())),
    );
    assert_eq!(phase, DeployPhase::DeployFailed);
    assert_eq!(
        advance_deploy_phase(phase, &DeployEvent::Uploaded),
        DeployPhase::DeployFailed
    );
}

#[test]
fn test_timed_operation_does_timeout() {
    let operation_name = "Long Operation";
    let result = check_timeout(operation_name, 1, 10);
    match result {
        Some(DeployError::TimeoutError(name, secs)) => {
            assert_eq!(name, operation_name);
            assert_eq!(secs, 1);
        }
        _ => panic!("expected a timeout"),
    }
}

#[test]
fn test_timed_operation_does_not_timeout() {
    let operation_name = "Long Operation";
    let result = check_timeout(operation_name, 4, 2);
    assert!(result.is_none());
    assert_eq!(DEPLOY_WATCH_TIMEOUT_SECONDS, 1200);
}

#[test]
fn test_describe_eif_decisions() {
    match describe_eif("./enclave.eif", false, false, None) {
        Err(DescribeError::EIFNotFound(p)) => assert_eq!(p, "./enclave.eif"),
        _ => panic!("expected the missing file error"),
    }
    assert!(matches!(
        describe_eif("./enclave.eif", true, false, None),
        Err(DescribeError::DockerError(DockerError::DaemonNotRunning))
    ));
    let described = describe_eif("./enclave.eif", true, true, Some(sample_measurements()));
    let measurements = described.unwrap();
    assert_eq!(measurements.pcrs().pcr0, "00");
}

#[test]
fn test_build_command_arguments() {
    let args = build_image_command_args(
        "/scratch/ev-user.Dockerfile",
        "enclave-image",
        true,
        &vec!["A=1".to_string(), "B=2".to_string()],
        ".",
    );
    assert_eq!(
        args,
        vec![
            "build".to_string(),
            "-f".to_string(),
            "/scratch/ev-user.Dockerfile".to_string(),
            "-t".to_string(),
            "enclave-image".to_string(),
            "--no-cache".to_string(),
            "--build-arg".to_string(),
            "A=1".to_string(),
            "--build-arg".to_string(),
            "B=2".to_string(),
            ".".to_string(),
        ]
    );
}

#[test]
fn test_measurements_signature_is_settable() {
    let mut m = sample_measurements();
    assert!(m.signature().is_none());
    m.set_signature("sig".to_string());
    assert_eq!(m.signature(), Some(&"sig".to_string()));
}

#[test]
fn test_resolve_cage_uuid_prefers_the_flag() {
    let resolved = resolve_cage_uuid(Some("flag-uuid".to_string()), Some("config-uuid".to_string()));
    assert_eq!(resolved.unwrap(), "flag-uuid");
    let resolved = resolve_cage_uuid(None, Some("config-uuid".to_string()));
    assert_eq!(resolved.unwrap(), "config-uuid");
    assert!(matches!(resolve_cage_uuid(None, None), Err(DeleteError::MissingUuid)));
}

#[test]
fn test_delete_error_exit_codes() {
    assert_eq!(DeleteError::MissingUuid.exitcode(), EXIT_DATAERR);
    assert_eq!(DeleteError::IoError("disk".to_string()).exitcode(), 74);
    assert_eq!(DeleteError::ApiError(ApiError::Forbidden).exitcode(), EXIT_NOPERM);
    assert_eq!(
        DeleteError::CageConfigError(CageConfigError::MissingConfigFile("./x.toml".to_string()))
            .exitcode(),
        65
    );
    assert_eq!(
        CageConfigError::MissingSigningInfo(SigningInfoError::SigningCertNotFound(
            "./cert.pem".to_string()
        ))
        .exitcode(),
        65
    );
}

#[test]
fn test_reconcile_attestation() {
    // matching registers carry the stored signature over
    let mut prior = sample_measurements();
    prior.set_signature("stored-sig".to_string());
    let mut fresh = sample_measurements();
    let consistent = reconcile_attestation(Some(&prior), &mut fresh);
    assert!(consistent);
    assert_eq!(fresh.signature(), Some(&"stored-sig".to_string()));
    // differing registers leave the fresh measurements untouched
    let mut other = sample_measurements();
    other.pcrs.pcr0 = "ff".to_string();
    let mut fresh = sample_measurements();
    let consistent = reconcile_attestation(Some(&other), &mut fresh);
    assert!(!consistent);
    assert!(fresh.signature().is_none());
    // with no prior attestation there is nothing to carry over
    let mut fresh = sample_measurements();
    assert!(!reconcile_attestation(None, &mut fresh));
}

#[test]
fn test_poll_outcome_stops_at_first_decisive_report() {
    let reports = vec![
        StatusReport::NoOp,
        StatusReport::Update("building".to_string()),
        StatusReport::Complete("done".to_string()),
        StatusReport::Failed("never reached".to_string()),
    ];
    assert_eq!(poll_outcome(&reports), Some(true));
    let reports = vec![StatusReport::NoOp, StatusReport::Failed("broke".to_string())];
    assert_eq!(poll_outcome(&reports), Some(false));
    let reports = vec![StatusReport::NoOp, StatusReport::NoOp];
    assert_eq!(poll_outcome(&reports), None);
}

#[test]
fn test_deployment_intent_getters() {
    let intent = DeploymentIntent {
        cage_uuid: "cage".to_string(),
        deployment_uuid: "deployment".to_string(),
        signed_upload_url: "https://storage.example.com/signed".to_string(),
    };
    assert_eq!(intent.cage_uuid(), "cage");
    assert_eq!(intent.deployment_uuid(), "deployment");
    assert_eq!(intent.signed_url(), "https://storage.example.com/signed");
}

#[test]
fn test_deployment_intent_request_builder() {
    let request = CreateCageDeploymentIntentRequest::new(
        sample_measurements().pcrs().clone(),
        false,
        false,
        4096,
        "0.0.0".to_string(),
        "abcdef".to_string(),
        "1700000000".to_string(),
        Some("deadbeef".to_string()),
        Some(2),
    );
    assert_eq!(request.eif_size_bytes, 4096);
    assert_eq!(request.data_plane_version, "0.0.0");
    assert_eq!(request.installer_version, "abcdef");
    assert_eq!(request.desired_replicas, Some(2));
}

#[test]
fn test_cage_getters() {
    let cage = Cage {
        uuid: "u".to_string(),
        app_uuid: "a".to_string(),
        team_uuid: "t".to_string(),
        name: "n".to_string(),
        domain: "n.example.com".to_string(),
        deleted_at: None,
    };
    assert_eq!(cage.uuid(), "u");
    assert_eq!(cage.app_uuid(), "a");
    assert_eq!(cage.team_uuid(), "t");
    assert_eq!(cage.domain(), "n.example.com");
    assert!(!cage.is_deleted());
}
