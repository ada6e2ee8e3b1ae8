//! Build configuration: the raw config read from the enclave's config file,
//! its validated form that one build consumes, and the attestation
//! measurements written back after a build.

use vstd::prelude::*;

verus! {

/// Egress settings of the enclave.
#[derive(Debug)]
pub struct EgressSettings {
    pub enabled: bool,
    pub destinations: Option<Vec<String>>,
}

impl EgressSettings {
    pub fn is_enabled(&self) -> (r: bool)
        ensures
            r == self.enabled,
    {
        self.enabled
    }
}

/// Signing credentials as they appear in the config file, possibly missing.
#[derive(Debug)]
pub struct SigningInfo {
    pub cert: Option<String>,
    pub key: Option<String>,
}

impl SigningInfo {
    pub fn is_valid(&self) -> (r: bool)
        ensures
            r == (self.cert is Some && self.key is Some),
    {
        self.cert.is_some() && self.key.is_some()
    }
}

/// Why signing information was rejected.
#[derive(Debug)]
pub enum SigningInfoError {
    NoSigningInfoGiven,
    EmptySigningCert,
    EmptySigningKey,
    SigningCertNotFound(String),
    SigningKeyNotFound(String),
}

/// Signing credentials known to be present.
#[derive(Debug)]
pub struct ValidatedSigningInfo {
    pub cert: String,
    pub key: String,
}

impl ValidatedSigningInfo {
    pub fn cert(&self) -> (r: &str)
        ensures
            r@ == self.cert@,
    {
        self.cert.as_str()
    }

    pub fn key(&self) -> (r: &str)
        ensures
            r@ == self.key@,
    {
        self.key.as_str()
    }
}

/// The platform configuration registers measured from an enclave image.
#[derive(Debug)]
pub struct PCRs {
    pub pcr0: String,
    pub pcr1: String,
    pub pcr2: String,
    pub pcr8: Option<String>,
}

/// The attestation measurements of a built enclave image, with optional
/// signature metadata.
#[derive(Debug)]
pub struct EIFMeasurements {
    pub pcrs: PCRs,
    pub signature: Option<String>,
}

/// Clones an optional string, keeping its text.
fn clone_opt_string(s: &Option<String>) -> (r: Option<String>)
    ensures
        r == *s,
{
    match s {
        Some(text) => Some(text.clone()),
        None => None,
    }
}

impl Clone for PCRs {
    fn clone(&self) -> (r: Self)
        ensures
            r == *self,
    {
        PCRs {
            pcr0: self.pcr0.clone(),
            pcr1: self.pcr1.clone(),
            pcr2: self.pcr2.clone(),
            pcr8: clone_opt_string(&self.pcr8),
        }
    }
}

impl Clone for EIFMeasurements {
    fn clone(&self) -> (r: Self)
        ensures
            r == *self,
    {
        EIFMeasurements { pcrs: self.pcrs.clone(), signature: clone_opt_string(&self.signature) }
    }
}

impl EIFMeasurements {
    pub fn pcrs(&self) -> (r: &PCRs)
        ensures
            r == &self.pcrs,
    {
        &self.pcrs
    }

    pub fn signature(&self) -> (r: Option<&String>)
        ensures
            match r {
                Some(s) => self.signature == Some(*s),
                None => self.signature is None,
            },
    {
        self.signature.as_ref()
    }

    pub fn set_signature(&mut self, signature: String)
        ensures
            final(self).pcrs == old(self).pcrs,
            final(self).signature == Some(signature),
    {
        self.signature = Some(signature);
    }
}

/// Pinned runtime component versions.
#[derive(Debug)]
pub struct RuntimeVersions {
    pub data_plane_version: String,
    pub installer_version: String,
}

/// Desired scaling of the enclave.
#[derive(Clone, Copy, Debug, PartialEq, Eq, Structural)]
pub struct ScalingSettings {
    pub desired_replicas: u32,
}

/// Why the config could not be read or validated.
#[derive(Debug)]
pub enum CageConfigError {
    /// No config file was found at the given path.
    MissingConfigFile(String),
    /// The config file could not be read.
    FailedToAccessConfig(String),
    /// The config file did not parse.
    FailedToParseCageConfig(String),
    MissingSigningInfo(SigningInfoError),
    MissingDockerfile,
    /// The named field was not set.
    MissingField(String),
}

/// The enclave's config as read from its config file.
#[derive(Debug)]
pub struct CageConfig {
    pub name: String,
    pub uuid: Option<String>,
    pub app_uuid: Option<String>,
    pub team_uuid: Option<String>,
    pub debug: bool,
    pub dockerfile: Option<String>,
    pub egress: EgressSettings,
    pub signing: Option<SigningInfo>,
    pub attestation: Option<EIFMeasurements>,
    pub disable_tls_termination: bool,
    pub api_key_auth: bool,
    pub trx_logging_enabled: bool,
    pub runtime: Option<RuntimeVersions>,
    pub scaling: Option<ScalingSettings>,
}

/// Fully populated build inputs, consumed by one build.
#[derive(Debug)]
pub struct ValidatedCageBuildConfig {
    pub cage_name: String,
    pub cage_uuid: String,
    pub app_uuid: String,
    pub team_uuid: String,
    pub debug: bool,
    pub dockerfile: String,
    pub egress: EgressSettings,
    pub signing: ValidatedSigningInfo,
    pub attestation: Option<EIFMeasurements>,
    pub disable_tls_termination: bool,
    pub api_key_auth: bool,
    pub trx_logging_enabled: bool,
    pub runtime: Option<RuntimeVersions>,
    pub scaling: Option<ScalingSettings>,
}

impl ValidatedCageBuildConfig {
    pub fn signing_info(&self) -> (r: &ValidatedSigningInfo)
        ensures
            r == &self.signing,
    {
        &self.signing
    }

    pub fn dockerfile(&self) -> (r: &str)
        ensures
            r@ == self.dockerfile@,
    {
        self.dockerfile.as_str()
    }

    pub fn egress(&self) -> (r: &EgressSettings)
        ensures
            r == &self.egress,
    {
        &self.egress
    }

    pub fn cage_name(&self) -> (r: &str)
        ensures
            r@ == self.cage_name@,
    {
        self.cage_name.as_str()
    }

    pub fn cage_uuid(&self) -> (r: &str)
        ensures
            r@ == self.cage_uuid@,
    {
        self.cage_uuid.as_str()
    }

    pub fn app_uuid(&self) -> (r: &str)
        ensures
            r@ == self.app_uuid@,
    {
        self.app_uuid.as_str()
    }

    pub fn team_uuid(&self) -> (r: &str)
        ensures
            r@ == self.team_uuid@,
    {
        self.team_uuid.as_str()
    }

    pub fn api_key_auth(&self) -> (r: bool)
        ensures
            r == self.api_key_auth,
    {
        self.api_key_auth
    }

    pub fn trx_logging_enabled(&self) -> (r: bool)
        ensures
            r == self.trx_logging_enabled,
    {
        self.trx_logging_enabled
    }
}

/// The label naming the data-plane build that matches the configuration:
/// whether egress is enabled, then whether TLS termination is enabled.
pub open spec fn spec_feature_label(egress_enabled: bool, disable_tls_termination: bool) -> Seq<
    char,
> {
    "egress-"@ + (if egress_enabled {
        "enabled"@
    } else {
        "disabled"@
    }) + "/tls-termination-"@ + (if disable_tls_termination {
        "disabled"@
    } else {
        "enabled"@
    })
}

impl ValidatedCageBuildConfig {
    /// The path component naming the data-plane build this configuration
    /// needs.
    pub fn get_dataplane_feature_label(&self) -> (r: String)
        ensures
            r@ == spec_feature_label(self.egress.enabled, self.disable_tls_termination),
    {
        let mut r = String::new();
        r.append("egress-");
        if self.egress.enabled {
            r.append("enabled");
        } else {
            r.append("disabled");
        }
        r.append("/tls-termination-");
        if self.disable_tls_termination {
            r.append("disabled");
        } else {
            r.append("enabled");
        }
        proof {
            assert(r@ =~= spec_feature_label(self.egress.enabled, self.disable_tls_termination));
        }
        r
    }
}

/// The first reason validation refuses a raw config, if any: missing signing
/// info, then a missing dockerfile, app uuid, enclave uuid or team uuid,
/// then a missing signing certificate or key.
pub open spec fn spec_validate_err(c: &CageConfig, e: &CageConfigError) -> bool {
    if c.signing is None {
        e matches CageConfigError::MissingSigningInfo(SigningInfoError::NoSigningInfoGiven)
    } else if c.dockerfile is None {
        e is MissingDockerfile
    } else if c.app_uuid is None {
        e matches CageConfigError::MissingField(m) && m@ == "App uuid"@
    } else if c.uuid is None {
        e matches CageConfigError::MissingField(m) && m@ == "Cage uuid"@
    } else if c.team_uuid is None {
        e matches CageConfigError::MissingField(m) && m@ == "Team uuid"@
    } else if c.signing.unwrap().cert is None {
        e matches CageConfigError::MissingSigningInfo(SigningInfoError::EmptySigningCert)
    } else {
        e matches CageConfigError::MissingSigningInfo(SigningInfoError::EmptySigningKey)
    }
}

/// Every field validation requires is present.
pub open spec fn spec_config_complete(c: &CageConfig) -> bool {
    c.signing is Some && c.dockerfile is Some && c.app_uuid is Some && c.uuid is Some
        && c.team_uuid is Some && c.signing.unwrap().cert is Some && c.signing.unwrap().key
        is Some
}

impl CageConfig {
    pub fn name(&self) -> (r: &str)
        ensures
            r@ == self.name@,
    {
        self.name.as_str()
    }

    pub fn set_dockerfile(&mut self, dockerfile: String)
        ensures
            *final(self) == (CageConfig { dockerfile: Some(dockerfile), ..*old(self) }),
    {
        self.dockerfile = Some(dockerfile);
    }

    pub fn dockerfile(&self) -> (r: Option<&str>)
        ensures
            match r {
                Some(d) => self.dockerfile is Some && d@ == self.dockerfile.unwrap()@,
                None => self.dockerfile is None,
            },
    {
        match &self.dockerfile {
            Some(d) => Some(d.as_str()),
            None => None,
        }
    }

    pub fn cert(&self) -> (r: Option<&str>)
        ensures
            match r {
                Some(c) => self.signing is Some && self.signing.unwrap().cert is Some && c@
                    == self.signing.unwrap().cert.unwrap()@,
                None => self.signing is None || self.signing.unwrap().cert is None,
            },
    {
        match &self.signing {
            Some(info) => match &info.cert {
                Some(c) => Some(c.as_str()),
                None => None,
            },
            None => None,
        }
    }

    /// Sets the signing certificate path, keeping any key already given.
    pub fn set_cert(&mut self, cert: String)
        ensures
            final(self).signing is Some,
            final(self).signing.unwrap().cert == Some(cert),
            old(self).signing is Some ==> final(self).signing.unwrap().key == old(
                self,
            ).signing.unwrap().key,
            old(self).signing is None ==> final(self).signing.unwrap().key is None,
    {
        let key = match &self.signing {
            Some(info) => clone_opt_string(&info.key),
            None => None,
        };
        self.signing = Some(SigningInfo { cert: Some(cert), key });
    }

    pub fn key(&self) -> (r: Option<&str>)
        ensures
            match r {
                Some(k) => self.signing is Some && self.signing.unwrap().key is Some && k@
                    == self.signing.unwrap().key.unwrap()@,
                None => self.signing is None || self.signing.unwrap().key is None,
            },
    {
        match &self.signing {
            Some(info) => match &info.key {
                Some(k) => Some(k.as_str()),
                None => None,
            },
            None => None,
        }
    }

    /// Sets the signing key path, keeping any certificate already given.
    pub fn set_key(&mut self, key: String)
        ensures
            final(self).signing is Some,
            final(self).signing.unwrap().key == Some(key),
            old(self).signing is Some ==> final(self).signing.unwrap().cert == old(
                self,
            ).signing.unwrap().cert,
            old(self).signing is None ==> final(self).signing.unwrap().cert is None,
    {
        let cert = match &self.signing {
            Some(info) => clone_opt_string(&info.cert),
            None => None,
        };
        self.signing = Some(SigningInfo { cert, key: Some(key) });
    }

    /// Records the measurements of the latest build.
    pub fn set_attestation(&mut self, measurements: &EIFMeasurements)
        ensures
            final(self).attestation == Some(*measurements),
    {
        self.attestation = Some(measurements.clone());
    }

    /// Fills in the identifiers that the remote API knows for this enclave.
    pub fn annotate(&mut self, cage: crate::deploy::Cage)
        ensures
            final(self).uuid == Some(cage.uuid),
            final(self).app_uuid == Some(cage.app_uuid),
            final(self).team_uuid == Some(cage.team_uuid),
            final(self).name == old(self).name,
            final(self).dockerfile == old(self).dockerfile,
            final(self).signing == old(self).signing,
            final(self).attestation == old(self).attestation,
    {
        self.uuid = Some(cage.uuid);
        self.app_uuid = Some(cage.app_uuid);
        self.team_uuid = Some(cage.team_uuid);
    }

    /// Checks that every build input is present, yielding the validated
    /// configuration, or the first missing piece.
    pub fn validate(self) -> (r: Result<ValidatedCageBuildConfig, CageConfigError>)
        ensures
            r is Ok <==> spec_config_complete(&self),
            match r {
                Ok(v) => v == (ValidatedCageBuildConfig {
                    cage_name: self.name,
                    cage_uuid: self.uuid.unwrap(),
                    app_uuid: self.app_uuid.unwrap(),
                    team_uuid: self.team_uuid.unwrap(),
                    debug: self.debug,
                    dockerfile: self.dockerfile.unwrap(),
                    egress: self.egress,
                    signing: ValidatedSigningInfo {
                        cert: self.signing.unwrap().cert.unwrap(),
                        key: self.signing.unwrap().key.unwrap(),
                    },
                    attestation: self.attestation,
                    disable_tls_termination: self.disable_tls_termination,
                    api_key_auth: self.api_key_auth,
                    trx_logging_enabled: self.trx_logging_enabled,
                    runtime: self.runtime,
                    scaling: self.scaling,
                }),
                Err(e) => spec_validate_err(&self, &e),
            },
    {
        let CageConfig {
            name,
            uuid,
            app_uuid,
            team_uuid,
            debug,
            dockerfile,
            egress,
            signing,
            attestation,
            disable_tls_termination,
            api_key_auth,
            trx_logging_enabled,
            runtime,
            scaling,
        } = self;
        let signing_info = match signing {
            Some(info) => info,
            None => {
                return Err(
                    CageConfigError::MissingSigningInfo(SigningInfoError::NoSigningInfoGiven),
                );
            }
        };
        let dockerfile = match dockerfile {
            Some(d) => d,
            None => {
                return Err(CageConfigError::MissingDockerfile);
            }
        };
        let app_uuid = match app_uuid {
            Some(u) => u,
            None => {
                return Err(CageConfigError::MissingField(String::from_str("App uuid")));
            }
        };
        let cage_uuid = match uuid {
            Some(u) => u,
            None => {
                return Err(CageConfigError::MissingField(String::from_str("Cage uuid")));
            }
        };
        let team_uuid = match team_uuid {
            Some(u) => u,
            None => {
                return Err(CageConfigError::MissingField(String::from_str("Team uuid")));
            }
        };
        let cert = match signing_info.cert {
            Some(c) => c,
            None => {
                return Err(
                    CageConfigError::MissingSigningInfo(SigningInfoError::EmptySigningCert),
                );
            }
        };
        let key = match signing_info.key {
            Some(k) => k,
            None => {
                return Err(CageConfigError::MissingSigningInfo(SigningInfoError::EmptySigningKey));
            }
        };
        Ok(
            ValidatedCageBuildConfig {
                cage_name: name,
                cage_uuid,
                app_uuid,
                team_uuid,
                debug,
                dockerfile,
                egress,
                signing: ValidatedSigningInfo { cert, key },
                attestation,
                disable_tls_termination,
                api_key_auth,
                trx_logging_enabled,
                runtime,
                scaling,
            },
        )
    }
}


impl SigningInfoError {
    /// The exit code this error calls for: invalid data when the credentials
    /// were not given, a missing input when a named file was not found.
    pub fn exitcode(&self) -> (r: i32)
        ensures
            match self {
                SigningInfoError::NoSigningInfoGiven => r == crate::api::EXIT_DATAERR,
                SigningInfoError::EmptySigningCert => r == crate::api::EXIT_DATAERR,
                SigningInfoError::EmptySigningKey => r == crate::api::EXIT_DATAERR,
                SigningInfoError::SigningCertNotFound(_) => r == crate::api::EXIT_NOINPUT,
                SigningInfoError::SigningKeyNotFound(_) => r == crate::api::EXIT_NOINPUT,
            },
    {
        match self {
            Self::NoSigningInfoGiven | Self::EmptySigningCert | Self::EmptySigningKey => {
                crate::api::EXIT_DATAERR
            }
            Self::SigningCertNotFound(_) | Self::SigningKeyNotFound(_) => {
                crate::api::EXIT_NOINPUT
            }
        }
    }
}

impl CageConfigError {
    /// The exit code this error calls for: a missing or unreadable config
    /// file is a missing input; everything else is invalid data.
    pub fn exitcode(&self) -> (r: i32)
        ensures
            match self {
                CageConfigError::MissingConfigFile(_) => r == crate::api::EXIT_NOINPUT,
                CageConfigError::FailedToAccessConfig(_) => r == crate::api::EXIT_NOINPUT,
                CageConfigError::FailedToParseCageConfig(_) => r == crate::api::EXIT_DATAERR,
                CageConfigError::MissingDockerfile => r == crate::api::EXIT_DATAERR,
                CageConfigError::MissingField(_) => r == crate::api::EXIT_DATAERR,
                CageConfigError::MissingSigningInfo(_) => true,
            },
    {
        match self {
            Self::MissingConfigFile(_) | Self::FailedToAccessConfig(_) => {
                crate::api::EXIT_NOINPUT
            }
            Self::FailedToParseCageConfig(_) | Self::MissingDockerfile | Self::MissingField(_) => {
                crate::api::EXIT_DATAERR
            }
            Self::MissingSigningInfo(signing_err) => signing_err.exitcode(),
        }
    }
}



/// The two measurement sets carry the same registers.
pub open spec fn spec_pcrs_eq(a: &PCRs, b: &PCRs) -> bool {
    a.pcr0@ == b.pcr0@ && a.pcr1@ == b.pcr1@ && a.pcr2@ == b.pcr2@ && (match (
        &a.pcr8,
        &b.pcr8,
    ) {
        (Some(x), Some(y)) => x@ == y@,
        (None, None) => true,
        _ => false,
    })
}

/// Compares two measurement sets register by register.
pub fn pcrs_eq(a: &PCRs, b: &PCRs) -> (r: bool)
    ensures
        r == spec_pcrs_eq(a, b),
{
    let pcr8_eq = match (&a.pcr8, &b.pcr8) {
        (Some(x), Some(y)) => x.eq(y),
        (None, None) => true,
        _ => false,
    };
    a.pcr0.eq(&b.pcr0) && a.pcr1.eq(&b.pcr1) && a.pcr2.eq(&b.pcr2) && pcr8_eq
}

/// Reconciles freshly recovered measurements with a prior attestation: when
/// the registers agree, the stored signature is carried over onto the fresh
/// measurements; when they do not, the measurements stand as recovered and
/// the caller is told so.
pub fn reconcile_attestation(
    existing: Option<&EIFMeasurements>,
    measurements: &mut EIFMeasurements,
) -> (consistent: bool)
    ensures
        consistent == (existing matches Some(m) && spec_pcrs_eq(&m.pcrs, &old(
            measurements,
        ).pcrs)),
        final(measurements).pcrs == old(measurements).pcrs,
        consistent && existing.unwrap().signature is Some ==> final(measurements).signature
            == existing.unwrap().signature,
        !(consistent && existing.unwrap().signature is Some) ==> final(measurements).signature
            == old(measurements).signature,
{
    match existing {
        Some(prior) => {
            let consistent = pcrs_eq(&prior.pcrs, &measurements.pcrs);
            if consistent {
                match &prior.signature {
                    Some(signature) => {
                        measurements.set_signature(signature.clone());
                    }
                    None => {}
                }
            }
            consistent
        }
        None => false,
    }
}



impl ValidatedCageBuildConfig {
    /// The pinned runtime component versions, when the config pins them;
    /// with none pinned the caller must ask the asset service for the
    /// latest ones.
    pub fn pinned_runtime_versions(&self) -> (r: Option<(String, String)>)
        ensures
            match r {
                Some(versions) => self.runtime matches Some(rt) && versions.0@
                    == rt.data_plane_version@ && versions.1@ == rt.installer_version@,
                None => self.runtime is None,
            },
    {
        match &self.runtime {
            Some(rt) => Some((rt.data_plane_version.clone(), rt.installer_version.clone())),
            None => None,
        }
    }
}


} // verus!
