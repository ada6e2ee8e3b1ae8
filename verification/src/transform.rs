//! The build transform: a pure pass over the decoded directives that keeps
//! the user's build steps, removes `CMD`, `ENTRYPOINT` and `EXPOSE`, refuses
//! the reserved port, and appends the enclave runtime scaffolding ending in
//! a fresh exec-form `ENTRYPOINT`.

use vstd::prelude::*;

use crate::config::{ValidatedCageBuildConfig, spec_feature_label};
use crate::directive::{
    Delimiter, Directive, DirectiveView, EnvVar, EnvVarView, Mode, directive_views,
    env_var_views, token_views,
};
use crate::parse::DecodeError;
use crate::render::{lemma_spec_join_push, push_dec, spec_dec, spec_join};

verus! {

/// Why driving the container tooling failed.
#[derive(Clone, Copy, Debug, PartialEq, Eq, Structural)]
pub enum DockerError {
    /// Decoding the Dockerfile failed.
    ParserDecodeError(DecodeError),
    /// The container daemon is not running.
    DaemonNotRunning,
    /// The named port is reserved for the data plane and may not be exposed.
    RestrictedPortExposed(u16),
}

/// A directive the transform passes through: everything but `CMD`,
/// `ENTRYPOINT` and `EXPOSE`.
pub open spec fn spec_is_kept(d: DirectiveView) -> bool {
    !(d is Cmd) && !(d is Entrypoint) && !(d is Expose)
}

/// The kept directives, in their original order.
pub open spec fn spec_kept(ds: Seq<DirectiveView>) -> Seq<DirectiveView>
    decreases ds.len(),
{
    if ds.len() == 0 {
        Seq::empty()
    } else {
        spec_kept(ds.drop_last()) + if spec_is_kept(ds.last()) {
            seq![ds.last()]
        } else {
            Seq::empty()
        }
    }
}

/// The last `CMD` directive, if any.
pub open spec fn spec_last_cmd(ds: Seq<DirectiveView>) -> Option<DirectiveView>
    decreases ds.len(),
{
    if ds.len() == 0 {
        None
    } else if ds.last() is Cmd {
        Some(ds.last())
    } else {
        spec_last_cmd(ds.drop_last())
    }
}

/// The last `ENTRYPOINT` directive, if any.
pub open spec fn spec_last_entrypoint(ds: Seq<DirectiveView>) -> Option<DirectiveView>
    decreases ds.len(),
{
    if ds.len() == 0 {
        None
    } else if ds.last() is Entrypoint {
        Some(ds.last())
    } else {
        spec_last_entrypoint(ds.drop_last())
    }
}

/// The port of the last `EXPOSE` directive: later occurrences overwrite
/// earlier ones, and an `EXPOSE` whose port did not parse clears it.
pub open spec fn spec_exposed_port(ds: Seq<DirectiveView>) -> Option<u16>
    decreases ds.len(),
{
    if ds.len() == 0 {
        None
    } else if ds.last() is Expose {
        ds.last()->Expose_port
    } else {
        spec_exposed_port(ds.drop_last())
    }
}

/// The argument tokens a tracked `ENTRYPOINT` or `CMD` contributes.
pub open spec fn spec_command_tokens(d: Option<DirectiveView>) -> Seq<Seq<char>> {
    match d {
        Some(DirectiveView::Entrypoint { tokens, .. }) => tokens,
        Some(DirectiveView::Cmd { tokens, .. }) => tokens,
        _ => Seq::empty(),
    }
}

/// The single shell command combining the user's entrypoint and command:
/// the entrypoint's tokens, then the command's, joined by single spaces.
pub open spec fn spec_combined_entrypoint(
    entrypoint: Option<DirectiveView>,
    cmd: Option<DirectiveView>,
) -> Seq<char> {
    spec_join(spec_command_tokens(entrypoint) + spec_command_tokens(cmd), " "@)
}

/// The last `ENTRYPOINT` tracked from a directive sequence is an
/// `ENTRYPOINT`.
pub proof fn lemma_last_entrypoint_shape(ds: Seq<DirectiveView>)
    ensures
        spec_last_entrypoint(ds) is Some ==> spec_last_entrypoint(ds).unwrap() is Entrypoint,
    decreases ds.len(),
{
    if ds.len() > 0 && !(ds.last() is Entrypoint) {
        lemma_last_entrypoint_shape(ds.drop_last());
    }
}

/// The last `CMD` tracked from a directive sequence is a `CMD`.
pub proof fn lemma_last_cmd_shape(ds: Seq<DirectiveView>)
    ensures
        spec_last_cmd(ds) is Some ==> spec_last_cmd(ds).unwrap() is Cmd,
    decreases ds.len(),
{
    if ds.len() > 0 && !(ds.last() is Cmd) {
        lemma_last_cmd_shape(ds.drop_last());
    }
}

/// The URL of the installer bundle for a version, under the build-assets
/// host of the given domain.
pub open spec fn spec_installer_url(domain: Seq<char>, installer_version: Seq<char>) -> Seq<
    char,
> {
    "https://cage-build-assets."@ + domain + "/installer/"@ + installer_version + ".tar.gz"@
}

/// The URL of the data-plane binary for a version and feature label.
pub open spec fn spec_data_plane_url(
    domain: Seq<char>,
    data_plane_version: Seq<char>,
    cfg: &ValidatedCageBuildConfig,
) -> Seq<char> {
    "https://cage-build-assets."@ + domain + "/runtime/"@ + data_plane_version + "/data-plane/"@
        + spec_feature_label(cfg.egress.enabled, cfg.disable_tls_termination)
}

/// A `RUN` command that writes `command` into an executable script at
/// `path`, with `args` spliced in after the format string.
pub open spec fn spec_write_script(
    command: Seq<char>,
    path: Seq<char>,
    args: Seq<char>,
) -> Seq<char> {
    "printf \"#!/bin/sh\\n"@ + command + "\\n\""@ + args + " > "@ + path + " && chmod +x "@
        + path
}

/// The body of the user-entrypoint service script: wait for the data plane,
/// wait for the enclave environment, then run the combined user entrypoint.
pub open spec fn spec_user_script(entrypoint: Seq<char>) -> Seq<char> {
    "sleep 5\\necho \\\"Checking status of data-plane\\\"\\nSVDIR=/etc/service sv check data-plane || exit 1\\necho \\\"Data-plane up and running\\\"\\nwhile ! grep -q \\\"EV_API_KEY\\\" /etc/customer-env\\n do echo \\\"Env not ready, sleeping user process for one second\\\"\\n sleep 1\\n done \\n source /etc/customer-env\\n\\necho \\\"Booting user service...\\\"\\ncd %s\\nexec "@
        + entrypoint
}

/// The body of the data-plane service script, given the user's exposed
/// port when one was present.
pub open spec fn spec_data_plane_script(port: Option<u16>) -> Seq<char> {
    "echo \\\"Booting Evervault data plane...\\\"\\nexec /opt/evervault/data-plane"@ + (
    match port {
        Some(p) => " "@ + spec_dec(p as nat),
        None => Seq::empty(),
    })
}

/// An `ENV` directive assigning one variable with `=`.
pub open spec fn spec_env_directive(key: Seq<char>, val: Seq<char>) -> DirectiveView {
    DirectiveView::Env {
        vars: seq![EnvVarView { key, val, delim: Delimiter::Eq }],
    }
}

/// The text of a boolean.
pub open spec fn spec_bool_str(b: bool) -> Seq<char> {
    if b {
        "true"@
    } else {
        "false"@
    }
}

/// The directives the transform appends after the kept user directives:
/// installer download and setup, the user-entrypoint service, the
/// data-plane binary and service, the enclave environment, the bootstrap
/// script, and the final exec-form entrypoint.
pub open spec fn spec_injected(
    cfg: &ValidatedCageBuildConfig,
    data_plane_version: Seq<char>,
    installer_version: Seq<char>,
    domain: Seq<char>,
    port: Option<u16>,
    entrypoint: Seq<char>,
) -> Seq<DirectiveView> {
    seq![
        DirectiveView::Run("mkdir -p /opt/evervault"@),
        DirectiveView::Add {
            source_url: spec_installer_url(domain, installer_version),
            destination_path: "/opt/evervault/runtime-dependencies.tar.gz"@,
        },
        DirectiveView::Run(
            "cd /opt/evervault ; tar -xzf runtime-dependencies.tar.gz ; sh ./installer.sh ; rm runtime-dependencies.tar.gz"@,
        ),
        DirectiveView::Run("mkdir -p /etc/service/user-entrypoint"@),
        DirectiveView::Run(
            spec_write_script(
                spec_user_script(entrypoint),
                "/etc/service/user-entrypoint/run"@,
                " \"$PWD\" "@,
            ),
        ),
        DirectiveView::Add {
            source_url: spec_data_plane_url(domain, data_plane_version, cfg),
            destination_path: "/opt/evervault/data-plane"@,
        },
        DirectiveView::Run("chmod +x /opt/evervault/data-plane"@),
        DirectiveView::Run("mkdir -p /etc/service/data-plane"@),
        DirectiveView::Run(
            spec_write_script(spec_data_plane_script(port), "/etc/service/data-plane/run"@, ""@),
        ),
        spec_env_directive("EV_CAGE_NAME"@, cfg.cage_name@),
        spec_env_directive("CAGE_UUID"@, cfg.cage_uuid@),
        spec_env_directive("EV_APP_UUID"@, cfg.app_uuid@),
        spec_env_directive("EV_TEAM_UUID"@, cfg.team_uuid@),
        spec_env_directive("DATA_PLANE_HEALTH_CHECKS"@, "true"@),
        spec_env_directive("EV_API_KEY_AUTH"@, spec_bool_str(cfg.api_key_auth)),
        spec_env_directive("EV_TRX_LOGGING_ENABLED"@, spec_bool_str(cfg.trx_logging_enabled)),
        DirectiveView::Run(
            spec_write_script(
                "ifconfig lo 127.0.0.1\\necho \\\"Booting enclave...\\\"\\nexec runsvdir /etc/service"@,
                "/bootstrap"@,
                ""@,
            ),
        ),
        DirectiveView::Entrypoint {
            mode: Some(Mode::Exec),
            tokens: seq!["/bootstrap"@, "1>&2"@],
        },
    ]
}

/// What the transform makes of a directive sequence: the reserved port 443
/// is refused; an input with neither `ENTRYPOINT` nor `CMD` is refused;
/// otherwise the kept user directives, in order, followed by the injected
/// scaffolding.
pub open spec fn spec_transform(
    ds: Seq<DirectiveView>,
    cfg: &ValidatedCageBuildConfig,
    data_plane_version: Seq<char>,
    installer_version: Seq<char>,
    domain: Seq<char>,
) -> Result<Seq<DirectiveView>, DockerError> {
    if spec_exposed_port(ds) == Some(443u16) {
        Err(DockerError::RestrictedPortExposed(443))
    } else if spec_last_entrypoint(ds) is None && spec_last_cmd(ds) is None {
        Err(DockerError::ParserDecodeError(DecodeError::NoEntrypoint))
    } else {
        Ok(
            spec_kept(ds) + spec_injected(
                cfg,
                data_plane_version,
                installer_version,
                domain,
                spec_exposed_port(ds),
                spec_combined_entrypoint(spec_last_entrypoint(ds), spec_last_cmd(ds)),
            ),
        )
    }
}

/// Pushes a directive, extending the sequence of views by its view.
fn push_directive(out: &mut Vec<Directive>, d: Directive)
    ensures
        directive_views(final(out)@) == directive_views(old(out)@).push(d@),
{
    let ghost prev = directive_views(out@);
    let ghost dv = d@;
    out.push(d);
    proof {
        assert(directive_views(out@) =~= prev.push(dv));
    }
}

/// Appends `text` to `s`.
fn append_str(s: &mut String, text: &str)
    ensures
        final(s)@ == old(s)@ + text@,
{
    s.append(text);
}

/// Builds the `RUN` command that writes `command` into an executable script
/// at `path`, `args` spliced in after the format string.
pub fn write_command_to_script(command: &str, path: &str, args: &str) -> (r: String)
    ensures
        r@ == spec_write_script(command@, path@, args@),
{
    let mut r = String::new();
    r.append("printf \"#!/bin/sh\\n");
    r.append(command);
    r.append("\\n\"");
    r.append(args);
    r.append(" > ");
    r.append(path);
    r.append(" && chmod +x ");
    r.append(path);
    proof {
        assert(r@ =~= spec_write_script(command@, path@, args@));
    }
    r
}

/// One `ENV` directive assigning `key=val`.
fn env_directive(key: &str, val: String) -> (r: Directive)
    ensures
        r@ == spec_env_directive(key@, val@),
{
    let mut vars: Vec<EnvVar> = Vec::new();
    let ghost v = val@;
    vars.push(EnvVar { key: String::from_str(key), val, delim: Delimiter::Eq });
    proof {
        assert(env_var_views(vars@) =~= seq![
            EnvVarView { key: key@, val: v, delim: Delimiter::Eq },
        ]);
    }
    Directive::Env { vars }
}

/// Runs the transform with the default asset domain.
pub fn process_dockerfile(
    build_config: &ValidatedCageBuildConfig,
    directives: Vec<Directive>,
    data_plane_version: &str,
    installer_version: &str,
) -> (r: Result<Vec<Directive>, DockerError>)
    ensures
        match r {
            Ok(out) => spec_transform(
                directive_views(directives@),
                build_config,
                data_plane_version@,
                installer_version@,
                "evervault.com"@,
            ) == Ok::<_, DockerError>(directive_views(out@)),
            Err(e) => spec_transform(
                directive_views(directives@),
                build_config,
                data_plane_version@,
                installer_version@,
                "evervault.com"@,
            ) == Err::<Seq<DirectiveView>, _>(e),
        },
{
    process_dockerfile_with_domain(
        build_config,
        directives,
        data_plane_version,
        installer_version,
        "evervault.com",
    )
}

/// Runs the transform: filters out `CMD`, `ENTRYPOINT` and `EXPOSE`
/// (tracking the last of each), refuses port 443, combines the user's
/// entrypoint and command into one shell command, and appends the enclave
/// scaffolding. The asset domain is a parameter so the caller may override
/// the default.
#[verifier::rlimit(100)]
#[verifier::spinoff_prover]
pub fn process_dockerfile_with_domain(
    build_config: &ValidatedCageBuildConfig,
    directives: Vec<Directive>,
    data_plane_version: &str,
    installer_version: &str,
    ev_domain: &str,
) -> (r: Result<Vec<Directive>, DockerError>)
    ensures
        match r {
            Ok(out) => spec_transform(
                directive_views(directives@),
                build_config,
                data_plane_version@,
                installer_version@,
                ev_domain@,
            ) == Ok::<_, DockerError>(directive_views(out@)),
            Err(e) => spec_transform(
                directive_views(directives@),
                build_config,
                data_plane_version@,
                installer_version@,
                ev_domain@,
            ) == Err::<Seq<DirectiveView>, _>(e),
        },
{
    let ghost dvs = directive_views(directives@);
    let mut out: Vec<Directive> = Vec::new();
    let mut last_cmd: Option<Directive> = None;
    let mut last_entrypoint: Option<Directive> = None;
    let mut exposed_port: Option<u16> = None;
    let mut i: usize = 0;
    proof {
        assert(directive_views(out@) =~= Seq::<DirectiveView>::empty());
        assert(dvs.take(0) =~= Seq::<DirectiveView>::empty());
    }
    while i < directives.len()
        invariant
            i <= directives.len(),
            dvs == directive_views(directives@),
            dvs.len() == directives@.len(),
            directive_views(out@) == spec_kept(dvs.take(i as int)),
            match last_cmd {
                Some(d) => spec_last_cmd(dvs.take(i as int)) == Some(d@),
                None => spec_last_cmd(dvs.take(i as int)) is None,
            },
            match last_entrypoint {
                Some(d) => spec_last_entrypoint(dvs.take(i as int)) == Some(d@),
                None => spec_last_entrypoint(dvs.take(i as int)) is None,
            },
            exposed_port == spec_exposed_port(dvs.take(i as int)),
        decreases directives.len() - i,
    {
        proof {
            assert(dvs[i as int] == directives@[i as int]@);
            assert(dvs.take(i + 1).drop_last() =~= dvs.take(i as int));
            assert(dvs.take(i + 1).last() == dvs[i as int]);
        }
        let d = &directives[i];
        if d.is_cmd() {
            last_cmd = Some(d.clone());
        } else if d.is_entrypoint() {
            last_entrypoint = Some(d.clone());
        } else {
            match d {
                Directive::Expose { port } => {
                    exposed_port = *port;
                }
                _ => {
                    push_directive(&mut out, d.clone());
                    proof {
                        assert(directive_views(out@) =~= spec_kept(dvs.take(i + 1)));
                    }
                }
            }
        }
        i = i + 1;
    }
    proof {
        assert(dvs.take(dvs.len() as int) =~= dvs);
    }
    // the reserved data-plane port may not be exposed
    let restricted = match exposed_port {
        Some(p) => p == 443,
        None => false,
    };
    if restricted {
        return Err(DockerError::RestrictedPortExposed(443));
    }
    // combine the user's entrypoint and command into one shell command
    if last_entrypoint.is_none() && last_cmd.is_none() {
        return Err(DockerError::ParserDecodeError(DecodeError::NoEntrypoint));
    }
    let mut combined: Vec<String> = Vec::new();
    let ghost ep_tokens = spec_command_tokens(spec_last_entrypoint(dvs));
    let ghost cmd_tokens = spec_command_tokens(spec_last_cmd(dvs));
    proof {
        lemma_last_entrypoint_shape(dvs);
        lemma_last_cmd_shape(dvs);
        assert(token_views(combined@) =~= Seq::<Seq<char>>::empty());
    }
    match &last_entrypoint {
        Some(d) => {
            match d {
                Directive::Entrypoint { tokens, .. } => {
                    append_tokens(&mut combined, tokens);
                }
                _ => {}
            }
        }
        None => {}
    }
    proof {
        assert(token_views(combined@) =~= ep_tokens);
    }
    match &last_cmd {
        Some(d) => {
            match d {
                Directive::Cmd { tokens, .. } => {
                    append_tokens(&mut combined, tokens);
                }
                _ => {}
            }
        }
        None => {}
    }
    proof {
        assert(token_views(combined@) =~= ep_tokens + cmd_tokens);
    }
    let entrypoint = join_tokens(&combined);
    proof {
        assert(entrypoint@ == spec_combined_entrypoint(
            spec_last_entrypoint(dvs),
            spec_last_cmd(dvs),
        ));
    }
    // the asset URLs
    let mut installer_url = String::new();
    installer_url.append("https://cage-build-assets.");
    installer_url.append(ev_domain);
    installer_url.append("/installer/");
    installer_url.append(installer_version);
    installer_url.append(".tar.gz");
    proof {
        assert(installer_url@ =~= spec_installer_url(ev_domain@, installer_version@));
    }
    let feature_label = build_config.get_dataplane_feature_label();
    let mut data_plane_url = String::new();
    data_plane_url.append("https://cage-build-assets.");
    data_plane_url.append(ev_domain);
    data_plane_url.append("/runtime/");
    data_plane_url.append(data_plane_version);
    data_plane_url.append("/data-plane/");
    data_plane_url.append(feature_label.as_str());
    proof {
        assert(data_plane_url@ =~= spec_data_plane_url(ev_domain@, data_plane_version@, build_config));
    }
    // the service scripts
    let mut user_script = String::new();
    user_script.append(
        "sleep 5\\necho \\\"Checking status of data-plane\\\"\\nSVDIR=/etc/service sv check data-plane || exit 1\\necho \\\"Data-plane up and running\\\"\\nwhile ! grep -q \\\"EV_API_KEY\\\" /etc/customer-env\\n do echo \\\"Env not ready, sleeping user process for one second\\\"\\n sleep 1\\n done \\n source /etc/customer-env\\n\\necho \\\"Booting user service...\\\"\\ncd %s\\nexec ",
    );
    user_script.append(entrypoint.as_str());
    proof {
        assert(user_script@ =~= spec_user_script(entrypoint@));
    }
    let mut data_plane_script = String::new();
    data_plane_script.append(
        "echo \\\"Booting Evervault data plane...\\\"\\nexec /opt/evervault/data-plane",
    );
    match exposed_port {
        Some(p) => {
            data_plane_script.append(" ");
            push_dec(&mut data_plane_script, p);
        }
        None => {}
    }
    proof {
        assert(data_plane_script@ =~= spec_data_plane_script(exposed_port));
    }
    // append the scaffolding
    let ghost kept = directive_views(out@);
    push_directive(&mut out, Directive::Run(String::from_str("mkdir -p /opt/evervault")));
    push_directive(
        &mut out,
        Directive::Add {
            source_url: installer_url,
            destination_path: String::from_str("/opt/evervault/runtime-dependencies.tar.gz"),
        },
    );
    push_directive(
        &mut out,
        Directive::Run(
            String::from_str(
                "cd /opt/evervault ; tar -xzf runtime-dependencies.tar.gz ; sh ./installer.sh ; rm runtime-dependencies.tar.gz",
            ),
        ),
    );
    push_directive(&mut out, Directive::Run(String::from_str("mkdir -p /etc/service/user-entrypoint")));
    let user_runner = write_command_to_script(
        user_script.as_str(),
        "/etc/service/user-entrypoint/run",
        " \"$PWD\" ",
    );
    push_directive(&mut out, Directive::Run(user_runner));
    push_directive(
        &mut out,
        Directive::Add {
            source_url: data_plane_url,
            destination_path: String::from_str("/opt/evervault/data-plane"),
        },
    );
    push_directive(&mut out, Directive::Run(String::from_str("chmod +x /opt/evervault/data-plane")));
    push_directive(&mut out, Directive::Run(String::from_str("mkdir -p /etc/service/data-plane")));
    let data_plane_runner = write_command_to_script(
        data_plane_script.as_str(),
        "/etc/service/data-plane/run",
        "",
    );
    push_directive(&mut out, Directive::Run(data_plane_runner));
    push_directive(&mut out, env_directive("EV_CAGE_NAME", build_config.cage_name.clone()));
    push_directive(&mut out, env_directive("CAGE_UUID", build_config.cage_uuid.clone()));
    push_directive(&mut out, env_directive("EV_APP_UUID", build_config.app_uuid.clone()));
    push_directive(&mut out, env_directive("EV_TEAM_UUID", build_config.team_uuid.clone()));
    push_directive(&mut out, env_directive("DATA_PLANE_HEALTH_CHECKS", String::from_str("true")));
    let api_key_auth_val = if build_config.api_key_auth {
        String::from_str("true")
    } else {
        String::from_str("false")
    };
    push_directive(&mut out, env_directive("EV_API_KEY_AUTH", api_key_auth_val));
    let trx_logging_val = if build_config.trx_logging_enabled {
        String::from_str("true")
    } else {
        String::from_str("false")
    };
    push_directive(&mut out, env_directive("EV_TRX_LOGGING_ENABLED", trx_logging_val));
    let bootstrap_runner = write_command_to_script(
        "ifconfig lo 127.0.0.1\\necho \\\"Booting enclave...\\\"\\nexec runsvdir /etc/service",
        "/bootstrap",
        "",
    );
    push_directive(&mut out, Directive::Run(bootstrap_runner));
    let mut entry_tokens: Vec<String> = Vec::new();
    entry_tokens.push(String::from_str("/bootstrap"));
    entry_tokens.push(String::from_str("1>&2"));
    proof {
        assert(token_views(entry_tokens@) =~= seq!["/bootstrap"@, "1>&2"@]);
    }
    push_directive(&mut out, Directive::Entrypoint { mode: Some(Mode::Exec), tokens: entry_tokens });
    proof {
        assert(directive_views(out@) =~= spec_kept(dvs) + spec_injected(
            build_config,
            data_plane_version@,
            installer_version@,
            ev_domain@,
            spec_exposed_port(dvs),
            spec_combined_entrypoint(spec_last_entrypoint(dvs), spec_last_cmd(dvs)),
        ));
    }
    Ok(out)
}

/// Appends clones of the given tokens.
fn append_tokens(combined: &mut Vec<String>, tokens: &Vec<String>)
    ensures
        token_views(final(combined)@) == token_views(old(combined)@) + token_views(tokens@),
{
    let mut i: usize = 0;
    while i < tokens.len()
        invariant
            i <= tokens.len(),
            combined@.len() == old(combined)@.len() + i,
            forall|j: int|
                0 <= j < old(combined)@.len() ==> combined@[j]@ == old(combined)@[j]@,
            forall|j: int|
                0 <= j < i ==> combined@[old(combined)@.len() + j]@ == tokens@[j]@,
        decreases tokens.len() - i,
    {
        combined.push(tokens[i].clone());
        i = i + 1;
    }
    proof {
        let lhs = token_views(combined@);
        let rhs = token_views(old(combined)@) + token_views(tokens@);
        assert forall|j: int| 0 <= j < lhs.len() implies lhs[j] == rhs[j] by {
            assert(lhs[j] == combined@[j]@);
            if j < old(combined)@.len() {
                assert(rhs[j] == token_views(old(combined)@)[j]);
                assert(token_views(old(combined)@)[j] == old(combined)@[j]@);
            } else {
                assert(rhs[j] == token_views(tokens@)[j - old(combined)@.len()]);
                assert(token_views(tokens@)[j - old(combined)@.len()] == tokens@[j - old(
                    combined,
                )@.len()]@);
            }
        }
        assert(lhs =~= rhs);
    }
}

/// Joins tokens with single spaces.
fn join_tokens(tokens: &Vec<String>) -> (r: String)
    ensures
        r@ == spec_join(token_views(tokens@), " "@),
{
    let ghost tvs = token_views(tokens@);
    let mut r = String::new();
    let mut i: usize = 0;
    while i < tokens.len()
        invariant
            i <= tokens.len(),
            tvs == token_views(tokens@),
            tvs.len() == tokens@.len(),
            r@ == spec_join(tvs.subrange(0, i as int), " "@),
        decreases tokens.len() - i,
    {
        proof {
            assert(tvs.subrange(0, i + 1) =~= tvs.subrange(0, i as int).push(tvs[i as int]));
            lemma_spec_join_push(tvs.subrange(0, i as int), " "@, tvs[i as int]);
            assert(tvs[i as int] == tokens@[i as int]@);
        }
        if i > 0 {
            r.append(" ");
        }
        r.append(tokens[i].as_str());
        i = i + 1;
    }
    proof {
        assert(tvs.subrange(0, tokens@.len() as int) =~= tvs);
    }
    r
}

} // verus!
