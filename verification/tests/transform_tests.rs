use enclave_build::config::{EgressSettings, ValidatedCageBuildConfig, ValidatedSigningInfo};
use enclave_build::decode::decode_dockerfile;
use enclave_build::directive::Directive;
use enclave_build::parse::DecodeError;
use enclave_build::render::render_dockerfile;
use enclave_build::transform::{DockerError, process_dockerfile};

fn get_config() -> ValidatedCageBuildConfig {
    ValidatedCageBuildConfig {
        cage_name: "test".into(),
        cage_uuid: "1234".into(),
        team_uuid: "teamid".into(),
        debug: false,
        app_uuid: "3241".into(),
        dockerfile: "".into(),
        egress: EgressSettings {
            enabled: false,
            destinations: None,
        },
        attestation: None,
        signing: ValidatedSigningInfo {
            cert: "".into(),
            key: "".into(),
        },
        disable_tls_termination: false,
        api_key_auth: true,
        trx_logging_enabled: true,
        runtime: None,
        scaling: None,
    }
}

#[test]
fn test_process_dockerfile() {
    let sample_dockerfile_contents = r#"FROM alpine

RUN touch /hello-script;\
    /bin/sh -c "echo -e '"'#!/bin/sh\nwhile true; do echo "hello"; sleep 2; done;\n'"' > /hello-script"

ENTRYPOINT ["sh", "/hello-script"]"#;

    let config = get_config();

    let data_plane_version = "0.0.0".to_string();
    let installer_version = "abcdef".to_string();

    let decoded = decode_dockerfile(sample_dockerfile_contents).unwrap();
    let processed_file = process_dockerfile(
        &config,
        decoded,
        data_plane_version.as_str(),
        installer_version.as_str(),
    );
    assert_eq!(processed_file.is_ok(), true);
    let processed_file = processed_file.unwrap();

    let expected_output_contents = r##"FROM alpine
RUN touch /hello-script;\
    /bin/sh -c "echo -e '"'#!/bin/sh\nwhile true; do echo "hello"; sleep 2; done;\n'"' > /hello-script"
RUN mkdir -p /opt/evervault
ADD https://cage-build-assets.evervault.com/installer/abcdef.tar.gz /opt/evervault/runtime-dependencies.tar.gz
RUN cd /opt/evervault ; tar -xzf runtime-dependencies.tar.gz ; sh ./installer.sh ; rm runtime-dependencies.tar.gz
RUN mkdir -p /etc/service/user-entrypoint
RUN printf "#!/bin/sh\nsleep 5\necho \"Checking status of data-plane\"\nSVDIR=/etc/service sv check data-plane || exit 1\necho \"Data-plane up and running\"\nwhile ! grep -q \"EV_API_KEY\" /etc/customer-env\n do echo \"Env not ready, sleeping user process for one second\"\n sleep 1\n done \n source /etc/customer-env\n\necho \"Booting user service...\"\ncd %s\nexec sh /hello-script\n" "$PWD"  > /etc/service/user-entrypoint/run && chmod +x /etc/service/user-entrypoint/run
ADD https://cage-build-assets.evervault.com/runtime/0.0.0/data-plane/egress-disabled/tls-termination-enabled /opt/evervault/data-plane
RUN chmod +x /opt/evervault/data-plane
RUN mkdir -p /etc/service/data-plane
RUN printf "#!/bin/sh\necho \"Booting Evervault data plane...\"\nexec /opt/evervault/data-plane\n" > /etc/service/data-plane/run && chmod +x /etc/service/data-plane/run
ENV EV_CAGE_NAME=test
ENV CAGE_UUID=1234
ENV EV_APP_UUID=3241
ENV EV_TEAM_UUID=teamid
ENV DATA_PLANE_HEALTH_CHECKS=true
ENV EV_API_KEY_AUTH=true
ENV EV_TRX_LOGGING_ENABLED=true
RUN printf "#!/bin/sh\nifconfig lo 127.0.0.1\necho \"Booting enclave...\"\nexec runsvdir /etc/service\n" > /bootstrap && chmod +x /bootstrap
ENTRYPOINT ["/bootstrap", "1>&2"]
"##;

    let expected_directives = decode_dockerfile(expected_output_contents).unwrap();

    assert_eq!(expected_directives.len(), processed_file.len());
    for (expected_directive, processed_directive) in
        expected_directives.iter().zip(processed_file.iter())
    {
        let expected_directive = expected_directive.render();
        let processed_directive = processed_directive.render();
        assert_eq!(expected_directive, processed_directive);
    }
}

#[test]
fn test_process_dockerfile_with_restricted_reserved_port() {
    let sample_dockerfile_contents = r#"FROM alpine

RUN touch /hello-script;\
    /bin/sh -c "echo -e '"'#!/bin/sh\nwhile true; do echo "hello"; sleep 2; done;\n'"' > /hello-script"
EXPOSE 443
ENTRYPOINT ["sh", "/hello-script"]"#;

    let config = get_config();

    let data_plane_version = "0.0.0".to_string();
    let installer_version = "abcdef".to_string();
    let decoded = decode_dockerfile(sample_dockerfile_contents).unwrap();
    let processed_file = process_dockerfile(
        &config,
        decoded,
        data_plane_version.as_str(),
        installer_version.as_str(),
    );
    assert_eq!(processed_file.is_err(), true);

    assert!(matches!(
        processed_file,
        Err(DockerError::RestrictedPortExposed(443))
    ));
}

#[test]
fn test_process_dockerfile_with_valid_reserved_port() {
    let sample_dockerfile_contents = r#"FROM alpine

RUN touch /hello-script;\
    /bin/sh -c "echo -e '"'#!/bin/sh\nwhile true; do echo "hello"; sleep 2; done;\n'"' > /hello-script"
EXPOSE 3443
ENTRYPOINT ["sh", "/hello-script"]"#;

    let config = get_config();

    let data_plane_version = "0.0.0".to_string();
    let installer_version = "abcdef".to_string();
    let decoded = decode_dockerfile(sample_dockerfile_contents).unwrap();
    let processed_file = process_dockerfile(
        &config,
        decoded,
        data_plane_version.as_str(),
        installer_version.as_str(),
    );
    assert_eq!(processed_file.is_ok(), true);
    let processed_file = processed_file.unwrap();

    let expected_output_contents = r##"FROM alpine
RUN touch /hello-script;\
    /bin/sh -c "echo -e '"'#!/bin/sh\nwhile true; do echo "hello"; sleep 2; done;\n'"' > /hello-script"
RUN mkdir -p /opt/evervault
ADD https://cage-build-assets.evervault.com/installer/abcdef.tar.gz /opt/evervault/runtime-dependencies.tar.gz
RUN cd /opt/evervault ; tar -xzf runtime-dependencies.tar.gz ; sh ./installer.sh ; rm runtime-dependencies.tar.gz
RUN mkdir -p /etc/service/user-entrypoint
RUN printf "#!/bin/sh\nsleep 5\necho \"Checking status of data-plane\"\nSVDIR=/etc/service sv check data-plane || exit 1\necho \"Data-plane up and running\"\nwhile ! grep -q \"EV_API_KEY\" /etc/customer-env\n do echo \"Env not ready, sleeping user process for one second\"\n sleep 1\n done \n source /etc/customer-env\n\necho \"Booting user service...\"\ncd %s\nexec sh /hello-script\n" "$PWD"  > /etc/service/user-entrypoint/run && chmod +x /etc/service/user-entrypoint/run
ADD https://cage-build-assets.evervault.com/runtime/0.0.0/data-plane/egress-disabled/tls-termination-enabled /opt/evervault/data-plane
RUN chmod +x /opt/evervault/data-plane
RUN mkdir -p /etc/service/data-plane
RUN printf "#!/bin/sh\necho \"Booting Evervault data plane...\"\nexec /opt/evervault/data-plane 3443\n" > /etc/service/data-plane/run && chmod +x /etc/service/data-plane/run
ENV EV_CAGE_NAME=test
ENV CAGE_UUID=1234
ENV EV_APP_UUID=3241
ENV EV_TEAM_UUID=teamid
ENV DATA_PLANE_HEALTH_CHECKS=true
ENV EV_API_KEY_AUTH=true
ENV EV_TRX_LOGGING_ENABLED=true
RUN printf "#!/bin/sh\nifconfig lo 127.0.0.1\necho \"Booting enclave...\"\nexec runsvdir /etc/service\n" > /bootstrap && chmod +x /bootstrap
ENTRYPOINT ["/bootstrap", "1>&2"]
"##;

    let expected_directives = decode_dockerfile(expected_output_contents).unwrap();

    assert_eq!(expected_directives.len(), processed_file.len());
    for (expected_directive, processed_directive) in
        expected_directives.iter().zip(processed_file.iter())
    {
        let expected_directive = expected_directive.render();
        let processed_directive = processed_directive.render();
        assert_eq!(expected_directive, processed_directive);
    }
}

#[test]
fn test_process_dockerfile_without_entrypoint() {
    let decoded = decode_dockerfile("FROM alpine\nRUN touch /x\n").unwrap();
    let config = get_config();
    let result = process_dockerfile(&config, decoded, "0.0.0", "abcdef");
    assert!(matches!(
        result,
        Err(DockerError::ParserDecodeError(DecodeError::NoEntrypoint))
    ));
}

#[test]
fn test_restricted_port_applies_without_entrypoint() {
    // port safety comes first: even with no entrypoint, exposing 443 is
    // reported as the restricted port
    let decoded = decode_dockerfile("FROM alpine\nEXPOSE 443\n").unwrap();
    let config = get_config();
    let result = process_dockerfile(&config, decoded, "0.0.0", "abcdef");
    assert!(matches!(
        result,
        Err(DockerError::RestrictedPortExposed(443))
    ));
}

#[test]
fn test_transform_output_has_no_expose_or_cmd() {
    let decoded =
        decode_dockerfile("FROM alpine\nEXPOSE 8080\nCMD [\"run\"]\nENTRYPOINT [\"sh\"]\n")
            .unwrap();
    let config = get_config();
    let out = process_dockerfile(&config, decoded, "0.0.0", "abcdef").unwrap();
    for d in out.iter() {
        assert!(!d.is_expose());
        assert!(!d.is_cmd());
    }
    assert!(out.last().unwrap().is_entrypoint());
}

#[test]
fn test_transform_propagates_port_into_data_plane_script() {
    let decoded = decode_dockerfile("FROM alpine\nEXPOSE 8080\nENTRYPOINT [\"sh\"]\n").unwrap();
    let config = get_config();
    let out = process_dockerfile(&config, decoded, "0.0.0", "abcdef").unwrap();
    let rendered = render_dockerfile(&out);
    let with_port = "exec /opt/evervault/data-plane 8080";
    assert!(rendered.contains(with_port));
    // the port reaches the data-plane service script exactly once
    assert_eq!(rendered.matches("8080").count(), 1);
}

#[test]
fn test_transform_is_deterministic() {
    let text = "FROM alpine\nEXPOSE 8080\nENTRYPOINT [\"sh\", \"/hello\"]\n";
    let config = get_config();
    let out1 = process_dockerfile(&config, decode_dockerfile(text).unwrap(), "0.0.0", "abcdef")
        .unwrap();
    let out2 = process_dockerfile(&config, decode_dockerfile(text).unwrap(), "0.0.0", "abcdef")
        .unwrap();
    assert_eq!(render_dockerfile(&out1), render_dockerfile(&out2));
}

#[test]
fn test_transform_on_own_output_preserves_user_directives() {
    let text = "FROM alpine\nRUN touch /x\nENTRYPOINT [\"sh\"]\n";
    let config = get_config();
    let out1 = process_dockerfile(&config, decode_dockerfile(text).unwrap(), "0.0.0", "abcdef")
        .unwrap();
    let kept: Vec<String> = vec!["FROM alpine".to_string(), "RUN touch /x".to_string()];
    let out2 = process_dockerfile(&config, out1, "0.0.0", "abcdef").unwrap();
    for (i, expected) in kept.iter().enumerate() {
        assert_eq!(&out2[i].render(), expected);
    }
}

#[test]
fn test_combined_entrypoint_joins_entrypoint_and_cmd() {
    let text = "FROM alpine\nENTRYPOINT [\"sh\"]\nCMD [\"/hello-script\", \"-v\"]\n";
    let config = get_config();
    let out = process_dockerfile(&config, decode_dockerfile(text).unwrap(), "0.0.0", "abcdef")
        .unwrap();
    let rendered = render_dockerfile(&out);
    assert!(rendered.contains("exec sh /hello-script -v\\n"));
}

#[test]
fn test_feature_label_follows_config() {
    let mut config = get_config();
    config.egress.enabled = true;
    config.disable_tls_termination = true;
    assert_eq!(
        config.get_dataplane_feature_label(),
        "egress-enabled/tls-termination-disabled"
    );
    let out = process_dockerfile(
        &config,
        decode_dockerfile("FROM alpine\nENTRYPOINT [\"sh\"]\n").unwrap(),
        "1.2.3",
        "abcdef",
    )
    .unwrap();
    let rendered = render_dockerfile(&out);
    assert!(rendered.contains(
        "https://cage-build-assets.evervault.com/runtime/1.2.3/data-plane/egress-enabled/tls-termination-disabled"
    ));
}

#[test]
fn test_rendered_file_ends_each_line_with_newline() {
    let decoded = decode_dockerfile("FROM alpine\nRUN touch /x\n").unwrap();
    let rendered = render_dockerfile(&decoded);
    assert_eq!(rendered, "FROM alpine\nRUN touch /x\n");
}

#[test]
fn test_shell_round_trip_preserves_spacing() {
    // joining what the shell form split on spaces gives back the original
    // text, double spaces included
    let decoded = decode_dockerfile("CMD echo  double  spaces\n").unwrap();
    assert_eq!(decoded[0].render(), "CMD echo  double  spaces");
}

#[test]
fn test_expose_without_port_never_renders_a_port() {
    let d = Directive::Expose { port: None };
    assert_eq!(d.render(), "EXPOSE ");
}
