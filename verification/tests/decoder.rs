use enclave_build::decode::{DockerfileDecoder, InputBuffer, NewLineBehaviour, StringStack, StringToken, decode_dockerfile};
use enclave_build::directive::{Delimiter, Directive, EnvVar, Mode};
use enclave_build::parse::DecodeError;

fn parsed(
    result: Result<Option<Directive>, DecodeError>,
) -> Directive {
    assert_eq!(result.is_ok(), true);
    let directive = result.unwrap();
    assert_eq!(directive.is_some(), true);
    directive.unwrap()
}

fn not_parsed(result: Result<Option<Directive>, DecodeError>) {
    assert_eq!(result.is_ok(), true);
    let directive = result.unwrap();
    assert_eq!(directive.is_none(), true);
}

#[test]
fn test_decoding_of_directive_with_comments() {
    let mut decoder = DockerfileDecoder::new();
    let test_directive = "ENTRYPOINT echo 'Test' # emits Test";
    let directive_with_new_line = format!("{}\n", test_directive);
    let mut dockerfile_content = InputBuffer::from_str(directive_with_new_line.as_str());
    let emitted_directive = decoder.decode(&mut dockerfile_content);
    let directive = parsed(emitted_directive);
    assert_eq!(directive.is_entrypoint(), true);
    assert_eq!(directive.render(), String::from(test_directive));
}

#[test]
fn test_flush_on_file_without_final_newline() {
    let mut decoder = DockerfileDecoder::new();
    let test_directive = "ENTRYPOINT echo 'Test' # emits Test";
    let mut dockerfile_content = InputBuffer::from_str(test_directive);
    let emitted_directive = decoder.decode(&mut dockerfile_content);
    not_parsed(emitted_directive);
    let flushed_directive = decoder.flush();
    let directive = parsed(flushed_directive);
    assert_eq!(directive.is_entrypoint(), true);
    assert_eq!(directive.render(), String::from(test_directive));
}

#[test]
fn test_flush_on_incomplete_state() {
    let mut decoder = DockerfileDecoder::new();
    let test_directive = "ENTRYPOINT ";
    let mut dockerfile_content = InputBuffer::from_str(test_directive);
    let emitted_directive = decoder.decode(&mut dockerfile_content);
    not_parsed(emitted_directive);
    let flushed_state = decoder.flush();
    assert_eq!(flushed_state.is_err(), true);
}

#[test]
fn test_multiline_directive_with_embedded_comments() {
    let mut decoder = DockerfileDecoder::new();
    // using entrypoint for apk updates doesn't really make sense, purely for testing
    let test_dockerfile = r#"
FROM node:16-alpine3.14
ENTRYPOINT apk update && apk add python3 glib make g++ gcc libc-dev &&\
# clean apk cache
    rm -rf /var/cache/apk/* # testing"#;
    let mut dockerfile_content = InputBuffer::from_str(test_dockerfile);
    let from_directive = decoder.decode(&mut dockerfile_content);
    parsed(from_directive);
    let emitted_directive = decoder.decode(&mut dockerfile_content);
    not_parsed(emitted_directive);
    let flushed_state = decoder.flush();
    let directive = parsed(flushed_state);
    assert_eq!(directive.is_entrypoint(), true);
    assert_eq!(
        directive.render(),
        String::from(
            r#"ENTRYPOINT apk update && apk add python3 glib make g++ gcc libc-dev &&\
# clean apk cache
    rm -rf /var/cache/apk/* # testing"#
        )
    );
}

#[test]
fn test_parsing_of_command_with_hashbang() {
    let mut decoder = DockerfileDecoder::new();
    let test_dockerfile = r#"RUN /bin/sh -c "echo -e '"'#!/bin/sh\necho "Hello, World!"'"' > /etc/service/hello_world/run""#;
    let dockerfile_contents = format!("{}\n", test_dockerfile);
    let mut buffer = InputBuffer::from_str(dockerfile_contents.as_str());
    let run_directive = decoder.decode(&mut buffer);
    let directive = parsed(run_directive);
    assert_eq!(directive.render(), test_dockerfile.to_string());
}

#[test]
fn test_parsing_of_command_with_uneven_apostrophes() {
    let mut decoder = DockerfileDecoder::new();
    let test_dockerfile =
        r#"RUN /bin/sh -c "echo -e '"'#!/bin/sh\necho "'"\n'"' > /etc/service/apostrophe/run""#;
    let dockerfile_contents = format!("{}\n", test_dockerfile);
    let mut buffer = InputBuffer::from_str(dockerfile_contents.as_str());
    let run_directive = decoder.decode(&mut buffer);
    let directive = parsed(run_directive);
    assert_eq!(directive.render(), test_dockerfile.to_string());
}

#[test]
fn test_parsing_of_entrypoint_exec_mode() {
    let mut decoder = DockerfileDecoder::new();
    let test_dockerfile = r#"ENTRYPOINT ["node", "server.js"]"#;
    let dockerfile_contents = format!("{}\n", test_dockerfile);
    let mut buffer = InputBuffer::from_str(dockerfile_contents.as_str());
    let run_directive = decoder.decode(&mut buffer);
    let directive = parsed(run_directive);
    assert_eq!(directive.render(), test_dockerfile.to_string());
    assert_eq!(directive.is_entrypoint(), true);
    assert_eq!(directive.mode().unwrap(), &Mode::Exec);
}

#[test]
fn test_parsing_of_entrypoint_shell_mode() {
    let mut decoder = DockerfileDecoder::new();
    let test_dockerfile = r#"ENTRYPOINT node server.js"#;
    let dockerfile_contents = format!("{}\n", test_dockerfile);
    let mut buffer = InputBuffer::from_str(dockerfile_contents.as_str());
    let run_directive = decoder.decode(&mut buffer);
    let directive = parsed(run_directive);
    assert_eq!(directive.render(), test_dockerfile.to_string());
    assert_eq!(directive.is_entrypoint(), true);
    assert_eq!(directive.mode().unwrap(), &Mode::Shell);
}

#[test]
fn test_parsing_of_cmd_exec_mode() {
    let mut decoder = DockerfileDecoder::new();
    let test_dockerfile = r#"CMD ["node", "server.js"]"#;
    let dockerfile_contents = format!("{}\n", test_dockerfile);
    let mut buffer = InputBuffer::from_str(dockerfile_contents.as_str());
    let run_directive = decoder.decode(&mut buffer);
    let directive = parsed(run_directive);
    assert_eq!(directive.render(), test_dockerfile.to_string());
    assert_eq!(directive.is_cmd(), true);
    assert_eq!(directive.mode().unwrap(), &Mode::Exec);
}

#[test]
fn test_parsing_of_cmd_shell_mode() {
    let mut decoder = DockerfileDecoder::new();
    let test_dockerfile = r#"CMD node server.js"#;
    let dockerfile_contents = format!("{}\n", test_dockerfile);
    let mut buffer = InputBuffer::from_str(dockerfile_contents.as_str());
    let run_directive = decoder.decode(&mut buffer);
    let directive = parsed(run_directive);
    assert_eq!(directive.render(), test_dockerfile.to_string());
    assert_eq!(directive.is_cmd(), true);
    assert_eq!(directive.mode().unwrap(), &Mode::Shell);
}

#[test]
fn test_parsing_of_expose_directives() {
    let mut decoder = DockerfileDecoder::new();
    let test_dockerfile = r#"EXPOSE 80"#;
    let dockerfile_contents = format!("{}\n", test_dockerfile);
    let mut buffer = InputBuffer::from_str(dockerfile_contents.as_str());
    let expose_directive = decoder.decode(&mut buffer);
    let directive = parsed(expose_directive);
    assert_eq!(directive.render(), test_dockerfile.to_string());
    assert_eq!(directive.is_expose(), true);
    assert!(matches!(directive, Directive::Expose { port: Some(80) }));
}

#[test]
fn test_parsing_of_single_env_directives() {
    let mut decoder = DockerfileDecoder::new();
    let test_dockerfile = r#"ENV Hello=World"#;
    let dockerfile_contents = format!("{}\n", test_dockerfile);
    let mut buffer = InputBuffer::from_str(dockerfile_contents.as_str());
    let env_directive = decoder.decode(&mut buffer);
    let directive = parsed(env_directive);

    assert_eq!(directive.render(), test_dockerfile.to_string());
    assert_eq!(directive.is_env(), true);
}

#[test]
fn test_parsing_of_multiple_env_directives() {
    let mut decoder = DockerfileDecoder::new();
    let test_dockerfile = r#"ENV Hello=World World=Hello"#;
    let dockerfile_contents = format!("{}\n", test_dockerfile);
    let mut buffer = InputBuffer::from_str(dockerfile_contents.as_str());
    let env_directive = decoder.decode(&mut buffer);
    let directive = parsed(env_directive);

    assert_eq!(directive.render(), test_dockerfile.to_string());
    assert_eq!(directive.is_env(), true);
}

#[test]
fn test_parsing_of_non_standard_env_directives() {
    let mut decoder = DockerfileDecoder::new();
    let test_dockerfile = r#"ENV Hello World"#;
    let dockerfile_contents = format!("{}\n", test_dockerfile);
    let mut buffer = InputBuffer::from_str(dockerfile_contents.as_str());
    let env_directive = decoder.decode(&mut buffer);
    let directive = parsed(env_directive);

    assert_eq!(directive.render(), "ENV Hello World".to_string());
    assert_eq!(directive.is_env(), true);
}

#[test]
fn test_parsing_env_directive_containing_equals() {
    let mut decoder = DockerfileDecoder::new();
    let test_dockerfile = r#"ENV FOO=BAR=true"#;
    let dockerfile_contents = format!("{}\n", test_dockerfile);
    let mut buffer = InputBuffer::from_str(dockerfile_contents.as_str());
    let env_directive = decoder.decode(&mut buffer);
    let directive = parsed(env_directive);

    assert_eq!(directive.render(), r#"ENV FOO=BAR=true"#.to_string());
    assert_eq!(directive.is_env(), true);
}

#[test]
fn test_parsing_env_directive_with_uneven_equals_assignments() {
    let mut decoder = DockerfileDecoder::new();
    let test_dockerfile = r#"ENV FOO=BAR=true BAR=BAZ"#;
    let dockerfile_contents = format!("{}\n", test_dockerfile);
    let mut buffer = InputBuffer::from_str(dockerfile_contents.as_str());
    let env_directive = decoder.decode(&mut buffer);
    let directive = parsed(env_directive);

    assert_eq!(directive.render(), r#"ENV FOO=BAR=true BAR=BAZ"#.to_string());
    assert_eq!(directive.is_env(), true);
}

#[test]
fn test_decode_from_async_src() {
    let test_dockerfile = "EXPOSE 80\nENTRYPOINT [\"echo\",\"yo\"]";
    let decoded_file = decode_dockerfile(test_dockerfile);
    assert!(decoded_file.is_ok());
    let decoded_file = decoded_file.unwrap();
    assert_eq!(decoded_file.len(), 2);
    let expose_directive = decoded_file.get(0).unwrap();
    assert!(matches!(expose_directive, Directive::Expose { port: Some(80) }));
    let entrypoint_directive = decoded_file.get(1).unwrap();
    assert!(entrypoint_directive.is_entrypoint());
    if let Directive::Entrypoint { mode, tokens } = entrypoint_directive {
        assert_eq!(*mode, Some(Mode::Exec));
        assert_eq!(tokens.len(), 2);
        assert_eq!(tokens.as_slice(), &["echo".to_string(), "yo".to_string()]);
    }
}

#[test]
fn test_constructor_for_run_commands() {
    let run_directive = Directive::new_run("echo 'Test'".to_string());
    assert_eq!(run_directive.is_run(), true);
    assert_eq!(run_directive.render(), String::from("RUN echo 'Test'"))
}

#[test]
fn test_constructor_for_entrypoint_commands() {
    let entrypoint_directive =
        Directive::new_entrypoint(Mode::Shell, vec!["echo 'Test'".to_string()]);
    assert_eq!(entrypoint_directive.is_entrypoint(), true);
    assert_eq!(entrypoint_directive.mode().unwrap(), &Mode::Shell);
    assert_eq!(
        entrypoint_directive.render(),
        String::from("ENTRYPOINT echo 'Test'")
    )
}

#[test]
fn test_constructor_for_cmd_commands() {
    let entrypoint_directive = Directive::new_cmd(Mode::Shell, vec!["echo 'Test'".to_string()]);
    assert_eq!(entrypoint_directive.is_cmd(), true);
    assert_eq!(entrypoint_directive.mode().unwrap(), &Mode::Shell);
    assert_eq!(entrypoint_directive.render(), String::from("CMD echo 'Test'"))
}

#[test]
fn test_constructor_for_env_commands_with_eq_delim() {
    let env_directive = Directive::new_env(vec![EnvVar {
        key: "Hello".to_string(),
        val: "World".to_string(),
        delim: Delimiter::Eq,
    }]);

    assert_eq!(env_directive.is_env(), true);
    assert_eq!(env_directive.render(), "ENV Hello=World".to_string());
}

#[test]
fn test_constructor_for_env_commands_with_none_delim() {
    let env_directive = Directive::new_env(vec![EnvVar {
        key: "Hello".to_string(),
        val: "World".to_string(),
        delim: Delimiter::Space,
    }]);

    assert_eq!(env_directive.is_env(), true);
    assert_eq!(env_directive.render(), "ENV Hello World".to_string());
}

#[test]
fn test_multiple_var_env_directive() {
    let env_directive = Directive::new_env(vec![
        EnvVar {
            key: "Hello".to_string(),
            val: "World".to_string(),
            delim: Delimiter::Eq,
        },
        EnvVar {
            key: "World".to_string(),
            val: "Hello".to_string(),
            delim: Delimiter::Eq,
        },
    ]);

    assert_eq!(env_directive.render(), "ENV Hello=World World=Hello");
}

#[test]
fn test_decode_in_chunks_keeps_order() {
    // the same text decoded whole and in two chunks yields the same
    // directives in source order
    let whole = decode_dockerfile("FROM alpine\nRUN touch /x\nEXPOSE 80\n").unwrap();
    let mut decoder = DockerfileDecoder::new();
    let mut chunked: Vec<Directive> = Vec::new();
    for chunk in ["FROM alpine\nRUN to", "uch /x\nEXPOSE 80\n"] {
        let mut buffer = InputBuffer::from_str(chunk);
        loop {
            match decoder.decode(&mut buffer) {
                Ok(Some(d)) => chunked.push(d),
                Ok(None) => break,
                Err(_) => panic!("chunked decode failed"),
            }
        }
    }
    if let Ok(Some(d)) = decoder.flush() {
        chunked.push(d);
    }
    assert_eq!(whole.len(), chunked.len());
    for (a, b) in whole.iter().zip(chunked.iter()) {
        assert_eq!(a.render(), b.render());
    }
}

#[test]
fn test_unexpected_token_on_bad_line_start() {
    let result = decode_dockerfile("%BAD\n");
    assert!(matches!(result, Err(DecodeError::UnexpectedToken)));
}

#[test]
fn test_invalid_exposed_port() {
    assert!(matches!(
        decode_dockerfile("EXPOSE 99999\n"),
        Err(DecodeError::InvalidExposedPort)
    ));
    assert!(matches!(
        decode_dockerfile("EXPOSE abc\n"),
        Err(DecodeError::InvalidExposedPort)
    ));
}

#[test]
fn test_expose_with_plus_sign_parses() {
    let decoded = decode_dockerfile("EXPOSE +80\n").unwrap();
    assert!(matches!(decoded[0], Directive::Expose { port: Some(80) }));
}

#[test]
fn test_expose_largest_port() {
    let decoded = decode_dockerfile("EXPOSE 65535\n").unwrap();
    assert!(matches!(decoded[0], Directive::Expose { port: Some(65535) }));
    assert_eq!(decoded[0].render(), "EXPOSE 65535");
}

#[test]
fn test_incomplete_env_directive() {
    assert!(matches!(
        decode_dockerfile("ENV JustAKey\n"),
        Err(DecodeError::IncompleteInstruction)
    ));
}

#[test]
fn test_incomplete_add_directive() {
    // an ADD needs both a source and a destination
    let mut d = Directive::new_add(String::new(), String::new());
    let args: Vec<char> = "only-a-source".chars().collect();
    assert!(matches!(d.set_arguments(args), Err(DecodeError::IncompleteInstruction)));
}

#[test]
fn test_add_directive_splits_source_and_destination() {
    let mut d = Directive::new_add(String::new(), String::new());
    let args: Vec<char> = "https://example.com/a.tar.gz  /tmp/a.tar.gz".chars().collect();
    assert!(d.set_arguments(args).is_ok());
    match &d {
        Directive::Add { source_url, destination_path } => {
            assert_eq!(source_url, "https://example.com/a.tar.gz");
            assert_eq!(destination_path, "/tmp/a.tar.gz");
        }
        _ => panic!("expected an ADD directive"),
    }
    assert_eq!(d.render(), "ADD https://example.com/a.tar.gz /tmp/a.tar.gz");
}

#[test]
fn test_add_keyword_stays_verbatim() {
    // the keyword table recognizes no ADD: such a line passes through as an
    // unrecognized directive with its text kept
    let decoded = decode_dockerfile("ADD a.tar.gz /tmp/a.tar.gz\n").unwrap();
    assert!(matches!(decoded[0], Directive::Other { .. }));
    assert_eq!(decoded[0].render(), "ADD a.tar.gz /tmp/a.tar.gz");
}

#[test]
fn test_unknown_keyword_becomes_other() {
    let decoded = decode_dockerfile("WORKDIR /app\n").unwrap();
    assert!(matches!(decoded[0], Directive::Other { .. }));
    assert_eq!(decoded[0].render(), "WORKDIR /app");
}

#[test]
fn test_keyword_lookup_is_case_insensitive() {
    let decoded = decode_dockerfile("run echo hi\n").unwrap();
    assert!(decoded[0].is_run());
    assert_eq!(decoded[0].render(), "RUN echo hi");
}

#[test]
fn test_comment_line_is_kept() {
    // everything after the `#` is stored, and the renderer writes the
    // keyword and a space before it
    let decoded = decode_dockerfile("# a note\nFROM alpine\n").unwrap();
    assert_eq!(decoded.len(), 2);
    assert_eq!(decoded[0].render(), "#  a note");
    assert!(decoded[1].is_from());
}

#[test]
fn test_flush_mid_keyword_is_incomplete() {
    // end of input in the middle of a bare keyword is an incomplete
    // instruction, never a silent drop
    let mut decoder = DockerfileDecoder::new();
    let mut buffer = InputBuffer::from_str("EXPOSE");
    not_parsed(decoder.decode(&mut buffer));
    assert!(matches!(decoder.flush(), Err(DecodeError::IncompleteInstruction)));
}

#[test]
fn test_space_form_env_fields() {
    let decoded = decode_dockerfile("ENV Hello World\n").unwrap();
    match &decoded[0] {
        Directive::Env { vars } => {
            assert_eq!(vars.len(), 1);
            assert_eq!(vars[0].key, "Hello");
            assert_eq!(vars[0].val, "World");
            assert_eq!(vars[0].delim, Delimiter::Space);
        }
        _ => panic!("expected an ENV directive"),
    }
}

#[test]
fn test_eq_form_env_fields() {
    let decoded = decode_dockerfile("ENV FOO=BAR=true BAR=BAZ\n").unwrap();
    match &decoded[0] {
        Directive::Env { vars } => {
            assert_eq!(vars.len(), 2);
            assert_eq!(vars[0].key, "FOO");
            assert_eq!(vars[0].val, "BAR=true");
            assert_eq!(vars[0].delim, Delimiter::Eq);
            assert_eq!(vars[1].key, "BAR");
            assert_eq!(vars[1].val, "BAZ");
        }
        _ => panic!("expected an ENV directive"),
    }
}

#[test]
fn test_mode_predicates() {
    assert!(Mode::Shell.is_shell());
    assert!(!Mode::Shell.is_exec());
    assert!(Mode::Exec.is_exec());
    assert!(Mode::from_char('[').is_exec());
    assert!(Mode::from_char('e').is_shell());
}

#[test]
fn test_new_line_behaviour_predicates() {
    assert!(NewLineBehaviour::Escaped.is_escaped());
    assert!(!NewLineBehaviour::Escaped.is_observe());
    assert!(NewLineBehaviour::Observe.is_observe());
    assert!(!NewLineBehaviour::IgnoreLine.is_observe());
}

#[test]
fn test_string_stack() {
    let mut stack = StringStack::new();
    assert!(stack.is_empty());
    assert!(stack.peek_top().is_none());
    stack.push(StringToken::SingleQuote);
    stack.push(StringToken::DoubleQuote);
    assert!(!stack.is_empty());
    assert_eq!(stack.peek_top(), Some(StringToken::DoubleQuote));
    assert_eq!(stack.pop(), Some(StringToken::DoubleQuote));
    assert_eq!(stack.pop(), Some(StringToken::SingleQuote));
    assert_eq!(stack.pop(), None);
}

#[test]
fn test_directive_constructors() {
    let from = Directive::new_from("alpine".to_string());
    assert!(from.is_from());
    assert_eq!(from.render(), "FROM alpine");
    let copy = Directive::new_copy("a b".to_string());
    assert_eq!(copy.render(), "COPY a b");
    let user = Directive::new_user("svc".to_string());
    assert!(user.is_user());
    assert_eq!(user.render(), "USER svc");
    let add = Directive::new_add("src".to_string(), "dst".to_string());
    assert_eq!(add.render(), "ADD src dst");
}

#[test]
fn test_set_mode_and_tokens() {
    let mut d = Directive::Entrypoint { mode: None, tokens: vec!["sh".to_string()] };
    d.set_mode(Mode::Exec);
    assert_eq!(d.mode().unwrap(), &Mode::Exec);
    assert_eq!(d.tokens().unwrap(), &vec!["sh".to_string()]);
    let run = Directive::new_run("x".to_string());
    assert!(run.mode().is_none());
    assert!(run.tokens().is_none());
}
