use actions_core::{
    add_path, export_variable, extended_path, file_command_variable, fresh_token, is_debug,
    issue_file_command, make_delimiter, prepare_key_value_message, save_state, set_output,
    state_variable_name, write_file_command, CoreError, Emission, ExitCode,
};

#[test]
fn make_delimiter_is_prefix_and_32_hex_digits() {
    assert_eq!(make_delimiter(0), "ghadelimiter_00000000000000000000000000000000");
    assert_eq!(make_delimiter(u128::MAX), "ghadelimiter_ffffffffffffffffffffffffffffffff");
    assert_eq!(
        make_delimiter(0x0123456789abcdef0011223344556677),
        "ghadelimiter_0123456789abcdef0011223344556677"
    );
}

#[test]
fn make_delimiter_differs_for_different_tokens() {
    assert_ne!(make_delimiter(1), make_delimiter(16));
}

#[test]
fn prepare_key_value_message_frames_multiline_value() {
    let d = make_delimiter(0xabcdef);
    let m = prepare_key_value_message("MY_KEY", Some(String::from("line1\nline2")), &d)
        .ok()
        .unwrap();
    assert_eq!(m, format!("MY_KEY<<{d}\nline1\nline2\n{d}"));
    assert!(!"MY_KEY".contains(d.as_str()));
    assert!(!"line1\nline2".contains(d.as_str()));
}

#[test]
fn prepare_key_value_message_absent_value_is_empty() {
    let m = prepare_key_value_message("K", None, "D").ok().unwrap();
    assert_eq!(m, "K<<D\n\nD");
}

#[test]
fn prepare_key_value_message_delimiter_in_key() {
    let r = prepare_key_value_message("aDELIMb", Some(String::from("v")), "DELIM");
    assert!(matches!(r, Err(CoreError::DelimiterCollision)));
}

#[test]
fn prepare_key_value_message_delimiter_in_value() {
    let r = prepare_key_value_message("key", Some(String::from("x\nDELIM")), "DELIM");
    assert!(matches!(r, Err(CoreError::DelimiterCollision)));
}

#[test]
fn prepare_key_value_message_empty_delimiter_collides() {
    let r = prepare_key_value_message("key", Some(String::from("v")), "");
    assert!(matches!(r, Err(CoreError::DelimiterCollision)));
}

#[test]
fn file_command_variable_names() {
    assert_eq!(file_command_variable("ENV"), "GITHUB_ENV");
    assert_eq!(file_command_variable("OUTPUT"), "GITHUB_OUTPUT");
}

#[test]
fn issue_file_command_appends_a_line_feed() {
    let a = issue_file_command("ENV", "/tmp/env", "K<<D\nv\nD").ok().unwrap();
    assert_eq!(a.path, "/tmp/env");
    assert_eq!(a.text, "K<<D\nv\nD\n");
}

#[test]
fn issue_file_command_without_target() {
    match issue_file_command("STATE", "", "m") {
        Err(e) => {
            assert!(matches!(&e, CoreError::MissingTarget(n) if n == "GITHUB_STATE"));
            assert_eq!(
                e.message(),
                "Unable to find environment variable for file command GITHUB_STATE"
            );
        },
        Ok(_) => panic!("expected a missing target"),
    }
}

#[test]
fn error_messages() {
    assert_eq!(CoreError::Configuration(String::from("c")).message(), "c");
    assert_eq!(CoreError::Io(String::from("i")).message(), "i");
    assert_eq!(CoreError::Validation(String::from("v")).message(), "v");
    assert_eq!(
        CoreError::DelimiterCollision.message(),
        "Unexpected input: key and value should not contain the delimiter"
    );
}

#[test]
fn export_variable_to_file() {
    match export_variable("MY_KEY", Some(String::from("line1\nline2")), "/w/env", "DELIM") {
        Ok(Emission::File(a)) => {
            assert_eq!(a.path, "/w/env");
            assert_eq!(a.text, "MY_KEY<<DELIM\nline1\nline2\nDELIM\n");
        },
        _ => panic!("expected a file block"),
    }
}

#[test]
fn export_variable_to_stdout() {
    match export_variable("MY_KEY", Some(String::from("line1\nline2")), "", "DELIM") {
        Ok(Emission::Stdout(line)) => assert_eq!(line, "::set-env name=MY_KEY::line1%0Aline2"),
        _ => panic!("expected a stdout line"),
    }
}

#[test]
fn export_variable_collision_only_with_file() {
    let with_file = export_variable("k", Some(String::from("aDb")), "/w/env", "D");
    assert!(matches!(with_file, Err(CoreError::DelimiterCollision)));
    match export_variable("k", Some(String::from("aDb")), "", "D") {
        Ok(Emission::Stdout(line)) => assert_eq!(line, "::set-env name=k::aDb"),
        _ => panic!("expected a stdout line"),
    }
}

#[test]
fn set_output_to_file() {
    match set_output("out", Some(String::from("v")), "/w/output", "DD") {
        Ok(Emission::File(a)) => {
            assert_eq!(a.path, "/w/output");
            assert_eq!(a.text, "out<<DD\nv\nDD\n");
        },
        _ => panic!("expected a file block"),
    }
}

#[test]
fn set_output_to_stdout_is_the_one_line() {
    match set_output("out", Some(String::from("v")), "", "DD") {
        Ok(Emission::Stdout(text)) => assert_eq!(text, "::set-output name=out::v"),
        _ => panic!("expected a stdout line"),
    }
    match set_output("out", None, "", "DD") {
        Ok(Emission::Stdout(text)) => assert_eq!(text, "::set-output name=out::"),
        _ => panic!("expected a stdout line"),
    }
}

#[test]
fn set_output_property_value_is_escaped() {
    match set_output("a,b:c", Some(String::from("x,y:z")), "", "DD") {
        Ok(Emission::Stdout(text)) => {
            assert_eq!(text, "::set-output name=a%2Cb%3Ac::x,y:z")
        },
        _ => panic!("expected a stdout line"),
    }
}

#[test]
fn save_state_both_ways() {
    match save_state("s", Some(String::from("1")), "/w/state", "DD") {
        Ok(Emission::File(a)) => assert_eq!(a.text, "s<<DD\n1\nDD\n"),
        _ => panic!("expected a file block"),
    }
    match save_state("s", Some(String::from("1")), "", "DD") {
        Ok(Emission::Stdout(line)) => assert_eq!(line, "::save-state name=s::1"),
        _ => panic!("expected a stdout line"),
    }
}

#[test]
fn add_path_both_ways() {
    match add_path("/opt/bin", "/w/path") {
        Emission::File(a) => {
            assert_eq!(a.path, "/w/path");
            assert_eq!(a.text, "/opt/bin\n");
        },
        _ => panic!("expected a file block"),
    }
    match add_path("/opt/bin", "") {
        Emission::Stdout(line) => assert_eq!(line, "::add-path::/opt/bin"),
        _ => panic!("expected a stdout line"),
    }
}

#[test]
fn extended_path_appends() {
    assert_eq!(extended_path("/usr/bin:/bin", ":", "/opt/bin"), "/usr/bin:/bin:/opt/bin");
}

#[test]
fn state_variable_name_has_prefix() {
    assert_eq!(state_variable_name("token"), "STATE_token");
}

#[test]
fn is_debug_only_for_one() {
    assert!(is_debug(Some("1")));
    assert!(!is_debug(Some("true")));
    assert!(!is_debug(Some("")));
    assert!(!is_debug(Some("11")));
    assert!(!is_debug(None));
}

#[test]
fn exit_codes() {
    assert_eq!(ExitCode::Success.code(), 0);
    assert_eq!(ExitCode::Failure.code(), 1);
}

#[test]
fn write_file_command_block() {
    let a = write_file_command("OUTPUT", "/w/out", "MY_KEY", Some(String::from("line1\nline2")), 7)
        .ok()
        .unwrap();
    let d = make_delimiter(7);
    assert_eq!(a.path, "/w/out");
    assert_eq!(a.text, format!("MY_KEY<<{d}\nline1\nline2\n{d}\n"));
    assert_eq!(
        a.text,
        "MY_KEY<<ghadelimiter_00000000000000000000000000000007\nline1\nline2\nghadelimiter_00000000000000000000000000000007\n"
    );
}

#[test]
fn write_file_command_without_target() {
    let r = write_file_command("ENV", "", "k", Some(String::from("v")), 7);
    assert!(matches!(r, Err(CoreError::MissingTarget(n)) if n == "GITHUB_ENV"));
}

#[test]
fn write_file_command_without_target_comes_before_collision() {
    let d = make_delimiter(9);
    let r = write_file_command("ENV", "", "k", Some(d), 9);
    assert!(matches!(r, Err(CoreError::MissingTarget(_))));
}

#[test]
fn write_file_command_collision() {
    let d = make_delimiter(9);
    let value = format!("before {d} after");
    let r = write_file_command("ENV", "/w/env", "k", Some(value), 9);
    assert!(matches!(r, Err(CoreError::DelimiterCollision)));
    let key = format!("{d}");
    let r = write_file_command("ENV", "/w/env", &key, None, 9);
    assert!(matches!(r, Err(CoreError::DelimiterCollision)));
    let r = write_file_command("ENV", "/w/env", &key, None, 10);
    assert!(r.is_ok());
}

#[test]
fn fresh_tokens_differ() {
    let a = fresh_token().ok().unwrap();
    let b = fresh_token().ok().unwrap();
    let c = fresh_token().ok().unwrap();
    assert!(a != b && b != c && a != c);
    assert_ne!(make_delimiter(a), make_delimiter(b));
}

#[test]
fn fresh_delimiter_has_45_characters_on_one_line() {
    let d = make_delimiter(fresh_token().ok().unwrap());
    assert_eq!(d.chars().count(), 45);
    assert!(d.starts_with("ghadelimiter_"));
    assert!(!d.contains('\n'));
    assert!(d[13..].chars().all(|c| c.is_ascii_hexdigit() && !c.is_ascii_uppercase()));
}
