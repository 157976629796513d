use pj::error::Error;

#[test]
fn message_of_config_not_found_names_the_path() {
    let error = Error::ConfigNotFound { path: "/home/u/.pjconfig".to_string() };
    assert_eq!(error.message(), "Config is not a file: \"/home/u/.pjconfig\"");
}

#[test]
fn message_of_config_unreadable_names_path_and_reason() {
    let error = Error::ConfigUnreadable {
        path: "/repo/.pjconfig".to_string(),
        reason: "Permission denied (os error 13)".to_string(),
    };
    assert_eq!(
        error.message(),
        "Failed to read: \"/repo/.pjconfig\": Permission denied (os error 13)"
    );
}

#[test]
fn message_of_config_malformed_names_path_and_reason() {
    let error = Error::ConfigMalformed {
        path: "/repo/.pjconfig".to_string(),
        reason: "missing field `project`".to_string(),
    };
    assert_eq!(error.message(), "Failed to parse: \"/repo/.pjconfig\": missing field `project`");
}

#[test]
fn message_of_project_not_registered_names_the_project() {
    let error = Error::ProjectNotRegistered { name: "web".to_string() };
    assert_eq!(error.message(), "No project called: web");
}

#[test]
fn message_of_multiplexer_unavailable_holds_code_and_stderr() {
    let error = Error::MultiplexerUnavailable {
        arguments: vec!["kill-session".to_string(), "-t".to_string(), "web".to_string()],
        code: Some(1),
        stderr: "can't find session: web".to_string(),
    };
    assert_eq!(
        error.message(),
        "Failed to execute: tmux kill-session -t web (Status: 1): can't find session: web"
    );
}

#[test]
fn message_of_multiplexer_unavailable_without_exit_code() {
    let error = Error::MultiplexerUnavailable {
        arguments: vec!["ls".to_string()],
        code: None,
        stderr: String::new(),
    };
    assert_eq!(error.message(), "Failed to execute: tmux ls (Status: unknown): ");
}

#[test]
fn message_of_multiplexer_unavailable_with_negative_code() {
    let error = Error::MultiplexerUnavailable {
        arguments: vec!["ls".to_string()],
        code: Some(-2),
        stderr: "odd".to_string(),
    };
    assert_eq!(error.message(), "Failed to execute: tmux ls (Status: -2): odd");
}

#[test]
fn message_is_a_single_line() {
    let error = Error::MultiplexerUnavailable {
        arguments: vec!["ls".to_string()],
        code: Some(127),
        stderr: "first line\nsecond line\n".to_string(),
    };
    let message = error.message();
    assert!(!message.contains('\n'));
    assert_eq!(message, "Failed to execute: tmux ls (Status: 127): first line second line ");

    let error = Error::ConfigUnreadable { path: "a\nb".to_string(), reason: "c\nd".to_string() };
    assert_eq!(error.message(), "Failed to read: \"a b\": c d");
}
