use r_server::command::{parse_command, prepare_echo_response, prepare_error_response, Command};

#[test]
fn test_parse_echo_normal() {
    assert_eq!(
        parse_command("ECHO hello world"),
        Ok(Command::Echo("hello world".to_string()))
    );
}

#[test]
fn test_parse_echo_empty() {
    assert_eq!(parse_command("ECHO"), Ok(Command::Echo("".to_string())));
}

#[test]
fn test_parse_echo_with_trailing_whitespace() {
    assert_eq!(
        parse_command("ECHO hello world   "),
        Ok(Command::Echo("hello world".to_string()))
    );
}

#[test]
fn test_parse_ls() {
    assert_eq!(parse_command("LS"), Ok(Command::Ls));
}

#[test]
fn test_parse_ls_with_trailing_whitespace() {
    assert_eq!(parse_command("LS   "), Ok(Command::Ls));
}

#[test]
fn test_parse_unknown() {
    assert_eq!(parse_command("FOOBAR"), Ok(Command::Unknown));
}

#[test]
fn test_parse_unknown_with_prefix_echo() {
    assert_eq!(parse_command("ECHOFOO"), Ok(Command::Unknown));
}

#[test]
fn test_prepare_echo_response_normal() {
    assert_eq!(prepare_echo_response("hello world"), "hello world\n");
}

#[test]
fn test_prepare_echo_response_empty() {
    assert_eq!(prepare_echo_response(""), "\n");
}

#[test]
fn test_prepare_error_response() {
    assert_eq!(prepare_error_response("Test error"), "ERR Test error\n");
}
