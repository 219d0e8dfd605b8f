use r_server::client::{classify_input, reply_complete, request_line, shown_line, Input};
use r_server::command::{parse_command, prepare_echo_response, prepare_error_response, Command};
use r_server::session::{listing_lines, open_connection, step, Action, Event, Phase};
use r_server::text::{chars_of, char_is_whitespace, trim_bounds};

fn trimmed(s: &str) -> String {
    let v = chars_of(s);
    let (lo, hi) = trim_bounds(&v);
    v[lo..hi].iter().collect()
}

#[test]
fn whitespace_is_that_of_char_is_whitespace() {
    for code in 0u32..=0x10FFFF {
        if let Some(c) = char::from_u32(code) {
            assert_eq!(char_is_whitespace(c), c.is_whitespace(), "at U+{:04X}", code);
        }
    }
}

#[test]
fn trim_is_that_of_str_trim() {
    let samples = [
        "", "   ", "LS", "  LS  ", "\tECHO a b\r\n", "\u{3000}LS\u{a0}", "\u{85}x\u{2029}",
        "a \u{200b} b", "\n\n", "ünï cödé ",
    ];
    for s in samples {
        assert_eq!(trimmed(s), s.trim(), "for {:?}", s);
    }
    assert_eq!(chars_of("héllo"), vec!['h', 'é', 'l', 'l', 'o']);
}

#[test]
fn parse_is_case_sensitive() {
    assert_eq!(parse_command("echo hi"), Ok(Command::Unknown));
    assert_eq!(parse_command("ls"), Ok(Command::Unknown));
    assert_eq!(parse_command("Ls"), Ok(Command::Unknown));
}

#[test]
fn parse_ignores_surrounding_whitespace() {
    assert_eq!(parse_command("  \tECHO x \r\n"), Ok(Command::Echo("x".to_string())));
    assert_eq!(parse_command("\u{3000}LS\n"), Ok(Command::Ls));
    assert_eq!(parse_command("ECHO \n"), Ok(Command::Echo("".to_string())));
    assert_eq!(parse_command("   "), Ok(Command::Unknown));
    assert_eq!(parse_command(""), Ok(Command::Unknown));
}

#[test]
fn parse_keeps_inner_spaces_of_the_message() {
    assert_eq!(parse_command("ECHO  two  spaces "), Ok(Command::Echo(" two  spaces".to_string())));
    assert_eq!(parse_command("ECHO é ü"), Ok(Command::Echo("é ü".to_string())));
}

#[test]
fn parse_unknown_shapes() {
    assert_eq!(parse_command("ECHO\tx"), Ok(Command::Unknown));
    assert_eq!(parse_command("LS extra"), Ok(Command::Unknown));
    assert_eq!(parse_command("LSX"), Ok(Command::Unknown));
    assert_eq!(parse_command("ECH"), Ok(Command::Unknown));
}

#[test]
fn error_response_of_empty_message() {
    assert_eq!(prepare_error_response(""), "ERR \n");
    assert_eq!(prepare_echo_response("é"), "é\n");
}

#[derive(Debug, PartialEq)]
enum Effect {
    Read(String),
    EndOfStream,
    List,
    Write(String),
}

/// Runs a connection against a client that sends `lines` and then closes,
/// a directory that lists `dir`, and writes that all succeed.
fn serve(lines: &[&str], dir: &[&str]) -> Vec<Effect> {
    let listings: Vec<Option<&[&str]>> = lines.iter().map(|_| Some(dir)).collect();
    serve_turns(lines, &listings)
}

/// As `serve`, where reading the directory while answering line `i` gives
/// `listings[i]`, or fails where that is `None`.
fn serve_turns(lines: &[&str], listings: &[Option<&[&str]>]) -> Vec<Effect> {
    let mut effects = Vec::new();
    let mut next_line = 0;
    let (mut conn, mut action) = open_connection();
    loop {
        let event = match action {
            Action::ReadLine => {
                if next_line < lines.len() {
                    next_line += 1;
                    effects.push(Effect::Read(lines[next_line - 1].to_string()));
                    Event::LineRead(lines[next_line - 1].to_string())
                } else {
                    effects.push(Effect::EndOfStream);
                    Event::EndOfStream
                }
            }
            Action::ListDirectory => {
                effects.push(Effect::List);
                match listings[next_line - 1] {
                    Some(dir) => Event::Listed(dir.iter().map(|d| d.to_string()).collect()),
                    None => Event::ListingFailed,
                }
            }
            Action::Send(line) => {
                effects.push(Effect::Write(line));
                Event::Sent
            }
            Action::Close => break,
        };
        let (c, a) = step(conn, event);
        conn = c;
        action = a;
    }
    effects
}

fn writes(effects: &[Effect]) -> Vec<String> {
    effects
        .iter()
        .filter_map(|e| match e {
            Effect::Write(w) => Some(w.clone()),
            _ => None,
        })
        .collect()
}

fn sent(action: Action) -> String {
    match action {
        Action::Send(line) => line,
        _ => panic!("expected a line to send"),
    }
}

#[test]
fn session_opens_waiting_for_a_line() {
    let (conn, action) = open_connection();
    assert_eq!(conn.phase(), Phase::AwaitingLine);
    assert!(matches!(action, Action::ReadLine));
}

#[test]
fn session_echo() {
    let (conn, _) = open_connection();
    let (conn, action) = step(conn, Event::LineRead("ECHO hello\n".to_string()));
    assert_eq!(conn.phase(), Phase::Replying);
    assert_eq!(sent(action), "hello\n");
    let (conn, action) = step(conn, Event::Sent);
    assert_eq!(conn.phase(), Phase::AwaitingLine);
    assert!(matches!(action, Action::ReadLine));
}

#[test]
fn session_unknown_command() {
    let (conn, _) = open_connection();
    let (conn, action) = step(conn, Event::LineRead("FOO\n".to_string()));
    assert_eq!(conn.phase(), Phase::Replying);
    assert_eq!(sent(action), "ERR Unknown command\n");
}

#[test]
fn session_listing_line_by_line() {
    let (conn, _) = open_connection();
    let (conn, action) = step(conn, Event::LineRead("LS\n".to_string()));
    assert_eq!(conn.phase(), Phase::AwaitingListing);
    assert!(matches!(action, Action::ListDirectory));
    let names = vec!["file1.txt".to_string(), "subdir".to_string()];
    let (conn, action) = step(conn, Event::Listed(names));
    assert_eq!(sent(action), "file1.txt\n");
    let (conn, action) = step(conn, Event::Sent);
    assert_eq!(sent(action), "subdir\n");
    let (conn, action) = step(conn, Event::Sent);
    assert_eq!(sent(action), "\n");
    let (conn, action) = step(conn, Event::Sent);
    assert_eq!(conn.phase(), Phase::AwaitingLine);
    assert!(matches!(action, Action::ReadLine));
}

#[test]
fn session_write_failure_stops_the_listing() {
    let (conn, _) = open_connection();
    let (conn, _) = step(conn, Event::LineRead("LS\n".to_string()));
    let names = vec!["a".to_string(), "b".to_string()];
    let (conn, action) = step(conn, Event::Listed(names));
    assert_eq!(sent(action), "a\n");
    let (conn, action) = step(conn, Event::SendFailed);
    assert_eq!(conn.phase(), Phase::Closed);
    assert!(matches!(action, Action::Close));
    let (conn, action) = step(conn, Event::Sent);
    assert_eq!(conn.phase(), Phase::Closed);
    assert!(matches!(action, Action::Close));
}

#[test]
fn session_empty_listing() {
    assert_eq!(serve(&["LS"], &[]), vec![
        Effect::Read("LS".to_string()),
        Effect::List,
        Effect::Write("\n".to_string()),
        Effect::EndOfStream,
    ]);
    assert_eq!(listing_lines(&vec!["a".to_string()]), vec!["a\n".to_string(), "\n".to_string()]);
}

#[test]
fn session_listing_failed() {
    let (conn, _) = open_connection();
    let (conn, _) = step(conn, Event::LineRead("LS\n".to_string()));
    let (conn, action) = step(conn, Event::ListingFailed);
    assert_eq!(conn.phase(), Phase::Replying);
    assert_eq!(sent(action), "ERR Error reading directory\n");
}

#[test]
fn session_ends() {
    let (conn, _) = open_connection();
    let (conn, action) = step(conn, Event::EndOfStream);
    assert_eq!(conn.phase(), Phase::Closed);
    assert!(matches!(action, Action::Close));
    let (conn, _) = open_connection();
    let (conn, _) = step(conn, Event::ReadFailed);
    assert_eq!(conn.phase(), Phase::Closed);
    let (conn, action) = step(conn, Event::LineRead("LS\n".to_string()));
    assert_eq!(conn.phase(), Phase::Closed);
    assert!(matches!(action, Action::Close));
    let (conn, _) = open_connection();
    let (conn, _) = step(conn, Event::Sent);
    assert_eq!(conn.phase(), Phase::Closed);
}

#[test]
fn replies_are_lines() {
    for effect in serve(&["ECHO x\n", "ECHO\n", "NOPE\n", "  \n", "LS\n"], &["a", "b"]) {
        if let Effect::Write(w) = effect {
            assert!(w.ends_with('\n'));
        }
    }
}

#[test]
fn lines_answered_in_turn() {
    let effects = serve(&["ECHO hi\n", "LS\n", "BAD\n"], &["src", "Cargo.toml"]);
    assert_eq!(effects, vec![
        Effect::Read("ECHO hi\n".to_string()),
        Effect::Write("hi\n".to_string()),
        Effect::Read("LS\n".to_string()),
        Effect::List,
        Effect::Write("src\n".to_string()),
        Effect::Write("Cargo.toml\n".to_string()),
        Effect::Write("\n".to_string()),
        Effect::Read("BAD\n".to_string()),
        Effect::Write("ERR Unknown command\n".to_string()),
        Effect::EndOfStream,
    ]);
    assert_eq!(serve(&[], &["x"]), vec![Effect::EndOfStream]);
}

#[test]
fn lines_answered_in_turn_with_varying_listings() {
    let effects = serve_turns(&["LS\n", "LS\n", "LS\n"], &[Some(&["a"]), None, Some(&[])]);
    assert_eq!(effects, vec![
        Effect::Read("LS\n".to_string()),
        Effect::List,
        Effect::Write("a\n".to_string()),
        Effect::Write("\n".to_string()),
        Effect::Read("LS\n".to_string()),
        Effect::List,
        Effect::Write("ERR Error reading directory\n".to_string()),
        Effect::Read("LS\n".to_string()),
        Effect::List,
        Effect::Write("\n".to_string()),
        Effect::EndOfStream,
    ]);
}

#[test]
fn no_state_between_lines() {
    let dir = ["one", "two"];
    let first = ["ECHO a\n", "LS\n"];
    let second = ["nope\n", "ECHO\n", "LS\n"];
    let both: Vec<&str> = first.iter().chain(second.iter()).copied().collect();
    let mut joined = writes(&serve(&first, &dir));
    joined.extend(writes(&serve(&second, &dir)));
    assert_eq!(writes(&serve(&both, &dir)), joined);
}

#[test]
fn client_classifies_input() {
    assert_eq!(classify_input("exit\n"), Input::Quit);
    assert_eq!(classify_input("  quit  \n"), Input::Quit);
    assert_eq!(classify_input("   \n"), Input::Skip);
    assert_eq!(classify_input(""), Input::Skip);
    assert_eq!(classify_input(" LS \n"), Input::Send("LS".to_string()));
    assert_eq!(classify_input("EXIT\n"), Input::Send("EXIT".to_string()));
    assert_eq!(classify_input("exit now\n"), Input::Send("exit now".to_string()));
}

#[test]
fn client_request_and_shown_lines() {
    assert_eq!(request_line("ECHO hi"), "ECHO hi\n");
    assert_eq!(shown_line("hello\n"), "hello");
    assert_eq!(shown_line("hello\n\n"), "hello");
    assert_eq!(shown_line("\n"), "");
    assert_eq!(shown_line("a\r\n"), "a\r");
    assert_eq!(shown_line("no newline"), "no newline");
}

#[test]
fn client_knows_when_a_reply_ends() {
    assert!(reply_complete("LS", ""));
    assert!(!reply_complete("LS", "file1.txt"));
    assert!(reply_complete("ECHO hi", "hi"));
    assert!(reply_complete("ECHO hi", ""));
    assert!(reply_complete("LSX", "ERR Unknown command"));
    assert!(reply_complete("LS foo", "ERR Unknown command"));
    assert!(!reply_complete("  LS ", "x"));
    assert!(reply_complete("L", "x"));
}

#[test]
fn echo_round_trip_through_both_sides() {
    let command = match classify_input("  ECHO Hello from client!  \n") {
        Input::Send(c) => c,
        other => panic!("unexpected {:?}", other),
    };
    let wire = request_line(&command);
    let (conn, _) = open_connection();
    let (conn, action) = step(conn, Event::LineRead(wire));
    let shown = shown_line(&sent(action));
    let (_, action) = step(conn, Event::Sent);
    assert!(matches!(action, Action::ReadLine));
    assert_eq!(shown, "Hello from client!");
    assert!(reply_complete(&command, &shown));
}

#[test]
fn listing_read_back_by_the_client() {
    let command = match classify_input("LS\n") {
        Input::Send(c) => c,
        other => panic!("unexpected {:?}", other),
    };
    let names = ["src", "target", "Cargo.toml"];
    let effects = serve(&[request_line(&command).as_str()], &names);
    let chunks = writes(&effects);
    assert_eq!(chunks.len(), names.len() + 1);
    for (i, chunk) in chunks.iter().enumerate() {
        let shown = shown_line(chunk);
        let done = reply_complete(&command, &shown);
        if i < names.len() {
            assert_eq!(shown, names[i]);
            assert!(!done);
        } else {
            assert_eq!(shown, "");
            assert!(done);
        }
    }
}
