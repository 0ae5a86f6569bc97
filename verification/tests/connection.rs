use dev_browser::connection::{
    daemon_pipe_name, daemon_pipe_name_for, send_message, read_line, read_message,
    sanitize_pipe_segment, socket_path, socket_path_in,
};
use dev_browser::daemon::daemon_log_path;
use dev_browser::exit_code::{CliError, IoError, IoErrorKind};
use dev_browser::paths::FilePath;
use std::io::{BufRead, Cursor};

fn first_line(data: &[u8]) -> String {
    let mut reader = Cursor::new(data.to_vec());
    let mut line = String::new();
    reader.read_line(&mut line).unwrap();
    line
}

#[test]
fn read_line_reports_closed_connection_with_log_hint() {
    let line = first_line(b"");
    let error =
        read_line(line, &daemon_log_path()).expect_err("an empty stream should report EOF");
    let message = error.to_string();

    assert!(
        message.starts_with("Daemon connection closed unexpectedly"),
        "unexpected message: {message}"
    );

    if let Ok(path) = daemon_log_path() {
        assert!(
            message.contains(&path.display()),
            "expected the daemon log path in: {message}"
        );
    }
}

#[test]
fn read_line_returns_the_line_when_data_is_present() {
    let line = first_line(b"hello\n");
    let line =
        read_line(line, &daemon_log_path()).expect("a non-empty stream should read a line");
    assert_eq!(line, "hello\n");
}

#[test]
fn a_closed_connection_names_the_log_if_there_is_one() {
    let known = Ok(FilePath::new("/home/user/.dev-browser/logs/daemon.log"));
    let error = read_line(String::new(), &known).unwrap_err();
    assert_eq!(error.kind, IoErrorKind::UnexpectedEof);
    assert_eq!(
        error.message,
        "Daemon connection closed unexpectedly. Check the daemon log for details: /home/user/.dev-browser/logs/daemon.log"
    );
    let unknown =
        Err(IoError { kind: IoErrorKind::NotFound, message: "no home".to_string() });
    assert_eq!(
        read_line(String::new(), &unknown).unwrap_err().to_string(),
        "Daemon connection closed unexpectedly."
    );
    assert_eq!(read_line("\n".to_string(), &unknown).unwrap(), "\n");
}

#[test]
fn the_socket_is_in_the_home_directory() {
    let path = socket_path_in(Some(FilePath::new("/home/user"))).unwrap();
    assert_eq!(path.display(), "/home/user/.dev-browser/daemon.sock");
    let error = socket_path_in(None).unwrap_err();
    assert_eq!(error.kind, IoErrorKind::NotFound);
    assert_eq!(error.message, "Could not determine home directory");
    if let Ok(path) = socket_path() {
        assert!(path.display().ends_with("/.dev-browser/daemon.sock"));
    }
}

#[test]
fn pipe_segments_are_cleaned() {
    assert_eq!(sanitize_pipe_segment("Jane.Doe_1-x"), "jane.doe_1-x");
    assert_eq!(sanitize_pipe_segment("--A B--"), "a-b");
    assert_eq!(sanitize_pipe_segment("\u{e9}m\u{e9}"), "m");
    assert_eq!(sanitize_pipe_segment(""), "user");
    assert_eq!(sanitize_pipe_segment("--- \u{4f60}"), "user");
    let once = sanitize_pipe_segment("  DOMAIN\\Some User ");
    assert_eq!(once, "domain-some-user");
    assert_eq!(sanitize_pipe_segment(&once), once);
}

#[test]
fn the_pipe_is_named_after_the_user() {
    let home = || Some(FilePath::new("/home/Jo"));
    let name = |text: &str| Some(text.to_string());
    assert_eq!(daemon_pipe_name_for(name("Ann"), name("bob"), home()), "dev-browser-daemon-ann");
    assert_eq!(daemon_pipe_name_for(None, name("bob"), home()), "dev-browser-daemon-bob");
    assert_eq!(daemon_pipe_name_for(name("  "), name("bob"), home()), "dev-browser-daemon-jo");
    assert_eq!(daemon_pipe_name_for(None, None, home()), "dev-browser-daemon-jo");
    assert_eq!(
        daemon_pipe_name_for(None, None, Some(FilePath::new("/"))),
        "dev-browser-daemon-user"
    );
    assert_eq!(daemon_pipe_name_for(None, None, None), "dev-browser-daemon-user");
    assert_eq!(daemon_pipe_name(name("Ann"), None), "dev-browser-daemon-ann");
}

#[test]
fn the_pipe_is_named_after_a_home_directory_of_windows() {
    for (home, expected) in [
        ("C:\\Users\\Alice", "alice"),
        ("C:\\Users\\Alice\\", "alice"),
        ("C:\\Users/Alice B\\.", "alice-b"),
        ("c:Alice", "alice"),
        ("\\\\server\\share\\Bob", "bob"),
        ("\\\\server\\share", "user"),
        ("\\\\server", "user"),
        ("\\\\?\\C:\\Users\\Carol", "carol"),
        ("C:\\", "user"),
        ("C:", "user"),
        ("C:\\Users\\..", "user"),
        ("Users\\Dan", "dan"),
    ] {
        assert_eq!(
            daemon_pipe_name_for(None, None, Some(FilePath::new(home))),
            format!("dev-browser-daemon-{expected}"),
            "{home}"
        );
    }
}

#[test]
fn messages_survive_the_wire() {
    let mut message = serde_json::Value::Object(serde_json::Map::new());
    message["script"] = serde_json::Value::from("console.log(\"a\\n\");\n\u{2028}\u{0}");
    message["timeoutMs"] = serde_json::Value::from(30_000u64);
    message["headless"] = serde_json::Value::from(true);
    let line = send_message(&message).unwrap();
    assert!(line.ends_with("}\n"));
    assert_eq!(line.matches('\n').count(), 1);
    assert_eq!(read_message(&line).unwrap(), message);
    assert_eq!(
        send_message(&serde_json::Value::from(vec![1u64, 2u64])).unwrap(),
        "[1,2]\n"
    );
}

#[test]
fn messages_of_every_shape_survive_the_wire() {
    for text in [
        "null",
        "true",
        "-9223372036854775808",
        "18446744073709551615",
        "\"a\\nb\"",
        "[]",
        "{}",
        "[[[]],{\"a\":[null,-1,{\"b\":\"\\u0000 \\r\\n\"}]}]",
    ] {
        let message: serde_json::Value = serde_json::from_str(text).unwrap();
        let line = send_message(&message).unwrap();
        assert_eq!(line.matches('\n').count(), 1, "{text}");
        let line = read_line(line, &daemon_log_path()).unwrap();
        assert_eq!(read_message(&line).unwrap(), message, "{text}");
    }
}

#[test]
fn messages_survive_the_wire_up_to_the_depth_limit() {
    let nested = |depth: usize| {
        let mut value = serde_json::Value::Null;
        for _ in 0..depth {
            value = serde_json::Value::from(vec![value]);
        }
        value
    };
    let message = nested(127);
    assert_eq!(read_message(&send_message(&message).unwrap()).unwrap(), message);
    assert!(read_message(&send_message(&nested(128)).unwrap()).is_err());
}

#[test]
fn what_is_no_message_is_an_error() {
    match read_message("{\n") {
        Err(error) => {
            let expected = serde_json::from_str::<serde_json::Value>("{").unwrap_err();
            assert_eq!(error.to_string(), expected.to_string());
        }
        Ok(_) => panic!("expected an error"),
    }
    assert!(matches!(read_message(""), Err(CliError::Json(_))));
    assert_eq!(read_message(" null \r\n").unwrap(), serde_json::Value::Null);
}
