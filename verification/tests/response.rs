use dev_browser::exit_code::CliError;
use dev_browser::paths::FilePath;
use dev_browser::response::{
    print_browsers, print_status, render_result, respond, stream_responses, BrowserSummary,
    Rendering, ResultMode, StatusSummary, StreamAction,
};
use serde_json::Value;

fn document(text: &str) -> Value {
    serde_json::from_str(text).unwrap()
}

fn responded(text: &str) -> StreamAction {
    respond(&document(text), ResultMode::Json).unwrap()
}

fn browser(name: &str, kind: &str, status: &str, pages: Vec<&str>) -> BrowserSummary {
    BrowserSummary {
        name: name.to_string(),
        kind: kind.to_string(),
        status: status.to_string(),
        pages: pages.into_iter().map(|page| page.to_string()).collect(),
    }
}

fn shown(data: &str, mode: ResultMode) -> Option<String> {
    match render_result(&document(data), mode).unwrap() {
        Rendering::Line(line) => Some(line),
        Rendering::Nothing => None,
        _ => panic!("expected a line or nothing"),
    }
}

#[test]
fn results_are_shown_by_their_mode() {
    assert_eq!(shown("null", ResultMode::Json), None);
    assert_eq!(shown("\"a b\"", ResultMode::Json).as_deref(), Some("a b"));
    assert_eq!(shown("[1]", ResultMode::Json).as_deref(), Some("[\n  1\n]"));
    assert_eq!(shown("false", ResultMode::Json).as_deref(), Some("false"));
    assert_eq!(shown("{\"a\":1}", ResultMode::Silent), None);
    assert!(matches!(
        render_result(&document("[]"), ResultMode::Browsers).unwrap(),
        Rendering::Browsers(data) if data == document("[]")
    ));
    assert!(matches!(
        render_result(&document("{\"pid\":1}"), ResultMode::Status).unwrap(),
        Rendering::Status(data) if data == document("{\"pid\":1}")
    ));
}

#[test]
fn output_is_passed_on() {
    assert!(matches!(
        responded("{\"type\":\"stdout\",\"data\":\"hi\\n\"}"),
        StreamAction::PrintOut(data) if data == "hi\n"
    ));
    assert!(matches!(
        responded("{\"type\":\"stderr\",\"data\":\"\"}"),
        StreamAction::PrintError(data) if data.is_empty()
    ));
    assert!(matches!(
        responded("{\"type\":\"result\",\"data\":\"x\"}"),
        StreamAction::Show(Rendering::Line(line)) if line == "x"
    ));
}

#[test]
fn what_means_nothing_is_passed_over() {
    for text in [
        "{\"type\":\"stdout\"}",
        "{\"type\":\"stdout\",\"data\":1}",
        "{\"type\":\"stderr\",\"data\":null}",
        "{\"type\":\"result\"}",
        "{\"type\":\"progress\",\"data\":\"x\"}",
        "{\"type\":1}",
        "{}",
        "[]",
        "\"complete\"",
    ] {
        assert!(matches!(responded(text), StreamAction::Skip), "{text}");
    }
}

#[test]
fn the_daemon_ends_the_stream() {
    assert!(matches!(
        responded("{\"type\":\"complete\"}"),
        StreamAction::Finish { error: None, code: 0 }
    ));
    assert!(matches!(
        responded("{\"type\":\"error\",\"message\":\"bad\"}"),
        StreamAction::Finish { error: Some(text), code: 4 } if text == "bad"
    ));
    assert!(matches!(
        responded("{\"type\":\"error\",\"message\":7}"),
        StreamAction::Finish { error: Some(text), code: 4 } if text == "Unknown daemon error"
    ));
}

#[test]
fn lines_of_the_daemon_are_read() {
    let log = Ok(FilePath::new("/l"));
    let read = |line: &str| stream_responses(line.to_string(), &log, ResultMode::Json);
    assert!(matches!(
        read("{\"type\":\"complete\"}\r\n"),
        Ok(StreamAction::Finish { error: None, code: 0 })
    ));
    assert!(matches!(read("{\n"), Err(CliError::Json(_))));
    match read("") {
        Err(CliError::Io(error)) => assert_eq!(
            error.to_string(),
            "Daemon connection closed unexpectedly. Check the daemon log for details: /l"
        ),
        _ => panic!("expected a closed connection"),
    }
}

#[test]
fn no_browsers_are_named_so() {
    assert_eq!(print_browsers(&Vec::new()), vec!["No browsers."]);
}

#[test]
fn browsers_are_a_table() {
    let browsers = vec![
        browser("default", "launched", "connected", vec!["main", "other"]),
        browser("x", "t", "s", Vec::new()),
    ];
    assert_eq!(
        print_browsers(&browsers),
        vec![
            "NAME     TYPE      STATUS     PAGES",
            "default  launched  connected  main, other",
            "x        t         s          -",
        ]
    );
    assert_eq!(
        print_browsers(&vec![browser("a", "b", "c", vec!["p"])]),
        vec!["NAME  TYPE  STATUS  PAGES", "a     b     c       p"]
    );
}

#[test]
fn columns_are_as_wide_as_their_longest_cell_in_bytes() {
    let browsers = vec![browser("\u{e9}\u{e9}\u{e9}", "b", "c", Vec::new())];
    let name_width = 6;
    let expected = format!("{:<name_width$}  {:<4}  {:<6}  -", "\u{e9}\u{e9}\u{e9}", "b", "c");
    assert_eq!(print_browsers(&browsers)[1], expected);
}

#[test]
fn the_status_is_a_list_of_facts() {
    let mut status = StatusSummary {
        pid: -1,
        uptime_ms: 90_500,
        browser_count: 2,
        socket_path: "/s".to_string(),
        browsers: vec![
            browser("a", "launched", "up", Vec::new()),
            browser("b", "external", "down", vec!["p"]),
        ],
    };
    assert_eq!(
        print_status(&status),
        vec![
            "PID: -1",
            "Uptime: 1m 30s",
            "Browsers: 2",
            "Socket: /s",
            "Managed: a (launched, up), b (external, down)",
        ]
    );
    status.browsers = Vec::new();
    assert_eq!(print_status(&status).len(), 4);
}
