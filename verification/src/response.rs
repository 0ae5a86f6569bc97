//! What the daemon answers, and how it is shown.

use serde_json::Value;
use vstd::prelude::*;
use vstd::string::*;

use crate::connection::{line_outcome, located, read_line, read_message};
use crate::exit_code::{code_of, CliError, ErrorModel, ExitCode, IoError, IoModel};
use crate::json::{
    as_text, copy_value, get_member, is_null, json_of, member_of, parsed_json, pretty_json, text_in,
    write_pretty, JsonModel,
};
use crate::paths::{bytes_of, FilePath};
use crate::text::{
    align_left, decimal, decimal_text, end_trimmed, join, joined, left_aligned, option_view,
    same_text, signed_decimal, signed_text, texts,
};
use crate::units::{duration_text, format_duration_ms};

verus! {

// ---------------------------------------------------------------------------
// Results
// ---------------------------------------------------------------------------

/// How the result of a request is shown.
#[derive(Debug, Clone, Copy, PartialEq, Eq, Structural)]
pub enum ResultMode {
    Silent,
    Json,
    Browsers,
    Status,
}

/// What to print of a result. The lists of browsers and the status still have
/// to be read from their documents.
#[derive(Debug)]
pub enum Rendering {
    Nothing,
    Line(String),
    Browsers(Value),
    Status(Value),
}

/// What to print of a result.
pub enum RenderingModel {
    Nothing,
    Line(Seq<char>),
    Browsers(JsonModel),
    Status(JsonModel),
}

impl View for Rendering {
    type V = RenderingModel;

    open spec fn view(&self) -> RenderingModel {
        match self {
            Rendering::Nothing => RenderingModel::Nothing,
            Rendering::Line(line) => RenderingModel::Line(line@),
            Rendering::Browsers(data) => RenderingModel::Browsers(json_of(*data)),
            Rendering::Status(data) => RenderingModel::Status(json_of(*data)),
        }
    }
}

/// What to print of a result: a text as it is, nothing of `null`, and any
/// other document as JSON.
pub open spec fn rendered(data: JsonModel, mode: ResultMode) -> RenderingModel {
    match mode {
        ResultMode::Silent => RenderingModel::Nothing,
        ResultMode::Json => match data {
            JsonModel::Null => RenderingModel::Nothing,
            JsonModel::Text(text) => RenderingModel::Line(text),
            _ => RenderingModel::Line(pretty_json(data)),
        },
        ResultMode::Browsers => RenderingModel::Browsers(data),
        ResultMode::Status => RenderingModel::Status(data),
    }
}

/// Decides what to print of a result.
pub fn render_result(data: &Value, result_mode: ResultMode) -> (outcome: Result<
    Rendering,
    CliError,
>)
    ensures
        match outcome {
            Ok(rendering) => rendering@ == rendered(json_of(*data), result_mode),
            Err(_) => false,
        },
{
    match result_mode {
        ResultMode::Silent => Ok(Rendering::Nothing),
        ResultMode::Json => {
            if is_null(data) {
                return Ok(Rendering::Nothing);
            }
            if let Some(text) = as_text(data) {
                return Ok(Rendering::Line(text.to_string()));
            }
            match write_pretty(data) {
                Ok(text) => Ok(Rendering::Line(text)),
                Err(error) => Err(CliError::Json(error)),
            }
        },
        ResultMode::Browsers => Ok(Rendering::Browsers(copy_value(data))),
        ResultMode::Status => Ok(Rendering::Status(copy_value(data))),
    }
}

// ---------------------------------------------------------------------------
// The stream of responses
// ---------------------------------------------------------------------------

/// What to do about a response: print to the standard output or error, show a
/// result, pass over it, or end with an exit code and perhaps a last line on
/// the standard error.
#[derive(Debug)]
pub enum StreamAction {
    PrintOut(String),
    PrintError(String),
    Show(Rendering),
    Skip,
    Finish { error: Option<String>, code: i32 },
}

/// What to do about a response.
pub enum StreamModel {
    PrintOut(Seq<char>),
    PrintError(Seq<char>),
    Show(RenderingModel),
    Skip,
    Finish { error: Option<Seq<char>>, code: i32 },
}

impl View for StreamAction {
    type V = StreamModel;

    open spec fn view(&self) -> StreamModel {
        match self {
            StreamAction::PrintOut(data) => StreamModel::PrintOut(data@),
            StreamAction::PrintError(data) => StreamModel::PrintError(data@),
            StreamAction::Show(rendering) => StreamModel::Show(rendering@),
            StreamAction::Skip => StreamModel::Skip,
            StreamAction::Finish { error, code } => StreamModel::Finish {
                error: match error {
                    Some(message) => Some(message@),
                    None => None,
                },
                code: *code,
            },
        }
    }
}

/// The text of a member.
pub open spec fn text_member(message: JsonModel, key: Seq<char>) -> Option<Seq<char>> {
    match member_of(message, key) {
        Some(member) => text_in(member),
        None => None,
    }
}

/// What to do about a message of the daemon.
pub open spec fn responded(message: JsonModel, mode: ResultMode) -> StreamModel {
    match text_member(message, "type"@) {
        Some(word) => if word == "stdout"@ {
            match text_member(message, "data"@) {
                Some(data) => StreamModel::PrintOut(data),
                None => StreamModel::Skip,
            }
        } else if word == "stderr"@ {
            match text_member(message, "data"@) {
                Some(data) => StreamModel::PrintError(data),
                None => StreamModel::Skip,
            }
        } else if word == "result"@ {
            match member_of(message, "data"@) {
                Some(data) => StreamModel::Show(rendered(data, mode)),
                None => StreamModel::Skip,
            }
        } else if word == "complete"@ {
            StreamModel::Finish { error: None, code: code_of(ExitCode::Success) }
        } else if word == "error"@ {
            StreamModel::Finish {
                error: Some(
                    match text_member(message, "message"@) {
                        Some(text) => text,
                        None => "Unknown daemon error"@,
                    },
                ),
                code: code_of(ExitCode::Upstream),
            }
        } else {
            StreamModel::Skip
        },
        None => StreamModel::Skip,
    }
}

fn member_text(message: &Value, key: &str) -> (text: Option<String>)
    ensures
        option_view(text) == text_member(json_of(*message), key@),
{
    match get_member(message, key) {
        Some(member) => match as_text(member) {
            Some(text) => Some(text.to_string()),
            None => None,
        },
        None => None,
    }
}

/// Decides what to do about a message of the daemon.
pub fn respond(message: &Value, result_mode: ResultMode) -> (outcome: Result<
    StreamAction,
    CliError,
>)
    ensures
        match outcome {
            Ok(action) => action@ == responded(json_of(*message), result_mode),
            Err(_) => false,
        },
{
    let word = match member_text(message, "type") {
        Some(word) => word,
        None => {
            return Ok(StreamAction::Skip);
        },
    };
    if same_text(&word, "stdout") {
        match member_text(message, "data") {
            Some(data) => Ok(StreamAction::PrintOut(data)),
            None => Ok(StreamAction::Skip),
        }
    } else if same_text(&word, "stderr") {
        match member_text(message, "data") {
            Some(data) => Ok(StreamAction::PrintError(data)),
            None => Ok(StreamAction::Skip),
        }
    } else if same_text(&word, "result") {
        match get_member(message, "data") {
            Some(data) => match render_result(data, result_mode) {
                Ok(rendering) => Ok(StreamAction::Show(rendering)),
                Err(error) => Err(error),
            },
            None => Ok(StreamAction::Skip),
        }
    } else if same_text(&word, "complete") {
        Ok(StreamAction::Finish { error: None, code: ExitCode::Success.code() })
    } else if same_text(&word, "error") {
        let text = match member_text(message, "message") {
            Some(text) => text,
            None => "Unknown daemon error".to_string(),
        };
        Ok(StreamAction::Finish { error: Some(text), code: ExitCode::Upstream.code() })
    } else {
        Ok(StreamAction::Skip)
    }
}

/// What to do about a line that was read from the daemon.
pub open spec fn line_responded(
    line: Seq<char>,
    log_path: Result<Seq<u8>, IoModel>,
    mode: ResultMode,
) -> Result<StreamModel, ErrorModel> {
    match line_outcome(line, log_path) {
        Ok(line) => match parsed_json(end_trimmed(line)) {
            Ok(message) => Ok(responded(message, mode)),
            Err(words) => Err(ErrorModel::Json(words)),
        },
        Err(error) => Err(ErrorModel::Io(error)),
    }
}

/// Decides what to do about a line that was read from the daemon.
pub fn stream_responses(
    line: String,
    log_path: &Result<FilePath, IoError>,
    result_mode: ResultMode,
) -> (outcome: Result<StreamAction, CliError>)
    ensures
        match outcome {
            Ok(action) => line_responded(line@, located(*log_path), result_mode) == Ok::<
                StreamModel,
                ErrorModel,
            >(action@),
            Err(error) => line_responded(line@, located(*log_path), result_mode) == Err::<
                StreamModel,
                ErrorModel,
            >(error@),
        },
{
    match read_line(line, log_path) {
        Ok(text) => match read_message(&text) {
            Ok(message) => respond(&message, result_mode),
            Err(error) => Err(error),
        },
        Err(error) => Err(CliError::Io(error)),
    }
}

/// The stream ends successfully exactly with a message that says so, and with
/// the code for a failure of the daemon exactly with an error message. No
/// other message ends it.
pub proof fn law_stream_ends_as_the_daemon_says(message: JsonModel, mode: ResultMode)
    ensures
        ({
            let word = text_member(message, "type"@);
            let action = responded(message, mode);
            &&& action is Finish <==> word == Some("complete"@) || word == Some("error"@)
            &&& (action matches StreamModel::Finish { code, .. } && code == code_of(
                ExitCode::Success,
            )) <==> word == Some("complete"@)
            &&& (action matches StreamModel::Finish { code, .. } && code == code_of(
                ExitCode::Upstream,
            )) <==> word == Some("error"@)
        }),
{
    reveal_strlit("stdout");
    reveal_strlit("stderr");
    reveal_strlit("result");
    reveal_strlit("complete");
    reveal_strlit("error");
    assert("complete"@.len() == 8);
    assert("error"@.len() == 5);
    assert("stdout"@.len() == 6 && "stderr"@.len() == 6 && "result"@.len() == 6);
}

/// What a script prints is passed on as it is, to where the script sent it.
pub proof fn law_output_is_passed_on(message: JsonModel, mode: ResultMode, data: Seq<char>)
    requires
        text_member(message, "data"@) == Some(data),
    ensures
        text_member(message, "type"@) == Some("stdout"@) ==> responded(message, mode)
            == StreamModel::PrintOut(data),
        text_member(message, "type"@) == Some("stderr"@) ==> responded(message, mode)
            == StreamModel::PrintError(data),
{
    reveal_strlit("stdout");
    reveal_strlit("stderr");
    assert("stdout"@[3] == 'o');
    assert("stderr"@[3] == 'e');
}

// ---------------------------------------------------------------------------
// The browsers and the status
// ---------------------------------------------------------------------------

/// A browser that the daemon manages.
#[derive(Debug)]
pub struct BrowserSummary {
    pub name: String,
    pub kind: String,
    pub status: String,
    pub pages: Vec<String>,
}

/// A browser that the daemon manages.
pub struct BrowserModel {
    pub name: Seq<char>,
    pub kind: Seq<char>,
    pub status: Seq<char>,
    pub pages: Seq<Seq<char>>,
}

impl View for BrowserSummary {
    type V = BrowserModel;

    open spec fn view(&self) -> BrowserModel {
        BrowserModel {
            name: self.name@,
            kind: self.kind@,
            status: self.status@,
            pages: texts(self.pages@),
        }
    }
}

/// The views of a list of browsers.
pub open spec fn browser_views(browsers: Seq<BrowserSummary>) -> Seq<BrowserModel> {
    Seq::new(browsers.len(), |i: int| browsers[i]@)
}

/// The names of the pages of a browser in one text.
pub open spec fn pages_text(pages: Seq<Seq<char>>) -> Seq<char> {
    if pages.len() == 0 {
        "-"@
    } else {
        joined(pages, ", "@)
    }
}

/// The larger of two numbers.
pub open spec fn larger(a: nat, b: nat) -> nat {
    if a >= b {
        a
    } else {
        b
    }
}

/// The width of a column: the bytes of its longest cell, or of its heading.
pub open spec fn column_width(cells: Seq<Seq<char>>, heading: Seq<char>) -> nat
    decreases cells.len(),
{
    if cells.len() == 0 {
        bytes_of(heading).len()
    } else {
        larger(column_width(cells.drop_last(), heading), bytes_of(cells.last()).len())
    }
}

/// The cells of the first column.
pub open spec fn names_of(browsers: Seq<BrowserModel>) -> Seq<Seq<char>> {
    browsers.map_values(|browser: BrowserModel| browser.name)
}

/// The cells of the second column.
pub open spec fn kinds_of(browsers: Seq<BrowserModel>) -> Seq<Seq<char>> {
    browsers.map_values(|browser: BrowserModel| browser.kind)
}

/// The cells of the third column.
pub open spec fn statuses_of(browsers: Seq<BrowserModel>) -> Seq<Seq<char>> {
    browsers.map_values(|browser: BrowserModel| browser.status)
}

/// A row of the table.
pub open spec fn table_row(
    cells: (Seq<char>, Seq<char>, Seq<char>, Seq<char>),
    widths: (nat, nat, nat),
) -> Seq<char> {
    left_aligned(cells.0, widths.0) + "  "@ + left_aligned(cells.1, widths.1) + "  "@
        + left_aligned(cells.2, widths.2) + "  "@ + cells.3
}

/// The widths of the columns.
pub open spec fn table_widths(browsers: Seq<BrowserModel>) -> (nat, nat, nat) {
    (
        column_width(names_of(browsers), "NAME"@),
        column_width(kinds_of(browsers), "TYPE"@),
        column_width(statuses_of(browsers), "STATUS"@),
    )
}

/// The row of a browser.
pub open spec fn browser_row(browser: BrowserModel, widths: (nat, nat, nat)) -> Seq<char> {
    table_row((browser.name, browser.kind, browser.status, pages_text(browser.pages)), widths)
}

/// The table of the browsers.
pub open spec fn browser_lines(browsers: Seq<BrowserModel>) -> Seq<Seq<char>> {
    if browsers.len() == 0 {
        seq!["No browsers."@]
    } else {
        let widths = table_widths(browsers);
        seq![table_row(("NAME"@, "TYPE"@, "STATUS"@, "PAGES"@), widths)] + browsers.map_values(
            |browser: BrowserModel| browser_row(browser, widths),
        )
    }
}

fn text_width(text: &str) -> (width: usize)
    ensures
        width == bytes_of(text@).len(),
{
    text.as_bytes().len()
}

fn wider(width: usize, cell: &str) -> (result: usize)
    ensures
        result == larger(width as nat, bytes_of(cell@).len()),
{
    let cell_width = text_width(cell);
    if width >= cell_width {
        width
    } else {
        cell_width
    }
}

fn row_text(cells: (&str, &str, &str, &str), widths: (usize, usize, usize)) -> (line: String)
    ensures
        line@ == table_row(
            (cells.0@, cells.1@, cells.2@, cells.3@),
            (widths.0 as nat, widths.1 as nat, widths.2 as nat),
        ),
{
    let mut line = align_left(cells.0, widths.0);
    line.append("  ");
    line.append(&align_left(cells.1, widths.1));
    line.append("  ");
    line.append(&align_left(cells.2, widths.2));
    line.append("  ");
    line.append(cells.3);
    line
}

fn widths_for(browsers: &Vec<BrowserSummary>) -> (widths: (usize, usize, usize))
    ensures
        table_widths(browser_views(browsers@)) == (
            widths.0 as nat,
            widths.1 as nat,
            widths.2 as nat,
        ),
{
    let ghost all = browser_views(browsers@);
    let mut name_width: usize = text_width("NAME");
    let mut type_width: usize = text_width("TYPE");
    let mut status_width: usize = text_width("STATUS");
    let mut i: usize = 0;
    while i < browsers.len()
        invariant
            i <= browsers@.len(),
            all == browser_views(browsers@),
            table_widths(all.take(i as int)) == (
                name_width as nat,
                type_width as nat,
                status_width as nat,
            ),
        decreases browsers@.len() - i,
    {
        let browser = &browsers[i];
        proof {
            let before = all.take(i as int);
            let after = all.take(i + 1);
            assert(names_of(after).drop_last() =~= names_of(before));
            assert(kinds_of(after).drop_last() =~= kinds_of(before));
            assert(statuses_of(after).drop_last() =~= statuses_of(before));
        }
        name_width = wider(name_width, &browser.name);
        type_width = wider(type_width, &browser.kind);
        status_width = wider(status_width, &browser.status);
        i = i + 1;
    }
    proof {
        assert(all.take(all.len() as int) =~= all);
    }
    (name_width, type_width, status_width)
}

/// Shows the browsers as a table.
pub fn print_browsers(browsers: &Vec<BrowserSummary>) -> (lines: Vec<String>)
    ensures
        texts(lines@) == browser_lines(browser_views(browsers@)),
{
    let ghost expected = browser_lines(browser_views(browsers@));
    let mut lines: Vec<String> = Vec::new();
    if browsers.len() == 0 {
        lines.push("No browsers.".to_string());
        proof {
            assert(texts(lines@) =~= expected);
        }
        return lines;
    }
    let widths = widths_for(browsers);
    let ghost columns = table_widths(browser_views(browsers@));
    let title = row_text(("NAME", "TYPE", "STATUS", "PAGES"), widths);
    let ghost heading = title@;
    lines.push(title);
    let mut i: usize = 0;
    while i < browsers.len()
        invariant
            i <= browsers@.len(),
            columns == (widths.0 as nat, widths.1 as nat, widths.2 as nat),
            lines@.len() == i + 1,
            lines@[0]@ == heading,
            forall|j: int|
                0 <= j < i ==> (#[trigger] lines@[j + 1])@ == browser_row(browsers@[j]@, columns),
        decreases browsers@.len() - i,
    {
        let browser = &browsers[i];
        let pages = if browser.pages.len() == 0 {
            "-".to_string()
        } else {
            join(&browser.pages, ", ")
        };
        lines.push(row_text((&browser.name, &browser.kind, &browser.status, &pages), widths));
        i = i + 1;
    }
    proof {
        assert forall|j: int| 0 <= j < lines@.len() implies (#[trigger] texts(lines@)[j])
            == expected[j] by {
            if 0 < j {
                assert(lines@[(j - 1) + 1]@ == browser_row(browsers@[j - 1]@, columns));
            }
        }
        assert(texts(lines@) =~= expected);
    }
    lines
}

/// What the daemon tells of itself.
#[derive(Debug)]
pub struct StatusSummary {
    pub pid: i32,
    pub uptime_ms: u64,
    pub browser_count: usize,
    pub socket_path: String,
    pub browsers: Vec<BrowserSummary>,
}

/// The words on a browser in the status.
pub open spec fn managed_text(browser: BrowserModel) -> Seq<char> {
    browser.name + " ("@ + browser.kind + ", "@ + browser.status + ")"@
}

/// The lines of the status.
pub open spec fn status_lines(status: StatusSummary) -> Seq<Seq<char>> {
    seq![
        "PID: "@ + signed_decimal(status.pid as int),
        "Uptime: "@ + duration_text(status.uptime_ms as nat),
        "Browsers: "@ + decimal(status.browser_count as nat),
        "Socket: "@ + status.socket_path@,
    ] + (if status.browsers@.len() == 0 {
        seq![]
    } else {
        seq![
            "Managed: "@ + joined(
                browser_views(status.browsers@).map_values(
                    |browser: BrowserModel| managed_text(browser),
                ),
                ", "@,
            ),
        ]
    })
}

fn managed_texts(browsers: &Vec<BrowserSummary>) -> (list: Vec<String>)
    ensures
        texts(list@) == browser_views(browsers@).map_values(
            |browser: BrowserModel| managed_text(browser),
        ),
{
    let mut list: Vec<String> = Vec::new();
    let mut i: usize = 0;
    while i < browsers.len()
        invariant
            i <= browsers@.len(),
            list@.len() == i,
            forall|j: int| 0 <= j < i ==> (#[trigger] list@[j])@ == managed_text(browsers@[j]@),
        decreases browsers@.len() - i,
    {
        let browser = &browsers[i];
        let mut text = browser.name.clone();
        text.append(" (");
        text.append(&browser.kind);
        text.append(", ");
        text.append(&browser.status);
        text.append(")");
        list.push(text);
        i = i + 1;
    }
    proof {
        assert(texts(list@) =~= browser_views(browsers@).map_values(
            |browser: BrowserModel| managed_text(browser),
        ));
    }
    list
}

/// Shows the status of the daemon.
pub fn print_status(status: &StatusSummary) -> (lines: Vec<String>)
    ensures
        texts(lines@) == status_lines(*status),
{
    let mut lines: Vec<String> = Vec::new();
    let mut pid = "PID: ".to_string();
    pid.append(&signed_text(status.pid as i64));
    lines.push(pid);
    let mut uptime = "Uptime: ".to_string();
    uptime.append(&format_duration_ms(status.uptime_ms));
    lines.push(uptime);
    let mut count = "Browsers: ".to_string();
    count.append(&decimal_text(status.browser_count as u128));
    lines.push(count);
    let mut socket = "Socket: ".to_string();
    socket.append(&status.socket_path);
    lines.push(socket);
    if status.browsers.len() > 0 {
        let mut managed = "Managed: ".to_string();
        managed.append(&join(&managed_texts(&status.browsers), ", "));
        lines.push(managed);
    }
    proof {
        assert(texts(lines@) =~= status_lines(*status));
    }
    lines
}

/// The result of a request is shown as the mode says: not at all, as a table that
/// is still to be read from it, or as JSON, where a text stands for itself and
/// `null` for nothing.
pub proof fn law_results_are_shown_as_the_mode_says(data: JsonModel, mode: ResultMode)
    ensures
        mode is Silent ==> rendered(data, mode) is Nothing,
        mode is Browsers ==> rendered(data, mode) == RenderingModel::Browsers(data),
        mode is Status ==> rendered(data, mode) == RenderingModel::Status(data),
        mode is Json ==> {
            &&& rendered(data, mode) is Nothing <==> data is Null
            &&& data matches JsonModel::Text(text) ==> rendered(data, mode) == RenderingModel::Line(
                text,
            )
            &&& !(data is Null) && !(data is Text) ==> rendered(data, mode) == RenderingModel::Line(
                pretty_json(data),
            )
        },
{
}

/// A result that comes with data is shown, an error is told in its own words if it
/// has any, and a message that says nothing that is known is passed over.
pub proof fn law_every_message_is_answered(message: JsonModel, mode: ResultMode)
    ensures
        ({
            let word = text_member(message, "type"@);
            let action = responded(message, mode);
            &&& action is Show <==> word == Some("result"@) && member_of(message, "data"@) is Some
            &&& action is Show ==> action == StreamModel::Show(
                rendered(member_of(message, "data"@)->0, mode),
            )
            &&& action is PrintOut <==> word == Some("stdout"@) && text_member(message, "data"@)
                is Some
            &&& action is PrintError <==> word == Some("stderr"@) && text_member(
                message,
                "data"@,
            ) is Some
            &&& word == Some("error"@) ==> action == (StreamModel::Finish {
                error: Some(
                    match text_member(message, "message"@) {
                        Some(text) => text,
                        None => "Unknown daemon error"@,
                    },
                ),
                code: 4,
            })
            &&& word == Some("complete"@) ==> action == (StreamModel::Finish {
                error: None,
                code: 0,
            })
            &&& word is None ==> action is Skip
        }),
{
    reveal_strlit("stdout");
    reveal_strlit("stderr");
    reveal_strlit("result");
    reveal_strlit("complete");
    reveal_strlit("error");
    assert("complete"@.len() == 8);
    assert("error"@.len() == 5);
    assert("stdout"@.len() == 6 && "stderr"@.len() == 6 && "result"@.len() == 6);
    assert("stdout"@[3] == 'o');
    assert("stderr"@[3] == 'e');
    assert("result"@[0] == 'r');
    assert("stdout"@[0] == 's' && "stderr"@[0] == 's');
}

/// The text of a member is there exactly if the message is an object that has the
/// member and it is a text.
pub proof fn law_a_text_is_read_from_a_member(message: JsonModel, key: Seq<char>, text: Seq<char>)
    ensures
        text_member(message, key) == Some(text) <==> (message matches JsonModel::Object(members)
            && members.contains_key(key) && members[key] == JsonModel::Text(text)),
{
}

/// A line that carries a message is answered as that message is, whatever white
/// space it ends with; one that carries none is an error of JSON, and nothing at
/// all is the end of the connection.
pub proof fn law_a_line_is_answered_as_its_message(
    line: Seq<char>,
    log_path: Result<Seq<u8>, IoModel>,
    mode: ResultMode,
)
    ensures
        line.len() == 0 ==> (line_responded(line, log_path, mode) matches Err(error) && (
        error matches ErrorModel::Io(failure) && failure.kind is UnexpectedEof)),
        line.len() > 0 ==> match parsed_json(end_trimmed(line)) {
            Ok(message) => line_responded(line, log_path, mode) == Ok::<StreamModel, ErrorModel>(
                responded(message, mode),
            ),
            Err(words) => line_responded(line, log_path, mode) == Err::<StreamModel, ErrorModel>(
                ErrorModel::Json(words),
            ),
        },
{
}

/// Whether a cell stands in a line, from the given position on.
pub open spec fn stands_at(line: Seq<char>, at: int, cell: Seq<char>) -> bool {
    &&& 0 <= at <= line.len() - cell.len()
    &&& line.subrange(at, at + cell.len()) == cell
}

/// Whether the four columns of the table of the browsers start at the first
/// position and at the given ones, in every line.
pub open spec fn columns_start_at(
    lines: Seq<Seq<char>>,
    browsers: Seq<BrowserModel>,
    second: int,
    third: int,
    fourth: int,
) -> bool {
    &&& stands_at(lines[0], 0, "NAME"@) && stands_at(lines[0], second, "TYPE"@)
    &&& stands_at(lines[0], third, "STATUS"@) && stands_at(lines[0], fourth, "PAGES"@)
    &&& forall|i: int|
        0 <= i < browsers.len() ==> {
            let line = lines[i + 1];
            let browser = #[trigger] browsers[i];
            let pages = if browser.pages.len() == 0 {
                "-"@
            } else {
                joined(browser.pages, ", "@)
            };
            &&& stands_at(line, 0, browser.name) && stands_at(line, second, browser.kind)
            &&& stands_at(line, third, browser.status) && stands_at(line, fourth, pages)
            &&& line.len() == fourth + pages.len()
        }
}

proof fn lemma_bytes_are_no_fewer(text: Seq<char>)
    ensures
        bytes_of(text).len() >= text.len(),
    decreases text.len(),
{
    if text.len() > 0 {
        lemma_bytes_are_no_fewer(text.drop_first());
    }
}

/// A column is as wide as its widest cell, or as its heading if that is wider.
pub proof fn law_a_column_is_as_wide_as_its_widest_cell(cells: Seq<Seq<char>>, heading: Seq<char>)
    ensures
        column_width(cells, heading) >= bytes_of(heading).len() >= heading.len(),
        forall|i: int|
            0 <= i < cells.len() ==> column_width(cells, heading) >= bytes_of(
                #[trigger] cells[i],
            ).len() >= cells[i].len(),
        column_width(cells, heading) == bytes_of(heading).len() || exists|i: int|
            0 <= i < cells.len() && column_width(cells, heading) == bytes_of(
                #[trigger] cells[i],
            ).len(),
    decreases cells.len(),
{
    lemma_bytes_are_no_fewer(heading);
    if cells.len() > 0 {
        let before = cells.drop_last();
        let last = cells.len() - 1;
        law_a_column_is_as_wide_as_its_widest_cell(before, heading);
        lemma_bytes_are_no_fewer(cells.last());
        assert(cells[last] == cells.last());
        assert forall|i: int| 0 <= i < cells.len() implies column_width(cells, heading) >= bytes_of(
            #[trigger] cells[i],
        ).len() >= cells[i].len() by {
            if i < last {
                assert(before[i] == cells[i]);
            }
        }
        if column_width(cells, heading) == column_width(before, heading) && column_width(
            cells,
            heading,
        ) != bytes_of(heading).len() {
            let i = choose|i: int|
                0 <= i < before.len() && column_width(before, heading) == bytes_of(
                    #[trigger] before[i],
                ).len();
            assert(cells[i] == before[i]);
        }
    }
}

proof fn lemma_row(
    cells: (Seq<char>, Seq<char>, Seq<char>, Seq<char>),
    widths: (nat, nat, nat),
)
    requires
        cells.0.len() <= widths.0,
        cells.1.len() <= widths.1,
        cells.2.len() <= widths.2,
    ensures
        ({
            let line = table_row(cells, widths);
            let second = widths.0 + 2;
            let third = second + widths.1 + 2;
            let fourth = third + widths.2 + 2;
            &&& stands_at(line, 0, cells.0) && stands_at(line, second as int, cells.1)
            &&& stands_at(line, third as int, cells.2) && stands_at(line, fourth as int, cells.3)
            &&& line.len() == fourth + cells.3.len()
        }),
{
    reveal_strlit("  ");
    let gap = "  "@;
    let a = left_aligned(cells.0, widths.0);
    let b = left_aligned(cells.1, widths.1);
    let c = left_aligned(cells.2, widths.2);
    assert(a.len() == widths.0 && b.len() == widths.1 && c.len() == widths.2 && gap.len() == 2);
    let line = table_row(cells, widths);
    let second = (widths.0 + 2) as int;
    let third = second + widths.1 + 2;
    let fourth = third + widths.2 + 2;
    assert(line == a + gap + b + gap + c + gap + cells.3);
    assert(line.len() == fourth + cells.3.len());
    assert(line.subrange(0, cells.0.len() as int) =~= cells.0);
    assert(line.subrange(second, second + cells.1.len()) =~= cells.1);
    assert(line.subrange(third, third + cells.2.len()) =~= cells.2);
    assert(line.subrange(fourth, fourth + cells.3.len()) =~= cells.3);
}

/// The table of the browsers has a heading and a line for each of them, in their
/// order, and its columns line up: the name, the type, the status and the pages of
/// every browser stand below their headings.
pub proof fn law_the_columns_line_up(browsers: Seq<BrowserModel>)
    requires
        browsers.len() > 0,
    ensures
        browser_lines(browsers).len() == browsers.len() + 1,
        exists|second: int, third: int, fourth: int| #[trigger]
            columns_start_at(browser_lines(browsers), browsers, second, third, fourth),
{
    let lines = browser_lines(browsers);
    let widths = table_widths(browsers);
    let second = (widths.0 + 2) as int;
    let third = second + widths.1 + 2;
    let fourth = third + widths.2 + 2;
    law_a_column_is_as_wide_as_its_widest_cell(names_of(browsers), "NAME"@);
    law_a_column_is_as_wide_as_its_widest_cell(kinds_of(browsers), "TYPE"@);
    law_a_column_is_as_wide_as_its_widest_cell(statuses_of(browsers), "STATUS"@);
    lemma_row(("NAME"@, "TYPE"@, "STATUS"@, "PAGES"@), widths);
    assert forall|i: int| 0 <= i < browsers.len() implies {
        let line = lines[i + 1];
        let browser = #[trigger] browsers[i];
        let pages = if browser.pages.len() == 0 {
            "-"@
        } else {
            joined(browser.pages, ", "@)
        };
        &&& stands_at(line, 0, browser.name) && stands_at(line, second, browser.kind)
        &&& stands_at(line, third, browser.status) && stands_at(line, fourth, pages)
        &&& line.len() == fourth + pages.len()
    } by {
        let browser = browsers[i];
        assert(names_of(browsers)[i] == browser.name);
        assert(kinds_of(browsers)[i] == browser.kind);
        assert(statuses_of(browsers)[i] == browser.status);
        assert(lines[i + 1] == browser_row(browser, widths));
        lemma_row(
            (browser.name, browser.kind, browser.status, pages_text(browser.pages)),
            widths,
        );
    }
    assert(columns_start_at(lines, browsers, second, third, fourth));
}

/// Without any browsers a single line says so.
pub proof fn law_no_browsers_is_said()
    ensures
        browser_lines(Seq::empty()) == seq!["No browsers."@],
{
}

/// The status tells the process, how long it has been running, how many browsers
/// there are and where it listens; and, if there are any, each browser with its
/// type and status.
pub proof fn law_the_status_tells_everything(status: StatusSummary)
    ensures
        ({
            let lines = status_lines(status);
            &&& lines.len() == if status.browsers@.len() == 0 {
                4nat
            } else {
                5nat
            }
            &&& lines[0] == "PID: "@ + signed_decimal(status.pid as int)
            &&& lines[1] == "Uptime: "@ + duration_text(status.uptime_ms as nat)
            &&& lines[2] == "Browsers: "@ + decimal(status.browser_count as nat)
            &&& lines[3] == "Socket: "@ + status.socket_path@
            &&& status.browsers@.len() > 0 ==> lines[4] == "Managed: "@ + joined(
                Seq::new(
                    status.browsers@.len(),
                    |i: int|
                        status.browsers@[i].name@ + " ("@ + status.browsers@[i].kind@ + ", "@
                            + status.browsers@[i].status@ + ")"@,
                ),
                ", "@,
            )
        }),
{
    let named = Seq::new(
        status.browsers@.len(),
        |i: int|
            status.browsers@[i].name@ + " ("@ + status.browsers@[i].kind@ + ", "@
                + status.browsers@[i].status@ + ")"@,
    );
    assert(browser_views(status.browsers@).map_values(
        |browser: BrowserModel| managed_text(browser),
    ) =~= named);
}

/// What is printed and what is done about a message are modelled by what they are
/// made of.
pub proof fn law_answers_are_modelled_by_what_they_hold(
    text: String,
    data: Value,
    rendering: Rendering,
    code: i32,
    browser: BrowserSummary,
)
    ensures
        Rendering::Nothing@ is Nothing,
        Rendering::Line(text)@ == RenderingModel::Line(text@),
        Rendering::Browsers(data)@ == RenderingModel::Browsers(json_of(data)),
        Rendering::Status(data)@ == RenderingModel::Status(json_of(data)),
        StreamAction::PrintOut(text)@ == StreamModel::PrintOut(text@),
        StreamAction::PrintError(text)@ == StreamModel::PrintError(text@),
        StreamAction::Show(rendering)@ == StreamModel::Show(rendering@),
        StreamAction::Skip@ is Skip,
        (StreamAction::Finish { error: None, code })@ == (StreamModel::Finish { error: None, code }),
        (StreamAction::Finish { error: Some(text), code })@ == (StreamModel::Finish {
            error: Some(text@),
            code,
        }),
        browser@.name == browser.name@,
        browser@.kind == browser.kind@,
        browser@.status == browser.status@,
        browser@.pages == texts(browser.pages@),
{
}

} // verus!
