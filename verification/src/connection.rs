//! Where the daemon listens, and the lines that go to it and come from it.

use serde_json::Value;
use vstd::prelude::*;
use vstd::string::*;

use crate::exit_code::{CliError, ErrorModel, IoError, IoErrorKind, IoModel};
use crate::json::{
    compact_json, json_of, parse_json, parsed_json, reads_back, write_compact, JsonModel,
};
use crate::paths::{
    bytes_of, joined_path, law_join_adds_one_part, lossy_text, may_be_home, path_parts,
    text_from_bytes, user_home, windows_path_name, FilePath, PathPart,
};
use crate::text::{
    chars_of, end_trimmed, is_white_space, option_view, trim, trim_end, trimmed,
};

verus! {

/// The path that an outcome holds, by its bytes.
pub open spec fn path_outcome(outcome: Result<FilePath, String>) -> Result<Seq<u8>, Seq<char>> {
    match outcome {
        Ok(path) => Ok(path@),
        Err(message) => Err(message@),
    }
}

/// The path that an outcome holds, by its bytes, or its failure.
pub open spec fn located(outcome: Result<FilePath, IoError>) -> Result<Seq<u8>, IoModel> {
    match outcome {
        Ok(path) => Ok(path@),
        Err(error) => Err(error@),
    }
}

/// An optional path, by its bytes.
pub open spec fn optional_path(path: Option<FilePath>) -> Option<Seq<u8>> {
    match path {
        Some(path) => Some(path@),
        None => None,
    }
}

/// The socket of the daemon, given the home directory.
pub open spec fn socket_outcome(home: Option<Seq<u8>>) -> Result<Seq<u8>, IoModel> {
    match home {
        Some(home) => Ok(
            joined_path(joined_path(home, bytes_of(".dev-browser"@)), bytes_of("daemon.sock"@)),
        ),
        None => Err(
            IoModel {
                kind: IoErrorKind::NotFound,
                message: "Could not determine home directory"@,
            },
        ),
    }
}

/// The socket of the daemon in the given home directory.
pub fn socket_path_in(home: Option<FilePath>) -> (outcome: Result<FilePath, IoError>)
    ensures
        located(outcome) == socket_outcome(optional_path(home)),
{
    match home {
        Some(home) => Ok(home.join(".dev-browser").join("daemon.sock")),
        None => Err(
            IoError {
                kind: IoErrorKind::NotFound,
                message: "Could not determine home directory".to_string(),
            },
        ),
    }
}

/// The socket of the daemon in the user's home directory.
pub fn socket_path() -> (outcome: Result<FilePath, IoError>)
    ensures
        exists|home: Option<Seq<u8>>|
            may_be_home(home) && located(outcome) == #[trigger] socket_outcome(home),
{
    let home = user_home();
    let ghost found = optional_path(home);
    let outcome = socket_path_in(home);
    proof {
        assert(located(outcome) == socket_outcome(found));
    }
    outcome
}

/// The characters that may stand in the name of a pipe.
pub open spec fn is_pipe_char(c: char) -> bool {
    ||| 'a' <= c <= 'z'
    ||| 'A' <= c <= 'Z'
    ||| '0' <= c <= '9'
    ||| c == '.'
    ||| c == '_'
    ||| c == '-'
}

/// A character of a name, or a dash in its place, without capitals.
pub open spec fn pipe_char(c: char) -> char {
    if 'A' <= c <= 'Z' {
        (c as u32 + 32) as char
    } else if is_pipe_char(c) {
        c
    } else {
        '-'
    }
}

/// `text` with every character replaced by the one that may stand for it.
pub open spec fn pipe_chars(text: Seq<char>) -> Seq<char> {
    Seq::new(text.len(), |i: int| pipe_char(text[i]))
}

/// `text` without the dashes that it starts with.
pub open spec fn without_leading_dashes(text: Seq<char>) -> Seq<char>
    decreases text.len(),
{
    if text.len() > 0 && text[0] == '-' {
        without_leading_dashes(text.drop_first())
    } else {
        text
    }
}

/// `text` without the dashes that it ends with.
pub open spec fn without_trailing_dashes(text: Seq<char>) -> Seq<char>
    decreases text.len(),
{
    if text.len() > 0 && text.last() == '-' {
        without_trailing_dashes(text.drop_last())
    } else {
        text
    }
}

/// A text as a segment of the name of a pipe.
pub open spec fn pipe_segment(text: Seq<char>) -> Seq<char> {
    let segment = without_trailing_dashes(without_leading_dashes(pipe_chars(text)));
    if segment.len() == 0 {
        "user"@
    } else {
        segment
    }
}

fn pipe_char_of(c: char) -> (character: char)
    ensures
        character == pipe_char(c),
{
    if 'A' <= c && c <= 'Z' {
        (c as u8 + 32) as char
    } else if ('a' <= c && c <= 'z') || ('0' <= c && c <= '9') || c == '.' || c == '_' || c == '-' {
        c
    } else {
        '-'
    }
}

/// Makes a text fit for the name of a pipe: other characters than ASCII
/// letters, digits, `.`, `_` and `-` become dashes, dashes around the rest are
/// dropped, letters are lowered, and nothing at all becomes `user`.
pub fn sanitize_pipe_segment(value: &str) -> (segment: String)
    ensures
        segment@ == pipe_segment(value@),
{
    let chars = chars_of(value);
    let count: usize = chars.len();
    let ghost mapped = pipe_chars(value@);
    let mut start: usize = 0;
    proof {
        assert(mapped.skip(0) =~= mapped);
    }
    while start < count && pipe_char_of(chars[start]) == '-'
        invariant
            start <= count,
            count == chars@.len(),
            chars@ == value@,
            mapped == pipe_chars(value@),
            without_leading_dashes(mapped.skip(start as int)) == without_leading_dashes(mapped),
        decreases count - start,
    {
        proof {
            assert(mapped.skip(start as int).drop_first() =~= mapped.skip(start + 1));
        }
        start = start + 1;
    }
    let mut end: usize = count;
    let ghost rest = mapped.skip(start as int);
    proof {
        assert(rest.take(rest.len() as int) =~= rest);
    }
    while end > start && pipe_char_of(chars[end - 1]) == '-'
        invariant
            start <= end <= count,
            count == chars@.len(),
            chars@ == value@,
            mapped == pipe_chars(value@),
            rest == mapped.skip(start as int),
            without_trailing_dashes(rest.take(end - start)) == without_trailing_dashes(rest),
        decreases end,
    {
        proof {
            assert(rest.take(end - start).drop_last() =~= rest.take(end - start - 1));
            assert(rest.take(end - start).last() == pipe_char(chars@[end - 1]));
        }
        end = end - 1;
    }
    if start == end {
        return "user".to_string();
    }
    let mut segment = String::new();
    let mut i: usize = start;
    while i < end
        invariant
            start <= i <= end <= count,
            count == chars@.len(),
            chars@ == value@,
            mapped == pipe_chars(value@),
            segment@ == mapped.subrange(start as int, i as int),
        decreases end - i,
    {
        segment.push(pipe_char_of(chars[i]));
        i = i + 1;
        proof {
            assert(segment@ =~= mapped.subrange(start as int, i as int));
        }
    }
    proof {
        assert(segment@ =~= rest.take(end - start));
    }
    segment
}

/// The user that a pipe is named after: what the environment says, if it is
/// not blank, else the name of the home directory, else `user`. Only Windows
/// has such pipes, so that the home directory is a path of Windows.
pub open spec fn pipe_user(
    username: Option<Seq<char>>,
    user: Option<Seq<char>>,
    home: Option<Seq<u8>>,
) -> Seq<char> {
    let stated = match username {
        Some(name) => Some(name),
        None => user,
    };
    let from_home = match home {
        Some(home) => match windows_path_name(home) {
            Some(name) => lossy_text(name),
            None => "user"@,
        },
        None => "user"@,
    };
    match stated {
        Some(name) => if trimmed(name).len() > 0 {
            name
        } else {
            from_home
        },
        None => from_home,
    }
}

fn user_from_home(home: &Option<FilePath>) -> (user: String)
    ensures
        user@ == pipe_user(None, None, optional_path(*home)),
{
    match home {
        Some(home) => match home.windows_file_name() {
            Some(name) => text_from_bytes(&name),
            None => "user".to_string(),
        },
        None => "user".to_string(),
    }
}

/// The name of the daemon's pipe, given what the environment says of the user.
pub fn daemon_pipe_name_for(
    username: Option<String>,
    user: Option<String>,
    home: Option<FilePath>,
) -> (name: String)
    ensures
        name@ == "dev-browser-daemon-"@ + pipe_segment(
            pipe_user(option_view(username), option_view(user), optional_path(home)),
        ),
{
    let stated = match username {
        Some(name) => Some(name),
        None => user,
    };
    let owner = match stated {
        Some(name) => if trim(&name).unicode_len() > 0 {
            name
        } else {
            user_from_home(&home)
        },
        None => user_from_home(&home),
    };
    let mut name = "dev-browser-daemon-".to_string();
    let segment = sanitize_pipe_segment(&owner);
    name.append(&segment);
    name
}

/// The name of the daemon's pipe for the user whose home directory it is.
pub fn daemon_pipe_name(username: Option<String>, user: Option<String>) -> (name: String)
    ensures
        exists|home: Option<Seq<u8>>|
            may_be_home(home) && name@ == "dev-browser-daemon-"@ + pipe_segment(
                #[trigger] pipe_user(option_view(username), option_view(user), home),
            ),
{
    let home = user_home();
    daemon_pipe_name_for(username, user, home)
}

/// The line by which a message is sent: the document on one line, and a line
/// feed. [`read_message`] gets the document back out of the line, unless there
/// are numbers with a fraction in it or it is nested too deep to be read.
pub fn send_message(message: &Value) -> (outcome: Result<String, CliError>)
    ensures
        match outcome {
            Ok(line) => {
                &&& line@ == compact_json(json_of(*message)).push('\n')
                &&& !line@.drop_last().contains('\n')
                &&& reads_back(json_of(*message)) ==> parsed_json(end_trimmed(line@)) == Ok::<
                    JsonModel,
                    Seq<char>,
                >(json_of(*message))
            },
            Err(_) => false,
        },
{
    match write_compact(message) {
        Ok(text) => {
            let ghost document = text@;
            let mut line = text;
            line.push('\n');
            proof {
                assert(line@.drop_last() =~= document);
                reveal_with_fuel(end_trimmed, 3);
                assert(!is_white_space(document.last()));
                assert(end_trimmed(line@) == document);
            }
            Ok(line)
        },
        Err(error) => Err(CliError::Json(error)),
    }
}

/// Reads the message that a line carries.
pub fn read_message(line: &str) -> (outcome: Result<Value, CliError>)
    ensures
        match outcome {
            Ok(message) => parsed_json(end_trimmed(line@)) == Ok::<JsonModel, Seq<char>>(
                json_of(message),
            ),
            Err(error) => match parsed_json(end_trimmed(line@)) {
                Ok(_) => false,
                Err(words) => error@ == ErrorModel::Json(words),
            },
        },
{
    let text = trim_end(line);
    match parse_json(&text) {
        Ok(message) => Ok(message),
        Err(error) => Err(CliError::Json(error)),
    }
}

/// What becomes of a line that was read: nothing read means that the daemon
/// went away, and the log is where to look.
pub open spec fn line_outcome(
    line: Seq<char>,
    log_path: Result<Seq<u8>, IoModel>,
) -> Result<Seq<char>, IoModel> {
    if line.len() > 0 {
        Ok(line)
    } else {
        Err(
            IoModel {
                kind: IoErrorKind::UnexpectedEof,
                message: "Daemon connection closed unexpectedly."@ + match log_path {
                    Ok(path) => " Check the daemon log for details: "@ + lossy_text(path),
                    Err(_) => Seq::empty(),
                },
            },
        )
    }
}

/// Accepts a line that was read from the daemon, or says that the connection
/// was closed if it is empty.
pub fn read_line(line: String, log_path: &Result<FilePath, IoError>) -> (outcome: Result<
    String,
    IoError,
>)
    ensures
        match outcome {
            Ok(text) => line_outcome(line@, located(*log_path)) == Ok::<Seq<char>, IoModel>(text@),
            Err(error) => line_outcome(line@, located(*log_path)) == Err::<Seq<char>, IoModel>(
                error@,
            ),
        },
{
    if line.as_str().unicode_len() > 0 {
        return Ok(line);
    }
    let mut hint = String::new();
    if let Ok(path) = log_path {
        hint = " Check the daemon log for details: ".to_string();
        hint.append(&path.display());
    }
    let mut message = "Daemon connection closed unexpectedly.".to_string();
    message.append(&hint);
    Err(IoError { kind: IoErrorKind::UnexpectedEof, message })
}

/// A line that a message was sent by is read as it is, wherever the log is.
pub proof fn law_a_sent_line_is_read(
    document: JsonModel,
    log_path: Result<Seq<u8>, IoModel>,
)
    ensures
        line_outcome(compact_json(document).push('\n'), log_path) == Ok::<Seq<char>, IoModel>(
            compact_json(document).push('\n'),
        ),
{
}

proof fn lemma_without_dashes(text: Seq<char>)
    ensures
        ({
            let rest = without_leading_dashes(text);
            &&& rest.len() <= text.len()
            &&& rest == text.skip(text.len() - rest.len())
            &&& rest.len() > 0 ==> rest[0] != '-'
        }),
        ({
            let rest = without_trailing_dashes(text);
            &&& rest.len() <= text.len()
            &&& rest == text.take(rest.len() as int)
            &&& rest.len() > 0 ==> rest.last() != '-'
        }),
    decreases text.len(),
{
    if text.len() > 0 && text[0] == '-' {
        lemma_without_dashes(text.drop_first());
        let rest = without_leading_dashes(text.drop_first());
        assert(text.drop_first().skip(text.len() - 1 - rest.len()) =~= text.skip(
            text.len() - rest.len(),
        ));
    } else {
        assert(text.skip(0) =~= text);
    }
    if text.len() > 0 && text.last() == '-' {
        lemma_without_dashes(text.drop_last());
        let rest = without_trailing_dashes(text.drop_last());
        assert(text.drop_last().take(rest.len() as int) =~= text.take(rest.len() as int));
    } else {
        assert(text.take(text.len() as int) =~= text);
    }
}

/// A segment of a pipe's name is never empty, holds only lower-case letters,
/// digits, `.`, `_` and `-`, and neither starts nor ends with a dash.
pub proof fn law_pipe_segment_is_clean(text: Seq<char>)
    ensures
        ({
            let segment = pipe_segment(text);
            &&& segment.len() > 0
            &&& segment[0] != '-'
            &&& segment.last() != '-'
            &&& forall|i: int|
                0 <= i < segment.len() ==> is_pipe_char(#[trigger] segment[i]) && !('A'
                    <= segment[i] <= 'Z')
        }),
{
    reveal_strlit("user");
    let mapped = pipe_chars(text);
    let rest = without_leading_dashes(mapped);
    let segment = without_trailing_dashes(rest);
    lemma_without_dashes(mapped);
    lemma_without_dashes(rest);
    if segment.len() > 0 {
        assert(segment[0] == rest[0]);
        assert forall|i: int| 0 <= i < segment.len() implies is_pipe_char(#[trigger] segment[i])
            && !('A' <= segment[i] <= 'Z') by {
            assert(segment[i] == rest[i]);
            assert(rest[i] == mapped[mapped.len() - rest.len() + i]);
        }
    }
}

/// Making a segment fit a second time changes nothing.
pub proof fn law_sanitizing_is_idempotent(text: Seq<char>)
    ensures
        pipe_segment(pipe_segment(text)) == pipe_segment(text),
{
    let segment = pipe_segment(text);
    law_pipe_segment_is_clean(text);
    assert(pipe_chars(segment) =~= segment);
}

/// The socket is `daemon.sock` in `.dev-browser` in the home directory; without a
/// home directory there is none to be found.
pub proof fn law_the_socket_is_under_dev_browser(home: Seq<u8>)
    ensures
        socket_outcome(Some(home)) is Ok,
        path_parts(socket_outcome(Some(home))->Ok_0) == path_parts(home).push(
            PathPart::Normal(bytes_of(".dev-browser"@)),
        ).push(PathPart::Normal(bytes_of("daemon.sock"@))),
        socket_outcome(None) is Err,
        socket_outcome(None)->Err_0.kind is NotFound,
        socket_outcome(None)->Err_0.message == "Could not determine home directory"@,
{
    reveal_strlit(".dev-browser");
    reveal_strlit("daemon.sock");
    vstd::utf8::is_ascii_chars_encode_utf8(".dev-browser"@);
    vstd::utf8::is_ascii_chars_encode_utf8("daemon.sock"@);
    law_join_adds_one_part(home, bytes_of(".dev-browser"@));
    law_join_adds_one_part(
        joined_path(home, bytes_of(".dev-browser"@)),
        bytes_of("daemon.sock"@),
    );
}

/// A name that starts and ends with a letter, a digit, a dot or an underscore
/// keeps its length: letters are lowered, digits, `.`, `_` and `-` are kept, and
/// anything else becomes a dash.
pub proof fn law_a_segment_keeps_the_name(text: Seq<char>)
    requires
        text.len() > 0,
        ('a' <= text[0] <= 'z') || ('A' <= text[0] <= 'Z') || ('0' <= text[0] <= '9') || text[0]
            == '.' || text[0] == '_',
        ('a' <= text.last() <= 'z') || ('A' <= text.last() <= 'Z') || ('0' <= text.last() <= '9')
            || text.last() == '.' || text.last() == '_',
    ensures
        pipe_segment(text).len() == text.len(),
        forall|i: int|
            0 <= i < text.len() ==> {
                let c = text[i];
                let kept = #[trigger] pipe_segment(text)[i];
                if ('a' <= c <= 'z') || ('0' <= c <= '9') || c == '.' || c == '_' {
                    kept == c
                } else if 'A' <= c <= 'Z' {
                    kept as int == c as int + 32
                } else {
                    kept == '-'
                }
            },
{
    let mapped = pipe_chars(text);
    assert(mapped[0] == pipe_char(text[0]));
    assert(mapped.last() == pipe_char(text.last()));
    assert(pipe_segment(text) == mapped);
}

proof fn lemma_leading_dashes_of_longer(text: Seq<char>)
    ensures
        without_leading_dashes(text).len() > 0 ==> without_leading_dashes(text.push('-'))
            == without_leading_dashes(text).push('-'),
        without_leading_dashes(text).len() == 0 ==> without_leading_dashes(text.push('-')).len()
            == 0,
    decreases text.len(),
{
    let longer = text.push('-');
    if text.len() == 0 {
        assert(longer.drop_first() =~= Seq::<char>::empty());
        assert(without_leading_dashes(longer.drop_first()).len() == 0);
    } else if text[0] == '-' {
        assert(longer[0] == '-');
        assert(longer.drop_first() =~= text.drop_first().push('-'));
        lemma_leading_dashes_of_longer(text.drop_first());
    } else {
        assert(longer[0] == text[0]);
    }
}

/// What cannot stand in the name of a pipe does not count at either end of a
/// name, nor does a dash, and a name of nothing else is `user`.
pub proof fn law_what_is_around_a_segment_is_dropped(text: Seq<char>, c: char)
    requires
        !(('a' <= c <= 'z') || ('A' <= c <= 'Z') || ('0' <= c <= '9') || c == '.' || c == '_'),
    ensures
        pipe_segment(seq![c] + text) == pipe_segment(text),
        pipe_segment(text.push(c)) == pipe_segment(text),
        pipe_segment(Seq::empty()) == "user"@,
{
    let mapped = pipe_chars(text);
    assert(pipe_chars(seq![c] + text) =~= seq!['-'] + mapped);
    assert((seq!['-'] + mapped).drop_first() =~= mapped);
    assert(pipe_chars(text.push(c)) =~= mapped.push('-'));
    lemma_leading_dashes_of_longer(mapped);
    let rest = without_leading_dashes(mapped);
    if rest.len() > 0 {
        assert(rest.push('-').drop_last() =~= rest);
    } else {
        assert(without_leading_dashes(mapped.push('-')) =~= rest);
    }
}

/// A pipe is named after the user that the environment states first, unless that
/// is blank, and else after the last part of the home directory.
pub proof fn law_a_pipe_is_named_after_its_user(
    name: Seq<char>,
    other: Option<Seq<char>>,
    home: Option<Seq<u8>>,
)
    ensures
        trimmed(name).len() > 0 ==> pipe_user(Some(name), other, home) == name,
        trimmed(name).len() > 0 ==> pipe_user(None, Some(name), home) == name,
        trimmed(name).len() == 0 ==> pipe_user(Some(name), other, home) == pipe_user(
            None,
            None,
            home,
        ),
        trimmed(name).len() == 0 ==> pipe_user(None, Some(name), home) == pipe_user(
            None,
            None,
            home,
        ),
        home matches Some(path) ==> (windows_path_name(path) matches Some(part) ==> pipe_user(
            None,
            None,
            home,
        ) == lossy_text(part)),
        home matches Some(path) ==> (windows_path_name(path) is None ==> pipe_user(None, None, home)
            == "user"@),
        pipe_user(None, None, None) == "user"@,
{
}

/// Whatever was read is handed on as it is; only nothing at all means that the
/// daemon went away, and then the log is named, if it is known where it is.
pub proof fn law_only_an_empty_line_ends_the_connection(
    line: Seq<char>,
    log_path: Result<Seq<u8>, IoModel>,
)
    ensures
        line_outcome(line, log_path) is Ok <==> line.len() > 0,
        line_outcome(line, log_path) matches Ok(kept) ==> kept == line,
        line_outcome(line, log_path) matches Err(error) ==> {
            &&& error.kind is UnexpectedEof
            &&& log_path is Err ==> error.message == "Daemon connection closed unexpectedly."@
            &&& log_path matches Ok(path) ==> error.message
                == "Daemon connection closed unexpectedly."@
                + " Check the daemon log for details: "@ + lossy_text(path)
        },
{
    if line.len() == 0 {
        let message = line_outcome(line, log_path)->Err_0.message;
        match log_path {
            Ok(path) => {
                assert(message =~= "Daemon connection closed unexpectedly."@
                    + " Check the daemon log for details: "@ + lossy_text(path));
            },
            Err(_) => {
                assert(message =~= "Daemon connection closed unexpectedly."@);
            },
        }
    }
}

/// A path that was looked for is modelled by its bytes, and a failure by what it
/// says.
pub proof fn law_places_are_modelled_by_their_bytes(
    path: FilePath,
    message: String,
    error: IoError,
)
    ensures
        path_outcome(Ok(path)) == Ok::<Seq<u8>, Seq<char>>(path@),
        path_outcome(Err(message)) == Err::<Seq<u8>, Seq<char>>(message@),
        located(Ok(path)) == Ok::<Seq<u8>, IoModel>(path@),
        located(Err(error)) == Err::<Seq<u8>, IoModel>(error@),
        optional_path(Some(path)) == Some(path@),
        optional_path(None) is None,
{
}

} // verus!
