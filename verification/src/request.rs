//! The requests that the command line sends to the daemon.

use serde_json::Value;
use vstd::prelude::*;
use vstd::string::*;

use crate::connection::send_message;
use crate::exit_code::CliError;
use crate::json::{
    bool_value, compact_json, empty_object, is_whole_number, is_within, json_of, member_of,
    number_value, parsed_json, reads_back, set_member, text_value, JsonModel, MAX_JSON_DEPTH,
};
use crate::text::{
    decimal, decimal_text, end_trimmed, is_digit, law_decimal_reads_back, option_view,
};

verus! {

/// How long a script may run if nothing else is said.
pub const DEFAULT_SCRIPT_TIMEOUT_SECS: u32 = 30;

/// A script to run, and the browser to run it in.
#[derive(Debug)]
pub struct ScriptRequest {
    pub browser: String,
    pub script: String,
    pub timeout_ms: u64,
    pub headless: bool,
    pub ignore_https_errors: bool,
    pub connect: Option<String>,
}

/// A script to run, and the browser to run it in.
pub struct ScriptModel {
    pub browser: Seq<char>,
    pub script: Seq<char>,
    pub timeout_ms: u64,
    pub headless: bool,
    pub ignore_https_errors: bool,
    pub connect: Option<Seq<char>>,
}

impl View for ScriptRequest {
    type V = ScriptModel;

    open spec fn view(&self) -> ScriptModel {
        ScriptModel {
            browser: self.browser@,
            script: self.script@,
            timeout_ms: self.timeout_ms,
            headless: self.headless,
            ignore_https_errors: self.ignore_https_errors,
            connect: option_view(self.connect),
        }
    }
}

/// A request to the daemon: to run a script, to list the browsers, to tell its
/// status, to stop one browser, or to stop altogether.
#[derive(Debug)]
pub enum Request {
    Execute(ScriptRequest),
    Browsers,
    Status,
    BrowserStop(String),
    Stop,
}

/// A request to the daemon.
pub enum RequestModel {
    Execute(ScriptModel),
    Browsers,
    Status,
    BrowserStop(Seq<char>),
    Stop,
}

impl View for Request {
    type V = RequestModel;

    open spec fn view(&self) -> RequestModel {
        match self {
            Request::Execute(script) => RequestModel::Execute(script@),
            Request::Browsers => RequestModel::Browsers,
            Request::Status => RequestModel::Status,
            Request::BrowserStop(browser) => RequestModel::BrowserStop(browser@),
            Request::Stop => RequestModel::Stop,
        }
    }
}

/// The word for what a request asks.
pub open spec fn request_type(request: RequestModel) -> Seq<char> {
    match request {
        RequestModel::Execute(_) => "execute"@,
        RequestModel::Browsers => "browsers"@,
        RequestModel::Status => "status"@,
        RequestModel::BrowserStop(_) => "browser-stop"@,
        RequestModel::Stop => "stop"@,
    }
}

fn request_word(request: &Request) -> (word: &'static str)
    ensures
        word@ == request_type(request@),
{
    match request {
        Request::Execute(_) => "execute",
        Request::Browsers => "browsers",
        Request::Status => "status",
        Request::BrowserStop(_) => "browser-stop",
        Request::Stop => "stop",
    }
}

/// The identifier of a request: a prefix, the time and the process.
pub open spec fn request_id_of(prefix: Seq<char>, now_ms: nat, pid: nat) -> Seq<char> {
    prefix + "-"@ + decimal(now_ms) + "-"@ + decimal(pid)
}

/// Makes up the identifier of a request from the time in milliseconds since
/// the epoch and the number of the process.
pub fn request_id(prefix: &str, now_ms: u128, pid: u32) -> (id: String)
    ensures
        id@ == request_id_of(prefix@, now_ms as nat, pid as nat),
{
    let mut id = prefix.to_string();
    id.append("-");
    id.append(&decimal_text(now_ms));
    id.append("-");
    id.append(&decimal_text(pid as u128));
    id
}

/// The members that every request has.
pub open spec fn common_members(request: RequestModel, id: Seq<char>) -> Map<
    Seq<char>,
    JsonModel,
> {
    map!["id"@ => JsonModel::Text(id), "type"@ => JsonModel::Text(request_type(request))]
}

/// The members of a request to run a script. What is off is left out.
pub open spec fn script_members(
    script: ScriptModel,
    common: Map<Seq<char>, JsonModel>,
) -> Map<Seq<char>, JsonModel> {
    let always = common.insert("browser"@, JsonModel::Text(script.browser)).insert(
        "script"@,
        JsonModel::Text(script.script),
    ).insert("timeoutMs"@, JsonModel::Number(decimal(script.timeout_ms as nat)));
    let headless = if script.headless {
        always.insert("headless"@, JsonModel::Bool(true))
    } else {
        always
    };
    let ignoring = if script.ignore_https_errors {
        headless.insert("ignoreHTTPSErrors"@, JsonModel::Bool(true))
    } else {
        headless
    };
    match script.connect {
        Some(endpoint) => ignoring.insert("connect"@, JsonModel::Text(endpoint)),
        None => ignoring,
    }
}

/// The document of a request.
pub open spec fn request_document(request: RequestModel, id: Seq<char>) -> JsonModel {
    let common = common_members(request, id);
    JsonModel::Object(
        match request {
            RequestModel::Execute(script) => script_members(script, common),
            RequestModel::BrowserStop(browser) => common.insert(
                "browser"@,
                JsonModel::Text(browser),
            ),
            _ => common,
        },
    )
}

fn script_message(script: &ScriptRequest, message: Value) -> (result: Value)
    requires
        json_of(message) is Object,
    ensures
        json_of(result) == JsonModel::Object(
            script_members(script@, json_of(message)->Object_0),
        ),
{
    let mut message = message;
    set_member(&mut message, "browser", text_value(&script.browser));
    set_member(&mut message, "script", text_value(&script.script));
    set_member(&mut message, "timeoutMs", number_value(script.timeout_ms));
    if script.headless {
        set_member(&mut message, "headless", bool_value(true));
    }
    if script.ignore_https_errors {
        set_member(&mut message, "ignoreHTTPSErrors", bool_value(true));
    }
    if let Some(endpoint) = &script.connect {
        set_member(&mut message, "connect", text_value(endpoint));
    }
    message
}

/// Puts the message of a request together.
pub fn request_message(request: &Request, id: &str) -> (message: Value)
    ensures
        json_of(message) == request_document(request@, id@),
{
    let mut message = empty_object();
    set_member(&mut message, "id", text_value(id));
    set_member(&mut message, "type", text_value(request_word(request)));
    match request {
        Request::Execute(script) => script_message(script, message),
        Request::BrowserStop(browser) => {
            set_member(&mut message, "browser", text_value(browser));
            message
        },
        _ => message,
    }
}

/// Every request is read back from what is written of it, whatever the script
/// and the names in it are.
pub proof fn law_requests_read_back(request: RequestModel, id: Seq<char>)
    ensures
        reads_back(request_document(request, id)),
{
    let members = request_document(request, id)->Object_0;
    let depth = (MAX_JSON_DEPTH - 1) as nat;
    assert forall|key: Seq<char>| #[trigger] members.contains_key(key) implies is_within(
        members[key],
        depth,
    ) by {
        if let RequestModel::Execute(script) = request {
            let text = decimal(script.timeout_ms as nat);
            assert(is_whole_number(text));
            assert(is_within(JsonModel::Number(text), depth));
        }
    }
}

/// A request says its identifier and what it asks; a request to run a script
/// says all there is to say of the script; and a request to stop one browser
/// names it.
pub proof fn law_requests_say_what_they_ask(request: RequestModel, id: Seq<char>)
    ensures
        ({
            let document = request_document(request, id);
            &&& member_of(document, "id"@) == Some(JsonModel::Text(id))
            &&& member_of(document, "type"@) == Some(JsonModel::Text(request_type(request)))
            &&& request matches RequestModel::Execute(script) ==> {
                &&& member_of(document, "browser"@) == Some(JsonModel::Text(script.browser))
                &&& member_of(document, "script"@) == Some(JsonModel::Text(script.script))
                &&& member_of(document, "timeoutMs"@) == Some(
                    JsonModel::Number(decimal(script.timeout_ms as nat)),
                )
                &&& member_of(document, "headless"@) == if script.headless {
                    Some(JsonModel::Bool(true))
                } else {
                    None
                }
                &&& member_of(document, "ignoreHTTPSErrors"@) == if script.ignore_https_errors {
                    Some(JsonModel::Bool(true))
                } else {
                    None
                }
                &&& member_of(document, "connect"@) == match script.connect {
                    Some(endpoint) => Some(JsonModel::Text(endpoint)),
                    None => None,
                }
            }
            &&& request matches RequestModel::BrowserStop(browser) ==> member_of(
                document,
                "browser"@,
            ) == Some(JsonModel::Text(browser))
        }),
{
    reveal_strlit("id");
    reveal_strlit("type");
    reveal_strlit("browser");
    reveal_strlit("script");
    reveal_strlit("timeoutMs");
    reveal_strlit("headless");
    reveal_strlit("ignoreHTTPSErrors");
    reveal_strlit("connect");
    assert("id"@.len() == 2);
    assert("type"@.len() == 4);
    assert("script"@.len() == 6);
    assert("browser"@[0] == 'b');
    assert("connect"@[0] == 'c');
    assert("browser"@.len() == 7 && "connect"@.len() == 7);
    assert("headless"@.len() == 8);
    assert("timeoutMs"@.len() == 9);
    assert("ignoreHTTPSErrors"@.len() == 17);
}

/// Puts the line together that asks the daemon for something. It is one line,
/// and what the daemon reads from it is the request.
pub fn request_line(request: &Request, now_ms: u128, pid: u32) -> (outcome: Result<
    String,
    CliError,
>)
    ensures
        match outcome {
            Ok(line) => {
                let document = request_document(
                    request@,
                    request_id_of(request_type(request@), now_ms as nat, pid as nat),
                );
                &&& line@ == compact_json(document).push('\n')
                &&& !line@.drop_last().contains('\n')
                &&& parsed_json(end_trimmed(line@)) == Ok::<JsonModel, Seq<char>>(document)
            },
            Err(_) => false,
        },
{
    let id = request_id(request_word(request), now_ms, pid);
    proof {
        law_requests_read_back(request@, id@);
    }
    send_message(&request_message(request, &id))
}

/// The word for what is asked is the one that the daemon knows it by, and no two
/// kinds of requests share one.
pub proof fn law_requests_are_told_apart(request: RequestModel, id: Seq<char>)
    ensures
        ({
            let word = member_of(request_document(request, id), "type"@);
            &&& word == Some(JsonModel::Text("execute"@)) <==> request is Execute
            &&& word == Some(JsonModel::Text("browsers"@)) <==> request is Browsers
            &&& word == Some(JsonModel::Text("status"@)) <==> request is Status
            &&& word == Some(JsonModel::Text("browser-stop"@)) <==> request is BrowserStop
            &&& word == Some(JsonModel::Text("stop"@)) <==> request is Stop
        }),
{
    law_requests_say_what_they_ask(request, id);
    reveal_strlit("execute");
    reveal_strlit("browsers");
    reveal_strlit("status");
    reveal_strlit("browser-stop");
    reveal_strlit("stop");
    assert("execute"@.len() == 7);
    assert("browsers"@.len() == 8);
    assert("status"@.len() == 6);
    assert("browser-stop"@.len() == 12);
    assert("stop"@.len() == 4);
}

/// A request says nothing but what belongs to it: only one that runs a script has
/// settings, and only one that is about a browser names one.
pub proof fn law_requests_say_nothing_else(request: RequestModel, id: Seq<char>, key: Seq<char>)
    requires
        member_of(request_document(request, id), key) is Some,
    ensures
        ({
            ||| key == "id"@
            ||| key == "type"@
            ||| key == "browser"@ && (request is Execute || request is BrowserStop)
            ||| request is Execute && (key == "script"@ || key == "timeoutMs"@ || key
                == "headless"@ || key == "ignoreHTTPSErrors"@ || key == "connect"@)
        }),
{
}

/// The identifier of a request is made of its prefix, the time and the process,
/// so that requests of two processes, or of two moments, never share one.
pub proof fn law_identifiers_are_told_apart(
    prefix: Seq<char>,
    now_ms: nat,
    pid: nat,
    other_ms: nat,
    other_pid: nat,
)
    ensures
        request_id_of(prefix, now_ms, pid) == prefix + "-"@ + decimal(now_ms) + "-"@ + decimal(pid),
        request_id_of(prefix, now_ms, pid) == request_id_of(prefix, other_ms, other_pid) ==> now_ms
            == other_ms && pid == other_pid,
{
    let one = request_id_of(prefix, now_ms, pid);
    let other = request_id_of(prefix, other_ms, other_pid);
    if one == other {
        reveal_strlit("-");
        law_decimal_reads_back(now_ms);
        law_decimal_reads_back(other_ms);
        law_decimal_reads_back(pid);
        law_decimal_reads_back(other_pid);
        let start = (prefix.len() + 1) as int;
        let a = decimal(now_ms);
        let b = decimal(other_ms);
        assert forall|i: int| 0 <= i < a.len() implies #[trigger] one[start + i] == a[i] by {}
        assert forall|i: int| 0 <= i < b.len() implies #[trigger] other[start + i] == b[i] by {}
        assert(one[start + a.len()] == '-');
        assert(other[start + b.len()] == '-');
        if a.len() < b.len() {
            assert(other[start + a.len()] == b[a.len() as int]);
            assert(is_digit(b[a.len() as int]));
        } else if b.len() < a.len() {
            assert(one[start + b.len()] == a[b.len() as int]);
            assert(is_digit(a[b.len() as int]));
        }
        assert forall|i: int| 0 <= i < a.len() implies a[i] == b[i] by {
            assert(one[start + i] == a[i]);
            assert(other[start + i] == b[i]);
        }
        assert(a =~= b);
        let c = decimal(pid);
        let d = decimal(other_pid);
        let behind = start + a.len() + 1;
        assert(one.skip(behind) =~= c);
        assert(other.skip(behind) =~= d);
    }
}

/// A request is modelled by what it asks, with every setting as it is.
pub proof fn law_requests_are_modelled_by_what_they_ask(script: ScriptRequest, browser: String)
    ensures
        script@.browser == script.browser@,
        script@.script == script.script@,
        script@.timeout_ms == script.timeout_ms,
        script@.headless == script.headless,
        script@.ignore_https_errors == script.ignore_https_errors,
        script.connect is None <==> script@.connect is None,
        script.connect matches Some(endpoint) ==> script@.connect == Some(endpoint@),
        Request::Execute(script)@ == RequestModel::Execute(script@),
        Request::Browsers@ is Browsers,
        Request::Status@ is Status,
        Request::BrowserStop(browser)@ == RequestModel::BrowserStop(browser@),
        Request::Stop@ is Stop,
{
}

/// A script may run for half a minute unless told otherwise.
pub proof fn law_a_script_has_half_a_minute()
    ensures
        DEFAULT_SCRIPT_TIMEOUT_SECS == 30,
{
}

} // verus!
