//! The commands of the command line, the check on `--connect`, and the
//! document that tells programs what the command line can do.

use serde_json::Value;
use vstd::prelude::*;
use vstd::string::*;

use crate::exit_code::{
    code_of, description_of, exit_codes, is_entry_of, label_of, CliError, ExitCode,
};
use crate::json::{
    array_value, bool_value, empty_object, items_of, json_of, member_of, number_value, pretty_json,
    set_member, signed_value, text_value, write_pretty, JsonModel,
};
use crate::request::DEFAULT_SCRIPT_TIMEOUT_SECS;
use crate::text::{
    align_left, decimal, left_aligned, lemma_mentions, mentions, same_text, signed_decimal,
    signed_text, texts,
};

verus! {

/// The names of the commands.
pub open spec fn subcommands() -> Seq<Seq<char>> {
    seq![
        "run"@,
        "install"@,
        "install-skill"@,
        "browsers"@,
        "status"@,
        "stop"@,
        "capabilities"@,
        "robot-docs"@,
    ]
}

/// The names of the commands.
pub fn known_subcommand_names() -> (names: [&'static str; 8])
    ensures
        forall|i: int| 0 <= i < 8 ==> (#[trigger] names@[i])@ == subcommands()[i],
{
    [
        "run",
        "install",
        "install-skill",
        "browsers",
        "status",
        "stop",
        "capabilities",
        "robot-docs",
    ]
}

/// What is said of a command's name in the place of an endpoint.
pub open spec fn swallowed_command_message(raw: Seq<char>) -> Seq<char> {
    "'"@ + raw
        + "' looks like a dev-browser subcommand, not a CDP URL. `--connect` greedily takes the next word as its value. Use `--connect=auto "@
        + raw + "` (with an `=`) to auto-connect and still invoke the `"@ + raw
        + "` subcommand, or `--connect=<url>` to specify a CDP endpoint explicitly."@
}

/// Checks the value of `--connect`, which takes the next word whatever it is:
/// the name of a command is refused, any other value is taken as it is.
pub fn parse_connect_value(raw: &str) -> (outcome: Result<String, String>)
    ensures
        match outcome {
            Ok(value) => value@ == raw@ && !subcommands().contains(raw@),
            Err(message) => subcommands().contains(raw@) && message@ == swallowed_command_message(
                raw@,
            ),
        },
{
    let names = known_subcommand_names();
    let mut i: usize = 0;
    while i < 8
        invariant
            i <= 8,
            forall|j: int| 0 <= j < 8 ==> (#[trigger] names@[j])@ == subcommands()[j],
            forall|j: int| 0 <= j < i ==> raw@ != #[trigger] subcommands()[j],
        decreases 8 - i,
    {
        if same_text(raw, names[i]) {
            proof {
                assert(names@[i as int]@ == subcommands()[i as int]);
                assert(subcommands().contains(raw@));
            }
            let mut message = "'".to_string();
            message.append(raw);
            message.append(
                "' looks like a dev-browser subcommand, not a CDP URL. `--connect` greedily takes the next word as its value. Use `--connect=auto ",
            );
            message.append(raw);
            message.append("` (with an `=`) to auto-connect and still invoke the `");
            message.append(raw);
            message.append(
                "` subcommand, or `--connect=<url>` to specify a CDP endpoint explicitly.",
            );
            return Err(message);
        }
        proof {
            assert(names@[i as int]@ == subcommands()[i as int]);
        }
        i = i + 1;
    }
    Ok(raw.to_string())
}

/// The word for discovering a browser is no command's name, so that it is
/// always accepted.
pub proof fn law_auto_is_no_command()
    ensures
        !subcommands().contains("auto"@),
{
    reveal_strlit("auto");
    reveal_strlit("run");
    reveal_strlit("install");
    reveal_strlit("install-skill");
    reveal_strlit("browsers");
    reveal_strlit("status");
    reveal_strlit("stop");
    reveal_strlit("capabilities");
    reveal_strlit("robot-docs");
    assert("auto"@[0] == 'a');
    assert forall|i: int| 0 <= i < subcommands().len() implies #[trigger] subcommands()[i]
        != "auto"@ by {
        assert(subcommands()[i][0] != 'a');
    }
}

/// What the document says of a command.
pub struct CommandEntry {
    pub name: Seq<char>,
    pub about: Seq<char>,
    pub json_flag: bool,
}

/// What the document says of the commands.
pub open spec fn command_entries() -> Seq<CommandEntry> {
    seq![
        CommandEntry {
            name: "run"@,
            about: "Run a script file against the browser"@,
            json_flag: false,
        },
        CommandEntry {
            name: "install"@,
            about:
                "Install Playwright browsers (Chromium) and verify Chromium actually launches"@,
            json_flag: false,
        },
        CommandEntry {
            name: "install-skill"@,
            about: "Install the dev-browser skill into agent skill directories"@,
            json_flag: false,
        },
        CommandEntry {
            name: "browsers"@,
            about: "List all managed browser instances"@,
            json_flag: true,
        },
        CommandEntry { name: "status"@, about: "Show daemon status"@, json_flag: true },
        CommandEntry {
            name: "stop"@,
            about:
                "Stop the daemon and all browsers, or one named browser with --browser <NAME>"@,
            json_flag: false,
        },
        CommandEntry {
            name: "capabilities"@,
            about: "Print this machine-readable capabilities document"@,
            json_flag: true,
        },
        CommandEntry {
            name: "robot-docs"@,
            about: "Print the full agent usage guide to stdout"@,
            json_flag: false,
        },
    ]
}

/// Whether a row of the table of commands is the given entry.
pub open spec fn is_command_entry(row: (&str, &str, bool), entry: CommandEntry) -> bool {
    row.0@ == entry.name && row.1@ == entry.about && row.2 == entry.json_flag
}

fn command_table() -> (rows: [(&'static str, &'static str, bool); 8])
    ensures
        forall|i: int| 0 <= i < 8 ==> is_command_entry(#[trigger] rows@[i], command_entries()[i]),
{
    [
        ("run", "Run a script file against the browser", false),
        (
            "install",
            "Install Playwright browsers (Chromium) and verify Chromium actually launches",
            false,
        ),
        ("install-skill", "Install the dev-browser skill into agent skill directories", false),
        ("browsers", "List all managed browser instances", true),
        ("status", "Show daemon status", true),
        (
            "stop",
            "Stop the daemon and all browsers, or one named browser with --browser <NAME>",
            false,
        ),
        ("capabilities", "Print this machine-readable capabilities document", true),
        ("robot-docs", "Print the full agent usage guide to stdout", false),
    ]
}

/// The document lists every command, and nothing else.
pub proof fn law_every_command_is_listed()
    ensures
        command_entries().map_values(|entry: CommandEntry| entry.name) == subcommands(),
{
    assert(command_entries().map_values(|entry: CommandEntry| entry.name) =~= subcommands());
}

/// The document of a command.
pub open spec fn command_document(entry: CommandEntry) -> JsonModel {
    if entry.json_flag {
        JsonModel::Object(
            map![
                "name"@ => JsonModel::Text(entry.name),
                "about"@ => JsonModel::Text(entry.about),
                "json_flag"@ => JsonModel::Bool(true),
            ],
        )
    } else {
        JsonModel::Object(
            map![
                "name"@ => JsonModel::Text(entry.name),
                "about"@ => JsonModel::Text(entry.about),
            ],
        )
    }
}

fn commands_value() -> (value: Value)
    ensures
        json_of(value) == JsonModel::Array(
            command_entries().map_values(|entry: CommandEntry| command_document(entry)),
        ),
{
    let rows = command_table();
    let mut items: Vec<Value> = Vec::new();
    let mut i: usize = 0;
    while i < 8
        invariant
            i <= 8,
            items@.len() == i,
            forall|j: int|
                0 <= j < 8 ==> is_command_entry(#[trigger] rows@[j], command_entries()[j]),
            forall|j: int|
                0 <= j < i ==> json_of(#[trigger] items@[j]) == command_document(
                    command_entries()[j],
                ),
        decreases 8 - i,
    {
        let row = rows[i];
        proof {
            assert(is_command_entry(rows@[i as int], command_entries()[i as int]));
        }
        let mut item = empty_object();
        set_member(&mut item, "name", text_value(row.0));
        set_member(&mut item, "about", text_value(row.1));
        if row.2 {
            set_member(&mut item, "json_flag", bool_value(true));
        }
        items.push(item);
        i = i + 1;
    }
    proof {
        assert(items_of(items@) =~= command_entries().map_values(
            |entry: CommandEntry| command_document(entry),
        ));
    }
    array_value(items)
}

/// The document of an exit code.
pub open spec fn exit_code_document(exit: ExitCode) -> JsonModel {
    JsonModel::Object(
        map![
            "code"@ => JsonModel::Number(signed_decimal(code_of(exit) as int)),
            "name"@ => JsonModel::Text(label_of(exit)),
            "description"@ => JsonModel::Text(description_of(exit)),
        ],
    )
}

fn exit_codes_value() -> (value: Value)
    ensures
        json_of(value) == JsonModel::Array(
            exit_codes().map_values(|exit: ExitCode| exit_code_document(exit)),
        ),
{
    let entries = ExitCode::dictionary();
    let mut items: Vec<Value> = Vec::new();
    let mut i: usize = 0;
    while i < 5
        invariant
            i <= 5,
            items@.len() == i,
            forall|j: int| 0 <= j < 5 ==> is_entry_of(#[trigger] entries@[j], exit_codes()[j]),
            forall|j: int|
                0 <= j < i ==> json_of(#[trigger] items@[j]) == exit_code_document(exit_codes()[j]),
        decreases 5 - i,
    {
        let entry = entries[i];
        proof {
            assert(is_entry_of(entries@[i as int], exit_codes()[i as int]));
        }
        let mut item = empty_object();
        set_member(&mut item, "code", signed_value(entry.0 as i64));
        set_member(&mut item, "name", text_value(entry.1));
        set_member(&mut item, "description", text_value(entry.2));
        items.push(item);
        i = i + 1;
    }
    proof {
        assert(items_of(items@) =~= exit_codes().map_values(
            |exit: ExitCode| exit_code_document(exit),
        ));
    }
    array_value(items)
}

/// The document of the environment variables.
pub open spec fn env_vars_document() -> JsonModel {
    JsonModel::Array(
        seq![
            JsonModel::Object(
                map![
                    "name"@ => JsonModel::Text("DEV_BROWSER_DAEMON"@),
                    "description"@ => JsonModel::Text(
                        "Override the daemon entrypoint (.js/.mjs/.cjs/.ts file, or a native executable) instead of the CLI's embedded daemon bundle."@,
                    ),
                ],
            ),
        ],
    )
}

fn env_vars_value() -> (value: Value)
    ensures
        json_of(value) == env_vars_document(),
{
    let mut item = empty_object();
    set_member(&mut item, "name", text_value("DEV_BROWSER_DAEMON"));
    set_member(
        &mut item,
        "description",
        text_value(
            "Override the daemon entrypoint (.js/.mjs/.cjs/.ts file, or a native executable) instead of the CLI's embedded daemon bundle.",
        ),
    );
    let ghost document = json_of(item);
    let mut items: Vec<Value> = Vec::new();
    items.push(item);
    proof {
        assert(items_of(items@) =~= seq![document]);
    }
    array_value(items)
}

/// The document of the flags.
pub open spec fn flags_document() -> JsonModel {
    JsonModel::Object(
        map![
            "--json"@ => JsonModel::Text(
                "Available on `status`, `browsers`, and `capabilities` for machine-readable output."@,
            ),
            "--connect"@ => JsonModel::Text(
                "Optional-value flag: bare `--connect` auto-discovers Chrome; `--connect <url>` or `--connect=<url>` attaches to a specific CDP endpoint. Use `--connect=auto` (with `=`) before a subcommand name to avoid the value swallowing it."@,
            ),
            "--timeout"@ => JsonModel::Text(
                "Maximum script execution time in seconds (default 30)."@,
            ),
            "--version / -V"@ => JsonModel::Text("Print the installed CLI version and exit."@),
        ],
    )
}

fn flags_value() -> (value: Value)
    ensures
        json_of(value) == flags_document(),
{
    let mut value = empty_object();
    set_member(
        &mut value,
        "--json",
        text_value(
            "Available on `status`, `browsers`, and `capabilities` for machine-readable output.",
        ),
    );
    set_member(
        &mut value,
        "--connect",
        text_value(
            "Optional-value flag: bare `--connect` auto-discovers Chrome; `--connect <url>` or `--connect=<url>` attaches to a specific CDP endpoint. Use `--connect=auto` (with `=`) before a subcommand name to avoid the value swallowing it.",
        ),
    );
    set_member(
        &mut value,
        "--timeout",
        text_value("Maximum script execution time in seconds (default 30)."),
    );
    set_member(
        &mut value,
        "--version / -V",
        text_value("Print the installed CLI version and exit."),
    );
    value
}

/// What the command line can do: its version, commands, exit codes,
/// environment variables and flags.
pub open spec fn capabilities(version: Seq<char>) -> JsonModel {
    JsonModel::Object(
        map![
            "version"@ => JsonModel::Text(version),
            "contract_version"@ => JsonModel::Number(decimal(1)),
            "commands"@ => JsonModel::Array(
                command_entries().map_values(|entry: CommandEntry| command_document(entry)),
            ),
            "exit_codes"@ => JsonModel::Array(
                exit_codes().map_values(|exit: ExitCode| exit_code_document(exit)),
            ),
            "env_vars"@ => env_vars_document(),
            "flags"@ => flags_document(),
        ],
    )
}

/// Puts the document of what the command line can do together.
pub fn capabilities_document(version: &str) -> (value: Value)
    ensures
        json_of(value) == capabilities(version@),
{
    let mut value = empty_object();
    set_member(&mut value, "version", text_value(version));
    set_member(&mut value, "contract_version", number_value(1));
    set_member(&mut value, "commands", commands_value());
    set_member(&mut value, "exit_codes", exit_codes_value());
    set_member(&mut value, "env_vars", env_vars_value());
    set_member(&mut value, "flags", flags_value());
    value
}

/// The line of a command.
pub open spec fn command_line(entry: CommandEntry) -> Seq<char> {
    "  "@ + left_aligned(entry.name, 16) + " "@ + entry.about
}

/// The line of an exit code.
pub open spec fn exit_code_line(exit: ExitCode) -> Seq<char> {
    "  "@ + signed_decimal(code_of(exit) as int) + "  "@ + label_of(exit)
}

/// What the command line can do, as lines for humans.
pub open spec fn capabilities_lines(version: Seq<char>) -> Seq<Seq<char>> {
    seq!["dev-browser "@ + version, "contract_version: 1"@, ""@, "Commands:"@]
        + command_entries().map_values(|entry: CommandEntry| command_line(entry)) + seq![
        ""@,
        "Exit codes:"@,
    ] + exit_codes().map_values(|exit: ExitCode| exit_code_line(exit)) + seq![
        ""@,
        "Run `dev-browser capabilities --json` for the full machine-readable document."@,
    ]
}

fn command_texts() -> (lines: Vec<String>)
    ensures
        texts(lines@) == command_entries().map_values(|entry: CommandEntry| command_line(entry)),
{
    let rows = command_table();
    let mut lines: Vec<String> = Vec::new();
    let mut i: usize = 0;
    while i < 8
        invariant
            i <= 8,
            lines@.len() == i,
            forall|j: int|
                0 <= j < 8 ==> is_command_entry(#[trigger] rows@[j], command_entries()[j]),
            forall|j: int|
                0 <= j < i ==> (#[trigger] lines@[j])@ == command_line(command_entries()[j]),
        decreases 8 - i,
    {
        let row = rows[i];
        proof {
            assert(is_command_entry(rows@[i as int], command_entries()[i as int]));
        }
        let mut line = "  ".to_string();
        line.append(&align_left(row.0, 16));
        line.append(" ");
        line.append(row.1);
        lines.push(line);
        i = i + 1;
    }
    proof {
        assert(texts(lines@) =~= command_entries().map_values(
            |entry: CommandEntry| command_line(entry),
        ));
    }
    lines
}

fn exit_code_texts() -> (lines: Vec<String>)
    ensures
        texts(lines@) == exit_codes().map_values(|exit: ExitCode| exit_code_line(exit)),
{
    let entries = ExitCode::dictionary();
    let mut lines: Vec<String> = Vec::new();
    let mut i: usize = 0;
    while i < 5
        invariant
            i <= 5,
            lines@.len() == i,
            forall|j: int| 0 <= j < 5 ==> is_entry_of(#[trigger] entries@[j], exit_codes()[j]),
            forall|j: int|
                0 <= j < i ==> (#[trigger] lines@[j])@ == exit_code_line(exit_codes()[j]),
        decreases 5 - i,
    {
        let entry = entries[i];
        proof {
            assert(is_entry_of(entries@[i as int], exit_codes()[i as int]));
        }
        let mut line = "  ".to_string();
        line.append(&signed_text(entry.0 as i64));
        line.append("  ");
        line.append(entry.1);
        lines.push(line);
        i = i + 1;
    }
    proof {
        assert(texts(lines@) =~= exit_codes().map_values(|exit: ExitCode| exit_code_line(exit)));
    }
    lines
}

/// Tells what the command line can do, as a JSON document or as lines for
/// humans.
pub fn print_capabilities(version: &str, json_output: bool) -> (outcome: Result<
    Vec<String>,
    CliError,
>)
    ensures
        match outcome {
            Ok(lines) => texts(lines@) == if json_output {
                seq![pretty_json(capabilities(version@))]
            } else {
                capabilities_lines(version@)
            },
            Err(_) => false,
        },
{
    let mut lines: Vec<String> = Vec::new();
    if json_output {
        return match write_pretty(&capabilities_document(version)) {
            Ok(text) => {
                let ghost document = text@;
                lines.push(text);
                proof {
                    assert(texts(lines@) =~= seq![document]);
                }
                Ok(lines)
            },
            Err(error) => Err(CliError::Json(error)),
        };
    }
    let mut title = "dev-browser ".to_string();
    title.append(version);
    lines.push(title);
    lines.push("contract_version: 1".to_string());
    lines.push("".to_string());
    lines.push("Commands:".to_string());
    let mut commands = command_texts();
    let ghost listed_commands = commands@;
    lines.append(&mut commands);
    lines.push("".to_string());
    lines.push("Exit codes:".to_string());
    let mut codes = exit_code_texts();
    let ghost listed_codes = codes@;
    lines.append(&mut codes);
    lines.push("".to_string());
    lines.push(
        "Run `dev-browser capabilities --json` for the full machine-readable document.".to_string(),
    );
    proof {
        let head = seq!["dev-browser "@ + version@, "contract_version: 1"@, ""@, "Commands:"@];
        assert(texts(lines@) =~= head + texts(listed_commands) + seq![""@, "Exit codes:"@] + texts(
            listed_codes,
        ) + seq![
            ""@,
            "Run `dev-browser capabilities --json` for the full machine-readable document."@,
        ]);
    }
    Ok(lines)
}

/// The names of the commands are these eight, each once, and nothing else is one.
pub proof fn law_what_the_commands_are(name: Seq<char>)
    ensures
        subcommands().contains(name) <==> {
            ||| name == "run"@
            ||| name == "install"@
            ||| name == "install-skill"@
            ||| name == "browsers"@
            ||| name == "status"@
            ||| name == "stop"@
            ||| name == "capabilities"@
            ||| name == "robot-docs"@
        },
        subcommands().len() == 8,
{
    let names = subcommands();
    assert(names[0] == "run"@ && names[1] == "install"@ && names[2] == "install-skill"@);
    assert(names[3] == "browsers"@ && names[4] == "status"@ && names[5] == "stop"@);
    assert(names[6] == "capabilities"@ && names[7] == "robot-docs"@);
}

/// What is said of a swallowed command names it, and tells how to write the two
/// side by side.
pub proof fn law_a_swallowed_command_is_explained(raw: Seq<char>)
    ensures
        mentions(swallowed_command_message(raw), "'"@ + raw + "'"@),
        mentions(swallowed_command_message(raw), "`--connect=auto "@ + raw + "`"@),
{
    let message = swallowed_command_message(raw);
    let first =
        "' looks like a dev-browser subcommand, not a CDP URL. `--connect` greedily takes the next word as its value. Use `--connect=auto "@;
    let second = "` (with an `=`) to auto-connect and still invoke the `"@;
    let third = "` subcommand, or `--connect=<url>` to specify a CDP endpoint explicitly."@;
    reveal_strlit("'");
    reveal_strlit("`");
    reveal_strlit("`--connect=auto ");
    reveal_strlit(
        "' looks like a dev-browser subcommand, not a CDP URL. `--connect` greedily takes the next word as its value. Use `--connect=auto ",
    );
    reveal_strlit("` (with an `=`) to auto-connect and still invoke the `");
    let quoted = "'"@ + raw + "'"@;
    let behind = first.skip(1) + raw + second + raw + third;
    assert(message =~= quoted + behind);
    lemma_mentions(Seq::empty(), quoted, behind);
    let hint = "`--connect=auto "@ + raw + "`"@;
    let before = "'"@ + raw + first.take(first.len() - 16);
    let after = second.skip(1) + raw + third;
    assert(first.skip(first.len() - 16) =~= "`--connect=auto "@);
    assert(message =~= before + hint + after);
    lemma_mentions(before, hint, after);
}

/// The document has the version that it was asked for, the version of its own
/// form, and a list each of the commands and of the exit codes, beside the
/// environment variables and the flags; and nothing else.
pub proof fn law_the_document_says_what_there_is(version: Seq<char>, key: Seq<char>)
    ensures
        ({
            let document = capabilities(version);
            &&& member_of(document, "version"@) == Some(JsonModel::Text(version))
            &&& member_of(document, "contract_version"@) == Some(JsonModel::Number(seq!['1']))
            &&& member_of(document, "commands"@) is Some
            &&& member_of(document, "commands"@)->0 is Array
            &&& member_of(document, "commands"@)->0->Array_0.len() == 8
            &&& forall|i: int|
                0 <= i < 8 ==> #[trigger] member_of(document, "commands"@)->0->Array_0[i]
                    == command_document(command_entries()[i])
            &&& member_of(document, "exit_codes"@) is Some
            &&& member_of(document, "exit_codes"@)->0 is Array
            &&& member_of(document, "exit_codes"@)->0->Array_0.len() == 5
            &&& forall|i: int|
                0 <= i < 5 ==> #[trigger] member_of(document, "exit_codes"@)->0->Array_0[i]
                    == exit_code_document(exit_codes()[i])
            &&& member_of(document, "env_vars"@) == Some(env_vars_document())
            &&& member_of(document, "flags"@) == Some(flags_document())
            &&& member_of(document, key) is Some ==> {
                ||| key == "version"@
                ||| key == "contract_version"@
                ||| key == "commands"@
                ||| key == "exit_codes"@
                ||| key == "env_vars"@
                ||| key == "flags"@
            }
        }),
{
    reveal_strlit("version");
    reveal_strlit("contract_version");
    reveal_strlit("commands");
    reveal_strlit("exit_codes");
    reveal_strlit("env_vars");
    reveal_strlit("flags");
    assert("version"@.len() == 7);
    assert("contract_version"@.len() == 16);
    assert("commands"@.len() == 8 && "env_vars"@.len() == 8);
    assert("commands"@[0] == 'c' && "env_vars"@[0] == 'e');
    assert("exit_codes"@.len() == 10);
    assert("flags"@.len() == 5);
    assert(decimal(1) =~= seq!['1']);
}

/// What the document says of a command is its name, what it is for, and that it
/// can answer in JSON, exactly if it can: three of the commands do.
pub proof fn law_the_document_describes_each_command(i: int)
    requires
        0 <= i < 8,
    ensures
        ({
            let entry = command_entries()[i];
            let document = command_document(entry);
            let answers_in_json = entry.name == "browsers"@ || entry.name == "status"@ || entry.name
                == "capabilities"@;
            &&& entry.name == subcommands()[i]
            &&& member_of(document, "name"@) == Some(JsonModel::Text(entry.name))
            &&& member_of(document, "about"@) == Some(JsonModel::Text(entry.about))
            &&& answers_in_json ==> member_of(document, "json_flag"@) == Some(
                JsonModel::Bool(true),
            )
            &&& !answers_in_json ==> member_of(document, "json_flag"@) is None
            &&& command_line(entry) == "  "@ + left_aligned(entry.name, 16) + " "@ + entry.about
        }),
{
    reveal_strlit("name");
    reveal_strlit("about");
    reveal_strlit("json_flag");
    assert("name"@.len() == 4);
    assert("about"@.len() == 5);
    assert("json_flag"@.len() == 9);
    reveal_strlit("run");
    reveal_strlit("install");
    reveal_strlit("install-skill");
    reveal_strlit("browsers");
    reveal_strlit("status");
    reveal_strlit("stop");
    reveal_strlit("capabilities");
    reveal_strlit("robot-docs");
    assert("run"@.len() == 3);
    assert("install"@.len() == 7);
    assert("install-skill"@.len() == 13);
    assert("browsers"@.len() == 8);
    assert("status"@.len() == 6);
    assert("stop"@.len() == 4);
    assert("capabilities"@.len() == 12);
    assert("robot-docs"@.len() == 10);
}

/// What the document says of an exit code is its number, its name and what it
/// means, and the line for humans has the number and the name.
pub proof fn law_the_document_describes_each_exit_code(exit: ExitCode)
    ensures
        ({
            let document = exit_code_document(exit);
            &&& member_of(document, "code"@) == Some(
                JsonModel::Number(signed_decimal(code_of(exit) as int)),
            )
            &&& member_of(document, "name"@) == Some(JsonModel::Text(label_of(exit)))
            &&& member_of(document, "description"@) == Some(
                JsonModel::Text(description_of(exit)),
            )
            &&& exit_code_line(exit) == "  "@ + signed_decimal(code_of(exit) as int) + "  "@
                + label_of(exit)
        }),
{
    reveal_strlit("code");
    reveal_strlit("name");
    reveal_strlit("description");
    assert("code"@[0] == 'c');
    assert("name"@[0] == 'n');
    assert("description"@.len() == 11);
}

/// The lines for humans name the version first, then every command and every exit
/// code, each on a line of its own.
pub proof fn law_the_lines_say_what_there_is(version: Seq<char>)
    ensures
        ({
            let lines = capabilities_lines(version);
            &&& lines.len() == 21
            &&& lines[0] == "dev-browser "@ + version
            &&& lines[1] == "contract_version: 1"@
            &&& lines[2] == ""@ && lines[3] == "Commands:"@
            &&& lines[12] == ""@ && lines[13] == "Exit codes:"@
            &&& lines[19] == ""@
            &&& lines[20]
                == "Run `dev-browser capabilities --json` for the full machine-readable document."@
            &&& forall|i: int|
                0 <= i < 8 ==> #[trigger] lines[4 + i] == command_line(command_entries()[i])
            &&& forall|i: int|
                0 <= i < 5 ==> #[trigger] lines[14 + i] == exit_code_line(exit_codes()[i])
        }),
{
}

/// The document names the environment variable for the daemon and the flags that
/// the command line takes, and nothing else in their places.
pub proof fn law_the_document_names_variables_and_flags(key: Seq<char>)
    ensures
        env_vars_document() is Array,
        env_vars_document()->Array_0.len() == 1,
        member_of(env_vars_document()->Array_0[0], "name"@) == Some(
            JsonModel::Text("DEV_BROWSER_DAEMON"@),
        ),
        member_of(flags_document(), key) is Some <==> {
            ||| key == "--json"@
            ||| key == "--connect"@
            ||| key == "--timeout"@
            ||| key == "--version / -V"@
        },
        member_of(env_vars_document()->Array_0[0], "description"@) == Some(
            JsonModel::Text(
                "Override the daemon entrypoint (.js/.mjs/.cjs/.ts file, or a native executable) instead of the CLI's embedded daemon bundle."@,
            ),
        ),
        member_of(flags_document(), "--json"@) == Some(
            JsonModel::Text(
                "Available on `status`, `browsers`, and `capabilities` for machine-readable output."@,
            ),
        ),
        member_of(flags_document(), "--connect"@) == Some(
            JsonModel::Text(
                "Optional-value flag: bare `--connect` auto-discovers Chrome; `--connect <url>` or `--connect=<url>` attaches to a specific CDP endpoint. Use `--connect=auto` (with `=`) before a subcommand name to avoid the value swallowing it."@,
            ),
        ),
        member_of(flags_document(), "--timeout"@) == Some(
            JsonModel::Text("Maximum script execution time in seconds (default 30)."@),
        ),
        member_of(flags_document(), "--version / -V"@) == Some(
            JsonModel::Text("Print the installed CLI version and exit."@),
        ),
        mentions(
            member_of(flags_document(), "--timeout"@)->0->Text_0,
            "(default "@ + decimal(DEFAULT_SCRIPT_TIMEOUT_SECS as nat) + ")"@,
        ),
{
    reveal_strlit("name");
    reveal_strlit("description");
    assert("name"@.len() == 4 && "description"@.len() == 11);
    reveal_strlit("--json");
    reveal_strlit("--connect");
    reveal_strlit("--timeout");
    reveal_strlit("--version / -V");
    assert("--json"@.len() == 6);
    assert("--connect"@.len() == 9 && "--timeout"@.len() == 9);
    assert("--connect"@[2] == 'c' && "--timeout"@[2] == 't');
    assert("--version / -V"@.len() == 14);
    let about = "Maximum script execution time in seconds (default 30)."@;
    reveal_strlit("Maximum script execution time in seconds (default 30).");
    reveal_strlit("(default ");
    reveal_strlit(")");
    reveal_with_fuel(decimal, 3);
    reveal(mentions);
    let part = "(default "@ + decimal(DEFAULT_SCRIPT_TIMEOUT_SECS as nat) + ")"@;
    assert(decimal(30) =~= seq!['3', '0']);
    assert(about.subrange(41int, 41int + part.len()) =~= part);
}

/// What a command is for, in words.
pub proof fn law_what_the_commands_are_for()
    ensures
        command_entries().len() == 8,
        command_entries()[0].about == "Run a script file against the browser"@,
        command_entries()[1].about
            == "Install Playwright browsers (Chromium) and verify Chromium actually launches"@,
        command_entries()[2].about
            == "Install the dev-browser skill into agent skill directories"@,
        command_entries()[3].about == "List all managed browser instances"@,
        command_entries()[4].about == "Show daemon status"@,
        command_entries()[5].about
            == "Stop the daemon and all browsers, or one named browser with --browser <NAME>"@,
        command_entries()[6].about == "Print this machine-readable capabilities document"@,
        command_entries()[7].about == "Print the full agent usage guide to stdout"@,
{
}

} // verus!
