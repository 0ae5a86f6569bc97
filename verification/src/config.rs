//! How long a browser may sit idle before the daemon closes it.
//!
//! The setting comes from the command line, else from the environment, else
//! from the user's configuration file; zero, which is also the default,
//! disables the cleanup.

use vstd::prelude::*;
use vstd::string::*;

use crate::connection::optional_path;
use crate::paths::{
    bytes_of, joined_path, law_join_adds_one_part, lossy_text, may_be_home, path_parts, user_home,
    FilePath, PathPart,
};
use crate::text::{
    all_digits, chars_of, decimal, digits_value, is_digit, is_white_space, law_decimal_reads_back,
    parse_unsigned, text_between, trim, trimmed, unsigned_number, without_plus,
};

verus! {

/// The largest number of milliseconds that the daemon can hold exactly.
pub const MAX_SAFE_TIMEOUT_MS: u64 = 9_007_199_254_740_991;

/// The setting as the configuration file writes it.
#[derive(Debug)]
pub enum IdleTimeoutValue {
    Text(String),
    Milliseconds(u64),
}

/// What the configuration file holds.
#[derive(Debug)]
pub struct UserConfig {
    pub idle_timeout: Option<IdleTimeoutValue>,
}

/// What came of reading the configuration file: it is not there, it cannot be
/// read, it is not a configuration, or it is one. The texts say why.
#[derive(Debug)]
pub enum ConfigContents {
    Missing,
    Unreadable(String),
    Invalid(String),
    Parsed(UserConfig),
}

/// The configuration file.
#[derive(Debug)]
pub struct ConfigFile {
    pub path: FilePath,
    pub contents: ConfigContents,
}

/// Whether `c` is a letter of the ASCII alphabet.
pub open spec fn is_ascii_letter(c: char) -> bool {
    ('a' <= c <= 'z') || ('A' <= c <= 'Z')
}

/// The milliseconds that the unit behind a number stands for, if the text
/// ends with one.
pub open spec fn unit_of(last: char) -> Option<nat> {
    if last == 's' {
        Some(1_000)
    } else if last == 'm' {
        Some(60_000)
    } else if last == 'h' {
        Some(3_600_000)
    } else {
        None
    }
}

/// The milliseconds that `number` units of `unit` milliseconds are.
pub open spec fn amount_of(number: Seq<char>, unit: nat) -> Result<nat, Seq<char>> {
    if number.len() == 0 {
        Err("idle timeout is missing a number"@)
    } else {
        match unsigned_number(number, u64::MAX as nat) {
            Some(amount) => if amount * unit > MAX_SAFE_TIMEOUT_MS {
                Err("idle timeout is too large"@)
            } else {
                Ok(amount * unit)
            },
            None => Err("idle timeout must be a non-negative integer"@),
        }
    }
}

/// The milliseconds that a setting stands for: a whole number with the unit
/// `s`, `m` or `h`, or of milliseconds, with white space around it.
pub open spec fn idle_timeout(setting: Seq<char>) -> Result<nat, Seq<char>> {
    let value = trimmed(setting);
    if value.len() == 0 {
        Err("idle timeout cannot be empty"@)
    } else {
        match unit_of(value.last()) {
            Some(unit) => amount_of(value.drop_last(), unit),
            None => if is_ascii_letter(value.last()) {
                Err("invalid unit (use s, m, h, or raw milliseconds)"@)
            } else {
                amount_of(value, 1)
            },
        }
    }
}

/// The milliseconds that an outcome holds, as a number.
pub open spec fn milliseconds_view(outcome: Result<u64, String>) -> Result<nat, Seq<char>> {
    match outcome {
        Ok(milliseconds) => Ok(milliseconds as nat),
        Err(message) => Err(message@),
    }
}

fn parse_amount(number: &str, unit: u64) -> (outcome: Result<u64, String>)
    ensures
        milliseconds_view(outcome) == amount_of(number@, unit as nat),
{
    if number.unicode_len() == 0 {
        return Err("idle timeout is missing a number".to_string());
    }
    let amount: u64 = match parse_unsigned(number, u64::MAX) {
        Some(amount) => amount,
        None => {
            return Err("idle timeout must be a non-negative integer".to_string());
        },
    };
    let milliseconds: u64 = match amount.checked_mul(unit) {
        Some(milliseconds) => milliseconds,
        None => {
            return Err("idle timeout is too large".to_string());
        },
    };
    if milliseconds > MAX_SAFE_TIMEOUT_MS {
        return Err("idle timeout is too large".to_string());
    }
    Ok(milliseconds)
}

/// Reads an idle timeout such as `30s`, `5m`, `1h` or `2500`.
pub fn parse_idle_timeout(value: &str) -> (outcome: Result<u64, String>)
    ensures
        milliseconds_view(outcome) == idle_timeout(value@),
{
    let value = trim(value);
    let chars = chars_of(&value);
    let count: usize = chars.len();
    if count == 0 {
        return Err("idle timeout cannot be empty".to_string());
    }
    let last = chars[count - 1];
    let number = text_between(&chars, 0, count - 1);
    proof {
        assert(number@ =~= value@.drop_last());
    }
    if last == 's' {
        parse_amount(&number, 1_000)
    } else if last == 'm' {
        parse_amount(&number, 60_000)
    } else if last == 'h' {
        parse_amount(&number, 3_600_000)
    } else if ('a' <= last && last <= 'z') || ('A' <= last && last <= 'Z') {
        Err("invalid unit (use s, m, h, or raw milliseconds)".to_string())
    } else {
        parse_amount(&value, 1)
    }
}

/// The setting that the configuration file makes.
pub open spec fn config_idle_timeout(file: ConfigFile) -> Result<nat, Seq<char>> {
    let path = lossy_text(file.path@);
    match file.contents {
        ConfigContents::Missing => Ok(0),
        ConfigContents::Unreadable(error) => Err(error@),
        ConfigContents::Invalid(error) => Err(
            "Invalid user config at "@ + path + ": "@ + error@,
        ),
        ConfigContents::Parsed(config) => match config.idle_timeout {
            Some(IdleTimeoutValue::Text(value)) => match idle_timeout(value@) {
                Ok(milliseconds) => Ok(milliseconds),
                Err(error) => Err("Invalid idleTimeout in "@ + path + ": "@ + error),
            },
            Some(IdleTimeoutValue::Milliseconds(milliseconds)) => if milliseconds
                > MAX_SAFE_TIMEOUT_MS {
                Err("Invalid idleTimeout in "@ + path + ": "@ + "idle timeout is too large"@)
            } else {
                Ok(milliseconds as nat)
            },
            None => Ok(0),
        },
    }
}

/// The setting that is in force: the command line's, else the environment's,
/// else the configuration file's, else none.
pub open spec fn resolved_idle_timeout(
    cli_value: Option<u64>,
    environment_value: Option<Seq<char>>,
    config: Option<ConfigFile>,
) -> Result<nat, Seq<char>> {
    match cli_value {
        Some(milliseconds) => Ok(milliseconds as nat),
        None => match environment_value {
            Some(value) => match idle_timeout(value) {
                Ok(milliseconds) => Ok(milliseconds),
                Err(error) => Err("Invalid DEV_BROWSER_IDLE_TIMEOUT_MS: "@ + error),
            },
            None => match config {
                Some(file) => config_idle_timeout(file),
                None => Ok(0),
            },
        },
    }
}

fn invalid_setting(path: &FilePath, error: &str) -> (message: String)
    ensures
        message@ == "Invalid idleTimeout in "@ + lossy_text(path@) + ": "@ + error@,
{
    let mut message = "Invalid idleTimeout in ".to_string();
    message.append(&path.display());
    message.append(": ");
    message.append(error);
    message
}

fn resolve_config(file: &ConfigFile) -> (outcome: Result<u64, String>)
    ensures
        milliseconds_view(outcome) == config_idle_timeout(*file),
{
    match &file.contents {
        ConfigContents::Missing => Ok(0),
        ConfigContents::Unreadable(error) => Err(error.clone()),
        ConfigContents::Invalid(error) => {
            let mut message = "Invalid user config at ".to_string();
            message.append(&file.path.display());
            message.append(": ");
            message.append(error);
            Err(message)
        },
        ConfigContents::Parsed(config) => match &config.idle_timeout {
            Some(IdleTimeoutValue::Text(value)) => match parse_idle_timeout(value) {
                Ok(milliseconds) => Ok(milliseconds),
                Err(error) => Err(invalid_setting(&file.path, &error)),
            },
            Some(IdleTimeoutValue::Milliseconds(milliseconds)) => if *milliseconds
                > MAX_SAFE_TIMEOUT_MS {
                Err(invalid_setting(&file.path, "idle timeout is too large"))
            } else {
                Ok(*milliseconds)
            },
            None => Ok(0),
        },
    }
}

/// Resolves the idle timeout. `config` is the configuration file, if there is
/// a place to look for one.
pub fn resolve_idle_timeout(
    cli_value: Option<u64>,
    environment_value: Option<&str>,
    config: Option<&ConfigFile>,
) -> (outcome: Result<u64, String>)
    ensures
        milliseconds_view(outcome) == resolved_idle_timeout(
            cli_value,
            stated(environment_value),
            match config {
                Some(file) => Some(*file),
                None => None,
            },
        ),
{
    if let Some(milliseconds) = cli_value {
        return Ok(milliseconds);
    }
    if let Some(value) = environment_value {
        return match parse_idle_timeout(value) {
            Ok(milliseconds) => Ok(milliseconds),
            Err(error) => {
                let mut message = "Invalid DEV_BROWSER_IDLE_TIMEOUT_MS: ".to_string();
                message.append(&error);
                Err(message)
            },
        };
    }
    match config {
        Some(file) => resolve_config(file),
        None => Ok(0),
    }
}

/// The configuration file, given the home directory.
pub open spec fn config_location(home: Option<Seq<u8>>) -> Option<Seq<u8>> {
    match home {
        Some(home) => Some(
            joined_path(joined_path(home, bytes_of(".dev-browser"@)), bytes_of("config.json"@)),
        ),
        None => None,
    }
}

/// The configuration file in the given home directory.
pub fn config_path_in(home: Option<FilePath>) -> (path: Option<FilePath>)
    ensures
        optional_path(path) == config_location(optional_path(home)),
{
    match home {
        Some(home) => Some(home.join(".dev-browser").join("config.json")),
        None => None,
    }
}

/// An optional text, by its characters.
pub open spec fn stated(value: Option<&str>) -> Option<Seq<char>> {
    match value {
        Some(value) => Some(value@),
        None => None,
    }
}

/// Whether `outcome` is what the configuration file in a home directory says,
/// as `read` can have read it.
pub open spec fn follows_config<F: Fn(&FilePath) -> ConfigContents>(
    outcome: Result<nat, Seq<char>>,
    home: Option<Seq<u8>>,
    read: F,
) -> bool {
    match config_location(home) {
        Some(path) => exists|file: ConfigFile|
            file.path@ == path && #[trigger] call_ensures(read, (&file.path,), file.contents)
                && outcome == config_idle_timeout(file),
        None => outcome == Ok::<nat, Seq<char>>(0),
    }
}

/// The idle timeout that is in force, given what the command line and the
/// environment say and the home directory. The configuration file in that
/// directory is read, by means of `read`, only if neither says anything: else
/// `read` need not even be callable.
pub fn effective_idle_timeout_ms_in<F: Fn(&FilePath) -> ConfigContents>(
    cli_value: Option<u64>,
    environment_value: Option<&str>,
    home: Option<FilePath>,
    read: F,
) -> (outcome: Result<u64, String>)
    requires
        cli_value is None && environment_value is None ==> forall|path: FilePath| #[trigger]
            call_requires(read, (&path,)),
    ensures
        if cli_value is Some || environment_value is Some {
            milliseconds_view(outcome) == resolved_idle_timeout(
                cli_value,
                stated(environment_value),
                None,
            )
        } else {
            follows_config(milliseconds_view(outcome), optional_path(home), read)
        },
{
    if cli_value.is_some() || environment_value.is_some() {
        return resolve_idle_timeout(cli_value, environment_value, None);
    }
    match config_path_in(home) {
        Some(path) => {
            let contents = read(&path);
            let file = ConfigFile { path, contents };
            let outcome = resolve_idle_timeout(None, None, Some(&file));
            proof {
                assert(call_ensures(read, (&file.path,), file.contents));
            }
            outcome
        },
        None => Ok(0),
    }
}

/// The idle timeout that is in force, given what the command line and the
/// environment say, for the user whose home directory it is.
pub fn effective_idle_timeout_ms<F: Fn(&FilePath) -> ConfigContents>(
    cli_value: Option<u64>,
    environment_value: Option<&str>,
    read: F,
) -> (outcome: Result<u64, String>)
    requires
        cli_value is None && environment_value is None ==> forall|path: FilePath| #[trigger]
            call_requires(read, (&path,)),
    ensures
        if cli_value is Some || environment_value is Some {
            milliseconds_view(outcome) == resolved_idle_timeout(
                cli_value,
                stated(environment_value),
                None,
            )
        } else {
            exists|home: Option<Seq<u8>>|
                may_be_home(home) && #[trigger] follows_config(
                    milliseconds_view(outcome),
                    home,
                    read,
                )
        },
{
    let home = user_home();
    let ghost found = optional_path(home);
    let outcome = effective_idle_timeout_ms_in(cli_value, environment_value, home, read);
    proof {
        if cli_value is None && environment_value is None {
            assert(follows_config(milliseconds_view(outcome), found, read));
        }
    }
    outcome
}

proof fn lemma_nothing_to_trim(text: Seq<char>)
    requires
        text.len() > 0,
        !is_white_space(text[0]),
        !is_white_space(text.last()),
    ensures
        trimmed(text) == text,
{
}

/// Every number of seconds, minutes, hours or milliseconds that is not too
/// large can be set.
pub proof fn law_every_timeout_can_be_set(n: nat)
    ensures
        n * 1_000 <= MAX_SAFE_TIMEOUT_MS ==> idle_timeout(decimal(n).push('s')) == Ok::<
            nat,
            Seq<char>,
        >(n * 1_000),
        n * 60_000 <= MAX_SAFE_TIMEOUT_MS ==> idle_timeout(decimal(n).push('m')) == Ok::<
            nat,
            Seq<char>,
        >(n * 60_000),
        n * 3_600_000 <= MAX_SAFE_TIMEOUT_MS ==> idle_timeout(decimal(n).push('h')) == Ok::<
            nat,
            Seq<char>,
        >(n * 3_600_000),
        n <= MAX_SAFE_TIMEOUT_MS ==> idle_timeout(decimal(n)) == Ok::<nat, Seq<char>>(n),
{
    let digits = decimal(n);
    law_decimal_reads_back(n);
    assert(is_digit(digits[0]));
    assert(is_digit(digits.last()));
    lemma_nothing_to_trim(digits);
    lemma_nothing_to_trim(digits.push('s'));
    lemma_nothing_to_trim(digits.push('m'));
    lemma_nothing_to_trim(digits.push('h'));
    assert(digits.push('s').drop_last() =~= digits);
    assert(digits.push('m').drop_last() =~= digits);
    assert(digits.push('h').drop_last() =~= digits);
    assert(without_plus(digits) == digits);
}

/// A setting that is accepted is a number that the daemon can hold exactly.
pub proof fn law_accepted_timeout_is_safe(setting: Seq<char>)
    ensures
        idle_timeout(setting) matches Ok(milliseconds) ==> milliseconds <= MAX_SAFE_TIMEOUT_MS,
{
}

/// The command line goes before the environment, the environment before the
/// configuration file, and without any of them the cleanup is disabled.
pub proof fn law_timeout_precedence(
    milliseconds: u64,
    setting: Seq<char>,
    environment_value: Option<Seq<char>>,
    config: Option<ConfigFile>,
    other_config: Option<ConfigFile>,
)
    ensures
        resolved_idle_timeout(Some(milliseconds), environment_value, config) == Ok::<
            nat,
            Seq<char>,
        >(milliseconds as nat),
        resolved_idle_timeout(None, Some(setting), config) == resolved_idle_timeout(
            None,
            Some(setting),
            other_config,
        ),
        idle_timeout(setting) is Ok ==> resolved_idle_timeout(None, Some(setting), config)
            == idle_timeout(setting),
        config matches Some(file) ==> resolved_idle_timeout(None, None, config)
            == config_idle_timeout(file),
        resolved_idle_timeout(None, None, None) == Ok::<nat, Seq<char>>(0),
{
}

/// What the configuration file sets is what it says: a text means the same as in
/// the environment, a number is that many milliseconds, and without either the
/// cleanup is disabled.
pub proof fn law_the_file_sets_what_it_says(
    file: ConfigFile,
    text: String,
    number: u64,
)
    ensures
        file.contents == ConfigContents::Parsed(
            UserConfig { idle_timeout: Some(IdleTimeoutValue::Text(text)) },
        ) ==> {
            &&& idle_timeout(text@) matches Ok(milliseconds) ==> resolved_idle_timeout(
                None,
                None,
                Some(file),
            ) == Ok::<nat, Seq<char>>(milliseconds)
            &&& idle_timeout(text@) is Ok ==> resolved_idle_timeout(None, None, Some(file))
                == resolved_idle_timeout(None, Some(text@), None)
            &&& idle_timeout(text@) matches Err(reason) ==> resolved_idle_timeout(
                None,
                None,
                Some(file),
            ) == Err::<nat, Seq<char>>(
                "Invalid idleTimeout in "@ + lossy_text(file.path@) + ": "@ + reason,
            )
        },
        file.contents == ConfigContents::Parsed(
            UserConfig { idle_timeout: Some(IdleTimeoutValue::Milliseconds(number)) },
        ) ==> {
            &&& number <= 9_007_199_254_740_991 ==> resolved_idle_timeout(None, None, Some(file))
                == Ok::<nat, Seq<char>>(number as nat)
            &&& number > 9_007_199_254_740_991 ==> resolved_idle_timeout(None, None, Some(file))
                == Err::<nat, Seq<char>>(
                "Invalid idleTimeout in "@ + lossy_text(file.path@)
                    + ": "@ + "idle timeout is too large"@,
            )
        },
        file.contents == ConfigContents::Parsed(UserConfig { idle_timeout: None })
            || file.contents is Missing ==> resolved_idle_timeout(None, None, Some(file)) == Ok::<
            nat,
            Seq<char>,
        >(0),
{
}

/// A number of units that stands in the configuration file sets as many
/// milliseconds as it would anywhere else.
pub proof fn law_every_timeout_can_be_set_in_the_file(
    n: nat,
    unit: char,
    file: ConfigFile,
    text: String,
)
    requires
        file.contents == ConfigContents::Parsed(
            UserConfig { idle_timeout: Some(IdleTimeoutValue::Text(text)) },
        ),
        text@ == decimal(n).push(unit),
    ensures
        unit == 's' && n * 1_000 <= 9_007_199_254_740_991 ==> resolved_idle_timeout(
            None,
            None,
            Some(file),
        ) == Ok::<nat, Seq<char>>(n * 1_000),
        unit == 'm' && n * 60_000 <= 9_007_199_254_740_991 ==> resolved_idle_timeout(
            None,
            None,
            Some(file),
        ) == Ok::<nat, Seq<char>>(n * 60_000),
        unit == 'h' && n * 3_600_000 <= 9_007_199_254_740_991 ==> resolved_idle_timeout(
            None,
            None,
            Some(file),
        ) == Ok::<nat, Seq<char>>(n * 3_600_000),
{
    law_every_timeout_can_be_set(n);
}

/// A configuration file that cannot be used is an error that says why, and that
/// names the file where the file itself is at fault.
pub proof fn law_a_broken_file_is_reported(file: ConfigFile, error: String)
    ensures
        file.contents == ConfigContents::Unreadable(error) ==> resolved_idle_timeout(
            None,
            None,
            Some(file),
        ) == Err::<nat, Seq<char>>(error@),
        file.contents == ConfigContents::Invalid(error) ==> resolved_idle_timeout(
            None,
            None,
            Some(file),
        ) == Err::<nat, Seq<char>>(
            "Invalid user config at "@ + lossy_text(file.path@) + ": "@ + error@,
        ),
{
}

/// Whatever the sources say, the timeout in force is one that the daemon can hold
/// exactly, unless the command line sets it.
pub proof fn law_the_timeout_in_force_is_safe(
    environment_value: Option<Seq<char>>,
    config: Option<ConfigFile>,
)
    ensures
        resolved_idle_timeout(None, environment_value, config) matches Ok(milliseconds)
            ==> milliseconds <= 9_007_199_254_740_991,
{
}

/// A setting that is refused in the environment is reported as that variable's.
pub proof fn law_a_broken_variable_is_reported(
    setting: Seq<char>,
    config: Option<ConfigFile>,
)
    ensures
        idle_timeout(setting) matches Err(reason) ==> resolved_idle_timeout(
            None,
            Some(setting),
            config,
        ) == Err::<nat, Seq<char>>("Invalid DEV_BROWSER_IDLE_TIMEOUT_MS: "@ + reason),
{
}

/// A setting is accepted exactly if it is, but for the white space around it, a
/// number of decimal digits, perhaps with a plus sign before it, and perhaps with
/// one of the three units behind it, and not too large; and then it means that
/// number of these units. Anything else is refused, and the reason tells apart
/// nothing at all, a unit that is not known, a unit without a number, something
/// that is no number, and too much.
pub proof fn law_numbers_with_units_are_accepted(setting: Seq<char>)
    ensures
        ({
            let value = trimmed(setting);
            let last = value.last();
            let unit: nat = if last == 's' {
                1_000
            } else if last == 'm' {
                60_000
            } else if last == 'h' {
                3_600_000
            } else {
                1
            };
            let number = if last == 's' || last == 'm' || last == 'h' {
                value.drop_last()
            } else {
                value
            };
            let digits = if number.len() > 0 && number[0] == '+' {
                number.skip(1)
            } else {
                number
            };
            let is_number = digits.len() > 0 && all_digits(digits);
            &&& idle_timeout(setting) is Ok <==> value.len() > 0 && is_number && digits_value(
                digits,
            ) * unit <= 9_007_199_254_740_991
            &&& idle_timeout(setting) matches Ok(milliseconds) ==> milliseconds == digits_value(
                digits,
            ) * unit
            &&& idle_timeout(setting) matches Err(reason) ==> reason == if value.len() == 0 {
                "idle timeout cannot be empty"@
            } else if unit == 1 && (('a' <= last <= 'z') || ('A' <= last <= 'Z')) {
                "invalid unit (use s, m, h, or raw milliseconds)"@
            } else if number.len() == 0 {
                "idle timeout is missing a number"@
            } else if !is_number || digits_value(digits) > u64::MAX {
                "idle timeout must be a non-negative integer"@
            } else {
                "idle timeout is too large"@
            }
        }),
{
    let value = trimmed(setting);
    let number = match unit_of(value.last()) {
        Some(_) => value.drop_last(),
        None => value,
    };
    let digits = without_plus(number);
    if value.len() > 0 && unit_of(value.last()) is None && all_digits(digits) && digits.len()
        > 0 {
        assert(value.last() == digits[digits.len() - 1]);
        assert(is_digit(digits[digits.len() - 1]));
    }
}

/// White space around a setting does not matter.
pub proof fn law_white_space_around_a_setting_is_ignored(setting: Seq<char>, other: Seq<char>)
    requires
        trimmed(setting) == trimmed(other),
    ensures
        idle_timeout(setting) == idle_timeout(other),
{
}

/// The configuration file is `config.json` in `.dev-browser` in the home
/// directory.
pub proof fn law_the_file_is_under_dev_browser(home: Seq<u8>)
    ensures
        config_location(None) is None,
        config_location(Some(home)) is Some,
        path_parts(config_location(Some(home))->0) == path_parts(home).push(
            PathPart::Normal(bytes_of(".dev-browser"@)),
        ).push(PathPart::Normal(bytes_of("config.json"@))),
{
    reveal_strlit(".dev-browser");
    reveal_strlit("config.json");
    vstd::utf8::is_ascii_chars_encode_utf8(".dev-browser"@);
    vstd::utf8::is_ascii_chars_encode_utf8("config.json"@);
    law_join_adds_one_part(home, bytes_of(".dev-browser"@));
    law_join_adds_one_part(
        joined_path(home, bytes_of(".dev-browser"@)),
        bytes_of("config.json"@),
    );
}

/// What is in force without a word from the command line or the environment is
/// what the file in the home directory says, if it can only be read in one way;
/// without a home directory the cleanup is disabled.
pub proof fn law_the_file_in_the_home_directory_decides<F: Fn(&FilePath) -> ConfigContents>(
    outcome: Result<nat, Seq<char>>,
    home: Option<Seq<u8>>,
    read: F,
    contents: ConfigContents,
)
    requires
        follows_config(outcome, home, read),
        forall|path: FilePath, found: ConfigContents| #[trigger]
            call_ensures(read, (&path,), found) ==> found == contents,
    ensures
        home is None ==> outcome == Ok::<nat, Seq<char>>(0),
        home is Some ==> exists|file: ConfigFile|
            {
                &&& Some(file.path@) == config_location(home)
                &&& file.contents == contents
                &&& outcome == #[trigger] resolved_idle_timeout(None, None, Some(file))
            },
{
    if home is Some {
        let path = config_location(home)->0;
        let file = choose|file: ConfigFile|
            file.path@ == path && #[trigger] call_ensures(read, (&file.path,), file.contents)
                && outcome == config_idle_timeout(file);
        assert(outcome == resolved_idle_timeout(None, None, Some(file)));
    }
}

/// A timeout is modelled by its milliseconds, and a setting by its text.
pub proof fn law_timeouts_are_modelled_by_their_milliseconds(
    milliseconds: u64,
    message: String,
    text: &str,
)
    ensures
        milliseconds_view(Ok(milliseconds)) == Ok::<nat, Seq<char>>(milliseconds as nat),
        milliseconds_view(Err(message)) == Err::<nat, Seq<char>>(message@),
        stated(Some(text)) == Some(text@),
        stated(None) is None,
{
}

} // verus!
