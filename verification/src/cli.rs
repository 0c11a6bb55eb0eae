//! The command line: what it declares, and the configuration that it gives.

use std::path::PathBuf;

use vstd::prelude::*;

use crate::matcher::{
    arg_action_help, arg_action_set, arg_action_set_true, arg_default_value, arg_display_order,
    arg_group, arg_help, arg_long, arg_long_help, arg_min_values, arg_new, arg_pid_file_parser,
    arg_required, arg_short, arg_spec, arg_trailing, arg_value_name, clap_outcome, command_about,
    command_arg, command_author, command_color_always, command_disable_help_flag,
    command_disable_version_flag, command_help_template, command_new, command_spec,
    command_version, matched_flag, matched_path, matched_texts, texts, try_get_matches_from,
    ActionSpec, ArgSpec, CommandSpec, MatchSpec, ParserSpec, UsageError, UsageSpec,
};
use crate::syntax::{
    cli_meaning, path_option_names_the_pid_file, run_has_interfaces_and_pid_file, CliMeaning,
};

verus! {

/// A path of the file system.
#[verifier::external_type_specification]
#[verifier::external_body]
pub struct ExPathBuf(std::path::PathBuf);

/// The name of the program.
pub const PACKAGE: &'static str = "mdns-reflector";

/// The version of the program.
pub const VERSION: &'static str = "0.1.0";

/// The authors of the program.
pub const AUTHORS: &'static str = "";

/// What the program does.
pub const DESCRIPTION: &'static str = "";

/// Where the process id is recorded unless the command line says otherwise.
pub const PID_FILE: &'static str = "/var/run/mdns-reflector.pid";

/// How the help text is laid out.
pub const HELP_TEMPLATE: &'static str = "{before-help}{name} {version}\n{author-with-newline}{about-with-newline}\n{usage-heading} {usage}\n\n{all-args}{after-help}\n";

/// Why a path for the pid file is refused.
pub const NOT_ABSOLUTE: &'static str = "pid file path must be absolute";

/// The text of a path, if it is valid text.
pub uninterp spec fn path_text(path: PathBuf) -> Option<Seq<char>>;

/// Whether a path's text starts at the root.
pub open spec fn is_rooted(text: Seq<char>) -> bool {
    text.len() > 0 && text[0] == '/'
}

/// `PathBuf::from` on a text: a path of that very text.
#[verifier::external_body]
fn path_from_text(text: &str) -> (path: PathBuf)
    ensures
        path_text(path) == Some(text@),
{
    PathBuf::from(text)
}

/// `Path::is_absolute`: on Unix, whether the path starts with the root. It is said
/// here of paths that are valid text.
#[verifier::external_body]
fn path_is_absolute(path: &PathBuf) -> (absolute: bool)
    ensures
        path_text(*path) is Some ==> absolute == is_rooted(path_text(*path)->Some_0),
{
    path.is_absolute()
}

/// Whether `result` is what a text gives as the path of a pid file: a path of that
/// very text where it is absolute, and else the reason why not.
pub open spec fn is_pid_path(text: Seq<char>, result: Result<PathBuf, &'static str>) -> bool {
    match result {
        Ok(path) => is_rooted(text) && path_text(path) == Some(text),
        Err(message) => !is_rooted(text) && message@ == NOT_ABSOLUTE@,
    }
}

/// The path of a pid file, which must be absolute.
pub fn parse_into_pathbuf(parameter: &str) -> (result: Result<PathBuf, &'static str>)
    ensures
        is_pid_path(parameter@, result),
        result is Ok <==> parameter@.len() > 0 && parameter@[0] == '/',
{
    let pathbuf = path_from_text(parameter);
    if path_is_absolute(&pathbuf) {
        Ok(pathbuf)
    } else {
        Err(NOT_ABSOLUTE)
    }
}

/// A path that was taken has the text that it was taken from; and that text is taken
/// again, as a path of the same text.
pub proof fn pid_path_reads_back(
    text: Seq<char>,
    path: PathBuf,
    again: Result<PathBuf, &'static str>,
)
    requires
        is_pid_path(text, Ok(path)),
        path_text(path) matches Some(written) ==> is_pid_path(written, again),
    ensures
        path_text(path) == Some(text),
        again matches Ok(second) && path_text(second) == path_text(path),
{
}

/// The flag that keeps the program in the foreground.
pub open spec fn foreground_spec() -> ArgSpec {
    ArgSpec {
        short: Some('f'),
        help: Some("Runs the application in the foreground and logs to stdout"@),
        groups: seq!["daemonize"@],
        display_order: Some(0usize),
        action: Some(ActionSpec::Flag),
        ..ArgSpec::named("foreground"@)
    }
}

/// The flag that asks for more messages.
pub open spec fn verbose_spec() -> ArgSpec {
    ArgSpec {
        short: Some('v'),
        help: Some("Turns on verbose mode. Trace messages (very verbose!)"@),
        display_order: Some(1usize),
        action: Some(ActionSpec::Flag),
        ..ArgSpec::named("verbose"@)
    }
}

/// The option that says where the process id is recorded. It excludes the
/// foreground flag: the two are in one group.
pub open spec fn pid_file_spec() -> ArgSpec {
    ArgSpec {
        short: Some('p'),
        help: Some("Specifies the PID file path"@),
        groups: seq!["daemonize"@],
        display_order: Some(2usize),
        action: Some(ActionSpec::Store),
        parser: Some(ParserSpec::PidFilePath),
        default_values: seq![PID_FILE@],
        ..ArgSpec::named("pid_file"@)
    }
}

/// The interfaces: two or more, and all that follows the first one.
pub open spec fn interfaces_spec() -> ArgSpec {
    ArgSpec {
        help: Some("interfaces"@),
        long_help: Some("A minimum of 2 interfaces must be specified"@),
        display_order: Some(3usize),
        action: Some(ActionSpec::Store),
        min_values: Some(2usize),
        required: true,
        value_names: seq!["interface"@],
        trailing: true,
        ..ArgSpec::named("interfaces"@)
    }
}

/// The flag that asks for the help text.
pub open spec fn help_spec() -> ArgSpec {
    ArgSpec {
        short: Some('h'),
        long: Some("help"@),
        help: Some("Print this help message and exit"@),
        display_order: Some(4usize),
        action: Some(ActionSpec::ShowHelp),
        ..ArgSpec::named("help"@)
    }
}

/// A text that is declared only where there is one.
pub open spec fn unless_empty(text: Seq<char>) -> Option<Seq<char>> {
    if text.len() == 0 {
        None
    } else {
        Some(text)
    }
}

/// The command line that the program takes.
pub open spec fn cli_spec() -> CommandSpec {
    CommandSpec {
        version: Some(VERSION@),
        author: unless_empty(AUTHORS@),
        about: unless_empty(DESCRIPTION@),
        help_template: Some(HELP_TEMPLATE@),
        help_flag_disabled: true,
        version_flag_disabled: true,
        always_coloured: true,
        args: seq![
            foreground_spec(),
            verbose_spec(),
            pid_file_spec(),
            interfaces_spec(),
            help_spec(),
        ],
        ..CommandSpec::named(PACKAGE@)
    }
}

fn foreground_arg() -> (arg: clap::Arg)
    ensures
        arg_spec(arg) == foreground_spec(),
{
    let arg = arg_short(arg_new("foreground"), 'f');
    let arg = arg_help(arg, "Runs the application in the foreground and logs to stdout");
    let arg = arg_group(arg, "daemonize");
    let arg = arg_display_order(arg, 0);
    arg_action_set_true(arg)
}

fn verbose_arg() -> (arg: clap::Arg)
    ensures
        arg_spec(arg) == verbose_spec(),
{
    let arg = arg_short(arg_new("verbose"), 'v');
    let arg = arg_help(arg, "Turns on verbose mode. Trace messages (very verbose!)");
    let arg = arg_display_order(arg, 1);
    arg_action_set_true(arg)
}

fn pid_file_arg() -> (arg: clap::Arg)
    ensures
        arg_spec(arg) == pid_file_spec(),
{
    let arg = arg_short(arg_new("pid_file"), 'p');
    let arg = arg_help(arg, "Specifies the PID file path");
    let arg = arg_group(arg, "daemonize");
    let arg = arg_display_order(arg, 2);
    let arg = arg_action_set(arg);
    let arg = arg_pid_file_parser(arg);
    arg_default_value(arg, PID_FILE)
}

fn interfaces_arg() -> (arg: clap::Arg)
    ensures
        arg_spec(arg) == interfaces_spec(),
{
    let arg = arg_help(arg_new("interfaces"), "interfaces");
    let arg = arg_long_help(arg, "A minimum of 2 interfaces must be specified");
    let arg = arg_display_order(arg, 3);
    let arg = arg_action_set(arg);
    let arg = arg_min_values(arg, 2);
    let arg = arg_required(arg, true);
    let arg = arg_value_name(arg, "interface");
    arg_trailing(arg, true)
}

fn help_arg() -> (arg: clap::Arg)
    ensures
        arg_spec(arg) == help_spec(),
{
    let arg = arg_long(arg_short(arg_new("help"), 'h'), "help");
    let arg = arg_help(arg, "Print this help message and exit");
    let arg = arg_display_order(arg, 4);
    arg_action_help(arg)
}

/// Declares the command line.
pub fn build_clap_matcher() -> (command: clap::Command)
    ensures
        command_spec(command) == cli_spec(),
{
    let command = command_version(command_new(PACKAGE), VERSION);
    let command = if AUTHORS.is_empty() {
        command
    } else {
        command_author(command, AUTHORS)
    };
    let command = if DESCRIPTION.is_empty() {
        command
    } else {
        command_about(command, DESCRIPTION)
    };
    let command = command_help_template(command, HELP_TEMPLATE);
    let command = command_disable_help_flag(command, true);
    let command = command_disable_version_flag(command, true);
    let command = command_color_always(command);
    let command = command_arg(command, foreground_arg());
    let command = command_arg(command, verbose_arg());
    let command = command_arg(command, pid_file_arg());
    let command = command_arg(command, interfaces_arg());
    command_arg(command, help_arg())
}

/// How the program is to run.
#[derive(Debug)]
pub struct Config {
    /// Whether the program stays in the foreground.
    pub foreground: bool,
    /// Whether it says more of what it does.
    pub verbose: bool,
    /// Where the process id is recorded.
    pub pid_file: PathBuf,
}

/// The value of an optional flag, which is off unless it is set.
pub open spec fn flag_or_off(flag: Option<bool>) -> bool {
    flag == Some(true)
}

impl Config {
    /// The configuration that the values of the command line give.
    pub fn from_values(
        foreground: Option<bool>,
        verbose: Option<bool>,
        pid_file: Option<PathBuf>,
    ) -> (config: Config)
        ensures
            config.foreground == flag_or_off(foreground),
            config.verbose == flag_or_off(verbose),
            pid_file matches Some(path) ==> config.pid_file == path,
            pid_file is None ==> path_text(config.pid_file) == Some(PID_FILE@),
    {
        let foreground = match foreground {
            Some(foreground) => foreground,
            None => false,
        };
        let verbose = match verbose {
            Some(verbose) => verbose,
            None => false,
        };
        let pid_file = match pid_file {
            Some(pid_file) => pid_file,
            None => path_from_text(PID_FILE),
        };
        Config { foreground, verbose, pid_file }
    }
}

/// Reads a command line, the program's own name first: the configuration and the
/// names of the interfaces, or how the program is to end. The text of an error is the
/// one that `clap` gives.
pub fn parse_cli_from(from: Vec<String>) -> (result: Result<(Config, Vec<String>), UsageError>)
    ensures
        match cli_meaning(texts(from@)) {
            CliMeaning::Run { foreground, verbose, pid_file, interfaces } => {
                &&& result matches Ok((config, names))
                &&& config.foreground == foreground
                &&& config.verbose == verbose
                &&& path_text(config.pid_file) == Some(pid_file)
                &&& texts(names@) == interfaces
            },
            CliMeaning::ShowHelp => {
                &&& result matches Err(error)
                &&& !error.to_stderr
                &&& error.exit_code == 0
            },
            CliMeaning::Refused => {
                &&& result matches Err(error)
                &&& error.to_stderr
                &&& error.exit_code == 2
            },
        },
        result matches Err(error) ==> clap_outcome(cli_spec(), texts(from@)) == Err::<
            MatchSpec,
            UsageSpec,
        >(error@),
        result matches Ok((config, names)) ==> {
            &&& names@.len() >= 2
            &&& texts(names@).is_suffix_of(texts(from@).skip(1))
            &&& path_text(config.pid_file) matches Some(path)
            &&& is_rooted(path)
            &&& config.foreground ==> path == PID_FILE@
        },
{
    match try_get_matches_from(build_clap_matcher(), from) {
        Ok(matches) => {
            proof {
                reveal_strlit("foreground");
                reveal_strlit("verbose");
                assert("foreground"@.len() != "verbose"@.len());
                let args = cli_spec().args;
                assert(args[0] == foreground_spec());
                assert(args[1] == verbose_spec());
                assert(args[2] == pid_file_spec());
                assert(args[3] == interfaces_spec());
            }
            let foreground = matched_flag(&matches, "foreground");
            let verbose = matched_flag(&matches, "verbose");
            let pid_file = matched_path(&matches, "pid_file");
            let interfaces = matched_texts(&matches, "interfaces").unwrap();
            proof {
                assert(texts(interfaces@).len() == interfaces@.len());
                run_has_interfaces_and_pid_file(texts(from@));
            }
            Ok((Config::from_values(foreground, verbose, pid_file), interfaces))
        },
        Err(error) => Err(error),
    }
}

/// The pid file is named after the program, and its default path is absolute.
pub proof fn default_pid_file_is_named_after_the_program()
    ensures
        PID_FILE@ == "/var/run/"@ + PACKAGE@ + ".pid"@,
        is_rooted(PID_FILE@),
{
    reveal_strlit("/var/run/mdns-reflector.pid");
    reveal_strlit("/var/run/");
    reveal_strlit("mdns-reflector");
    reveal_strlit(".pid");
    assert(PID_FILE@ =~= "/var/run/"@ + PACKAGE@ + ".pid"@);
}

/// Every text whose first character is a slash is taken as the path of a pid file, as a
/// path of that very text, and no other text is.
pub proof fn path_is_taken_for_its_first_character(
    text: Seq<char>,
    result: Result<PathBuf, &'static str>,
)
    requires
        is_pid_path(text, result),
    ensures
        result is Ok <==> text.len() > 0 && text[0] == '/',
        result matches Ok(path) ==> path_text(path) == Some(text),
        result matches Err(message) ==> message@ == "pid file path must be absolute"@,
{
}

/// The command line takes a path exactly where the parser of its value takes it, and the
/// pid file is then at the path that the parser gives.
pub proof fn command_line_takes_what_the_parser_takes(
    program: Seq<char>,
    text: Seq<char>,
    result: Result<PathBuf, &'static str>,
    names: Seq<Seq<char>>,
)
    requires
        is_pid_path(text, result),
        !(text.len() > 1 && text[0] == '-'),
        names.len() >= 2,
        !(names[0].len() > 1 && names[0][0] == '-'),
    ensures
        match cli_meaning(seq![program, "-p"@, text] + names) {
            CliMeaning::Run { pid_file, .. } => {
                &&& result matches Ok(path)
                &&& path_text(path) == Some(pid_file)
            },
            CliMeaning::Refused => result is Err,
            CliMeaning::ShowHelp => false,
        },
{
    path_is_taken_for_its_first_character(text, result);
    path_option_names_the_pid_file(program, text, names);
}

/// A flag is on exactly where it has the value `true`; one without a value is off.
pub proof fn flag_is_off_unless_set(flag: Option<bool>)
    ensures
        flag is None ==> !flag_or_off(flag),
        flag matches Some(value) ==> flag_or_off(flag) == value,
{
}

} // verus!
