//! The parts of `clap` that the command line is built from and read with.
//!
//! `clap` keeps its values to itself, so each of its types is described by a
//! model: what has been declared of an argument and of a command, and what a
//! successful match holds. Every function here hands its arguments to one
//! function of `clap`; its contract says what that does to the model.

use std::path::PathBuf;

use vstd::prelude::*;

use crate::cli::{cli_spec, parse_into_pathbuf, path_text};
use crate::syntax::{cli_meaning, CliMeaning};

verus! {

/// An argument that is being declared.
#[verifier::external_type_specification]
#[verifier::external_body]
pub struct ExArg(clap::Arg);

/// A command that is being declared.
#[verifier::external_type_specification]
#[verifier::external_body]
pub struct ExCommand(clap::Command);

/// What a command line that fits a command holds.
#[verifier::external_type_specification]
#[verifier::external_body]
pub struct ExArgMatches(clap::ArgMatches);

/// What happens when an argument is met on the command line.
pub enum ActionSpec {
    /// The value is stored; a second one is an error.
    Store,
    /// The argument is a flag: `true` where it is given, else `false`.
    Flag,
    /// The help text is shown.
    ShowHelp,
}

/// How the text of a value becomes the value.
pub enum ParserSpec {
    /// By [`parse_into_pathbuf`].
    PidFilePath,
}

/// All that has been declared of one argument.
#[verifier::ext_equal]
pub struct ArgSpec {
    pub id: Seq<char>,
    pub short: Option<char>,
    pub long: Option<Seq<char>>,
    pub help: Option<Seq<char>>,
    pub long_help: Option<Seq<char>>,
    pub groups: Seq<Seq<char>>,
    pub display_order: Option<usize>,
    pub action: Option<ActionSpec>,
    pub parser: Option<ParserSpec>,
    pub default_values: Seq<Seq<char>>,
    pub min_values: Option<usize>,
    pub required: bool,
    pub value_names: Seq<Seq<char>>,
    pub trailing: bool,
}

impl ArgSpec {
    /// An argument of which nothing but its name is declared.
    pub open spec fn named(id: Seq<char>) -> ArgSpec {
        ArgSpec {
            id,
            short: None,
            long: None,
            help: None,
            long_help: None,
            groups: Seq::empty(),
            display_order: None,
            action: None,
            parser: None,
            default_values: Seq::empty(),
            min_values: None,
            required: false,
            value_names: Seq::empty(),
            trailing: false,
        }
    }
}

/// All that has been declared of a command.
#[verifier::ext_equal]
pub struct CommandSpec {
    pub name: Seq<char>,
    pub version: Option<Seq<char>>,
    pub author: Option<Seq<char>>,
    pub about: Option<Seq<char>>,
    pub help_template: Option<Seq<char>>,
    pub help_flag_disabled: bool,
    pub version_flag_disabled: bool,
    pub always_coloured: bool,
    pub args: Seq<ArgSpec>,
}

impl CommandSpec {
    /// A command of which nothing but its name is declared.
    pub open spec fn named(name: Seq<char>) -> CommandSpec {
        CommandSpec {
            name,
            version: None,
            author: None,
            about: None,
            help_template: None,
            help_flag_disabled: false,
            version_flag_disabled: false,
            always_coloured: false,
            args: Seq::empty(),
        }
    }
}

/// What a match holds: the arguments that its command declares, and by their
/// names the values of its flags, the texts of its paths, and its plain texts.
pub struct MatchSpec {
    pub args: Seq<ArgSpec>,
    pub flags: Map<Seq<char>, bool>,
    pub paths: Map<Seq<char>, Seq<char>>,
    pub texts: Map<Seq<char>, Seq<Seq<char>>>,
}

/// Why a command line was not taken, and how the program is to end: with what
/// text on which stream, and with what exit code.
#[derive(Debug)]
pub struct UsageError {
    pub message: String,
    pub to_stderr: bool,
    pub exit_code: i32,
}

/// The contents of a [`UsageError`].
pub struct UsageSpec {
    pub message: Seq<char>,
    pub to_stderr: bool,
    pub exit_code: i32,
}

impl View for UsageError {
    type V = UsageSpec;

    open spec fn view(&self) -> UsageSpec {
        UsageSpec {
            message: self.message@,
            to_stderr: self.to_stderr,
            exit_code: self.exit_code,
        }
    }
}

/// The texts of a list of strings.
pub open spec fn texts(strings: Seq<String>) -> Seq<Seq<char>> {
    strings.map_values(|s: String| s@)
}

/// Whether `args` declares a flag of that name.
pub open spec fn declares_flag(args: Seq<ArgSpec>, id: Seq<char>) -> bool {
    exists|i: int|
        0 <= i < args.len() && (#[trigger] args[i]).id == id
            && args[i].action == Some(ActionSpec::Flag) && args[i].parser is None
}

/// Whether `args` declares an argument of that name whose values are paths.
pub open spec fn declares_path(args: Seq<ArgSpec>, id: Seq<char>) -> bool {
    exists|i: int|
        0 <= i < args.len() && (#[trigger] args[i]).id == id
            && args[i].parser == Some(ParserSpec::PidFilePath)
}

/// Whether `args` declares an argument of that name whose values are texts.
pub open spec fn declares_texts(args: Seq<ArgSpec>, id: Seq<char>) -> bool {
    exists|i: int|
        0 <= i < args.len() && (#[trigger] args[i]).id == id
            && args[i].action == Some(ActionSpec::Store) && args[i].parser is None
}

/// What has been declared of an argument.
pub uninterp spec fn arg_spec(arg: clap::Arg) -> ArgSpec;

/// What has been declared of a command.
pub uninterp spec fn command_spec(command: clap::Command) -> CommandSpec;

/// What a match holds.
pub uninterp spec fn match_spec(matches: clap::ArgMatches) -> MatchSpec;

/// What `clap` makes of a command line, the program's own name first, under the
/// declaration of a command.
pub uninterp spec fn clap_outcome(
    command: CommandSpec,
    args: Seq<Seq<char>>,
) -> Result<MatchSpec, UsageSpec>;

/// `clap::Arg::new`: an argument of that name, with nothing else declared.
#[verifier::external_body]
pub(crate) fn arg_new(id: &'static str) -> (result: clap::Arg)
    ensures
        arg_spec(result) == ArgSpec::named(id@),
{
    clap::Arg::new(id)
}

/// `clap::Arg::short`: the argument can be given as that letter behind a dash.
/// A dash is no such letter.
#[verifier::external_body]
pub(crate) fn arg_short(arg: clap::Arg, short: char) -> (result: clap::Arg)
    requires
        short != '-',
    ensures
        arg_spec(result) == (ArgSpec { short: Some(short), ..arg_spec(arg) }),
{
    arg.short(short)
}

/// `clap::Arg::long`: the argument can be given as that word behind two dashes.
#[verifier::external_body]
pub(crate) fn arg_long(arg: clap::Arg, long: &'static str) -> (result: clap::Arg)
    ensures
        arg_spec(result) == (ArgSpec { long: Some(long@), ..arg_spec(arg) }),
{
    arg.long(long)
}

/// `clap::Arg::help`: the short help text.
#[verifier::external_body]
pub(crate) fn arg_help(arg: clap::Arg, help: &'static str) -> (result: clap::Arg)
    ensures
        arg_spec(result) == (ArgSpec { help: Some(help@), ..arg_spec(arg) }),
{
    arg.help(help)
}

/// `clap::Arg::long_help`: the long help text.
#[verifier::external_body]
pub(crate) fn arg_long_help(arg: clap::Arg, help: &'static str) -> (result: clap::Arg)
    ensures
        arg_spec(result) == (ArgSpec { long_help: Some(help@), ..arg_spec(arg) }),
{
    arg.long_help(help)
}

/// `clap::Arg::group`: the argument belongs to one more group.
#[verifier::external_body]
pub(crate) fn arg_group(arg: clap::Arg, group: &'static str) -> (result: clap::Arg)
    ensures
        arg_spec(result) == (ArgSpec {
            groups: arg_spec(arg).groups.push(group@),
            ..arg_spec(arg)
        }),
{
    arg.group(group)
}

/// `clap::Arg::display_order`: the argument's place in the help text.
#[verifier::external_body]
pub(crate) fn arg_display_order(arg: clap::Arg, order: usize) -> (result: clap::Arg)
    ensures
        arg_spec(result) == (ArgSpec { display_order: Some(order), ..arg_spec(arg) }),
{
    arg.display_order(order)
}

/// `clap::Arg::action` with `ArgAction::Set`: the value is stored.
#[verifier::external_body]
pub(crate) fn arg_action_set(arg: clap::Arg) -> (result: clap::Arg)
    ensures
        arg_spec(result) == (ArgSpec { action: Some(ActionSpec::Store), ..arg_spec(arg) }),
{
    arg.action(clap::ArgAction::Set)
}

/// `clap::Arg::action` with `ArgAction::SetTrue`: the argument is a flag.
#[verifier::external_body]
pub(crate) fn arg_action_set_true(arg: clap::Arg) -> (result: clap::Arg)
    ensures
        arg_spec(result) == (ArgSpec { action: Some(ActionSpec::Flag), ..arg_spec(arg) }),
{
    arg.action(clap::ArgAction::SetTrue)
}

/// `clap::Arg::action` with `ArgAction::Help`: the argument asks for the help text.
#[verifier::external_body]
pub(crate) fn arg_action_help(arg: clap::Arg) -> (result: clap::Arg)
    ensures
        arg_spec(result) == (ArgSpec { action: Some(ActionSpec::ShowHelp), ..arg_spec(arg) }),
{
    arg.action(clap::ArgAction::Help)
}

/// `clap::Arg::value_parser` with [`parse_into_pathbuf`]: each value is what that
/// function makes of its text.
#[verifier::external_body]
pub(crate) fn arg_pid_file_parser(arg: clap::Arg) -> (result: clap::Arg)
    ensures
        arg_spec(result) == (ArgSpec { parser: Some(ParserSpec::PidFilePath), ..arg_spec(arg) }),
{
    arg.value_parser(parse_into_pathbuf)
}

/// `clap::Arg::default_value`: the one value that the argument has where it is
/// not given.
#[verifier::external_body]
pub(crate) fn arg_default_value(arg: clap::Arg, value: &'static str) -> (result: clap::Arg)
    ensures
        arg_spec(result) == (ArgSpec { default_values: seq![value@], ..arg_spec(arg) }),
{
    arg.default_value(value)
}

/// `clap::Arg::num_args` with a range that is open above: the argument takes at
/// least that many values.
#[verifier::external_body]
pub(crate) fn arg_min_values(arg: clap::Arg, min: usize) -> (result: clap::Arg)
    ensures
        arg_spec(result) == (ArgSpec { min_values: Some(min), ..arg_spec(arg) }),
{
    arg.num_args(min..)
}

/// `clap::Arg::required`: whether the argument must be given.
#[verifier::external_body]
pub(crate) fn arg_required(arg: clap::Arg, required: bool) -> (result: clap::Arg)
    ensures
        arg_spec(result) == (ArgSpec { required, ..arg_spec(arg) }),
{
    arg.required(required)
}

/// `clap::Arg::value_name`: what a value is called in the help text.
#[verifier::external_body]
pub(crate) fn arg_value_name(arg: clap::Arg, name: &'static str) -> (result: clap::Arg)
    ensures
        arg_spec(result) == (ArgSpec { value_names: seq![name@], ..arg_spec(arg) }),
{
    arg.value_name(name)
}

/// `clap::Arg::trailing_var_arg`: whether all that follows the argument's first
/// value is a value of it too.
#[verifier::external_body]
pub(crate) fn arg_trailing(arg: clap::Arg, trailing: bool) -> (result: clap::Arg)
    ensures
        arg_spec(result) == (ArgSpec { trailing, ..arg_spec(arg) }),
{
    arg.trailing_var_arg(trailing)
}

/// `clap::Command::new`: a command of that name, with nothing else declared.
#[verifier::external_body]
pub(crate) fn command_new(name: &'static str) -> (result: clap::Command)
    ensures
        command_spec(result) == CommandSpec::named(name@),
{
    clap::Command::new(name)
}

/// `clap::Command::version`: the version in the help text.
#[verifier::external_body]
pub(crate) fn command_version(command: clap::Command, version: &'static str) -> (result:
    clap::Command)
    ensures
        command_spec(result) == (CommandSpec {
            version: Some(version@),
            ..command_spec(command)
        }),
{
    command.version(version)
}

/// `clap::Command::author`: the author in the help text.
#[verifier::external_body]
pub(crate) fn command_author(command: clap::Command, author: &'static str) -> (result:
    clap::Command)
    ensures
        command_spec(result) == (CommandSpec { author: Some(author@), ..command_spec(command) }),
{
    command.author(author)
}

/// `clap::Command::about`: the description in the help text.
#[verifier::external_body]
pub(crate) fn command_about(command: clap::Command, about: &'static str) -> (result:
    clap::Command)
    ensures
        command_spec(result) == (CommandSpec { about: Some(about@), ..command_spec(command) }),
{
    command.about(about)
}

/// `clap::Command::help_template`: how the help text is laid out.
#[verifier::external_body]
pub(crate) fn command_help_template(command: clap::Command, template: &'static str) -> (result:
    clap::Command)
    ensures
        command_spec(result) == (CommandSpec {
            help_template: Some(template@),
            ..command_spec(command)
        }),
{
    command.help_template(template)
}

/// `clap::Command::disable_help_flag`: whether `clap` leaves its own help flag out.
#[verifier::external_body]
pub(crate) fn command_disable_help_flag(command: clap::Command, yes: bool) -> (result:
    clap::Command)
    ensures
        command_spec(result) == (CommandSpec {
            help_flag_disabled: yes,
            ..command_spec(command)
        }),
{
    command.disable_help_flag(yes)
}

/// `clap::Command::disable_version_flag`: whether `clap` leaves its own version
/// flag out.
#[verifier::external_body]
pub(crate) fn command_disable_version_flag(command: clap::Command, yes: bool) -> (result:
    clap::Command)
    ensures
        command_spec(result) == (CommandSpec {
            version_flag_disabled: yes,
            ..command_spec(command)
        }),
{
    command.disable_version_flag(yes)
}

/// `clap::Command::color` with `ColorChoice::Always`: texts are always coloured.
#[verifier::external_body]
pub(crate) fn command_color_always(command: clap::Command) -> (result: clap::Command)
    ensures
        command_spec(result) == (CommandSpec { always_coloured: true, ..command_spec(command) }),
{
    command.color(clap::ColorChoice::Always)
}

/// `clap::Command::arg`: the command declares one more argument. An argument that
/// has no place in the help text yet may be given one; nothing is said of it here.
#[verifier::external_body]
pub(crate) fn command_arg(command: clap::Command, arg: clap::Arg) -> (result: clap::Command)
    ensures
        arg_spec(arg).display_order is Some ==> command_spec(result) == (CommandSpec {
            args: command_spec(command).args.push(arg_spec(arg)),
            ..command_spec(command)
        }),
{
    command.arg(arg)
}

/// The model of what `clap` answers.
pub open spec fn outcome_spec(result: Result<clap::ArgMatches, UsageError>) -> Result<
    MatchSpec,
    UsageSpec,
> {
    match result {
        Ok(matches) => Ok(match_spec(matches)),
        Err(error) => Err(error@),
    }
}

/// Whether `clap` has understood a command line: a match holds what the command line
/// means, an error shows the help text where that is what it means, and no other
/// command line is without a match.
pub open spec fn is_understood(
    outcome: Result<MatchSpec, UsageSpec>,
    args: Seq<Seq<char>>,
) -> bool {
    match cli_meaning(args) {
        CliMeaning::Run { foreground, verbose, pid_file, interfaces } => {
            &&& outcome matches Ok(found)
            &&& found.args == cli_spec().args
            &&& found.flags == map!["foreground"@ => foreground, "verbose"@ => verbose]
            &&& found.paths == map!["pid_file"@ => pid_file]
            &&& found.texts == map!["interfaces"@ => interfaces]
        },
        CliMeaning::ShowHelp => {
            &&& outcome matches Err(error)
            &&& !error.to_stderr
            &&& error.exit_code == 0
        },
        CliMeaning::Refused => {
            &&& outcome matches Err(error)
            &&& error.to_stderr
            &&& error.exit_code == 2
        },
    }
}

/// `clap::Command::try_get_matches_from` on the command that [`cli_spec`] declares,
/// the error turned into plain values by `Error::render`, `Error::use_stderr` and
/// `Error::exit_code`.
///
/// The outcome is that of the declaration and the command line alone, and it is the
/// one that the command line means: options before interfaces, each of them once at
/// most, the two of one group not together, the path as its parser takes it, and two
/// interfaces at least. Of the text of an error nothing more is claimed.
#[verifier::external_body]
pub(crate) fn try_get_matches_from(command: clap::Command, args: Vec<String>) -> (result: Result<
    clap::ArgMatches,
    UsageError,
>)
    requires
        command_spec(command) == cli_spec(),
    ensures
        outcome_spec(result) == clap_outcome(cli_spec(), texts(args@)),
        is_understood(outcome_spec(result), texts(args@)),
{
    match command.try_get_matches_from(args) {
        Ok(matches) => Ok(matches),
        Err(error) => Err(
            UsageError {
                message: error.render().ansi().to_string(),
                to_stderr: error.use_stderr(),
                exit_code: error.exit_code(),
            },
        ),
    }
}

/// `clap::ArgMatches::get_one` for a flag: its value, if it has one.
#[verifier::external_body]
pub(crate) fn matched_flag(matches: &clap::ArgMatches, id: &str) -> (result: Option<bool>)
    requires
        declares_flag(match_spec(*matches).args, id@),
    ensures
        result == match_spec(*matches).flags.get(id@),
{
    matches.get_one::<bool>(id).copied()
}

/// `clap::ArgMatches::get_one` for a path: a path of its text, if it has a value.
#[verifier::external_body]
pub(crate) fn matched_path(matches: &clap::ArgMatches, id: &str) -> (result: Option<PathBuf>)
    requires
        declares_path(match_spec(*matches).args, id@),
    ensures
        match result {
            Some(path) => {
                &&& match_spec(*matches).paths.contains_key(id@)
                &&& path_text(path) == Some(match_spec(*matches).paths[id@])
            },
            None => !match_spec(*matches).paths.contains_key(id@),
        },
{
    matches.get_one::<PathBuf>(id).cloned()
}

/// `clap::ArgMatches::get_many` for texts: all the values, in order, if there are
/// any.
#[verifier::external_body]
pub(crate) fn matched_texts(matches: &clap::ArgMatches, id: &str) -> (result: Option<Vec<String>>)
    requires
        declares_texts(match_spec(*matches).args, id@),
    ensures
        match result {
            Some(values) => match_spec(*matches).texts.get(id@) == Some(texts(values@)),
            None => match_spec(*matches).texts.get(id@) is None,
        },
{
    matches.get_many::<String>(id).map(|values| values.cloned().collect())
}

/// The texts of strings are those of each of them, in order.
pub proof fn texts_are_those_of_each(strings: Seq<String>, i: int)
    requires
        0 <= i < strings.len(),
    ensures
        texts(strings).len() == strings.len(),
        texts(strings)[i] == strings[i]@,
{
}

} // verus!
