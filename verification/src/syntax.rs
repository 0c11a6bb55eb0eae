//! What the words of a command line mean.
//!
//! Options come first: letters behind a dash, of which `f` and `v` are flags and `p`
//! takes a path, either the rest of its word or the next word. The first word that is
//! no option is an interface, and so are all that follow it, whatever they look like;
//! two dashes end the options as well.

use vstd::prelude::*;

use crate::cli::{is_rooted, PID_FILE};

verus! {

/// The options that have been read, and how often.
pub struct OptionsRead {
    pub foreground: nat,
    pub verbose: nat,
    pub pid_files: Seq<Seq<char>>,
}

/// What ends the options.
pub enum AfterOptions {
    /// The interfaces: all the words that are left.
    Interfaces(Seq<Seq<char>>),
    /// The word that asks for help.
    HelpWanted,
    /// An option that does not exist, or one that lacks its value.
    BadOption,
}

/// What a command line means.
pub enum CliMeaning {
    /// The program is to run like this.
    Run {
        foreground: bool,
        verbose: bool,
        pid_file: Seq<char>,
        interfaces: Seq<Seq<char>>,
    },
    /// The help text is to be shown.
    ShowHelp,
    /// The command line is refused.
    Refused,
}

/// Whether a word is an option; a dash alone is none.
pub open spec fn is_option(word: Seq<char>) -> bool {
    word.len() > 1 && word[0] == '-'
}

/// Reads options word by word.
pub open spec fn read_words(words: Seq<Seq<char>>, seen: OptionsRead) -> (OptionsRead, AfterOptions)
    decreases words.len(), 0nat,
{
    if words.len() == 0 || !is_option(words[0]) {
        (seen, AfterOptions::Interfaces(words))
    } else if words[0] == "--"@ {
        (seen, AfterOptions::Interfaces(words.drop_first()))
    } else if words[0] == "--help"@ {
        (seen, AfterOptions::HelpWanted)
    } else if words[0][1] == '-' {
        (seen, AfterOptions::BadOption)
    } else {
        read_letters(words[0].drop_first(), words.drop_first(), seen)
    }
}

/// Reads the letters of one word of options; `words` are those behind it.
pub open spec fn read_letters(
    letters: Seq<char>,
    words: Seq<Seq<char>>,
    seen: OptionsRead,
) -> (OptionsRead, AfterOptions)
    decreases words.len(), 1 + letters.len(),
{
    if letters.len() == 0 {
        read_words(words, seen)
    } else if letters[0] == 'f' {
        read_letters(
            letters.drop_first(),
            words,
            OptionsRead { foreground: seen.foreground + 1, ..seen },
        )
    } else if letters[0] == 'v' {
        read_letters(
            letters.drop_first(),
            words,
            OptionsRead { verbose: seen.verbose + 1, ..seen },
        )
    } else if letters[0] == 'h' {
        (seen, AfterOptions::HelpWanted)
    } else if letters[0] != 'p' {
        (seen, AfterOptions::BadOption)
    } else if letters.len() > 1 {
        let value = letters.skip(
            if letters[1] == '=' {
                2
            } else {
                1
            },
        );
        read_words(words, OptionsRead { pid_files: seen.pid_files.push(value), ..seen })
    } else if words.len() > 0 && !is_option(words[0]) {
        read_words(
            words.drop_first(),
            OptionsRead { pid_files: seen.pid_files.push(words[0]), ..seen },
        )
    } else {
        (seen, AfterOptions::BadOption)
    }
}

/// Whether each option is given once at most, and the path is absolute.
pub open spec fn is_sound(options: OptionsRead) -> bool {
    &&& options.foreground <= 1
    &&& options.verbose <= 1
    &&& options.pid_files.len() <= 1
    &&& options.pid_files.len() == 1 ==> is_rooted(options.pid_files[0])
}

/// Whether the options exclude each other: in the foreground the path of the pid file
/// cannot be chosen.
pub open spec fn is_exclusive(options: OptionsRead) -> bool {
    options.foreground == 0 || options.pid_files.len() == 0
}

/// The words of a command line behind the program's own name.
pub open spec fn words_of(args: Seq<Seq<char>>) -> Seq<Seq<char>> {
    if args.len() == 0 {
        args
    } else {
        args.drop_first()
    }
}

/// What a command line means, the program's own name first. The program runs with two
/// interfaces or more, and with options that are sound and do not exclude each other.
pub open spec fn cli_meaning(args: Seq<Seq<char>>) -> CliMeaning {
    let none = OptionsRead { foreground: 0, verbose: 0, pid_files: Seq::empty() };
    let (options, after) = read_words(words_of(args), none);
    match after {
        AfterOptions::Interfaces(interfaces) => if interfaces.len() >= 2 && is_sound(options)
            && is_exclusive(options) {
            CliMeaning::Run {
                foreground: options.foreground > 0,
                verbose: options.verbose > 0,
                pid_file: if options.pid_files.len() > 0 {
                    options.pid_files[0]
                } else {
                    PID_FILE@
                },
                interfaces,
            }
        } else {
            CliMeaning::Refused
        },
        AfterOptions::HelpWanted => if is_sound(options) {
            CliMeaning::ShowHelp
        } else {
            CliMeaning::Refused
        },
        AfterOptions::BadOption => CliMeaning::Refused,
    }
}

proof fn words_end_in_interfaces(words: Seq<Seq<char>>, seen: OptionsRead)
    ensures
        read_words(words, seen).1 matches AfterOptions::Interfaces(names) ==> names.is_suffix_of(
            words,
        ),
    decreases words.len(), 0nat,
{
    if words.len() > 0 && is_option(words[0]) {
        letters_end_in_interfaces(words[0].drop_first(), words.drop_first(), seen);
        if let AfterOptions::Interfaces(names) = read_words(words, seen).1 {
            suffix_of_rest(names, words);
        }
    }
}

proof fn letters_end_in_interfaces(letters: Seq<char>, words: Seq<Seq<char>>, seen: OptionsRead)
    ensures
        read_letters(letters, words, seen).1 matches AfterOptions::Interfaces(names)
            ==> names.is_suffix_of(words),
    decreases words.len(), 1 + letters.len(),
{
    if letters.len() == 0 {
        words_end_in_interfaces(words, seen);
    } else if letters[0] == 'f' {
        let seen = OptionsRead { foreground: seen.foreground + 1, ..seen };
        letters_end_in_interfaces(letters.drop_first(), words, seen);
    } else if letters[0] == 'v' {
        let seen = OptionsRead { verbose: seen.verbose + 1, ..seen };
        letters_end_in_interfaces(letters.drop_first(), words, seen);
    } else if letters[0] == 'p' {
        if letters.len() > 1 {
            let value = letters.skip(
                if letters[1] == '=' {
                    2
                } else {
                    1
                },
            );
            let seen = OptionsRead { pid_files: seen.pid_files.push(value), ..seen };
            words_end_in_interfaces(words, seen);
        } else if words.len() > 0 && !is_option(words[0]) {
            let more = OptionsRead { pid_files: seen.pid_files.push(words[0]), ..seen };
            words_end_in_interfaces(words.drop_first(), more);
            if let AfterOptions::Interfaces(names) = read_letters(letters, words, seen).1 {
                suffix_of_rest(names, words);
            }
        }
    }
}

proof fn suffix_of_rest(names: Seq<Seq<char>>, words: Seq<Seq<char>>)
    requires
        words.len() > 0,
        names.is_suffix_of(words.drop_first()) || names == words.drop_first(),
    ensures
        names.is_suffix_of(words),
{
    let n = names.len() as int;
    assert(words.drop_first().subrange(words.len() - 1 - n, words.len() - 1) == words.subrange(
        words.len() - n,
        words.len() as int,
    ));
}

/// Whatever the options, a program that runs has two interfaces or more, and they are
/// the last words of the command line, in order; the path of its pid file is absolute;
/// and in the foreground that path is the default.
pub proof fn run_has_interfaces_and_pid_file(args: Seq<Seq<char>>)
    ensures
        cli_meaning(args) matches CliMeaning::Run { foreground, pid_file, interfaces, .. } ==> {
            &&& interfaces.len() >= 2
            &&& interfaces.is_suffix_of(words_of(args))
            &&& is_rooted(pid_file)
            &&& foreground ==> pid_file == PID_FILE@
        },
{
    let none = OptionsRead { foreground: 0, verbose: 0, pid_files: Seq::empty() };
    words_end_in_interfaces(words_of(args), none);
    reveal_strlit("/var/run/mdns-reflector.pid");
}

/// A command line with fewer than two words behind the program's name never runs.
pub proof fn too_few_words_do_not_run(args: Seq<Seq<char>>)
    requires
        args.len() < 3,
    ensures
        cli_meaning(args) !is Run,
{
    run_has_interfaces_and_pid_file(args);
}

/// Where the first word is no option, all the words are interfaces, and every option
/// has its default.
pub proof fn plain_words_are_interfaces(args: Seq<Seq<char>>)
    requires
        args.len() >= 2,
        !is_option(args[1]),
    ensures
        cli_meaning(args) == if args.len() >= 3 {
            CliMeaning::Run {
                foreground: false,
                verbose: false,
                pid_file: PID_FILE@,
                interfaces: args.drop_first(),
            }
        } else {
            CliMeaning::Refused
        },
{
}

/// The options of two readings together.
spec fn together(first: OptionsRead, second: OptionsRead) -> OptionsRead {
    OptionsRead {
        foreground: first.foreground + second.foreground,
        verbose: first.verbose + second.verbose,
        pid_files: first.pid_files + second.pid_files,
    }
}

spec fn nothing_read() -> OptionsRead {
    OptionsRead { foreground: 0, verbose: 0, pid_files: Seq::empty() }
}

proof fn together_is_associative(first: OptionsRead, second: OptionsRead, third: OptionsRead)
    ensures
        together(together(first, second), third) == together(first, together(second, third)),
        together(nothing_read(), first) == first,
        together(first, nothing_read()) == first,
{
    assert(first.pid_files + second.pid_files + third.pid_files == first.pid_files + (
    second.pid_files + third.pid_files));
    assert(nothing_read().pid_files + first.pid_files == first.pid_files);
    assert(first.pid_files + nothing_read().pid_files == first.pid_files);
}

/// What has been read before is carried along, and makes no difference to what follows.
proof fn words_carry(words: Seq<Seq<char>>, seen: OptionsRead)
    ensures
        read_words(words, seen) == (
            together(seen, read_words(words, nothing_read()).0),
            read_words(words, nothing_read()).1,
        ),
    decreases words.len(), 0nat,
{
    together_is_associative(seen, seen, seen);
    if words.len() > 0 && is_option(words[0]) {
        letters_carry(words[0].drop_first(), words.drop_first(), seen);
    }
}

proof fn letters_carry(letters: Seq<char>, words: Seq<Seq<char>>, seen: OptionsRead)
    ensures
        read_letters(letters, words, seen) == (
            together(seen, read_letters(letters, words, nothing_read()).0),
            read_letters(letters, words, nothing_read()).1,
        ),
    decreases words.len(), 1 + letters.len(),
{
    let none = nothing_read();
    together_is_associative(seen, seen, seen);
    if letters.len() == 0 {
        words_carry(words, seen);
    } else if letters[0] == 'f' {
        let one = OptionsRead { foreground: 1, ..none };
        let more = OptionsRead { foreground: seen.foreground + 1, ..seen };
        letters_carry(letters.drop_first(), words, one);
        letters_carry(letters.drop_first(), words, more);
        together_is_associative(seen, one, read_letters(letters.drop_first(), words, none).0);
        assert(seen.pid_files + one.pid_files == seen.pid_files);
        assert(together(seen, one) == more);
    } else if letters[0] == 'v' {
        let one = OptionsRead { verbose: 1, ..none };
        let more = OptionsRead { verbose: seen.verbose + 1, ..seen };
        letters_carry(letters.drop_first(), words, one);
        letters_carry(letters.drop_first(), words, more);
        together_is_associative(seen, one, read_letters(letters.drop_first(), words, none).0);
        assert(seen.pid_files + one.pid_files == seen.pid_files);
        assert(together(seen, one) == more);
    } else if letters[0] == 'p' {
        if letters.len() > 1 {
            let value = letters.skip(
                if letters[1] == '=' {
                    2
                } else {
                    1
                },
            );
            path_carries(value, words, seen);
        } else if words.len() > 0 && !is_option(words[0]) {
            path_carries(words[0], words.drop_first(), seen);
        }
    }
}

proof fn path_carries(path: Seq<char>, words: Seq<Seq<char>>, seen: OptionsRead)
    ensures
        read_words(words, OptionsRead { pid_files: seen.pid_files.push(path), ..seen }) == ({
            let one = OptionsRead {
                pid_files: nothing_read().pid_files.push(path),
                ..nothing_read()
            };
            (together(seen, read_words(words, one).0), read_words(words, one).1)
        }),
    decreases words.len(), 1nat,
{
    let none = nothing_read();
    let one = OptionsRead { pid_files: none.pid_files.push(path), ..none };
    let more = OptionsRead { pid_files: seen.pid_files.push(path), ..seen };
    words_carry(words, one);
    words_carry(words, more);
    together_is_associative(seen, one, read_words(words, none).0);
    assert(seen.pid_files + one.pid_files == more.pid_files);
    assert(together(seen, one) == more);
}

/// A first word `-v` turns on more messages and changes nothing else: a command line that
/// runs without it runs with it, unless it asked for that already; one that is refused
/// without it is refused with it.
pub proof fn verbose_changes_only_the_messages(args: Seq<Seq<char>>)
    requires
        args.len() > 0,
    ensures
        ({
            let with = cli_meaning(seq![args[0], "-v"@] + args.drop_first());
            match cli_meaning(args) {
                CliMeaning::Run { foreground, verbose: false, pid_file, interfaces } => with == (
                CliMeaning::Run { foreground, verbose: true, pid_file, interfaces }),
                CliMeaning::Run { verbose: true, .. } => with is Refused,
                CliMeaning::ShowHelp => with is ShowHelp || with is Refused,
                CliMeaning::Refused => with is Refused,
            }
        }),
{
    reveal_strlit("-v");
    reveal_strlit("--");
    reveal_strlit("--help");
    let all = seq![args[0], "-v"@] + args.drop_first();
    let words = args.drop_first();
    let none = nothing_read();
    let one = OptionsRead { verbose: 1, ..none };
    assert(words_of(all)[0] == "-v"@);
    assert("-v"@[1] != "--"@[1]);
    assert("-v"@.len() != "--help"@.len());
    assert(words_of(all).drop_first() == words);
    assert("-v"@.drop_first() == seq!['v']);
    assert(seq!['v'].drop_first() == Seq::<char>::empty());
    assert(read_words(words_of(all), none) == read_letters(seq!['v'], words, none));
    assert(read_letters(seq!['v'], words, none) == read_letters(Seq::empty(), words, one));
    assert(read_letters(Seq::empty(), words, one) == read_words(words, one));
    words_carry(words, one);
    let read = read_words(words, none).0;
    assert(one.pid_files + read.pid_files == read.pid_files);
}

/// A first word `-f` keeps the program in the foreground and changes nothing else; it is
/// refused a second time, and together with a path for the pid file.
pub proof fn foreground_changes_only_the_place(args: Seq<Seq<char>>)
    requires
        args.len() > 0,
    ensures
        ({
            let with = cli_meaning(seq![args[0], "-f"@] + args.drop_first());
            match cli_meaning(args) {
                CliMeaning::Run { foreground: false, verbose, pid_file, interfaces } => {
                    &&& with is Refused || with == (CliMeaning::Run {
                        foreground: true,
                        verbose,
                        pid_file: PID_FILE@,
                        interfaces,
                    })
                    &&& pid_file != PID_FILE@ ==> with is Refused
                    &&& args.len() > 1 && !(args[1].len() > 1 && args[1][0] == '-') ==> with is Run
                },
                CliMeaning::Run { foreground: true, .. } => with is Refused,
                CliMeaning::ShowHelp => with is ShowHelp || with is Refused,
                CliMeaning::Refused => with is Refused,
            }
        }),
{
    reveal_strlit("-f");
    reveal_strlit("--");
    reveal_strlit("--help");
    let all = seq![args[0], "-f"@] + args.drop_first();
    let words = args.drop_first();
    let none = nothing_read();
    let one = OptionsRead { foreground: 1, ..none };
    assert(words_of(all)[0] == "-f"@);
    assert("-f"@[1] != "--"@[1]);
    assert("-f"@.len() != "--help"@.len());
    assert(words_of(all).drop_first() == words);
    assert("-f"@.drop_first() == seq!['f']);
    assert(seq!['f'].drop_first() == Seq::<char>::empty());
    assert(read_words(words_of(all), none) == read_letters(seq!['f'], words, none));
    assert(read_letters(seq!['f'], words, none) == read_letters(Seq::empty(), words, one));
    assert(read_letters(Seq::empty(), words, one) == read_words(words, one));
    words_carry(words, one);
    let read = read_words(words, none).0;
    assert(one.pid_files + read.pid_files == read.pid_files);
}

/// Behind `-p` and a path, plain words are the interfaces. The program runs exactly where
/// there are two of them at least and the path's first character is a slash, whatever
/// else the path is; and its pid file is at that very path.
pub proof fn path_option_names_the_pid_file(
    program: Seq<char>,
    path: Seq<char>,
    names: Seq<Seq<char>>,
)
    requires
        !(path.len() > 1 && path[0] == '-'),
        names.len() > 0 ==> !(names[0].len() > 1 && names[0][0] == '-'),
    ensures
        cli_meaning(seq![program, "-p"@, path] + names) == if path.len() > 0 && path[0] == '/'
            && names.len() >= 2 {
            CliMeaning::Run {
                foreground: false,
                verbose: false,
                pid_file: path,
                interfaces: names,
            }
        } else {
            CliMeaning::Refused
        },
{
    reveal_strlit("-p");
    reveal_strlit("--");
    reveal_strlit("--help");
    let all = seq![program, "-p"@, path] + names;
    let none = nothing_read();
    let one = OptionsRead { pid_files: none.pid_files.push(path), ..none };
    let words = words_of(all);
    assert(words[0] == "-p"@);
    assert("-p"@[1] != "--"@[1]);
    assert("-p"@.len() != "--help"@.len());
    assert("-p"@.drop_first() == seq!['p']);
    assert(words.drop_first() == seq![path] + names);
    assert(words.drop_first().drop_first() == names);
    assert(read_words(words, none) == read_letters(seq!['p'], words.drop_first(), none));
    assert(read_letters(seq!['p'], words.drop_first(), none) == read_words(names, one));
}

/// A first word `-h` or `--help` asks for the help text, whatever follows it.
pub proof fn help_is_shown(args: Seq<Seq<char>>)
    requires
        args.len() > 1,
        args[1] == "-h"@ || args[1] == "--help"@,
    ensures
        cli_meaning(args) is ShowHelp,
{
    reveal_strlit("-h");
    reveal_strlit("--");
    reveal_strlit("--help");
    assert("-h"@[1] != "--"@[1]);
    assert("-h"@.len() != "--help"@.len());
    assert("--"@.len() != "--help"@.len());
    assert("-h"@.drop_first() == seq!['h']);
    assert(words_of(args)[0] == args[1]);
}

} // verus!
