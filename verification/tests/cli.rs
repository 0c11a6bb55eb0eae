use std::path::PathBuf;

use mdns_reflector::cli::{
    build_clap_matcher, parse_cli_from, parse_into_pathbuf, Config, NOT_ABSOLUTE, PACKAGE, PID_FILE,
};
use mdns_reflector::matcher::UsageError;

fn parse(words: &[&str]) -> Result<(Config, Vec<String>), UsageError> {
    let mut line = vec!["mdns-reflector".to_string()];
    line.extend(words.iter().map(|word| word.to_string()));
    parse_cli_from(line)
}

fn names(words: &[&str]) -> Vec<String> {
    words.iter().map(|word| word.to_string()).collect()
}

#[test]
fn absolute_path_is_taken() {
    assert_eq!(
        parse_into_pathbuf("/run/reflector.pid"),
        Ok(PathBuf::from("/run/reflector.pid"))
    );
    assert_eq!(parse_into_pathbuf("/"), Ok(PathBuf::from("/")));
}

#[test]
fn path_keeps_its_text() {
    for text in ["/", "/run/reflector.pid", "/a//b/../c/", "/\u{e9} x"] {
        let path = parse_into_pathbuf(text).unwrap();
        assert_eq!(path.to_str(), Some(text));
        let again = parse_into_pathbuf(path.to_str().unwrap()).unwrap();
        assert_eq!(again.as_os_str(), path.as_os_str());
    }
}

#[test]
fn relative_path_is_refused() {
    for text in ["", "reflector.pid", "./reflector.pid", "../x", "~/x", " /x"] {
        assert_eq!(parse_into_pathbuf(text), Err("pid file path must be absolute"));
    }
    assert_eq!(NOT_ABSOLUTE, "pid file path must be absolute");
}

#[test]
fn default_pid_file_is_named_after_the_package() {
    assert_eq!(PID_FILE, format!("/var/run/{}.pid", PACKAGE));
}

#[test]
fn the_declared_command_is_well_formed() {
    build_clap_matcher().debug_assert();
}

#[test]
fn the_declared_command_is_complete() {
    let command = build_clap_matcher();
    assert_eq!(command.get_name(), "mdns-reflector");
    assert_eq!(command.get_version(), Some("0.1.0"));
    assert!(command.get_author().is_none());
    assert!(command.get_about().is_none());
    assert!(command.is_disable_help_flag_set());
    assert!(command.is_disable_version_flag_set());
    assert_eq!(command.get_color(), clap::ColorChoice::Always);
    let ids: Vec<&str> = command.get_arguments().map(|arg| arg.get_id().as_str()).collect();
    assert_eq!(ids, vec!["foreground", "verbose", "pid_file", "interfaces", "help"]);
    let shorts: Vec<Option<char>> = command.get_arguments().map(|arg| arg.get_short()).collect();
    assert_eq!(shorts, vec![Some('f'), Some('v'), Some('p'), None, Some('h')]);
    let longs: Vec<Option<&str>> = command.get_arguments().map(|arg| arg.get_long()).collect();
    assert_eq!(longs, vec![None, None, None, None, Some("help")]);
    let helps: Vec<String> = command
        .get_arguments()
        .map(|arg| arg.get_help().unwrap().to_string())
        .collect();
    assert_eq!(
        helps,
        names(&[
            "Runs the application in the foreground and logs to stdout",
            "Turns on verbose mode. Trace messages (very verbose!)",
            "Specifies the PID file path",
            "interfaces",
            "Print this help message and exit",
        ])
    );
    let interfaces = command.get_arguments().nth(3).unwrap();
    assert!(interfaces.is_required_set());
    assert!(interfaces.is_trailing_var_arg_set());
    assert_eq!(
        interfaces.get_long_help().unwrap().to_string(),
        "A minimum of 2 interfaces must be specified"
    );
    assert_eq!(interfaces.get_num_args().unwrap().min_values(), 2);
    assert_eq!(interfaces.get_value_names().unwrap()[0].as_str(), "interface");
    let pid_file = command.get_arguments().nth(2).unwrap();
    assert_eq!(pid_file.get_default_values()[0], PID_FILE);
}

#[test]
fn plain_interfaces_take_the_defaults() {
    let (config, interfaces) = parse(&["eth0", "eth1", "wlan0"]).unwrap();
    assert!(!config.foreground);
    assert!(!config.verbose);
    assert_eq!(config.pid_file, PathBuf::from("/var/run/mdns-reflector.pid"));
    assert_eq!(interfaces, names(&["eth0", "eth1", "wlan0"]));
}

#[test]
fn words_behind_the_first_interface_are_interfaces() {
    let (config, interfaces) = parse(&["eth0", "-f", "--", "-p"]).unwrap();
    assert!(!config.foreground);
    assert_eq!(interfaces, names(&["eth0", "-f", "--", "-p"]));
    let (_, interfaces) = parse(&["help", "-h"]).unwrap();
    assert_eq!(interfaces, names(&["help", "-h"]));
    let (_, interfaces) = parse(&["", ""]).unwrap();
    assert_eq!(interfaces, names(&["", ""]));
}

#[test]
fn interfaces_can_follow_an_escape() {
    let (config, interfaces) = parse(&["-v", "--", "-f", "eth1"]).unwrap();
    assert!(config.verbose);
    assert!(!config.foreground);
    assert_eq!(interfaces, names(&["-f", "eth1"]));
}

#[test]
fn foreground_flag_is_read() {
    let (config, interfaces) = parse(&["-f", "eth0", "eth1"]).unwrap();
    assert!(config.foreground);
    assert!(!config.verbose);
    assert_eq!(config.pid_file, PathBuf::from(PID_FILE));
    assert_eq!(interfaces, names(&["eth0", "eth1"]));
}

#[test]
fn verbose_flag_is_read() {
    let (config, interfaces) = parse(&["-v", "eth0", "eth1"]).unwrap();
    assert!(!config.foreground);
    assert!(config.verbose);
    assert_eq!(interfaces, names(&["eth0", "eth1"]));
}

#[test]
fn flags_can_be_joined() {
    let (config, _) = parse(&["-fv", "eth0", "eth1"]).unwrap();
    assert!(config.foreground);
    assert!(config.verbose);
}

#[test]
fn pid_file_is_read() {
    let (config, interfaces) = parse(&["-p", "/tmp/my.pid", "eth0", "eth1"]).unwrap();
    assert!(!config.foreground);
    assert_eq!(config.pid_file, PathBuf::from("/tmp/my.pid"));
    assert_eq!(interfaces, names(&["eth0", "eth1"]));
}

#[test]
fn relative_pid_file_is_an_error() {
    for text in ["my.pid", ""] {
        let error = parse(&["-p", text, "eth0", "eth1"]).unwrap_err();
        assert!(error.to_stderr);
        assert_eq!(error.exit_code, 2);
        assert!(error.message.contains("pid file path must be absolute"));
    }
}

#[test]
fn foreground_excludes_a_pid_file() {
    let error = parse(&["-f", "-p", "/tmp/my.pid", "eth0", "eth1"]).unwrap_err();
    assert!(error.to_stderr);
    assert_eq!(error.exit_code, 2);
}

#[test]
fn fewer_than_two_interfaces_are_an_error() {
    for words in [&[][..], &["eth0"][..], &["-f", "eth0"][..], &["-v"][..]] {
        let error = parse(words).unwrap_err();
        assert!(error.to_stderr);
        assert_eq!(error.exit_code, 2);
    }
    assert!(parse_cli_from(vec![]).is_err());
}

#[test]
fn unknown_option_is_an_error() {
    let error = parse(&["-x", "eth0", "eth1"]).unwrap_err();
    assert!(error.to_stderr);
    assert_eq!(error.exit_code, 2);
}

#[test]
fn repeated_flag_is_an_error() {
    assert!(parse(&["-f", "-f", "eth0", "eth1"]).is_err());
}

#[test]
fn help_is_shown_on_standard_output() {
    for flag in ["-h", "--help"] {
        let error = parse(&[flag]).unwrap_err();
        assert!(!error.to_stderr);
        assert_eq!(error.exit_code, 0);
        assert!(error.message.starts_with("mdns-reflector 0.1.0\n\n\u{1b}"));
        assert!(error.message.contains("Specifies the PID file path"));
        assert!(error.message.contains('\u{1b}'));
    }
    assert!(parse(&["--help", "eth0", "eth1"]).is_err());
}

#[test]
fn values_of_the_command_line_have_defaults() {
    let config = Config::from_values(None, None, None);
    assert!(!config.foreground);
    assert!(!config.verbose);
    assert_eq!(config.pid_file, PathBuf::from(PID_FILE));
    let config = Config::from_values(Some(true), Some(false), Some(PathBuf::from("/x")));
    assert!(config.foreground);
    assert!(!config.verbose);
    assert_eq!(config.pid_file, PathBuf::from("/x"));
}

#[test]
fn several_options_are_read() {
    let (config, interfaces) = parse(&["-v", "-p", "/tmp/my.pid", "eth0", "eth1"]).unwrap();
    assert!(config.verbose);
    assert!(!config.foreground);
    assert_eq!(config.pid_file.to_str(), Some("/tmp/my.pid"));
    assert_eq!(interfaces, names(&["eth0", "eth1"]));
    let (config, interfaces) = parse(&["-vp=/tmp/my.pid", "--", "-x", "-"]).unwrap();
    assert!(config.verbose);
    assert_eq!(config.pid_file.to_str(), Some("/tmp/my.pid"));
    assert_eq!(interfaces, names(&["-x", "-"]));
}

#[test]
fn default_pid_file_does_not_go_with_the_foreground_either() {
    assert!(parse(&["-f", "-p", PID_FILE, "eth0", "eth1"]).is_err());
    assert!(parse(&["-p", PID_FILE, "-f", "eth0", "eth1"]).is_err());
    assert!(parse(&["-p", PID_FILE, "eth0", "eth1"]).is_ok());
}

/// What a command line is expected to give: the values, or the stream of the error.
#[derive(Debug, PartialEq)]
enum Expected {
    Run(bool, bool, String, Vec<String>),
    Error { to_stderr: bool },
}

fn is_option(word: &str) -> bool {
    word.len() > 1 && word.starts_with('-')
}

fn expected(words: &[&str]) -> Expected {
    let refused = Expected::Error { to_stderr: true };
    let (mut foreground, mut verbose, mut pid_files) = (0, 0, Vec::<&str>::new());
    let mut help = false;
    let mut at = 0;
    while !help && at < words.len() && is_option(words[at]) {
        let word = words[at];
        at += 1;
        if word == "--" {
            break;
        } else if word == "--help" {
            help = true;
        } else if word.starts_with("--") {
            return refused;
        }
        let mut letters = if help { "" } else { &word[1..] };
        while let Some(letter) = letters.chars().next() {
            letters = &letters[letter.len_utf8()..];
            match letter {
                'f' => foreground += 1,
                'v' => verbose += 1,
                'h' => {
                    help = true;
                    break;
                }
                'p' if !letters.is_empty() => {
                    pid_files.push(letters.strip_prefix('=').unwrap_or(letters));
                    break;
                }
                'p' if at < words.len() && !is_option(words[at]) => {
                    pid_files.push(words[at]);
                    at += 1;
                }
                _ => return refused,
            }
        }
    }
    let sound = foreground <= 1
        && verbose <= 1
        && pid_files.len() <= 1
        && pid_files.iter().all(|path| path.starts_with('/'));
    if help {
        return Expected::Error { to_stderr: !sound };
    }
    let interfaces = &words[at..];
    if !sound || interfaces.len() < 2 || (foreground > 0 && !pid_files.is_empty()) {
        return refused;
    }
    let pid_file = pid_files.first().copied().unwrap_or(PID_FILE).to_string();
    Expected::Run(foreground > 0, verbose > 0, pid_file, names(interfaces))
}

fn check_all(alphabet: &[&'static str], len: usize, words: &mut Vec<&'static str>) {
    let found = match parse(words) {
        Ok((config, interfaces)) => Expected::Run(
            config.foreground,
            config.verbose,
            config.pid_file.to_str().unwrap().to_string(),
            interfaces,
        ),
        Err(error) => {
            assert_eq!(error.exit_code, if error.to_stderr { 2 } else { 0 });
            Expected::Error { to_stderr: error.to_stderr }
        }
    };
    assert_eq!(found, expected(words), "{:?}", words);
    if len > 0 {
        for word in alphabet {
            words.push(word);
            check_all(alphabet, len - 1, words);
            words.pop();
        }
    }
}

#[test]
fn short_command_lines_mean_what_they_say() {
    let alphabet = [
        "-f", "-v", "-fv", "-ff", "-p", "-vp", "-p/x", "-p=/x", "-p=", "-pf", "-h", "-fh", "-xh",
        "-x", "-f=true", "-1", "-\u{e9}", "--help", "--help=1", "--hel", "---", "--", "-", "",
        "/x", "eth0", "=",
    ];
    check_all(&alphabet, 2, &mut vec![]);
}

#[test]
fn longer_command_lines_mean_what_they_say() {
    check_all(&["-f", "-v", "-p", "-p/x", "-h", "-x", "--", "-", "/x", "a"], 4, &mut vec![]);
    check_all(&["-f", "-v", "-p", "--", "/x"], 5, &mut vec![]);
}
