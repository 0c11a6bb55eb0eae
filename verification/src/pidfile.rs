//! The file that records the process id of the running program.

use vstd::prelude::*;

use crate::decimal::{append_i32, i32_reads_back, i32_value, integer_text, is_digit, parse_i32};

verus! {

/// What is written to the pid file: the process id in decimal, and nothing else.
pub fn pidfile_contents(pid: i32) -> (contents: String)
    ensures
        contents@ == integer_text(pid as int),
{
    let mut contents = String::new();
    append_i32(&mut contents, pid);
    contents
}

/// The process id that the first line of a pid file records, if it records one. The
/// line is taken as it is: one that ends in a line break records none.
pub fn recorded_pid(line: &str) -> (pid: Option<i32>)
    ensures
        pid == i32_value(line@),
{
    parse_i32(line)
}

/// The process that is running, if sending it signal zero has shown that there is
/// one: `status` is what `kill` answered.
pub open spec fn running(pid: i32, status: i32) -> Option<i32> {
    if status == 0 {
        Some(pid)
    } else {
        None
    }
}

/// The recorded process, if it is running. `status` is what `kill` answered to
/// signal zero.
pub fn already_running(pid: i32, status: i32) -> (result: Option<i32>)
    ensures
        result == running(pid, status),
{
    if 0 == status {
        return Some(pid);
    }
    None
}

/// The running process that the first line of a pid file leads to: `status` is what
/// `kill` answered for the process that it records.
pub open spec fn found_running(line: Seq<char>, status: i32) -> Option<i32> {
    match i32_value(line) {
        Some(pid) => running(pid, status),
        None => None,
    }
}

/// The running process that the first line of a pid file leads to. `status` is what
/// `kill` answered to signal zero for the process that [`recorded_pid`] gives. Where it
/// gives none, no process is asked, and the status makes no difference.
pub fn find_running(line: &str, status: i32) -> (result: Option<i32>)
    ensures
        result == found_running(line@, status),
{
    match recorded_pid(line) {
        Some(pid) => already_running(pid, status),
        None => None,
    }
}

/// Whether the pid file belongs to this process: it records a running process, and
/// that is this one.
pub fn is_ours(running_pid: Option<i32>, own_pid: i32) -> (result: bool)
    ensures
        result == (running_pid == Some(own_pid)),
{
    match running_pid {
        Some(pid) => pid == own_pid,
        None => false,
    }
}

/// A process that has written the pid file is found by it for as long as it runs;
/// and the file belongs to that process and to no other.
pub proof fn written_pid_is_found(writer: i32, own: i32)
    ensures
        found_running(integer_text(writer as int), 0) == Some(writer),
        found_running(integer_text(writer as int), 0) == Some(own) <==> writer == own,
{
    i32_reads_back(writer);
}

/// A process that is no longer running is not found, whatever the file records.
pub proof fn ended_process_is_not_found(line: Seq<char>, status: i32)
    requires
        status != 0,
    ensures
        found_running(line, status) is None,
{
}

/// A line that records no process leads to none, whatever `kill` would answer.
pub proof fn nothing_is_found_without_a_record(line: Seq<char>, status: i32)
    requires
        i32_value(line) is None,
    ensures
        found_running(line, status) is None,
{
}

/// A line that ends in a line break records no process id.
pub proof fn line_break_records_nothing(line: Seq<char>)
    requires
        line.len() > 0,
        line.last() == '\n',
    ensures
        i32_value(line) is None,
{
    let digits = if line[0] == '-' || line[0] == '+' {
        line.drop_first()
    } else {
        line
    };
    if digits.len() > 0 {
        assert(digits[digits.len() - 1] == '\n');
        assert(!is_digit(digits[digits.len() - 1]));
    }
}

/// A process is taken to run exactly where `kill` answered zero, whatever its id is.
pub proof fn only_zero_means_running(pid: i32, status: i32)
    ensures
        status == 0 ==> running(pid, status) == Some(pid),
        status != 0 ==> running(pid, status) is None,
{
}

/// Every line that records a process leads to it while it runs, however the line is
/// written.
pub proof fn recorded_process_is_found(line: Seq<char>, status: i32)
    ensures
        status == 0 ==> found_running(line, status) == i32_value(line),
        status != 0 ==> found_running(line, status) is None,
{
}

} // verus!
