//! The life of the program, from its command line to its end.
//!
//! [`start_tasks`] takes how far the program has come and what has just happened,
//! and says what is to be done next.

use vstd::prelude::*;

use crate::daemon::{daemon_step, DaemonAction, DaemonEvent, DaemonState};
use crate::decimal::integer_text;
use crate::pidfile::{found_running, is_ours, written_pid_is_found};

verus! {

/// How long the tasks have, in milliseconds, to end once they are told to.
pub const STOP_TIMEOUT_MILLIS: u64 = 10000;

/// How far the program has come.
#[derive(Clone, Copy, Debug, PartialEq, Eq, Structural)]
pub enum TaskState {
    /// The command line is being read.
    Parsing,
    /// The pid file is being read, before a start in the foreground.
    Checking { interfaces: usize },
    /// The program goes into the background.
    Daemonizing { interfaces: usize },
    /// The receiving socket is being set up.
    OpeningServer { interfaces: usize },
    /// The sending socket of the interface `next` is being set up.
    OpeningInterface { next: usize, interfaces: usize },
    /// Packets are being repeated.
    Reflecting,
    /// The tasks have been told to end.
    Stopping,
    /// The pid file is being read, before the end.
    CheckingOwner,
    /// The pid file is being removed.
    RemovingPidFile,
    /// The program has ended.
    Ended,
}

/// Why packets are no longer repeated.
#[derive(Clone, Copy, Debug, PartialEq, Eq, Structural)]
pub enum ShutdownCause {
    /// The user interrupted the program.
    Interrupt,
    /// The program was told to terminate.
    Terminate,
    /// A task of the program stopped.
    TaskStopped,
}

/// What has just happened.
#[derive(Clone, Copy, Debug, PartialEq, Eq, Structural)]
pub enum TaskEvent {
    /// The command line was taken, with that number of interfaces.
    Parsed { foreground: bool, interfaces: usize },
    /// The command line was not taken; that is the exit code.
    Rejected { exit_code: i32 },
    /// The pid file was read: it records that running process, or none.
    Checked { running: Option<i32> },
    /// The program is in the background.
    Daemonized,
    /// The receiving socket was set up, or could not be.
    ServerOpened { ready: bool },
    /// The sending socket of an interface was set up, or could not be.
    InterfaceOpened { ready: bool },
    /// Packets are no longer to be repeated.
    Shutdown { cause: ShutdownCause },
    /// The tasks ended, or were given up.
    TasksEnded { in_time: bool },
    /// The pid file was read: it records that running process, or none; this process
    /// is `own`.
    OwnerChecked { running: Option<i32>, own: i32 },
    /// The pid file was removed, or could not be.
    PidFileRemoved { removed: bool },
}

/// What is to be done next.
#[derive(Clone, Copy, Debug, PartialEq, Eq, Structural)]
pub enum TaskAction {
    /// Read the command line.
    Parse,
    /// Find out which process the pid file records as running.
    CheckRunning,
    /// Go into the background.
    Daemonize,
    /// Set up the receiving socket.
    OpenServer,
    /// Set up the sending socket of the interface of that index.
    OpenInterface { index: usize },
    /// Start to repeat packets, and wait for a reason to stop.
    Reflect,
    /// Tell the tasks to end, and wait for them no longer than that.
    StopTasks { timeout_millis: u64 },
    /// Find out which process the pid file records as running, and which this one is.
    CheckOwner,
    /// Remove the pid file.
    RemovePidFile,
    /// End the process with that code.
    Exit { code: i32 },
    /// Return from the program, well or with the error that has just happened.
    Return { ok: bool },
}

/// Whether an event can happen where the program stands.
pub open spec fn can_happen(state: TaskState, event: TaskEvent) -> bool {
    match state {
        TaskState::Parsing => event is Parsed || event is Rejected,
        TaskState::Checking { .. } => event is Checked,
        TaskState::Daemonizing { .. } => event is Daemonized,
        TaskState::OpeningServer { .. } => event is ServerOpened,
        TaskState::OpeningInterface { next, interfaces } => event is InterfaceOpened && next
            < interfaces,
        TaskState::Reflecting => event is Shutdown,
        TaskState::Stopping => event is TasksEnded,
        TaskState::CheckingOwner => event is OwnerChecked,
        TaskState::RemovingPidFile => event is PidFileRemoved,
        TaskState::Ended => false,
    }
}

/// What comes when the sockets of all interfaces before `next` are set up.
pub open spec fn open_step(next: int, interfaces: usize) -> (TaskState, TaskAction) {
    if next < interfaces {
        (
            TaskState::OpeningInterface { next: next as usize, interfaces },
            TaskAction::OpenInterface { index: next as usize },
        )
    } else {
        (TaskState::Reflecting, TaskAction::Reflect)
    }
}

/// What follows an event.
pub open spec fn task_step(state: TaskState, event: TaskEvent) -> (TaskState, TaskAction) {
    let returned = |ok: bool| (TaskState::Ended, TaskAction::Return { ok });
    match (state, event) {
        (TaskState::Parsing, TaskEvent::Parsed { foreground, interfaces }) => if foreground {
            (TaskState::Checking { interfaces }, TaskAction::CheckRunning)
        } else {
            (TaskState::Daemonizing { interfaces }, TaskAction::Daemonize)
        },
        (TaskState::Parsing, TaskEvent::Rejected { exit_code }) => (
            TaskState::Ended,
            TaskAction::Exit { code: exit_code },
        ),
        (TaskState::Checking { interfaces }, TaskEvent::Checked { running }) => if running is Some {
            returned(true)
        } else {
            (TaskState::OpeningServer { interfaces }, TaskAction::OpenServer)
        },
        (TaskState::Daemonizing { interfaces }, TaskEvent::Daemonized) => (
            TaskState::OpeningServer { interfaces },
            TaskAction::OpenServer,
        ),
        (TaskState::OpeningServer { interfaces }, TaskEvent::ServerOpened { ready }) => if ready {
            open_step(0, interfaces)
        } else {
            returned(false)
        },
        (
            TaskState::OpeningInterface { next, interfaces },
            TaskEvent::InterfaceOpened { ready },
        ) => if ready {
            open_step(next + 1, interfaces)
        } else {
            returned(false)
        },
        (TaskState::Reflecting, TaskEvent::Shutdown { .. }) => (
            TaskState::Stopping,
            TaskAction::StopTasks { timeout_millis: STOP_TIMEOUT_MILLIS },
        ),
        (TaskState::Stopping, TaskEvent::TasksEnded { .. }) => (
            TaskState::CheckingOwner,
            TaskAction::CheckOwner,
        ),
        (TaskState::CheckingOwner, TaskEvent::OwnerChecked { running, own }) => if running == Some(
            own,
        ) {
            (TaskState::RemovingPidFile, TaskAction::RemovePidFile)
        } else {
            returned(true)
        },
        _ => returned(true),
    }
}

/// What the life of the program begins with.
pub fn begin() -> (result: (TaskState, TaskAction))
    ensures
        result == (TaskState::Parsing, TaskAction::Parse),
{
    (TaskState::Parsing, TaskAction::Parse)
}

/// Goes on to the interface `next`, or to repeating packets where there is none.
fn open_next(next: usize, interfaces: usize) -> (result: (TaskState, TaskAction))
    ensures
        result == open_step(next as int, interfaces),
{
    if next < interfaces {
        (
            TaskState::OpeningInterface { next, interfaces },
            TaskAction::OpenInterface { index: next },
        )
    } else {
        (TaskState::Reflecting, TaskAction::Reflect)
    }
}

/// What follows an event in the life of the program.
pub fn start_tasks(state: TaskState, event: TaskEvent) -> (result: (TaskState, TaskAction))
    requires
        can_happen(state, event),
    ensures
        result == task_step(state, event),
{
    match (state, event) {
        (TaskState::Parsing, TaskEvent::Parsed { foreground, interfaces }) => {
            if foreground {
                (TaskState::Checking { interfaces }, TaskAction::CheckRunning)
            } else {
                (TaskState::Daemonizing { interfaces }, TaskAction::Daemonize)
            }
        },
        (TaskState::Parsing, TaskEvent::Rejected { exit_code }) => {
            (TaskState::Ended, TaskAction::Exit { code: exit_code })
        },
        (TaskState::Checking { interfaces }, TaskEvent::Checked { running: None }) => {
            (TaskState::OpeningServer { interfaces }, TaskAction::OpenServer)
        },
        (TaskState::Daemonizing { interfaces }, _) => {
            (TaskState::OpeningServer { interfaces }, TaskAction::OpenServer)
        },
        (TaskState::OpeningServer { interfaces }, TaskEvent::ServerOpened { ready: true }) => {
            open_next(0, interfaces)
        },
        (
            TaskState::OpeningInterface { next, interfaces },
            TaskEvent::InterfaceOpened { ready: true },
        ) => { open_next(next + 1, interfaces) },
        (_, TaskEvent::ServerOpened { ready: false }) => {
            (TaskState::Ended, TaskAction::Return { ok: false })
        },
        (_, TaskEvent::InterfaceOpened { ready: false }) => {
            (TaskState::Ended, TaskAction::Return { ok: false })
        },
        (TaskState::Reflecting, _) => {
            (TaskState::Stopping, TaskAction::StopTasks { timeout_millis: STOP_TIMEOUT_MILLIS })
        },
        (TaskState::Stopping, _) => { (TaskState::CheckingOwner, TaskAction::CheckOwner) },
        (TaskState::CheckingOwner, TaskEvent::OwnerChecked { running, own }) => {
            if is_ours(running, own) {
                (TaskState::RemovingPidFile, TaskAction::RemovePidFile)
            } else {
                (TaskState::Ended, TaskAction::Return { ok: true })
            }
        },
        _ => { (TaskState::Ended, TaskAction::Return { ok: true }) },
    }
}

/// Where a course of events leads, and what is done on the way, one action behind
/// each event.
pub open spec fn task_run(events: Seq<TaskEvent>) -> (TaskState, Seq<TaskAction>)
    decreases events.len(),
{
    if events.len() == 0 {
        (TaskState::Parsing, Seq::empty())
    } else {
        let (before, actions) = task_run(events.drop_last());
        let (after, action) = task_step(before, events.last());
        (after, actions.push(action))
    }
}

/// Whether each event of a course can happen where it stands.
pub open spec fn is_course(events: Seq<TaskEvent>) -> bool
    decreases events.len(),
{
    events.len() > 0 ==> is_course(events.drop_last()) && can_happen(
        task_run(events.drop_last()).0,
        events.last(),
    )
}

/// Whether the program got past its start: in the foreground with no other one
/// running, or in the background.
pub open spec fn has_started(events: Seq<TaskEvent>, interfaces: usize) -> bool {
    &&& events.len() >= 2
    &&& {
        ||| events[0] == (TaskEvent::Parsed { foreground: true, interfaces }) && events[1] == (
        TaskEvent::Checked { running: None })
        ||| events[0] == (TaskEvent::Parsed { foreground: false, interfaces }) && events[1]
            == TaskEvent::Daemonized
    }
}

/// Whether the receiving socket and then the sockets of the first `n` interfaces
/// were set up, in order.
pub open spec fn has_opened(
    events: Seq<TaskEvent>,
    actions: Seq<TaskAction>,
    interfaces: usize,
    n: int,
) -> bool {
    &&& has_started(events, interfaces)
    &&& events.len() >= 3 + n
    &&& actions.len() >= 2 + n
    &&& actions[1] == TaskAction::OpenServer
    &&& events[2] == (TaskEvent::ServerOpened { ready: true })
    &&& forall|k: int|
        #![trigger events[3 + k]]
        #![trigger actions[2 + k]]
        0 <= k < n ==> actions[2 + k] == (TaskAction::OpenInterface { index: k as usize })
            && events[3 + k] == (TaskEvent::InterfaceOpened { ready: true })
}

/// The course of events that leads to `state`.
spec fn leads_to(events: Seq<TaskEvent>, actions: Seq<TaskAction>, state: TaskState) -> bool {
    let count = events[0]->interfaces;
    match state {
        TaskState::Parsing => events.len() == 0,
        TaskState::Checking { interfaces } => events == seq![
            TaskEvent::Parsed { foreground: true, interfaces },
        ],
        TaskState::Daemonizing { interfaces } => events == seq![
            TaskEvent::Parsed { foreground: false, interfaces },
        ],
        TaskState::OpeningServer { interfaces } => {
            &&& events.len() == 2
            &&& has_started(events, interfaces)
            &&& actions[1] == TaskAction::OpenServer
        },
        TaskState::OpeningInterface { next, interfaces } => {
            &&& next < interfaces
            &&& events.len() == 3 + next
            &&& has_opened(events, actions, interfaces, next as int)
            &&& actions[2 + next] == (TaskAction::OpenInterface { index: next })
        },
        TaskState::Reflecting => events.len() == 3 + count && has_opened(
            events,
            actions,
            count,
            count as int,
        ),
        TaskState::Stopping => {
            &&& events.len() >= 1
            &&& events[events.len() - 1] is Shutdown
        },
        TaskState::CheckingOwner => {
            &&& events.len() >= 2
            &&& events[events.len() - 2] is Shutdown
        },
        TaskState::RemovingPidFile => {
            &&& events.len() >= 3
            &&& events[events.len() - 3] is Shutdown
        },
        TaskState::Ended => events.len() > 0,
    }
}

proof fn run_leads_to(events: Seq<TaskEvent>)
    requires
        is_course(events),
    ensures
        task_run(events).1.len() == events.len(),
        leads_to(events, task_run(events).1, task_run(events).0),
    decreases events.len(),
{
    if events.len() > 0 {
        let before = events.drop_last();
        run_leads_to(before);
        let actions = task_run(before).1;
        let all = task_run(events).1;
        assert(forall|k: int| 0 <= k < before.len() ==> events[k] == before[k]);
        assert(forall|k: int| 0 <= k < before.len() ==> all[k] == actions[k]);
        assert(before.len() == 0 ==> events == seq![events.last()]);
        if let TaskState::OpeningInterface { next, interfaces } = task_run(before).0 {
            if events.last() == (TaskEvent::InterfaceOpened { ready: true }) {
                assert forall|k: int|
                    #![trigger events[3 + k]]
                    #![trigger all[2 + k]]
                    0 <= k < next + 1 implies all[2 + k] == (TaskAction::OpenInterface {
                    index: k as usize,
                }) && events[3 + k] == (TaskEvent::InterfaceOpened { ready: true }) by {
                    if k < next {
                        assert(before[3 + k] == events[3 + k]);
                        assert(actions[2 + k] == all[2 + k]);
                    }
                }
            }
        }
    }
}

/// What is done behind an event is what follows it where the events before it lead.
proof fn action_follows_event(events: Seq<TaskEvent>, i: int)
    requires
        is_course(events),
        0 <= i < events.len(),
    ensures
        is_course(events.take(i)),
        can_happen(task_run(events.take(i)).0, events[i]),
        task_run(events).1.len() == events.len(),
        task_run(events).1[i] == task_step(task_run(events.take(i)).0, events[i]).1,
        task_run(events.take(i)).1 == task_run(events).1.take(i),
    decreases events.len(),
{
    run_leads_to(events);
    let before = events.drop_last();
    run_leads_to(before);
    if i < before.len() {
        action_follows_event(before, i);
        assert(before.take(i) == events.take(i));
        assert(task_run(before).1.take(i) == task_run(events).1.take(i));
    } else {
        assert(events.take(i) == before);
        assert(task_run(before).1 == task_run(events).1.take(i));
    }
}

/// Packets are repeated only once the receiving socket and the sockets of all the
/// interfaces are set up, each interface once, in the order of the command line.
pub proof fn reflects_only_with_all_sockets(events: Seq<TaskEvent>, i: int)
    requires
        is_course(events),
        0 <= i < events.len(),
        task_run(events).1[i] is Reflect,
    ensures
        events[0] is Parsed,
        i == 2 + events[0]->interfaces,
        has_opened(
            events,
            task_run(events).1,
            events[0]->interfaces,
            events[0]->interfaces as int,
        ),
{
    action_follows_event(events, i);
    action_then_prefix(events, i);
    let upto = events.take(i + 1);
    run_leads_to(upto);
    let count = upto[0]->interfaces;
    let all = task_run(events).1;
    let some = task_run(upto).1;
    assert(forall|k: int| 0 <= k <= i ==> upto[k] == events[k]);
    assert(forall|k: int| 0 <= k <= i ==> some[k] == all[k]);
    assert forall|k: int|
        #![trigger events[3 + k]]
        #![trigger all[2 + k]]
        0 <= k < count implies all[2 + k] == (TaskAction::OpenInterface { index: k as usize })
        && events[3 + k] == (TaskEvent::InterfaceOpened { ready: true }) by {
        assert(upto[3 + k] == events[3 + k]);
        assert(some[2 + k] == all[2 + k]);
    }
}

proof fn action_then_prefix(events: Seq<TaskEvent>, i: int)
    requires
        is_course(events),
        0 <= i < events.len(),
    ensures
        is_course(events.take(i + 1)),
        task_run(events.take(i + 1)).0 == task_step(task_run(events.take(i)).0, events[i]).0,
        task_run(events.take(i + 1)).1 == task_run(events).1.take(i + 1),
{
    run_leads_to(events);
    if i + 1 < events.len() {
        action_follows_event(events, i + 1);
    } else {
        assert(events.take(i + 1) == events);
        assert(task_run(events).1.take(i + 1) == task_run(events).1);
    }
    assert(events.take(i + 1).drop_last() == events.take(i));
}

/// Sockets are set up only in the foreground when no other process was found
/// running, or once the program is in the background; it goes there only where the
/// command line did not ask for the foreground.
pub proof fn starts_only_alone(events: Seq<TaskEvent>, i: int)
    requires
        is_course(events),
        0 <= i < events.len(),
    ensures
        task_run(events).1.len() == events.len(),
        task_run(events).1[i] is OpenServer ==> i == 1 && events[0] is Parsed && has_started(
            events,
            events[0]->interfaces,
        ),
        task_run(events).1[i] is OpenInterface ==> events[0] is Parsed && has_started(
            events,
            events[0]->interfaces,
        ),
        task_run(events).1[i] is Daemonize ==> i == 0 && events[0] matches TaskEvent::Parsed {
            foreground: false,
            ..
        },
{
    action_follows_event(events, i);
    run_leads_to(events.take(i));
    let before = events.take(i);
    assert(forall|k: int| 0 <= k < i ==> before[k] == events[k]);
}

/// A program that finds another one running in its place returns at once, and well.
pub proof fn second_program_returns(events: Seq<TaskEvent>, running: i32)
    requires
        is_course(events),
        events.len() >= 2,
        events[1] == (TaskEvent::Checked { running: Some(running) }),
    ensures
        events.len() == 2,
        task_run(events).1 == seq![TaskAction::CheckRunning, TaskAction::Return { ok: true }],
{
    action_follows_event(events, 0);
    action_follows_event(events, 1);
    action_then_prefix(events, 1);
    run_leads_to(events.take(1));
    reveal_with_fuel(task_run, 2);
    assert(events.take(0).len() == 0);
    if events.len() > 2 {
        action_follows_event(events, 2);
    }
}

/// The pid file is removed only where it records this very process as running.
pub proof fn pid_file_is_removed_only_by_its_owner(events: Seq<TaskEvent>, i: int)
    requires
        is_course(events),
        0 <= i < events.len(),
    ensures
        task_run(events).1.len() == events.len(),
        task_run(events).1[i] is RemovePidFile <==> (events[i] matches TaskEvent::OwnerChecked {
            running,
            own,
        } && running == Some(own)),
{
    action_follows_event(events, i);
}

/// The program returns an error exactly where a socket cannot be set up.
pub proof fn errors_come_from_sockets(events: Seq<TaskEvent>, i: int)
    requires
        is_course(events),
        0 <= i < events.len(),
    ensures
        task_run(events).1.len() == events.len(),
        task_run(events).1[i] == (TaskAction::Return { ok: false }) <==> events[i] == (
        TaskEvent::ServerOpened { ready: false }) || events[i] == (TaskEvent::InterfaceOpened {
            ready: false,
        }),
{
    action_follows_event(events, i);
}

/// Once packets are no longer to be repeated, whatever the reason, the tasks are told
/// to end, the pid file is looked after, and the program returns well, even where the
/// tasks do not end in time or the pid file cannot be removed.
pub proof fn shutdown_is_orderly(events: Seq<TaskEvent>, i: int)
    requires
        is_course(events),
        0 <= i < events.len(),
        events[i] is Shutdown,
    ensures
        task_run(events).1.len() == events.len() <= i + 4,
        task_run(events).1[i] == (TaskAction::StopTasks { timeout_millis: STOP_TIMEOUT_MILLIS }),
        i + 1 < events.len() ==> task_run(events).1[i + 1] is CheckOwner,
        i + 2 < events.len() ==> task_run(events).1[i + 2] is RemovePidFile || task_run(
            events,
        ).1[i + 2] == (TaskAction::Return { ok: true }),
        i + 3 < events.len() ==> task_run(events).1[i + 3] == (TaskAction::Return { ok: true }),
{
    action_follows_event(events, i);
    action_then_prefix(events, i);
    if i + 1 < events.len() {
        action_follows_event(events, i + 1);
        action_then_prefix(events, i + 1);
    }
    if i + 2 < events.len() {
        action_follows_event(events, i + 2);
        action_then_prefix(events, i + 2);
    }
    if i + 3 < events.len() {
        action_follows_event(events, i + 3);
        action_then_prefix(events, i + 3);
    }
    if i + 4 < events.len() {
        action_follows_event(events, i + 4);
    }
}

/// While a program that has recorded itself is running, no second one with the same
/// pid file starts: in the background it ends badly, in the foreground it returns.
pub proof fn recorded_program_runs_alone(writer: i32, own: i32, interfaces: usize)
    ensures
        ({
            let running = found_running(integer_text(writer as int), 0);
            &&& daemon_step(DaemonState::Checking, DaemonEvent::Checked { running, own }) == (
                DaemonState::Exited,
                DaemonAction::Exit { code: 1 },
            )
            &&& task_step(TaskState::Checking { interfaces }, TaskEvent::Checked { running }) == (
                TaskState::Ended,
                TaskAction::Return { ok: true },
            )
        }),
{
    written_pid_is_found(writer, writer);
}

/// At its end, a program removes the pid file that it has written itself, and leaves
/// one that another running program has written.
pub proof fn written_pid_file_is_removed(writer: i32, own: i32)
    ensures
        task_step(
            TaskState::CheckingOwner,
            TaskEvent::OwnerChecked { running: found_running(integer_text(writer as int), 0), own },
        ).1 is RemovePidFile <==> writer == own,
{
    written_pid_is_found(writer, own);
}

/// The events of a start that works, up to the receiving socket and the sockets of the
/// first `opened` interfaces.
pub open spec fn opening(foreground: bool, interfaces: usize, opened: nat) -> Seq<TaskEvent> {
    seq![
        TaskEvent::Parsed { foreground, interfaces },
        if foreground {
            TaskEvent::Checked { running: None }
        } else {
            TaskEvent::Daemonized
        },
        TaskEvent::ServerOpened { ready: true },
    ] + Seq::new(opened, |k: int| TaskEvent::InterfaceOpened { ready: true })
}

/// For every number of interfaces, a start that works opens them all, one after the other
/// and each by its own index, and then packets are repeated: not before the last one, and
/// not without it.
pub proof fn every_interface_is_opened(foreground: bool, interfaces: usize, opened: nat)
    requires
        opened <= interfaces,
    ensures
        is_course(opening(foreground, interfaces, opened)),
        task_run(opening(foreground, interfaces, opened)).1.len() == 3 + opened,
        task_run(opening(foreground, interfaces, opened)).1[0] == if foreground {
            TaskAction::CheckRunning
        } else {
            TaskAction::Daemonize
        },
        task_run(opening(foreground, interfaces, opened)).1[1] is OpenServer,
        forall|k: int|
            0 <= k <= opened ==> (#[trigger] task_run(
                opening(foreground, interfaces, opened),
            ).1[2 + k]) == if k < interfaces {
                TaskAction::OpenInterface { index: k as usize }
            } else {
                TaskAction::Reflect
            },
        task_run(opening(foreground, interfaces, opened)).0 == if opened < interfaces {
            TaskState::OpeningInterface { next: opened as usize, interfaces }
        } else {
            TaskState::Reflecting
        },
    decreases opened,
{
    let events = opening(foreground, interfaces, opened);
    let before = events.drop_last();
    if opened == 0 {
        reveal_with_fuel(task_run, 4);
        reveal_with_fuel(is_course, 4);
        assert(before == seq![events[0], events[1]]);
        assert(before.drop_last() == seq![events[0]]);
        assert(seq![events[0]].drop_last() == Seq::<TaskEvent>::empty());
    } else {
        let less = (opened - 1) as nat;
        every_interface_is_opened(foreground, interfaces, less);
        assert(before == opening(foreground, interfaces, less));
        let actions = task_run(before).1;
        let all = task_run(events).1;
        assert forall|k: int| 0 <= k <= opened implies (#[trigger] all[2 + k]) == if k
            < interfaces {
            TaskAction::OpenInterface { index: k as usize }
        } else {
            TaskAction::Reflect
        } by {
            if k < opened {
                assert(all[2 + k] == actions[2 + k]);
            }
        }
        assert(all[0] == actions[0]);
        assert(all[1] == actions[1]);
    }
}

/// What is done behind the last event of a course: a command line that is not taken ends
/// the program with its own code; a socket that is set up is followed by that of the next
/// interface, by its place on the command line, and the last one by repeating packets; a
/// socket that is not set up ends the program with an error; and the end goes in order.
pub proof fn last_event_has_its_action(events: Seq<TaskEvent>)
    requires
        is_course(events),
        events.len() > 0,
    ensures
        ({
            let at = events.len() - 1;
            let action = task_run(events).1.last();
            match events.last() {
                TaskEvent::Parsed { foreground, .. } => at == 0 && action == if foreground {
                    TaskAction::CheckRunning
                } else {
                    TaskAction::Daemonize
                },
                TaskEvent::Rejected { exit_code } => at == 0 && action == (TaskAction::Exit {
                    code: exit_code,
                }),
                TaskEvent::Checked { running: None } | TaskEvent::Daemonized => at == 1 && action
                    == TaskAction::OpenServer,
                TaskEvent::Checked { running: Some(_) } => at == 1 && action == (
                TaskAction::Return { ok: true }),
                TaskEvent::ServerOpened { ready: true } => at == 2 && events[0] is Parsed && action
                    == if events[0]->interfaces > 0 {
                    TaskAction::OpenInterface { index: 0 }
                } else {
                    TaskAction::Reflect
                },
                TaskEvent::InterfaceOpened { ready: true } => at >= 3 && events[0] is Parsed
                    && action == if events[0]->interfaces > at - 2 {
                    TaskAction::OpenInterface { index: (at - 2) as usize }
                } else {
                    TaskAction::Reflect
                },
                TaskEvent::ServerOpened { ready: false }
                | TaskEvent::InterfaceOpened { ready: false } => action == (TaskAction::Return {
                    ok: false,
                }),
                TaskEvent::Shutdown { .. } => action == (TaskAction::StopTasks {
                    timeout_millis: 10000,
                }),
                TaskEvent::TasksEnded { .. } => action == TaskAction::CheckOwner,
                TaskEvent::OwnerChecked { running, own } => action == if running == Some(own) {
                    TaskAction::RemovePidFile
                } else {
                    TaskAction::Return { ok: true }
                },
                TaskEvent::PidFileRemoved { .. } => action == (TaskAction::Return { ok: true }),
            }
        }),
{
    let before = events.drop_last();
    run_leads_to(before);
    assert(before.len() > 0 ==> before[0] == events[0]);
}

/// The program returns well only where it has found another one running, where the pid
/// file is not its own, or behind the removal of that file; and it ends with a code only
/// where the command line was not taken, with that very code.
pub proof fn end_tells_why(events: Seq<TaskEvent>, code: i32)
    requires
        is_course(events),
        events.len() > 0,
    ensures
        task_run(events).1.last() == (TaskAction::Return { ok: true }) <==> {
            ||| events.last() matches TaskEvent::Checked { running: Some(_) }
            ||| events.last() matches TaskEvent::OwnerChecked { running, own } && running != Some(
                own,
            )
            ||| events.last() is PidFileRemoved
        },
        task_run(events).1.last() == (TaskAction::Exit { code }) <==> events.last() == (
        TaskEvent::Rejected { exit_code: code }),
{
    last_event_has_its_action(events);
}

/// After every course of events, any outcome of what was done last can come next, and
/// nothing else can.
pub proof fn every_outcome_can_follow(events: Seq<TaskEvent>, event: TaskEvent)
    requires
        is_course(events),
    ensures
        is_course(events.push(event)) <==> match (if events.len() == 0 {
            TaskAction::Parse
        } else {
            task_run(events).1.last()
        }) {
            TaskAction::Parse => event is Parsed || event is Rejected,
            TaskAction::CheckRunning => event is Checked,
            TaskAction::Daemonize => event is Daemonized,
            TaskAction::OpenServer => event is ServerOpened,
            TaskAction::OpenInterface { .. } => event is InterfaceOpened,
            TaskAction::Reflect => event is Shutdown,
            TaskAction::StopTasks { .. } => event is TasksEnded,
            TaskAction::CheckOwner => event is OwnerChecked,
            TaskAction::RemovePidFile => event is PidFileRemoved,
            TaskAction::Exit { .. } | TaskAction::Return { .. } => false,
        },
{
    assert(events.push(event).drop_last() == events);
    run_leads_to(events);
    if events.len() > 0 {
        run_leads_to(events.drop_last());
    }
}

} // verus!
