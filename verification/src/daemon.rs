//! Going into the background.
//!
//! [`daemonize`] takes how far the program has come on its way into the background
//! and what has just happened, and says what is to be done next.

use vstd::prelude::*;

verus! {

/// The file mode creation mask of the program in the background.
pub const DAEMON_UMASK: u32 = 0o027;

/// The working directory of the program in the background.
pub const DAEMON_DIRECTORY: &'static str = "/";

/// One step of leaving the terminal and the session. What comes of it makes no
/// difference.
#[derive(Clone, Copy, Debug, PartialEq, Eq)]
pub enum DetachStep {
    /// Ignore the signal that a child has ended (`SIGCHLD`).
    IgnoreChildSignal,
    /// Ignore the signal that the terminal is gone (`SIGHUP`).
    IgnoreHangupSignal,
    /// Start a session of its own (`setsid`).
    StartSession,
    /// Set the file mode creation mask.
    SetUmask { mask: u32 },
    /// Change the working directory.
    ChangeDirectory { path: &'static str },
}

/// The steps of leaving the terminal and the session.
pub open spec fn detaching() -> Seq<DetachStep> {
    seq![
        DetachStep::IgnoreChildSignal,
        DetachStep::IgnoreHangupSignal,
        DetachStep::StartSession,
        DetachStep::SetUmask { mask: DAEMON_UMASK },
        DetachStep::ChangeDirectory { path: DAEMON_DIRECTORY },
    ]
}

/// The steps of leaving the terminal and the session.
pub fn detach_steps() -> (steps: Vec<DetachStep>)
    ensures
        steps@ == detaching(),
{
    vec![
        DetachStep::IgnoreChildSignal,
        DetachStep::IgnoreHangupSignal,
        DetachStep::StartSession,
        DetachStep::SetUmask { mask: DAEMON_UMASK },
        DetachStep::ChangeDirectory { path: DAEMON_DIRECTORY },
    ]
}

/// How far the program has come on its way into the background.
#[derive(Clone, Copy, Debug, PartialEq, Eq, Structural)]
pub enum DaemonState {
    /// The process is being forked.
    Forking,
    /// The child leaves its terminal and its session, at present by the step `at`.
    Detaching { at: usize },
    /// The pid file is being read.
    Checking,
    /// The pid file is being written.
    Recording,
    /// The program is in the background.
    Done,
    /// The process has ended.
    Exited,
}

/// What has just happened.
#[derive(Clone, Copy, Debug, PartialEq, Eq, Structural)]
pub enum DaemonEvent {
    /// `fork` answered.
    Forked { pid: i32 },
    /// A step of detaching was taken.
    Detached,
    /// The pid file was read: it records that running process, or none; this process
    /// is `own`.
    Checked { running: Option<i32>, own: i32 },
    /// The pid file was written, or could not be.
    Recorded { written: bool },
}

/// What is to be done next.
#[derive(Clone, Copy, Debug, PartialEq, Eq)]
pub enum DaemonAction {
    /// Fork the process.
    Fork,
    /// Take that step of detaching.
    Detach { step: DetachStep },
    /// Find out which process the pid file records as running, and which this one is.
    CheckRunning,
    /// Record that process in the pid file.
    WritePidFile { pid: i32 },
    /// Go on in the background.
    GoOn,
    /// End the process with that code.
    Exit { code: i32 },
}

/// Whether an event can happen where the program stands.
pub open spec fn can_happen(state: DaemonState, event: DaemonEvent) -> bool {
    match state {
        DaemonState::Forking => event is Forked,
        DaemonState::Detaching { at } => event is Detached && at < detaching().len(),
        DaemonState::Checking => event is Checked,
        DaemonState::Recording => event is Recorded,
        DaemonState::Done | DaemonState::Exited => false,
    }
}

/// What comes when the steps of detaching before `at` are taken.
pub open spec fn detach_step(at: int) -> (DaemonState, DaemonAction) {
    if at < detaching().len() {
        (
            DaemonState::Detaching { at: at as usize },
            DaemonAction::Detach { step: detaching()[at] },
        )
    } else {
        (DaemonState::Checking, DaemonAction::CheckRunning)
    }
}

/// What follows an event: the parent ends well and a failed fork ends badly, so does
/// a program that is running already or cannot record itself; the child goes on.
pub open spec fn daemon_step(state: DaemonState, event: DaemonEvent) -> (
    DaemonState,
    DaemonAction,
) {
    match event {
        DaemonEvent::Forked { pid } => if pid < 0 {
            (DaemonState::Exited, DaemonAction::Exit { code: 1 })
        } else if pid > 0 {
            (DaemonState::Exited, DaemonAction::Exit { code: 0 })
        } else {
            detach_step(0)
        },
        DaemonEvent::Detached => detach_step(state->at + 1),
        DaemonEvent::Checked { running, own } => if running is Some {
            (DaemonState::Exited, DaemonAction::Exit { code: 1 })
        } else {
            (DaemonState::Recording, DaemonAction::WritePidFile { pid: own })
        },
        DaemonEvent::Recorded { written } => if written {
            (DaemonState::Done, DaemonAction::GoOn)
        } else {
            (DaemonState::Exited, DaemonAction::Exit { code: 1 })
        },
    }
}

/// What the way into the background begins with.
pub fn begin() -> (result: (DaemonState, DaemonAction))
    ensures
        result == (DaemonState::Forking, DaemonAction::Fork),
{
    (DaemonState::Forking, DaemonAction::Fork)
}

/// Goes on to the step `at` of detaching, or to the pid file where there is none.
fn detach_on(at: usize) -> (result: (DaemonState, DaemonAction))
    ensures
        result == detach_step(at as int),
{
    let steps = detach_steps();
    if at < steps.len() {
        (DaemonState::Detaching { at }, DaemonAction::Detach { step: steps[at] })
    } else {
        (DaemonState::Checking, DaemonAction::CheckRunning)
    }
}

/// What follows an event on the way into the background.
pub fn daemonize(state: DaemonState, event: DaemonEvent) -> (result: (DaemonState, DaemonAction))
    requires
        can_happen(state, event),
    ensures
        result == daemon_step(state, event),
{
    match (state, event) {
        (_, DaemonEvent::Forked { pid }) => {
            if pid < 0 {
                return (DaemonState::Exited, DaemonAction::Exit { code: 1 });
            }
            if pid > 0 {
                return (DaemonState::Exited, DaemonAction::Exit { code: 0 });
            }
            detach_on(0)
        },
        (DaemonState::Detaching { at }, _) => detach_on(at + 1),
        (_, DaemonEvent::Checked { running: None, own }) => {
            (DaemonState::Recording, DaemonAction::WritePidFile { pid: own })
        },
        (_, DaemonEvent::Recorded { written: true }) => (DaemonState::Done, DaemonAction::GoOn),
        _ => (DaemonState::Exited, DaemonAction::Exit { code: 1 }),
    }
}

/// Where a course of events leads, and what is done on the way.
pub open spec fn daemon_run(events: Seq<DaemonEvent>) -> (DaemonState, Seq<DaemonAction>)
    decreases events.len(),
{
    if events.len() == 0 {
        (DaemonState::Forking, seq![DaemonAction::Fork])
    } else {
        let (before, actions) = daemon_run(events.drop_last());
        let (after, action) = daemon_step(before, events.last());
        (after, actions.push(action))
    }
}

/// Whether each event of a course can happen where it stands.
pub open spec fn is_course(events: Seq<DaemonEvent>) -> bool
    decreases events.len(),
{
    events.len() > 0 ==> is_course(events.drop_last()) && can_happen(
        daemon_run(events.drop_last()).0,
        events.last(),
    )
}

/// The course of events that leads into the background, for the child `own`.
pub open spec fn success(own: i32) -> Seq<DaemonEvent> {
    seq![
        DaemonEvent::Forked { pid: 0 },
        DaemonEvent::Detached,
        DaemonEvent::Detached,
        DaemonEvent::Detached,
        DaemonEvent::Detached,
        DaemonEvent::Detached,
        DaemonEvent::Checked { running: None, own },
        DaemonEvent::Recorded { written: true },
    ]
}

/// What the child does until it has left its terminal and its session, the fork
/// included.
pub open spec fn leaving() -> Seq<DaemonAction> {
    seq![DaemonAction::Fork] + detaching().map_values(
        |step: DetachStep| DaemonAction::Detach { step },
    )
}

/// How many events of [`success`] lead to `state`.
spec fn events_to(state: DaemonState) -> int {
    match state {
        DaemonState::Forking => 0,
        DaemonState::Detaching { at } => 1 + at,
        DaemonState::Checking => 6,
        DaemonState::Recording => 7,
        DaemonState::Done | DaemonState::Exited => 8,
    }
}

proof fn course_follows_success(events: Seq<DaemonEvent>, own: i32)
    requires
        is_course(events),
        events.len() > 6 ==> events[6]->own == own,
    ensures
        daemon_run(events).0 !is Exited ==> events == success(own).take(
            events_to(daemon_run(events).0),
        ),
        daemon_run(events).0 matches DaemonState::Detaching { at } ==> at < detaching().len(),
    decreases events.len(),
{
    if events.len() > 0 {
        let before = events.drop_last();
        assert(before.len() > 6 ==> before[6] == events[6]);
        course_follows_success(before, own);
        assert(events == before.push(events.last()));
        if daemon_run(events).0 !is Exited {
            let n = events.len() as int;
            assert(success(own).take(n) == success(own).take(n - 1).push(success(own)[n - 1]));
        }
    } else {
        assert(success(own).take(0) == events);
    }
}

proof fn success_runs(own: i32)
    ensures
        is_course(success(own)),
        daemon_run(success(own)) == (
            DaemonState::Done,
            leaving() + seq![
                DaemonAction::CheckRunning,
                DaemonAction::WritePidFile { pid: own },
                DaemonAction::GoOn,
            ],
        ),
{
    reveal_with_fuel(daemon_run, 9);
    reveal_with_fuel(is_course, 9);
    let all = success(own);
    assert(all.take(8) == all);
    assert(forall|n: int|
        0 < n <= 8 ==> #[trigger] all.take(n).drop_last() == all.take(n - 1) && all.take(n).last()
            == all[n - 1]);
    assert(all.take(0).len() == 0);
}

/// The program goes on in the background only as the child of a fork that worked, with
/// no other one running, and recorded in the pid file by its own id.
pub proof fn background_is_recorded(events: Seq<DaemonEvent>)
    requires
        is_course(events),
    ensures
        daemon_run(events).0 is Done <==> events.len() == 8 && events == success(events[6]->own),
        daemon_run(events).0 is Done ==> daemon_run(events).1 == leaving() + seq![
            DaemonAction::CheckRunning,
            DaemonAction::WritePidFile { pid: events[6]->own },
            DaemonAction::GoOn,
        ],
{
    let own = events[6]->own;
    course_follows_success(events, own);
    assert(success(own).take(8) == success(own));
    success_runs(own);
}

/// In every course of events, the pid file is not read or written before the child has
/// left its terminal and its session: by then it ignores both signals, has started a
/// session, and has set its mask and its directory. What is written is the id of the
/// process that has just read the file.
pub proof fn detached_before_the_pid_file(events: Seq<DaemonEvent>, i: int)
    requires
        is_course(events),
        0 <= i < daemon_run(events).1.len(),
        daemon_run(events).1[i] is CheckRunning || daemon_run(events).1[i] is WritePidFile,
    ensures
        i >= leaving().len(),
        daemon_run(events).1.take(leaving().len() as int) == leaving(),
        daemon_run(events).1[i] matches DaemonAction::WritePidFile { pid } ==> events[i - 1] == (
        DaemonEvent::Checked { running: None, own: pid }),
    decreases events.len(),
{
    let actions = daemon_run(events).1;
    one_action_each(events);
    if events.len() > 0 {
        let before = events.drop_last();
        one_action_each(before);
        if i < before.len() + 1 {
            detached_before_the_pid_file(before, i);
            assert(actions.take(6) == daemon_run(before).1.take(6));
        } else if actions[i] is CheckRunning {
            let own = events[6]->own;
            course_follows_success(events, own);
            reveal_with_fuel(daemon_run, 7);
            let all = success(own);
            assert(forall|n: int|
                0 < n <= 6 ==> #[trigger] all.take(n).drop_last() == all.take(n - 1)
                    && all.take(n).last() == all[n - 1]);
            assert(all.take(0).len() == 0);
            assert(actions.take(6) == leaving());
        } else {
            checking_follows_check(before);
            detached_before_the_pid_file(before, i - 1);
            assert(actions.take(6) == daemon_run(before).1.take(6));
        }
    }
}

proof fn one_action_each(events: Seq<DaemonEvent>)
    ensures
        daemon_run(events).1.len() == events.len() + 1,
    decreases events.len(),
{
    if events.len() > 0 {
        one_action_each(events.drop_last());
    }
}

proof fn checking_follows_check(events: Seq<DaemonEvent>)
    requires
        daemon_run(events).0 is Checking,
    ensures
        daemon_run(events).1.last() is CheckRunning,
{
}

/// The process ends well where it is the parent of a fork, and badly where the fork
/// failed, where another process is running, or where the pid file cannot be
/// written; it ends nowhere else.
pub proof fn exit_tells_why(state: DaemonState, event: DaemonEvent, code: i32)
    requires
        can_happen(state, event),
    ensures
        daemon_step(state, event).1 == (DaemonAction::Exit { code }) <==> {
            ||| event matches DaemonEvent::Forked { pid } && pid > 0 && code == 0
            ||| event matches DaemonEvent::Forked { pid } && pid < 0 && code == 1
            ||| event matches DaemonEvent::Checked { running, .. } && running is Some && code == 1
            ||| event == (DaemonEvent::Recorded { written: false }) && code == 1
        },
{
}

/// Every answer of `fork` can come, and in the child each step of detaching follows the
/// one before it: the signals of children and of the terminal are ignored, a session is
/// started, the mask 0o027 is set, and the directory is the root. What is read of the pid
/// file then decides, whichever process this is: it is recorded by its own id, or ends.
pub proof fn last_event_has_its_action(events: Seq<DaemonEvent>)
    requires
        is_course(events),
        events.len() > 0,
    ensures
        ({
            let at = events.len() - 1;
            let action = daemon_run(events).1.last();
            match events.last() {
                DaemonEvent::Forked { pid } => at == 0 && action == if pid < 0 {
                    DaemonAction::Exit { code: 1 }
                } else if pid > 0 {
                    DaemonAction::Exit { code: 0 }
                } else {
                    DaemonAction::Detach { step: DetachStep::IgnoreChildSignal }
                },
                DaemonEvent::Detached => {
                    &&& 1 <= at <= 5
                    &&& at == 1 ==> action == (DaemonAction::Detach {
                        step: DetachStep::IgnoreHangupSignal,
                    })
                    &&& at == 2 ==> action == (DaemonAction::Detach {
                        step: DetachStep::StartSession,
                    })
                    &&& at == 3 ==> action == (DaemonAction::Detach {
                        step: DetachStep::SetUmask { mask: 0o027 },
                    })
                    &&& at == 4 ==> (action matches DaemonAction::Detach {
                        step: DetachStep::ChangeDirectory { path },
                    } && path@ == "/"@)
                    &&& at == 5 ==> action is CheckRunning
                },
                DaemonEvent::Checked { running: None, own } => at == 6 && action == (
                DaemonAction::WritePidFile { pid: own }),
                DaemonEvent::Checked { running: Some(_), .. } => at == 6 && action == (
                DaemonAction::Exit { code: 1 }),
                DaemonEvent::Recorded { written } => at == 7 && action == if written {
                    DaemonAction::GoOn
                } else {
                    DaemonAction::Exit { code: 1 }
                },
            }
        }),
{
    let before = events.drop_last();
    let own = before[6]->own;
    course_follows_success(before, own);
    assert(before.len() == events_to(daemon_run(before).0));
}

/// After every course of events, any outcome of what was done last can come next, and
/// nothing else can.
pub proof fn every_outcome_can_follow(events: Seq<DaemonEvent>, event: DaemonEvent)
    requires
        is_course(events),
    ensures
        is_course(events.push(event)) <==> match daemon_run(events).1.last() {
            DaemonAction::Fork => event is Forked,
            DaemonAction::Detach { .. } => event is Detached,
            DaemonAction::CheckRunning => event is Checked,
            DaemonAction::WritePidFile { .. } => event is Recorded,
            DaemonAction::GoOn | DaemonAction::Exit { .. } => false,
        },
{
    assert(events.push(event).drop_last() == events);
    course_follows_success(events, events[6]->own);
    if events.len() > 0 {
        course_follows_success(events.drop_last(), events.drop_last()[6]->own);
    }
}

/// For every process, the way into the background is open: where the fork worked, no
/// other process is running and the pid file can be written, it is gone to its end.
pub proof fn every_child_can_go_on(own: i32)
    ensures
        is_course(success(own)),
        daemon_run(success(own)).0 is Done,
        daemon_run(success(own)).1.last() is GoOn,
        daemon_run(success(own)).1[7] == (DaemonAction::WritePidFile { pid: own }),
{
    success_runs(own);
}

} // verus!
