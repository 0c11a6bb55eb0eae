use mdns_reflector::daemon::{
    begin as begin_daemon, daemonize, detach_steps, DaemonAction, DaemonEvent, DaemonState,
    DetachStep, DAEMON_DIRECTORY, DAEMON_UMASK,
};
use mdns_reflector::tasks::{begin, start_tasks, ShutdownCause, TaskAction, TaskEvent, TaskState};

/// What the program does, one action behind each event.
fn run(events: &[TaskEvent]) -> Vec<TaskAction> {
    let (mut state, first) = begin();
    assert_eq!(first, TaskAction::Parse);
    let mut actions = vec![];
    for event in events {
        let (next, action) = start_tasks(state, *event);
        actions.push(action);
        state = next;
    }
    actions
}

fn run_daemon(events: &[DaemonEvent]) -> Vec<DaemonAction> {
    let (mut state, first) = begin_daemon();
    let mut actions = vec![first];
    for event in events {
        let (next, action) = daemonize(state, *event);
        actions.push(action);
        state = next;
    }
    actions
}

#[test]
fn program_in_the_foreground_runs_to_its_end() {
    assert_eq!(
        run(&[
            TaskEvent::Parsed { foreground: true, interfaces: 2 },
            TaskEvent::Checked { running: None },
            TaskEvent::ServerOpened { ready: true },
            TaskEvent::InterfaceOpened { ready: true },
            TaskEvent::InterfaceOpened { ready: true },
            TaskEvent::Shutdown { cause: ShutdownCause::Interrupt },
            TaskEvent::TasksEnded { in_time: true },
            TaskEvent::OwnerChecked { running: None, own: 7 },
        ]),
        vec![
            TaskAction::CheckRunning,
            TaskAction::OpenServer,
            TaskAction::OpenInterface { index: 0 },
            TaskAction::OpenInterface { index: 1 },
            TaskAction::Reflect,
            TaskAction::StopTasks { timeout_millis: 10000 },
            TaskAction::CheckOwner,
            TaskAction::Return { ok: true },
        ]
    );
}

#[test]
fn program_in_the_background_removes_its_pid_file() {
    for removed in [true, false] {
        assert_eq!(
            run(&[
                TaskEvent::Parsed { foreground: false, interfaces: 1 },
                TaskEvent::Daemonized,
                TaskEvent::ServerOpened { ready: true },
                TaskEvent::InterfaceOpened { ready: true },
                TaskEvent::Shutdown { cause: ShutdownCause::Terminate },
                TaskEvent::TasksEnded { in_time: false },
                TaskEvent::OwnerChecked { running: Some(7), own: 7 },
                TaskEvent::PidFileRemoved { removed },
            ]),
            vec![
                TaskAction::Daemonize,
                TaskAction::OpenServer,
                TaskAction::OpenInterface { index: 0 },
                TaskAction::Reflect,
                TaskAction::StopTasks { timeout_millis: 10000 },
                TaskAction::CheckOwner,
                TaskAction::RemovePidFile,
                TaskAction::Return { ok: true },
            ]
        );
    }
}

#[test]
fn pid_file_of_another_process_stays() {
    assert_eq!(
        start_tasks(
            TaskState::CheckingOwner,
            TaskEvent::OwnerChecked { running: Some(8), own: 7 }
        ),
        (TaskState::Ended, TaskAction::Return { ok: true })
    );
}

#[test]
fn second_program_in_the_foreground_returns() {
    assert_eq!(
        run(&[
            TaskEvent::Parsed { foreground: true, interfaces: 2 },
            TaskEvent::Checked { running: Some(99) },
        ]),
        vec![TaskAction::CheckRunning, TaskAction::Return { ok: true }]
    );
}

#[test]
fn command_line_that_is_not_taken_ends_the_program() {
    assert_eq!(
        run(&[TaskEvent::Rejected { exit_code: 2 }]),
        vec![TaskAction::Exit { code: 2 }]
    );
    assert_eq!(
        run(&[TaskEvent::Rejected { exit_code: 0 }]),
        vec![TaskAction::Exit { code: 0 }]
    );
}

#[test]
fn socket_that_cannot_be_set_up_is_an_error() {
    let mut events = vec![
        TaskEvent::Parsed { foreground: true, interfaces: 2 },
        TaskEvent::Checked { running: None },
        TaskEvent::ServerOpened { ready: false },
    ];
    assert_eq!(run(&events).last(), Some(&TaskAction::Return { ok: false }));
    events[2] = TaskEvent::ServerOpened { ready: true };
    events.push(TaskEvent::InterfaceOpened { ready: true });
    events.push(TaskEvent::InterfaceOpened { ready: false });
    assert_eq!(run(&events).last(), Some(&TaskAction::Return { ok: false }));
}

#[test]
fn every_reason_to_stop_stops_the_tasks() {
    for cause in [
        ShutdownCause::Interrupt,
        ShutdownCause::Terminate,
        ShutdownCause::TaskStopped,
    ] {
        assert_eq!(
            start_tasks(TaskState::Reflecting, TaskEvent::Shutdown { cause }),
            (TaskState::Stopping, TaskAction::StopTasks { timeout_millis: 10000 })
        );
    }
}

#[test]
fn child_records_itself_and_goes_on() {
    assert_eq!(
        run_daemon(&[
            DaemonEvent::Forked { pid: 0 },
            DaemonEvent::Detached,
            DaemonEvent::Detached,
            DaemonEvent::Detached,
            DaemonEvent::Detached,
            DaemonEvent::Detached,
            DaemonEvent::Checked { running: None, own: 4711 },
            DaemonEvent::Recorded { written: true },
        ]),
        vec![
            DaemonAction::Fork,
            DaemonAction::Detach { step: DetachStep::IgnoreChildSignal },
            DaemonAction::Detach { step: DetachStep::IgnoreHangupSignal },
            DaemonAction::Detach { step: DetachStep::StartSession },
            DaemonAction::Detach { step: DetachStep::SetUmask { mask: 0o0027 } },
            DaemonAction::Detach { step: DetachStep::ChangeDirectory { path: "/" } },
            DaemonAction::CheckRunning,
            DaemonAction::WritePidFile { pid: 4711 },
            DaemonAction::GoOn,
        ]
    );
    assert_eq!(DAEMON_UMASK, 0o0027);
    assert_eq!(DAEMON_DIRECTORY, "/");
}

#[test]
fn child_detaches_in_order() {
    assert_eq!(
        detach_steps(),
        vec![
            DetachStep::IgnoreChildSignal,
            DetachStep::IgnoreHangupSignal,
            DetachStep::StartSession,
            DetachStep::SetUmask { mask: 0o0027 },
            DetachStep::ChangeDirectory { path: "/" },
        ]
    );
}

#[test]
fn pid_file_is_left_until_the_child_has_detached() {
    let (mut state, mut action) = daemonize(DaemonState::Forking, DaemonEvent::Forked { pid: 0 });
    for step in detach_steps() {
        assert_eq!(action, DaemonAction::Detach { step });
        (state, action) = daemonize(state, DaemonEvent::Detached);
    }
    assert_eq!((state, action), (DaemonState::Checking, DaemonAction::CheckRunning));
}

#[test]
fn parent_ends_well() {
    assert_eq!(
        daemonize(DaemonState::Forking, DaemonEvent::Forked { pid: 4711 }),
        (DaemonState::Exited, DaemonAction::Exit { code: 0 })
    );
}

#[test]
fn failure_on_the_way_into_the_background_ends_badly() {
    let exited = (DaemonState::Exited, DaemonAction::Exit { code: 1 });
    assert_eq!(daemonize(DaemonState::Forking, DaemonEvent::Forked { pid: -1 }), exited);
    assert_eq!(
        daemonize(DaemonState::Checking, DaemonEvent::Checked { running: Some(5), own: 6 }),
        exited
    );
    assert_eq!(
        daemonize(DaemonState::Recording, DaemonEvent::Recorded { written: false }),
        exited
    );
}

#[test]
fn recorded_program_runs_alone_and_cleans_up() {
    let line = mdns_reflector::pidfile::pidfile_contents(4711);
    let running = mdns_reflector::pidfile::find_running(&line, 0);
    assert_eq!(running, Some(4711));
    assert_eq!(
        daemonize(DaemonState::Checking, DaemonEvent::Checked { running, own: 4712 }),
        (DaemonState::Exited, DaemonAction::Exit { code: 1 })
    );
    assert_eq!(
        start_tasks(TaskState::CheckingOwner, TaskEvent::OwnerChecked { running, own: 4711 }),
        (TaskState::RemovingPidFile, TaskAction::RemovePidFile)
    );
    assert_eq!(
        start_tasks(TaskState::CheckingOwner, TaskEvent::OwnerChecked { running, own: 4712 }),
        (TaskState::Ended, TaskAction::Return { ok: true })
    );
}
