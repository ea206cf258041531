use r_lsp::main_loop::{
    auxiliary_action, dispatch, event_failure_message, handle_outcome, log_route, request_outcome,
    AuxiliaryAction, AuxiliaryEvent, EventKind, FallbackLevel, KernelNotificationKind, LogRoute,
    LspNotificationKind, LspRequestKind, LspTaskKind, TaskOutcome, WorldAccess,
};

#[test]
fn document_changes_update_the_world() {
    for n in [
        LspNotificationKind::DidOpenTextDocument,
        LspNotificationKind::DidChangeTextDocument,
        LspNotificationKind::DidCloseTextDocument,
    ] {
        let d = dispatch(EventKind::Notification(n));
        assert!(d.handled && !d.responds && d.logged);
        assert_eq!(d.access, WorldAccess::Exclusive);
    }
    let d = dispatch(EventKind::Notification(LspNotificationKind::DidSaveTextDocument));
    assert!(!d.handled && d.logged);
}

#[test]
fn requests_are_answered() {
    let d = dispatch(EventKind::Request(LspRequestKind::Hover));
    assert!(d.handled && d.responds);
    assert_eq!(d.access, WorldAccess::Shared);
    let d = dispatch(EventKind::Request(LspRequestKind::Initialize));
    assert_eq!(d.access, WorldAccess::Exclusive);
    let d = dispatch(EventKind::Request(LspRequestKind::Shutdown));
    assert!(!d.handled && d.responds);
    let d = dispatch(EventKind::Request(LspRequestKind::WorkspaceSymbol));
    assert!(d.handled && d.responds);
    assert_eq!(d.access, WorldAccess::Untouched);
}

#[test]
fn tasks_and_kernel_events() {
    let d = dispatch(EventKind::Task(LspTaskKind::RefreshDiagnostics));
    assert!(d.blocking && !d.responds && !d.logged);
    assert_eq!(d.access, WorldAccess::Snapshot);
    let d = dispatch(EventKind::Task(LspTaskKind::PublishDiagnostics));
    assert!(!d.blocking);
    assert_eq!(d.access, WorldAccess::Untouched);
    let d = dispatch(EventKind::Kernel(KernelNotificationKind::DidChangeConsoleInputs));
    assert_eq!(d.access, WorldAccess::Exclusive);
    assert!(!d.responds);
}

#[test]
fn failed_requests_are_reported() {
    assert_eq!(request_outcome(None), Ok(()));
    assert_eq!(
        request_outcome(Some("boom")),
        Err("Error while handling request: boom".to_string())
    );
    assert_eq!(event_failure_message("bad"), "Failure while handling event: bad");
}

#[test]
fn auxiliary_loop_actions() {
    match auxiliary_action::<u8, i32>(AuxiliaryEvent::JoinedTask(TaskOutcome::Panicked("p".to_string()))) {
        AuxiliaryAction::LogError(m) => assert_eq!(m, "A task panicked: p"),
        _ => panic!("expected an error message"),
    }
    match auxiliary_action::<u8, i32>(AuxiliaryEvent::JoinedTask(TaskOutcome::Failed("f".to_string()))) {
        AuxiliaryAction::LogError(m) => assert_eq!(m, "A task failed: f"),
        _ => panic!("expected an error message"),
    }
    assert!(matches!(
        auxiliary_action::<u8, i32>(AuxiliaryEvent::JoinedTask(TaskOutcome::Succeeded)),
        AuxiliaryAction::Nothing
    ));
    assert!(matches!(
        auxiliary_action::<u8, i32>(AuxiliaryEvent::SpawnedTask(7u8)),
        AuxiliaryAction::TrackTask(7)
    ));
    match auxiliary_action::<u8, i32>(AuxiliaryEvent::Log(3, "hi".to_string())) {
        AuxiliaryAction::Log(l, m) => {
            assert_eq!(l, 3);
            assert_eq!(m, "hi");
        }
        _ => panic!("expected a log message"),
    }
}

#[test]
fn log_messages_fall_back_to_the_kernel() {
    assert_eq!(log_route(1, true), LogRoute::Client);
    assert_eq!(log_route(1, false), LogRoute::Kernel(FallbackLevel::Error));
    assert_eq!(log_route(2, false), LogRoute::Kernel(FallbackLevel::Warn));
    assert_eq!(log_route(3, false), LogRoute::Kernel(FallbackLevel::Info));
    assert_eq!(log_route(4, false), LogRoute::Kernel(FallbackLevel::Info));
}

#[test]
fn handler_errors_reach_the_main_loop() {
    let open = EventKind::Notification(LspNotificationKind::DidOpenTextDocument);
    assert_eq!(handle_outcome(open, None), Ok(()));
    assert_eq!(handle_outcome(open, Some("no such file")), Err("no such file".to_string()));
    let saved = EventKind::Notification(LspNotificationKind::DidSaveTextDocument);
    assert_eq!(handle_outcome(saved, Some("ignored")), Ok(()));
    let hover = EventKind::Request(LspRequestKind::Hover);
    assert_eq!(
        handle_outcome(hover, Some("boom")),
        Err("Error while handling request: boom".to_string())
    );
    assert_eq!(handle_outcome(hover, None), Ok(()));
    let shutdown = EventKind::Request(LspRequestKind::Shutdown);
    assert_eq!(handle_outcome(shutdown, Some("x")), Ok(()));
}

#[test]
fn task_and_kernel_errors_reach_the_main_loop() {
    let refresh = EventKind::Task(LspTaskKind::RefreshDiagnostics);
    assert_eq!(handle_outcome(refresh, Some("slow")), Ok(()));
    let refresh_all = EventKind::Task(LspTaskKind::RefreshAllDiagnostics);
    assert_eq!(handle_outcome(refresh_all, Some("stale")), Err("stale".to_string()));
    let publish = EventKind::Task(LspTaskKind::PublishDiagnostics);
    assert_eq!(handle_outcome(publish, Some("closed")), Err("closed".to_string()));
    let inputs = EventKind::Kernel(KernelNotificationKind::DidChangeConsoleInputs);
    assert_eq!(handle_outcome(inputs, Some("bad scope")), Err("bad scope".to_string()));
    assert_eq!(handle_outcome(inputs, None), Ok(()));
}
