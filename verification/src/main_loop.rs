use vstd::prelude::*;
use vstd::string::*;

verus! {

// ---------------------------------------------------------------------------
// Events of the main loop
// ---------------------------------------------------------------------------

/// Notifications that the LSP client sends.
#[derive(PartialEq, Eq, Structural, Clone, Copy, Debug)]
pub enum LspNotificationKind {
    Initialized,
    DidChangeWorkspaceFolders,
    DidChangeConfiguration,
    DidChangeWatchedFiles,
    DidOpenTextDocument,
    DidChangeTextDocument,
    DidSaveTextDocument,
    DidCloseTextDocument,
}

/// Requests that the LSP client sends; each one waits for a response.
#[derive(PartialEq, Eq, Structural, Clone, Copy, Debug)]
pub enum LspRequestKind {
    Initialize,
    Shutdown,
    WorkspaceSymbol,
    DocumentSymbol,
    ExecuteCommand,
    Completion,
    CompletionResolve,
    Hover,
    SignatureHelp,
    GotoDefinition,
    GotoImplementation,
    SelectionRange,
    References,
    StatementRange,
    HelpTopic,
}

/// Tasks that the server sends itself.
#[derive(PartialEq, Eq, Structural, Clone, Copy, Debug)]
pub enum LspTaskKind {
    RefreshDiagnostics,
    RefreshAllDiagnostics,
    PublishDiagnostics,
}

/// Notifications from the kernel.
#[derive(PartialEq, Eq, Structural, Clone, Copy, Debug)]
pub enum KernelNotificationKind {
    DidChangeConsoleInputs,
}

/// What an event of the main loop is, without its payload.
#[derive(PartialEq, Eq, Structural, Clone, Copy, Debug)]
pub enum EventKind {
    Notification(LspNotificationKind),
    Request(LspRequestKind),
    Task(LspTaskKind),
    Kernel(KernelNotificationKind),
}

/// How a handler reaches the world state.
#[derive(PartialEq, Eq, Structural, Clone, Copy, Debug)]
pub enum WorldAccess {
    /// The handler does not read the world state.
    Untouched,
    /// The handler reads the world state through a shared reference.
    Shared,
    /// The handler may change the world state.
    Exclusive,
    /// The handler gets its own copy of the world state.
    Snapshot,
}

/// How the main loop handles one event.
#[derive(PartialEq, Eq, Structural, Clone, Copy, Debug)]
pub struct Dispatch {
    /// Whether a handler runs at all.
    pub handled: bool,
    /// How the handler reaches the world state.
    pub access: WorldAccess,
    /// Whether a response goes back to the client.
    pub responds: bool,
    /// Whether the handler runs on a blocking thread rather than in the loop.
    pub blocking: bool,
    /// Whether the event is written to the log before it is handled.
    pub logged: bool,
}

pub open spec fn dispatch_of(access: WorldAccess, handled: bool, responds: bool, blocking: bool, logged: bool) -> Dispatch {
    Dispatch { handled, access, responds, blocking, logged }
}

/// The handling of each event: the three notifications that change documents
/// and the kernel's console inputs update the world state; `Initialize`
/// updates it and answers; the other requests answer from a shared view of
/// the state, or without it (`Shutdown` and `GotoImplementation` are answered
/// at once, with no handler); refreshing a document's diagnostics runs on a
/// blocking thread with a snapshot, refreshing all of them takes a snapshot,
/// and publishing them talks to the client only. Notifications and requests
/// are logged.
pub open spec fn spec_dispatch(event: EventKind) -> Dispatch {
    match event {
        EventKind::Notification(n) => match n {
            LspNotificationKind::DidOpenTextDocument | LspNotificationKind::DidChangeTextDocument
            | LspNotificationKind::DidCloseTextDocument => dispatch_of(
                WorldAccess::Exclusive,
                true,
                false,
                false,
                true,
            ),
            _ => dispatch_of(WorldAccess::Untouched, false, false, false, true),
        },
        EventKind::Request(r) => match r {
            LspRequestKind::Initialize => dispatch_of(WorldAccess::Exclusive, true, true, false, true),
            LspRequestKind::Shutdown | LspRequestKind::GotoImplementation => dispatch_of(
                WorldAccess::Untouched,
                false,
                true,
                false,
                true,
            ),
            LspRequestKind::WorkspaceSymbol | LspRequestKind::ExecuteCommand
            | LspRequestKind::CompletionResolve => dispatch_of(
                WorldAccess::Untouched,
                true,
                true,
                false,
                true,
            ),
            _ => dispatch_of(WorldAccess::Shared, true, true, false, true),
        },
        EventKind::Task(t) => match t {
            LspTaskKind::RefreshDiagnostics => dispatch_of(
                WorldAccess::Snapshot,
                true,
                false,
                true,
                false,
            ),
            LspTaskKind::RefreshAllDiagnostics => dispatch_of(
                WorldAccess::Snapshot,
                true,
                false,
                false,
                false,
            ),
            LspTaskKind::PublishDiagnostics => dispatch_of(
                WorldAccess::Untouched,
                true,
                false,
                false,
                false,
            ),
        },
        EventKind::Kernel(_) => dispatch_of(WorldAccess::Exclusive, true, false, false, false),
    }
}

/// How the main loop handles `event` (see `spec_dispatch`).
pub fn dispatch(event: EventKind) -> (d: Dispatch)
    ensures
        d == spec_dispatch(event),
{
    match event {
        EventKind::Notification(n) => match n {
            LspNotificationKind::DidOpenTextDocument | LspNotificationKind::DidChangeTextDocument
            | LspNotificationKind::DidCloseTextDocument => Dispatch {
                handled: true,
                access: WorldAccess::Exclusive,
                responds: false,
                blocking: false,
                logged: true,
            },
            _ => Dispatch {
                handled: false,
                access: WorldAccess::Untouched,
                responds: false,
                blocking: false,
                logged: true,
            },
        },
        EventKind::Request(r) => match r {
            LspRequestKind::Initialize => Dispatch {
                handled: true,
                access: WorldAccess::Exclusive,
                responds: true,
                blocking: false,
                logged: true,
            },
            LspRequestKind::Shutdown | LspRequestKind::GotoImplementation => Dispatch {
                handled: false,
                access: WorldAccess::Untouched,
                responds: true,
                blocking: false,
                logged: true,
            },
            LspRequestKind::WorkspaceSymbol | LspRequestKind::ExecuteCommand
            | LspRequestKind::CompletionResolve => Dispatch {
                handled: true,
                access: WorldAccess::Untouched,
                responds: true,
                blocking: false,
                logged: true,
            },
            _ => Dispatch {
                handled: true,
                access: WorldAccess::Shared,
                responds: true,
                blocking: false,
                logged: true,
            },
        },
        EventKind::Task(t) => match t {
            LspTaskKind::RefreshDiagnostics => Dispatch {
                handled: true,
                access: WorldAccess::Snapshot,
                responds: false,
                blocking: true,
                logged: false,
            },
            LspTaskKind::RefreshAllDiagnostics => Dispatch {
                handled: true,
                access: WorldAccess::Snapshot,
                responds: false,
                blocking: false,
                logged: false,
            },
            LspTaskKind::PublishDiagnostics => Dispatch {
                handled: true,
                access: WorldAccess::Untouched,
                responds: false,
                blocking: false,
                logged: false,
            },
        },
        EventKind::Kernel(_) => Dispatch {
            handled: true,
            access: WorldAccess::Exclusive,
            responds: false,
            blocking: false,
            logged: false,
        },
    }
}

/// Every request is answered, and nothing else is; only a handler that runs
/// may change the world state, and blocking handlers work on a snapshot.
pub proof fn lemma_dispatch_discipline(event: EventKind)
    ensures
        spec_dispatch(event).responds <==> event is Request,
        spec_dispatch(event).access == WorldAccess::Exclusive ==> spec_dispatch(event).handled,
        spec_dispatch(event).blocking ==> spec_dispatch(event).access == WorldAccess::Snapshot,
        spec_dispatch(event).logged <==> (event is Request || event is Notification),
{
}

/// Which events run a handler, and how it reaches the world state: every
/// request but `Shutdown` and `GotoImplementation` runs one; `Initialize`
/// changes the state, the requests that read documents get a shared view of
/// it, and `WorkspaceSymbol`, `ExecuteCommand` and `CompletionResolve` do not
/// read it; of the notifications only opening, changing and closing a
/// document run a handler, which changes the state; every task and kernel
/// notification runs one.
pub proof fn lemma_which_events_run_handlers(event: EventKind)
    ensures
        event matches EventKind::Request(r) ==> {
            &&& spec_dispatch(event).handled <==> !(r is Shutdown || r is GotoImplementation)
            &&& r is Initialize ==> spec_dispatch(event).access == WorldAccess::Exclusive
            &&& (r is DocumentSymbol || r is Completion || r is Hover || r is SignatureHelp
                || r is GotoDefinition || r is SelectionRange || r is References
                || r is StatementRange || r is HelpTopic) ==> spec_dispatch(event).access
                == WorldAccess::Shared
            &&& (r is WorkspaceSymbol || r is ExecuteCommand || r is CompletionResolve)
                ==> spec_dispatch(event).access == WorldAccess::Untouched
            &&& !spec_dispatch(event).blocking
        },
        event matches EventKind::Notification(n) ==> {
            &&& spec_dispatch(event).handled <==> (n is DidOpenTextDocument
                || n is DidChangeTextDocument || n is DidCloseTextDocument)
            &&& spec_dispatch(event).handled ==> spec_dispatch(event).access
                == WorldAccess::Exclusive
            &&& !spec_dispatch(event).blocking
        },
        event is Task || event is Kernel ==> spec_dispatch(event).handled,
        event matches EventKind::Task(k) ==> (spec_dispatch(event).blocking <==> k is RefreshDiagnostics),
        event is Kernel ==> spec_dispatch(event).access == WorldAccess::Exclusive,
{
}

// ---------------------------------------------------------------------------
// Answering requests
// ---------------------------------------------------------------------------

/// What the main loop reports after answering a request whose handler
/// succeeded (`error_detail` is `None`) or failed with the given description:
/// success, or an error that names the handler's error. The response itself
/// goes to the client either way.
pub fn request_outcome(error_detail: Option<&str>) -> (r: Result<(), String>)
    ensures
        match error_detail {
            None => r == Ok::<(), String>(()),
            Some(detail) => r matches Err(msg) && msg@ == "Error while handling request: "@
                + detail@,
        },
{
    match error_detail {
        None => Ok(()),
        Some(detail) => {
            let msg = String::from_str("Error while handling request: ").concat(detail);
            Err(msg)
        },
    }
}

/// The message logged when handling an event failed.
pub fn event_failure_message(error_detail: &str) -> (msg: String)
    ensures
        msg@ == "Failure while handling event: "@ + error_detail@,
{
    String::from_str("Failure while handling event: ").concat(error_detail)
}

/// What handling `event` returns to the main loop, given how its handler
/// ended (`handler_error` is the description of its error, `None` when it
/// succeeded): an event with no handler, or whose handler runs on a blocking
/// thread (where the auxiliary loop reports its failure), returns `Ok`; a
/// request returns what `request_outcome` says; any other event passes its
/// handler's error on unchanged.
pub open spec fn spec_event_outcome(event: EventKind, handler_error: Option<Seq<char>>) -> Result<
    (),
    Seq<char>,
> {
    let d = spec_dispatch(event);
    if !d.handled || d.blocking {
        Ok(())
    } else {
        match handler_error {
            None => Ok(()),
            Some(detail) => if event is Request {
                Err("Error while handling request: "@ + detail)
            } else {
                Err(detail)
            },
        }
    }
}

pub open spec fn outcome_view(r: Result<(), String>) -> Result<(), Seq<char>> {
    match r {
        Ok(()) => Ok(()),
        Err(msg) => Err(msg@),
    }
}

pub open spec fn detail_view(detail: Option<&str>) -> Option<Seq<char>> {
    match detail {
        Some(d) => Some(d@),
        None => None,
    }
}

/// What handling `event` returns to the main loop once its handler ended with
/// `handler_error` (see `spec_event_outcome`); the main loop logs an error with
/// `event_failure_message`.
pub fn handle_outcome(event: EventKind, handler_error: Option<&str>) -> (r: Result<(), String>)
    ensures
        outcome_view(r) == spec_event_outcome(event, detail_view(handler_error)),
{
    let d = dispatch(event);
    if !d.handled || d.blocking {
        return Ok(());
    }
    match event {
        EventKind::Request(_) => request_outcome(handler_error),
        _ => match handler_error {
            None => Ok(()),
            Some(detail) => Err(detail.to_string()),
        },
    }
}

/// The main loop reports a failure exactly when a handler ran in the loop
/// itself and failed; a request's failure names the handler's error after a
/// fixed preamble, and every other failure is the handler's error itself.
pub proof fn lemma_handler_failures_reach_the_loop(event: EventKind, handler_error: Option<Seq<char>>)
    ensures
        spec_event_outcome(event, handler_error) is Err <==> {
            &&& spec_dispatch(event).handled
            &&& !spec_dispatch(event).blocking
            &&& handler_error is Some
        },
        spec_event_outcome(event, handler_error) matches Err(msg) ==> msg == if event is Request {
            "Error while handling request: "@ + handler_error->0
        } else {
            handler_error->0
        },
{
}

// ---------------------------------------------------------------------------
// The auxiliary loop
// ---------------------------------------------------------------------------

/// How a spawned task ended.
pub enum TaskOutcome {
    /// The task panicked; the description of the panic.
    Panicked(String),
    /// The task returned an error; the description of the error.
    Failed(String),
    /// The task succeeded.
    Succeeded,
}

/// An event of the auxiliary loop, with `H` the handle of a spawned task and
/// `L` the protocol's message type.
pub enum AuxiliaryEvent<H, L> {
    /// A log message of the given message type.
    Log(L, String),
    /// A task was spawned.
    SpawnedTask(H),
    /// A task ended.
    JoinedTask(TaskOutcome),
}

/// What the auxiliary loop does for one event.
pub enum AuxiliaryAction<H, L> {
    /// Send a log message of the given type to the client.
    Log(L, String),
    /// Send an error message to the client.
    LogError(String),
    /// Keep the task handle, to learn how the task ends.
    TrackTask(H),
    /// Nothing.
    Nothing,
}

/// The protocol's message type for errors.
pub const MESSAGE_TYPE_ERROR: i32 = 1;

/// The protocol's message type for warnings.
pub const MESSAGE_TYPE_WARNING: i32 = 2;

/// What the auxiliary loop does for `event`: log messages go to the client as
/// they are, spawned tasks are kept, and a task that panicked or failed is
/// reported as an error; a task that succeeded needs nothing.
pub fn auxiliary_action<H, L>(event: AuxiliaryEvent<H, L>) -> (a: AuxiliaryAction<H, L>)
    ensures
        match event {
            AuxiliaryEvent::Log(level, message) => a matches AuxiliaryAction::Log(l, m) && l
                == level && m@ == message@,
            AuxiliaryEvent::SpawnedTask(h) => a matches AuxiliaryAction::TrackTask(k) && k == h,
            AuxiliaryEvent::JoinedTask(TaskOutcome::Panicked(detail)) => a matches AuxiliaryAction::LogError(
                m,
            ) && m@ == "A task panicked: "@ + detail@,
            AuxiliaryEvent::JoinedTask(TaskOutcome::Failed(detail)) => a matches AuxiliaryAction::LogError(
                m,
            ) && m@ == "A task failed: "@ + detail@,
            AuxiliaryEvent::JoinedTask(TaskOutcome::Succeeded) => a is Nothing,
        },
{
    match event {
        AuxiliaryEvent::Log(level, message) => AuxiliaryAction::Log(level, message),
        AuxiliaryEvent::SpawnedTask(handle) => AuxiliaryAction::TrackTask(handle),
        AuxiliaryEvent::JoinedTask(outcome) => match outcome {
            TaskOutcome::Panicked(detail) => AuxiliaryAction::LogError(
                String::from_str("A task panicked: ").concat(detail.as_str()),
            ),
            TaskOutcome::Failed(detail) => AuxiliaryAction::LogError(
                String::from_str("A task failed: ").concat(detail.as_str()),
            ),
            TaskOutcome::Succeeded => AuxiliaryAction::Nothing,
        },
    }
}

// ---------------------------------------------------------------------------
// Logging from anywhere
// ---------------------------------------------------------------------------

/// Where a log message goes when the auxiliary loop cannot take it.
#[derive(PartialEq, Eq, Structural, Clone, Copy, Debug)]
pub enum FallbackLevel {
    Error,
    Warn,
    Info,
}

/// Where a log message goes: to the client when the auxiliary loop's channel
/// took it, else to the kernel's log at the level that matches its message
/// type (errors as errors, warnings as warnings, all else as information).
#[derive(PartialEq, Eq, Structural, Clone, Copy, Debug)]
pub enum LogRoute {
    Client,
    Kernel(FallbackLevel),
}

pub open spec fn spec_log_route(message_type: i32, delivered: bool) -> LogRoute {
    if delivered {
        LogRoute::Client
    } else if message_type == MESSAGE_TYPE_ERROR {
        LogRoute::Kernel(FallbackLevel::Error)
    } else if message_type == MESSAGE_TYPE_WARNING {
        LogRoute::Kernel(FallbackLevel::Warn)
    } else {
        LogRoute::Kernel(FallbackLevel::Info)
    }
}

/// Where a log message of `message_type` goes, once it is known whether the
/// auxiliary loop's channel took it.
pub fn log_route(message_type: i32, delivered: bool) -> (r: LogRoute)
    ensures
        r == spec_log_route(message_type, delivered),
{
    if delivered {
        LogRoute::Client
    } else if message_type == MESSAGE_TYPE_ERROR {
        LogRoute::Kernel(FallbackLevel::Error)
    } else if message_type == MESSAGE_TYPE_WARNING {
        LogRoute::Kernel(FallbackLevel::Warn)
    } else {
        LogRoute::Kernel(FallbackLevel::Info)
    }
}

} // verus!
