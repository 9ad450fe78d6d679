//! The life of a hook's message-pump thread: what its start reports, what its
//! pump does with a message, and how its shutdown is awaited.
use vstd::prelude::*;

verus! {

/// How often a shutdown looks whether the thread has ended.
pub const SHUTDOWN_POLLS: u32 = 30;

/// Pause between two looks, in milliseconds.
pub const SHUTDOWN_POLL_MS: u64 = 10;

/// Why a hook could not be installed.
#[derive(Clone, Copy, Debug, PartialEq, Eq, Structural)]
pub enum HookInstallError {
    /// A lock around the hook's shared state was poisoned.
    LockPoisoned,
    /// A hook of this kind is installed already.
    AlreadyInitialized,
    /// The pump thread could not be started.
    SpawnFailed,
    /// The system refused the hook.
    InstallFailed,
    /// The pump thread ended without reporting.
    InitLost,
}

/// What came back from a pump thread that was started.
#[derive(Clone, Copy, Debug, PartialEq, Eq, Structural)]
pub enum InitReport {
    /// The hook is in place on the thread with this id.
    Ready(u32),
    /// The system refused the hook.
    Failed,
    /// The thread went away without a report.
    Lost,
}

/// What the installer makes of an init report.
#[derive(Clone, Copy, Debug)]
pub struct InitOutcome {
    /// The pump thread's id, or why there is none.
    pub result: Result<u32, HookInstallError>,
    /// The thread is to be joined.
    pub join: bool,
}

/// What an awaited shutdown does next.
#[derive(Clone, Copy, Debug, PartialEq, Eq, Structural)]
pub enum ShutdownStep {
    /// Sleep and look again.
    Wait,
    /// Join the thread, which has ended.
    Join,
    /// Give up waiting; the thread keeps its state until it unhooks.
    Retain,
}

/// What a message pump does with what it received.
#[derive(Clone, Copy, Debug, PartialEq, Eq, Structural)]
pub enum PumpStep {
    /// Leave the loop.
    Stop,
    /// Run the timer's work and go on.
    Tick,
    /// Hand the message on.
    Dispatch,
}

/// The result of an installation, from the thread's report.
pub open spec fn init_result(report: InitReport) -> Result<u32, HookInstallError> {
    match report {
        InitReport::Ready(id) => Ok(id),
        InitReport::Failed => Err(HookInstallError::InstallFailed),
        InitReport::Lost => Err(HookInstallError::InitLost),
    }
}

/// Decides on the report of a low-level mouse hook's thread: a thread that
/// reported a failure is joined, one that went away only if it has ended.
pub fn init_outcome(report: InitReport, finished: bool) -> (o: InitOutcome)
    ensures
        o.result == init_result(report),
        o.join == match report {
            InitReport::Ready(_) => false,
            InitReport::Failed => true,
            InitReport::Lost => finished,
        },
{
    match report {
        InitReport::Ready(id) => InitOutcome { result: Ok(id), join: false },
        InitReport::Failed => InitOutcome {
            result: Err(HookInstallError::InstallFailed),
            join: true,
        },
        InitReport::Lost => InitOutcome { result: Err(HookInstallError::InitLost), join: finished },
    }
}

/// One look at a thread that was asked to quit. Only a thread that was
/// reached is waited for, and only for a bounded number of looks.
pub fn shutdown_step(posted: bool, finished: bool, polls: u32) -> (s: ShutdownStep)
    ensures
        finished ==> s == ShutdownStep::Join,
        !finished && posted && polls < SHUTDOWN_POLLS ==> s == ShutdownStep::Wait,
        !finished && !(posted && polls < SHUTDOWN_POLLS) ==> s == ShutdownStep::Retain,
{
    if finished {
        ShutdownStep::Join
    } else if posted && polls < SHUTDOWN_POLLS {
        ShutdownStep::Wait
    } else {
        ShutdownStep::Retain
    }
}

/// One turn of a message pump: `received` is what fetching the message
/// returned, `quit` the message that ends the pump, `timer` the timer message
/// where the pump has one.
pub fn pump_step(received: i32, message: u32, quit: u32, timer: Option<u32>) -> (s: PumpStep)
    ensures
        s == PumpStep::Stop <==> received <= 0 || message == quit,
        s == PumpStep::Tick <==> received > 0 && message != quit && timer == Some(message),
{
    if received <= 0 || message == quit {
        return PumpStep::Stop;
    }
    match timer {
        Some(id) if id == message => PumpStep::Tick,
        _ => PumpStep::Dispatch,
    }
}

/// An installation succeeds just where the thread reported that it is ready, with the id
/// that it reported; a refused hook and a thread without a report are told apart.
pub proof fn law_ready_threads_are_installed(report: InitReport)
    ensures
        match init_result(report) {
            Ok(id) => report == InitReport::Ready(id),
            Err(HookInstallError::InstallFailed) => report == InitReport::Failed,
            Err(HookInstallError::InitLost) => report == InitReport::Lost,
            Err(_) => false,
        },
{
}

/// A thread that has ended is joined; one that was reached and has not is waited for at
/// thirty looks, and any other is left alone.
pub proof fn law_threads_are_waited_for_at_thirty_looks(
    posted: bool,
    finished: bool,
    polls: u32,
    step: ShutdownStep,
)
    requires
        call_ensures(shutdown_step, (posted, finished, polls), step),
    ensures
        step == ShutdownStep::Join <==> finished,
        step == ShutdownStep::Wait <==> !finished && posted && polls <= 29,
        step == ShutdownStep::Retain <==> !finished && (!posted || polls >= 30),
{
}

/// A pump stops where nothing more comes, at an error, and at the message that ends it; it
/// hands on every other message but its own timer's.
pub proof fn law_pumps_stop_only_when_told(
    received: i32,
    message: u32,
    quit: u32,
    timer: Option<u32>,
    step: PumpStep,
)
    requires
        call_ensures(pump_step, (received, message, quit, timer), step),
    ensures
        step == PumpStep::Dispatch <==> received >= 1 && message != quit && timer != Some(message),
        step == PumpStep::Stop <==> received < 1 || message == quit,
{
}

} // verus!
