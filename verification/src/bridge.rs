use vstd::prelude::*;
use crate::shell::{Platform, ShellChoice, chosen_program, locate};

verus! {

/// Lifecycle of the registry's single session slot.
#[derive(Clone, Copy, PartialEq, Eq, Structural, Debug)]
pub enum Phase {
    /// No session: the slot is empty.
    Absent,
    /// A start request was granted and the spawn is underway.
    Starting,
    /// A subprocess is live and owns the slot.
    Running,
}

/// Errors surfaced by the bridge operations.
#[derive(Debug)]
pub enum BridgeError {
    /// The located program could not be executed; the slot stays empty.
    SpawnFailed { program: String, os_error: String },
    /// A write was attempted with no running session.
    NoActiveSession,
    /// The pipe write or flush failed, typically because the subprocess
    /// already exited.
    WriteFailed { os_error: String },
}

/// Status reported by a successful start request.
#[derive(Debug)]
pub enum StatusMessage {
    /// A session was already running; nothing was spawned.
    AlreadyRunning,
    /// A new subprocess was spawned for `program`.
    Spawned { program: String },
}

/// What the runner must do after a start request was examined.
#[derive(Debug)]
pub enum StartStep {
    /// Report `StatusMessage::AlreadyRunning`; no side effect is permitted.
    AlreadyRunning,
    /// Spawn `choice` with piped input and output channels, then report the
    /// outcome through `spawn_outcome`.
    Launch { choice: ShellChoice },
}

/// Directive to forward `bytes` verbatim to the session's input handle and
/// flush, so that no input stays buffered client-side.
#[derive(Debug)]
pub struct WriteDirective {
    pub bytes: Vec<u8>,
}

/// Notification that a session ended, pushed once per session lifetime.
#[derive(Debug)]
pub struct EndNotice {
    /// The subprocess's exit status, when the watcher could obtain one.
    pub exit_status: Option<i32>,
}

/// Does a start request in `phase` direct a spawn?
pub open spec fn start_spawns(phase: Phase) -> bool {
    phase == Phase::Absent
}

/// The slot's phase after a start request made in `phase`.
pub open spec fn phase_after_start(phase: Phase) -> Phase {
    if phase == Phase::Absent {
        Phase::Starting
    } else {
        phase
    }
}

/// The slot's phase after the exit watcher observed the subprocess's death.
pub open spec fn phase_after_exit(phase: Phase) -> Phase {
    Phase::Absent
}

/// The guarded single-slot session registry: the only shared mutable state
/// of the bridge. At most one session runs process-wide; callers guard a
/// value of this type by mutual exclusion and never hold it across blocking
/// I/O.
pub struct SessionRegistry {
    phase: Phase,
}

impl SessionRegistry {
    /// Current lifecycle phase of the slot.
    pub closed spec fn phase(self) -> Phase {
        self.phase
    }

    /// A fresh registry holds no session.
    pub fn new() -> (r: SessionRegistry)
        ensures
            r.phase() == Phase::Absent,
    {
        SessionRegistry { phase: Phase::Absent }
    }

    /// The slot's current phase, for callers that must test it before they
    /// act.
    pub fn current_phase(&self) -> (p: Phase)
        ensures
            p == self.phase(),
    {
        self.phase
    }

    /// True exactly when a session is running.
    pub fn is_running(&self) -> (b: bool)
        ensures
            b == (self.phase() == Phase::Running),
    {
        match self.phase {
            Phase::Running => true,
            _ => false,
        }
    }

    /// Examines a start request. While a session is `Running` the request is
    /// an idempotent no-op answered `AlreadyRunning`; from `Absent` the
    /// locator's choice is handed back as a launch directive and the slot
    /// moves to `Starting`. Nothing is ever spawned while a session runs.
    pub fn start_session(&mut self, platform: Platform, compat_present: bool) -> (step: StartStep)
        requires
            old(self).phase() != Phase::Starting,
        ensures
            final(self).phase() == phase_after_start(old(self).phase()),
            (step is Launch) == start_spawns(old(self).phase()),
            old(self).phase() == Phase::Running ==> step is AlreadyRunning,
            old(self).phase() == Phase::Absent ==> (step matches StartStep::Launch { choice }
                && choice.program@ == chosen_program(platform, compat_present)
                && choice.args@.len() == 0),
    {
        match self.phase {
            Phase::Running => StartStep::AlreadyRunning,
            _ => {
                self.phase = Phase::Starting;
                StartStep::Launch { choice: locate(platform, compat_present) }
            },
        }
    }

    /// Records the outcome of the spawn that `start_session` directed. On
    /// success the slot moves to `Running` and the caller is told what was
    /// spawned; on failure the slot returns to `Absent` and the error carries
    /// the attempted program and the underlying OS error.
    pub fn spawn_outcome(&mut self, program: String, outcome: Result<(), String>) -> (r: Result<
        StatusMessage,
        BridgeError,
    >)
        requires
            old(self).phase() == Phase::Starting,
        ensures
            outcome is Ok ==> final(self).phase() == Phase::Running,
            outcome is Ok ==> (r matches Ok(StatusMessage::Spawned { program: p })
                && p@ == program@),
            outcome is Err ==> final(self).phase() == Phase::Absent,
            outcome matches Err(e) ==> (r matches Err(BridgeError::SpawnFailed {
                program: p,
                os_error,
            }) && p@ == program@ && os_error@ == e@),
    {
        match outcome {
            Ok(()) => {
                self.phase = Phase::Running;
                Ok(StatusMessage::Spawned { program })
            },
            Err(e) => {
                self.phase = Phase::Absent;
                Err(BridgeError::SpawnFailed { program, os_error: e })
            },
        }
    }

    /// Examines a write request. With no running session the request is
    /// rejected outright with `NoActiveSession` — nothing is spawned and
    /// nothing blocks. With a running session the bytes are handed back
    /// verbatim for the runner to forward to the session's input handle.
    pub fn write_session(&self, data: Vec<u8>) -> (r: Result<WriteDirective, BridgeError>)
        ensures
            self.phase() == Phase::Running ==> (r matches Ok(d) && d.bytes@ == data@),
            self.phase() != Phase::Running ==> r matches Err(BridgeError::NoActiveSession),
    {
        match self.phase {
            Phase::Running => Ok(WriteDirective { bytes: data }),
            _ => Err(BridgeError::NoActiveSession),
        }
    }

    /// The exit watcher's transition: the subprocess died, the slot is
    /// cleared, and the subscriber is owed exactly one end notice carrying
    /// the exit status. Only after this does a new start spawn again.
    pub fn session_ended(&mut self, exit_status: Option<i32>) -> (n: EndNotice)
        requires
            old(self).phase() == Phase::Running,
        ensures
            final(self).phase() == phase_after_exit(old(self).phase()),
            n.exit_status == exit_status,
    {
        self.phase = Phase::Absent;
        EndNotice { exit_status }
    }
}

/// Maps the outcome of the pipe write and flush to the caller-visible
/// result: an OS error (for instance a broken pipe after the subprocess
/// exited) is surfaced as `WriteFailed`, never swallowed and never retried.
pub fn write_outcome(outcome: Result<(), String>) -> (r: Result<(), BridgeError>)
    ensures
        (outcome is Ok) == (r is Ok),
        outcome matches Err(e) ==> (r matches Err(BridgeError::WriteFailed { os_error })
            && os_error@ == e@),
{
    match outcome {
        Ok(()) => Ok(()),
        Err(e) => Err(BridgeError::WriteFailed { os_error: e }),
    }
}

/// While a session is `Running`, start requests spawn nothing and leave the
/// phase unchanged; hence over any sequence of start requests made in the
/// `Running` phase, none directs a spawn.
pub proof fn lemma_start_idempotent_while_running()
    ensures
        !start_spawns(Phase::Running),
        phase_after_start(Phase::Running) == Phase::Running,
{
}

/// A session's end never locks the bridge out: whatever phase the slot was
/// in, after the exit watcher clears it the next start request is granted a
/// spawn.
pub proof fn lemma_no_lockout(phase: Phase)
    ensures
        phase_after_exit(phase) == Phase::Absent,
        start_spawns(phase_after_exit(phase)),
{
}

} // verus!
