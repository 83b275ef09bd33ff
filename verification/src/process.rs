//! Inference backend process lifecycle.
//!
//! The manager owns the bookkeeping for at most one live backend process.
//! The system calls that spawn and kill the child process cannot be verified,
//! so they sit behind the contract-free [`BackendDriver`] trait, implemented
//! outside this crate; the driver only reports whether each action succeeded.
//! The manager decides when each action is allowed: a new process may be
//! started only once no old one is recorded as live, and `restart` performs a
//! full stop that must succeed before the start is attempted.

use vstd::prelude::*;

verus! {

/// Failures of backend process management.
#[derive(Clone, Copy, Debug, PartialEq, Eq, Structural)]
pub enum ProcessError {
    /// The backend executable could not be launched.
    SpawnError,
    /// Termination of the old backend process could not be confirmed.
    ShutdownError,
}

/// What the manager records of the live backend process.
#[derive(Debug)]
pub struct ProcInfo {
    pub path: String,
    pub args: Vec<String>,
}

/// Mathematical model of a [`ProcInfo`].
#[verifier::ext_equal]
pub struct ProcInfoView {
    pub path: Seq<char>,
    pub args: Seq<Seq<char>>,
}

impl View for ProcInfo {
    type V = ProcInfoView;

    open spec fn view(&self) -> ProcInfoView {
        ProcInfoView { path: self.path@, args: self.args@.map_values(|s: String| s@) }
    }
}

/// Performs the unverifiable process actions: killing the current backend
/// child and spawning a new one.  Implementations report success or failure;
/// nothing is assumed of them.
pub trait BackendDriver {
    /// Kills the live backend process and waits for it to exit.
    /// Returns whether termination was confirmed.
    fn kill_current(&mut self) -> bool;

    /// Spawns the backend executable for the given model.
    /// Returns whether the launch succeeded.
    fn spawn(&mut self, path: &String, args: &Vec<String>) -> bool;
}

/// Owns at most one live backend process at a time.
pub struct ProcessManager {
    proc: Option<ProcInfo>,
}

impl View for ProcessManager {
    type V = Option<ProcInfoView>;

    closed spec fn view(&self) -> Option<ProcInfoView> {
        match self.proc {
            Some(p) => Some(p@),
            None => None,
        }
    }
}

impl ProcessManager {
    /// How many backend processes the manager holds live: never more than one.
    pub open spec fn live_processes(self) -> nat {
        if self@ is Some {
            1
        } else {
            0
        }
    }

    /// A fresh manager with no backend process.
    pub fn new() -> (r: ProcessManager)
        ensures
            r@ is None,
    {
        ProcessManager { proc: None }
    }

    /// Whether a backend process is currently recorded as live.
    pub fn is_running(&self) -> (r: bool)
        ensures
            r == (self@ is Some),
    {
        self.proc.is_some()
    }

    /// Stops the backend process: a no-op when none is live, otherwise the
    /// driver kills it and must confirm termination.  On failure the process
    /// stays recorded as live, so no new process can be started over it.
    pub fn stop<D: BackendDriver>(&mut self, driver: &mut D) -> (r: Result<(), ProcessError>)
        ensures
            old(self)@ is None ==> r is Ok,
            r is Ok ==> final(self)@ is None,
            r is Err ==> r == Err::<(), ProcessError>(ProcessError::ShutdownError) && final(self)@
                == old(self)@ && old(self)@ is Some,
    {
        if self.proc.is_some() {
            if driver.kill_current() {
                self.proc = None;
                Ok(())
            } else {
                Err(ProcessError::ShutdownError)
            }
        } else {
            Ok(())
        }
    }

    /// Starts the backend for the given model.  Requires that no old process
    /// is live: a start is only legal after a confirmed stop.
    pub fn start<D: BackendDriver>(
        &mut self,
        driver: &mut D,
        path: String,
        args: Vec<String>,
    ) -> (r: Result<(), ProcessError>)
        requires
            old(self)@ is None,
        ensures
            r is Ok ==> final(self)@ == Some(
                ProcInfoView { path: path@, args: args@.map_values(|s: String| s@) },
            ),
            r is Err ==> r == Err::<(), ProcessError>(ProcessError::SpawnError) && final(self)@
                is None,
    {
        if driver.spawn(&path, &args) {
            self.proc = Some(ProcInfo { path, args });
            Ok(())
        } else {
            Err(ProcessError::SpawnError)
        }
    }

    /// Switches the backend to the given model: stop, then start.  The start
    /// is attempted only after the stop fully succeeded, so two backend
    /// processes are never live together.  When the stop fails, the old
    /// process stays recorded and nothing is spawned.
    pub fn restart<D: BackendDriver>(
        &mut self,
        driver: &mut D,
        path: String,
        args: Vec<String>,
    ) -> (r: Result<(), ProcessError>)
        ensures
            r is Ok ==> final(self)@ == Some(
                ProcInfoView { path: path@, args: args@.map_values(|s: String| s@) },
            ),
            r == Err::<(), ProcessError>(ProcessError::ShutdownError) ==> final(self)@ == old(
                self,
            )@ && old(self)@ is Some,
            r == Err::<(), ProcessError>(ProcessError::SpawnError) ==> final(self)@ is None,
    {
        match self.stop(driver) {
            Err(e) => Err(e),
            Ok(()) => self.start(driver, path, args),
        }
    }
}

/// The manager never holds two live backend handles.
pub proof fn lemma_at_most_one_process(pm: ProcessManager)
    ensures
        pm.live_processes() <= 1,
{
}

} // verus!
