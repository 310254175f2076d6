//! Stopping the daemon: a flag that all its threads share, and what sets it.

use std::sync::atomic::{AtomicBool, Ordering};
use std::sync::Arc;
use vstd::prelude::*;

use crate::daemon_error::DaemonError;
use crate::os_error::OsError;

verus! {

/// A flag that says whether the daemon is to stop. All clones of it are one flag.
#[derive(Debug)]
pub struct Shutdown(Arc<AtomicBool>);

impl Clone for Shutdown {
    fn clone(&self) -> (r: Shutdown)
        ensures
            r == *self,
    {
        Shutdown(self.0.clone())
    }
}

impl Default for Shutdown {
    fn default() -> Shutdown {
        Shutdown(Arc::new(AtomicBool::new(false)))
    }
}

impl Shutdown {
    /// A flag that is not set. Its clones can set it at any time, so what it holds is
    /// no part of its value, and no contract speaks of it.
    pub fn new() -> Shutdown {
        Shutdown(Arc::new(AtomicBool::new(false)))
    }

    /// Sets the flag, for good. Other threads share it, so what they see of it is
    /// not for one thread to say.
    pub fn set(&self) {
        self.0.store(true, Ordering::SeqCst);
    }

    /// Whether the flag is set now. Other threads may set it at any time, so no contract
    /// says which answer comes. What follows either answer is stated where it is taken:
    /// in `serve`, `dispatch`, `accept`, `reader` and `writer`.
    pub fn is_set(&self) -> bool {
        self.0.load(Ordering::SeqCst)
    }
}

/// A step in arranging for the flag to be set.
#[derive(Debug, Clone, Copy, PartialEq, Eq, Structural)]
pub enum InstallStep {
    /// Ignore SIGPIPE, so that a client that is gone does not end the daemon.
    IgnoreSigpipe,
    /// Have a panic set the flag, after it is reported as before.
    HookPanics,
    /// Ask for SIGTERM and SIGINT.
    RegisterSignals,
    /// Start the thread that sets the flag at the first signal.
    SpawnWatcher,
    /// Nothing more.
    Installed,
}

impl InstallStep {
    /// What follows the step when it goes well.
    pub open spec fn after(self) -> InstallStep {
        match self {
            InstallStep::IgnoreSigpipe => InstallStep::HookPanics,
            InstallStep::HookPanics => InstallStep::RegisterSignals,
            InstallStep::RegisterSignals => InstallStep::SpawnWatcher,
            _ => InstallStep::Installed,
        }
    }

    /// Whether the step can fail. A hook is always set.
    pub open spec fn can_fail(self) -> bool {
        self is IgnoreSigpipe || self is RegisterSignals || self is SpawnWatcher
    }

    /// Takes what came of the step and finds the next one, or what went wrong.
    pub fn advance(self, done: Result<(), OsError>) -> (r: Result<InstallStep, DaemonError>)
        requires
            done is Err ==> self.can_fail(),
        ensures
            match done {
                Ok(()) => r == Ok::<InstallStep, DaemonError>(self.after()),
                Err(cause) => match self {
                    InstallStep::IgnoreSigpipe => r matches Err(
                        DaemonError::SignalSetup { which, source },
                    ) && which@ == "SIGPIPE"@ && source == cause,
                    InstallStep::RegisterSignals => r matches Err(
                        DaemonError::SignalSetup { which, source },
                    ) && which@ == "SIGTERM/SIGINT"@ && source == cause,
                    _ => r matches Err(DaemonError::ThreadSpawn { name, source }) && name@
                        == "signal-watch"@ && source == cause,
                },
            },
    {
        match done {
            Ok(()) => Ok(
                match self {
                    InstallStep::IgnoreSigpipe => InstallStep::HookPanics,
                    InstallStep::HookPanics => InstallStep::RegisterSignals,
                    InstallStep::RegisterSignals => InstallStep::SpawnWatcher,
                    _ => InstallStep::Installed,
                },
            ),
            Err(source) => Err(
                match self {
                    InstallStep::IgnoreSigpipe => DaemonError::SignalSetup {
                        which: "SIGPIPE",
                        source,
                    },
                    InstallStep::RegisterSignals => DaemonError::SignalSetup {
                        which: "SIGTERM/SIGINT",
                        source,
                    },
                    _ => DaemonError::ThreadSpawn { name: "signal-watch".to_owned(), source },
                },
            ),
        }
    }
}

/// Begins to arrange for the flag to be set.
pub fn install() -> (r: InstallStep)
    ensures
        r == InstallStep::IgnoreSigpipe,
{
    InstallStep::IgnoreSigpipe
}

/// The order in which the daemon arranges to be stopped: a client that is gone must not
/// end it, then a panic stops it, then signals are asked for and watched.
pub proof fn law_install_order()
    ensures
        InstallStep::IgnoreSigpipe.after() is HookPanics,
        InstallStep::HookPanics.after() is RegisterSignals,
        InstallStep::RegisterSignals.after() is SpawnWatcher,
        InstallStep::SpawnWatcher.after() is Installed,
        InstallStep::Installed.after() is Installed,
{
}

} // verus!
