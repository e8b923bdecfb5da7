//! The terminal-session state machine: `Uninitialized` → `Active` →
//! `Uninitialized`. The surrounding process owns the actual terminal
//! device; the library decides every transition and reports the outcome
//! of the OS-level attempt it is told about.

use vstd::prelude::*;
use crate::errors::{ErrorView, UiError};

verus! {

/// Whether the terminal session is held. At most one session is live at a
/// time; every render requires `Active`.
#[derive(Clone, Copy, PartialEq, Eq, Structural, Debug)]
pub enum SessionState {
    Uninitialized,
    Active,
}

impl SessionState {
    /// The init transition. `os_ok` reports whether raw mode and the
    /// alternate screen were entered: on success the session becomes
    /// `Active`; on failure the state is left as it was and a terminal
    /// error is reported.
    pub fn apply_init(&mut self, os_ok: bool) -> (r: Result<(), UiError>)
        ensures
            os_ok ==> *final(self) is Active && r is Ok,
            !os_ok ==> *final(self) == *old(self) && match r {
                Ok(_) => false,
                Err(e) => e@ is Terminal,
            },
    {
        if os_ok {
            *self = SessionState::Active;
            Ok(())
        } else {
            Err(UiError::Terminal)
        }
    }

    /// The terminate transition. The stored session is cleared before the
    /// OS-level restore is attempted, so the state is `Uninitialized`
    /// afterwards even when the restore failed; the failure is still
    /// reported. Terminating an already-uninitialized session succeeds:
    /// the transition is idempotent.
    pub fn apply_terminate(&mut self, restore_ok: bool) -> (r: Result<(), UiError>)
        ensures
            *final(self) is Uninitialized,
            restore_ok <==> r is Ok,
            !restore_ok ==> match r {
                Ok(_) => false,
                Err(e) => e@ is Terminal,
            },
    {
        *self = SessionState::Uninitialized;
        if restore_ok {
            Ok(())
        } else {
            Err(UiError::Terminal)
        }
    }

    /// Whether rendering may proceed: a render from `Uninitialized` fails,
    /// telling the caller to initialize first.
    pub fn require_active(&self) -> (r: Result<(), UiError>)
        ensures
            *self is Active <==> r is Ok,
            *self is Uninitialized ==> match r {
                Ok(_) => false,
                Err(e) => e@ is NotInitialized,
            },
    {
        match self {
            SessionState::Active => Ok(()),
            SessionState::Uninitialized => Err(UiError::NotInitialized),
        }
    }
}

} // verus!
