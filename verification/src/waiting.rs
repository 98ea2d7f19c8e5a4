//! How long to wait for the desktop, and what a wait brought.
use vstd::prelude::*;

use crate::error::PortalError;

verus! {

/// How long the user may take to grant the keyboard, in milliseconds.
pub const PORTAL_TIMEOUT_MS: u64 = 60_000;

/// How long the server may take to provide a keyboard, in milliseconds.
pub const DEVICE_TIMEOUT_MS: u64 = 3_000;

/// How long a wait lasts before the listener's shutdown is looked at again, in
/// milliseconds.
pub const TICK_MS: u64 = 50;

/// What waiting for bytes on the socket brought.
#[derive(Clone, Copy, Debug, PartialEq, Eq, Structural)]
pub enum PollOutcome {
    /// Nothing yet: wait again.
    Again,
    /// There are bytes to read.
    Readable,
    /// The operating system refused.
    Failed,
}

/// Whether to go on waiting for the user's permission.
pub open spec fn authorization_verdict(stopped: bool, elapsed_ms: u64) -> Result<(), PortalError> {
    if stopped {
        Err(PortalError::AuthorizationCancelled)
    } else if elapsed_ms >= PORTAL_TIMEOUT_MS {
        Err(PortalError::AuthorizationTimedOut)
    } else {
        Ok(())
    }
}

/// Whether to go on waiting for a keyboard.
pub open spec fn device_verdict(stopped: bool, elapsed_ms: u64) -> Result<(), PortalError> {
    if stopped {
        Err(PortalError::PasteCancelled)
    } else if elapsed_ms >= DEVICE_TIMEOUT_MS {
        Err(PortalError::NoActiveKeyboard)
    } else {
        Ok(())
    }
}

/// What the result of `poll` on one descriptor means.
pub open spec fn poll_verdict(ready: i32, interrupted: bool) -> PollOutcome {
    if ready > 0 {
        PollOutcome::Readable
    } else if ready < 0 && !interrupted {
        PollOutcome::Failed
    } else {
        PollOutcome::Again
    }
}

/// Whether to go on waiting for the user's permission. `elapsed_ms` is the time
/// since the first request.
pub fn authorization_tick(stopped: bool, elapsed_ms: u64) -> (go_on: Result<(), PortalError>)
    ensures
        go_on == if stopped {
            Err(PortalError::AuthorizationCancelled)
        } else if elapsed_ms >= PORTAL_TIMEOUT_MS {
            Err(PortalError::AuthorizationTimedOut)
        } else {
            Ok(())
        },
        go_on == authorization_verdict(stopped, elapsed_ms),
{
    if stopped {
        return Err(PortalError::AuthorizationCancelled);
    }
    if elapsed_ms >= PORTAL_TIMEOUT_MS {
        return Err(PortalError::AuthorizationTimedOut);
    }
    Ok(())
}

/// Whether to go on waiting for a keyboard. `elapsed_ms` is the time since the wait
/// began.
pub fn device_tick(stopped: bool, elapsed_ms: u64) -> (go_on: Result<(), PortalError>)
    ensures
        go_on == if stopped {
            Err(PortalError::PasteCancelled)
        } else if elapsed_ms >= DEVICE_TIMEOUT_MS {
            Err(PortalError::NoActiveKeyboard)
        } else {
            Ok(())
        },
        go_on == device_verdict(stopped, elapsed_ms),
{
    if stopped {
        return Err(PortalError::PasteCancelled);
    }
    if elapsed_ms >= DEVICE_TIMEOUT_MS {
        return Err(PortalError::NoActiveKeyboard);
    }
    Ok(())
}

/// What `poll` on one descriptor brought: `ready` is its result, `interrupted`
/// whether a signal cut it short.
pub fn poll_outcome(ready: i32, interrupted: bool) -> (outcome: PollOutcome)
    ensures
        outcome == if ready > 0 {
            PollOutcome::Readable
        } else if ready < 0 && !interrupted {
            PollOutcome::Failed
        } else {
            PollOutcome::Again
        },
        outcome == poll_verdict(ready, interrupted),
{
    if ready < 0 {
        if interrupted {
            return PollOutcome::Again;
        }
        return PollOutcome::Failed;
    }
    if ready > 0 {
        return PollOutcome::Readable;
    }
    PollOutcome::Again
}

/// Both waits go on exactly until the listener stops or their time is over: a minute for
/// the user, three seconds for the server. A stop is what ends a wait where both hold, and
/// is looked for twenty times a second. Each wait has reasons of its own.
pub proof fn law_waits_end(stopped: bool, elapsed_ms: u64)
    ensures
        authorization_verdict(stopped, elapsed_ms) is Ok <==> !stopped && elapsed_ms < 60_000,
        authorization_verdict(stopped, elapsed_ms) == Err::<(), _>(
            PortalError::AuthorizationCancelled,
        ) <==> stopped,
        authorization_verdict(stopped, elapsed_ms) == Err::<(), _>(
            PortalError::AuthorizationTimedOut,
        ) <==> !stopped && elapsed_ms >= 60_000,
        device_verdict(stopped, elapsed_ms) is Ok <==> !stopped && elapsed_ms < 3_000,
        device_verdict(stopped, elapsed_ms) == Err::<(), _>(PortalError::PasteCancelled)
            <==> stopped,
        device_verdict(stopped, elapsed_ms) == Err::<(), _>(PortalError::NoActiveKeyboard)
            <==> !stopped && elapsed_ms >= 3_000,
        TICK_MS == 50,
{
}

/// A wait that has ended stays ended.
pub proof fn law_waits_do_not_resume(stopped: bool, earlier_ms: u64, later_ms: u64)
    requires
        earlier_ms <= later_ms,
    ensures
        authorization_verdict(stopped, earlier_ms) is Err ==> authorization_verdict(
            stopped,
            later_ms,
        ) is Err,
        device_verdict(stopped, earlier_ms) is Err ==> device_verdict(stopped, later_ms) is Err,
{
}

/// A signal never makes waiting for bytes fail, and bytes are read whenever a descriptor
/// is ready. Otherwise nothing is read, and only an error is a failure.
pub proof fn law_polling(ready: i32, interrupted: bool)
    ensures
        poll_verdict(ready, interrupted) is Readable <==> ready > 0,
        poll_verdict(ready, true) !is Failed,
        poll_verdict(ready, interrupted) is Failed <==> ready < 0 && !interrupted,
{
}

} // verus!
