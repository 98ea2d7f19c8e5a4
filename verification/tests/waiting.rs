use portal_paste::error::PortalError;
use portal_paste::waiting::{authorization_tick, device_tick, poll_outcome, PollOutcome};

#[test]
fn permission_is_awaited_for_a_minute() {
    assert_eq!(authorization_tick(false, 0), Ok(()));
    assert_eq!(authorization_tick(false, 59_999), Ok(()));
    assert_eq!(
        authorization_tick(false, 60_000),
        Err(PortalError::AuthorizationTimedOut)
    );
    assert_eq!(
        authorization_tick(true, 0),
        Err(PortalError::AuthorizationCancelled)
    );
    assert_eq!(
        authorization_tick(true, 60_000),
        Err(PortalError::AuthorizationCancelled)
    );
}

#[test]
fn keyboard_is_awaited_for_three_seconds() {
    assert_eq!(device_tick(false, 2_999), Ok(()));
    assert_eq!(
        device_tick(false, 3_000),
        Err(PortalError::NoActiveKeyboard)
    );
    assert_eq!(device_tick(true, 0), Err(PortalError::PasteCancelled));
    assert_eq!(device_tick(true, 3_000), Err(PortalError::PasteCancelled));
}

#[test]
fn interrupted_and_empty_polls_are_repeated() {
    assert_eq!(poll_outcome(1, false), PollOutcome::Readable);
    assert_eq!(poll_outcome(1, true), PollOutcome::Readable);
    assert_eq!(poll_outcome(0, false), PollOutcome::Again);
    assert_eq!(poll_outcome(-1, true), PollOutcome::Again);
    assert_eq!(poll_outcome(-1, false), PollOutcome::Failed);
}
