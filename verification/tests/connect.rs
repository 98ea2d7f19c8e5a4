use portal_paste::connect::{Connect, ConnectStep, Outcome, Persistence};
use portal_paste::error::PortalError;

fn granted(devices: u32, token: Option<&str>) -> Outcome {
    Outcome::Granted {
        devices,
        token: token.map(str::to_string),
    }
}

/// An attempt in which this many steps have succeeded.
fn after(steps: usize, replacement: Option<&str>) -> Connect {
    let mut connect = Connect::new(None);
    for step in 0..steps {
        connect.next(if step == 2 {
            granted(1, replacement)
        } else {
            Outcome::Done
        });
    }
    connect
}

/// What giving up says: its reason, whether it closes the session, whether the
/// permission was under way.
fn gives_up(step: ConnectStep) -> (Option<PortalError>, bool, bool) {
    match step {
        ConnectStep::GiveUp {
            error,
            close_session,
            authorizing,
        } => (error, close_session, authorizing),
        other => panic!("{other:?}"),
    }
}

#[test]
fn connection_restores_and_replaces_the_token() {
    let mut connect = Connect::new(Some("old".to_string()));
    assert!(matches!(connect.begin(), ConnectStep::CreateSession));
    match connect.next(Outcome::Done) {
        ConnectStep::SelectDevices {
            devices,
            persistence,
            token,
        } => {
            assert_eq!(devices, 1);
            assert_eq!(persistence, Persistence::ExplicitlyRevoked);
            assert_eq!(token.as_deref(), Some("old"));
        }
        other => panic!("{other:?}"),
    }
    assert!(matches!(
        connect.next(Outcome::Done),
        ConnectStep::StartSession
    ));
    assert!(matches!(
        connect.next(granted(1, Some("new"))),
        ConnectStep::ConnectToServer
    ));
    match connect.next(Outcome::Done) {
        ConnectStep::SaveToken { token } => assert_eq!(token, "new"),
        other => panic!("{other:?}"),
    }
    assert!(matches!(
        connect.next(Outcome::Done),
        ConnectStep::OpenContext
    ));
    assert!(matches!(
        connect.next(Outcome::Done),
        ConnectStep::ShakeHands
    ));
    assert!(matches!(connect.next(Outcome::Done), ConnectStep::Finish));
    assert!(matches!(connect.next(Outcome::Failed), ConnectStep::Finish));
}

#[test]
fn without_a_replacement_no_token_is_saved() {
    let mut connect = after(3, None);
    assert!(matches!(
        connect.next(Outcome::Done),
        ConnectStep::OpenContext
    ));
}

#[test]
fn unsaved_token_does_not_hold_up_the_connection() {
    let mut connect = after(4, Some("new"));
    assert!(matches!(
        connect.next(Outcome::Failed),
        ConnectStep::OpenContext
    ));
    assert!(matches!(
        connect.next(Outcome::Done),
        ConnectStep::ShakeHands
    ));
}

#[test]
fn missing_keyboard_grant_ends_the_attempt() {
    for devices in [0, 2, 4, 6] {
        let mut connect = after(2, None);
        assert_eq!(
            gives_up(connect.next(granted(devices, Some("new")))),
            (Some(PortalError::KeyboardNotGranted), true, true)
        );
        assert_eq!(gives_up(connect.next(Outcome::Done)), (None, false, false));
    }
    for devices in [1, 3, 7] {
        let mut connect = after(2, None);
        assert!(matches!(
            connect.next(granted(devices, None)),
            ConnectStep::ConnectToServer
        ));
    }
    assert_eq!(
        gives_up(after(2, None).next(Outcome::Done)),
        (Some(PortalError::KeyboardNotGranted), true, true)
    );
}

#[test]
fn failures_close_the_session_once_there_is_one() {
    let expected = [
        (false, false),
        (true, true),
        (true, true),
        (true, true),
        (true, false),
        (true, false),
    ];
    for (steps, (close, authorizing)) in expected.into_iter().enumerate() {
        let mut connect = after(steps, None);
        assert_eq!(
            gives_up(connect.next(Outcome::Failed)),
            (None, close, authorizing)
        );
        assert_eq!(gives_up(connect.next(Outcome::Failed)), (None, false, false));
    }
}
