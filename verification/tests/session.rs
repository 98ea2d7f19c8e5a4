use portal_paste::error::PortalError;
use portal_paste::keymap::{
    Extent, KEYSYM_CONTROL_L, KEYSYM_SHIFT_L, KEYSYM_V,
};
use portal_paste::session::{Event, Input, PasteFailure, PasteTarget, Session, Step};
use portal_paste::shortcut::{default_paste_keys, emulate, paste_sequence, KeyState, PasteKeys, Request};

const SEAT: u64 = 0xff00_0000_0000_0001;
const DEVICE: u64 = 0xff00_0000_0000_0002;
const KEYBOARD: u64 = 0xff00_0000_0000_0003;

fn send(session: &mut Session<&'static str>, event: Event) -> Step {
    session.step(Input::Event(event))
}

fn interface(device: u64, keyboard: Option<u64>) -> Event {
    Event::DeviceInterface {
        device,
        interface: "ei_keyboard".to_string(),
        keyboard,
    }
}

/// A session after the handshake.
fn connected() -> Session<&'static str> {
    let mut session = Session::new();
    send(&mut session, Event::HandshakeConnection { serial: 5 });
    session
}

/// A session with an active keyboard.
fn active() -> Session<&'static str> {
    let mut session = connected();
    send(&mut session, interface(DEVICE, Some(KEYBOARD)));
    send(
        &mut session,
        Event::DeviceResumed {
            device: DEVICE,
            serial: 6,
        },
    );
    session
}

fn target(session: &Session<&'static str>) -> Result<PasteTarget, PortalError> {
    session.paste_target(false)
}

/// The serial and the number of the next paste.
fn next_paste(session: &mut Session<&'static str>) -> (u32, u32) {
    match session.start_paste(false, default_paste_keys(), 0)[0] {
        Request::StartEmulating { serial, sequence } => (serial, sequence),
        other => panic!("{other:?}"),
    }
}

#[test]
fn connection_goes_from_greeting_to_ready() {
    let mut session = Session::new();
    assert_eq!(session.begin(), Step::Poll);
    assert_eq!(session.step(Input::Read), Step::Next);
    assert_eq!(send(&mut session, Event::HandshakeVersion), Step::Announce);
    assert_eq!(session.step(Input::Flushed), Step::Next);
    assert_eq!(session.step(Input::Drained), Step::Poll);
    assert_eq!(session.step(Input::Read), Step::Next);
    assert_eq!(
        send(&mut session, Event::HandshakeConnection { serial: 5 }),
        Step::Next
    );
    assert_eq!(
        send(&mut session, Event::SeatAnnounced { seat: SEAT }),
        Step::Next
    );
    assert_eq!(
        send(
            &mut session,
            Event::SeatCapability {
                seat: SEAT,
                mask: 4,
                interface: "ei_keyboard".to_string(),
            }
        ),
        Step::Next
    );
    assert_eq!(
        send(&mut session, Event::SeatDone { seat: SEAT }),
        Step::Bind {
            seat: SEAT,
            mask: 4,
        }
    );
    assert_eq!(session.step(Input::Queued), Step::Next);
    assert_eq!(session.step(Input::Drained), Step::Flush);
    assert_eq!(session.step(Input::Flushed), Step::Poll);
    assert_eq!(
        send(&mut session, interface(DEVICE, Some(KEYBOARD))),
        Step::Next
    );
    assert_eq!(target(&session), Err(PortalError::DeviceUnavailable));
    assert_eq!(
        send(
            &mut session,
            Event::DeviceResumed {
                device: DEVICE,
                serial: 9,
            }
        ),
        Step::Next
    );
    assert_eq!(session.step(Input::Drained), Step::Flush);
    assert_eq!(session.step(Input::Flushed), Step::Ready);
    assert_eq!(
        target(&session),
        Ok(PasteTarget {
            device: DEVICE,
            keyboard: KEYBOARD,
        })
    );
    assert_eq!(
        session.paste_target(true),
        Err(PortalError::PasteCancelled)
    );
    assert_eq!(next_paste(&mut session), (9, 1));
}

#[test]
fn greeting_ignores_everything_but_the_handshake() {
    let mut session = Session::new();
    assert_eq!(send(&mut session, Event::Disconnected), Step::Next);
    assert_eq!(send(&mut session, Event::Ping), Step::Next);
    assert_eq!(
        send(&mut session, interface(DEVICE, Some(KEYBOARD))),
        Step::Next
    );
    assert_eq!(
        send(
            &mut session,
            Event::KeyboardKeymap {
                keyboard: KEYBOARD,
                size: 0,
            }
        ),
        Step::Next
    );
    assert_eq!(
        send(&mut session, Event::Malformed),
        Step::Fail(PortalError::InvalidHandshake)
    );
    send(&mut session, Event::HandshakeConnection { serial: 5 });
    send(
        &mut session,
        Event::DeviceResumed {
            device: DEVICE,
            serial: 6,
        },
    );
    assert_eq!(target(&session), Err(PortalError::DeviceUnavailable));
    assert_eq!(send(&mut session, Event::HandshakeVersion), Step::Next);
}

#[test]
fn connected_session_answers_pings_and_gives_up_when_revoked() {
    let mut session = connected();
    assert_eq!(send(&mut session, Event::Ping), Step::Pong);
    assert_eq!(send(&mut session, Event::Other), Step::Next);
    assert_eq!(
        send(&mut session, Event::Disconnected),
        Step::Fail(PortalError::KeyboardRevoked)
    );
    assert_eq!(
        send(&mut session, Event::Malformed),
        Step::Fail(PortalError::InvalidKeyboardEvent)
    );
}

#[test]
fn seat_is_bound_with_its_latest_keyboard_mask() {
    let mut session = connected();
    let capability = |mask: u64, name: &str| Event::SeatCapability {
        seat: SEAT,
        mask,
        interface: name.to_string(),
    };
    let done = || Event::SeatDone { seat: SEAT };
    assert_eq!(send(&mut session, done()), Step::Next);
    send(&mut session, Event::SeatAnnounced { seat: SEAT });
    assert_eq!(send(&mut session, done()), Step::Next);
    send(&mut session, capability(1, "ei_pointer"));
    assert_eq!(send(&mut session, done()), Step::Next);
    send(&mut session, capability(2, "ei_keyboard"));
    send(&mut session, capability(8, "ei_keyboard"));
    send(&mut session, capability(16, "ei_touchscreen"));
    assert_eq!(
        send(&mut session, done()),
        Step::Bind {
            seat: SEAT,
            mask: 8,
        }
    );
    assert_eq!(
        send(&mut session, Event::SeatDone { seat: SEAT + 9 }),
        Step::Next
    );
    send(
        &mut session,
        Event::SeatDestroyed {
            seat: SEAT,
            serial: 7,
        },
    );
    assert_eq!(send(&mut session, done()), Step::Next);
}

#[test]
fn only_keyboard_devices_become_active() {
    let mut session = connected();
    let resumed = || Event::DeviceResumed {
        device: DEVICE,
        serial: 6,
    };
    send(
        &mut session,
        Event::DeviceInterface {
            device: DEVICE,
            interface: "ei_pointer".to_string(),
            keyboard: Some(KEYBOARD),
        },
    );
    send(&mut session, resumed());
    assert_eq!(target(&session), Err(PortalError::DeviceUnavailable));
    send(&mut session, interface(DEVICE, None));
    send(&mut session, resumed());
    assert_eq!(target(&session), Err(PortalError::DeviceUnavailable));
    send(&mut session, interface(DEVICE, Some(KEYBOARD)));
    send(&mut session, resumed());
    assert!(target(&session).is_ok());
}

#[test]
fn paused_and_destroyed_devices_are_not_typed_on() {
    let mut session = active();
    send(
        &mut session,
        Event::DevicePaused {
            device: DEVICE + 5,
            serial: 7,
        },
    );
    assert!(target(&session).is_ok());
    send(
        &mut session,
        Event::DevicePaused {
            device: DEVICE,
            serial: 8,
        },
    );
    assert_eq!(target(&session), Err(PortalError::DeviceUnavailable));
    assert_eq!(session.step(Input::Flushed), Step::Poll);
    send(
        &mut session,
        Event::DeviceResumed {
            device: DEVICE,
            serial: 9,
        },
    );
    assert!(target(&session).is_ok());
    session.step(Input::KeymapLoaded {
        keyboard: KEYBOARD,
        keymap: "us",
    });
    send(
        &mut session,
        Event::DeviceDestroyed {
            device: DEVICE,
            serial: 10,
        },
    );
    assert_eq!(target(&session), Err(PortalError::DeviceUnavailable));
    assert_eq!(session.keymap(KEYBOARD), None);
    send(
        &mut session,
        Event::DeviceResumed {
            device: DEVICE,
            serial: 11,
        },
    );
    assert_eq!(target(&session), Err(PortalError::DeviceUnavailable));
    assert_eq!(next_paste(&mut session), (11, 1));
}

#[test]
fn destroyed_seat_takes_everything_with_it() {
    let mut session = active();
    session.step(Input::KeymapLoaded {
        keyboard: KEYBOARD,
        keymap: "us",
    });
    send(
        &mut session,
        Event::SeatDestroyed {
            seat: SEAT,
            serial: 12,
        },
    );
    assert_eq!(target(&session), Err(PortalError::DeviceUnavailable));
    assert_eq!(session.keymap(KEYBOARD), None);
    assert_eq!(next_paste(&mut session), (12, 1));
}

#[test]
fn keymaps_of_two_bytes_to_a_mebibyte_are_loaded() {
    let mut session = active();
    for size in [2, 1_048_576] {
        assert_eq!(
            send(
                &mut session,
                Event::KeyboardKeymap {
                    keyboard: KEYBOARD,
                    size,
                }
            ),
            Step::LoadKeymap {
                keyboard: KEYBOARD,
                size,
            }
        );
    }
    for size in [0, 1, 1_048_577, u32::MAX] {
        assert_eq!(
            send(
                &mut session,
                Event::KeyboardKeymap {
                    keyboard: KEYBOARD,
                    size,
                }
            ),
            Step::Fail(PortalError::InvalidKeymapLength)
        );
    }
    assert_eq!(session.keymap(KEYBOARD), None);
}

#[test]
fn group_follows_the_modifiers_of_its_keyboard() {
    let mut session = active();
    let modifiers = |keyboard: u64, serial: u32, group: u32| Event::KeyboardModifiers {
        keyboard,
        serial,
        group,
    };
    send(&mut session, modifiers(KEYBOARD, 20, 3));
    assert_eq!(session.keymap(KEYBOARD), None);
    assert_eq!(
        session.step(Input::KeymapLoaded {
            keyboard: KEYBOARD,
            keymap: "us,ru",
        }),
        Step::Next
    );
    assert_eq!(session.keymap(KEYBOARD), Some(&("us,ru", 0)));
    send(&mut session, modifiers(KEYBOARD, 21, 1));
    assert_eq!(session.keymap(KEYBOARD), Some(&("us,ru", 1)));
    send(&mut session, modifiers(KEYBOARD + 5, 22, 2));
    assert_eq!(session.keymap(KEYBOARD), Some(&("us,ru", 1)));
    session.step(Input::KeymapLoaded {
        keyboard: KEYBOARD,
        keymap: "de",
    });
    assert_eq!(session.keymap(KEYBOARD), Some(&("de", 0)));
    assert_eq!(next_paste(&mut session), (22, 1));
}

#[test]
fn pastes_are_numbered_and_use_the_latest_serial() {
    let mut session = active();
    assert_eq!(next_paste(&mut session), (6, 1));
    assert_eq!(next_paste(&mut session), (6, 2));
    send(
        &mut session,
        Event::DevicePaused {
            device: DEVICE + 5,
            serial: 40,
        },
    );
    let requests = session.start_paste(true, default_paste_keys(), 100);
    assert_eq!(requests.len(), 14);
    assert_eq!(
        requests[0],
        Request::StartEmulating {
            serial: 40,
            sequence: 3,
        }
    );
    assert_eq!(
        requests[1],
        Request::Key {
            key: 29,
            state: KeyState::Press,
        }
    );
    assert_eq!(
        requests[12],
        Request::Frame {
            serial: 40,
            timestamp: 105,
        }
    );
    assert_eq!(requests[13], Request::StopEmulating { serial: 40 });
    assert!(target(&session).is_ok());
}

#[test]
fn failures_have_their_sentences() {
    assert_eq!(
        PortalError::KeyboardRevoked.message(),
        "desktop revoked keyboard control"
    );
    assert_eq!(
        PortalError::NoVKey.message(),
        "desktop keyboard layout has no V key for paste"
    );
    assert_eq!(
        PortalError::InvalidTokenLength.message(),
        "invalid portal token length"
    );
}

/// The keymap "us,ru" has one layout, and keycodes from 10 to 12.
fn measure(keymap: &&'static str) -> Extent {
    assert_eq!(*keymap, "us,ru");
    Extent {
        lowest: 10,
        highest: 12,
        layouts: 1,
    }
}

/// What a key does in a keymap that has these symbols, in the group 3 alone.
fn key(symbols: [u32; 3], group: u32, code: u32) -> (Vec<u32>, bool, bool) {
    let symbol = symbols[(code - 10) as usize];
    if group == 3 {
        (
            vec![symbol],
            symbol == KEYSYM_CONTROL_L,
            symbol == KEYSYM_SHIFT_L,
        )
    } else {
        (vec![], false, false)
    }
}

#[test]
fn paste_is_prepared_with_the_keymap_of_the_active_keyboard() {
    let unmeasured = |_: &&'static str| -> Extent { panic!("measured") };
    let unread = |_: &&'static str, _: u32, _: u32| -> (Vec<u32>, bool, bool) { panic!("read") };
    let target = PasteTarget {
        device: DEVICE,
        keyboard: KEYBOARD,
    };
    assert_eq!(
        connected().prepare_paste(false, true, unmeasured, unread),
        Err(PortalError::DeviceUnavailable)
    );
    let mut session = active();
    assert_eq!(
        session.prepare_paste(true, true, unmeasured, unread),
        Err(PortalError::PasteCancelled)
    );
    assert_eq!(
        session.prepare_paste(false, true, unmeasured, unread),
        Ok((target, default_paste_keys()))
    );
    session.step(Input::KeymapLoaded {
        keyboard: KEYBOARD + 5,
        keymap: "other",
    });
    assert_eq!(
        session.prepare_paste(false, true, unmeasured, unread),
        Ok((target, default_paste_keys()))
    );
    session.step(Input::KeymapLoaded {
        keyboard: KEYBOARD,
        keymap: "us,ru",
    });
    send(
        &mut session,
        Event::KeyboardModifiers {
            keyboard: KEYBOARD,
            serial: 7,
            group: 3,
        },
    );
    let read = |keymap: &&'static str, group: u32, code: u32| {
        assert_eq!(*keymap, "us,ru");
        key([KEYSYM_V, KEYSYM_SHIFT_L, KEYSYM_CONTROL_L], group, code)
    };
    assert_eq!(
        session.prepare_paste(false, true, measure, read),
        Ok((
            target,
            PasteKeys {
                control: 4,
                shift: 3,
                v: 2,
            }
        ))
    );
    let without_shift = |_: &&'static str, group: u32, code: u32| {
        key([KEYSYM_V, KEYSYM_CONTROL_L, 0x61], group, code)
    };
    assert_eq!(
        session.prepare_paste(false, true, measure, without_shift),
        Err(PortalError::NoShiftKey)
    );
    assert_eq!(
        session.prepare_paste(false, false, measure, without_shift),
        Ok((
            target,
            PasteKeys {
                control: 3,
                shift: 42,
                v: 2,
            }
        ))
    );
}

#[test]
fn paste_types_the_planned_keys_and_nothing_without_a_plan() {
    let read = |_: &&'static str, group: u32, code: u32| {
        key([KEYSYM_V, KEYSYM_CONTROL_L, 0x61], group, code)
    };
    let clock = || -> Result<(u64, u64), &'static str> { Ok((2, 3_999)) };
    let unread = || -> Result<(u64, u64), &'static str> { panic!("read") };
    let broken = || -> Result<(u64, u64), &'static str> { Err("no clock") };
    let mut session = active();
    session.step(Input::KeymapLoaded {
        keyboard: KEYBOARD,
        keymap: "us,ru",
    });
    send(
        &mut session,
        Event::KeyboardModifiers {
            keyboard: KEYBOARD,
            serial: 7,
            group: 3,
        },
    );
    assert!(matches!(
        session.paste(true, false, measure, read, unread),
        Err(PasteFailure::Refused(PortalError::PasteCancelled))
    ));
    assert!(matches!(
        session.paste(false, true, measure, read, unread),
        Err(PasteFailure::Refused(PortalError::NoShiftKey))
    ));
    assert!(matches!(
        session.paste(false, false, measure, read, broken),
        Err(PasteFailure::Clock("no clock"))
    ));
    let keys = PasteKeys {
        control: 3,
        shift: 42,
        v: 2,
    };
    for number in [1, 2] {
        let (target, requests) = session.paste(false, false, measure, read, clock).unwrap();
        assert_eq!(
            target,
            PasteTarget {
                device: DEVICE,
                keyboard: KEYBOARD,
            }
        );
        assert_eq!(
            requests,
            emulate(7, number, 2_000_003, &paste_sequence(false, keys))
        );
    }
}

#[test]
fn server_messages_leave_the_paste_number_alone() {
    let mut session = active();
    assert_eq!(next_paste(&mut session), (6, 1));
    send(
        &mut session,
        Event::SeatDestroyed {
            seat: SEAT,
            serial: 30,
        },
    );
    send(&mut session, Event::Ping);
    session.step(Input::Flushed);
    assert_eq!(next_paste(&mut session), (30, 2));
}

#[test]
fn connection_gives_the_first_serial() {
    assert_eq!(next_paste(&mut Session::new()), (0, 1));
    assert_eq!(next_paste(&mut connected()), (5, 1));
}
