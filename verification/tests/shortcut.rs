use portal_paste::shortcut::{
    clock_micros, default_paste_keys, emulate, paste_sequence, KeyState, PasteKeys, Request,
};

#[test]
fn terminal_and_standard_shortcuts_release_every_key() {
    for shift in [true, false] {
        let sequence = paste_sequence(shift, default_paste_keys());
        let pressed: Vec<_> = sequence
            .iter()
            .filter(|(_, state)| *state == KeyState::Press)
            .map(|(key, _)| *key)
            .collect();
        let released: Vec<_> = sequence
            .iter()
            .filter(|(_, state)| *state == KeyState::Released)
            .map(|(key, _)| *key)
            .collect();
        assert_eq!(pressed, released.into_iter().rev().collect::<Vec<_>>());
    }
}

#[test]
fn shortcut_moves_exactly_these_keys() {
    let keys = PasteKeys {
        control: 1,
        shift: 2,
        v: 3,
    };
    assert_eq!(
        paste_sequence(false, keys),
        vec![
            (1, KeyState::Press),
            (3, KeyState::Press),
            (3, KeyState::Released),
            (1, KeyState::Released),
        ]
    );
    assert_eq!(
        paste_sequence(true, keys),
        vec![
            (1, KeyState::Press),
            (2, KeyState::Press),
            (3, KeyState::Press),
            (3, KeyState::Released),
            (2, KeyState::Released),
            (1, KeyState::Released),
        ]
    );
    assert_eq!(
        default_paste_keys(),
        PasteKeys {
            control: 29,
            shift: 42,
            v: 47,
        }
    );
}

#[test]
fn every_move_ends_a_frame_one_microsecond_later() {
    let moves = vec![(29, KeyState::Press), (29, KeyState::Released)];
    assert_eq!(
        emulate(7, 3, 1_000, &moves),
        vec![
            Request::StartEmulating {
                serial: 7,
                sequence: 3,
            },
            Request::Key {
                key: 29,
                state: KeyState::Press,
            },
            Request::Frame {
                serial: 7,
                timestamp: 1_000,
            },
            Request::Key {
                key: 29,
                state: KeyState::Released,
            },
            Request::Frame {
                serial: 7,
                timestamp: 1_001,
            },
            Request::StopEmulating { serial: 7 },
        ]
    );
    assert_eq!(emulate(7, 3, u64::MAX, &vec![]).len(), 2);
}

#[test]
fn clock_is_read_in_microseconds() {
    assert_eq!(clock_micros(0, 999), 0);
    assert_eq!(clock_micros(0, 1_000), 1);
    assert_eq!(clock_micros(12, 345_678_901), 12_345_678);
}
