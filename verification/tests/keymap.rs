//! Keymaps here are what libxkbcommon makes of the rules `evdev` and the model
//! `pc105`: the first-level keysyms of the keycodes from 9 to 108.
use portal_paste::error::PortalError;
use portal_paste::keymap::{
    choose_paste_keys, key_for_modifier, key_for_symbol, read_group, read_keymap,
    resolve_paste_keys, Extent, Keymap, Modifier, KEYSYM_CONTROL_L, KEYSYM_CONTROL_R, KEYSYM_SHIFT_L, KEYSYM_SHIFT_R, KEYSYM_V,
};
use portal_paste::keymap_file::{
    check_keymap_file, keymap_text, parse_keymap_bytes, KeymapTextError,
};
use portal_paste::shortcut::{
    default_paste_keys, paste_sequence, PasteKeys, KEY_CTRL, KEY_SHIFT, KEY_V,
};

/// US layout.
const US: [u32; 100] = [
    0xff1b, 0x31, 0x32, 0x33, 0x34, 0x35, 0x36, 0x37,
    0x38, 0x39, 0x30, 0x2d, 0x3d, 0xff08, 0xff09, 0x71,
    0x77, 0x65, 0x72, 0x74, 0x79, 0x75, 0x69, 0x6f,
    0x70, 0x5b, 0x5d, 0xff0d, 0xffe3, 0x61, 0x73, 0x64,
    0x66, 0x67, 0x68, 0x6a, 0x6b, 0x6c, 0x3b, 0x27,
    0x60, 0xffe1, 0x5c, 0x7a, 0x78, 0x63, 0x76, 0x62,
    0x6e, 0x6d, 0x2c, 0x2e, 0x2f, 0xffe2, 0xffaa, 0xffe9,
    0x20, 0xffe5, 0xffbe, 0xffbf, 0xffc0, 0xffc1, 0xffc2, 0xffc3,
    0xffc4, 0xffc5, 0xffc6, 0xffc7, 0xff7f, 0xff14, 0xff95, 0xff97,
    0xff9a, 0xffad, 0xff96, 0xff9d, 0xff98, 0xffab, 0xff9c, 0xff99,
    0xff9b, 0xff9e, 0xff9f, 0xfe03, 0, 0x3c, 0xffc8, 0xffc9,
    0, 0xff26, 0xff25, 0xff23, 0xff27, 0xff22, 0, 0xff8d,
    0xffe4, 0xffaf, 0xff61, 0xffea,
];

/// US layout, Dvorak variant.
const DVORAK: [u32; 100] = [
    0xff1b, 0x31, 0x32, 0x33, 0x34, 0x35, 0x36, 0x37,
    0x38, 0x39, 0x30, 0x5b, 0x5d, 0xff08, 0xff09, 0x27,
    0x2c, 0x2e, 0x70, 0x79, 0x66, 0x67, 0x63, 0x72,
    0x6c, 0x2f, 0x3d, 0xff0d, 0xffe3, 0x61, 0x6f, 0x65,
    0x75, 0x69, 0x64, 0x68, 0x74, 0x6e, 0x73, 0x2d,
    0x60, 0xffe1, 0x5c, 0x3b, 0x71, 0x6a, 0x6b, 0x78,
    0x62, 0x6d, 0x77, 0x76, 0x7a, 0xffe2, 0xffaa, 0xffe9,
    0x20, 0xffe5, 0xffbe, 0xffbf, 0xffc0, 0xffc1, 0xffc2, 0xffc3,
    0xffc4, 0xffc5, 0xffc6, 0xffc7, 0xff7f, 0xff14, 0xff95, 0xff97,
    0xff9a, 0xffad, 0xff96, 0xff9d, 0xff98, 0xffab, 0xff9c, 0xff99,
    0xff9b, 0xff9e, 0xff9f, 0xfe03, 0, 0x3c, 0xffc8, 0xffc9,
    0, 0xff26, 0xff25, 0xff23, 0xff27, 0xff22, 0, 0xff8d,
    0xffe4, 0xffaf, 0xff61, 0xffea,
];

/// Russian layout.
const RUSSIAN: [u32; 100] = [
    0xff1b, 0x31, 0x32, 0x33, 0x34, 0x35, 0x36, 0x37,
    0x38, 0x39, 0x30, 0x2d, 0x3d, 0xff08, 0xff09, 0x6ca,
    0x6c3, 0x6d5, 0x6cb, 0x6c5, 0x6ce, 0x6c7, 0x6db, 0x6dd,
    0x6da, 0x6c8, 0x6df, 0xff0d, 0xffe3, 0x6c6, 0x6d9, 0x6d7,
    0x6c1, 0x6d0, 0x6d2, 0x6cf, 0x6cc, 0x6c4, 0x6d6, 0x6dc,
    0x6a3, 0xffe1, 0x5c, 0x6d1, 0x6de, 0x6d3, 0x6cd, 0x6c9,
    0x6d4, 0x6d8, 0x6c2, 0x6c0, 0x2e, 0xffe2, 0xffaa, 0xffe9,
    0x20, 0xffe5, 0xffbe, 0xffbf, 0xffc0, 0xffc1, 0xffc2, 0xffc3,
    0xffc4, 0xffc5, 0xffc6, 0xffc7, 0xff7f, 0xff14, 0xff95, 0xff97,
    0xff9a, 0xffad, 0xff96, 0xff9d, 0xff98, 0xffab, 0xff9c, 0xff99,
    0xff9b, 0xff9e, 0xff9f, 0xfe03, 0, 0x2f, 0xffc8, 0xffc9,
    0, 0xff26, 0xff25, 0xff23, 0xff27, 0xff22, 0, 0xff8d,
    0xffe4, 0xffaf, 0xff61, 0xffea,
];

/// What one key types. It holds the modifier that its symbol names.
fn key(symbols: &[u32], code: u32) -> (Vec<u32>, bool, bool) {
    let symbol = symbols[(code - 9) as usize];
    (
        if symbol == 0 { vec![] } else { vec![symbol] },
        symbol == KEYSYM_CONTROL_L || symbol == KEYSYM_CONTROL_R,
        symbol == KEYSYM_SHIFT_L || symbol == KEYSYM_SHIFT_R,
    )
}

/// A keymap with these layouts, read for the last group there can be, which is as
/// `beyond`.
fn keymap_beyond(layouts: &[&[u32]], beyond: &[u32]) -> Keymap {
    let extent = Extent {
        lowest: 9,
        highest: 108,
        layouts: layouts.len() as u32,
    };
    read_keymap(&layouts, extent, u32::MAX, |layouts, group, code| {
        key(layouts.get(group as usize).unwrap_or(&beyond), code)
    })
}

fn keymap(layouts: &[&[u32]]) -> Keymap {
    let extent = Extent {
        lowest: 9,
        highest: 108,
        layouts: layouts.len() as u32,
    };
    read_keymap(&layouts, extent, 0, |layouts, group, code| {
        key(layouts[group as usize], code)
    })
}

/// A keymap with one layout, in which these keys are the only ones.
fn sparse(lowest: u32, keys: &[(u32, &[u32], bool, bool)]) -> Keymap {
    let extent = Extent {
        lowest,
        highest: 60,
        layouts: 1,
    };
    read_keymap(&keys, extent, 0, |keys, _, code| {
        keys.iter()
            .find(|key| key.0 == code)
            .map(|key| (key.1.to_vec(), key.2, key.3))
            .unwrap_or((vec![], false, false))
    })
}

#[test]
fn portal_paste_resolves_v_from_the_compositor_keymap() {
    let us = keymap(&[&US]);
    let dvorak = keymap(&[&DVORAK]);
    assert_eq!(resolve_paste_keys(&us, 0, false).unwrap().v, KEY_V);
    assert_ne!(resolve_paste_keys(&dvorak, 0, false).unwrap().v, KEY_V);
}

#[test]
fn kde_keymap_without_terminator_and_terminated_keymap_both_resolve_v() {
    let text = "xkb_keymap {\nxkb_keycodes \"evdev+aliases(qwerty)\" {\n\tminimum = 8;\n};\n};\n";
    let compile = |given: String| (given == text).then(|| keymap(&[&US]));
    let bytes = text.as_bytes().to_vec();
    assert_eq!(
        resolve_paste_keys(&parse_keymap_bytes(bytes.clone(), compile).unwrap(), 0, false)
            .unwrap()
            .v,
        KEY_V
    );
    let mut terminated = bytes.clone();
    terminated.push(0);
    assert_eq!(
        resolve_paste_keys(&parse_keymap_bytes(terminated, compile).unwrap(), 0, false)
            .unwrap()
            .v,
        KEY_V
    );
    let mut malformed = bytes;
    malformed.push(0);
    malformed.push(b'x');
    assert!(parse_keymap_bytes(malformed, compile).is_err());
}

#[test]
fn swapped_caps_and_control_uses_the_real_control_modifier() {
    let mut symbols = US;
    symbols[37 - 9] = 0xffe5;
    symbols[66 - 9] = KEYSYM_CONTROL_L;
    let keymap = keymap(&[&symbols]);
    let keys = resolve_paste_keys(&keymap, 0, true).unwrap();
    assert_eq!(keys.control, 58); // evdev Caps Lock now produces Control.
    assert_eq!(keys.shift, KEY_SHIFT);
    assert_eq!(keys.v, KEY_V);
    assert_eq!(paste_sequence(false, keys)[0].0, keys.control);
}

#[test]
fn non_latin_group_uses_latin_shortcut_position_without_losing_dvorak() {
    let keymap_of_two = keymap(&[&DVORAK, &RUSSIAN]);
    assert_eq!(keymap_of_two.num_layouts(), 2);
    assert!(key_for_symbol(&keymap_of_two, 1, KEYSYM_V).is_none());
    let latin = resolve_paste_keys(&keymap_of_two, 0, false).unwrap();
    let russian = resolve_paste_keys(&keymap_of_two, 1, false).unwrap();
    assert_ne!(latin.v, KEY_V);
    assert_eq!(russian.v, latin.v);
    assert_eq!(russian.control, latin.control);
    assert!(resolve_paste_keys(&keymap_of_two, 1, true).is_ok());

    let russian_only = keymap(&[&RUSSIAN]);
    assert!(resolve_paste_keys(&russian_only, 0, false).is_err());
}

#[test]
fn us_keys_are_found_at_their_evdev_codes() {
    let us = keymap(&[&US]);
    assert_eq!(
        resolve_paste_keys(&us, 0, true),
        Ok(PasteKeys {
            control: KEY_CTRL,
            shift: KEY_SHIFT,
            v: KEY_V,
        })
    );
    assert_eq!(resolve_paste_keys(&us, 0, true), Ok(default_paste_keys()));
    let dvorak = keymap(&[&DVORAK]);
    assert_eq!(resolve_paste_keys(&dvorak, 0, false).unwrap().v, 52);
    assert_eq!(
        resolve_paste_keys(&keymap(&[&RUSSIAN]), 0, false),
        Err(PortalError::NoVKey)
    );
}

#[test]
fn active_group_keeps_its_own_v() {
    let both = keymap(&[&DVORAK, &US]);
    assert_eq!(resolve_paste_keys(&both, 0, false).unwrap().v, 52);
    assert_eq!(resolve_paste_keys(&both, 1, false).unwrap().v, KEY_V);
    let three = keymap(&[&US, &DVORAK, &RUSSIAN]);
    assert_eq!(resolve_paste_keys(&three, 2, false).unwrap().v, KEY_V);
    let reversed = keymap(&[&RUSSIAN, &DVORAK, &US]);
    assert_eq!(resolve_paste_keys(&reversed, 0, false).unwrap().v, 52);
}

#[test]
fn group_beyond_the_layouts_is_read_as_given() {
    let wrapped = keymap_beyond(&[&US, &RUSSIAN], &DVORAK);
    assert_eq!(resolve_paste_keys(&wrapped, u32::MAX, false).unwrap().v, 52);
    let without_v = keymap_beyond(&[&US], &RUSSIAN);
    assert_eq!(resolve_paste_keys(&without_v, u32::MAX, false).unwrap().v, KEY_V);
    let nothing = keymap_beyond(&[&US], &[0; 100]);
    assert_eq!(
        resolve_paste_keys(&nothing, u32::MAX, false),
        Err(PortalError::NoControlKey)
    );
}

#[test]
fn control_symbol_without_the_modifier_is_passed_over() {
    let keymap = sparse(
        9,
        &[
            (20, &[KEYSYM_CONTROL_L], false, false),
            (30, &[0x61, KEYSYM_CONTROL_R], true, false),
            (40, &[0x62], true, true),
            (50, &[KEYSYM_V], false, false),
        ],
    );
    let controls = [KEYSYM_CONTROL_L, KEYSYM_CONTROL_R];
    assert_eq!(
        key_for_modifier(&keymap, 0, &controls, Modifier::Control),
        Some(22)
    );
    assert_eq!(
        key_for_modifier(&keymap, 0, &[KEYSYM_SHIFT_L], Modifier::Shift),
        None
    );
    assert_eq!(
        key_for_modifier(&keymap, 0, &[0x62], Modifier::Shift),
        Some(32)
    );
    assert_eq!(
        resolve_paste_keys(&keymap, 0, false),
        Ok(PasteKeys {
            control: 22,
            shift: KEY_SHIFT,
            v: 42,
        })
    );
    assert_eq!(
        resolve_paste_keys(&keymap, 0, true),
        Err(PortalError::NoShiftKey)
    );
}

#[test]
fn keys_below_the_evdev_range_are_passed_over() {
    let keymap = sparse(
        7,
        &[
            (7, &[KEYSYM_V], false, false),
            (8, &[KEYSYM_V], false, false),
            (9, &[KEYSYM_V], false, false),
        ],
    );
    assert_eq!(key_for_symbol(&keymap, 0, KEYSYM_V), Some(0));
    assert_eq!(key_for_symbol(&keymap, 0, 0x77), None);
    assert_eq!(
        resolve_paste_keys(&keymap, 0, false),
        Err(PortalError::NoControlKey)
    );
}

#[test]
fn joined_symbol_lists_find_the_lesser_key() {
    let keymap = sparse(
        9,
        &[
            (20, &[1], true, false),
            (30, &[2], true, false),
            (40, &[3], true, false),
        ],
    );
    let found = |symbols: &[u32]| key_for_modifier(&keymap, 0, symbols, Modifier::Control);
    assert_eq!(found(&[2]), Some(22));
    assert_eq!(found(&[1]), Some(12));
    assert_eq!(found(&[2, 1]), Some(12));
    assert_eq!(found(&[1, 2]), Some(12));
    assert_eq!(found(&[3, 2, 9]), Some(22));
    assert_eq!(found(&[9]), None);
    assert_eq!(found(&[]), None);
}

#[test]
fn groups_are_read_from_the_lowest_keycode_to_the_highest() {
    let read = |base: &u32, group: u32, code: u32| {
        (vec![base + group, code], code % 2 == 0, code == 5)
    };
    let keys = read_group(&100, 7, 4, 6, &read);
    let codes: Vec<u32> = keys.iter().map(|key| key.code).collect();
    assert_eq!(codes, vec![4, 5, 6]);
    assert_eq!(keys[1].symbols, vec![107, 5]);
    assert!(keys[0].control && !keys[1].control);
    assert!(keys[1].shift && !keys[2].shift);
    assert_eq!(read_group(&100, 0, u32::MAX, u32::MAX, &read).len(), 1);
    assert!(read_group(&100, 0, 6, 5, &read).is_empty());
    let extent = Extent {
        lowest: 6,
        highest: 5,
        layouts: 3,
    };
    assert_eq!(read_keymap(&100, extent, 9, read).num_layouts(), 3);
}

#[test]
fn keyboard_without_keymap_has_us_keys() {
    assert_eq!(choose_paste_keys(None, true), Ok(default_paste_keys()));
    assert_eq!(
        choose_paste_keys(Some((keymap(&[&DVORAK]), 0)), false).unwrap().v,
        52
    );
}

#[test]
fn keymap_text_loses_one_terminator() {
    assert_eq!(keymap_text(b"map".to_vec()).unwrap(), "map");
    assert_eq!(keymap_text(b"map\0".to_vec()).unwrap(), "map");
    assert_eq!(keymap_text(vec![]).unwrap(), "");
    assert_eq!(keymap_text(vec![0]).unwrap(), "");
    assert_eq!(keymap_text("\u{432}".as_bytes().to_vec()).unwrap(), "\u{432}");
    for bytes in [&b"map\0\0"[..], b"\0map", b"m\0ap\0"] {
        assert!(matches!(
            keymap_text(bytes.to_vec()),
            Err(KeymapTextError::Refused(PortalError::KeymapEmbeddedNul))
        ));
    }
    assert!(matches!(
        keymap_text(vec![b'm', 0xff]),
        Err(KeymapTextError::NotUtf8(_))
    ));
    assert!(matches!(
        keymap_text(vec![0xff, 0, b'm']),
        Err(KeymapTextError::Refused(PortalError::KeymapEmbeddedNul))
    ));
}

#[test]
fn text_that_does_not_compile_is_refused() {
    let none = |_: String| -> Option<u8> { None };
    assert!(matches!(
        parse_keymap_bytes(b"map".to_vec(), none),
        Err(KeymapTextError::Refused(PortalError::KeymapNotLoaded))
    ));
    let never = |_: String| -> Option<u8> { panic!("compiled") };
    assert!(matches!(
        parse_keymap_bytes(vec![0xc3], never),
        Err(KeymapTextError::NotUtf8(_))
    ));
    assert_eq!(
        parse_keymap_bytes(b"map\0".to_vec(), |text: String| Some(text.len())).unwrap(),
        3
    );
}

#[test]
fn keymap_file_has_to_be_regular_and_long_enough() {
    assert_eq!(check_keymap_file(true, 100, 100), Ok(()));
    assert_eq!(check_keymap_file(true, 101, 100), Ok(()));
    assert_eq!(
        check_keymap_file(true, 99, 100),
        Err(PortalError::KeymapNotBoundedFile)
    );
    assert_eq!(
        check_keymap_file(false, 100, 100),
        Err(PortalError::KeymapNotBoundedFile)
    );
}
