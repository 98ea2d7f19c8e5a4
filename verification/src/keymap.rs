//! Finding the keys of the paste shortcut in the compositor's keymap.
use vstd::prelude::*;

use crate::error::PortalError;
use crate::shortcut::{default_paste_keys, PasteKeys, KEY_SHIFT};

verus! {

/// XKB keycodes are evdev keycodes shifted up by this much.
pub const EVDEV_OFFSET: u32 = 8;

/// Keysym of the letter v.
pub const KEYSYM_V: u32 = 0x76;

/// Keysyms of the Shift and Control keys, left and right.
pub const KEYSYM_SHIFT_L: u32 = 0xffe1;

pub const KEYSYM_SHIFT_R: u32 = 0xffe2;

pub const KEYSYM_CONTROL_L: u32 = 0xffe3;

pub const KEYSYM_CONTROL_R: u32 = 0xffe4;

/// What one key does in one group of a compiled keymap.
#[derive(Debug)]
pub struct KeyReading {
    /// The XKB keycode.
    pub code: u32,
    /// The keysyms on the key's first level.
    pub symbols: Vec<u32>,
    /// Whether Control is effective while this key alone is held down.
    pub control: bool,
    /// Whether Shift is effective while this key alone is held down.
    pub shift: bool,
}

/// What a compiled keymap says of its keys: for each group, every key from the
/// lowest keycode to the highest.
#[derive(Debug)]
pub struct Keymap {
    layouts: Vec<Vec<KeyReading>>,
    beyond: Vec<KeyReading>,
    read_for: u32,
}

/// The keycodes and the layouts that a compiled keymap has.
#[derive(Clone, Copy, Debug, PartialEq, Eq, Structural)]
pub struct Extent {
    pub lowest: u32,
    pub highest: u32,
    pub layouts: u32,
}

/// What a compiled keymap says of its keys, as mathematics.
pub struct KeymapView {
    /// The keys in each layout of the keymap.
    pub layouts: Seq<Seq<KeyReading>>,
    /// The keys in the effective group that the keymap was read for, where that is
    /// none of the layouts. The keymap's own out-of-range rules say what they do.
    pub beyond: Seq<KeyReading>,
    /// The effective group that the keymap was read for.
    pub read_for: u32,
}

impl View for Keymap {
    type V = KeymapView;

    closed spec fn view(&self) -> KeymapView {
        KeymapView {
            layouts: self.layouts@.map_values(|keys: Vec<KeyReading>| keys@),
            beyond: self.beyond@,
            read_for: self.read_for,
        }
    }
}

/// A modifier that the shortcut holds down.
#[derive(Clone, Copy, Debug, PartialEq, Eq, Structural)]
pub enum Modifier {
    Control,
    Shift,
}

impl Modifier {
    /// Whether holding the key down makes the modifier effective.
    pub open spec fn held_by(self, key: KeyReading) -> bool {
        match self {
            Modifier::Control => key.control,
            Modifier::Shift => key.shift,
        }
    }
}

/// Whether keys are listed from the lowest keycode to the highest.
pub open spec fn ascending(keys: Seq<KeyReading>) -> bool {
    forall|i: int, j: int| 0 <= i < j < keys.len() ==> keys[i].code < keys[j].code
}

impl KeymapView {
    /// Every group lists its keys from the lowest keycode to the highest.
    pub open spec fn wf(self) -> bool {
        &&& forall|l: int| 0 <= l < self.layouts.len() ==> ascending(#[trigger] self.layouts[l])
        &&& ascending(self.beyond)
    }

    /// Whether the keys in a group were read: it is a layout, or the effective group.
    pub open spec fn covers(self, group: u32) -> bool {
        group < self.layouts.len() || group == self.read_for
    }

    /// The keys in a group, in the order in which they are searched.
    pub open spec fn keys_in(self, group: u32) -> Seq<KeyReading>
        recommends
            self.covers(group),
    {
        if group < self.layouts.len() {
            self.layouts[group as int]
        } else {
            self.beyond
        }
    }
}

/// Whether `keys` is what reading one group of a compiled keymap gives: every key from
/// `lowest` to `highest`, each as `read` reads it.
pub open spec fn is_read_by<K, F: Fn(&K, u32, u32) -> (Vec<u32>, bool, bool)>(
    keys: Seq<KeyReading>,
    compiled: K,
    group: u32,
    lowest: u32,
    highest: u32,
    read: F,
) -> bool {
    &&& keys.len() == if lowest <= highest {
        highest - lowest + 1
    } else {
        0
    }
    &&& forall|i: int|
        0 <= i < keys.len() ==> {
            &&& (#[trigger] keys[i]).code == lowest + i
            &&& call_ensures(
                read,
                (&compiled, group, keys[i].code),
                (keys[i].symbols, keys[i].control, keys[i].shift),
            )
        }
}

impl KeymapView {
    /// Whether this is what reading a compiled keymap for an effective group gives: the
    /// keys of each of its layouts, and those in the effective group.
    pub open spec fn is_table_of<K, F: Fn(&K, u32, u32) -> (Vec<u32>, bool, bool)>(
        self,
        compiled: K,
        extent: Extent,
        group: u32,
        read: F,
    ) -> bool {
        &&& self.wf()
        &&& self.read_for == group
        &&& self.layouts.len() == extent.layouts
        &&& forall|l: u32|
            l < extent.layouts ==> is_read_by(
                #[trigger] self.layouts[l as int],
                compiled,
                l,
                extent.lowest,
                extent.highest,
                read,
            )
        &&& is_read_by(
            self.keys_in(group),
            compiled,
            group,
            extent.lowest,
            extent.highest,
            read,
        )
    }
}

/// Whether `read` can read every key of a compiled keymap, in its layouts and in an
/// effective group.
pub open spec fn can_read<K, F: Fn(&K, u32, u32) -> (Vec<u32>, bool, bool)>(
    read: F,
    compiled: K,
    extent: Extent,
    group: u32,
) -> bool {
    forall|g: u32, code: u32|
        (g < extent.layouts || g == group) && extent.lowest <= code <= extent.highest
            ==> #[trigger] call_requires(read, (&compiled, g, code))
}

/// Reads one group of a compiled keymap, from the lowest keycode to the highest. `read`
/// says of a group and a keycode what the key types, and whether it makes Control and
/// Shift effective.
pub fn read_group<K, F: Fn(&K, u32, u32) -> (Vec<u32>, bool, bool)>(
    compiled: &K,
    group: u32,
    lowest: u32,
    highest: u32,
    read: &F,
) -> (keys: Vec<KeyReading>)
    requires
        forall|code: u32|
            lowest <= code <= highest ==> #[trigger] call_requires(*read, (compiled, group, code)),
    ensures
        is_read_by(keys@, *compiled, group, lowest, highest, *read),
        ascending(keys@),
{
    let mut keys: Vec<KeyReading> = Vec::new();
    if lowest > highest {
        return keys;
    }
    let mut code: u32 = lowest;
    loop
        invariant
            lowest <= code <= highest,
            forall|code: u32|
                lowest <= code <= highest ==> #[trigger] call_requires(
                    *read,
                    (compiled, group, code),
                ),
            keys@.len() == code - lowest,
            forall|i: int|
                0 <= i < keys@.len() ==> {
                    &&& (#[trigger] keys@[i]).code == lowest + i
                    &&& call_ensures(
                        *read,
                        (compiled, group, keys@[i].code),
                        (keys@[i].symbols, keys@[i].control, keys@[i].shift),
                    )
                },
        decreases highest - code,
    {
        let (symbols, control, shift) = (*read)(compiled, group, code);
        keys.push(KeyReading { code, symbols, control, shift });
        if code == highest {
            return keys;
        }
        code += 1;
    }
}

/// Reads a compiled keymap for an effective group: the keys of each of its layouts, and
/// those in the effective group where it is none of them.
pub fn read_keymap<K, F: Fn(&K, u32, u32) -> (Vec<u32>, bool, bool)>(
    compiled: &K,
    extent: Extent,
    group: u32,
    read: F,
) -> (keymap: Keymap)
    requires
        can_read(read, *compiled, extent, group),
    ensures
        keymap@.is_table_of(*compiled, extent, group, read),
{
    let lowest = extent.lowest;
    let highest = extent.highest;
    let mut tables: Vec<Vec<KeyReading>> = Vec::new();
    let mut layout: u32 = 0;
    while layout < extent.layouts
        invariant
            layout <= extent.layouts,
            tables@.len() == layout,
            lowest == extent.lowest,
            highest == extent.highest,
            can_read(read, *compiled, extent, group),
            forall|l: u32|
                l < layout ==> {
                    &&& is_read_by(
                        (#[trigger] tables@[l as int])@,
                        *compiled,
                        l,
                        lowest,
                        highest,
                        read,
                    )
                    &&& ascending(tables@[l as int]@)
                },
        decreases extent.layouts - layout,
    {
        tables.push(read_group(compiled, layout, lowest, highest, &read));
        layout += 1;
    }
    let beyond = if group < extent.layouts {
        Vec::new()
    } else {
        read_group(compiled, group, lowest, highest, &read)
    };
    proof {
        let views = tables@.map_values(|keys: Vec<KeyReading>| keys@);
        assert forall|l: int| 0 <= l < views.len() implies ascending(#[trigger] views[l]) by {
            assert(views[l] == tables@[l as u32 as int]@);
        }
        assert forall|l: u32| l < extent.layouts implies is_read_by(
            #[trigger] views[l as int],
            *compiled,
            l,
            lowest,
            highest,
            read,
        ) by {
            assert(views[l as int] == tables@[l as int]@);
        }
    }
    Keymap { layouts: tables, beyond, read_for: group }
}

impl Keymap {
    /// Keymaps are made by reading, which goes from the lowest keycode to the highest.
    #[verifier::type_invariant]
    spec fn is_read(self) -> bool {
        self@.wf() && self.layouts@.len() <= u32::MAX
    }

    /// The number of layouts in the keymap.
    pub fn num_layouts(&self) -> (layouts: u32)
        ensures
            layouts == self@.layouts.len(),
    {
        proof {
            use_type_invariant(self);
        }
        self.layouts.len() as u32
    }
}

/// The evdev keycode of the first key that is wanted and that has one.
pub open spec fn first_key(keys: Seq<KeyReading>, wanted: spec_fn(KeyReading) -> bool) -> Option<
    u32,
>
    decreases keys.len(),
{
    if keys.len() == 0 {
        None
    } else if keys[0].code >= EVDEV_OFFSET && wanted(keys[0]) {
        Some((keys[0].code - EVDEV_OFFSET) as u32)
    } else {
        first_key(keys.drop_first(), wanted)
    }
}

/// Whether the key at `at` is wanted, has this evdev keycode, and no wanted key has a
/// lower one.
pub open spec fn is_lowest_at(
    keys: Seq<KeyReading>,
    wanted: spec_fn(KeyReading) -> bool,
    at: int,
    key: u32,
) -> bool {
    &&& 0 <= at < keys.len()
    &&& wanted(keys[at])
    &&& keys[at].code == key + EVDEV_OFFSET
    &&& forall|j: int|
        0 <= j < keys.len() && wanted(#[trigger] keys[j]) && keys[j].code >= EVDEV_OFFSET
            ==> keys[at].code <= keys[j].code
}

/// Whether this is the lowest evdev keycode of a wanted key, or nothing where no
/// wanted key has one.
pub open spec fn is_lowest(
    keys: Seq<KeyReading>,
    wanted: spec_fn(KeyReading) -> bool,
    key: Option<u32>,
) -> bool {
    match key {
        Some(key) => exists|at: int| #[trigger] is_lowest_at(keys, wanted, at, key),
        None => forall|j: int|
            0 <= j < keys.len() && wanted(#[trigger] keys[j]) ==> keys[j].code < EVDEV_OFFSET,
    }
}

/// The lesser of two keycodes, of which either may be missing.
pub open spec fn lesser(a: Option<u32>, b: Option<u32>) -> Option<u32> {
    match (a, b) {
        (Some(x), Some(y)) => Some(
            if x <= y {
                x
            } else {
                y
            },
        ),
        (Some(_), None) => a,
        (None, _) => b,
    }
}

/// The keys that type a symbol.
pub open spec fn types_symbol(symbol: u32) -> spec_fn(KeyReading) -> bool {
    |key: KeyReading| key.symbols@.contains(symbol)
}

/// Whether a key carries one of the symbols.
pub open spec fn carries_symbol(key: KeyReading, symbols: Seq<u32>) -> bool {
    exists|i: int| 0 <= i < key.symbols@.len() && symbols.contains(#[trigger] key.symbols@[i])
}

/// The keys that carry one of the symbols and really hold the modifier.
pub open spec fn holds_modifier(symbols: Seq<u32>, modifier: Modifier) -> spec_fn(
    KeyReading,
) -> bool {
    |key: KeyReading| carries_symbol(key, symbols) && modifier.held_by(key)
}

/// The keys that carry a Control symbol and really hold Control.
pub open spec fn holds_control() -> spec_fn(KeyReading) -> bool {
    holds_modifier(seq![KEYSYM_CONTROL_L, KEYSYM_CONTROL_R], Modifier::Control)
}

/// The keys that carry a Shift symbol and really hold Shift.
pub open spec fn holds_shift() -> spec_fn(KeyReading) -> bool {
    holds_modifier(seq![KEYSYM_SHIFT_L, KEYSYM_SHIFT_R], Modifier::Shift)
}

/// The position of V in the first layout, from `from` on and other than `group`,
/// that has one.
pub open spec fn v_in_other_layout(keymap: KeymapView, group: u32, from: int) -> Option<u32>
    decreases keymap.layouts.len() - from,
{
    if from < 0 || from >= keymap.layouts.len() {
        None
    } else {
        let here = first_key(keymap.layouts[from], types_symbol(KEYSYM_V));
        if from != group && here is Some {
            here
        } else {
            v_in_other_layout(keymap, group, from + 1)
        }
    }
}

/// The position of V: that of the active group, or else of another layout.
pub open spec fn v_position(keymap: KeymapView, group: u32) -> Option<u32> {
    let active = first_key(keymap.keys_in(group), types_symbol(KEYSYM_V));
    if active is Some {
        active
    } else {
        v_in_other_layout(keymap, group, 0)
    }
}

/// The key that holds Control in a group.
pub open spec fn control_position(keymap: KeymapView, group: u32) -> Option<u32> {
    first_key(keymap.keys_in(group), holds_control())
}

/// The key that holds Shift in a group.
pub open spec fn shift_position(keymap: KeymapView, group: u32) -> Option<u32> {
    first_key(keymap.keys_in(group), holds_shift())
}

/// The keys of the shortcut in a keymap whose effective group is `group`.
pub open spec fn resolved_keys(keymap: KeymapView, group: u32, shift: bool) -> Result<
    PasteKeys,
    PortalError,
> {
    match control_position(keymap, group) {
        None => Err(PortalError::NoControlKey),
        Some(control) => if shift && shift_position(keymap, group) is None {
            Err(PortalError::NoShiftKey)
        } else {
            match v_position(keymap, group) {
                None => Err(PortalError::NoVKey),
                Some(v) => Ok(
                    PasteKeys {
                        control,
                        shift: if shift {
                            shift_position(keymap, group)->0
                        } else {
                            KEY_SHIFT
                        },
                        v,
                    },
                ),
            }
        },
    }
}

/// Whether a list of keysyms holds one of them.
fn contains_symbol(symbols: &[u32], symbol: u32) -> (found: bool)
    ensures
        found == symbols@.contains(symbol),
{
    let mut i: usize = 0;
    while i < symbols.len()
        invariant
            i <= symbols@.len(),
            forall|j: int| 0 <= j < i ==> symbols@[j] != symbol,
        decreases symbols@.len() - i,
    {
        if symbols[i] == symbol {
            return true;
        }
        i += 1;
    }
    false
}

/// Whether a key carries one of the symbols.
fn carries_one_of(key: &KeyReading, symbols: &[u32]) -> (found: bool)
    ensures
        found == carries_symbol(*key, symbols@),
{
    let mut i: usize = 0;
    while i < key.symbols.len()
        invariant
            i <= key.symbols@.len(),
            forall|j: int| 0 <= j < i ==> !symbols@.contains(#[trigger] key.symbols@[j]),
        decreases key.symbols@.len() - i,
    {
        if contains_symbol(symbols, key.symbols[i]) {
            return true;
        }
        i += 1;
    }
    false
}

/// The keys in a group of a keymap.
fn group_keys(keymap: &Keymap, group: u32) -> (keys: &Vec<KeyReading>)
    ensures
        keys@ == keymap@.keys_in(group),
{
    if (group as usize) < keymap.layouts.len() {
        &keymap.layouts[group as usize]
    } else {
        &keymap.beyond
    }
}

/// The evdev keycode of the first of the keys that types a symbol.
fn first_key_typing(keys: &Vec<KeyReading>, symbol: u32) -> (key: Option<u32>)
    ensures
        key == first_key(keys@, types_symbol(symbol)),
{
    let ghost wanted = types_symbol(symbol);
    let mut i: usize = 0;
    proof {
        assert(keys@.skip(0) =~= keys@);
    }
    while i < keys.len()
        invariant
            i <= keys@.len(),
            wanted == types_symbol(symbol),
            first_key(keys@, wanted) == first_key(keys@.skip(i as int), wanted),
        decreases keys@.len() - i,
    {
        let key = &keys[i];
        proof {
            assert(keys@.skip(i as int)[0] == *key);
            assert(keys@.skip(i as int).drop_first() =~= keys@.skip(i + 1));
        }
        if key.code >= EVDEV_OFFSET && contains_symbol(key.symbols.as_slice(), symbol) {
            return Some(key.code - EVDEV_OFFSET);
        }
        i += 1;
    }
    None
}

/// The lowest evdev keycode in a group whose key types a symbol.
pub fn key_for_symbol(keymap: &Keymap, group: u32, symbol: u32) -> (key: Option<u32>)
    requires
        keymap@.covers(group),
    ensures
        key == first_key(keymap@.keys_in(group), types_symbol(symbol)),
        is_lowest(keymap@.keys_in(group), types_symbol(symbol), key),
{
    proof {
        use_type_invariant(keymap);
        law_found_key_is_lowest(keymap@.keys_in(group), types_symbol(symbol));
    }
    first_key_typing(group_keys(keymap, group), symbol)
}

/// The lowest evdev keycode in a group whose key carries one of the symbols and really
/// holds the modifier.
pub fn key_for_modifier(
    keymap: &Keymap,
    group: u32,
    symbols: &[u32],
    modifier: Modifier,
) -> (key: Option<u32>)
    requires
        keymap@.covers(group),
    ensures
        key == first_key(keymap@.keys_in(group), holds_modifier(symbols@, modifier)),
        is_lowest(keymap@.keys_in(group), holds_modifier(symbols@, modifier), key),
{
    proof {
        use_type_invariant(keymap);
        law_found_key_is_lowest(keymap@.keys_in(group), holds_modifier(symbols@, modifier));
    }
    let keys = group_keys(keymap, group);
    let ghost wanted = holds_modifier(symbols@, modifier);
    let mut i: usize = 0;
    proof {
        assert(keys@.skip(0) =~= keys@);
    }
    while i < keys.len()
        invariant
            i <= keys@.len(),
            keys@ == keymap@.keys_in(group),
            wanted == holds_modifier(symbols@, modifier),
            is_lowest(keys@, wanted, first_key(keys@, wanted)),
            first_key(keys@, wanted) == first_key(keys@.skip(i as int), wanted),
        decreases keys@.len() - i,
    {
        let key = &keys[i];
        proof {
            assert(keys@.skip(i as int)[0] == *key);
            assert(keys@.skip(i as int).drop_first() =~= keys@.skip(i + 1));
        }
        let held = match modifier {
            Modifier::Control => key.control,
            Modifier::Shift => key.shift,
        };
        if key.code >= EVDEV_OFFSET && carries_one_of(key, symbols) && held {
            return Some(key.code - EVDEV_OFFSET);
        }
        i += 1;
    }
    None
}

/// The keys of the paste shortcut.
///
/// Groups without Latin letters often have no V. The active group's position
/// comes first (so a Dvorak user's V stays where it is), then that of another
/// layout of the same keymap.
pub fn resolve_paste_keys(keymap: &Keymap, group: u32, shift: bool) -> (keys: Result<
    PasteKeys,
    PortalError,
>)
    requires
        keymap@.covers(group),
    ensures
        keys == resolved_keys(keymap@, group, shift),
        keymap@.wf(),
{
    proof {
        use_type_invariant(keymap);
    }
    let controls: [u32; 2] = [KEYSYM_CONTROL_L, KEYSYM_CONTROL_R];
    proof {
        assert(controls@ =~= seq![KEYSYM_CONTROL_L, KEYSYM_CONTROL_R]);
    }
    let control = match key_for_modifier(keymap, group, controls.as_slice(), Modifier::Control) {
        Some(key) => key,
        None => return Err(PortalError::NoControlKey),
    };
    let shift_key = if shift {
        let shifts: [u32; 2] = [KEYSYM_SHIFT_L, KEYSYM_SHIFT_R];
        proof {
            assert(shifts@ =~= seq![KEYSYM_SHIFT_L, KEYSYM_SHIFT_R]);
        }
        match key_for_modifier(keymap, group, shifts.as_slice(), Modifier::Shift) {
            Some(key) => key,
            None => return Err(PortalError::NoShiftKey),
        }
    } else {
        KEY_SHIFT
    };
    if let Some(v) = key_for_symbol(keymap, group, KEYSYM_V) {
        return Ok(PasteKeys { control, shift: shift_key, v });
    }
    let mut candidate: usize = 0;
    while candidate < keymap.layouts.len()
        invariant
            candidate <= keymap@.layouts.len(),
            keymap@.wf(),
            keymap@.layouts.len() == keymap.layouts@.len(),
            control_position(keymap@, group) == Some(control),
            shift ==> shift_position(keymap@, group) == Some(shift_key),
            !shift ==> shift_key == KEY_SHIFT,
            first_key(keymap@.keys_in(group), types_symbol(KEYSYM_V)) is None,
            v_position(keymap@, group) == v_in_other_layout(keymap@, group, candidate as int),
        decreases keymap@.layouts.len() - candidate,
    {
        if candidate != group as usize {
            if let Some(v) = first_key_typing(&keymap.layouts[candidate], KEYSYM_V) {
                return Ok(PasteKeys { control, shift: shift_key, v });
            }
        }
        candidate += 1;
    }
    Err(PortalError::NoVKey)
}

/// The keys of the paste shortcut on a keyboard. The protocol lets a server send
/// no keymap; it then defines its keycodes, and the US positions are the best
/// guess.
pub fn choose_paste_keys(reading: Option<(Keymap, u32)>, shift: bool) -> (keys: Result<
    PasteKeys,
    PortalError,
>)
    requires
        reading matches Some((keymap, group)) ==> keymap@.covers(group),
    ensures
        keys == match reading {
            Some((keymap, group)) => resolved_keys(keymap@, group, shift),
            None => Ok(crate::shortcut::us_paste_keys()),
        },
        reading matches Some((keymap, _)) ==> keymap@.wf(),
{
    match reading {
        Some((keymap, group)) => resolve_paste_keys(&keymap, group, shift),
        None => Ok(default_paste_keys()),
    }
}

/// Whether the key at `at` has this evdev keycode and is the first wanted key that
/// has one at all.
pub open spec fn is_first_at(
    keys: Seq<KeyReading>,
    wanted: spec_fn(KeyReading) -> bool,
    at: int,
    key: u32,
) -> bool {
    &&& 0 <= at < keys.len()
    &&& wanted(keys[at])
    &&& keys[at].code == key + EVDEV_OFFSET
    &&& forall|j: int| 0 <= j < at && wanted(#[trigger] keys[j]) ==> keys[j].code < EVDEV_OFFSET
}

/// A key that is found is wanted, and comes before every other wanted key that
/// has an evdev keycode. No key is found only where there is none.
pub proof fn law_first_key(keys: Seq<KeyReading>, wanted: spec_fn(KeyReading) -> bool)
    ensures
        first_key(keys, wanted) is Some ==> exists|at: int| #[trigger]
            is_first_at(keys, wanted, at, first_key(keys, wanted)->0),
        first_key(keys, wanted) is None ==> forall|j: int|
            0 <= j < keys.len() && wanted(#[trigger] keys[j]) ==> keys[j].code < EVDEV_OFFSET,
    decreases keys.len(),
{
    if keys.len() > 0 {
        if keys[0].code >= EVDEV_OFFSET && wanted(keys[0]) {
            assert(is_first_at(keys, wanted, 0, first_key(keys, wanted)->0));
        } else {
            let rest = keys.drop_first();
            law_first_key(rest, wanted);
            assert forall|j: int| 0 < j < keys.len() implies #[trigger] keys[j] == rest[j - 1] by {}
            if first_key(rest, wanted) is Some {
                let at = choose|at: int| #[trigger]
                    is_first_at(rest, wanted, at, first_key(rest, wanted)->0);
                assert(is_first_at(keys, wanted, at + 1, first_key(keys, wanted)->0));
            }
        }
    }
}

/// Where keys are listed from the lowest keycode, the key that is found is the
/// lowest that is wanted.
pub proof fn law_found_key_is_lowest(keys: Seq<KeyReading>, wanted: spec_fn(KeyReading) -> bool)
    requires
        ascending(keys),
    ensures
        is_lowest(keys, wanted, first_key(keys, wanted)),
{
    law_first_key(keys, wanted);
    if first_key(keys, wanted) is Some {
        let key = first_key(keys, wanted)->0;
        let at = choose|at: int| #[trigger] is_first_at(keys, wanted, at, key);
        assert(is_lowest_at(keys, wanted, at, key));
    }
}

/// There is one lowest keycode.
pub proof fn law_lowest_is_unique(
    keys: Seq<KeyReading>,
    wanted: spec_fn(KeyReading) -> bool,
    a: Option<u32>,
    b: Option<u32>,
)
    requires
        is_lowest(keys, wanted, a),
        is_lowest(keys, wanted, b),
    ensures
        a == b,
{
    if a is Some {
        let at = choose|at: int| #[trigger] is_lowest_at(keys, wanted, at, a->0);
        assert(wanted(keys[at]));
    }
    if b is Some {
        let at = choose|at: int| #[trigger] is_lowest_at(keys, wanted, at, b->0);
        assert(wanted(keys[at]));
    }
}

/// A key carries one of two lists of symbols joined where it carries one of either.
proof fn lemma_carries_joined(key: KeyReading, first: Seq<u32>, second: Seq<u32>)
    ensures
        carries_symbol(key, first + second) <==> carries_symbol(key, first) || carries_symbol(
            key,
            second,
        ),
{
    assert forall|symbol: u32| #[trigger]
        (first + second).contains(symbol) <==> first.contains(symbol) || second.contains(
            symbol,
        ) by {
        if first.contains(symbol) {
            let i = choose|i: int| 0 <= i < first.len() && first[i] == symbol;
            assert((first + second)[i] == symbol);
        }
        if second.contains(symbol) {
            let i = choose|i: int| 0 <= i < second.len() && second[i] == symbol;
            assert((first + second)[first.len() + i] == symbol);
        }
    }
}

/// The search for a modifier on two lists of symbols joined gives the lesser of what
/// it gives on each, so their order does not matter. On no symbols it gives nothing.
pub proof fn law_symbol_lists_join(
    keymap: KeymapView,
    group: u32,
    first: Seq<u32>,
    second: Seq<u32>,
    modifier: Modifier,
)
    requires
        keymap.wf(),
    ensures
        ({
            let found = |symbols: Seq<u32>|
                first_key(keymap.keys_in(group), holds_modifier(symbols, modifier));
            &&& found(first + second) == lesser(found(first), found(second))
            &&& found(first + second) == found(second + first)
            &&& found(Seq::empty()) is None
        }),
{
    let keys = keymap.keys_in(group);
    lemma_lesser_joined(keys, first, second, modifier);
    lemma_lesser_joined(keys, second, first, modifier);
    law_first_key(keys, holds_modifier(Seq::empty(), modifier));
}

/// The search on joined lists, in one order.
proof fn lemma_lesser_joined(
    keys: Seq<KeyReading>,
    first: Seq<u32>,
    second: Seq<u32>,
    modifier: Modifier,
)
    requires
        ascending(keys),
    ensures
        first_key(keys, holds_modifier(first + second, modifier)) == lesser(
            first_key(keys, holds_modifier(first, modifier)),
            first_key(keys, holds_modifier(second, modifier)),
        ),
{
    let one = holds_modifier(first, modifier);
    let two = holds_modifier(second, modifier);
    let both = holds_modifier(first + second, modifier);
    assert forall|key: KeyReading| #[trigger] both(key) <==> one(key) || two(key) by {
        lemma_carries_joined(key, first, second);
    }
    law_found_key_is_lowest(keys, one);
    law_found_key_is_lowest(keys, two);
    law_found_key_is_lowest(keys, both);
    let joined = lesser(first_key(keys, one), first_key(keys, two));
    assert(is_lowest(keys, both, joined)) by {
        if first_key(keys, one) is Some && joined == first_key(keys, one) {
            let at = choose|at: int| #[trigger]
                is_lowest_at(keys, one, at, first_key(keys, one)->0);
            assert(is_lowest_at(keys, both, at, joined->0));
        } else if first_key(keys, two) is Some {
            let at = choose|at: int| #[trigger]
                is_lowest_at(keys, two, at, first_key(keys, two)->0);
            assert(is_lowest_at(keys, both, at, joined->0));
        }
    }
    law_lowest_is_unique(keys, both, joined, first_key(keys, both));
}

/// Another layout's V is that of the first layout that has one.
proof fn lemma_v_in_other_layout(keymap: KeymapView, group: u32, from: int)
    requires
        0 <= from,
    ensures
        v_in_other_layout(keymap, group, from) matches Some(v) ==> exists|l: int|
            from <= l < keymap.layouts.len() && l != group && #[trigger] first_key(
                keymap.layouts[l],
                types_symbol(KEYSYM_V),
            ) == Some(v) && forall|m: int|
                from <= m < l && m != group ==> #[trigger] first_key(
                    keymap.layouts[m],
                    types_symbol(KEYSYM_V),
                ) is None,
        v_in_other_layout(keymap, group, from) is None ==> forall|m: int|
            from <= m < keymap.layouts.len() && m != group ==> #[trigger] first_key(
                keymap.layouts[m],
                types_symbol(KEYSYM_V),
            ) is None,
    decreases keymap.layouts.len() - from,
{
    if from < keymap.layouts.len() {
        lemma_v_in_other_layout(keymap, group, from + 1);
    }
}

/// Where the active group has a V, the shortcut uses it, whatever the other
/// layouts hold.
pub proof fn law_active_v_is_kept(keymap: KeymapView, group: u32, shift: bool)
    requires
        first_key(keymap.keys_in(group), types_symbol(KEYSYM_V)) is Some,
    ensures
        resolved_keys(keymap, group, shift) matches Ok(keys) ==> Some(keys.v) == first_key(
            keymap.keys_in(group),
            types_symbol(KEYSYM_V),
        ),
        resolved_keys(keymap, group, shift) != Err::<PasteKeys, _>(PortalError::NoVKey),
{
}

/// Where the active group has no V, the shortcut uses that of the first other
/// layout that has one.
pub proof fn law_v_falls_back(keymap: KeymapView, group: u32, shift: bool)
    requires
        first_key(keymap.keys_in(group), types_symbol(KEYSYM_V)) is None,
    ensures
        resolved_keys(keymap, group, shift) matches Ok(keys) ==> exists|l: int|
            0 <= l < keymap.layouts.len() && l != group && #[trigger] first_key(
                keymap.layouts[l],
                types_symbol(KEYSYM_V),
            ) == Some(keys.v) && forall|m: int|
                0 <= m < l && m != group ==> #[trigger] first_key(
                    keymap.layouts[m],
                    types_symbol(KEYSYM_V),
                ) is None,
{
    lemma_v_in_other_layout(keymap, group, 0);
}

/// The shortcut lacks a V only where no group of the keymap has one.
pub proof fn law_no_v_only_without_any(keymap: KeymapView, group: u32, shift: bool, layout: int)
    requires
        resolved_keys(keymap, group, shift) == Err::<PasteKeys, _>(PortalError::NoVKey),
        0 <= layout < keymap.layouts.len(),
    ensures
        first_key(keymap.keys_in(group), types_symbol(KEYSYM_V)) is None,
        first_key(keymap.layouts[layout], types_symbol(KEYSYM_V)) is None,
{
    lemma_v_in_other_layout(keymap, group, 0);
}

/// The Control key of the shortcut is the lowest that carries a Control symbol and
/// really makes Control effective; so is its Shift key for Shift, where Shift is asked
/// for.
pub proof fn law_modifiers_are_real(keymap: KeymapView, group: u32, shift: bool, keys: PasteKeys)
    requires
        keymap.wf(),
        resolved_keys(keymap, group, shift) == Ok::<_, PortalError>(keys),
    ensures
        is_lowest(keymap.keys_in(group), holds_control(), Some(keys.control)),
        shift ==> is_lowest(keymap.keys_in(group), holds_shift(), Some(keys.shift)),
{
    law_found_key_is_lowest(keymap.keys_in(group), holds_control());
    law_found_key_is_lowest(keymap.keys_in(group), holds_shift());
}

/// Shift matters only where it is asked for: without it the shortcut never fails
/// for want of a Shift key, and has the Control and V keys that it has with it.
pub proof fn law_shift_only_when_asked(keymap: KeymapView, group: u32)
    ensures
        resolved_keys(keymap, group, false) != Err::<PasteKeys, _>(PortalError::NoShiftKey),
        resolved_keys(keymap, group, true) matches Ok(keys) ==> resolved_keys(keymap, group, false)
            == Ok::<_, PortalError>(PasteKeys { shift: KEY_SHIFT, ..keys }),
{
}

} // verus!
