//! What the keys of the shortcut are, whatever the way in which they are looked for.
use vstd::prelude::*;

use crate::error::PortalError;
use crate::keymap::{Extent, KeyReading, KeymapView, Modifier};
use crate::shortcut::PasteKeys;

verus! {

/// Whether `key` is the least number such that a key with this keycode, counted from 8, is
/// as asked for. It is missing where there is no such key from 8 on.
pub open spec fn is_least(
    keys: Seq<KeyReading>,
    asked: spec_fn(KeyReading) -> bool,
    key: Option<u32>,
) -> bool {
    match key {
        Some(key) => {
            &&& exists|i: int|
                0 <= i < keys.len() && asked(#[trigger] keys[i]) && keys[i].code == key + 8
            &&& forall|i: int|
                0 <= i < keys.len() && asked(#[trigger] keys[i]) && keys[i].code >= 8
                    ==> keys[i].code >= key + 8
        },
        None => forall|i: int|
            0 <= i < keys.len() && asked(#[trigger] keys[i]) ==> keys[i].code < 8,
    }
}

/// Whether one of the symbols is on a key.
pub open spec fn has_any(key: KeyReading, symbols: Seq<u32>) -> bool {
    exists|i: int| 0 <= i < symbols.len() && key.symbols@.contains(#[trigger] symbols[i])
}

/// What is found is the least there is.
proof fn lemma_found_is_least(
    keys: Seq<KeyReading>,
    wanted: spec_fn(KeyReading) -> bool,
    asked: spec_fn(KeyReading) -> bool,
)
    requires
        crate::keymap::ascending(keys),
        forall|key: KeyReading| #[trigger] wanted(key) <==> asked(key),
    ensures
        is_least(keys, asked, crate::keymap::first_key(keys, wanted)),
{
    crate::keymap::law_found_key_is_lowest(keys, wanted);
    let found = crate::keymap::first_key(keys, wanted);
    if found is Some {
        let at = choose|at: int| #[trigger]
            crate::keymap::is_lowest_at(keys, wanted, at, found->0);
        assert(wanted(keys[at]) && asked(keys[at]) && keys[at].code == found->0 + 8);
        assert forall|i: int|
            0 <= i < keys.len() && asked(#[trigger] keys[i]) && keys[i].code
                >= 8 implies keys[i].code >= found->0 + 8 by {
            assert(wanted(keys[i]));
        }
    } else {
        assert forall|i: int| 0 <= i < keys.len() && asked(#[trigger] keys[i]) implies keys[i].code
            < 8 by {
            assert(wanted(keys[i]));
        }
    }
}

/// A key that types one of the symbols is one that carries one of them.
proof fn lemma_carries(key: KeyReading, symbols: Seq<u32>)
    ensures
        crate::keymap::carries_symbol(key, symbols) <==> has_any(key, symbols),
{
    if crate::keymap::carries_symbol(key, symbols) {
        let i = choose|i: int|
            0 <= i < key.symbols@.len() && symbols.contains(#[trigger] key.symbols@[i]);
        let j = choose|j: int| 0 <= j < symbols.len() && symbols[j] == key.symbols@[i];
        assert(key.symbols@.contains(symbols[j]));
    }
    if has_any(key, symbols) {
        let j = choose|j: int| 0 <= j < symbols.len() && key.symbols@.contains(
            #[trigger] symbols[j],
        );
        let i = choose|i: int| 0 <= i < key.symbols@.len() && key.symbols@[i] == symbols[j];
        assert(symbols.contains(key.symbols@[i]));
    }
}

/// The search for a symbol gives the least key that types it.
pub proof fn law_symbol_is_found(keys: Seq<KeyReading>, symbol: u32)
    requires
        crate::keymap::ascending(keys),
    ensures
        is_least(
            keys,
            |key: KeyReading| key.symbols@.contains(symbol),
            crate::keymap::first_key(keys, crate::keymap::types_symbol(symbol)),
        ),
{
    lemma_found_is_least(
        keys,
        crate::keymap::types_symbol(symbol),
        |key: KeyReading| key.symbols@.contains(symbol),
    );
}

/// The search for a modifier gives the least key that carries one of the symbols and makes
/// that very modifier effective.
pub proof fn law_modifier_is_found(keys: Seq<KeyReading>, symbols: Seq<u32>)
    requires
        crate::keymap::ascending(keys),
    ensures
        is_least(
            keys,
            |key: KeyReading| has_any(key, symbols) && key.control,
            crate::keymap::first_key(
                keys,
                crate::keymap::holds_modifier(symbols, Modifier::Control),
            ),
        ),
        is_least(
            keys,
            |key: KeyReading| has_any(key, symbols) && key.shift,
            crate::keymap::first_key(keys, crate::keymap::holds_modifier(symbols, Modifier::Shift)),
        ),
{
    assert forall|key: KeyReading| #[trigger]
        crate::keymap::holds_modifier(symbols, Modifier::Control)(key) <==> has_any(key, symbols)
            && key.control by {
        lemma_carries(key, symbols);
    }
    lemma_found_is_least(
        keys,
        crate::keymap::holds_modifier(symbols, Modifier::Control),
        |key: KeyReading| has_any(key, symbols) && key.control,
    );
    assert forall|key: KeyReading| #[trigger]
        crate::keymap::holds_modifier(symbols, Modifier::Shift)(key) <==> has_any(key, symbols)
            && key.shift by {
        lemma_carries(key, symbols);
    }
    lemma_found_is_least(
        keys,
        crate::keymap::holds_modifier(symbols, Modifier::Shift),
        |key: KeyReading| has_any(key, symbols) && key.shift,
    );
}

/// The keys that type a small v.
pub open spec fn types_v() -> spec_fn(KeyReading) -> bool {
    |key: KeyReading| key.symbols@.contains(0x76)
}

/// The keys with a left or right Control symbol that make Control effective.
pub open spec fn is_control() -> spec_fn(KeyReading) -> bool {
    |key: KeyReading|
        (key.symbols@.contains(0xffe3) || key.symbols@.contains(0xffe4)) && key.control
}

/// The keys with a left or right Shift symbol that make Shift effective.
pub open spec fn is_shift() -> spec_fn(KeyReading) -> bool {
    |key: KeyReading| (key.symbols@.contains(0xffe1) || key.symbols@.contains(0xffe2)) && key.shift
}

/// Whether this is the V of a shortcut: the least in the active group, or where that has
/// none the least in the first layout that has one.
pub open spec fn is_v(active: Seq<KeyReading>, layouts: Seq<Seq<KeyReading>>, v: Option<u32>) -> bool {
    if is_least(active, types_v(), None) {
        match v {
            Some(_) => exists|l: int|
                {
                    &&& 0 <= l < layouts.len()
                    &&& is_least(#[trigger] layouts[l], types_v(), v)
                    &&& forall|m: int|
                        0 <= m < l ==> is_least(#[trigger] layouts[m], types_v(), None)
                },
            None => forall|l: int|
                0 <= l < layouts.len() ==> is_least(#[trigger] layouts[l], types_v(), None),
        }
    } else {
        v is Some && is_least(active, types_v(), v)
    }
}

/// Whether this is what looking for the shortcut's keys gives: the first of Control, Shift
/// if it is asked for, and V that is missing, or all of them.
pub open spec fn is_shortcut(
    active: Seq<KeyReading>,
    layouts: Seq<Seq<KeyReading>>,
    shift: bool,
    keys: Result<PasteKeys, PortalError>,
) -> bool {
    match keys {
        Ok(keys) => {
            &&& is_least(active, is_control(), Some(keys.control))
            &&& shift ==> is_least(active, is_shift(), Some(keys.shift))
            &&& !shift ==> keys.shift == 42
            &&& is_v(active, layouts, Some(keys.v))
        },
        Err(error) => if is_least(active, is_control(), None) {
            error == PortalError::NoControlKey
        } else if shift && is_least(active, is_shift(), None) {
            error == PortalError::NoShiftKey
        } else {
            error == PortalError::NoVKey && is_v(active, layouts, None)
        },
    }
}

/// What is missing is not there.
proof fn lemma_least_or_missing(
    keys: Seq<KeyReading>,
    asked: spec_fn(KeyReading) -> bool,
    a: Option<u32>,
    b: Option<u32>,
)
    requires
        is_least(keys, asked, a),
        is_least(keys, asked, b),
    ensures
        a == b,
{
    if a is Some {
        let i = choose|i: int|
            0 <= i < keys.len() && asked(#[trigger] keys[i]) && keys[i].code == a->0 + 8;
        assert(asked(keys[i]));
    }
    if b is Some {
        let i = choose|i: int|
            0 <= i < keys.len() && asked(#[trigger] keys[i]) && keys[i].code == b->0 + 8;
        assert(asked(keys[i]));
    }
}

/// The V in a group.
proof fn lemma_v_is_least(keys: Seq<KeyReading>)
    requires
        crate::keymap::ascending(keys),
    ensures
        is_least(
            keys,
            types_v(),
            crate::keymap::first_key(
                keys,
                crate::keymap::types_symbol(crate::keymap::KEYSYM_V),
            ),
        ),
{
    lemma_found_is_least(
        keys,
        crate::keymap::types_symbol(crate::keymap::KEYSYM_V),
        types_v(),
    );
}

/// The V in another layout, where the active group has none.
proof fn lemma_v_elsewhere(keymap: KeymapView, group: u32, from: int)
    requires
        keymap.wf(),
        0 <= from <= keymap.layouts.len(),
        is_least(keymap.keys_in(group), types_v(), None),
        forall|m: int|
            0 <= m < from ==> is_least(#[trigger] keymap.layouts[m], types_v(), None),
    ensures
        is_v(
            keymap.keys_in(group),
            keymap.layouts,
            crate::keymap::v_in_other_layout(keymap, group, from),
        ),
    decreases keymap.layouts.len() - from,
{
    if from < keymap.layouts.len() {
        lemma_v_is_least(keymap.layouts[from]);
        let here = crate::keymap::first_key(
            keymap.layouts[from],
            crate::keymap::types_symbol(crate::keymap::KEYSYM_V),
        );
        if here is None || from == group {
            lemma_v_elsewhere(keymap, group, from + 1);
        }
    }
}

/// The shortcut has the least Control key, the least Shift key where Shift is asked for, and
/// the least V of the active group. Another layout's V is used only where that has none, and
/// an error says what is missing.
pub proof fn law_shortcut_is_resolved(
    keymap: KeymapView,
    group: u32,
    shift: bool,
)
    requires
        keymap.wf(),
    ensures
        is_shortcut(
            if group < keymap.layouts.len() {
                keymap.layouts[group as int]
            } else {
                keymap.beyond
            },
            keymap.layouts,
            shift,
            crate::keymap::resolved_keys(keymap, group, shift),
        ),
{
    let active = keymap.keys_in(group);
    assert(crate::keymap::ascending(active));
    let controls = seq![crate::keymap::KEYSYM_CONTROL_L, crate::keymap::KEYSYM_CONTROL_R];
    let shifts = seq![crate::keymap::KEYSYM_SHIFT_L, crate::keymap::KEYSYM_SHIFT_R];
    assert forall|key: KeyReading| #[trigger]
        crate::keymap::holds_control()(key) <==> is_control()(key) by {
        lemma_carries(key, controls);
        assert(controls[0] == 0xffe3 && controls[1] == 0xffe4);
    }
    assert forall|key: KeyReading| #[trigger]
        crate::keymap::holds_shift()(key) <==> is_shift()(key) by {
        lemma_carries(key, shifts);
        assert(shifts[0] == 0xffe1 && shifts[1] == 0xffe2);
    }
    lemma_found_is_least(active, crate::keymap::holds_control(), is_control());
    lemma_found_is_least(active, crate::keymap::holds_shift(), is_shift());
    lemma_v_is_least(active);
    let control = crate::keymap::control_position(keymap, group);
    let shift_key = crate::keymap::shift_position(keymap, group);
    let v = crate::keymap::first_key(
        active,
        crate::keymap::types_symbol(crate::keymap::KEYSYM_V),
    );
    if is_least(active, is_control(), None) {
        lemma_least_or_missing(active, is_control(), None, control);
    }
    if is_least(active, is_shift(), None) {
        lemma_least_or_missing(active, is_shift(), None, shift_key);
    }
    if is_least(active, types_v(), None) {
        lemma_least_or_missing(active, types_v(), None, v);
        lemma_v_elsewhere(keymap, group, 0);
    }
    assert(is_v(active, keymap.layouts, crate::keymap::v_position(keymap, group)));
}

/// Whether keys are a whole group of a compiled keymap: one for each keycode from the lowest
/// to the highest, in order, with what the reader says of that keycode in that group.
pub open spec fn is_whole_group<K, F: Fn(&K, u32, u32) -> (Vec<u32>, bool, bool)>(
    keys: Seq<KeyReading>,
    compiled: K,
    group: u32,
    extent: Extent,
    read: F,
) -> bool {
    &&& extent.lowest > extent.highest ==> keys.len() == 0
    &&& extent.lowest <= extent.highest ==> keys.len() == 1 + extent.highest - extent.lowest
    &&& forall|i: int|
        0 <= i < keys.len() ==> {
            let key = #[trigger] keys[i];
            &&& key.code == extent.lowest + i
            &&& call_ensures(
                read,
                (&compiled, group, key.code),
                (key.symbols, key.control, key.shift),
            )
        }
}

/// Reading a group gives the whole of it, in the order of the keycodes.
pub proof fn law_group_is_read<K, F: Fn(&K, u32, u32) -> (Vec<u32>, bool, bool)>(
    keys: Seq<KeyReading>,
    compiled: K,
    group: u32,
    extent: Extent,
    read: F,
)
    requires
        crate::keymap::is_read_by(keys, compiled, group, extent.lowest, extent.highest, read),
    ensures
        is_whole_group(keys, compiled, group, extent, read),
        crate::keymap::ascending(keys),
{
}

/// Reading a keymap for an effective group gives the whole of each of its layouts and the
/// whole of the effective group, and these are what is searched.
pub proof fn law_keymap_is_read<K, F: Fn(&K, u32, u32) -> (Vec<u32>, bool, bool)>(
    table: KeymapView,
    compiled: K,
    extent: Extent,
    group: u32,
    read: F,
)
    requires
        table.is_table_of(compiled, extent, group, read),
    ensures
        table.wf(),
        table.layouts.len() == extent.layouts,
        forall|l: u32|
            l < extent.layouts ==> is_whole_group(
                #[trigger] table.layouts[l as int],
                compiled,
                l,
                extent,
                read,
            ),
        group >= extent.layouts ==> is_whole_group(table.beyond, compiled, group, extent, read),
        forall|g: u32| #[trigger] table.covers(g) <==> g < extent.layouts || g == group,
        forall|g: u32|
            #[trigger] table.keys_in(g) == if g < extent.layouts {
                table.layouts[g as int]
            } else {
                table.beyond
            },
{
}

} // verus!
