//! The paste shortcut as key presses.
use vstd::prelude::*;

verus! {

/// Evdev keycodes of a US keyboard.
pub const KEY_CTRL: u32 = 29;

pub const KEY_SHIFT: u32 = 42;

pub const KEY_V: u32 = 47;

/// The evdev keycodes that the shortcut presses.
#[derive(Clone, Copy, Debug, PartialEq, Eq, Structural)]
pub struct PasteKeys {
    pub control: u32,
    pub shift: u32,
    pub v: u32,
}

/// The keys of a US keyboard, for a device whose server sends no keymap.
pub open spec fn us_paste_keys() -> PasteKeys {
    PasteKeys { control: KEY_CTRL, shift: KEY_SHIFT, v: KEY_V }
}

/// The keys of a US keyboard, for a device whose server sends no keymap.
pub fn default_paste_keys() -> (keys: PasteKeys)
    ensures
        keys == us_paste_keys(),
{
    PasteKeys { control: KEY_CTRL, shift: KEY_SHIFT, v: KEY_V }
}

/// Whether a key goes down or up.
#[derive(Clone, Copy, Debug, PartialEq, Eq, Structural)]
pub enum KeyState {
    Press,
    Released,
}

/// A request to the server that a paste consists of.
#[derive(Clone, Copy, Debug, PartialEq, Eq, Structural)]
pub enum Request {
    /// Start the paste with this number on the device.
    StartEmulating { serial: u32, sequence: u32 },
    /// Move a key of the keyboard.
    Key { key: u32, state: KeyState },
    /// End the device's hardware event, at a time in microseconds.
    Frame { serial: u32, timestamp: u64 },
    /// Stop typing on the device.
    StopEmulating { serial: u32 },
}

/// The shortcut: the modifiers go down, V goes down and up, the modifiers go up
/// in reverse.
pub open spec fn key_moves(shift: bool, keys: PasteKeys) -> Seq<(u32, KeyState)> {
    if shift {
        seq![
            (keys.control, KeyState::Press),
            (keys.shift, KeyState::Press),
            (keys.v, KeyState::Press),
            (keys.v, KeyState::Released),
            (keys.shift, KeyState::Released),
            (keys.control, KeyState::Released),
        ]
    } else {
        seq![
            (keys.control, KeyState::Press),
            (keys.v, KeyState::Press),
            (keys.v, KeyState::Released),
            (keys.control, KeyState::Released),
        ]
    }
}

/// How many key moves the shortcut has, whatever its keys.
pub open spec fn number_of_moves(shift: bool) -> nat {
    if shift {
        6
    } else {
        4
    }
}

/// The requests of a paste: every key move ends a hardware event of its own, one
/// microsecond after the last.
pub open spec fn paste_requests(
    serial: u32,
    sequence: u32,
    timestamp: u64,
    moves: Seq<(u32, KeyState)>,
) -> Seq<Request> {
    seq![Request::StartEmulating { serial, sequence }] + Seq::new(
        2 * moves.len(),
        |i: int|
            if i % 2 == 0 {
                Request::Key { key: moves[i / 2].0, state: moves[i / 2].1 }
            } else {
                Request::Frame { serial, timestamp: (timestamp + i / 2) as u64 }
            },
    ) + seq![Request::StopEmulating { serial }]
}

/// The key moves of the shortcut, with Shift for a terminal.
pub fn paste_sequence(shift: bool, keys: PasteKeys) -> (moves: Vec<(u32, KeyState)>)
    ensures
        moves@ == key_moves(shift, keys),
{
    let mut moves: Vec<(u32, KeyState)> = Vec::new();
    moves.push((keys.control, KeyState::Press));
    if shift {
        moves.push((keys.shift, KeyState::Press));
    }
    moves.push((keys.v, KeyState::Press));
    moves.push((keys.v, KeyState::Released));
    if shift {
        moves.push((keys.shift, KeyState::Released));
    }
    moves.push((keys.control, KeyState::Released));
    proof {
        assert(moves@ =~= key_moves(shift, keys));
    }
    moves
}

/// A clock's reading in microseconds.
pub open spec fn micros(seconds: int, nanoseconds: int) -> int {
    seconds * 1_000_000 + nanoseconds / 1_000
}

/// A monotonic clock's reading in microseconds.
pub fn clock_micros(seconds: u64, nanoseconds: u64) -> (micros: u64)
    requires
        seconds * 1_000_000 + nanoseconds / 1_000 <= u64::MAX,
    ensures
        micros == seconds * 1_000_000 + nanoseconds / 1_000,
        micros == crate::shortcut::micros(seconds as int, nanoseconds as int),
{
    seconds * 1_000_000 + nanoseconds / 1_000
}

/// The requests of a paste.
pub fn emulate(
    serial: u32,
    sequence: u32,
    timestamp: u64,
    moves: &Vec<(u32, KeyState)>,
) -> (requests: Vec<Request>)
    requires
        timestamp + moves@.len() <= u64::MAX + 1,
    ensures
        requests@ == paste_requests(serial, sequence, timestamp, moves@),
{
    let ghost whole = paste_requests(serial, sequence, timestamp, moves@);
    let mut requests: Vec<Request> = Vec::new();
    requests.push(Request::StartEmulating { serial, sequence });
    let mut i: usize = 0;
    while i < moves.len()
        invariant
            i <= moves@.len(),
            timestamp + moves@.len() <= u64::MAX + 1,
            whole == paste_requests(serial, sequence, timestamp, moves@),
            requests@ =~= whole.take(1 + 2 * i),
        decreases moves@.len() - i,
    {
        let (key, state) = moves[i];
        requests.push(Request::Key { key, state });
        requests.push(Request::Frame { serial, timestamp: timestamp + i as u64 });
        proof {
            let k: int = 2 * i as int;
            assert(k % 2 == 0 && k / 2 == i && (k + 1) % 2 == 1 && (k + 1) / 2 == i);
            assert(whole[1 + k] == Request::Key { key, state });
            assert(whole[2 + k] == Request::Frame { serial, timestamp: (timestamp + i) as u64 });
        }
        i += 1;
    }
    requests.push(Request::StopEmulating { serial });
    proof {
        assert(requests@ =~= whole);
    }
    requests
}

/// The keys that a sequence of moves brings into a state, in order.
pub open spec fn moved_to(moves: Seq<(u32, KeyState)>, state: KeyState) -> Seq<u32> {
    moves.filter(|m: (u32, KeyState)| m.1 == state).map_values(|m: (u32, KeyState)| m.0)
}

/// Whether a key is down before the move at `at`: its last move was down.
pub open spec fn is_down(moves: Seq<(u32, KeyState)>, at: int, key: u32) -> bool {
    exists|i: int|
        0 <= i < at && moves[i] == (key, KeyState::Press) && forall|j: int|
            i < j < at ==> moves[j] != (key, KeyState::Released)
}

/// The shortcut releases every key that it presses, in the reverse order.
pub proof fn law_every_key_released(shift: bool, keys: PasteKeys)
    ensures
        moved_to(key_moves(shift, keys), KeyState::Press) == moved_to(
            key_moves(shift, keys),
            KeyState::Released,
        ).reverse(),
{
    let moves = key_moves(shift, keys);
    let down = |m: (u32, KeyState)| m.1 == KeyState::Press;
    let up = |m: (u32, KeyState)| m.1 == KeyState::Released;
    reveal_with_fuel(Seq::filter, 7);
    if shift {
        assert(moves.drop_last().drop_last().drop_last().drop_last().drop_last().drop_last()
            =~= Seq::empty());
        assert(moves.filter(down) =~= seq![moves[0], moves[1], moves[2]]);
        assert(moves.filter(up) =~= seq![moves[3], moves[4], moves[5]]);
    } else {
        assert(moves.drop_last().drop_last().drop_last().drop_last() =~= Seq::empty());
        assert(moves.filter(down) =~= seq![moves[0], moves[1]]);
        assert(moves.filter(up) =~= seq![moves[2], moves[3]]);
    }
    assert(moved_to(moves, KeyState::Press) =~= moved_to(moves, KeyState::Released).reverse());
}

/// After the shortcut no key is down.
pub proof fn law_no_key_left_down(shift: bool, keys: PasteKeys, key: u32)
    ensures
        !is_down(key_moves(shift, keys), key_moves(shift, keys).len() as int, key),
{
    let moves = key_moves(shift, keys);
    let end = moves.len() as int;
    assert forall|i: int| 0 <= i < end && moves[i] == (key, KeyState::Press) implies exists|j: int|
        i < j < end && moves[j] == (key, KeyState::Released) by {
        assert(moves[end - 1 - i] == (key, KeyState::Released));
    }
}

/// V goes down while Control is down, and while Shift is down if it was asked for.
pub proof fn law_v_under_modifiers(shift: bool, keys: PasteKeys) -> (at: int)
    ensures
        0 <= at < key_moves(shift, keys).len(),
        key_moves(shift, keys)[at] == (keys.v, KeyState::Press),
        is_down(key_moves(shift, keys), at, keys.control),
        shift ==> is_down(key_moves(shift, keys), at, keys.shift),
{
    let moves = key_moves(shift, keys);
    assert(moves[0] == (keys.control, KeyState::Press));
    if shift {
        assert(moves[1] == (keys.shift, KeyState::Press));
        2
    } else {
        1
    }
}

/// Later hardware events of a paste have later times.
pub proof fn law_frames_advance(
    serial: u32,
    sequence: u32,
    timestamp: u64,
    moves: Seq<(u32, KeyState)>,
    earlier: int,
    later: int,
)
    requires
        timestamp + moves.len() <= u64::MAX + 1,
        0 <= earlier < later < paste_requests(serial, sequence, timestamp, moves).len(),
        paste_requests(serial, sequence, timestamp, moves)[earlier] is Frame,
        paste_requests(serial, sequence, timestamp, moves)[later] is Frame,
    ensures
        paste_requests(serial, sequence, timestamp, moves)[earlier]->timestamp
            < paste_requests(serial, sequence, timestamp, moves)[later]->timestamp,
{
    let requests = paste_requests(serial, sequence, timestamp, moves);
    let n = 2 * moves.len();
    assert(1 <= earlier < later <= n);
    assert((earlier - 1) % 2 == 1 && (later - 1) % 2 == 1);
}

/// The key moves among requests, in order.
pub open spec fn typed(requests: Seq<Request>) -> Seq<(u32, KeyState)>
    decreases requests.len(),
{
    if requests.len() == 0 {
        Seq::empty()
    } else {
        let before = typed(requests.drop_last());
        match requests.last() {
            Request::Key { key, state } => before.push((key, state)),
            _ => before,
        }
    }
}

/// The keys that are down after requests, where none was before them.
pub open spec fn down_after(requests: Seq<Request>) -> Set<u32>
    decreases requests.len(),
{
    if requests.len() == 0 {
        Set::empty()
    } else {
        let before = down_after(requests.drop_last());
        match requests.last() {
            Request::Key { key, state: KeyState::Press } => before.insert(key),
            Request::Key { key, state: KeyState::Released } => before.remove(key),
            _ => before,
        }
    }
}

/// The first moves of a paste are typed by its first requests.
proof fn lemma_typed_so_far(
    serial: u32,
    sequence: u32,
    timestamp: u64,
    moves: Seq<(u32, KeyState)>,
    count: int,
)
    requires
        0 <= count <= moves.len(),
    ensures
        typed(paste_requests(serial, sequence, timestamp, moves).take(1 + 2 * count))
            == moves.take(count),
    decreases count,
{
    let requests = paste_requests(serial, sequence, timestamp, moves);
    reveal_with_fuel(typed, 3);
    if count == 0 {
        assert(requests.take(1).drop_last() =~= Seq::empty());
        assert(moves.take(0) =~= Seq::empty());
    } else {
        lemma_typed_so_far(serial, sequence, timestamp, moves, count - 1);
        let now = requests.take(1 + 2 * count);
        let k: int = 2 * (count - 1);
        assert(k % 2 == 0 && k / 2 == count - 1 && (k + 1) % 2 == 1);
        assert(now.drop_last().drop_last() =~= requests.take(1 + 2 * (count - 1)));
        assert(now.last() == requests[2 + k]);
        assert(now.drop_last().last() == requests[1 + k]);
        assert(moves.take(count) =~= moves.take(count - 1).push(moves[count - 1]));
    }
}

/// A paste types exactly the key moves that it is given, in their order.
pub proof fn law_paste_types_its_moves(
    serial: u32,
    sequence: u32,
    timestamp: u64,
    moves: Seq<(u32, KeyState)>,
)
    ensures
        typed(paste_requests(serial, sequence, timestamp, moves)) == moves,
{
    let requests = paste_requests(serial, sequence, timestamp, moves);
    let n = moves.len() as int;
    lemma_typed_so_far(serial, sequence, timestamp, moves, n);
    assert(requests.drop_last() =~= requests.take(1 + 2 * n));
    assert(moves.take(n) =~= moves);
}

/// A paste starts before anything else and stops after everything else, once each, with
/// one serial throughout. Each of its keys is followed at once by the end of its hardware
/// event, as many microseconds after the start as there were keys before.
pub proof fn law_paste_is_framed(
    serial: u32,
    sequence: u32,
    timestamp: u64,
    moves: Seq<(u32, KeyState)>,
    at: int,
)
    requires
        timestamp + moves.len() <= u64::MAX + 1,
        0 <= at < paste_requests(serial, sequence, timestamp, moves).len(),
    ensures
        ({
            let requests = paste_requests(serial, sequence, timestamp, moves);
            match requests[at] {
                Request::StartEmulating { serial: s, sequence: n } => {
                    &&& at == 0
                    &&& s == serial
                    &&& n == sequence
                },
                Request::Key { .. } => {
                    &&& 0 < at < requests.len() - 1
                    &&& requests[at + 1] is Frame
                },
                Request::Frame { serial: s, timestamp: t } => {
                    &&& 0 < at < requests.len() - 1
                    &&& requests[at - 1] is Key
                    &&& s == serial
                    &&& t + 1 == timestamp + typed(requests.take(at)).len()
                },
                Request::StopEmulating { serial: s } => {
                    &&& at == requests.len() - 1
                    &&& s == serial
                },
            }
        }),
        paste_requests(serial, sequence, timestamp, moves)[0] is StartEmulating,
        paste_requests(serial, sequence, timestamp, moves).last() is StopEmulating,
{
    let requests = paste_requests(serial, sequence, timestamp, moves);
    if requests[at] is Frame {
        let i = (at - 1) / 2;
        assert((at - 1) % 2 == 1);
        assert(at == 2 + 2 * i);
        lemma_typed_so_far(serial, sequence, timestamp, moves, i);
        let now = requests.take(at);
        assert(now.drop_last() =~= requests.take(1 + 2 * i));
        assert(now.last() == requests[at - 1]);
        assert((at - 2) % 2 == 0);
    } else if requests[at] is Key {
        assert((at - 1) % 2 == 0);
        assert(at % 2 == 1);
    }
}

/// The keys that the shortcut presses, in order.
pub open spec fn pressed_keys(shift: bool, keys: PasteKeys) -> Seq<u32> {
    if shift {
        seq![keys.control, keys.shift, keys.v]
    } else {
        seq![keys.control, keys.v]
    }
}

/// The shortcut presses Control, then Shift if it is asked for, then V, and no other
/// key. Everything is pressed before anything is released, and released in reverse.
pub proof fn law_shortcut_is_mirrored(shift: bool, keys: PasteKeys)
    ensures
        ({
            let moves = key_moves(shift, keys);
            let pressed = pressed_keys(shift, keys);
            &&& moves.len() == 2 * pressed.len()
            &&& forall|i: int|
                0 <= i < pressed.len() ==> #[trigger] moves[i] == (pressed[i], KeyState::Press)
            &&& forall|i: int|
                0 <= i < pressed.len() ==> moves[moves.len() - 1 - i] == (
                    #[trigger] pressed[i],
                    KeyState::Released,
                )
        }),
{
}

/// After a paste no key is down.
pub proof fn law_paste_leaves_no_key_down(
    serial: u32,
    sequence: u32,
    timestamp: u64,
    shift: bool,
    keys: PasteKeys,
)
    ensures
        down_after(paste_requests(serial, sequence, timestamp, key_moves(shift, keys)))
            == Set::<u32>::empty(),
{
    let moves = key_moves(shift, keys);
    let requests = paste_requests(serial, sequence, timestamp, moves);
    law_paste_types_its_moves(serial, sequence, timestamp, moves);
    lemma_down_follows_moves(requests);
    reveal_with_fuel(down_in, 7);
    if shift {
        assert(moves.drop_last().drop_last().drop_last().drop_last().drop_last().drop_last()
            =~= Seq::empty());
    } else {
        assert(moves.drop_last().drop_last().drop_last().drop_last() =~= Seq::empty());
    }
    assert(down_in(moves) =~= Set::empty());
}

/// The keys that are down after key moves, where none was before them.
spec fn down_in(moves: Seq<(u32, KeyState)>) -> Set<u32>
    decreases moves.len(),
{
    if moves.len() == 0 {
        Set::empty()
    } else if moves.last().1 == KeyState::Press {
        down_in(moves.drop_last()).insert(moves.last().0)
    } else {
        down_in(moves.drop_last()).remove(moves.last().0)
    }
}

/// What is down after requests follows from their key moves.
proof fn lemma_down_follows_moves(requests: Seq<Request>)
    ensures
        down_after(requests) == down_in(typed(requests)),
    decreases requests.len(),
{
    if requests.len() > 0 {
        let rest = requests.drop_last();
        lemma_down_follows_moves(rest);
        if let Request::Key { key, state } = requests.last() {
            assert(typed(requests).drop_last() =~= typed(rest));
        }
    }
}

/// A clock's reading in microseconds is the whole microseconds in it: none is missed and
/// none is added, and a later reading is no less.
pub proof fn law_micros_are_whole(seconds: int, nanoseconds: int, later: int)
    requires
        0 <= nanoseconds <= later,
    ensures
        1_000 * micros(seconds, nanoseconds) <= 1_000_000_000 * seconds + nanoseconds < 1_000 * (
        micros(seconds, nanoseconds) + 1),
        micros(seconds, nanoseconds) <= micros(seconds, later),
{
}

} // verus!
