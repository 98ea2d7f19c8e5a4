//! What a session is for, told by what the server has sent and what came of it.
use vstd::prelude::*;

use crate::error::PortalError;
use crate::keymap::{Extent, KeyReading, KeymapView};
use crate::session::{
    Event, Input, PasteFailure, PasteTarget, Phase, SessionView, Step,
};
use crate::shortcut::{KeyState, PasteKeys, Request};

verus! {

/// A session begins with the handshake, and knows nothing.
pub proof fn law_beginning<K>()
    ensures
        ({
            let session = SessionView::<K>::initial();
            &&& session.phase is Greeting
            &&& forall|id: u64|
                #![auto]
                !session.seats.contains_key(id) && !session.devices.contains_key(id)
                    && !session.keymaps.contains_key(id)
            &&& session.active is None
            &&& session.last_serial == 0
            &&& session.sequence == 0
        }),
{
}

/// When each step is asked for. The client introduces itself exactly when it is asked to,
/// answers every ping once it is connected, binds a seat when all of it was announced and it
/// can type, loads every keymap of a sensible length, sends what it has queued when it has
/// taken in everything, and then is ready where a keyboard is active and waits where none is.
pub proof fn law_steps<K>(session: SessionView<K>, input: Input<K>)
    ensures
        ({
            let step = session.step_for(input);
            let connected = session.phase is Devices;
            &&& step is Announce <==> (!connected && (input matches Input::Event(
                Event::HandshakeVersion,
            )))
            &&& step is Pong <==> (connected && (input matches Input::Event(Event::Ping)))
            &&& step is Flush <==> (connected && input is Drained)
            &&& step is Ready <==> (connected && input is Flushed && session.active is Some)
            &&& step is Poll <==> (!connected && input is Drained || connected && input is Flushed
                && session.active is None)
            &&& step is Bind <==> (connected && (input matches Input::Event(
                Event::SeatDone { seat },
            ) && session.seats.contains_key(seat) && session.seats[seat] != 0))
            &&& (step matches Step::Bind { seat, mask } ==> (input matches Input::Event(
                Event::SeatDone { seat: done },
            ) && seat == done && mask == session.seats[done]))
            &&& step is LoadKeymap <==> (connected && (input matches Input::Event(
                Event::KeyboardKeymap { size, .. },
            ) && 2 <= size <= 1_048_576))
            &&& (step matches Step::LoadKeymap { keyboard, size } ==> (input matches Input::Event(
                Event::KeyboardKeymap { keyboard: k, size: n },
            ) && keyboard == k && size == n))
        }),
{
}

/// When the client gives up, and why: on bytes that are no message, when the server
/// disconnects it once it is connected, and on a keymap that is too short or too long.
pub proof fn law_failures<K>(session: SessionView<K>, input: Input<K>)
    ensures
        ({
            let step = session.step_for(input);
            let connected = session.phase is Devices;
            &&& step == Step::Fail(PortalError::InvalidHandshake) <==> (!connected && (
            input matches Input::Event(Event::Malformed)))
            &&& step == Step::Fail(PortalError::InvalidKeyboardEvent) <==> (connected && (
            input matches Input::Event(Event::Malformed)))
            &&& step == Step::Fail(PortalError::KeyboardRevoked) <==> (connected && (
            input matches Input::Event(Event::Disconnected)))
            &&& step == Step::Fail(PortalError::InvalidKeymapLength) <==> (connected && (
            input matches Input::Event(Event::KeyboardKeymap { size, .. }) && (size < 2 || size
                > 1_048_576)))
            &&& (step matches Step::Fail(error) ==> error is InvalidHandshake || error
                is InvalidKeyboardEvent || error is KeyboardRevoked || error
                is InvalidKeymapLength)
        }),
{
}

/// Before the server connects it a session learns from no message but the one that connects
/// it, and from that just the serial. What is no message and no keymap changes nothing at any
/// time.
pub proof fn law_greeting_learns_nothing<K>(session: SessionView<K>, input: Input<K>)
    requires
        session.phase is Greeting && !(input is KeymapLoaded) || !(input is Event || input
            is KeymapLoaded),
    ensures
        session.after(input) == match input {
            Input::Event(Event::HandshakeConnection { serial }) => SessionView {
                phase: Phase::Devices,
                last_serial: serial,
                ..session
            },
            _ => session,
        },
{
}

/// A keymap that was loaded is known at once, in its first group, and nothing else changes.
pub proof fn law_loaded_keymap_is_known<K>(session: SessionView<K>, keyboard: u64, keymap: K)
    ensures
        ({
            let loaded = session.after(Input::KeymapLoaded { keyboard, keymap });
            &&& loaded.keymaps.contains_key(keyboard)
            &&& loaded.keymaps[keyboard] == (keymap, 0u32)
            &&& loaded.keymaps.remove(keyboard) == session.keymaps.remove(keyboard)
            &&& loaded == SessionView { keymaps: loaded.keymaps, ..session }
        }),
{
}

/// The keyboard that a connected session has for a device: the one that the server last
/// announced for it as a keyboard, unless the device or a seat went since.
pub open spec fn latest_keyboard<K>(
    start: SessionView<K>,
    inputs: Seq<Input<K>>,
    device: u64,
) -> Option<u64>
    decreases inputs.len(),
{
    if inputs.len() == 0 {
        if start.devices.contains_key(device) {
            Some(start.devices[device])
        } else {
            None
        }
    } else {
        match inputs.last() {
            Input::Event(
                Event::DeviceInterface { device: d, interface, keyboard: Some(keyboard) },
            ) if d == device && interface@ == "ei_keyboard"@ => Some(keyboard),
            Input::Event(Event::DeviceDestroyed { device: d, .. }) if d == device => None,
            Input::Event(Event::SeatDestroyed { .. }) => None,
            _ => latest_keyboard(start, inputs.drop_last(), device),
        }
    }
}

/// A connected session knows exactly the devices that were announced as keyboards and are
/// still there, each with the keyboard that was announced last.
pub proof fn law_devices_are_announced<K>(
    start: SessionView<K>,
    inputs: Seq<Input<K>>,
    device: u64,
)
    requires
        start.phase is Devices,
    ensures
        ({
            let keyboard = latest_keyboard(start, inputs, device);
            &&& start.run(inputs).devices.contains_key(device) <==> keyboard is Some
            &&& keyboard is Some ==> start.run(inputs).devices[device] == keyboard->0
        }),
    decreases inputs.len(),
{
    if inputs.len() > 0 {
        law_devices_are_announced(start, inputs.drop_last(), device);
        crate::session::law_phases(start, inputs.drop_last());
    }
}

/// A device that was announced as a keyboard is typed on as soon as the server resumes it,
/// it and no other, whatever else is known, with the keyboard that was announced.
pub proof fn law_resuming_activates<K>(
    start: SessionView<K>,
    inputs: Seq<Input<K>>,
    device: u64,
    keyboard: u64,
    serial: u32,
)
    requires
        start.phase is Devices,
        latest_keyboard(start, inputs, device) == Some(keyboard),
    ensures
        ({
            let resumed = start.run(
                inputs.push(Input::Event(Event::DeviceResumed { device, serial })),
            );
            &&& resumed.active == Some(device)
            &&& resumed.target(false) == Ok::<_, PortalError>(PasteTarget { device, keyboard })
            &&& resumed.step_for(Input::Flushed) is Ready
        }),
{
    let all = inputs.push(Input::Event(Event::DeviceResumed { device, serial }));
    law_devices_are_announced(start, inputs, device);
    crate::session::law_phases(start, inputs);
    assert(all.drop_last() =~= inputs);
}

/// Whether an input ends typing on a device: it is paused or destroyed, a seat goes, or
/// another device that can type is resumed.
pub open spec fn ends_typing<K>(
    start: SessionView<K>,
    inputs: Seq<Input<K>>,
    at: int,
    device: u64,
) -> bool {
    match inputs[at] {
        Input::Event(Event::DevicePaused { device: d, .. }) => d == device,
        Input::Event(Event::DeviceDestroyed { device: d, .. }) => d == device,
        Input::Event(Event::SeatDestroyed { .. }) => true,
        Input::Event(Event::DeviceResumed { device: d, .. }) => d != device && latest_keyboard(
            start,
            inputs.take(at),
            d,
        ) is Some,
        _ => false,
    }
}

/// Whether a device that can type was resumed at `at`, and nothing has ended typing on it
/// since.
pub open spec fn typed_on_since<K>(
    start: SessionView<K>,
    inputs: Seq<Input<K>>,
    device: u64,
    at: int,
) -> bool {
    &&& 0 <= at < inputs.len()
    &&& (inputs[at] matches Input::Event(Event::DeviceResumed { device: d, .. }) && d == device)
    &&& latest_keyboard(start, inputs.take(at), device) is Some
    &&& forall|j: int| at < j < inputs.len() ==> !#[trigger] ends_typing(start, inputs, j, device)
}

/// A shorter history ends typing where the longer one does.
proof fn lemma_ends_typing<K>(start: SessionView<K>, inputs: Seq<Input<K>>, at: int, device: u64)
    requires
        0 <= at < inputs.len() - 1,
    ensures
        ends_typing(start, inputs.drop_last(), at, device) == ends_typing(
            start,
            inputs,
            at,
            device,
        ),
        inputs.drop_last().take(at) == inputs.take(at),
{
    assert(inputs.drop_last().take(at) =~= inputs.take(at));
}

/// A session types on a device exactly where the server has resumed it, the device could type
/// then, and nothing has ended it since.
pub proof fn law_active_device<K>(start: SessionView<K>, inputs: Seq<Input<K>>, device: u64)
    requires
        start.phase is Devices,
        start.active is None,
    ensures
        start.run(inputs).active == Some(device) <==> exists|at: int| #[trigger]
            typed_on_since(start, inputs, device, at),
    decreases inputs.len(),
{
    if inputs.len() > 0 {
        let rest = inputs.drop_last();
        let last = inputs.len() - 1;
        law_active_device(start, rest, device);
        crate::session::law_phases(start, rest);
        assert(inputs.take(last) =~= rest);
        assert forall|d: u64|
            start.run(rest).devices.contains_key(d) <==> #[trigger] latest_keyboard(
                start,
                rest,
                d,
            ) is Some by {
            law_devices_are_announced(start, rest, d);
        }
        let before = start.run(rest);
        let after = start.run(inputs);
        assert(after == before.after(inputs[last]));
        if before.active == Some(device) && !ends_typing(start, inputs, last, device) {
            let at = choose|at: int| #[trigger] typed_on_since(start, rest, device, at);
            assert(rest[at] == inputs[at]);
            lemma_ends_typing(start, inputs, at, device);
            assert forall|j: int| at < j < inputs.len() implies !#[trigger] ends_typing(
                start,
                inputs,
                j,
                device,
            ) by {
                if j < last {
                    lemma_ends_typing(start, inputs, j, device);
                    assert(!ends_typing(start, rest, j, device));
                }
            }
            assert(typed_on_since(start, inputs, device, at));
        }
        if after.active == Some(device) && before.active != Some(device) {
            assert(latest_keyboard(start, rest, device) is Some);
            assert(typed_on_since(start, inputs, device, last));
        }
        if exists|at: int| #[trigger] typed_on_since(start, inputs, device, at) {
            let at = choose|at: int| #[trigger] typed_on_since(start, inputs, device, at);
            if at < last {
                assert(!ends_typing(start, inputs, last, device));
                lemma_ends_typing(start, inputs, at, device);
                assert forall|j: int| at < j < rest.len() implies !#[trigger] ends_typing(
                    start,
                    rest,
                    j,
                    device,
                ) by {
                    lemma_ends_typing(start, inputs, j, device);
                    assert(!ends_typing(start, inputs, j, device));
                }
                assert(typed_on_since(start, rest, device, at));
                if let Input::Event(Event::DeviceResumed { device: d, .. }) = inputs[last] {
                    assert(latest_keyboard(start, rest, d) is Some <==> before.devices.contains_key(d));
                }
            } else {
                assert(latest_keyboard(start, rest, device) is Some);
            }
        }
    }
}

/// The keymap that a connected session has for a keyboard, with its effective group: the one
/// that was loaded last, in its first group until the keyboard reports another, unless the
/// keyboard's device or a seat went since.
pub open spec fn latest_keymap<K>(
    start: SessionView<K>,
    inputs: Seq<Input<K>>,
    keyboard: u64,
) -> Option<(K, u32)>
    decreases inputs.len(),
{
    if inputs.len() == 0 {
        if start.keymaps.contains_key(keyboard) {
            Some(start.keymaps[keyboard])
        } else {
            None
        }
    } else {
        let before = latest_keymap(start, inputs.drop_last(), keyboard);
        match inputs.last() {
            Input::KeymapLoaded { keyboard: k, keymap } if k == keyboard => Some((keymap, 0)),
            Input::Event(Event::KeyboardModifiers { keyboard: k, group, .. }) if k == keyboard =>
                match before {
                Some((keymap, _)) => Some((keymap, group)),
                None => None,
            },
            Input::Event(Event::SeatDestroyed { .. }) => None,
            Input::Event(Event::DeviceDestroyed { device, .. }) if latest_keyboard(
                start,
                inputs.drop_last(),
                device,
            ) == Some(keyboard) => None,
            _ => before,
        }
    }
}

/// A connected session has exactly the keymaps that were loaded and not taken away, each with
/// the group that its keyboard last reported.
pub proof fn law_keymaps_are_loaded<K>(
    start: SessionView<K>,
    inputs: Seq<Input<K>>,
    keyboard: u64,
)
    requires
        start.phase is Devices,
    ensures
        ({
            let keymap = latest_keymap(start, inputs, keyboard);
            &&& start.run(inputs).keymaps.contains_key(keyboard) <==> keymap is Some
            &&& keymap is Some ==> start.run(inputs).keymaps[keyboard] == keymap->0
        }),
    decreases inputs.len(),
{
    if inputs.len() > 0 {
        let rest = inputs.drop_last();
        law_keymaps_are_loaded(start, rest, keyboard);
        crate::session::law_phases(start, rest);
        if let Input::Event(Event::DeviceDestroyed { device, .. }) = inputs.last() {
            law_devices_are_announced(start, rest, device);
        }
    }
}

/// The session after its next pastes.
pub open spec fn after_pastes<K>(session: SessionView<K>, count: nat) -> SessionView<K>
    decreases count,
{
    if count == 0 {
        session
    } else {
        after_pastes(session, (count - 1) as nat).numbered()
    }
}

/// Pastes are counted one by one, in 32 bits, and numbering them changes nothing else.
pub proof fn law_pastes_are_counted<K>(session: SessionView<K>, count: nat)
    ensures
        after_pastes(session, count) == (SessionView {
            sequence: ((session.sequence + count) % 0x1_0000_0000) as u32,
            ..session
        }),
    decreases count,
{
    if count > 0 {
        law_pastes_are_counted(session, (count - 1) as nat);
        let before: int = (session.sequence + count - 1) % 0x1_0000_0000;
        assert((session.sequence + count) % 0x1_0000_0000 == (before + 1) % 0x1_0000_0000);
    }
}

/// A paste goes to the active device and its keyboard, and to nothing else. Where it cannot,
/// it says why: the listener is stopping, or no device is active.
pub proof fn law_target<K>(session: SessionView<K>)
    requires
        session.wf(),
    ensures
        session.target(true) == Err::<PasteTarget, _>(PortalError::PasteCancelled),
        session.active is None ==> session.target(false) == Err::<PasteTarget, _>(
            PortalError::DeviceUnavailable,
        ),
        session.active matches Some(device) ==> session.target(false) == Ok::<_, PortalError>(
            PasteTarget { device, keyboard: session.devices[device] },
        ),
        session.wf() <==> (session.active is None || session.devices.contains_key(
            session.active->0,
        )),
{
}

/// The keys of a plan.
pub open spec fn keys_of(plan: Result<(PasteTarget, PasteKeys), PortalError>) -> Result<
    PasteKeys,
    PortalError,
> {
    match plan {
        Ok((_, keys)) => Ok(keys),
        Err(error) => Err(error),
    }
}

/// What is planned for a paste. Nothing while the listener is stopping or no device is
/// active; else the active device and its keyboard. Without a keymap the keys are those of a
/// US keyboard. With one they are found in the keyboard's effective group, as the reader
/// reads that group from the lowest keycode to the highest, and only a V that is missing
/// there in the layouts.
pub proof fn law_plan<
    K,
    M: FnOnce(&K) -> Extent,
    F: Fn(&K, u32, u32) -> (Vec<u32>, bool, bool),
>(
    session: SessionView<K>,
    stopped: bool,
    shift: bool,
    measure: M,
    read: F,
    plan: Result<(PasteTarget, PasteKeys), PortalError>,
)
    requires
        session.wf(),
        session.plans(stopped, shift, measure, read, plan),
    ensures
        stopped ==> plan == Err::<(PasteTarget, PasteKeys), _>(PortalError::PasteCancelled),
        !stopped && session.active is None ==> plan == Err::<(PasteTarget, PasteKeys), _>(
            PortalError::DeviceUnavailable,
        ),
        !stopped ==> (session.active matches Some(device) ==> {
            let keyboard = session.devices[device];
            let target = PasteTarget { device, keyboard };
            &&& (plan matches Ok((planned, _)) ==> planned == target)
            &&& !session.keymaps.contains_key(keyboard) ==> plan == Ok::<_, PortalError>(
                (target, PasteKeys { control: 29, shift: 42, v: 47 }),
            )
            &&& session.keymaps.contains_key(keyboard) ==> {
                let (keymap, group) = session.keymaps[keyboard];
                exists|extent: Extent, layouts: Seq<Seq<KeyReading>>, active: Seq<KeyReading>|
                    {
                        &&& call_ensures(measure, (&keymap,), extent)
                        &&& layouts.len() == extent.layouts
                        &&& forall|l: u32|
                            l < extent.layouts ==> crate::keymap_laws::is_whole_group(
                                #[trigger] layouts[l as int],
                                keymap,
                                l,
                                extent,
                                read,
                            )
                        &&& group < extent.layouts ==> active == layouts[group as int]
                        &&& #[trigger] crate::keymap_laws::is_whole_group(
                            active,
                            keymap,
                            group,
                            extent,
                            read,
                        )
                        &&& #[trigger] crate::keymap_laws::is_shortcut(
                            active,
                            layouts,
                            shift,
                            keys_of(plan),
                        )
                    }
            }
        }),
{
    if !stopped && session.active is Some {
        let device = session.active->0;
        let keyboard = session.devices[device];
        if session.keymaps.contains_key(keyboard) {
            let (keymap, group) = session.keymaps[keyboard];
            let (extent, table) = choose|extent: Extent, table: KeymapView|
                {
                    &&& call_ensures(measure, (&keymap,), extent)
                    &&& #[trigger] table.is_table_of(keymap, extent, group, read)
                    &&& plan == crate::session::planned(
                        PasteTarget { device, keyboard },
                        crate::keymap::resolved_keys(table, group, shift),
                    )
                };
            crate::keymap_laws::law_keymap_is_read(table, keymap, extent, group, read);
            crate::keymap_laws::law_shortcut_is_resolved(table, group, shift);
            let active = table.keys_in(group);
            assert(crate::keymap_laws::is_whole_group(active, keymap, group, extent, read));
            assert(crate::keymap_laws::is_shortcut(
                active,
                table.layouts,
                shift,
                keys_of(plan),
            ));
        }
    }
}

/// What comes of a plan. Where there is none nothing is typed and nothing changes, and the
/// reason is the plan's; so it is where the clock cannot be read. Else the planned keys are
/// typed on the planned device, under the next number and the last serial, from the time that
/// the clock gave on, and no key stays down.
pub proof fn law_paste<K, E, C: FnOnce() -> Result<(u64, u64), E>>(
    session: SessionView<K>,
    plan: Result<(PasteTarget, PasteKeys), PortalError>,
    shift: bool,
    clock: C,
    paste: Result<(PasteTarget, Vec<Request>), PasteFailure<E>>,
    after: SessionView<K>,
)
    requires
        session.pastes(plan, shift, clock, paste, after),
        forall|seconds: u64, nanoseconds: u64| #[trigger]
            call_ensures(clock, (), Ok::<_, E>((seconds, nanoseconds))) ==> seconds * 1_000_000
                + nanoseconds / 1_000 + 6 <= u64::MAX,
    ensures
        plan matches Err(error) ==> after == session && (paste matches Err(
            PasteFailure::Refused(reason),
        ) && reason == error),
        plan matches Ok((target, keys)) ==> match paste {
            Ok((typed_on, requests)) => {
                let moves = crate::shortcut::typed(requests@);
                let serial = session.last_serial;
                &&& typed_on == target
                &&& after == (SessionView {
                    sequence: ((session.sequence + 1) % 0x1_0000_0000) as u32,
                    ..session
                })
                &&& moves == if shift {
                    seq![
                        (keys.control, KeyState::Press),
                        (keys.shift, KeyState::Press),
                        (keys.v, KeyState::Press),
                        (keys.v, KeyState::Released),
                        (keys.shift, KeyState::Released),
                        (keys.control, KeyState::Released),
                    ]
                } else {
                    seq![
                        (keys.control, KeyState::Press),
                        (keys.v, KeyState::Press),
                        (keys.v, KeyState::Released),
                        (keys.control, KeyState::Released),
                    ]
                }
                &&& crate::shortcut::down_after(requests@) == Set::<u32>::empty()
                &&& requests@.len() == 2 * moves.len() + 2
                &&& requests@[0] == (Request::StartEmulating { serial, sequence: after.sequence })
                &&& requests@.last() == (Request::StopEmulating { serial })
                &&& exists|seconds: u64, nanoseconds: u64|
                    {
                        &&& #[trigger] call_ensures(
                            clock,
                            (),
                            Ok::<_, E>((seconds, nanoseconds)),
                        )
                        &&& forall|i: int|
                            0 <= i < moves.len() ==> #[trigger] requests@[2 * i + 2] == (
                            Request::Frame {
                                serial,
                                timestamp: (seconds * 1_000_000 + nanoseconds / 1_000 + i) as u64,
                            })
                    }
            },
            Err(PasteFailure::Clock(error)) => {
                &&& call_ensures(clock, (), Err::<(u64, u64), _>(error))
                &&& after == session
            },
            Err(PasteFailure::Refused(_)) => false,
        },
{
    if let Ok((target, keys)) = plan {
        if let Ok((typed_on, requests)) = paste {
            let moves = crate::shortcut::key_moves(shift, keys);
            let (seconds, nanoseconds) = choose|seconds: u64, nanoseconds: u64|
                {
                    &&& #[trigger] call_ensures(clock, (), Ok::<_, E>((seconds, nanoseconds)))
                    &&& requests@ == crate::shortcut::paste_requests(
                        session.last_serial,
                        session.numbered().sequence,
                        (seconds * 1_000_000 + nanoseconds / 1_000) as u64,
                        moves,
                    )
                };
            let time = (seconds * 1_000_000 + nanoseconds / 1_000) as u64;
            crate::shortcut::law_paste_types_its_moves(
                session.last_serial,
                session.numbered().sequence,
                time,
                moves,
            );
            crate::shortcut::law_paste_leaves_no_key_down(
                session.last_serial,
                session.numbered().sequence,
                time,
                shift,
                keys,
            );
            assert forall|i: int| 0 <= i < moves.len() implies #[trigger] requests@[2 * i + 2] == (
            Request::Frame {
                serial: session.last_serial,
                timestamp: (seconds * 1_000_000 + nanoseconds / 1_000 + i) as u64,
            }) by {
                assert((2 * i + 1) % 2 == 1 && (2 * i + 1) / 2 == i);
            }
        }
    }
}

} // verus!
