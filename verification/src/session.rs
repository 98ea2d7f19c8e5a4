//! What the client knows of the desktop's input devices, and what it does next.
use std::collections::HashMap;
use vstd::prelude::*;

use crate::error::PortalError;
use crate::keymap::{choose_paste_keys, read_keymap, Extent};
use crate::shortcut::{clock_micros, emulate, paste_sequence, PasteKeys, Request};

verus! {

broadcast use vstd::std_specs::hash::group_hash_axioms;

/// The lengths that a keymap may announce, in bytes.
pub const MIN_KEYMAP_LENGTH: u32 = 2;

pub const MAX_KEYMAP_LENGTH: u32 = 1_048_576;

/// The interface of the devices that can type.
pub open spec fn keyboard_interface() -> Seq<char> {
    "ei_keyboard"@
}

/// How far the connection has come.
#[derive(Clone, Copy, Debug, PartialEq, Eq, Structural)]
pub enum Phase {
    /// The handshake is under way.
    Greeting,
    /// The server announces seats and devices.
    Devices,
}

/// A message from the server. Seats, devices and keyboards go by their object
/// ids, which the server never uses twice.
#[allow(inconsistent_fields)]
#[derive(Debug)]
pub enum Event {
    HandshakeVersion,
    HandshakeConnection { serial: u32 },
    Disconnected,
    Ping,
    SeatAnnounced { seat: u64 },
    SeatCapability { seat: u64, mask: u64, interface: String },
    SeatDone { seat: u64 },
    SeatDestroyed { seat: u64, serial: u32 },
    /// `keyboard` is the object as a keyboard, where it can be used as one.
    DeviceInterface { device: u64, interface: String, keyboard: Option<u64> },
    DeviceResumed { device: u64, serial: u32 },
    DevicePaused { device: u64, serial: u32 },
    DeviceDestroyed { device: u64, serial: u32 },
    KeyboardKeymap { keyboard: u64, size: u32 },
    KeyboardModifiers { keyboard: u64, serial: u32, group: u32 },
    /// Any other message.
    Other,
    /// Bytes that are no message.
    Malformed,
}

/// What has happened since the last step.
#[derive(Debug)]
pub enum Input<K> {
    /// Bytes were read from the socket.
    Read,
    /// The next message among the bytes read.
    Event(Event),
    /// There is no further whole message among the bytes read.
    Drained,
    /// The requests of the last step are queued.
    Queued,
    /// The queued requests are sent.
    Flushed,
    /// The keymap that a step asked for.
    KeymapLoaded { keyboard: u64, keymap: K },
}

/// What to do next.
#[derive(Clone, Copy, Debug, PartialEq, Eq, Structural)]
pub enum Step {
    /// Wait for bytes, and read them.
    Poll,
    /// Take the next message.
    Next,
    /// Send the queued requests.
    Flush,
    /// Queue and send the client's announcement.
    Announce,
    /// Queue the answer to the ping.
    Pong,
    /// Queue the request that binds the seat to these capabilities.
    Bind { seat: u64, mask: u64 },
    /// Load the keymap that the server has offered.
    LoadKeymap { keyboard: u64, size: u32 },
    /// A keyboard is active.
    Ready,
    /// Give up.
    Fail(PortalError),
}

/// The device and the keyboard that a paste types on.
#[derive(Clone, Copy, Debug, PartialEq, Eq, Structural)]
pub struct PasteTarget {
    pub device: u64,
    pub keyboard: u64,
}

/// The client's side of a connection. `K` is a compiled keymap.
#[derive(Debug)]
pub struct Session<K> {
    phase: Phase,
    seats: HashMap<u64, u64>,
    devices: HashMap<u64, u64>,
    keymaps: HashMap<u64, (K, u32)>,
    active: Option<u64>,
    last_serial: u32,
    sequence: u32,
}

/// A session as mathematics.
#[verifier::ext_equal]
pub struct SessionView<K> {
    pub phase: Phase,
    /// The keyboard capability mask of each seat, 0 until it is announced.
    pub seats: Map<u64, u64>,
    /// The keyboard of each device that can type.
    pub devices: Map<u64, u64>,
    /// The keymap of each keyboard that has one, with its effective group.
    pub keymaps: Map<u64, (K, u32)>,
    /// The device that accepts input.
    pub active: Option<u64>,
    /// The serial of the server's last message that carries one.
    pub last_serial: u32,
    /// The number of the last paste.
    pub sequence: u32,
}

impl<K> View for Session<K> {
    type V = SessionView<K>;

    closed spec fn view(&self) -> SessionView<K> {
        SessionView {
            phase: self.phase,
            seats: self.seats@,
            devices: self.devices@,
            keymaps: self.keymaps@,
            active: self.active,
            last_serial: self.last_serial,
            sequence: self.sequence,
        }
    }
}

impl<K> SessionView<K> {
    /// The session before the server has sent anything.
    pub open spec fn initial() -> SessionView<K> {
        SessionView {
            phase: Phase::Greeting,
            seats: Map::empty(),
            devices: Map::empty(),
            keymaps: Map::empty(),
            active: None,
            last_serial: 0,
            sequence: 0,
        }
    }

    /// The active device is one that can type.
    pub open spec fn wf(self) -> bool {
        self.active matches Some(device) ==> self.devices.contains_key(device)
    }

    /// The session without its active device, if that is `device`.
    pub open spec fn deactivated(self, device: u64) -> SessionView<K> {
        SessionView {
            active: if self.active == Some(device) {
                None
            } else {
                self.active
            },
            ..self
        }
    }

    /// The session after a message.
    pub open spec fn after_event(self, event: Event) -> SessionView<K> {
        if self.phase == Phase::Greeting {
            match event {
                Event::HandshakeConnection { serial } => SessionView {
                    phase: Phase::Devices,
                    last_serial: serial,
                    ..self
                },
                _ => self,
            }
        } else {
            match event {
                Event::SeatAnnounced { seat } => SessionView {
                    seats: self.seats.insert(seat, 0),
                    ..self
                },
                Event::SeatCapability { seat, mask, interface } => if interface@
                    == keyboard_interface() {
                    SessionView { seats: self.seats.insert(seat, mask), ..self }
                } else {
                    self
                },
                Event::SeatDestroyed { seat, serial } => SessionView {
                    seats: self.seats.remove(seat),
                    devices: Map::empty(),
                    keymaps: Map::empty(),
                    active: None,
                    last_serial: serial,
                    ..self
                },
                Event::DeviceInterface { device, interface, keyboard } => if interface@
                    == keyboard_interface() && keyboard is Some {
                    SessionView { devices: self.devices.insert(device, keyboard->0), ..self }
                } else {
                    self
                },
                Event::DeviceResumed { device, serial } => SessionView {
                    last_serial: serial,
                    active: if self.devices.contains_key(device) {
                        Some(device)
                    } else {
                        self.active
                    },
                    ..self
                },
                Event::DevicePaused { device, serial } => SessionView {
                    last_serial: serial,
                    ..self.deactivated(device)
                },
                Event::DeviceDestroyed { device, serial } => SessionView {
                    last_serial: serial,
                    devices: self.devices.remove(device),
                    keymaps: if self.devices.contains_key(device) {
                        self.keymaps.remove(self.devices[device])
                    } else {
                        self.keymaps
                    },
                    ..self.deactivated(device)
                },
                Event::KeyboardModifiers { keyboard, serial, group } => SessionView {
                    last_serial: serial,
                    keymaps: if self.keymaps.contains_key(keyboard) {
                        self.keymaps.insert(keyboard, (self.keymaps[keyboard].0, group))
                    } else {
                        self.keymaps
                    },
                    ..self
                },
                _ => self,
            }
        }
    }

    /// What a message asks for.
    pub open spec fn event_step(self, event: Event) -> Step {
        if self.phase == Phase::Greeting {
            match event {
                Event::HandshakeVersion => Step::Announce,
                Event::Malformed => Step::Fail(PortalError::InvalidHandshake),
                _ => Step::Next,
            }
        } else {
            match event {
                Event::Disconnected => Step::Fail(PortalError::KeyboardRevoked),
                Event::Malformed => Step::Fail(PortalError::InvalidKeyboardEvent),
                Event::Ping => Step::Pong,
                Event::SeatDone { seat } => if self.seats.contains_key(seat) && self.seats[seat]
                    != 0 {
                    Step::Bind { seat, mask: self.seats[seat] }
                } else {
                    Step::Next
                },
                Event::KeyboardKeymap { keyboard, size } => if MIN_KEYMAP_LENGTH <= size
                    <= MAX_KEYMAP_LENGTH {
                    Step::LoadKeymap { keyboard, size }
                } else {
                    Step::Fail(PortalError::InvalidKeymapLength)
                },
                _ => Step::Next,
            }
        }
    }

    /// The session after an input.
    pub open spec fn after(self, input: Input<K>) -> SessionView<K> {
        match input {
            Input::Event(event) => self.after_event(event),
            Input::KeymapLoaded { keyboard, keymap } => SessionView {
                keymaps: self.keymaps.insert(keyboard, (keymap, 0)),
                ..self
            },
            _ => self,
        }
    }

    /// What an input asks for.
    pub open spec fn step_for(self, input: Input<K>) -> Step {
        match input {
            Input::Read => Step::Next,
            Input::Event(event) => self.event_step(event),
            Input::Drained => if self.phase == Phase::Greeting {
                Step::Poll
            } else {
                Step::Flush
            },
            Input::Queued => Step::Next,
            Input::Flushed => if self.phase == Phase::Greeting {
                Step::Next
            } else if self.active is None {
                Step::Poll
            } else {
                Step::Ready
            },
            Input::KeymapLoaded { .. } => Step::Next,
        }
    }

    /// The session after inputs, one by one.
    pub open spec fn run(self, inputs: Seq<Input<K>>) -> SessionView<K>
        decreases inputs.len(),
    {
        if inputs.len() == 0 {
            self
        } else {
            self.run(inputs.drop_last()).after(inputs.last())
        }
    }

    /// Whether an input takes a keyboard's keymap away or replaces it.
    pub open spec fn drops_keymap(self, input: Input<K>, keyboard: u64) -> bool {
        match input {
            Input::KeymapLoaded { keyboard: k, .. } => k == keyboard,
            Input::Event(Event::SeatDestroyed { .. }) => true,
            Input::Event(Event::DeviceDestroyed { device, .. }) => self.devices.contains_key(device)
                && self.devices[device] == keyboard,
            _ => false,
        }
    }

    /// The session with its next paste numbered. The numbers start again at 0
    /// after the last that 32 bits hold.
    pub open spec fn numbered(self) -> SessionView<K> {
        SessionView {
            sequence: if self.sequence == u32::MAX {
                0
            } else {
                (self.sequence + 1) as u32
            },
            ..self
        }
    }

    /// Where a paste types, or why it cannot.
    pub open spec fn target(self, stopped: bool) -> Result<PasteTarget, PortalError> {
        if stopped {
            Err(PortalError::PasteCancelled)
        } else {
            match self.active {
                None => Err(PortalError::DeviceUnavailable),
                Some(device) => if self.devices.contains_key(device) {
                    Ok(PasteTarget { device, keyboard: self.devices[device] })
                } else {
                    Err(PortalError::InterfaceUnavailable)
                },
            }
        }
    }
}

/// A paste on a target with these keys, where there are such keys.
pub open spec fn planned(target: PasteTarget, keys: Result<PasteKeys, PortalError>) -> Result<
    (PasteTarget, PasteKeys),
    PortalError,
> {
    match keys {
        Ok(keys) => Ok((target, keys)),
        Err(error) => Err(error),
    }
}

impl<K> SessionView<K> {
    /// Whether `plan` says where a paste types and with which keys: those of the
    /// target keyboard's keymap in its effective group, or the US positions where it
    /// has none. `measure` says how far the keymap extends, and `read` reads each of
    /// its keys.
    pub open spec fn plans<
        M: FnOnce(&K) -> Extent,
        F: Fn(&K, u32, u32) -> (Vec<u32>, bool, bool),
    >(
        self,
        stopped: bool,
        shift: bool,
        measure: M,
        read: F,
        plan: Result<(PasteTarget, PasteKeys), PortalError>,
    ) -> bool {
        match self.target(stopped) {
            Err(error) => plan == Err::<(PasteTarget, PasteKeys), _>(error),
            Ok(target) => if self.keymaps.contains_key(target.keyboard) {
                let (keymap, group) = self.keymaps[target.keyboard];
                exists|extent: Extent, table: crate::keymap::KeymapView|
                    {
                        &&& call_ensures(measure, (&keymap,), extent)
                        &&& #[trigger] table.is_table_of(keymap, extent, group, read)
                        &&& plan == planned(
                            target,
                            crate::keymap::resolved_keys(table, group, shift),
                        )
                    }
            } else {
                plan == planned(target, Ok(crate::shortcut::us_paste_keys()))
            },
        }
    }

    /// Whether the keymap that a paste needs can be measured and read, where it needs
    /// one.
    pub open spec fn can_be_read<
        M: FnOnce(&K) -> Extent,
        F: Fn(&K, u32, u32) -> (Vec<u32>, bool, bool),
    >(self, stopped: bool, measure: M, read: F) -> bool {
        self.target(stopped) matches Ok(target) ==> self.keymaps.contains_key(target.keyboard) ==> {
            let (keymap, group) = self.keymaps[target.keyboard];
            &&& call_requires(measure, (&keymap,))
            &&& forall|extent: Extent| #[trigger]
                call_ensures(measure, (&keymap,), extent) ==> crate::keymap::can_read(
                    read,
                    keymap,
                    extent,
                    group,
                )
        }
    }
}

/// Whether an interface is the one of devices that can type.
fn is_keyboard_interface(interface: &String) -> (is: bool)
    ensures
        is == (interface@ == keyboard_interface()),
{
    *interface == "ei_keyboard".to_owned()
}

impl<K> Session<K> {
    /// A session before the server has sent anything.
    pub fn new() -> (session: Session<K>)
        ensures
            session@ == SessionView::<K>::initial(),
            session@.wf(),
    {
        Session {
            phase: Phase::Greeting,
            seats: HashMap::new(),
            devices: HashMap::new(),
            keymaps: HashMap::new(),
            active: None,
            last_serial: 0,
            sequence: 0,
        }
    }

    /// The first step of a connection: the server speaks first.
    pub fn begin(&self) -> (step: Step)
        ensures
            step == Step::Poll,
    {
        Step::Poll
    }

    /// No longer types on `device`.
    fn deactivate(&mut self, device: u64)
        ensures
            final(self)@ == old(self)@.deactivated(device),
    {
        if let Some(active) = self.active {
            if active == device {
                self.active = None;
            }
        }
    }

    /// Takes in a message of the handshake.
    fn handle_greeting(&mut self, event: Event) -> (step: Step)
        requires
            old(self)@.phase == Phase::Greeting,
        ensures
            final(self)@ == old(self)@.after_event(event),
            step == old(self)@.event_step(event),
    {
        match event {
            Event::HandshakeVersion => Step::Announce,
            Event::HandshakeConnection { serial } => {
                self.phase = Phase::Devices;
                self.last_serial = serial;
                Step::Next
            },
            Event::Malformed => Step::Fail(PortalError::InvalidHandshake),
            _ => Step::Next,
        }
    }

    /// Takes in a message about seats and devices.
    fn handle_event(&mut self, event: Event) -> (step: Step)
        requires
            old(self)@.phase == Phase::Devices,
        ensures
            final(self)@ == old(self)@.after_event(event),
            step == old(self)@.event_step(event),
    {
        match event {
            Event::Disconnected => Step::Fail(PortalError::KeyboardRevoked),
            Event::Malformed => Step::Fail(PortalError::InvalidKeyboardEvent),
            Event::Ping => Step::Pong,
            Event::SeatAnnounced { seat } => {
                self.seats.insert(seat, 0);
                Step::Next
            },
            Event::SeatCapability { seat, mask, interface } => {
                if is_keyboard_interface(&interface) {
                    self.seats.insert(seat, mask);
                }
                Step::Next
            },
            Event::SeatDone { seat } => match self.seats.get(&seat) {
                Some(mask) if *mask != 0 => Step::Bind { seat, mask: *mask },
                _ => Step::Next,
            },
            Event::SeatDestroyed { seat, serial } => {
                self.last_serial = serial;
                self.seats.remove(&seat);
                self.active = None;
                self.devices.clear();
                self.keymaps.clear();
                Step::Next
            },
            Event::DeviceInterface { device, interface, keyboard } => {
                if is_keyboard_interface(&interface) {
                    if let Some(keyboard) = keyboard {
                        self.devices.insert(device, keyboard);
                    }
                }
                Step::Next
            },
            Event::DeviceResumed { device, serial } => {
                self.last_serial = serial;
                if self.devices.contains_key(&device) {
                    self.active = Some(device);
                }
                Step::Next
            },
            Event::DevicePaused { device, serial } => {
                self.last_serial = serial;
                self.deactivate(device);
                Step::Next
            },
            Event::DeviceDestroyed { device, serial } => {
                self.last_serial = serial;
                self.deactivate(device);
                if let Some(keyboard) = self.devices.remove(&device) {
                    self.keymaps.remove(&keyboard);
                }
                Step::Next
            },
            Event::KeyboardKeymap { keyboard, size } => {
                if MIN_KEYMAP_LENGTH <= size && size <= MAX_KEYMAP_LENGTH {
                    Step::LoadKeymap { keyboard, size }
                } else {
                    Step::Fail(PortalError::InvalidKeymapLength)
                }
            },
            Event::KeyboardModifiers { keyboard, serial, group } => {
                self.last_serial = serial;
                if let Some((keymap, _)) = self.keymaps.remove(&keyboard) {
                    self.keymaps.insert(keyboard, (keymap, group));
                }
                Step::Next
            },
            _ => Step::Next,
        }
    }

    /// Takes in what has happened, and says what to do next.
    pub fn step(&mut self, input: Input<K>) -> (step: Step)
        ensures
            final(self)@ == old(self)@.after(input),
            step == old(self)@.step_for(input),
            old(self)@.wf() ==> final(self)@.wf(),
    {
        match input {
            Input::Read => Step::Next,
            Input::Event(event) => match self.phase {
                Phase::Greeting => self.handle_greeting(event),
                Phase::Devices => self.handle_event(event),
            },
            Input::Drained => match self.phase {
                Phase::Greeting => Step::Poll,
                Phase::Devices => Step::Flush,
            },
            Input::Queued => Step::Next,
            Input::Flushed => match self.phase {
                Phase::Greeting => Step::Next,
                Phase::Devices => if self.active.is_none() {
                    Step::Poll
                } else {
                    Step::Ready
                },
            },
            Input::KeymapLoaded { keyboard, keymap } => {
                self.keymaps.insert(keyboard, (keymap, 0));
                Step::Next
            },
        }
    }

    /// Where a paste types. `stopped` says whether the listener is shutting down.
    pub fn paste_target(&self, stopped: bool) -> (target: Result<PasteTarget, PortalError>)
        ensures
            target == self@.target(stopped),
    {
        if stopped {
            return Err(PortalError::PasteCancelled);
        }
        match self.active {
            None => Err(PortalError::DeviceUnavailable),
            Some(device) => match self.devices.get(&device) {
                Some(keyboard) => Ok(PasteTarget { device, keyboard: *keyboard }),
                None => Err(PortalError::InterfaceUnavailable),
            },
        }
    }

    /// The keymap of a keyboard and its effective group, if its server sent one.
    pub fn keymap(&self, keyboard: u64) -> (found: Option<&(K, u32)>)
        ensures
            found is Some <==> self@.keymaps.contains_key(keyboard),
            found matches Some(entry) ==> *entry == self@.keymaps[keyboard],
    {
        self.keymaps.get(&keyboard)
    }

    /// Where a paste types and with which keys. `measure` says how far the keyboard's
    /// keymap extends, where it has one, and `read` what a key does in a group.
    pub fn prepare_paste<
        M: FnOnce(&K) -> Extent,
        F: Fn(&K, u32, u32) -> (Vec<u32>, bool, bool),
    >(&self, stopped: bool, shift: bool, measure: M, read: F) -> (plan: Result<
        (PasteTarget, PasteKeys),
        PortalError,
    >)
        requires
            self@.can_be_read(stopped, measure, read),
        ensures
            self@.plans(stopped, shift, measure, read, plan),
    {
        let target = match self.paste_target(stopped) {
            Ok(target) => target,
            Err(error) => return Err(error),
        };
        let reading = match self.keymap(target.keyboard) {
            Some((keymap, group)) => {
                let extent = measure(keymap);
                let table = read_keymap(keymap, extent, *group, read);
                assert(table@.is_table_of(*keymap, extent, *group, read));
                Some((table, *group))
            },
            None => None,
        };
        match choose_paste_keys(reading, shift) {
            Ok(keys) => Ok((target, keys)),
            Err(error) => Err(error),
        }
    }

    /// Numbers the next paste, and gives its requests. `timestamp` is the time of
    /// its first hardware event, in microseconds.
    pub fn start_paste(&mut self, shift: bool, keys: PasteKeys, timestamp: u64) -> (requests: Vec<
        Request,
    >)
        requires
            timestamp + crate::shortcut::key_moves(shift, keys).len() <= u64::MAX + 1,
        ensures
            final(self)@ == old(self)@.numbered(),
            requests@ == crate::shortcut::paste_requests(
                old(self)@.last_serial,
                old(self)@.numbered().sequence,
                timestamp,
                crate::shortcut::key_moves(shift, keys),
            ),
            old(self)@.wf() ==> final(self)@.wf(),
    {
        self.sequence = self.sequence.wrapping_add(1);
        let moves = paste_sequence(shift, keys);
        emulate(self.last_serial, self.sequence, timestamp, &moves)
    }
}

/// Why nothing was pasted. `E` is how reading the clock fails.
#[derive(Debug)]
pub enum PasteFailure<E> {
    Refused(PortalError),
    Clock(E),
}

/// Whether a clock only gives readings, in seconds and nanoseconds, at which a paste
/// of `moves` key moves can start.
pub open spec fn in_range<E, C: FnOnce() -> Result<(u64, u64), E>>(clock: C, moves: nat) -> bool {
    forall|seconds: u64, nanoseconds: u64| #[trigger]
        call_ensures(clock, (), Ok::<_, E>((seconds, nanoseconds))) ==> seconds * 1_000_000
            + nanoseconds / 1_000 + moves <= u64::MAX + 1
}

impl<K> SessionView<K> {
    /// Whether a plan and a clock lead to this paste and to the session `after` it. A
    /// plan that failed, or a clock that cannot be read, leads to no request and
    /// leaves the session as it is; otherwise the requests type the planned keys.
    pub open spec fn pastes<E, C: FnOnce() -> Result<(u64, u64), E>>(
        self,
        plan: Result<(PasteTarget, PasteKeys), PortalError>,
        shift: bool,
        clock: C,
        paste: Result<(PasteTarget, Vec<Request>), PasteFailure<E>>,
        after: SessionView<K>,
    ) -> bool {
        match plan {
            Err(error) => {
                &&& paste == Err::<(PasteTarget, Vec<Request>), _>(PasteFailure::<E>::Refused(error))
                &&& after == self
            },
            Ok((target, keys)) => match paste {
                Ok((device, requests)) => {
                    &&& device == target
                    &&& exists|seconds: u64, nanoseconds: u64|
                        {
                            &&& #[trigger] call_ensures(
                                clock,
                                (),
                                Ok::<_, E>((seconds, nanoseconds)),
                            )
                            &&& requests@ == crate::shortcut::paste_requests(
                                self.last_serial,
                                self.numbered().sequence,
                                (seconds * 1_000_000 + nanoseconds / 1_000) as u64,
                                crate::shortcut::key_moves(shift, keys),
                            )
                        }
                    &&& after == self.numbered()
                },
                Err(PasteFailure::Clock(error)) => {
                    &&& call_ensures(clock, (), Err::<(u64, u64), _>(error))
                    &&& after == self
                },
                Err(PasteFailure::Refused(_)) => false,
            },
        }
    }
}

impl<K> Session<K> {
    /// Plans a paste, reads the clock, and numbers the paste: where it types, and its
    /// requests. `clock` is a monotonic clock.
    pub fn paste<
        E,
        M: FnOnce(&K) -> Extent,
        F: Fn(&K, u32, u32) -> (Vec<u32>, bool, bool),
        C: FnOnce() -> Result<(u64, u64), E>,
    >(
        &mut self,
        stopped: bool,
        shift: bool,
        measure: M,
        read: F,
        clock: C,
    ) -> (paste: Result<(PasteTarget, Vec<Request>), PasteFailure<E>>)
        requires
            old(self)@.can_be_read(stopped, measure, read),
            call_requires(clock, ()),
            in_range(clock, crate::shortcut::number_of_moves(shift)),
        ensures
            exists|plan: Result<(PasteTarget, PasteKeys), PortalError>|
                {
                    &&& #[trigger] old(self)@.plans(stopped, shift, measure, read, plan)
                    &&& old(self)@.pastes(plan, shift, clock, paste, final(self)@)
                },
            old(self)@.wf() ==> final(self)@.wf(),
    {
        let plan = self.prepare_paste(stopped, shift, measure, read);
        let (target, keys) = match plan {
            Ok(plan) => plan,
            Err(error) => return Err(PasteFailure::Refused(error)),
        };
        let (seconds, nanoseconds) = match clock() {
            Ok(reading) => reading,
            Err(error) => return Err(PasteFailure::Clock(error)),
        };
        let requests = self.start_paste(shift, keys, clock_micros(seconds, nanoseconds));
        Ok((target, requests))
    }
}

/// The serial that a message about devices carries.
pub open spec fn serial_of(event: Event) -> Option<u32> {
    match event {
        Event::SeatDestroyed { serial, .. } => Some(serial),
        Event::DeviceResumed { serial, .. } => Some(serial),
        Event::DevicePaused { serial, .. } => Some(serial),
        Event::DeviceDestroyed { serial, .. } => Some(serial),
        Event::KeyboardModifiers { serial, .. } => Some(serial),
        _ => None,
    }
}

/// The last serial among inputs, or `before` where none carries one.
pub open spec fn latest_serial<K>(inputs: Seq<Input<K>>, before: u32) -> u32
    decreases inputs.len(),
{
    if inputs.len() == 0 {
        before
    } else {
        match inputs.last() {
            Input::Event(event) if serial_of(event) is Some => serial_of(event)->0,
            _ => latest_serial(inputs.drop_last(), before),
        }
    }
}

/// The keyboard capability that the server last announced for a seat: 0 for a seat
/// that is announced without, nothing for one that is destroyed, `before` where no
/// input is about it.
pub open spec fn latest_mask<K>(inputs: Seq<Input<K>>, seat: u64, before: Option<u64>) -> Option<
    u64,
>
    decreases inputs.len(),
{
    if inputs.len() == 0 {
        before
    } else {
        match inputs.last() {
            Input::Event(Event::SeatAnnounced { seat: s }) if s == seat => Some(0),
            Input::Event(Event::SeatCapability { seat: s, mask, interface }) if s == seat
                && interface@ == "ei_keyboard"@ => Some(mask),
            Input::Event(Event::SeatDestroyed { seat: s, .. }) if s == seat => None,
            _ => latest_mask(inputs.drop_last(), seat, before),
        }
    }
}

/// The effective group that a keyboard last reported, or `before`.
pub open spec fn latest_group<K>(inputs: Seq<Input<K>>, keyboard: u64, before: u32) -> u32
    decreases inputs.len(),
{
    if inputs.len() == 0 {
        before
    } else {
        match inputs.last() {
            Input::Event(Event::KeyboardModifiers { keyboard: k, group, .. }) if k == keyboard =>
                group,
            _ => latest_group(inputs.drop_last(), keyboard, before),
        }
    }
}

/// Whatever the server sends, the active device is one that can type.
pub proof fn law_active_device_can_type<K>(start: SessionView<K>, inputs: Seq<Input<K>>)
    requires
        start.wf(),
    ensures
        start.run(inputs).wf(),
    decreases inputs.len(),
{
    if inputs.len() > 0 {
        law_active_device_can_type(start, inputs.drop_last());
    }
}

/// A session is ready only when it is connected, has sent what it had to send and
/// has a keyboard to paste on.
pub proof fn law_ready_has_target<K>(session: SessionView<K>, input: Input<K>)
    requires
        session.wf(),
        session.step_for(input) == Step::Ready,
    ensures
        input is Flushed,
        session.phase == Phase::Devices,
        session.after(input).target(false) is Ok,
{
}

/// While the listener is shutting down nothing is pasted.
pub proof fn law_no_paste_while_stopping<K>(session: SessionView<K>)
    ensures
        session.target(true) == Err::<PasteTarget, _>(PortalError::PasteCancelled),
{
}

/// Until the server connects it, a session learns of no seat, device or serial; once
/// connected it stays so.
pub proof fn law_phases<K>(start: SessionView<K>, inputs: Seq<Input<K>>)
    ensures
        start.phase == Phase::Devices ==> start.run(inputs).phase == Phase::Devices,
        start.run(inputs).phase == Phase::Greeting ==> {
            &&& start.run(inputs).seats == start.seats
            &&& start.run(inputs).devices == start.devices
            &&& start.run(inputs).active == start.active
            &&& start.run(inputs).last_serial == start.last_serial
        },
    decreases inputs.len(),
{
    if inputs.len() > 0 {
        law_phases(start, inputs.drop_last());
    }
}

/// A connected session knows the serial of the server's last message that carries
/// one.
pub proof fn law_serial_is_latest<K>(start: SessionView<K>, inputs: Seq<Input<K>>)
    requires
        start.phase == Phase::Devices,
    ensures
        start.run(inputs).last_serial == latest_serial(inputs, start.last_serial),
    decreases inputs.len(),
{
    if inputs.len() > 0 {
        law_serial_is_latest(start, inputs.drop_last());
        law_phases(start, inputs.drop_last());
    }
}

/// Whether an input is the message that connects the client.
pub open spec fn connects<K>(input: Input<K>) -> bool {
    input matches Input::Event(Event::HandshakeConnection { .. })
}

/// A run goes through its beginning, and on from there.
pub proof fn law_runs_continue<K>(start: SessionView<K>, inputs: Seq<Input<K>>, at: int)
    requires
        0 <= at <= inputs.len(),
    ensures
        start.run(inputs) == start.run(inputs.take(at)).run(inputs.skip(at)),
    decreases inputs.len(),
{
    if at == inputs.len() {
        assert(inputs.take(at) =~= inputs);
        assert(inputs.skip(at) =~= Seq::empty());
    } else {
        law_runs_continue(start, inputs.drop_last(), at);
        assert(inputs.drop_last().take(at) =~= inputs.take(at));
        assert(inputs.drop_last().skip(at) =~= inputs.skip(at).drop_last());
        assert(inputs.skip(at).last() == inputs.last());
    }
}

/// A session stays unconnected, and knows of no serial, until the server connects it.
pub proof fn law_only_connection_connects<K>(start: SessionView<K>, inputs: Seq<Input<K>>)
    requires
        start.phase == Phase::Greeting,
        forall|i: int| 0 <= i < inputs.len() ==> !connects(#[trigger] inputs[i]),
    ensures
        start.run(inputs).phase == Phase::Greeting,
        start.run(inputs).last_serial == start.last_serial,
    decreases inputs.len(),
{
    if inputs.len() > 0 {
        let rest = inputs.drop_last();
        assert forall|i: int| 0 <= i < rest.len() implies !connects(#[trigger] rest[i]) by {
            assert(rest[i] == inputs[i]);
        }
        law_only_connection_connects(start, rest);
        assert(!connects(inputs[inputs.len() - 1]));
    }
}

/// The message that connects a session gives it its first serial: from then on the
/// session knows the serial of the server's last message that carries one, the
/// connecting message among them. Seats and devices are as they were before it.
pub proof fn law_connection_gives_serial<K>(
    start: SessionView<K>,
    inputs: Seq<Input<K>>,
    at: int,
    serial: u32,
)
    requires
        start.phase == Phase::Greeting,
        0 <= at < inputs.len(),
        inputs[at] == Input::<K>::Event(Event::HandshakeConnection { serial }),
        forall|i: int| 0 <= i < at ==> !connects(#[trigger] inputs[i]),
    ensures
        ({
            let connected = start.run(inputs.take(at + 1));
            &&& connected.phase == Phase::Devices
            &&& connected.last_serial == serial
            &&& connected.seats == start.seats
            &&& connected.devices == start.devices
            &&& connected.active == start.active
            &&& start.run(inputs) == connected.run(inputs.skip(at + 1))
        }),
        start.run(inputs).phase == Phase::Devices,
        start.run(inputs).last_serial == latest_serial(inputs.skip(at + 1), serial),
{
    let before = inputs.take(at);
    assert forall|i: int| 0 <= i < before.len() implies !connects(#[trigger] before[i]) by {
        assert(before[i] == inputs[i]);
    }
    law_only_connection_connects(start, before);
    law_phases(start, before);
    assert(inputs.take(at + 1).drop_last() =~= before);
    assert(inputs.take(at + 1).last() == inputs[at]);
    let connected = start.run(inputs.take(at + 1));
    assert(connected == start.run(before).after(inputs[at]));
    law_runs_continue(start, inputs, at + 1);
    law_phases(connected, inputs.skip(at + 1));
    law_serial_is_latest(connected, inputs.skip(at + 1));
}

/// Nothing that the server sends changes the number of the last paste.
pub proof fn law_server_numbers_no_paste<K>(start: SessionView<K>, inputs: Seq<Input<K>>)
    ensures
        start.run(inputs).sequence == start.sequence,
    decreases inputs.len(),
{
    if inputs.len() > 0 {
        law_server_numbers_no_paste(start, inputs.drop_last());
    }
}

/// A seat is bound with the keyboard capability that the server last announced for
/// it, and only where that is not 0.
pub proof fn law_bind_uses_latest_mask<K>(
    start: SessionView<K>,
    inputs: Seq<Input<K>>,
    seat: u64,
)
    requires
        start.phase == Phase::Devices,
    ensures
        ({
            let before = if start.seats.contains_key(seat) {
                Some(start.seats[seat])
            } else {
                None
            };
            let mask = latest_mask(inputs, seat, before);
            &&& start.run(inputs).seats.contains_key(seat) == (mask is Some)
            &&& mask is Some ==> start.run(inputs).seats[seat] == mask->0
            &&& start.run(inputs).event_step(Event::SeatDone { seat }) == if mask is Some && mask->0
                != 0 {
                Step::Bind { seat, mask: mask->0 }
            } else {
                Step::Next
            }
        }),
    decreases inputs.len(),
{
    law_phases(start, inputs);
    if inputs.len() > 0 {
        law_bind_uses_latest_mask(start, inputs.drop_last(), seat);
        law_phases(start, inputs.drop_last());
    }
}

/// A keymap that has come is kept, with the effective group that its keyboard last
/// reported, 0 at first, until it is replaced, its keyboard's device goes or a seat
/// goes.
pub proof fn law_group_follows_modifiers<K>(
    start: SessionView<K>,
    keyboard: u64,
    keymap: K,
    inputs: Seq<Input<K>>,
)
    requires
        start.phase == Phase::Devices,
        forall|i: int|
            0 <= i < inputs.len() ==> !start.after(Input::KeymapLoaded { keyboard, keymap }).run(
                inputs.take(i),
            ).drops_keymap(#[trigger] inputs[i], keyboard),
    ensures
        ({
            let after = start.after(Input::KeymapLoaded { keyboard, keymap }).run(inputs);
            &&& after.keymaps.contains_key(keyboard)
            &&& after.keymaps[keyboard] == (keymap, latest_group(inputs, keyboard, 0))
        }),
    decreases inputs.len(),
{
    if inputs.len() > 0 {
        let loaded = start.after(Input::KeymapLoaded { keyboard, keymap });
        let rest = inputs.drop_last();
        assert forall|i: int| 0 <= i < rest.len() implies !loaded.run(rest.take(i)).drops_keymap(
            #[trigger] rest[i],
            keyboard,
        ) by {
            assert(rest[i] == inputs[i]);
            assert(rest.take(i) =~= inputs.take(i));
        }
        law_group_follows_modifiers(start, keyboard, keymap, rest);
        law_phases(loaded, rest);
        assert(inputs.take(inputs.len() - 1) =~= rest);
        assert(!loaded.run(rest).drops_keymap(inputs[inputs.len() - 1], keyboard));
    }
}

/// Without an active device there is none until the server resumes one.
pub proof fn law_only_resuming_activates<K>(start: SessionView<K>, inputs: Seq<Input<K>>)
    requires
        start.active is None,
        forall|i: int| 0 <= i < inputs.len() ==> !(#[trigger] inputs[i] matches Input::Event(
            Event::DeviceResumed { .. },
        )),
    ensures
        start.run(inputs).active is None,
    decreases inputs.len(),
{
    if inputs.len() > 0 {
        let rest = inputs.drop_last();
        assert forall|i: int| 0 <= i < rest.len() implies !(#[trigger] rest[i] matches Input::Event(
            Event::DeviceResumed { .. },
        )) by {
            assert(rest[i] == inputs[i]);
        }
        law_only_resuming_activates(start, rest);
        assert(!(inputs[inputs.len() - 1] matches Input::Event(Event::DeviceResumed { .. })));
    }
}

/// A device that is not active is not typed on until the server resumes that device.
pub proof fn law_device_waits_for_resuming<K>(
    start: SessionView<K>,
    device: u64,
    inputs: Seq<Input<K>>,
)
    requires
        start.active != Some(device),
        forall|i: int|
            0 <= i < inputs.len() ==> !(#[trigger] inputs[i] matches Input::Event(
                Event::DeviceResumed { device: d, .. },
            ) && d == device),
    ensures
        start.run(inputs).active != Some(device),
    decreases inputs.len(),
{
    if inputs.len() > 0 {
        let rest = inputs.drop_last();
        assert forall|i: int| 0 <= i < rest.len() implies !(#[trigger] rest[i] matches Input::Event(
            Event::DeviceResumed { device: d, .. },
        ) && d == device) by {
            assert(rest[i] == inputs[i]);
        }
        law_device_waits_for_resuming(start, device, rest);
        assert(!(inputs[inputs.len() - 1] matches Input::Event(
            Event::DeviceResumed { device: d, .. },
        ) && d == device));
    }
}

/// A device that the server pauses or destroys is not typed on, and nothing is when
/// a seat goes.
pub proof fn law_gone_device_is_inactive<K>(session: SessionView<K>, device: u64, serial: u32)
    requires
        session.phase == Phase::Devices,
    ensures
        session.after_event(Event::DevicePaused { device, serial }).active != Some(device),
        session.after_event(Event::DeviceDestroyed { device, serial }).active != Some(device),
        !session.after_event(Event::DeviceDestroyed { device, serial }).devices.contains_key(
            device,
        ),
        forall|seat: u64| #[trigger]
            session.after_event(Event::SeatDestroyed { seat, serial }).active is None,
{
}

/// A message that makes the client give up changes nothing that it knows.
pub proof fn law_failure_changes_nothing<K>(session: SessionView<K>, input: Input<K>)
    requires
        session.step_for(input) is Fail,
    ensures
        session.after(input) == session,
{
}

/// Two pastes in a row have different numbers.
pub proof fn law_pastes_are_numbered_apart<K>(session: SessionView<K>)
    ensures
        session.numbered().sequence != session.sequence,
        session.numbered().target(false) == session.target(false),
{
}

} // verus!
