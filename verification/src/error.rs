//! The ways in which reaching the desktop's keyboard can fail.
use vstd::prelude::*;

verus! {

/// A failure that this library decides on. Failures of the operating system, of
/// the portal service and of the socket stay with whoever called them.
#[derive(Clone, Copy, Debug, PartialEq, Eq, Structural)]
pub enum PortalError {
    AuthorizationCancelled,
    AuthorizationTimedOut,
    KeyboardNotGranted,
    PasteCancelled,
    NoActiveKeyboard,
    InvalidHandshake,
    InvalidKeyboardEvent,
    KeyboardRevoked,
    DeviceUnavailable,
    InterfaceUnavailable,
    NoControlKey,
    NoShiftKey,
    NoVKey,
    InvalidKeymapLength,
    KeymapNotBoundedFile,
    KeymapEmbeddedNul,
    KeymapNotLoaded,
    InvalidTokenLength,
}

/// The sentence that a user is shown for each failure.
pub open spec fn error_message(error: PortalError) -> Seq<char> {
    match error {
        PortalError::AuthorizationCancelled =>
            "keyboard portal authorization cancelled during shutdown"@,
        PortalError::AuthorizationTimedOut => "timed out waiting for desktop keyboard permission"@,
        PortalError::KeyboardNotGranted => "desktop portal did not grant keyboard control"@,
        PortalError::PasteCancelled => "paste cancelled while stopping the listener"@,
        PortalError::NoActiveKeyboard => "desktop did not provide an active keyboard device"@,
        PortalError::InvalidHandshake => "invalid EIS handshake"@,
        PortalError::InvalidKeyboardEvent => "invalid EIS keyboard event"@,
        PortalError::KeyboardRevoked => "desktop revoked keyboard control"@,
        PortalError::DeviceUnavailable => "keyboard device unavailable"@,
        PortalError::InterfaceUnavailable => "keyboard interface unavailable"@,
        PortalError::NoControlKey => "desktop keyboard layout has no Control key for paste"@,
        PortalError::NoShiftKey => "desktop keyboard layout has no Shift key for paste"@,
        PortalError::NoVKey => "desktop keyboard layout has no V key for paste"@,
        PortalError::InvalidKeymapLength => "invalid desktop keyboard keymap length"@,
        PortalError::KeymapNotBoundedFile =>
            "desktop keyboard keymap is not a bounded regular file"@,
        PortalError::KeymapEmbeddedNul => "desktop keyboard keymap contains an embedded NUL"@,
        PortalError::KeymapNotLoaded => "could not load desktop keyboard keymap"@,
        PortalError::InvalidTokenLength => "invalid portal token length"@,
    }
}

impl PortalError {
    /// The sentence that a user is shown for this failure.
    pub fn message(self) -> (text: &'static str)
        ensures
            text@ == error_message(self),
    {
        match self {
            PortalError::AuthorizationCancelled =>
                "keyboard portal authorization cancelled during shutdown",
            PortalError::AuthorizationTimedOut =>
                "timed out waiting for desktop keyboard permission",
            PortalError::KeyboardNotGranted => "desktop portal did not grant keyboard control",
            PortalError::PasteCancelled => "paste cancelled while stopping the listener",
            PortalError::NoActiveKeyboard => "desktop did not provide an active keyboard device",
            PortalError::InvalidHandshake => "invalid EIS handshake",
            PortalError::InvalidKeyboardEvent => "invalid EIS keyboard event",
            PortalError::KeyboardRevoked => "desktop revoked keyboard control",
            PortalError::DeviceUnavailable => "keyboard device unavailable",
            PortalError::InterfaceUnavailable => "keyboard interface unavailable",
            PortalError::NoControlKey => "desktop keyboard layout has no Control key for paste",
            PortalError::NoShiftKey => "desktop keyboard layout has no Shift key for paste",
            PortalError::NoVKey => "desktop keyboard layout has no V key for paste",
            PortalError::InvalidKeymapLength => "invalid desktop keyboard keymap length",
            PortalError::KeymapNotBoundedFile =>
                "desktop keyboard keymap is not a bounded regular file",
            PortalError::KeymapEmbeddedNul => "desktop keyboard keymap contains an embedded NUL",
            PortalError::KeymapNotLoaded => "could not load desktop keyboard keymap",
            PortalError::InvalidTokenLength => "invalid portal token length",
        }
    }
}

/// The failure that a sentence tells of.
pub open spec fn told_by(sentence: Seq<char>) -> Option<PortalError> {
    if sentence == "could not load desktop keyboard keymap"@ {
        Some(PortalError::KeymapNotLoaded)
    } else if sentence == "desktop did not provide an active keyboard device"@ {
        Some(PortalError::NoActiveKeyboard)
    } else if sentence == "desktop keyboard keymap contains an embedded NUL"@ {
        Some(PortalError::KeymapEmbeddedNul)
    } else if sentence == "desktop keyboard keymap is not a bounded regular file"@ {
        Some(PortalError::KeymapNotBoundedFile)
    } else if sentence == "desktop keyboard layout has no Control key for paste"@ {
        Some(PortalError::NoControlKey)
    } else if sentence == "desktop keyboard layout has no Shift key for paste"@ {
        Some(PortalError::NoShiftKey)
    } else if sentence == "desktop keyboard layout has no V key for paste"@ {
        Some(PortalError::NoVKey)
    } else if sentence == "desktop portal did not grant keyboard control"@ {
        Some(PortalError::KeyboardNotGranted)
    } else if sentence == "desktop revoked keyboard control"@ {
        Some(PortalError::KeyboardRevoked)
    } else if sentence == "invalid EIS handshake"@ {
        Some(PortalError::InvalidHandshake)
    } else if sentence == "invalid EIS keyboard event"@ {
        Some(PortalError::InvalidKeyboardEvent)
    } else if sentence == "invalid desktop keyboard keymap length"@ {
        Some(PortalError::InvalidKeymapLength)
    } else if sentence == "invalid portal token length"@ {
        Some(PortalError::InvalidTokenLength)
    } else if sentence == "keyboard device unavailable"@ {
        Some(PortalError::DeviceUnavailable)
    } else if sentence == "keyboard interface unavailable"@ {
        Some(PortalError::InterfaceUnavailable)
    } else if sentence == "keyboard portal authorization cancelled during shutdown"@ {
        Some(PortalError::AuthorizationCancelled)
    } else if sentence == "paste cancelled while stopping the listener"@ {
        Some(PortalError::PasteCancelled)
    } else if sentence == "timed out waiting for desktop keyboard permission"@ {
        Some(PortalError::AuthorizationTimedOut)
    } else {
        None
    }
}

/// A sentence tells which failure it is about: no two failures share one.
pub proof fn law_sentences_tell_failures(error: PortalError)
    ensures
        told_by(error_message(error)) == Some(error),
{
    reveal_strlit("keyboard portal authorization cancelled during shutdown");
    reveal_strlit("timed out waiting for desktop keyboard permission");
    reveal_strlit("desktop portal did not grant keyboard control");
    reveal_strlit("paste cancelled while stopping the listener");
    reveal_strlit("desktop did not provide an active keyboard device");
    reveal_strlit("invalid EIS handshake");
    reveal_strlit("invalid EIS keyboard event");
    reveal_strlit("desktop revoked keyboard control");
    reveal_strlit("keyboard device unavailable");
    reveal_strlit("keyboard interface unavailable");
    reveal_strlit("desktop keyboard layout has no Control key for paste");
    reveal_strlit("desktop keyboard layout has no Shift key for paste");
    reveal_strlit("desktop keyboard layout has no V key for paste");
    reveal_strlit("invalid desktop keyboard keymap length");
    reveal_strlit("desktop keyboard keymap is not a bounded regular file");
    reveal_strlit("desktop keyboard keymap contains an embedded NUL");
    reveal_strlit("could not load desktop keyboard keymap");
    reveal_strlit("invalid portal token length");
    assert("keyboard portal authorization cancelled during shutdown"@.len() == 55);
    assert("timed out waiting for desktop keyboard permission"@.len() == 49);
    assert("desktop portal did not grant keyboard control"@.len() == 45);
    assert("paste cancelled while stopping the listener"@.len() == 43);
    assert("desktop did not provide an active keyboard device"@.len() == 49);
    assert("invalid EIS handshake"@.len() == 21);
    assert("invalid EIS keyboard event"@.len() == 26);
    assert("desktop revoked keyboard control"@.len() == 32);
    assert("keyboard device unavailable"@.len() == 27);
    assert("keyboard interface unavailable"@.len() == 30);
    assert("desktop keyboard layout has no Control key for paste"@.len() == 52);
    assert("desktop keyboard layout has no Shift key for paste"@.len() == 50);
    assert("desktop keyboard layout has no V key for paste"@.len() == 46);
    assert("invalid desktop keyboard keymap length"@.len() == 38);
    assert("desktop keyboard keymap is not a bounded regular file"@.len() == 53);
    assert("desktop keyboard keymap contains an embedded NUL"@.len() == 48);
    assert("could not load desktop keyboard keymap"@.len() == 38);
    assert("invalid portal token length"@.len() == 27);
    assert("timed out waiting for desktop keyboard permission"@[0] == 't');
    assert("desktop did not provide an active keyboard device"@[0] == 'd');
    assert("keyboard device unavailable"@[0] == 'k');
    assert("invalid portal token length"@[0] == 'i');
    assert("invalid desktop keyboard keymap length"@[0] == 'i');
    assert("could not load desktop keyboard keymap"@[0] == 'c');
}

} // verus!
