# portal_paste

Types the paste shortcut through the desktop portal, on Wayland desktops that have no
virtual-keyboard protocol.

`src/` decides: which desktops use the portal, how a connection comes about, what the
client knows of the server's seats and devices, which keys the shortcut needs in the
compositor's keymap, and which requests type it. Every function there is verified with
Verus. The proof functions whose names begin with `law_` state what holds of the library
as a whole.

`app/` acts: it talks to the portal and the input server, asks libxkbcommon what a keymap
says of its keys, and reads and writes the permission token. libxkbcommon is linked there
alone.
