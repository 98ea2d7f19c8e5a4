use portal_paste::handshake::{announcement, keyboard_interfaces, HandshakeRequest};

#[test]
fn keyboard_handshake_advertises_required_eis_interfaces() {
    for required in ["ei_callback", "ei_connection", "ei_seat", "ei_device"] {
        assert!(keyboard_interfaces().contains(&required));
    }
    assert!(keyboard_interfaces().contains(&"ei_keyboard"));
}

#[test]
fn client_introduces_itself_as_a_sender_before_it_finishes() {
    let requests = announcement();
    assert_eq!(requests.len(), 10);
    assert!(matches!(requests[0], HandshakeRequest::Version(1)));
    assert!(matches!(
        requests[1],
        HandshakeRequest::Name("HEX dictation paste")
    ));
    assert!(matches!(requests[2], HandshakeRequest::SenderContext));
    let names = [
        "ei_callback",
        "ei_connection",
        "ei_seat",
        "ei_device",
        "ei_keyboard",
        "ei_pingpong",
    ];
    for (request, expected) in requests[3..9].iter().zip(names) {
        match request {
            HandshakeRequest::Interface { name, version } => {
                assert_eq!(*name, expected);
                assert_eq!(*version, 1);
            }
            other => panic!("{other:?}"),
        }
    }
    assert!(matches!(requests[9], HandshakeRequest::Finish));
}
