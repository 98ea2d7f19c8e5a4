//! How the client introduces itself to the input server.
use vstd::prelude::*;

verus! {

/// The version of every interface that the client speaks.
pub const INTERFACE_VERSION: u32 = 1;

/// A request of the handshake.
#[derive(Clone, Copy, Debug)]
pub enum HandshakeRequest {
    /// The version of the handshake itself.
    Version(u32),
    /// The client's name, as a desktop may show it.
    Name(&'static str),
    /// The client sends input and receives none.
    SenderContext,
    /// The client speaks an interface.
    Interface { name: &'static str, version: u32 },
    /// There is nothing more to say.
    Finish,
}

/// A request of the handshake as mathematics.
pub enum HandshakeRequestView {
    Version(u32),
    Name(Seq<char>),
    SenderContext,
    Interface { name: Seq<char>, version: u32 },
    Finish,
}

impl View for HandshakeRequest {
    type V = HandshakeRequestView;

    open spec fn view(&self) -> HandshakeRequestView {
        match self {
            HandshakeRequest::Version(version) => HandshakeRequestView::Version(*version),
            HandshakeRequest::Name(name) => HandshakeRequestView::Name(name@),
            HandshakeRequest::SenderContext => HandshakeRequestView::SenderContext,
            HandshakeRequest::Interface { name, version } => HandshakeRequestView::Interface {
                name: name@,
                version: *version,
            },
            HandshakeRequest::Finish => HandshakeRequestView::Finish,
        }
    }
}

/// The interfaces that typing needs. A server asks for `ei_callback` in every
/// handshake, even where no callback is used.
pub open spec fn interface_names() -> Seq<Seq<char>> {
    seq![
        "ei_callback"@,
        "ei_connection"@,
        "ei_seat"@,
        "ei_device"@,
        "ei_keyboard"@,
        "ei_pingpong"@,
    ]
}

/// The client's introduction: who it is, that it sends, what it speaks.
pub open spec fn introduction() -> Seq<HandshakeRequestView> {
    seq![
        HandshakeRequestView::Version(1),
        HandshakeRequestView::Name("HEX dictation paste"@),
        HandshakeRequestView::SenderContext,
    ] + interface_names().map_values(
        |name: Seq<char>|
            HandshakeRequestView::Interface { name, version: INTERFACE_VERSION },
    ) + seq![HandshakeRequestView::Finish]
}

/// The interfaces that typing needs.
pub fn keyboard_interfaces() -> (names: Vec<&'static str>)
    ensures
        names@.map_values(|name: &'static str| name@) == interface_names(),
{
    let mut names: Vec<&'static str> = Vec::new();
    names.push("ei_callback");
    names.push("ei_connection");
    names.push("ei_seat");
    names.push("ei_device");
    names.push("ei_keyboard");
    names.push("ei_pingpong");
    proof {
        assert(names@.map_values(|name: &'static str| name@) =~= interface_names());
    }
    names
}

/// The client's answer to the server's handshake version.
pub fn announcement() -> (requests: Vec<HandshakeRequest>)
    ensures
        requests@.map_values(|request: HandshakeRequest| request@) == introduction(),
{
    let names = keyboard_interfaces();
    let ghost whole = introduction();
    let ghost views = names@.map_values(|name: &'static str| name@);
    proof {
        assert(views.len() == names@.len());
    }
    let mut requests: Vec<HandshakeRequest> = Vec::new();
    requests.push(HandshakeRequest::Version(1));
    requests.push(HandshakeRequest::Name("HEX dictation paste"));
    requests.push(HandshakeRequest::SenderContext);
    let mut i: usize = 0;
    while i < names.len()
        invariant
            i <= names@.len(),
            whole == introduction(),
            views == interface_names(),
            views == names@.map_values(|name: &'static str| name@),
            views.len() == names@.len(),
            requests@.len() == 3 + i,
            forall|j: int| 0 <= j < 3 + i ==> (#[trigger] requests@[j])@ == whole[j],
        decreases names@.len() - i,
    {
        requests.push(HandshakeRequest::Interface { name: names[i], version: INTERFACE_VERSION });
        proof {
            assert(views[i as int] == names@[i as int]@);
            assert(whole[3 + i] == HandshakeRequestView::Interface {
                name: views[i as int],
                version: INTERFACE_VERSION,
            });
        }
        i += 1;
    }
    requests.push(HandshakeRequest::Finish);
    proof {
        assert(requests@.map_values(|request: HandshakeRequest| request@) =~= whole);
    }
    requests
}

/// The client announces exactly the interfaces that typing needs, before it
/// finishes, and nothing after that.
pub proof fn law_interfaces_announced(name: Seq<char>)
    ensures
        interface_names().contains(name) <==> introduction().contains(
            HandshakeRequestView::Interface { name, version: INTERFACE_VERSION },
        ),
        forall|i: int|
            0 <= i < introduction().len() ==> (#[trigger] introduction()[i] is Finish <==> i
                == introduction().len() - 1),
{
    let request = HandshakeRequestView::Interface { name, version: INTERFACE_VERSION };
    if interface_names().contains(name) {
        let i = choose|i: int| 0 <= i < interface_names().len() && interface_names()[i] == name;
        assert(introduction()[3 + i] == request);
    }
    if introduction().contains(request) {
        let i = choose|i: int| 0 <= i < introduction().len() && introduction()[i] == request;
        assert(interface_names()[i - 3] == name);
    }
}

/// The client first gives the version of the handshake, then its name, then that it sends
/// input, and only then speaks of interfaces. It announces each of the six interfaces once,
/// in version 1, and no other.
pub proof fn law_introduction(at: int)
    requires
        0 <= at < introduction().len(),
    ensures
        ({
            let names = set![
                "ei_callback"@,
                "ei_connection"@,
                "ei_seat"@,
                "ei_device"@,
                "ei_keyboard"@,
                "ei_pingpong"@,
            ];
            &&& forall|name: Seq<char>| #[trigger]
                interface_names().contains(name) <==> names.contains(name)
            &&& match introduction()[at] {
                HandshakeRequestView::Version(version) => at == 0 && version == 1,
                HandshakeRequestView::Name(name) => at == 1 && name == "HEX dictation paste"@,
                HandshakeRequestView::SenderContext => at == 2,
                HandshakeRequestView::Interface { name, version } => {
                    &&& 2 < at < introduction().len() - 1
                    &&& names.contains(name)
                    &&& version == 1
                },
                HandshakeRequestView::Finish => at == introduction().len() - 1,
            }
        }),
        introduction().len() == 10,
        forall|i: int, j: int|
            0 <= i < j < introduction().len() ==> introduction()[i] != introduction()[j],
{
    let names = interface_names();
    reveal_strlit("ei_callback");
    reveal_strlit("ei_connection");
    reveal_strlit("ei_seat");
    reveal_strlit("ei_device");
    reveal_strlit("ei_keyboard");
    reveal_strlit("ei_pingpong");
    assert(names[0][3] == 'c' && names[0][4] == 'a');
    assert(names[1][3] == 'c' && names[1][4] == 'o');
    assert(names[2][3] == 's');
    assert(names[3][3] == 'd');
    assert(names[4][3] == 'k');
    assert(names[5][3] == 'p');
    assert forall|i: int, j: int| 0 <= i < j < names.len() implies names[i] != names[j] by {}
    assert forall|i: int| 3 <= i < 9 implies #[trigger] introduction()[i]
        == (HandshakeRequestView::Interface { name: names[i - 3], version: 1 }) by {}
    assert forall|name: Seq<char>| #[trigger] names.contains(name) implies exists|i: int|
        0 <= i < 6 && names[i] == name by {}
    assert(names.contains(names[0]) && names.contains(names[1]) && names.contains(names[2])
        && names.contains(names[3]) && names.contains(names[4]) && names.contains(names[5]));
}

/// Requests that look the same to the server are the same.
pub proof fn law_requests_are_told_apart(a: HandshakeRequest, b: HandshakeRequest)
    requires
        a@ == b@,
    ensures
        a matches HandshakeRequest::Version(version) ==> b == HandshakeRequest::Version(version),
        a matches HandshakeRequest::Name(name) ==> b matches HandshakeRequest::Name(other)
            && other@ == name@,
        a is SenderContext <==> b is SenderContext,
        a matches HandshakeRequest::Interface { name, version } ==> b matches HandshakeRequest::Interface {
            name: other,
            version: same,
        } && other@ == name@ && same == version,
        a is Finish <==> b is Finish,
{
}

} // verus!
