//! What a node makes of its command line.

use vstd::prelude::*;
use vstd::slice::slice_to_vec;
use vstd::utf8::{
    decode_utf8,
    encode_utf8,
    encode_utf8_decode_utf8,
    encode_utf8_valid_utf8,
    valid_utf8,
};
use crate::address::{
    channel_address,
    Address,
    AddressType,
    AddressView,
    Route,
    RouteView,
    RouterAddress,
    RouterAddressView,
    SocketAddress,
};
use crate::encoding;
use crate::message::{
    Message,
    MessageType,
    MessageView,
    OckamCommand,
    WorkerCommand,
    WorkerCommandView,
};

verus! {

/// A socket address as an argument.
#[derive(Debug, PartialEq, Eq)]
pub enum SocketArg {
    /// The text was read as an address.
    Address(SocketAddress),
    /// The text is no address.
    Unreadable,
}

/// The arguments of a node.
#[derive(Debug, PartialEq, Eq)]
pub struct Args {
    /// Local address to bind socket
    pub local_socket: Option<SocketArg>,
    /// Remote address to send to
    pub remote_socket: Option<SocketArg>,
    /// Via - intermediate router
    pub via_socket: Option<SocketArg>,
    /// Worker
    pub worker_addr: Option<String>,
    /// Message - message to send
    pub message: Option<String>,
}

/// What a node starts with.
#[derive(Debug, PartialEq, Eq)]
pub struct NodeStart {
    /// The printed address of the local socket.
    pub socket: String,
    /// The channel that the worker begins with.
    pub channel: Address,
    /// The commands that the worker begins with.
    pub commands: Vec<OckamCommand>,
}

// ---------------------------------------------------------------------------
// Model
// ---------------------------------------------------------------------------

/// The route of one hop that a socket argument gives, or of none.
pub open spec fn socket_hop(arg: Option<SocketArg>) -> RouteView {
    match arg {
        Some(SocketArg::Address(socket)) => seq![
            AddressView::UdpAddress(socket.ip@, socket.port).routed(),
        ],
        _ => Seq::empty(),
    }
}

/// The route of one hop that a worker argument gives, or of none.
pub open spec fn worker_hop(arg: Option<String>) -> RouteView {
    match arg {
        Some(text) => if encoding::is_hex_text(text@) {
            seq![AddressView::WorkerAddress(encoding::hex_bytes(text@)).routed()]
        } else {
            Seq::empty()
        },
        None => Seq::empty(),
    }
}

/// The local socket address: the default one where the argument is no address.
pub open spec fn local_address(arg: SocketArg) -> RouterAddressView {
    match arg {
        SocketArg::Address(socket) => AddressView::UdpAddress(socket.ip@, socket.port).routed(),
        SocketArg::Unreadable => RouterAddressView {
            a_type: AddressType::Udp,
            length: Some(7),
            address: AddressView::UdpAddress("127.0.0.1"@, 4050),
        },
    }
}

/// The first message of a node.
pub open spec fn first_message(onward_route: RouteView, payload: Seq<char>) -> MessageView {
    MessageView {
        onward_route,
        return_route: Seq::empty(),
        message_type: MessageType::Payload,
        message_body: encode_utf8(payload),
    }
}

/// Whether an address is that of a socket, with its kind and its length left open.
pub open spec fn is_socket(a: RouterAddressView, socket: SocketAddress) -> bool {
    &&& a.a_type == AddressType::Udp
    &&& a.length is None
    &&& a.address matches AddressView::UdpAddress(ip, port) && ip == socket.ip@ && port
        == socket.port
}

/// Whether an argument was read as an address.
pub open spec fn is_read(arg: Option<SocketArg>) -> bool {
    arg matches Some(SocketArg::Address(_))
}

/// A socket argument that was read is one hop, to that IP and that port; another one is none. The
/// local address is that of the argument, or else port 4050 of this machine.
pub proof fn law_socket_arguments(arg: SocketArg)
    ensures
        socket_hop(None).len() == 0,
        match arg {
            SocketArg::Address(socket) => {
                &&& socket_hop(Some(arg)).len() == 1
                &&& is_socket(socket_hop(Some(arg))[0], socket)
                &&& is_socket(local_address(arg), socket)
            },
            SocketArg::Unreadable => {
                &&& socket_hop(Some(arg)).len() == 0
                &&& local_address(arg).a_type == AddressType::Udp
                &&& local_address(arg).length == Some(7u8)
                &&& local_address(arg).address matches AddressView::UdpAddress(ip, port) && ip
                    == "127.0.0.1"@ && port == 4050
            },
        },
{
}

/// The first message of a node is a payload that goes all of the route that was given, has no way
/// back yet, and reads as the text that was given.
pub proof fn law_first_message(onward_route: RouteView, payload: Seq<char>)
    ensures
        ({
            let m = first_message(onward_route, payload);
            &&& m.onward_route == onward_route
            &&& m.return_route.len() == 0
            &&& m.message_type == MessageType::Payload
            &&& valid_utf8(m.message_body)
            &&& decode_utf8(m.message_body) == payload
        }),
{
    encode_utf8_valid_utf8(payload);
    encode_utf8_decode_utf8(payload);
}

/// A worker argument is one hop, to the worker whose bytes it spells, if it is hexadecimal, and
/// none otherwise.
pub proof fn law_worker_argument(text: String)
    ensures
        worker_hop(None).len() == 0,
        encoding::is_hex_text(text@) ==> worker_hop(Some(text)).len() == 1 && ({
            let hop = worker_hop(Some(text))[0];
            &&& hop.a_type == AddressType::Worker
            &&& hop.length is None
            &&& hop.address == AddressView::WorkerAddress(encoding::hex_bytes(text@))
        }),
        !encoding::is_hex_text(text@) ==> worker_hop(Some(text)).len() == 0,
{
}

// ---------------------------------------------------------------------------
// Operations
// ---------------------------------------------------------------------------

/// The UDP hop for a socket argument, if it was read.
fn push_socket(route: &mut Route, arg: Option<SocketArg>)
    ensures
        final(route)@ == old(route)@ + socket_hop(arg),
{
    if let Some(SocketArg::Address(socket)) = arg {
        if let Some(ra) = RouterAddress::from_address(Address::UdpAddress(socket)) {
            route.addresses.push(ra);
        }
    }
    assert(route@ =~= old(route)@ + socket_hop(arg));
}

/// A route to a channel on this machine.
pub fn get_route() -> (route: Option<Route>)
    ensures
        route matches Some(r) && r@ == seq![
            AddressView::UdpAddress("127.0.0.1"@, 4051).routed(),
            AddressView::ChannelAddress(seq![1u8, 2u8, 3u8, 4u8]).routed(),
        ],
{
    let mut r = Route { addresses: Vec::new() };
    let socket = SocketAddress { ip: "127.0.0.1".to_owned(), port: 4051 };
    if let Some(router_addr_0) = RouterAddress::from_address(Address::UdpAddress(socket)) {
        r.addresses.push(router_addr_0);
    } else {
        return None;
    }
    proof {
        reveal_strlit("01020304");
        assert(encoding::hex_bytes("01020304"@) =~= seq![1u8, 2u8, 3u8, 4u8]);
    }
    if let Ok(channel_addr) = RouterAddress::channel_router_address_from_str("01020304") {
        r.addresses.push(channel_addr);
    } else {
        return None;
    }
    assert(r@ =~= seq![
        AddressView::UdpAddress("127.0.0.1"@, 4051).routed(),
        AddressView::ChannelAddress(seq![1u8, 2u8, 3u8, 4u8]).routed(),
    ]);
    Some(r)
}

/// The local address, the route to send to and the message to send. The route passes the
/// intermediate router and the remote one and ends at the worker, as far as they are given and
/// readable.
pub fn parse_args(args: Args) -> (parsed: Result<(RouterAddress, Route, String), String>)
    ensures
        parsed is Ok <==> args.local_socket is Some,
        parsed matches Ok((local, route, message)) ==> {
            &&& local@ == local_address(args.local_socket->0)
            &&& route@ == socket_hop(args.via_socket) + socket_hop(args.remote_socket) + worker_hop(
                args.worker_addr,
            )
            &&& message@ == match args.message {
                Some(m) => m@,
                None => "Hello Ockam"@,
            }
        },
        parsed matches Err(e) ==> e@
            == "local socket address required: -l xxx.xxx.xxx.xxx:pppp"@,
        parsed matches Ok((local, route, message)) ==> {
            let via: int = if is_read(args.via_socket) {
                1
            } else {
                0
            };
            let remote: int = if is_read(args.remote_socket) {
                1
            } else {
                0
            };
            let named = args.worker_addr matches Some(text) && encoding::is_hex_text(text@);
            &&& args.local_socket matches Some(SocketArg::Address(socket)) ==> {
                &&& local.a_type == AddressType::Udp && local.length is None
                &&& local.address matches Address::UdpAddress(bound) && bound.ip@ == socket.ip@
                    && bound.port == socket.port
            }
            &&& args.local_socket matches Some(SocketArg::Unreadable) ==> {
                &&& local.a_type == AddressType::Udp && local.length == Some(7u8)
                &&& local.address matches Address::UdpAddress(bound) && bound.ip@ == "127.0.0.1"@
                    && bound.port == 4050
            }
            &&& route@.len() == via + remote + if named {
                1int
            } else {
                0
            }
            &&& args.via_socket matches Some(SocketArg::Address(socket)) ==> is_socket(
                route@[0],
                socket,
            )
            &&& args.remote_socket matches Some(SocketArg::Address(socket)) ==> is_socket(
                route@[via],
                socket,
            )
            &&& named ==> {
                let hop = route@[via + remote];
                &&& hop.a_type == AddressType::Worker && hop.length is None
                &&& hop.address == AddressView::WorkerAddress(
                    encoding::hex_bytes(args.worker_addr->0@),
                )
            }
            &&& args.message matches Some(m) ==> message@ == m@
            &&& args.message is None ==> message@ == "Hello Ockam"@
        },
{
    let mut local_socket = RouterAddress {
        a_type: AddressType::Udp,
        length: Some(7),
        address: Address::UdpAddress(SocketAddress { ip: "127.0.0.1".to_owned(), port: 4050 }),
    };
    if let Some(l) = args.local_socket {
        if let SocketArg::Address(socket) = l {
            if let Some(ra) = RouterAddress::from_address(Address::UdpAddress(socket)) {
                local_socket = ra;
            }
        }
    } else {
        return Err("local socket address required: -l xxx.xxx.xxx.xxx:pppp".to_owned());
    }

    let mut route = Route { addresses: Vec::new() };
    assert(route@ =~= Seq::empty());
    push_socket(&mut route, args.via_socket);
    push_socket(&mut route, args.remote_socket);
    let ghost sockets = route@;
    assert(sockets =~= socket_hop(args.via_socket) + socket_hop(args.remote_socket));
    let ghost worker = args.worker_addr;
    if let Some(wa) = args.worker_addr {
        if let Ok(ra) = RouterAddress::worker_router_address_from_str(wa.as_str()) {
            route.addresses.push(ra);
        }
    }
    assert(route@ =~= sockets + worker_hop(worker));

    let message: String = match args.message {
        Some(m) => m,
        None => "Hello Ockam".to_owned(),
    };
    Ok((local_socket, route, message))
}

/// What a node starts with: its socket, and a worker that is tested first and then, unless
/// there is nowhere to go or nothing to say, sends the payload. A node whose local address is
/// no UDP address does not start.
pub fn start_node(local_socket: RouterAddress, onward_route: Route, payload: String) -> (start:
    Option<NodeStart>)
    ensures
        start is Some <==> local_socket.address is UdpAddress,
        start matches Some(s) ==> {
            &&& s.socket@ == local_socket@.address.text()
            &&& s.channel@ == channel_address(0).address
            &&& s.commands@.map_values(|c: OckamCommand| c.to_worker()) == if onward_route@.len() > 0
                && payload@.len() > 0 {
                seq![
                    WorkerCommandView::Test,
                    WorkerCommandView::SendMessage(first_message(onward_route@, payload@)),
                ]
            } else {
                seq![WorkerCommandView::Test]
            }
        },
        start matches Some(s) ==> {
            &&& s.channel matches Address::ChannelAddress(bytes) && bytes@ =~= seq![
                0u8,
                0u8,
                0u8,
                0u8,
            ]
            &&& s.commands@.len() >= 1
            &&& s.commands@[0] matches OckamCommand::Worker(WorkerCommand::Test)
            &&& onward_route@.len() == 0 || payload@.len() == 0 ==> s.commands@.len() == 1
            &&& onward_route@.len() > 0 && payload@.len() > 0 ==> {
                &&& s.commands@.len() == 2
                &&& s.commands@[1] matches OckamCommand::Worker(WorkerCommand::SendMessage(m))
                &&& m@.onward_route == onward_route@
                &&& m@.return_route.len() == 0
                &&& m.message_type == MessageType::Payload
                &&& m.message_body@ == encode_utf8(payload@)
            }
        },
{
    match &local_socket.address {
        Address::UdpAddress(_) => {},
        _ => {
            return None;
        },
    }
    let socket: String = local_socket.address.as_string();
    let mut commands: Vec<OckamCommand> = vec![OckamCommand::Worker(WorkerCommand::Test)];
    if !onward_route.addresses.is_empty() && !payload.as_str().is_empty() {
        let m = Message {
            onward_route,
            return_route: Route { addresses: Vec::new() },
            message_type: MessageType::Payload,
            message_body: slice_to_vec(payload.as_str().as_bytes()),
        };
        assert(m@.return_route =~= Seq::empty());
        commands.push(OckamCommand::Worker(WorkerCommand::SendMessage(m)));
        assert(commands@.map_values(|c: OckamCommand| c.to_worker()) =~= seq![
            WorkerCommandView::Test,
            WorkerCommandView::SendMessage(first_message(onward_route@, payload@)),
        ]);
    } else {
        assert(commands@.map_values(|c: OckamCommand| c.to_worker()) =~= seq![
            WorkerCommandView::Test,
        ]);
    }
    Some(NodeStart { socket, channel: Address::channel(0), commands })
}

} // verus!
