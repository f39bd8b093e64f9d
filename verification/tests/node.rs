use ockam_channel::address::{Address, AddressError, AddressType, Route, RouterAddress, SocketAddress};
use ockam_channel::message::{Message, MessageType, OckamCommand, WorkerCommand};
use ockam_channel::node::{get_route, parse_args, start_node, Args, SocketArg};

fn socket(ip: &str, port: u16) -> SocketAddress {
    SocketAddress { ip: ip.to_string(), port }
}

fn udp(ip: &str, port: u16) -> RouterAddress {
    RouterAddress {
        a_type: AddressType::Udp,
        length: None,
        address: Address::UdpAddress(socket(ip, port)),
    }
}

fn no_args() -> Args {
    Args {
        local_socket: None,
        remote_socket: None,
        via_socket: None,
        worker_addr: None,
        message: None,
    }
}

#[test]
fn hexadecimal_addresses_are_read() {
    let a = RouterAddress::channel_router_address_from_str("deadbeef").unwrap();
    assert_eq!(a.a_type, AddressType::Channel);
    assert_eq!(a.address, Address::ChannelAddress(vec![0xde, 0xad, 0xbe, 0xef]));
    let a = RouterAddress::worker_router_address_from_str("0A0b").unwrap();
    assert_eq!(a.a_type, AddressType::Worker);
    assert_eq!(a.address, Address::WorkerAddress(vec![10, 11]));
    assert_eq!(
        RouterAddress::worker_router_address_from_str("").unwrap().address,
        Address::WorkerAddress(vec![])
    );
    for text in ["abc", "0g", "é", "12 4"] {
        assert_eq!(
            RouterAddress::channel_router_address_from_str(text),
            Err(AddressError::NotHexadecimal)
        );
        assert_eq!(
            RouterAddress::worker_router_address_from_str(text),
            Err(AddressError::NotHexadecimal)
        );
    }
}

#[test]
fn addresses_are_printed() {
    assert_eq!(Address::ChannelAddress(vec![0xDE, 0xAD, 0x0f, 0xF0]).as_string(), "dead0ff0");
    assert_eq!(Address::WorkerAddress(vec![0, 1, 2, 3]).as_string(), "00010203");
    assert_eq!(Address::ChannelAddress(vec![]).as_string(), "");
    assert_eq!(Address::UdpAddress(socket("127.0.0.1", 4050)).as_string(), "127.0.0.1:4050");
    assert_eq!(Address::UdpAddress(socket("[::1]", 0)).as_string(), "[::1]:0");
    assert_eq!(Address::UdpAddress(socket("10.0.0.1", 65535)).as_string(), "10.0.0.1:65535");
}

#[test]
fn printing_and_reading_agree() {
    let bytes: Vec<u8> = (0u8..=255).collect();
    let text = Address::ChannelAddress(bytes.clone()).as_string();
    assert_eq!(text.len(), 512);
    assert_eq!(
        RouterAddress::channel_router_address_from_str(&text).unwrap().address,
        Address::ChannelAddress(bytes)
    );
}

#[test]
fn identifiers_are_little_endian() {
    assert_eq!(Address::channel(0x0403_0201), Address::ChannelAddress(vec![1, 2, 3, 4]));
    assert_eq!(Address::ChannelAddress(vec![1, 2, 3, 4]).channel_id(), Some(0x0403_0201));
    assert_eq!(Address::WorkerAddress(vec![255, 255, 255, 255]).channel_id(), Some(u32::MAX));
    assert_eq!(Address::ChannelAddress(vec![0, 0, 0, 0]).channel_id(), Some(0));
    assert_eq!(Address::ChannelAddress(vec![0, 0, 0]).channel_id(), None);
    assert_eq!(Address::UdpAddress(socket("1.2.3.4", 5)).channel_id(), None);
    assert_eq!(Address::channel(0).as_string(), "00000000");
}

#[test]
fn addresses_get_their_kind() {
    assert_eq!(
        RouterAddress::from_address(Address::UdpAddress(socket("1.2.3.4", 5))),
        Some(udp("1.2.3.4", 5))
    );
    assert_eq!(
        RouterAddress::from_address(Address::WorkerAddress(vec![1])).unwrap().a_type,
        AddressType::Worker
    );
    assert_eq!(
        RouterAddress::from_address(Address::ChannelAddress(vec![1])).unwrap().a_type,
        AddressType::Channel
    );
}

#[test]
fn route_to_this_machine() {
    assert_eq!(
        get_route(),
        Some(Route {
            addresses: vec![
                udp("127.0.0.1", 4051),
                RouterAddress {
                    a_type: AddressType::Channel,
                    length: None,
                    address: Address::ChannelAddress(vec![1, 2, 3, 4]),
                },
            ]
        })
    );
}

#[test]
fn local_socket_is_required() {
    assert_eq!(
        parse_args(no_args()),
        Err("local socket address required: -l xxx.xxx.xxx.xxx:pppp".to_string())
    );
}

#[test]
fn defaults_stand_in() {
    let args = Args { local_socket: Some(SocketArg::Unreadable), ..no_args() };
    let local = RouterAddress { length: Some(7), ..udp("127.0.0.1", 4050) };
    assert_eq!(
        parse_args(args),
        Ok((local, Route { addresses: vec![] }, "Hello Ockam".to_string()))
    );
}

#[test]
fn route_passes_via_and_remote_to_worker() {
    let args = Args {
        local_socket: Some(SocketArg::Address(socket("10.0.0.1", 1))),
        remote_socket: Some(SocketArg::Address(socket("10.0.0.2", 2))),
        via_socket: Some(SocketArg::Address(socket("10.0.0.3", 3))),
        worker_addr: Some("01020304".to_string()),
        message: Some("hi".to_string()),
    };
    let (local, route, message) = parse_args(args).unwrap();
    assert_eq!(local, udp("10.0.0.1", 1));
    assert_eq!(
        route.addresses,
        vec![
            udp("10.0.0.3", 3),
            udp("10.0.0.2", 2),
            RouterAddress::worker_router_address_from_str("01020304").unwrap(),
        ]
    );
    assert_eq!(message, "hi");
}

#[test]
fn unreadable_hops_are_left_out() {
    let args = Args {
        local_socket: Some(SocketArg::Address(socket("10.0.0.1", 1))),
        remote_socket: Some(SocketArg::Address(socket("10.0.0.2", 2))),
        via_socket: Some(SocketArg::Unreadable),
        worker_addr: Some("no worker".to_string()),
        message: None,
    };
    let (_, route, _) = parse_args(args).unwrap();
    assert_eq!(route.addresses, vec![udp("10.0.0.2", 2)]);
}

#[test]
fn node_starts_with_its_message() {
    let onward = Route { addresses: vec![udp("10.0.0.2", 2)] };
    let start = start_node(udp("10.0.0.1", 4050), onward.clone(), "héllo".to_string()).unwrap();
    assert_eq!(start.socket, "10.0.0.1:4050");
    assert_eq!(start.channel, Address::ChannelAddress(vec![0, 0, 0, 0]));
    assert_eq!(
        start.commands,
        vec![
            OckamCommand::Worker(WorkerCommand::Test),
            OckamCommand::Worker(WorkerCommand::SendMessage(Message {
                onward_route: onward,
                return_route: Route { addresses: vec![] },
                message_type: MessageType::Payload,
                message_body: "héllo".as_bytes().to_vec(),
            })),
        ]
    );
}

#[test]
fn node_without_route_or_payload_only_tests() {
    let nowhere = Route { addresses: vec![] };
    let start = start_node(udp("10.0.0.1", 1), nowhere, "hi".to_string()).unwrap();
    assert_eq!(start.commands, vec![OckamCommand::Worker(WorkerCommand::Test)]);
    let onward = Route { addresses: vec![udp("10.0.0.2", 2)] };
    let start = start_node(udp("10.0.0.1", 1), onward, String::new()).unwrap();
    assert_eq!(start.commands, vec![OckamCommand::Worker(WorkerCommand::Test)]);
}

#[test]
fn node_needs_a_udp_address() {
    let local = RouterAddress::worker_router_address_from_str("01").unwrap();
    assert_eq!(start_node(local, Route { addresses: vec![] }, "hi".to_string()), None);
}
