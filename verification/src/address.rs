//! Addresses and routes.

use vstd::prelude::*;
use crate::encoding::{decimal_of, hex_decode, hex_encode, le_bytes_of, number_of};
use crate::encoding;

verus! {

/// The kinds of endpoint that a router tells apart.
#[derive(Debug, Clone, Copy, PartialEq, Eq, Structural)]
pub enum AddressType {
    Channel,
    Udp,
    Worker,
}

/// A socket address in plain values. `ip` is the printed form of the IP part (an IPv6
/// address stands in square brackets), so that `ip`, a colon and the port are the printed
/// form of the whole.
#[derive(Debug, PartialEq, Eq)]
pub struct SocketAddress {
    pub ip: String,
    pub port: u16,
}

/// The address of one endpoint.
#[derive(Debug, PartialEq, Eq)]
pub enum Address {
    ChannelAddress(Vec<u8>),
    UdpAddress(SocketAddress),
    WorkerAddress(Vec<u8>),
}

/// An address with the kind that the router goes by, and the number of bytes that it takes up
/// when it is sent, where that is not left to the router.
#[derive(Debug, PartialEq, Eq)]
pub struct RouterAddress {
    pub a_type: AddressType,
    pub length: Option<u8>,
    pub address: Address,
}

/// The addresses that a message still has to pass, next one first.
#[derive(Debug, PartialEq, Eq)]
pub struct Route {
    pub addresses: Vec<RouterAddress>,
}

/// Why a text is no address.
#[derive(Debug, Clone, Copy, PartialEq, Eq, Structural)]
pub enum AddressError {
    /// The text is not an even number of hexadecimal digits.
    NotHexadecimal,
}

// ---------------------------------------------------------------------------
// Model
// ---------------------------------------------------------------------------

/// What an [`Address`] says.
pub enum AddressView {
    ChannelAddress(Seq<u8>),
    UdpAddress(Seq<char>, u16),
    WorkerAddress(Seq<u8>),
}

/// What a [`RouterAddress`] says.
pub struct RouterAddressView {
    pub a_type: AddressType,
    pub length: Option<u8>,
    pub address: AddressView,
}

/// What a [`Route`] says.
pub type RouteView = Seq<RouterAddressView>;

impl View for SocketAddress {
    type V = (Seq<char>, u16);

    open spec fn view(&self) -> (Seq<char>, u16) {
        (self.ip@, self.port)
    }
}

impl View for Address {
    type V = AddressView;

    open spec fn view(&self) -> AddressView {
        match self {
            Address::ChannelAddress(bytes) => AddressView::ChannelAddress(bytes@),
            Address::UdpAddress(socket) => AddressView::UdpAddress(socket.ip@, socket.port),
            Address::WorkerAddress(bytes) => AddressView::WorkerAddress(bytes@),
        }
    }
}

impl View for RouterAddress {
    type V = RouterAddressView;

    open spec fn view(&self) -> RouterAddressView {
        RouterAddressView { a_type: self.a_type, length: self.length, address: self.address@ }
    }
}

impl View for Route {
    type V = RouteView;

    open spec fn view(&self) -> RouteView {
        self.addresses@.map_values(|a: RouterAddress| a@)
    }
}

impl AddressView {
    /// The printed form: the bytes of a channel or worker address in hexadecimal, a socket
    /// address as its IP part, a colon and the decimal port.
    pub open spec fn text(self) -> Seq<char> {
        match self {
            AddressView::ChannelAddress(bytes) => encoding::hex_text(bytes),
            AddressView::UdpAddress(ip, port) => ip + seq![':'] + encoding::decimal_text(
                port as nat,
            ),
            AddressView::WorkerAddress(bytes) => encoding::hex_text(bytes),
        }
    }

    /// Whether the printed form is short enough to be held in memory.
    pub open spec fn printable(self) -> bool {
        match self {
            AddressView::ChannelAddress(bytes) => 2 * bytes.len() <= isize::MAX,
            AddressView::UdpAddress(_, _) => true,
            AddressView::WorkerAddress(bytes) => 2 * bytes.len() <= isize::MAX,
        }
    }

    /// The identifier of the channel that the address prints like, if any.
    pub open spec fn channel_id(self) -> Option<u32> {
        match self {
            AddressView::ChannelAddress(bytes) | AddressView::WorkerAddress(bytes) => {
                if bytes.len() == 4 {
                    Some(encoding::from_le_bytes(bytes))
                } else {
                    None
                }
            },
            AddressView::UdpAddress(_, _) => None,
        }
    }

    /// The kind of the address.
    pub open spec fn kind(self) -> AddressType {
        match self {
            AddressView::ChannelAddress(_) => AddressType::Channel,
            AddressView::UdpAddress(_, _) => AddressType::Udp,
            AddressView::WorkerAddress(_) => AddressType::Worker,
        }
    }

    /// The address with its own kind, and its length left to the router.
    pub open spec fn routed(self) -> RouterAddressView {
        RouterAddressView { a_type: self.kind(), length: None, address: self }
    }
}

/// The address of the channel with the given identifier.
pub open spec fn channel_address(id: u32) -> RouterAddressView {
    AddressView::ChannelAddress(encoding::le_bytes(id)).routed()
}

/// A channel or worker address prints as its bytes in hexadecimal, all of them and nothing else; a
/// socket address prints as its IP part, a colon, and digits that stand for its port. All can be
/// printed whose print is not longer than memory.
pub proof fn law_print(a: AddressView)
    ensures
        match a {
            AddressView::ChannelAddress(bytes) => a.text() == encoding::hex_text(bytes),
            AddressView::WorkerAddress(bytes) => a.text() == encoding::hex_text(bytes),
            AddressView::UdpAddress(ip, port) => {
                let digits = a.text().skip(ip.len() as int + 1);
                &&& a.text().len() > ip.len() + 1
                &&& a.text().take(ip.len() as int) == ip
                &&& a.text()[ip.len() as int] == ':'
                &&& encoding::decimal_value(digits) == port
                &&& digits.len() > 1 ==> digits[0] != '0'
                &&& forall|i: int|
                    0 <= i < digits.len() ==> '0' as int <= (#[trigger] digits[i]) as int
                        <= '9' as int
            },
        },
        a is UdpAddress ==> a.printable(),
        a matches AddressView::ChannelAddress(bytes) ==> (a.printable() <==> 2 * bytes.len()
            <= isize::MAX),
        a matches AddressView::WorkerAddress(bytes) ==> (a.printable() <==> 2 * bytes.len()
            <= isize::MAX),
{
    if let AddressView::UdpAddress(ip, port) = a {
        encoding::law_decimal_text_reads_back(port as nat);
        assert(a.text().take(ip.len() as int) =~= ip);
        assert(a.text().skip(ip.len() as int + 1) =~= encoding::decimal_text(port as nat));
    }
}

/// An address stands in a route with its own kind, whole, and its length left open. The address of
/// a channel is a channel address of four bytes that make up its identifier, the least significant
/// one first.
pub proof fn law_routed(a: AddressView, id: u32)
    ensures
        a.routed().address == a,
        a.routed().length is None,
        a is ChannelAddress ==> a.routed().a_type == AddressType::Channel,
        a is UdpAddress ==> a.routed().a_type == AddressType::Udp,
        a is WorkerAddress ==> a.routed().a_type == AddressType::Worker,
        channel_address(id).a_type == AddressType::Channel,
        channel_address(id).length is None,
        channel_address(id).address matches AddressView::ChannelAddress(bytes) && bytes.len() == 4
            && id == bytes[0] + 256 * bytes[1] + 65536 * bytes[2] + 16777216 * bytes[3],
{
    encoding::law_le_bytes_weigh(id, encoding::le_bytes(id));
}

/// What a route says is what each of its addresses says, in order and all of them.
pub proof fn law_route_says_all(route: Route, i: int)
    ensures
        route@.len() == route.addresses@.len(),
        0 <= i < route.addresses@.len() ==> {
            let a = route.addresses@[i];
            &&& route@[i].a_type == a.a_type
            &&& route@[i].length == a.length
            &&& match a.address {
                Address::ChannelAddress(bytes) => route@[i].address == AddressView::ChannelAddress(
                    bytes@,
                ),
                Address::WorkerAddress(bytes) => route@[i].address == AddressView::WorkerAddress(
                    bytes@,
                ),
                Address::UdpAddress(socket) => route@[i].address == AddressView::UdpAddress(
                    socket.ip@,
                    socket.port,
                ),
            }
        },
{
}

/// An address prints like the channel with identifier `id` exactly if `id` is the
/// identifier read from it: to look a channel up by identifier is to look it up by the
/// printed form of its address.
pub proof fn law_channel_id_is_text(a: AddressView, id: u32)
    ensures
        a.channel_id() == Some(id) <==> a.text() == encoding::hex_text(encoding::le_bytes(id)),
        channel_address(id).address.channel_id() == Some(id),
{
    let key = encoding::hex_text(encoding::le_bytes(id));
    encoding::lemma_le_bytes(id, encoding::le_bytes(id));
    encoding::law_hex_round_trip(encoding::le_bytes(id));
    match a {
        AddressView::ChannelAddress(bytes) | AddressView::WorkerAddress(bytes) => {
            encoding::law_hex_round_trip(bytes);
            assert(encoding::hex_text(bytes).len() == 2 * bytes.len());
            assert(key.len() == 8);
            if bytes.len() == 4 {
                encoding::lemma_le_bytes(id, bytes);
            }
        },
        AddressView::UdpAddress(ip, port) => {
            assert(a.text()[ip.len() as int] == ':');
            if a.text() == key {
                assert(encoding::hex_value(key[ip.len() as int]) is Some);
            }
        },
    }
}

/// The address that asks for a new channel, `00000000` in print, is that of identifier zero.
pub proof fn law_zero_channel_text(a: AddressView)
    ensures
        a.channel_id() == Some(0u32) <==> a.text() == "00000000"@,
{
    reveal_strlit("00000000");
    law_channel_id_is_text(a, 0);
    assert(encoding::hex_text(encoding::le_bytes(0)) =~= "00000000"@);
}

// ---------------------------------------------------------------------------
// Operations
// ---------------------------------------------------------------------------

impl Clone for SocketAddress {
    fn clone(&self) -> (copy: Self)
        ensures
            copy@ == self@,
    {
        SocketAddress { ip: self.ip.clone(), port: self.port }
    }
}

impl Clone for Address {
    fn clone(&self) -> (copy: Self)
        ensures
            copy@ == self@,
    {
        match self {
            Address::ChannelAddress(bytes) => {
                let copy: Vec<u8> = bytes.clone();
                assert(copy@ =~= bytes@);
                Address::ChannelAddress(copy)
            },
            Address::UdpAddress(socket) => Address::UdpAddress(socket.clone()),
            Address::WorkerAddress(bytes) => {
                let copy: Vec<u8> = bytes.clone();
                assert(copy@ =~= bytes@);
                Address::WorkerAddress(copy)
            },
        }
    }
}

impl Clone for RouterAddress {
    fn clone(&self) -> (copy: Self)
        ensures
            copy@ == self@,
    {
        RouterAddress { a_type: self.a_type, length: self.length, address: self.address.clone() }
    }
}

impl Clone for Route {
    fn clone(&self) -> (copy: Self)
        ensures
            copy@ == self@,
    {
        let copy = Route { addresses: self.addresses.clone() };
        assert(copy@ =~= self@);
        copy
    }
}

impl Address {
    /// The printed form of the address.
    pub fn as_string(&self) -> (text: String)
        requires
            self@.printable(),
        ensures
            text@ == self@.text(),
    {
        match self {
            Address::ChannelAddress(bytes) => hex_encode(bytes.as_slice()),
            Address::UdpAddress(socket) => {
                proof {
                    reveal_strlit(":");
                }
                let port: String = decimal_of(socket.port);
                let text: String = socket.ip.clone().concat(":").concat(port.as_str());
                assert(text@ =~= self@.text());
                text
            },
            Address::WorkerAddress(bytes) => hex_encode(bytes.as_slice()),
        }
    }

    /// The identifier of the channel that the address prints like, if any.
    pub fn channel_id(&self) -> (id: Option<u32>)
        ensures
            id == self@.channel_id(),
    {
        match self {
            Address::ChannelAddress(bytes) | Address::WorkerAddress(bytes) => {
                if bytes.len() == 4 {
                    Some(number_of(bytes))
                } else {
                    None
                }
            },
            Address::UdpAddress(_) => None,
        }
    }

    /// The address of the channel with the given identifier.
    pub fn channel(id: u32) -> (address: Address)
        ensures
            address@ == channel_address(id).address,
    {
        Address::ChannelAddress(le_bytes_of(id))
    }
}

impl RouterAddress {
    /// An address with the kind that belongs to it, and its length left to the router.
    pub fn from_address(address: Address) -> (routed: Option<RouterAddress>)
        ensures
            routed matches Some(r) && r@ == address@.routed(),
    {
        let a_type = match &address {
            Address::ChannelAddress(_) => AddressType::Channel,
            Address::UdpAddress(_) => AddressType::Udp,
            Address::WorkerAddress(_) => AddressType::Worker,
        };
        Some(RouterAddress { a_type, length: None, address })
    }

    /// The channel address that a hexadecimal text prints.
    pub fn channel_router_address_from_str(text: &str) -> (routed: Result<
        RouterAddress,
        AddressError,
    >)
        ensures
            routed is Ok <==> encoding::is_hex_text(text@),
            routed matches Ok(r) ==> r@ == AddressView::ChannelAddress(
                encoding::hex_bytes(text@),
            ).routed(),
            routed matches Err(e) ==> e == AddressError::NotHexadecimal,
    {
        match hex_decode(text) {
            Ok(bytes) => Ok(
                RouterAddress {
                    a_type: AddressType::Channel,
                    length: None,
                    address: Address::ChannelAddress(bytes),
                },
            ),
            Err(_) => Err(AddressError::NotHexadecimal),
        }
    }

    /// The worker address that a hexadecimal text prints.
    pub fn worker_router_address_from_str(text: &str) -> (routed: Result<
        RouterAddress,
        AddressError,
    >)
        ensures
            routed is Ok <==> encoding::is_hex_text(text@),
            routed matches Ok(r) ==> r@ == AddressView::WorkerAddress(
                encoding::hex_bytes(text@),
            ).routed(),
            routed matches Err(e) ==> e == AddressError::NotHexadecimal,
    {
        match hex_decode(text) {
            Ok(bytes) => Ok(
                RouterAddress {
                    a_type: AddressType::Worker,
                    length: None,
                    address: Address::WorkerAddress(bytes),
                },
            ),
            Err(_) => Err(AddressError::NotHexadecimal),
        }
    }
}

impl Route {
    /// The route of one address.
    pub fn single(address: RouterAddress) -> (route: Route)
        ensures
            route@ == seq![address@],
    {
        let route = Route { addresses: vec![address] };
        assert(route@ =~= seq![address@]);
        route
    }
}

} // verus!
