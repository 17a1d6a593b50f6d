//! UDP sockets and the set that holds them.

use smoltcp::socket::{SocketHandle, SocketSet, UdpPacketMetadata, UdpSocket, UdpSocketBuffer};
use smoltcp::wire::{IpAddress, IpEndpoint, Ipv4Address, Ipv6Address};
use vstd::prelude::*;

verus! {

/// A UDP socket of the network stack.
#[verifier::external_type_specification]
#[verifier::external_body]
pub struct ExUdpSocket<'a>(smoltcp::socket::UdpSocket<'a>);

/// The handle of a socket in a set.
#[verifier::external_type_specification]
#[verifier::external_body]
pub struct ExSocketHandle(smoltcp::socket::SocketHandle);

/// A set of sockets of the network stack.
#[verifier::external_type_specification]
#[verifier::external_body]
pub struct ExSocketSet<'a>(smoltcp::socket::SocketSet<'a>);

/// An address of the Internet.
#[derive(Clone, Copy, Debug)]
pub enum NetIpAddr {
    Ipv4([u8; 4]),
    Ipv6([u8; 16]),
}

/// The number of packets that each of the two buffers of a socket holds.
pub const UDP_SLOTS: usize = 1;

/// A packet, with the address and port that it goes to or comes from.
pub struct Packet {
    pub addr: NetIpAddr,
    pub port: u16,
    pub data: Seq<u8>,
}

/// What there is to know of a UDP socket.
pub struct UdpInfo {
    /// The port that the socket is bound to, or 0.
    pub port: u16,
    /// The hop limit that the socket was given, if any.
    pub hop_limit: Option<u8>,
    /// The number of bytes that each of its two buffers was made with.
    pub buffer_len: int,
    /// The number of packets that each of its two buffers holds.
    pub slots: int,
    /// The packets that wait to be sent, in order.
    pub outbox: Seq<Packet>,
    /// The length of the longest packet for which the buffer for sending has room, or -1 where it
    /// has room for none. The buffer is a ring and keeps each packet in one piece, so this can be
    /// less than what is free.
    pub room: int,
    /// The packets that have come in and wait to be taken, in order.
    pub inbox: Seq<Packet>,
}

/// What there is to know of a UDP socket.
pub uninterp spec fn udp_info(socket: UdpSocket<'static>) -> UdpInfo;

/// The UDP sockets in a set, by handle.
pub uninterp spec fn udp_sockets(set: SocketSet<'static>) -> Map<SocketHandle, UdpInfo>;

/// Whether a set grows as sockets are added to it.
pub uninterp spec fn extensible(set: SocketSet<'static>) -> bool;

/// A socket that has not been used.
pub open spec fn unused_socket(port: u16, buffer_len: int, slots: int) -> UdpInfo {
    UdpInfo {
        port,
        hop_limit: None,
        buffer_len,
        slots,
        outbox: Seq::empty(),
        room: buffer_len,
        inbox: Seq::empty(),
    }
}

/// A socket of this service that has not been used.
pub open spec fn fresh_socket(port: u16, buffer_len: int) -> UdpInfo {
    unused_socket(port, buffer_len, UDP_SLOTS as int)
}

/// A socket after it has been closed: it is not bound, and its buffers are empty.
pub open spec fn closed_socket(socket: UdpInfo) -> UdpInfo {
    UdpInfo { hop_limit: socket.hop_limit, ..fresh_socket(0, socket.buffer_len) }
}

/// Makes a socket with `smoltcp`'s `UdpSocket::new`, with two buffers of `slots` packets and
/// `buflen` bytes each. The contract says that the socket is not bound to a port, that its buffers
/// have the given size and are empty, and that it has no hop limit of its own.
#[verifier::external_body]
fn new_udp_socket(buflen: usize, slots: usize) -> (socket: UdpSocket<'static>)
    requires
        buflen <= 0xffff,
        0 < slots <= 0xffff,
    ensures
        udp_info(socket) == unused_socket(0, buflen as int, slots as int),
{
    let rx_buffer = UdpSocketBuffer::new(vec![UdpPacketMetadata::EMPTY; slots], vec![0; buflen]);
    let tx_buffer = UdpSocketBuffer::new(vec![UdpPacketMetadata::EMPTY; slots], vec![0; buflen]);
    UdpSocket::new(rx_buffer, tx_buffer)
}

/// Binds a socket with `smoltcp`'s `UdpSocket::bind`. The contract says that this works on a socket
/// that is not bound yet, for any port but 0, and changes nothing but the port. Where it fails the
/// socket stays as it was.
#[verifier::external_body]
fn bind_udp_socket(socket: &mut UdpSocket<'static>, port: u16) -> (r: Result<(), smoltcp::Error>)
    ensures
        r is Ok <==> port != 0 && udp_info(*old(socket)).port == 0,
        udp_info(*final(socket)) == (if r is Ok {
            UdpInfo { port, ..udp_info(*old(socket)) }
        } else {
            udp_info(*old(socket))
        }),
{
    socket.bind(port)
}

/// Makes a set with `smoltcp`'s `SocketSet::new`, on storage of its own. The contract says that it
/// holds no socket and grows with the sockets that are added.
#[verifier::external_body]
pub(crate) fn new_socket_set() -> (set: SocketSet<'static>)
    ensures
        (udp_sockets(set) == Map::<SocketHandle, UdpInfo>::empty()),
        extensible(set),
{
    SocketSet::new(vec![])
}

/// Adds a UDP socket with `smoltcp`'s `SocketSet::add`. The contract says that the socket goes in
/// under a handle that no other UDP socket in the set has, and that the others stay as they are.
/// A set on storage of fixed size might be full, so the set must be one that grows.
#[verifier::external_body]
pub(crate) fn add_udp_socket(set: &mut SocketSet<'static>, socket: UdpSocket<'static>) -> (handle:
    SocketHandle)
    requires
        extensible(*old(set)),
    ensures
        extensible(*final(set)),
        !udp_sockets(*old(set)).contains_key(handle),
        udp_sockets(*final(set)) == udp_sockets(*old(set)).insert(handle, udp_info(socket)),
{
    set.add(socket)
}

/// Puts a UDP socket in the place of another, through the reference that `smoltcp`'s
/// `SocketSet::get` hands out. The contract says that the handle is that of the new socket from then
/// on, and that the others stay as they are. The handle must be that of a UDP socket in the set.
#[verifier::external_body]
fn replace_udp_socket(
    set: &mut SocketSet<'static>,
    handle: SocketHandle,
    socket: UdpSocket<'static>,
)
    requires
        udp_sockets(*old(set)).contains_key(handle),
    ensures
        extensible(*final(set)) == extensible(*old(set)),
        udp_sockets(*final(set)) == udp_sockets(*old(set)).insert(handle, udp_info(socket)),
{
    *set.get::<UdpSocket>(handle) = socket;
}

/// The length of the buffer for sending of a socket, by `smoltcp`'s
/// `UdpSocket::payload_send_capacity`. The contract says that it is the one that the buffer was made
/// with, and that nothing changes. The handle must be that of a UDP socket in the set.
#[verifier::external_body]
fn send_capacity(set: &mut SocketSet<'static>, handle: SocketHandle) -> (len: usize)
    requires
        udp_sockets(*old(set)).contains_key(handle),
    ensures
        extensible(*final(set)) == extensible(*old(set)),
        udp_sockets(*final(set)) == udp_sockets(*old(set)),
        len == udp_sockets(*old(set))[handle].buffer_len,
{
    set.get::<UdpSocket>(handle).payload_send_capacity()
}

/// Sets the hop limit of a socket with `smoltcp`'s `UdpSocket::set_hop_limit`. The contract says
/// that the socket has it from then on, and that nothing else changes. The handle must be that of
/// a UDP socket in the set, and a hop limit of 0 is not allowed.
#[verifier::external_body]
pub(crate) fn set_hop_limit(set: &mut SocketSet<'static>, handle: SocketHandle, limit: u8)
    requires
        udp_sockets(*old(set)).contains_key(handle),
        limit != 0,
    ensures
        extensible(*final(set)) == extensible(*old(set)),
        udp_sockets(*final(set)) == udp_sockets(*old(set)).insert(
            handle,
            UdpInfo { hop_limit: Some(limit), ..udp_sockets(*old(set))[handle] },
        ),
{
    set.get::<UdpSocket>(handle).set_hop_limit(Some(limit))
}

/// The hop limit of a socket, by `smoltcp`'s `UdpSocket::hop_limit`. The contract says that it is
/// the one that the socket was given, if any, which is never 0, and that nothing changes. The handle
/// must be that of a UDP socket in the set.
#[verifier::external_body]
pub(crate) fn hop_limit(set: &mut SocketSet<'static>, handle: SocketHandle) -> (limit: Option<u8>)
    requires
        udp_sockets(*old(set)).contains_key(handle),
    ensures
        extensible(*final(set)) == extensible(*old(set)),
        udp_sockets(*final(set)) == udp_sockets(*old(set)),
        limit == udp_sockets(*old(set))[handle].hop_limit,
        limit != Some(0u8),
{
    set.get::<UdpSocket>(handle).hop_limit()
}

/// Whether an address stands for no host, in the network stack.
pub open spec fn unspecified(addr: NetIpAddr) -> bool {
    match addr {
        NetIpAddr::Ipv4(bytes) => bytes@[0] == 0,
        NetIpAddr::Ipv6(bytes) => forall|i: int| 0 <= i < 16 ==> #[trigger] bytes@[i] == 0,
    }
}

/// Whether a socket takes a packet to send: it is bound, the destination is specified, and there is
/// room in its buffer.
pub open spec fn takes(socket: UdpInfo, len: int, addr: NetIpAddr, port: u16) -> bool {
    &&& socket.port != 0
    &&& !unspecified(addr)
    &&& port != 0
    &&& len <= socket.buffer_len
    &&& socket.outbox.len() < socket.slots
    &&& len <= socket.room
}

/// Whether a socket turns a packet away without looking for a place in its buffer: it is not bound,
/// the destination is not specified, the packet is longer than the buffer, or the buffer has room
/// for none.
pub open spec fn turns_away(socket: UdpInfo, len: int, addr: NetIpAddr, port: u16) -> bool {
    ||| socket.port == 0
    ||| unspecified(addr)
    ||| port == 0
    ||| len > socket.buffer_len
    ||| socket.outbox.len() >= socket.slots
    ||| socket.room == -1
}

/// The sockets after one of them has been handed a packet to send, with the room that is left in its
/// buffer then. A packet that it does not take leaves no trace but in that.
pub open spec fn handed_packet(
    sockets: Map<SocketHandle, UdpInfo>,
    handle: SocketHandle,
    packet: Packet,
    room: int,
) -> Map<SocketHandle, UdpInfo> {
    let socket = sockets[handle];
    let outbox = if takes(socket, packet.data.len() as int, packet.addr, packet.port) {
        socket.outbox.push(packet)
    } else {
        socket.outbox
    };
    sockets.insert(handle, UdpInfo { outbox, room, ..socket })
}

/// Hands a packet to a socket with `smoltcp`'s `UdpSocket::send_slice`. The contract says that it
/// is taken exactly where the socket is bound, the destination is specified, and there is room in
/// the buffer. A packet that is taken waits to be sent behind those that wait already, with the
/// destination and the bytes it was handed over with. Nothing else changes but the room that is
/// left. There is none once the buffer holds as many packets as it can. A packet that is turned away
/// leaves the room as it was; one that finds no place in one piece leaves it so or leaves none. How
/// much is left behind a packet that was taken is not said otherwise. The handle must be that of a
/// UDP socket in the set.
#[verifier::external_body]
pub(crate) fn send_slice(
    set: &mut SocketSet<'static>,
    handle: SocketHandle,
    data: &[u8],
    addr: NetIpAddr,
    port: u16,
) -> (r: Result<(), smoltcp::Error>)
    requires
        udp_sockets(*old(set)).contains_key(handle),
    ensures
        extensible(*final(set)) == extensible(*old(set)),
        r is Ok <==> takes(udp_sockets(*old(set))[handle], data@.len() as int, addr, port),
        udp_sockets(*final(set)) == handed_packet(
            udp_sockets(*old(set)),
            handle,
            (Packet { addr, port, data: data@ }),
            udp_sockets(*final(set))[handle].room,
        ),
        udp_sockets(*final(set))[handle].outbox.len() >= udp_sockets(*final(set))[handle].slots
            ==> udp_sockets(*final(set))[handle].room == -1,
        turns_away(udp_sockets(*old(set))[handle], data@.len() as int, addr, port)
            ==> udp_sockets(*final(set))[handle].room == udp_sockets(*old(set))[handle].room,
        r is Err ==> udp_sockets(*final(set))[handle].room == udp_sockets(*old(set))[handle].room
            || udp_sockets(*final(set))[handle].room == -1,
{
    let addr = match addr {
        NetIpAddr::Ipv4(bytes) => IpAddress::Ipv4(Ipv4Address(bytes)),
        NetIpAddr::Ipv6(bytes) => IpAddress::Ipv6(Ipv6Address(bytes)),
    };
    set.get::<UdpSocket>(handle).send_slice(data, IpEndpoint::new(addr, port))
}

/// The sockets after a packet that came in has been taken from one of them.
pub open spec fn packet_taken(sockets: Map<SocketHandle, UdpInfo>, handle: SocketHandle) -> Map<
    SocketHandle,
    UdpInfo,
> {
    let socket = sockets[handle];
    sockets.insert(handle, UdpInfo { inbox: socket.inbox.skip(1), ..socket })
}

/// Takes a packet that came in from a socket with `smoltcp`'s `UdpSocket::recv`: the address and
/// port of the sender, and the bytes. The contract says that it is the first of those that wait, that
/// there is one exactly where one waits, and that nothing else changes. An address that the network
/// stack leaves unspecified reads as zeros. The handle must be that of a UDP socket in the set, with
/// buffers of one packet.
#[verifier::external_body]
pub(crate) fn recv_packet(set: &mut SocketSet<'static>, handle: SocketHandle) -> (packet: Option<
    (NetIpAddr, u16, Vec<u8>),
>)
    requires
        udp_sockets(*old(set)).contains_key(handle),
        udp_sockets(*old(set))[handle].slots == 1,
    ensures
        extensible(*final(set)) == extensible(*old(set)),
        packet is Some <==> udp_sockets(*old(set))[handle].inbox.len() > 0,
        packet matches Some((addr, port, data)) ==> udp_sockets(*old(set))[handle].inbox[0] == (
        Packet { addr, port, data: data@ }) && udp_sockets(*final(set)) == packet_taken(
            udp_sockets(*old(set)),
            handle,
        ),
        packet is None ==> udp_sockets(*final(set)) == udp_sockets(*old(set)),
{
    let mut socket = set.get::<UdpSocket>(handle);
    let (data, endpoint) = socket.recv().ok()?;
    let addr = match endpoint.addr {
        IpAddress::Ipv4(addr) => NetIpAddr::Ipv4(addr.0),
        IpAddress::Ipv6(addr) => NetIpAddr::Ipv6(addr.0),
        _ => NetIpAddr::Ipv4([0; 4]),
    };
    Some((addr, endpoint.port, data.to_vec()))
}

/// Closes a socket: it is no longer bound, and what waits in its buffers is gone. It stays in the
/// set. The network stack has no call for this, so a new socket takes its place.
pub(crate) fn close_udp_socket(set: &mut SocketSet<'static>, handle: SocketHandle)
    requires
        udp_sockets(*old(set)).contains_key(handle),
        udp_sockets(*old(set))[handle].buffer_len <= 0xffff,
    ensures
        extensible(*final(set)) == extensible(*old(set)),
        udp_sockets(*final(set)) == udp_sockets(*old(set)).insert(
            handle,
            closed_socket(udp_sockets(*old(set))[handle]),
        ),
{
    let ghost before = udp_sockets(*set);
    let len: usize = send_capacity(set, handle);
    let limit: Option<u8> = hop_limit(set, handle);
    replace_udp_socket(set, handle, new_udp_socket(len, UDP_SLOTS));
    if let Some(limit) = limit {
        set_hop_limit(set, handle, limit);
    }
    assert(udp_sockets(*set) =~= before.insert(handle, closed_socket(before[handle])));
}

/// The length of the buffers of a socket: the longest payload that was asked for, or else the
/// longest packet of the network.
pub open spec fn buffer_len(max_payload: Option<u16>, mtu: u16) -> u16 {
    match max_payload {
        Some(len) => len,
        None => mtu,
    }
}

/// Opens a socket on `port`. Fails for port 0.
pub fn open_udp_socket(port: u16, max_payload: Option<u16>, mtu: u16) -> (socket: Option<
    UdpSocket<'static>,
>)
    ensures
        socket is Some <==> port != 0,
        socket matches Some(s) ==> udp_info(s) == fresh_socket(
            port,
            buffer_len(max_payload, mtu) as int,
        ),
{
    let buflen: usize = match max_payload {
        Some(maxlen) => maxlen as usize,
        None => mtu as usize,
    };
    let mut socket: UdpSocket<'static> = new_udp_socket(buflen, UDP_SLOTS);
    match bind_udp_socket(&mut socket, port) {
        Ok(_) => Some(socket),
        Err(_) => None,
    }
}

/// A socket has buffers of the length that was asked for, whatever it is, or else of the length of
/// the longest packet. It starts with empty buffers of one packet and without a hop limit.
pub proof fn law_fresh_socket(port: u16, len: u16, mtu: u16)
    ensures
        buffer_len(Some(len), mtu) == len,
        buffer_len(None, mtu) == mtu,
        ({
            let socket = fresh_socket(port, len as int);
            &&& socket.port == port
            &&& socket.hop_limit is None
            &&& socket.buffer_len == len
            &&& socket.slots == 1
            &&& socket.outbox.len() == 0
            &&& socket.inbox.len() == 0
            &&& socket.room == len
        }),
{
}

/// A closed socket is not bound, and nothing waits in it. Its buffers have the length that they had,
/// and its hop limit stays.
pub proof fn law_closed_socket(socket: UdpInfo)
    ensures
        closed_socket(socket).port == 0,
        closed_socket(socket).slots == 1,
        closed_socket(socket).outbox.len() == 0,
        closed_socket(socket).inbox.len() == 0,
        closed_socket(socket).buffer_len == socket.buffer_len,
        closed_socket(socket).hop_limit == socket.hop_limit,
        closed_socket(socket).room == socket.buffer_len,
{
}

/// A packet is taken from the front of those that came in, the others keep their order, and nothing
/// else changes on this socket or another.
pub proof fn law_packets_come_out_in_order(
    sockets: Map<SocketHandle, UdpInfo>,
    handle: SocketHandle,
    other: SocketHandle,
    i: int,
)
    requires
        sockets.contains_key(handle),
        sockets[handle].inbox.len() > 0,
    ensures
        ({
            let before = sockets[handle];
            let after = packet_taken(sockets, handle)[handle];
            &&& after.inbox.len() == before.inbox.len() - 1
            &&& 0 <= i < after.inbox.len() ==> after.inbox[i] == before.inbox[i + 1]
            &&& after == (UdpInfo { inbox: after.inbox, ..before })
            &&& packet_taken(sockets, handle).dom() == sockets.dom()
            &&& other != handle ==> packet_taken(sockets, handle)[other] == sockets[other]
        }),
{
    assert(packet_taken(sockets, handle).dom() =~= sockets.dom());
}

/// A packet that a socket takes waits behind all others, as it was handed over; one that it does not
/// take does not wait. Nothing else changes on this socket or another but the room that is left.
pub proof fn law_packets_wait_in_order(
    sockets: Map<SocketHandle, UdpInfo>,
    handle: SocketHandle,
    packet: Packet,
    room: int,
    other: SocketHandle,
)
    requires
        sockets.contains_key(handle),
    ensures
        ({
            let before = sockets[handle];
            let all = handed_packet(sockets, handle, packet, room);
            let after = all[handle];
            let taken = takes(before, packet.data.len() as int, packet.addr, packet.port);
            &&& taken ==> after.outbox == before.outbox.push(packet)
            &&& !taken ==> after.outbox == before.outbox
            &&& after.room == room
            &&& after == (UdpInfo { outbox: after.outbox, room, ..before })
            &&& all.dom() == sockets.dom()
            &&& other != handle ==> all[other] == sockets[other]
        }),
{
    assert(handed_packet(sockets, handle, packet, room).dom() =~= sockets.dom());
}

/// A socket takes a packet where it is bound, a slot is free, the destination has a port and an
/// address, and the packet is no longer than the buffer and the room in it. Where one of these
/// fails, it does not.
pub proof fn law_socket_takes_what_fits(socket: UdpInfo, len: int, addr: NetIpAddr, port: u16, i: int)
    ensures
        takes(socket, len, addr, port) ==> {
            &&& socket.port != 0
            &&& port != 0
            &&& len <= socket.buffer_len
            &&& len <= socket.room
            &&& socket.outbox.len() < socket.slots
            &&& addr matches NetIpAddr::Ipv4(bytes) ==> bytes@[0] != 0
        },
        socket.port != 0 && port != 0 && len <= socket.buffer_len && len <= socket.room
            && socket.outbox.len() < socket.slots && (addr matches NetIpAddr::Ipv4(bytes)
            && bytes@[0] != 0) ==> takes(socket, len, addr, port),
        socket.port != 0 && port != 0 && len <= socket.buffer_len && len <= socket.room
            && socket.outbox.len() < socket.slots && 0 <= i < 16 && (addr matches NetIpAddr::Ipv6(
            bytes,
        ) && bytes@[i] != 0) ==> takes(socket, len, addr, port),
        (addr matches NetIpAddr::Ipv6(bytes) && (forall|j: int|
            0 <= j < 16 ==> #[trigger] bytes@[j] == 0)) ==> !takes(socket, len, addr, port),
        turns_away(socket, len, addr, port) && len >= 0 ==> !takes(socket, len, addr, port),
{
}

/// A socket that is not bound turns every packet away, and so does one without a free slot or without
/// room. A packet is turned away that has no port or no address to go to, or is longer than the
/// buffer.
pub proof fn law_socket_turns_away(socket: UdpInfo, len: int, addr: NetIpAddr, port: u16)
    ensures
        socket.port == 0 ==> turns_away(socket, len, addr, port),
        socket.outbox.len() >= socket.slots ==> turns_away(socket, len, addr, port),
        socket.room == -1 ==> turns_away(socket, len, addr, port),
        port == 0 ==> turns_away(socket, len, addr, port),
        len > socket.buffer_len ==> turns_away(socket, len, addr, port),
        (addr matches NetIpAddr::Ipv4(bytes) && bytes@[0] == 0) ==> turns_away(
            socket,
            len,
            addr,
            port,
        ),
        (addr matches NetIpAddr::Ipv6(bytes) && (forall|j: int|
            0 <= j < 16 ==> #[trigger] bytes@[j] == 0)) ==> turns_away(socket, len, addr, port),
{
}

} // verus!
