//! The UDP ports: who listens on them, and the sockets behind them.

use crate::net::sockets::{
    add_udp_socket, buffer_len, close_udp_socket, closed_socket, extensible, fresh_socket,
    handed_packet, hop_limit, new_socket_set, open_udp_socket, packet_taken, recv_packet,
    send_slice, set_hop_limit, takes, turns_away, udp_sockets, unspecified, NetIpAddr, Packet,
    UdpInfo, UDP_SLOTS,
};
use crate::net::udp::{
    clone_reply, close_outcome, closed, clones_of, fitted, is_clone, law_owner_joins_and_leaves,
    port_of_word, udp_response, with_clone, CloseOutcome, NetMemResponse, NetUdpResponse, Sid,
    UdpState, UdpTable, UdpTableState,
};
use smoltcp::socket::{SocketHandle, SocketSet};
use vstd::prelude::*;

verus! {

/// The hop limit of a socket that was not given one.
pub const DEFAULT_TTL: u8 = 64;

/// The state of [`UdpPorts`].
#[verifier::ext_equal]
pub struct UdpPortsState {
    /// Who listens where.
    pub table: UdpTableState,
    /// The UDP sockets.
    pub sockets: Map<SocketHandle, UdpInfo>,
    /// Whether there is always room for another socket.
    pub extensible: bool,
}

/// Whether a socket serves a port: it is bound to it, and its buffers are of the size that the
/// sockets of this service have.
pub open spec fn serves(socket: UdpInfo, port: u16) -> bool {
    &&& socket.port == port
    &&& socket.slots == UDP_SLOTS
    &&& socket.buffer_len <= 0xffff
}

/// Every port that has an owner has a socket that serves it, and there is room for more sockets.
pub open spec fn ports_inv(s: UdpPortsState) -> bool {
    &&& s.extensible
    &&& forall|port: u16| #[trigger]
        s.table.handles.contains_key(port) ==> {
            &&& s.sockets.contains_key(s.table.handles[port].handle)
            &&& serves(s.sockets[s.table.handles[port].handle], port)
        }
}

/// The UDP ports.
pub struct UdpPorts {
    table: UdpTable,
    /// All sockets, for the network stack to work on.
    pub sockets: SocketSet<'static>,
}

impl View for UdpPorts {
    type V = UdpPortsState;

    closed spec fn view(&self) -> UdpPortsState {
        UdpPortsState {
            table: self.table@,
            sockets: udp_sockets(self.sockets),
            extensible: extensible(self.sockets),
        }
    }
}

/// The hop limit that a request for `ttl` gives: the default for a value out of range.
pub open spec fn checked_ttl(ttl: usize) -> u8 {
    if ttl > 255 || ttl == 0 {
        DEFAULT_TTL
    } else {
        ttl as u8
    }
}

/// The port in a message word.
pub open spec fn word_port(word: usize) -> u16 {
    (word % 0x1_0000) as u16
}

/// The state after the hop limit of the packets sent from `port` has been set.
pub open spec fn with_ttl(s: UdpPortsState, port: u16, ttl: usize) -> UdpPortsState {
    if s.table.handles.contains_key(port) {
        let handle = s.table.handles[port].handle;
        UdpPortsState {
            sockets: s.sockets.insert(
                handle,
                UdpInfo { hop_limit: Some(checked_ttl(ttl)), ..s.sockets[handle] },
            ),
            ..s
        }
    } else {
        s
    }
}

/// The answer to a request for the hop limit of the packets sent from `port`.
pub open spec fn ttl_of(s: UdpPortsState, port: u16) -> usize {
    if s.table.handles.contains_key(port) {
        match owner_socket(s, port).hop_limit {
            Some(limit) => limit as usize,
            None => DEFAULT_TTL as usize,
        }
    } else {
        usize::MAX
    }
}

/// The socket of a port that has an owner.
pub open spec fn owner_socket(s: UdpPortsState, port: u16) -> UdpInfo {
    s.sockets[s.table.handles[port].handle]
}

/// The answer to a request to send `len` bytes from `local_port`.
pub open spec fn transmit_answer(
    s: UdpPortsState,
    local_port: u16,
    destination: Option<(NetIpAddr, u16)>,
    len: u16,
) -> NetMemResponse {
    match destination {
        Some((addr, port)) if s.table.handles.contains_key(local_port) => if takes(
            owner_socket(s, local_port),
            len as int,
            addr,
            port,
        ) {
            NetMemResponse::Sent(len)
        } else {
            NetMemResponse::LibraryError
        },
        _ => NetMemResponse::Invalid,
    }
}

/// The packet with the given destination and bytes.
pub open spec fn addressed(destination: (NetIpAddr, u16), data: Seq<u8>) -> Packet {
    Packet { addr: destination.0, port: destination.1, data }
}

/// The answer after a packet of `len` bytes has been handed to the network, or refused.
pub fn transmit_reply(len: u16, sent: bool) -> (reply: NetMemResponse)
    ensures
        reply == (if sent {
            NetMemResponse::Sent(len)
        } else {
            NetMemResponse::LibraryError
        }),
{
    if sent {
        NetMemResponse::Sent(len)
    } else {
        NetMemResponse::LibraryError
    }
}

impl UdpPorts {
    /// What holds of the ports at all times.
    pub open spec fn wf(self) -> bool {
        ports_inv(self@)
    }

    /// No port has a listener, and there is no socket.
    pub fn new() -> (ports: Self)
        ensures
            ports.wf(),
            ports@ == (UdpPortsState {
                table: UdpTableState {
                    handles: Map::empty(),
                    clones: Map::empty(),
                    to_disconnect: None,
                },
                sockets: Map::empty(),
                extensible: true,
            }),
    {
        UdpPorts { table: UdpTable::new(), sockets: new_socket_set() }
    }

    /// Who listens where.
    pub fn table(&self) -> (table: &UdpTable)
        ensures
            table@ == self@.table,
    {
        &self.table
    }

    /// Opens a socket on `port`, for a listener that is to own it. Fails for port 0.
    pub fn open_socket(&mut self, port: u16, max_payload: Option<u16>, mtu: u16) -> (r: Result<
        SocketHandle,
        NetMemResponse,
    >)
        requires
            old(self).wf(),
        ensures
            final(self).wf(),
            final(self)@.table == old(self)@.table,
            r is Ok <==> port != 0,
            r matches Ok(handle) ==> {
                &&& !old(self)@.sockets.contains_key(handle)
                &&& final(self)@.sockets == old(self)@.sockets.insert(
                    handle,
                    fresh_socket(port, buffer_len(max_payload, mtu) as int),
                )
            },
            r matches Err(reply) ==> {
                &&& reply == NetMemResponse::Invalid
                &&& final(self)@ == old(self)@
            },
    {
        match open_udp_socket(port, max_payload, mtu) {
            Some(socket) => Ok(add_udp_socket(&mut self.sockets, socket)),
            None => Err(NetMemResponse::Invalid),
        }
    }

    /// Makes a listener the owner of a port, with the socket that was opened for it.
    pub fn add_owner(&mut self, port: u16, handle: SocketHandle, cid: u32, sid: Sid) -> (reply:
        NetMemResponse)
        requires
            old(self).wf(),
            old(self)@.sockets.contains_key(handle),
            serves(old(self)@.sockets[handle], port),
        ensures
            final(self).wf(),
            final(self)@ == (UdpPortsState {
                table: UdpTableState {
                    handles: old(self)@.table.handles.insert(port, UdpState { handle, cid, sid }),
                    ..old(self)@.table
                },
                ..old(self)@
            }),
            reply == NetMemResponse::Done,
    {
        self.table.add_owner(port, handle, cid, sid)
    }

    /// Adds a further listener to a port that has an owner. A listener that is added twice is told
    /// so, and is reached over its new connection.
    pub fn add_clone(&mut self, port: u16, sid: Sid, cid: u32) -> (reply: NetMemResponse)
        requires
            old(self).wf(),
        ensures
            final(self).wf(),
            final(self)@ == (UdpPortsState {
                table: with_clone(old(self)@.table, port, sid, cid),
                ..old(self)@
            }),
            reply == clone_reply(old(self)@.table, port, sid),
    {
        self.table.add_clone(port, sid, cid)
    }

    /// Takes the listener `sid` off `port`, and closes the socket where nobody is left. Where the
    /// owner leaves, one of the further listeners takes over, and which one is left open. Where
    /// `sid` does not listen on the port, the request is invalid and nothing changes.
    pub fn close(&mut self, port: u16, sid: Sid) -> (reply: NetMemResponse)
        requires
            old(self).wf(),
        ensures
            final(self).wf(),
            exists|heir: Sid|
                {
                    &&& final(self)@.table == #[trigger] closed(old(self)@.table, port, sid, heir)
                    &&& clones_of(old(self)@.table, port).dom() != Set::<u128>::empty()
                        ==> is_clone(old(self)@.table, port, heir)
                },
            final(self)@.sockets == (match close_outcome(old(self)@.table, port, sid).close_socket {
                Some(handle) => old(self)@.sockets.insert(
                    handle,
                    closed_socket(old(self)@.sockets[handle]),
                ),
                None => old(self)@.sockets,
            }),
            reply == close_outcome(old(self)@.table, port, sid).reply,
    {
        let outcome: CloseOutcome = self.table.close(port, sid);
        if let Some(handle) = outcome.close_socket {
            close_udp_socket(&mut self.sockets, handle);
        }
        outcome.reply
    }

    /// The connection to cut, once: it is due after the answer to the request that caused it.
    pub fn take_disconnect(&mut self) -> (cid: Option<u32>)
        requires
            old(self).wf(),
        ensures
            final(self).wf(),
            cid == old(self)@.table.to_disconnect,
            final(self)@ == (UdpPortsState {
                table: UdpTableState { to_disconnect: None, ..old(self)@.table },
                ..old(self)@
            }),
    {
        self.table.take_disconnect()
    }

    /// Sends a packet from `local_port`: the first `len` bytes of `data`. A port without an owner
    /// and a packet without a destination are invalid. Otherwise the answer says whether the
    /// socket took the packet, which then waits to be sent.
    pub fn transmit(
        &mut self,
        local_port: u16,
        destination: Option<(NetIpAddr, u16)>,
        data: &[u8],
        len: u16,
    ) -> (reply: NetMemResponse)
        requires
            old(self).wf(),
            old(self)@.table.handles.contains_key(local_port) && destination is Some ==> len
                <= data@.len(),
        ensures
            final(self).wf(),
            reply == transmit_answer(old(self)@, local_port, destination, len),
            reply == NetMemResponse::Invalid ==> final(self)@ == old(self)@,
            reply != NetMemResponse::Invalid ==> final(self)@ == (UdpPortsState {
                sockets: handed_packet(
                    old(self)@.sockets,
                    old(self)@.table.handles[local_port].handle,
                    addressed(destination->Some_0, data@.take(len as int)),
                    owner_socket(final(self)@, local_port).room,
                ),
                ..old(self)@
            }),
            reply == NetMemResponse::Sent(len) ==> owner_socket(final(self)@, local_port).outbox.len()
                >= UDP_SLOTS && owner_socket(final(self)@, local_port).room == -1,
            reply == NetMemResponse::LibraryError ==> owner_socket(final(self)@, local_port).room
                == owner_socket(old(self)@, local_port).room || owner_socket(
                final(self)@,
                local_port,
            ).room == -1,
            reply == NetMemResponse::LibraryError && turns_away(
                owner_socket(old(self)@, local_port),
                len as int,
                destination->Some_0.0,
                destination->Some_0.1,
            ) ==> final(self)@ == old(self)@,
    {
        match (self.table.socket(local_port), destination) {
            (Some(handle), Some((addr, port))) => {
                let payload: &[u8] = vstd::slice::slice_subrange(data, 0, len as usize);
                assert(payload@ =~= data@.take(len as int));
                let sent: bool = send_slice(&mut self.sockets, handle, payload, addr, port).is_ok();
                transmit_reply(len, sent)
            },
            _ => NetMemResponse::Invalid,
        }
    }

    /// The message for the listeners of `port` about the next packet that came in for it, if there is
    /// one: its first `max_len` bytes, and zeros up to that length.
    pub fn receive(&mut self, port: u16, max_len: usize) -> (response: Option<NetUdpResponse>)
        requires
            old(self).wf(),
        ensures
            final(self).wf(),
            response is Some <==> old(self)@.table.handles.contains_key(port) && owner_socket(
                old(self)@,
                port,
            ).inbox.len() > 0,
            response is None ==> final(self)@ == old(self)@,
            response matches Some(r) ==> {
                let packet = owner_socket(old(self)@, port).inbox[0];
                &&& r.endpoint_ip_addr == packet.addr
                &&& r.endpoint_port == packet.port
                &&& r.len == packet.data.len() % 0x1_0000
                &&& r.data@ == fitted(packet.data, max_len as nat)
                &&& final(self)@ == (UdpPortsState {
                    sockets: packet_taken(
                        old(self)@.sockets,
                        old(self)@.table.handles[port].handle,
                    ),
                    ..old(self)@
                })
            },
    {
        match self.table.socket(port) {
            Some(handle) => match recv_packet(&mut self.sockets, handle) {
                Some((addr, sender, data)) => Some(
                    udp_response(addr, sender, data.as_slice(), max_len),
                ),
                None => None,
            },
            None => None,
        }
    }

    /// Sets the hop limit of the packets that are sent from the port in a message word. Says
    /// whether that port has an owner; otherwise nothing changes.
    pub fn set_ttl(&mut self, ttl: usize, port: usize) -> (bound: bool)
        requires
            old(self).wf(),
        ensures
            final(self).wf(),
            final(self)@ == with_ttl(old(self)@, word_port(port), ttl),
            bound == old(self)@.table.handles.contains_key(word_port(port)),
    {
        let limit: u8 = if ttl > 255 || ttl == 0 {
            DEFAULT_TTL
        } else {
            ttl as u8
        };
        match self.table.socket(port_of_word(port)) {
            Some(handle) => {
                set_hop_limit(&mut self.sockets, handle, limit);
                true
            },
            None => false,
        }
    }

    /// The answer to a request for the hop limit of the packets that are sent from the port in a
    /// message word: the largest number where that port has no owner.
    pub fn get_ttl(&mut self, port: usize) -> (ttl: usize)
        requires
            old(self).wf(),
        ensures
            final(self).wf(),
            final(self)@ == old(self)@,
            ttl == ttl_of(old(self)@, word_port(port)),
    {
        match self.table.socket(port_of_word(port)) {
            Some(handle) => match hop_limit(&mut self.sockets, handle) {
                Some(limit) => limit as usize,
                None => DEFAULT_TTL as usize,
            },
            None => usize::MAX,
        }
    }
}

/// The hop limit that was set for a port is the one that is read back, with the default in place
/// of a value out of range; that of every other port stays.
pub proof fn law_ttl_reads_back(s: UdpPortsState, port: u16, ttl: usize, other: u16)
    requires
        ports_inv(s),
        s.table.handles.contains_key(port),
    ensures
        ttl_of(with_ttl(s, port, ttl), port) == checked_ttl(ttl),
        1 <= checked_ttl(ttl),
        other != port ==> ttl_of(with_ttl(s, port, ttl), other) == ttl_of(s, other),
{
}

/// The first packet that is sent from a port is taken if its destination is specified and it is no
/// longer than the buffer, and a second one is refused as long as the first waits.
pub proof fn law_first_packet_is_sent(
    s: UdpPortsState,
    port: u16,
    destination: (NetIpAddr, u16),
    data: Seq<u8>,
    room: int,
    second: (NetIpAddr, u16),
    len: u16,
)
    requires
        ports_inv(s),
        s.table.handles.contains_key(port),
        owner_socket(s, port) == fresh_socket(port, owner_socket(s, port).buffer_len),
        port != 0,
        data.len() <= 0xffff,
        data.len() <= owner_socket(s, port).buffer_len,
        !unspecified(destination.0),
        destination.1 != 0,
    ensures
        ({
            let handle = s.table.handles[port].handle;
            let after = UdpPortsState {
                sockets: handed_packet(s.sockets, handle, addressed(destination, data), room),
                ..s
            };
            &&& transmit_answer(s, port, Some(destination), data.len() as u16)
                == NetMemResponse::Sent(data.len() as u16)
            &&& owner_socket(after, port).outbox == seq![addressed(destination, data)]
            &&& transmit_answer(after, port, Some(second), len) == NetMemResponse::LibraryError
        }),
{
}

/// A packet that is turned away leaves everything as it was, so the next one is answered as it would
/// have been without it.
pub proof fn law_packet_turned_away_leaves_no_trace(
    s: UdpPortsState,
    port: u16,
    destination: (NetIpAddr, u16),
    data: Seq<u8>,
)
    requires
        ports_inv(s),
        s.table.handles.contains_key(port),
        data.len() <= 0xffff,
        turns_away(owner_socket(s, port), data.len() as int, destination.0, destination.1),
    ensures
        transmit_answer(s, port, Some(destination), data.len() as u16)
            == NetMemResponse::LibraryError,
        handed_packet(
            s.sockets,
            s.table.handles[port].handle,
            addressed(destination, data),
            owner_socket(s, port).room,
        ) == s.sockets,
{
    let handle = s.table.handles[port].handle;
    let packet = addressed(destination, data);
    assert(handed_packet(s.sockets, handle, packet, owner_socket(s, port).room) =~= s.sockets);
}

/// A listener that takes a free port and leaves it again gives it back: the owners are those from
/// before, and so are the sockets, but for the one that was opened, which is closed.
pub proof fn law_port_is_given_back(
    s: UdpPortsState,
    port: u16,
    owner: UdpState,
    buffer_len: int,
    heir: Sid,
)
    requires
        !s.table.handles.contains_key(port),
        clones_of(s.table, port).dom() == Set::<u128>::empty(),
        !s.sockets.contains_key(owner.handle),
    ensures
        ({
            let table = UdpTableState {
                handles: s.table.handles.insert(port, owner),
                ..s.table
            };
            let opened = fresh_socket(port, buffer_len);
            &&& closed(table, port, owner.sid, heir).handles == s.table.handles
            &&& close_outcome(table, port, owner.sid).close_socket == Some(owner.handle)
            &&& closed_socket(opened) == fresh_socket(0, buffer_len)
            &&& s.sockets.insert(owner.handle, opened).insert(
                owner.handle,
                closed_socket(opened),
            ) == s.sockets.insert(owner.handle, fresh_socket(0, buffer_len))
        }),
{
    law_owner_joins_and_leaves(s.table, port, owner, heir, port);
    let opened = fresh_socket(port, buffer_len);
    assert(s.sockets.insert(owner.handle, opened).insert(owner.handle, closed_socket(opened))
        =~= s.sockets.insert(owner.handle, fresh_socket(0, buffer_len)));
}

/// No two ports share a socket.
pub proof fn law_ports_have_own_sockets(s: UdpPortsState, a: u16, b: u16)
    requires
        ports_inv(s),
        s.table.handles.contains_key(a),
        s.table.handles.contains_key(b),
        a != b,
    ensures
        s.table.handles[a].handle != s.table.handles[b].handle,
{
}

/// A hop limit from 1 to 255 is set as it is, and any other gives 64. It is what is read back, and
/// the socket stays the same otherwise. A port without an owner reads as the largest number, and one
/// that was given no hop limit as 64.
pub proof fn law_hop_limits(s: UdpPortsState, port: u16, ttl: usize)
    ensures
        1 <= ttl <= 255 ==> checked_ttl(ttl) == ttl,
        ttl == 0 || ttl > 255 ==> checked_ttl(ttl) == 64,
        !s.table.handles.contains_key(port) ==> ttl_of(s, port) == usize::MAX && with_ttl(
            s,
            port,
            ttl,
        ) == s,
        s.table.handles.contains_key(port) ==> {
            let handle = s.table.handles[port].handle;
            let t = with_ttl(s, port, ttl);
            &&& s.sockets[handle].hop_limit is None ==> ttl_of(s, port) == 64
            &&& s.sockets[handle].hop_limit is Some ==> ttl_of(s, port)
                == s.sockets[handle].hop_limit->0
            &&& 1 <= ttl <= 255 ==> ttl_of(t, port) == ttl
            &&& ttl == 0 || ttl > 255 ==> ttl_of(t, port) == 64
            &&& t.table == s.table
            &&& t.sockets[handle] == (UdpInfo {
                hop_limit: t.sockets[handle].hop_limit,
                ..s.sockets[handle]
            })
        },
{
}

/// Setting the hop limit of a port leaves all sockets but its own as they are.
pub proof fn law_hop_limit_stays_with_port(
    s: UdpPortsState,
    port: u16,
    ttl: usize,
    other: SocketHandle,
)
    requires
        s.table.handles.contains_key(port) ==> other != s.table.handles[port].handle,
    ensures
        with_ttl(s, port, ttl).sockets.contains_key(other) == s.sockets.contains_key(other),
        with_ttl(s, port, ttl).sockets[other] == s.sockets[other],
{
}

/// The port in a message word is its low sixteen bits.
pub proof fn law_port_in_word(word: usize)
    ensures
        word_port(word) == word % 0x1_0000,
        word < 0x1_0000 ==> word_port(word) == word,
{
}

/// The answer to a packet. Without an owner or a destination it is invalid. Otherwise a packet that
/// the socket of the port takes is reported as sent, with the length that was asked for, and any
/// other as an error.
pub proof fn law_transmit_answers(
    s: UdpPortsState,
    port: u16,
    addr: NetIpAddr,
    to: u16,
    len: u16,
)
    ensures
        transmit_answer(s, port, None, len) == NetMemResponse::Invalid,
        !s.table.handles.contains_key(port) ==> transmit_answer(s, port, Some((addr, to)), len)
            == NetMemResponse::Invalid,
        s.table.handles.contains_key(port) ==> {
            let socket = s.sockets[s.table.handles[port].handle];
            let answer = transmit_answer(s, port, Some((addr, to)), len);
            &&& takes(socket, len as int, addr, to) ==> answer == NetMemResponse::Sent(len)
            &&& !takes(socket, len as int, addr, to) ==> answer == NetMemResponse::LibraryError
        },
        addressed((addr, to), Seq::empty()).addr == addr,
        addressed((addr, to), Seq::empty()).port == to,
        forall|data: Seq<u8>| (#[trigger] addressed((addr, to), data)).data == data,
{
}

/// Every port that has an owner has a socket in the set that is bound to it.
pub proof fn law_owned_ports_are_bound(s: UdpPortsState, port: u16)
    requires
        ports_inv(s),
        s.table.handles.contains_key(port),
    ensures
        s.sockets.contains_key(s.table.handles[port].handle),
        s.sockets[s.table.handles[port].handle].port == port,
        s.sockets[s.table.handles[port].handle].slots == 1,
        owner_socket(s, port) == s.sockets[s.table.handles[port].handle],
{
}

} // verus!
