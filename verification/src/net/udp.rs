//! Who listens on which UDP port.
//!
//! The first listener of a port owns its socket. Further listeners get copies of what comes in,
//! and one of them takes over when the owner leaves.

use crate::net::sockets::NetIpAddr;
use smoltcp::socket::SocketHandle;
use std::collections::HashMap;
use vstd::prelude::*;

verus! {

broadcast use vstd::std_specs::hash::group_hash_axioms;

/// The identity of a server: a 128-bit number.
#[derive(Clone, Copy, Debug, PartialEq, Eq, Structural)]
pub struct Sid {
    pub number: u128,
}

/// The number that four words write, lowest word first.
pub open spec fn words_number(words: Seq<u32>) -> int {
    words[0] + 0x1_0000_0000 * words[1] + 0x1_0000_0000_0000_0000 * words[2]
        + 0x1_0000_0000_0000_0000_0000_0000 * words[3]
}

impl Sid {
    /// The identity that four words write.
    pub fn from_array(words: [u32; 4]) -> (sid: Self)
        ensures
            sid.number == words_number(words@),
    {
        Sid {
            number: words[0] as u128 + 0x1_0000_0000 * words[1] as u128 + 0x1_0000_0000_0000_0000
                * words[2] as u128 + 0x1_0000_0000_0000_0000_0000_0000 * words[3] as u128,
        }
    }
}

/// Different words write different identities.
pub proof fn law_sid_is_injective(a: Seq<u32>, b: Seq<u32>)
    requires
        a.len() == 4,
        b.len() == 4,
        words_number(a) == words_number(b),
    ensures
        a == b,
{
    assert(a =~= b);
}

/// An answer to a request.
#[derive(Clone, Copy, Debug, PartialEq, Eq, Structural)]
pub enum NetMemResponse {
    /// The request was carried out.
    Done,
    /// So many bytes were sent.
    Sent(u16),
    Invalid,
    SocketInUse,
    AlreadyUsed,
    LibraryError,
}

/// The listener that owns the socket of a port.
#[derive(Clone, Copy, Debug)]
pub struct UdpState {
    /// The socket.
    pub handle: SocketHandle,
    /// The connection to the listener.
    pub cid: u32,
    /// The identity of the listener.
    pub sid: Sid,
}

/// The state of a [`UdpTable`].
#[verifier::ext_equal]
pub struct UdpTableState {
    /// The owner of each port.
    pub handles: Map<u16, UdpState>,
    /// The further listeners of each port, with the connection to each.
    pub clones: Map<u16, Map<u128, u32>>,
    /// The connection to cut once the answer to the current request has gone out.
    pub to_disconnect: Option<u32>,
}

/// What a request to bind a port leads to.
#[derive(Clone, Copy, Debug, PartialEq, Eq, Structural)]
pub enum BindStep {
    /// Connect to the listener and add it to the port.
    AddListener,
    /// Open a socket, then connect to the listener and make it the owner.
    OpenSocket,
}

/// The listeners of the UDP ports.
pub struct UdpTable {
    handles: HashMap<u16, UdpState>,
    clones: HashMap<u16, HashMap<u128, u32>>,
    to_disconnect: Option<u32>,
}

impl View for UdpTable {
    type V = UdpTableState;

    closed spec fn view(&self) -> UdpTableState {
        UdpTableState {
            handles: self.handles@,
            clones: self.clones@.map_values(|m: HashMap<u128, u32>| m@),
            to_disconnect: self.to_disconnect,
        }
    }
}

/// The listeners of `port` besides its owner.
pub open spec fn clones_of(s: UdpTableState, port: u16) -> Map<u128, u32> {
    if s.clones.contains_key(port) {
        s.clones[port]
    } else {
        Map::empty()
    }
}

/// The state after a further listener has been added to `port`.
pub open spec fn with_clone(s: UdpTableState, port: u16, sid: Sid, cid: u32) -> UdpTableState {
    UdpTableState {
        clones: s.clones.insert(port, clones_of(s, port).insert(sid.number, cid)),
        ..s
    }
}

/// The answer to a further listener: one that listens on the port already is told so.
pub open spec fn clone_reply(s: UdpTableState, port: u16, sid: Sid) -> NetMemResponse {
    if is_clone(s, port, sid) {
        NetMemResponse::SocketInUse
    } else {
        NetMemResponse::Done
    }
}

/// What is left to do after a listener has asked to leave.
#[derive(Clone, Copy, Debug)]
pub struct CloseOutcome {
    /// The answer to the request.
    pub reply: NetMemResponse,
    /// The socket to close.
    pub close_socket: Option<SocketHandle>,
}

/// `order` names each element of `set` once.
pub open spec fn lists<K>(order: Seq<K>, set: Set<K>) -> bool {
    order.no_duplicates() && order.to_set() == set
}

/// Whether `sid` is a further listener of `port`.
pub open spec fn is_clone(s: UdpTableState, port: u16, sid: Sid) -> bool {
    clones_of(s, port).contains_key(sid.number)
}

/// Whether `sid` owns `port`.
pub open spec fn is_owner(s: UdpTableState, port: u16, sid: Sid) -> bool {
    s.handles.contains_key(port) && s.handles[port].sid == sid
}

/// The state after the further listener `heir` has taken over `port` with its socket.
pub open spec fn handed_over(s: UdpTableState, port: u16, handle: SocketHandle, heir: Sid) -> UdpTableState {
    let rest = clones_of(s, port).remove(heir.number);
    UdpTableState {
        handles: s.handles.insert(
            port,
            UdpState { handle, cid: clones_of(s, port)[heir.number], sid: heir },
        ),
        clones: if rest.dom() == Set::<u128>::empty() {
            s.clones.remove(port)
        } else {
            s.clones.insert(port, rest)
        },
        ..s
    }
}

/// The state after `sid` has left `port`, where `heir` takes over if the port needs a new owner.
pub open spec fn closed(s: UdpTableState, port: u16, sid: Sid, heir: Sid) -> UdpTableState {
    if is_clone(s, port, sid) {
        UdpTableState {
            clones: s.clones.insert(port, s.clones[port].remove(sid.number)),
            to_disconnect: Some(s.clones[port][sid.number]),
            ..s
        }
    } else if !is_owner(s, port, sid) {
        s
    } else if clones_of(s, port).dom() == Set::<u128>::empty() {
        UdpTableState { handles: s.handles.remove(port), clones: s.clones.remove(port), ..s }
    } else {
        handed_over(s, port, s.handles[port].handle, heir)
    }
}

/// What is left to do after `sid` has left `port`.
pub open spec fn close_outcome(s: UdpTableState, port: u16, sid: Sid) -> CloseOutcome {
    if is_clone(s, port, sid) {
        CloseOutcome { reply: NetMemResponse::Done, close_socket: None }
    } else if !is_owner(s, port, sid) {
        CloseOutcome { reply: NetMemResponse::Invalid, close_socket: None }
    } else if clones_of(s, port).dom() == Set::<u128>::empty() {
        CloseOutcome {
            reply: NetMemResponse::Done,
            close_socket: Some(s.handles[port].handle),
        }
    } else {
        CloseOutcome { reply: NetMemResponse::Done, close_socket: None }
    }
}

/// The keys of a map, in any order.
fn keys_of(m: &HashMap<u128, u32>) -> (keys: Vec<u128>)
    ensures
        lists(keys@, m@.dom()),
        keys@.len() == m@.dom().len(),
{
    let mut keys: Vec<u128> = Vec::new();
    for k in it: m.keys()
        invariant
            keys@ == it.seq().unref().take(it.index()),
            it.seq().unref().take(it.seq().len() as int) == it.seq().unref(),
            it.seq().unref().to_set() == m@.dom(),
            it.seq().no_duplicates(),
            it.seq().len() == m@.dom().len(),
    {
        keys.push(*k);
    }
    assert(keys@.no_duplicates());
    assert(keys@.to_set() == m@.dom());
    keys
}

impl UdpTable {
    /// A table without listeners.
    pub fn new() -> (table: Self)
        ensures
            table@ == (UdpTableState {
                handles: Map::empty(),
                clones: Map::empty(),
                to_disconnect: None,
            }),
    {
        let table: UdpTable = UdpTable {
            handles: HashMap::new(),
            clones: HashMap::new(),
            to_disconnect: None,
        };
        assert(table@.clones =~= Map::empty());
        table
    }

    /// What a request to listen on `port` leads to.
    pub fn bind(&self, port: u16) -> (step: BindStep)
        ensures
            step == (if self@.handles.contains_key(port) {
                BindStep::AddListener
            } else {
                BindStep::OpenSocket
            }),
    {
        if self.handles.contains_key(&port) {
            BindStep::AddListener
        } else {
            BindStep::OpenSocket
        }
    }

    /// Adds a further listener to a port that has an owner. A listener that is added twice is told
    /// so, and is reached over its new connection.
    pub fn add_clone(&mut self, port: u16, sid: Sid, cid: u32) -> (reply: NetMemResponse)
        ensures
            final(self)@ == with_clone(old(self)@, port, sid, cid),
            reply == clone_reply(old(self)@, port, sid),
    {
        let ghost before = *self;
        let reply: NetMemResponse = match self.clones.remove(&port) {
            Some(clone_map) => {
                let mut clone_map: HashMap<u128, u32> = clone_map;
                let reply: NetMemResponse = match clone_map.insert(sid.number, cid) {
                    Some(_) => NetMemResponse::SocketInUse,
                    None => NetMemResponse::Done,
                };
                self.clones.insert(port, clone_map);
                reply
            },
            None => {
                let mut newmap: HashMap<u128, u32> = HashMap::new();
                newmap.insert(sid.number, cid);
                self.clones.insert(port, newmap);
                NetMemResponse::Done
            },
        };
        assert(self@.clones =~= with_clone(before@, port, sid, cid).clones);
        reply
    }

    /// Makes a listener the owner of a port, with the socket that was opened for it.
    pub fn add_owner(&mut self, port: u16, handle: SocketHandle, cid: u32, sid: Sid) -> (reply:
        NetMemResponse)
        ensures
            final(self)@ == (UdpTableState {
                handles: old(self)@.handles.insert(port, UdpState { handle, cid, sid }),
                ..old(self)@
            }),
            reply == NetMemResponse::Done,
    {
        self.handles.insert(port, UdpState { handle, cid, sid });
        NetMemResponse::Done
    }

    /// One of the further listeners of `port`, whichever comes first.
    fn any_clone(&self, port: u16) -> (heir: Option<Sid>)
        ensures
            heir is None <==> clones_of(self@, port).dom() == Set::<u128>::empty(),
            heir matches Some(sid) ==> is_clone(self@, port, sid),
    {
        match self.clones.get(&port) {
            Some(clone_map) => {
                let keys: Vec<u128> = keys_of(clone_map);
                if keys.len() == 0 {
                    assert(clone_map@.dom() =~= Set::<u128>::empty());
                    None
                } else {
                    assert(keys@.to_set().contains(keys@[0]));
                    Some(Sid { number: keys[0] })
                }
            },
            None => None,
        }
    }

    /// Lets the further listener `heir` take over `port` with its socket.
    fn hand_over(&mut self, port: u16, handle: SocketHandle, heir: Sid)
        requires
            is_clone(old(self)@, port, heir),
        ensures
            final(self)@ == handed_over(old(self)@, port, handle, heir),
    {
        let ghost before = *self;
        if let Some(clone_map) = self.clones.remove(&port) {
            let mut clone_map: HashMap<u128, u32> = clone_map;
            if let Some(cid) = clone_map.remove(&heir.number) {
                self.handles.insert(port, UdpState { handle, cid, sid: heir });
            }
            if clone_map.len() != 0 {
                self.clones.insert(port, clone_map);
            } else {
                assert(clone_map@.dom() =~= Set::<u128>::empty());
            }
        }
        assert(self@.clones =~= handed_over(before@, port, handle, heir).clones);
    }

    /// Takes the listener `sid` off `port`. Where the owner leaves, one of the further listeners
    /// takes over, and which one is left open. Where `sid` does not listen on the port, the request
    /// is invalid and nothing changes.
    pub fn close(&mut self, port: u16, sid: Sid) -> (outcome: CloseOutcome)
        ensures
            exists|heir: Sid|
                {
                    &&& final(self)@ == #[trigger] closed(old(self)@, port, sid, heir)
                    &&& clones_of(old(self)@, port).dom() != Set::<u128>::empty() ==> is_clone(
                        old(self)@,
                        port,
                        heir,
                    )
                },
            outcome == close_outcome(old(self)@, port, sid),
    {
        let ghost before = *self;
        // A further listener leaves.
        if let Some(clone_map) = self.clones.remove(&port) {
            let mut clone_map: HashMap<u128, u32> = clone_map;
            let left: Option<u32> = clone_map.remove(&sid.number);
            self.clones.insert(port, clone_map);
            if let Some(cid) = left {
                self.to_disconnect = Some(cid);
                assert(self@.clones =~= closed(before@, port, sid, sid).clones);
                assert(self@ == closed(before@, port, sid, sid));
                return CloseOutcome { reply: NetMemResponse::Done, close_socket: None };
            }
            assert(self@.clones =~= before@.clones) by {
                assert(before@.clones[port].remove(sid.number) =~= before@.clones[port]);
            }
        }
        assert(self@ == before@);
        let owner: Option<UdpState> = match self.handles.get(&port) {
            Some(owner) => Some(*owner),
            None => None,
        };
        if let Some(owner) = owner {
            if owner.sid == sid {
                self.handles.remove(&port);
                return match self.any_clone(port) {
                    None => {
                        self.clones.remove(&port);
                        assert(self@.clones =~= before@.clones.remove(port));
                        assert(self@ == closed(before@, port, sid, sid));
                        CloseOutcome {
                            reply: NetMemResponse::Done,
                            close_socket: Some(owner.handle),
                        }
                    },
                    Some(heir) => {
                        self.hand_over(port, owner.handle, heir);
                        assert(self@.handles =~= closed(before@, port, sid, heir).handles);
                        assert(self@ == closed(before@, port, sid, heir));
                        CloseOutcome { reply: NetMemResponse::Done, close_socket: None }
                    },
                };
            }
        }
        proof {
            lemma_some_clone(before@, port);
            let heir = choose|heir: Sid| is_clone(before@, port, heir);
            assert(self@ == closed(before@, port, sid, heir));
        }
        CloseOutcome { reply: NetMemResponse::Invalid, close_socket: None }
    }
}

impl UdpTable {
    /// The connection to cut, once: it is due after the answer to the request that caused it.
    pub fn take_disconnect(&mut self) -> (cid: Option<u32>)
        ensures
            cid == old(self)@.to_disconnect,
            final(self)@ == (UdpTableState { to_disconnect: None, ..old(self)@ }),
    {
        let cid: Option<u32> = self.to_disconnect;
        self.to_disconnect = None;
        cid
    }

    /// The ports that have an owner, in any order.
    pub fn ports(&self) -> (ports: Vec<u16>)
        ensures
            lists(ports@, self@.handles.dom()),
    {
        let mut ports: Vec<u16> = Vec::new();
        for k in it: self.handles.keys()
            invariant
                ports@ == it.seq().unref().take(it.index()),
                it.seq().unref().take(it.seq().len() as int) == it.seq().unref(),
                it.seq().unref().to_set() == self@.handles.dom(),
                it.seq().no_duplicates(),
        {
            ports.push(*k);
        }
        assert(ports@.no_duplicates());
        ports
    }

    /// The socket of a port.
    pub fn socket(&self, port: u16) -> (handle: Option<SocketHandle>)
        ensures
            handle == (if self@.handles.contains_key(port) {
                Some(self@.handles[port].handle)
            } else {
                None
            }),
    {
        match self.handles.get(&port) {
            Some(owner) => Some(owner.handle),
            None => None,
        }
    }

    /// The connections that get what comes in on a port: that to the owner, then those to the
    /// further listeners in any order. There are none where the port has no owner.
    pub fn receivers(&self, port: u16) -> (cids: Vec<u32>)
        ensures
            self@.handles.contains_key(port) ==> exists|order: Seq<u128>|
                {
                    &&& #[trigger] lists(order, clones_of(self@, port).dom())
                    &&& cids@ == seq![self@.handles[port].cid] + order.map_values(
                        |sid: u128| clones_of(self@, port)[sid],
                    )
                },
            !self@.handles.contains_key(port) ==> cids@.len() == 0,
    {
        let mut cids: Vec<u32> = Vec::new();
        if let Some(owner) = self.handles.get(&port) {
            cids.push(owner.cid);
            match self.clones.get(&port) {
                Some(clone_map) => {
                    let keys: Vec<u128> = keys_of(clone_map);
                    let ghost clones = clones_of(self@, port);
                    let n: usize = keys.len();
                    let mut i: usize = 0;
                    while i < n
                        invariant
                            i <= n,
                            n == keys@.len(),
                            clones == clone_map@,
                            lists(keys@, clones.dom()),
                            cids@ == seq![owner.cid] + keys@.take(i as int).map_values(
                                |sid: u128| clones[sid],
                            ),
                        decreases n - i,
                    {
                        assert(keys@.to_set().contains(keys@[i as int]));
                        if let Some(cid) = clone_map.get(&keys[i]) {
                            cids.push(*cid);
                        }
                        assert(keys@.take(i + 1) =~= keys@.take(i as int).push(keys@[i as int]));
                        i = i + 1;
                    }
                    assert(keys@.take(n as int) =~= keys@);
                },
                None => {
                    assert(lists(Seq::<u128>::empty(), clones_of(self@, port).dom())) by {
                        assert(Seq::<u128>::empty().to_set() =~= Set::<u128>::empty());
                    }
                    assert(cids@ =~= seq![owner.cid] + Seq::<u128>::empty().map_values(
                        |sid: u128| clones_of(self@, port)[sid],
                    ));
                },
            }
        }
        cids
    }
}

/// The port that a message word stands for: its low sixteen bits.
pub fn port_of_word(word: usize) -> (port: u16)
    ensures
        port == word % 0x1_0000,
{
    assert(word as u16 == word % 0x1_0000) by (bit_vector);
    word as u16
}

/// A packet as it is handed to a listener.
#[derive(Debug)]
pub struct NetUdpResponse {
    /// The address of the sender.
    pub endpoint_ip_addr: NetIpAddr,
    /// The length of the packet.
    pub len: u16,
    /// The port of the sender.
    pub endpoint_port: u16,
    /// The packet, cut or filled with zeros to a fixed length.
    pub data: Vec<u8>,
}

/// A packet of which the first `max_len` bytes are kept, with zeros up to that length.
pub open spec fn fitted(data: Seq<u8>, max_len: nat) -> Seq<u8> {
    Seq::new(
        max_len,
        |i: int|
            if i < data.len() {
                data[i]
            } else {
                0
            },
    )
}

/// The message for a packet that came in: its first `max_len` bytes, and zeros up to that length.
/// The length is that of the packet, in sixteen bits.
pub fn udp_response(addr: NetIpAddr, port: u16, data: &[u8], max_len: usize) -> (response:
    NetUdpResponse)
    ensures
        response.endpoint_ip_addr == addr,
        response.endpoint_port == port,
        response.len == data@.len() % 0x1_0000,
        response.data@ == fitted(data@, max_len as nat),
        response.data@.len() == max_len,
        forall|i: int|
            0 <= i < data@.len() && i < max_len ==> #[trigger] response.data@[i] == data@[i],
        forall|i: int| data@.len() <= i < max_len ==> #[trigger] response.data@[i] == 0,
{
    let n: usize = data.len();
    let mut copy: Vec<u8> = Vec::new();
    let mut i: usize = 0;
    while i < max_len
        invariant
            i <= max_len,
            n == data@.len(),
            copy@ =~= fitted(data@, i as nat),
        decreases max_len - i,
    {
        if i < n {
            copy.push(data[i]);
        } else {
            copy.push(0);
        }
        i = i + 1;
    }
    NetUdpResponse {
        endpoint_ip_addr: addr,
        len: port_of_word(n),
        endpoint_port: port,
        data: copy,
    }
}

/// The connections to all listeners of a port that has an owner.
pub open spec fn listeners(s: UdpTableState, port: u16) -> Map<u128, u32> {
    clones_of(s, port).insert(s.handles[port].sid.number, s.handles[port].cid)
}

/// A further listener that joins a port and leaves it again is gone, its connection is cut, and
/// nothing else has changed.
pub proof fn law_clone_joins_and_leaves(
    s: UdpTableState,
    port: u16,
    sid: Sid,
    cid: u32,
    heir: Sid,
    other: u16,
)
    requires
        !is_clone(s, port, sid),
    ensures
        ({
            let t = closed(with_clone(s, port, sid, cid), port, sid, heir);
            &&& t.handles == s.handles
            &&& clones_of(t, other) == clones_of(s, other)
            &&& t.to_disconnect == Some(cid)
        }),
{
    let joined = with_clone(s, port, sid, cid);
    let t = closed(joined, port, sid, heir);
    assert(clones_of(t, other) =~= clones_of(s, other)) by {
        if other == port {
            assert(clones_of(s, port).insert(sid.number, cid).remove(sid.number) =~= clones_of(
                s,
                port,
            ));
        }
    }
}

/// A listener that joins a port twice is told so the second time, and the port has the same
/// listeners as after the first.
pub proof fn law_joining_twice_is_refused(
    s: UdpTableState,
    port: u16,
    sid: Sid,
    first: u32,
    second: u32,
)
    ensures
        ({
            let once = with_clone(s, port, sid, first);
            let twice = with_clone(once, port, sid, second);
            &&& clone_reply(once, port, sid) == NetMemResponse::SocketInUse
            &&& clones_of(twice, port).dom() == clones_of(once, port).dom()
            &&& twice.handles == once.handles
        }),
{
    let once = with_clone(s, port, sid, first);
    let twice = with_clone(once, port, sid, second);
    assert(clones_of(twice, port).dom() =~= clones_of(once, port).dom());
}

/// An owner that takes a free port and leaves it again frees it, and its socket is closed.
pub proof fn law_owner_joins_and_leaves(
    s: UdpTableState,
    port: u16,
    owner: UdpState,
    heir: Sid,
    other: u16,
)
    requires
        !s.handles.contains_key(port),
        clones_of(s, port).dom() == Set::<u128>::empty(),
    ensures
        ({
            let joined = UdpTableState { handles: s.handles.insert(port, owner), ..s };
            let t = closed(joined, port, owner.sid, heir);
            &&& t.handles == s.handles
            &&& clones_of(t, other) == clones_of(s, other)
            &&& close_outcome(joined, port, owner.sid).close_socket == Some(owner.handle)
        }),
{
    let joined = UdpTableState { handles: s.handles.insert(port, owner), ..s };
    assert(clones_of(joined, port) == clones_of(s, port));
    assert(!clones_of(s, port).dom().contains(owner.sid.number));
    let t = closed(joined, port, owner.sid, heir);
    assert(t.handles =~= s.handles);
    assert(clones_of(t, other) =~= clones_of(s, other)) by {
        if other == port {
            assert(clones_of(s, port).dom() =~= Map::<u128, u32>::empty().dom());
            assert(clones_of(s, port) =~= Map::<u128, u32>::empty());
        }
    }
}

/// Where an owner leaves a port with further listeners, the port keeps its socket, and exactly
/// the owner stops listening.
pub proof fn law_port_outlives_owner(s: UdpTableState, port: u16, heir: Sid)
    requires
        s.handles.contains_key(port),
        !is_clone(s, port, s.handles[port].sid),
        is_clone(s, port, heir),
    ensures
        ({
            let sid = s.handles[port].sid;
            let t = closed(s, port, sid, heir);
            &&& t.handles.contains_key(port)
            &&& t.handles[port].handle == s.handles[port].handle
            &&& listeners(t, port) == listeners(s, port).remove(sid.number)
            &&& close_outcome(s, port, sid).close_socket is None
        }),
{
    let sid = s.handles[port].sid;
    let clones = clones_of(s, port);
    assert(clones.dom().contains(heir.number));
    let t = closed(s, port, sid, heir);
    let rest = clones.remove(heir.number);
    if rest.dom() == Set::<u128>::empty() {
        assert(rest =~= Map::<u128, u32>::empty());
    }
    assert(clones_of(t, port) == rest);
    assert(listeners(t, port) =~= listeners(s, port).remove(sid.number));
}

/// Who does not listen on a port cannot leave it: the request is invalid, and nothing changes.
pub proof fn law_stranger_changes_nothing(s: UdpTableState, port: u16, sid: Sid, heir: Sid)
    requires
        !is_clone(s, port, sid),
        !is_owner(s, port, sid),
    ensures
        closed(s, port, sid, heir) == s,
        close_outcome(s, port, sid) == (CloseOutcome {
            reply: NetMemResponse::Invalid,
            close_socket: None,
        }),
{
}

/// What happens on one port leaves the others alone.
pub proof fn law_ports_are_independent(
    s: UdpTableState,
    port: u16,
    sid: Sid,
    cid: u32,
    heir: Sid,
    other: u16,
)
    requires
        other != port,
    ensures
        ({
            let t = closed(s, port, sid, heir);
            &&& t.handles.contains_key(other) == s.handles.contains_key(other)
            &&& t.handles[other] == s.handles[other]
            &&& clones_of(t, other) == clones_of(s, other)
            &&& clones_of(with_clone(s, port, sid, cid), other) == clones_of(s, other)
        }),
{
}

/// A port with further listeners has one.
proof fn lemma_some_clone(s: UdpTableState, port: u16)
    ensures
        clones_of(s, port).dom() != Set::<u128>::empty() ==> exists|heir: Sid|
            is_clone(s, port, heir),
{
    let dom = clones_of(s, port).dom();
    if dom != Set::<u128>::empty() {
        assert(exists|n: u128| dom.contains(n)) by {
            if forall|n: u128| !dom.contains(n) {
                assert(dom =~= Set::<u128>::empty());
            }
        }
        let n = choose|n: u128| dom.contains(n);
        assert(is_clone(s, port, Sid { number: n }));
    }
}

/// An identity is the number that its four words write in base `2^32`, lowest word first.
pub proof fn law_sid_digits(words: Seq<u32>)
    requires
        words.len() == 4,
    ensures
        ({
            let n = words_number(words);
            &&& 0 <= n < 0x1_0000_0000_0000_0000_0000_0000_0000_0000
            &&& n % 0x1_0000_0000 == words[0]
            &&& (n / 0x1_0000_0000) % 0x1_0000_0000 == words[1]
            &&& (n / 0x1_0000_0000_0000_0000) % 0x1_0000_0000 == words[2]
            &&& n / 0x1_0000_0000_0000_0000_0000_0000 == words[3]
        }),
{
}

/// A listing names each element of a set, no other, and none twice.
pub proof fn law_listing_is_complete(order: Seq<u128>, set: Set<u128>, x: u128, i: int, j: int)
    requires
        lists(order, set),
    ensures
        set.contains(x) ==> exists|k: int| 0 <= k < order.len() && #[trigger] order[k] == x,
        0 <= i < order.len() ==> set.contains(order[i]),
        0 <= i < j < order.len() ==> order[i] != order[j],
{
    if set.contains(x) {
        assert(order.to_set().contains(x));
        assert(order.contains(x));
    }
    if 0 <= i < order.len() {
        assert(order.to_set().contains(order[i]));
    }
}

/// A listing of ports names each port of a set, no other, and none twice.
pub proof fn law_ports_are_listed(order: Seq<u16>, set: Set<u16>, x: u16, i: int, j: int)
    requires
        lists(order, set),
    ensures
        set.contains(x) ==> exists|k: int| 0 <= k < order.len() && #[trigger] order[k] == x,
        0 <= i < order.len() ==> set.contains(order[i]),
        0 <= i < j < order.len() ==> order[i] != order[j],
{
    if set.contains(x) {
        assert(order.to_set().contains(x));
        assert(order.contains(x));
    }
    if 0 <= i < order.len() {
        assert(order.to_set().contains(order[i]));
    }
}

/// What comes in on a port goes to its owner and to each of the further listeners, once each and to
/// no one else.
pub proof fn law_every_listener_receives(
    s: UdpTableState,
    port: u16,
    order: Seq<u128>,
    cids: Seq<u32>,
    sid: Sid,
)
    requires
        lists(order, clones_of(s, port).dom()),
        cids == seq![s.handles[port].cid] + order.map_values(|n: u128| clones_of(s, port)[n]),
    ensures
        cids.len() == 1 + order.len(),
        cids[0] == s.handles[port].cid,
        s.clones.contains_key(port) && s.clones[port].contains_key(sid.number) ==> exists|k: int|
            1 <= k < cids.len() && #[trigger] order[k - 1] == sid.number && cids[k]
                == s.clones[port][sid.number],
        !s.clones.contains_key(port) ==> cids.len() == 1,
{
    if s.clones.contains_key(port) && s.clones[port].contains_key(sid.number) {
        law_listing_is_complete(order, clones_of(s, port).dom(), sid.number, 0, 0);
        let k = choose|k: int| 0 <= k < order.len() && #[trigger] order[k] == sid.number;
        assert(order[(k + 1) - 1] == sid.number);
        assert(cids[k + 1] == s.clones[port][sid.number]);
    }
    if !s.clones.contains_key(port) && order.len() > 0 {
        law_listing_is_complete(order, clones_of(s, port).dom(), 0, 0, 0);
    }
}

/// A further listener is reached over the connection that it was added with. The other listeners,
/// the owners and the other ports stay as they are. It is told that it listens already exactly where
/// it does.
pub proof fn law_listener_is_added(
    s: UdpTableState,
    port: u16,
    sid: Sid,
    cid: u32,
    other: u128,
    elsewhere: u16,
)
    ensures
        ({
            let t = with_clone(s, port, sid, cid);
            &&& t.handles == s.handles
            &&& t.to_disconnect == s.to_disconnect
            &&& t.clones.contains_key(port)
            &&& t.clones[port].contains_key(sid.number)
            &&& t.clones[port][sid.number] == cid
            &&& other != sid.number ==> (t.clones[port].contains_key(other) <==> (
            s.clones.contains_key(port) && s.clones[port].contains_key(other)))
            &&& other != sid.number && t.clones[port].contains_key(other) ==> t.clones[port][other]
                == s.clones[port][other]
            &&& elsewhere != port ==> t.clones.contains_key(elsewhere) == s.clones.contains_key(
                elsewhere,
            ) && t.clones[elsewhere] == s.clones[elsewhere]
        }),
        clone_reply(s, port, sid) == NetMemResponse::SocketInUse <==> s.clones.contains_key(port)
            && s.clones[port].contains_key(sid.number),
        clone_reply(s, port, sid) == NetMemResponse::SocketInUse || clone_reply(s, port, sid)
            == NetMemResponse::Done,
{
}

/// A further listener that leaves, leaves alone: the owner and the other listeners stay, it is told
/// so, its connection is cut, and the socket stays open.
pub proof fn law_listener_leaves(s: UdpTableState, port: u16, sid: Sid, heir: Sid, other: u128)
    requires
        s.clones.contains_key(port),
        s.clones[port].contains_key(sid.number),
    ensures
        ({
            let t = closed(s, port, sid, heir);
            &&& t.handles == s.handles
            &&& t.to_disconnect == Some(s.clones[port][sid.number])
            &&& t.clones.contains_key(port)
            &&& !t.clones[port].contains_key(sid.number)
            &&& other != sid.number ==> t.clones[port].contains_key(other)
                == s.clones[port].contains_key(other)
            &&& other != sid.number && s.clones[port].contains_key(other) ==> t.clones[port][other]
                == s.clones[port][other]
            &&& close_outcome(s, port, sid).reply == NetMemResponse::Done
            &&& close_outcome(s, port, sid).close_socket is None
        }),
{
}

/// An owner that leaves a port where nobody else listens frees it: the port has no owner and no
/// listener, it is told so, and the socket is closed. Nothing else changes.
pub proof fn law_last_owner_leaves(s: UdpTableState, port: u16, heir: Sid, elsewhere: u16)
    requires
        s.handles.contains_key(port),
        !s.clones.contains_key(port) || (forall|n: u128| !#[trigger]
            s.clones[port].contains_key(n)),
    ensures
        ({
            let sid = s.handles[port].sid;
            let t = closed(s, port, sid, heir);
            &&& !t.handles.contains_key(port)
            &&& !t.clones.contains_key(port)
            &&& t.to_disconnect == s.to_disconnect
            &&& close_outcome(s, port, sid).reply == NetMemResponse::Done
            &&& close_outcome(s, port, sid).close_socket == Some(s.handles[port].handle)
            &&& elsewhere != port ==> t.handles.contains_key(elsewhere) == s.handles.contains_key(
                elsewhere,
            )
        }),
{
    let dom = clones_of(s, port).dom();
    assert(dom =~= Set::<u128>::empty()) by {
        assert forall|n: u128| !dom.contains(n) by {
            if s.clones.contains_key(port) {
                assert(!s.clones[port].contains_key(n));
            }
        }
    }
}

/// An owner that leaves a port with further listeners hands it to one of them: the heir owns the
/// port with the same socket and its own connection and is no further listener any more, the others
/// stay, and the owner is told so.
pub proof fn law_heir_takes_over(s: UdpTableState, port: u16, heir: Sid, other: u128)
    requires
        s.handles.contains_key(port),
        s.clones.contains_key(port),
        !s.clones[port].contains_key(s.handles[port].sid.number),
        s.clones[port].contains_key(heir.number),
    ensures
        ({
            let sid = s.handles[port].sid;
            let t = closed(s, port, sid, heir);
            &&& t.handles.contains_key(port)
            &&& t.handles[port].sid == heir
            &&& t.handles[port].cid == s.clones[port][heir.number]
            &&& t.handles[port].handle == s.handles[port].handle
            &&& !(t.clones.contains_key(port) && t.clones[port].contains_key(heir.number))
            &&& other != heir.number && s.clones[port].contains_key(other)
                ==> t.clones.contains_key(port) && t.clones[port].contains_key(other)
                && t.clones[port][other] == s.clones[port][other]
            &&& t.clones.contains_key(port) && t.clones[port].contains_key(other)
                ==> s.clones[port].contains_key(other)
            &&& t.to_disconnect == s.to_disconnect
            &&& close_outcome(s, port, sid).reply == NetMemResponse::Done
            &&& close_outcome(s, port, sid).close_socket is None
        }),
{
    let clones = clones_of(s, port);
    assert(clones.dom().contains(heir.number));
    let rest = clones.remove(heir.number);
    if other != heir.number && s.clones[port].contains_key(other) {
        assert(rest.dom().contains(other));
    }
}

/// The message about a packet has the length that was asked for. It holds the bytes of the packet,
/// whatever they are, as far as both reach, and zeros behind the packet.
pub proof fn law_message_holds_packet(data: Seq<u8>, max_len: nat, i: int)
    ensures
        fitted(data, max_len).len() == max_len,
        0 <= i < data.len() && i < max_len ==> fitted(data, max_len)[i] == data[i],
        data.len() <= i < max_len ==> fitted(data, max_len)[i] == 0,
{
}

/// Whoever asks to leave a port that it neither owns nor listens on, by any of the 128 bits of its
/// identity, is told that the request is invalid, and nothing changes.
pub proof fn law_only_listeners_leave(s: UdpTableState, port: u16, sid: Sid, heir: Sid)
    requires
        !s.clones.contains_key(port) || !s.clones[port].contains_key(sid.number),
        !s.handles.contains_key(port) || s.handles[port].sid.number != sid.number,
    ensures
        closed(s, port, sid, heir) == s,
        close_outcome(s, port, sid).reply == NetMemResponse::Invalid,
        close_outcome(s, port, sid).close_socket is None,
        is_owner(s, port, sid) == false,
        is_clone(s, port, sid) == false,
{
}

/// Who listens on a port by the tables.
pub proof fn law_who_listens(s: UdpTableState, port: u16, sid: Sid)
    ensures
        is_owner(s, port, sid) <==> s.handles.contains_key(port) && s.handles[port].sid.number
            == sid.number,
        is_clone(s, port, sid) <==> s.clones.contains_key(port) && s.clones[port].contains_key(
            sid.number,
        ),
        s.clones.contains_key(port) ==> clones_of(s, port) == s.clones[port],
        !s.clones.contains_key(port) ==> clones_of(s, port) == Map::<u128, u32>::empty(),
{
}

} // verus!
