use smoltcp::iface::{EthernetInterfaceBuilder, NeighborCache};
use smoltcp::phy::Loopback;
use smoltcp::socket::{Socket, UdpSocket};
use smoltcp::time::Instant;
use smoltcp::wire::{EthernetAddress, IpAddress, IpCidr};
use std::collections::BTreeMap;
use xous_services::net::sockets::{open_udp_socket, NetIpAddr};
use xous_services::net::udp::{udp_response, BindStep, NetMemResponse, Sid};
use xous_services::net::udp_ports::{transmit_reply, UdpPorts};

const A: Sid = Sid { number: 0xa };
const B: Sid = Sid { number: 0xb };
const C: Sid = Sid { number: 0xc };

const MTU: u16 = 1500;

/// Lets `sid` listen on `port`, with a connection of the given number.
fn bind(ports: &mut UdpPorts, port: u16, sid: Sid, cid: u32) -> NetMemResponse {
    match ports.table().bind(port) {
        BindStep::AddListener => ports.add_clone(port, sid, cid),
        BindStep::OpenSocket => match ports.open_socket(port, None, MTU) {
            Ok(handle) => ports.add_owner(port, handle, cid, sid),
            Err(reply) => reply,
        },
    }
}

/// The ports that sockets are bound to, in order.
fn bound_ports(ports: &UdpPorts) -> Vec<u16> {
    let mut bound: Vec<u16> = ports
        .sockets
        .iter()
        .filter_map(|socket| match socket {
            Socket::Udp(socket) if socket.is_open() => Some(socket.endpoint().port),
            _ => None,
        })
        .collect();
    bound.sort();
    bound
}

#[test]
fn identities_come_from_words() {
    assert_eq!(
        Sid::from_array([1, 2, 3, 4]).number,
        0x00000004_00000003_00000002_00000001
    );
    assert_ne!(Sid::from_array([1, 2, 3, 4]), Sid::from_array([1, 2, 4, 3]));
}

#[test]
fn sockets_open_on_any_port_but_zero() {
    let socket = open_udp_socket(53, None, MTU).unwrap();
    assert_eq!(socket.endpoint().port, 53);
    assert_eq!(socket.payload_recv_capacity(), 1500);
    assert_eq!(socket.payload_send_capacity(), 1500);
    assert_eq!(socket.packet_recv_capacity(), 1);
    assert_eq!(socket.hop_limit(), None);
    let socket = open_udp_socket(53, Some(100), MTU).unwrap();
    assert_eq!(socket.payload_recv_capacity(), 100);
    assert!(open_udp_socket(0, None, MTU).is_none());
}

#[test]
fn first_listener_owns_the_port() {
    let mut ports = UdpPorts::new();
    assert_eq!(bind(&mut ports, 53, A, 1), NetMemResponse::Done);
    assert_eq!(ports.table().ports(), [53]);
    assert_eq!(ports.table().receivers(53), [1]);
    let handle = ports.table().socket(53).unwrap();
    assert_eq!(ports.sockets.get::<UdpSocket>(handle).endpoint().port, 53);
    assert!(ports.table().socket(54).is_none());
    assert!(ports.table().receivers(54).is_empty());
}

#[test]
fn port_zero_is_invalid() {
    let mut ports = UdpPorts::new();
    assert_eq!(bind(&mut ports, 0, A, 1), NetMemResponse::Invalid);
    assert!(ports.table().ports().is_empty());
    assert!(bound_ports(&ports).is_empty());
}

#[test]
fn further_listeners_get_copies() {
    let mut ports = UdpPorts::new();
    bind(&mut ports, 53, A, 1);
    assert_eq!(bind(&mut ports, 53, B, 2), NetMemResponse::Done);
    assert_eq!(bind(&mut ports, 53, C, 3), NetMemResponse::Done);
    let mut cids = ports.table().receivers(53);
    assert_eq!(cids[0], 1);
    cids.sort();
    assert_eq!(cids, [1, 2, 3]);
    assert_eq!(bound_ports(&ports), [53]);
}

#[test]
fn listening_twice_is_noticed() {
    let mut ports = UdpPorts::new();
    bind(&mut ports, 53, A, 1);
    bind(&mut ports, 53, B, 2);
    assert_eq!(bind(&mut ports, 53, B, 3), NetMemResponse::SocketInUse);
    // It still listens once, over its new connection.
    assert_eq!(ports.table().receivers(53), [1, 3]);
    assert_eq!(ports.close(53, B), NetMemResponse::Done);
    assert_eq!(ports.table().receivers(53), [1]);
}

#[test]
fn further_listener_leaves() {
    let mut ports = UdpPorts::new();
    bind(&mut ports, 53, A, 1);
    bind(&mut ports, 53, B, 2);
    assert_eq!(ports.take_disconnect(), None);
    assert_eq!(ports.close(53, B), NetMemResponse::Done);
    assert_eq!(ports.table().receivers(53), [1]);
    // Its connection is cut once.
    assert_eq!(ports.take_disconnect(), Some(2));
    assert_eq!(ports.take_disconnect(), None);
}

#[test]
fn last_listener_frees_the_port() {
    let mut ports = UdpPorts::new();
    bind(&mut ports, 53, A, 1);
    assert_eq!(bound_ports(&ports), [53]);
    assert_eq!(ports.close(53, A), NetMemResponse::Done);
    assert!(ports.table().ports().is_empty());
    assert!(bound_ports(&ports).is_empty());
    assert_eq!(ports.take_disconnect(), None);
    assert_eq!(ports.close(53, A), NetMemResponse::Invalid);
    assert_eq!(bind(&mut ports, 53, B, 2), NetMemResponse::Done);
}

#[test]
fn last_listener_frees_the_port_after_others_left() {
    let mut ports = UdpPorts::new();
    bind(&mut ports, 53, A, 1);
    bind(&mut ports, 53, B, 2);
    ports.close(53, B);
    assert_eq!(ports.close(53, A), NetMemResponse::Done);
    assert!(ports.table().ports().is_empty());
    assert!(bound_ports(&ports).is_empty());
}

#[test]
fn port_outlives_its_owner() {
    let mut ports = UdpPorts::new();
    bind(&mut ports, 53, A, 1);
    let handle = ports.table().socket(53);
    bind(&mut ports, 53, B, 2);
    bind(&mut ports, 53, C, 3);
    assert_eq!(ports.close(53, A), NetMemResponse::Done);
    assert_eq!(ports.table().socket(53), handle);
    let mut cids = ports.table().receivers(53);
    cids.sort();
    assert_eq!(cids, [2, 3]);
    assert_eq!(ports.close(53, B), NetMemResponse::Done);
    assert_eq!(ports.close(53, C), NetMemResponse::Done);
    assert!(ports.table().ports().is_empty());
    assert!(bound_ports(&ports).is_empty());
}

#[test]
fn strangers_change_nothing() {
    let mut ports = UdpPorts::new();
    bind(&mut ports, 53, A, 1);
    bind(&mut ports, 53, C, 3);
    assert_eq!(ports.close(53, B), NetMemResponse::Invalid);
    assert_eq!(ports.table().receivers(53), [1, 3]);
    assert_eq!(bound_ports(&ports), [53]);
    assert_eq!(ports.take_disconnect(), None);
    assert_eq!(ports.close(54, A), NetMemResponse::Invalid);
}

#[test]
fn closed_sockets_stay_in_the_set() {
    let mut ports = UdpPorts::new();
    bind(&mut ports, 53, A, 1);
    let handle = ports.table().socket(53).unwrap();
    assert!(ports.set_ttl(9, 53));
    assert_eq!(ports.transmit(53, Some(HOST), &[1], 1), NetMemResponse::Sent(1));
    assert_eq!(ports.close(53, A), NetMemResponse::Done);
    let socket = ports.sockets.get::<UdpSocket>(handle);
    assert!(!socket.is_open());
    assert!(socket.can_send());
    assert_eq!(socket.payload_send_capacity(), 1500);
    assert_eq!(socket.payload_recv_capacity(), 1500);
    assert_eq!(socket.hop_limit(), Some(9));
    drop(socket);
    // The port can be had again, with a socket of its own.
    assert_eq!(bind(&mut ports, 53, B, 2), NetMemResponse::Done);
    assert_ne!(ports.table().socket(53), Some(handle));
}

#[test]
fn ports_are_independent() {
    let mut ports = UdpPorts::new();
    bind(&mut ports, 53, A, 1);
    bind(&mut ports, 123, A, 2);
    bind(&mut ports, 53, B, 3);
    assert_ne!(ports.table().socket(53), ports.table().socket(123));
    ports.close(53, A);
    ports.close(53, B);
    assert_eq!(ports.table().ports(), [123]);
    assert_eq!(ports.table().receivers(123), [2]);
}

#[test]
fn hop_limits_read_back() {
    let mut ports = UdpPorts::new();
    bind(&mut ports, 53, A, 1);
    bind(&mut ports, 123, B, 2);
    assert_eq!(ports.get_ttl(53), 64);
    for (asked, given) in [(1, 1), (7, 7), (255, 255), (0, 64), (256, 64)] {
        assert!(ports.set_ttl(asked, 53));
        assert_eq!(ports.get_ttl(53), given);
    }
    assert_eq!(ports.get_ttl(123), 64);
}

#[test]
fn hop_limit_of_an_unbound_port() {
    let mut ports = UdpPorts::new();
    assert!(!ports.set_ttl(9, 53));
    assert_eq!(ports.get_ttl(53), usize::MAX);
}

#[test]
fn port_words_have_sixteen_bits() {
    let mut ports = UdpPorts::new();
    bind(&mut ports, 53, A, 1);
    assert!(ports.set_ttl(9, 0x1_0000 + 53));
    assert_eq!(ports.get_ttl(0x5_0000 + 53), 9);
}

const HOST: (NetIpAddr, u16) = (NetIpAddr::Ipv4([10, 0, 0, 1]), 4000);

#[test]
fn packets_are_sent() {
    let mut ports = UdpPorts::new();
    bind(&mut ports, 53, A, 1);
    assert_eq!(ports.transmit(53, Some(HOST), &[1, 2, 3, 4], 3), NetMemResponse::Sent(3));
    // The buffer holds one packet.
    assert_eq!(ports.transmit(53, Some(HOST), &[1], 1), NetMemResponse::LibraryError);
    assert_eq!(ports.transmit(53, Some(HOST), &[], 0), NetMemResponse::LibraryError);
    let v6 = (NetIpAddr::Ipv6([0xfe, 0x80, 0, 0, 0, 0, 0, 0, 0, 0, 0, 0, 0, 0, 0, 1]), 1);
    bind(&mut ports, 54, A, 1);
    assert_eq!(ports.transmit(54, Some(v6), &[], 0), NetMemResponse::Sent(0));
}

#[test]
fn packets_without_port_or_destination_are_invalid() {
    let mut ports = UdpPorts::new();
    assert_eq!(ports.transmit(53, Some(HOST), &[1], 1), NetMemResponse::Invalid);
    bind(&mut ports, 53, A, 1);
    assert_eq!(ports.transmit(53, None, &[1], 1), NetMemResponse::Invalid);
}

#[test]
fn packets_that_cannot_be_sent() {
    let mut ports = UdpPorts::new();
    bind(&mut ports, 53, A, 1);
    let data = [0u8; 2000];
    assert_eq!(ports.transmit(53, Some(HOST), &data, 1501), NetMemResponse::LibraryError);
    assert_eq!(
        ports.transmit(53, Some((HOST.0, 0)), &data, 1),
        NetMemResponse::LibraryError
    );
    assert_eq!(
        ports.transmit(53, Some((NetIpAddr::Ipv4([0, 0, 0, 0]), 7)), &data, 1),
        NetMemResponse::LibraryError
    );
    assert_eq!(
        ports.transmit(53, Some((NetIpAddr::Ipv6([0; 16]), 7)), &data, 1),
        NetMemResponse::LibraryError
    );
    assert_eq!(ports.transmit(53, Some(HOST), &data, 1500), NetMemResponse::Sent(1500));
}

#[test]
fn packets_turned_away_leave_no_trace() {
    let mut ports = UdpPorts::new();
    bind(&mut ports, 53, A, 1);
    let data = [0u8; 2000];
    for _ in 0..3 {
        for (destination, len) in [
            (HOST, 1501),
            ((HOST.0, 0), 1),
            ((NetIpAddr::Ipv4([0, 0, 0, 0]), 7), 1),
        ] {
            assert_eq!(
                ports.transmit(53, Some(destination), &data, len),
                NetMemResponse::LibraryError
            );
        }
    }
    assert_eq!(ports.transmit(53, Some(HOST), &data, 1500), NetMemResponse::Sent(1500));
}

#[test]
fn packets_are_received() {
    let addr = IpAddress::v4(127, 0, 0, 1);
    let mut iface = EthernetInterfaceBuilder::new(Loopback::new())
        .ethernet_addr(EthernetAddress([2, 0, 0, 0, 0, 1]))
        .neighbor_cache(NeighborCache::new(BTreeMap::new()))
        .ip_addrs([IpCidr::new(addr, 8)])
        .finalize();
    let mut ports = UdpPorts::new();
    bind(&mut ports, 53, A, 1);
    bind(&mut ports, 54, B, 2);
    let here = (NetIpAddr::Ipv4([127, 0, 0, 1]), 54);
    assert!(ports.receive(54, 5).is_none());
    assert_eq!(ports.transmit(53, Some(here), &[5, 6, 7], 3), NetMemResponse::Sent(3));
    for millis in 0..20 {
        let _ = iface.poll(&mut ports.sockets, Instant::from_millis(100 * millis));
    }
    let response = ports.receive(54, 5).unwrap();
    assert!(matches!(response.endpoint_ip_addr, NetIpAddr::Ipv4([127, 0, 0, 1])));
    assert_eq!((response.endpoint_port, response.len), (53, 3));
    assert_eq!(response.data, [5, 6, 7, 0, 0]);
    // A packet is handed out once, to the port that it was for.
    assert!(ports.receive(54, 5).is_none());
    assert!(ports.receive(53, 5).is_none());
    assert!(ports.receive(55, 5).is_none());
}

#[test]
fn answers_to_transmissions() {
    assert_eq!(transmit_reply(12, true), NetMemResponse::Sent(12));
    assert_eq!(transmit_reply(12, false), NetMemResponse::LibraryError);
}

#[test]
fn responses_have_a_fixed_length() {
    let response = udp_response(NetIpAddr::Ipv4([1, 2, 3, 4]), 99, &[5, 6, 7], 5);
    assert!(matches!(response.endpoint_ip_addr, NetIpAddr::Ipv4([1, 2, 3, 4])));
    assert_eq!((response.endpoint_port, response.len), (99, 3));
    assert_eq!(response.data, [5, 6, 7, 0, 0]);
    let response = udp_response(NetIpAddr::Ipv6([9; 16]), 1, &[5, 6, 7], 2);
    assert_eq!(response.len, 3);
    assert_eq!(response.data, [5, 6]);
    let response = udp_response(NetIpAddr::Ipv6([9; 16]), 1, &vec![1; 65538], 0);
    assert_eq!(response.len, 2);
}
